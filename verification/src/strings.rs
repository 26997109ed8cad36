//! Verified string helpers of the columnar encoding: splitting a
//! comma-separated field, reading a decimal integer with the -1 fallback,
//! and printing a decimal sequence number.

use vstd::prelude::*;
use vstd::string::StrSliceExecFns;

verus! {

/// Fields of `s` split at commas, the split still to the right of `cur`:
/// `cur` accumulates the characters of the field being read.
pub open spec fn split_commas_from(s: Seq<char>, cur: Seq<char>) -> Seq<Seq<char>>
    decreases s.len(),
{
    if s.len() == 0 {
        seq![cur]
    } else if s[0] == ',' {
        seq![cur] + split_commas_from(s.subrange(1, s.len() as int), Seq::empty())
    } else {
        split_commas_from(s.subrange(1, s.len() as int), cur.push(s[0]))
    }
}

/// The comma-separated fields of `s`, in order. An empty `s` has one
/// empty field, and consecutive commas produce empty fields, as the
/// standard splitter does.
pub open spec fn split_commas(s: Seq<char>) -> Seq<Seq<char>> {
    split_commas_from(s, Seq::empty())
}

/// Split `s` at commas into owned fields.
pub fn split_commas_exec(s: &str) -> (r: Vec<String>)
    ensures
        r.deep_view() == split_commas(s@),
{
    let n = s.unicode_len();
    let mut out: Vec<String> = Vec::new();
    let mut start: usize = 0;
    let mut i: usize = 0;
    proof {
        assert(s@.subrange(0, n as int) =~= s@);
        assert(s@.subrange(0, 0) =~= Seq::<char>::empty());
        assert(out.deep_view() =~= Seq::<Seq<char>>::empty());
    }
    while i < n
        invariant
            start <= i <= n,
            n == s@.len(),
            split_commas(s@) == out.deep_view() + split_commas_from(
                s@.subrange(i as int, n as int),
                s@.subrange(start as int, i as int),
            ),
        decreases n - i,
    {
        let c = s.get_char(i);
        if c == ',' {
            let field = s.substring_char(start, i).to_owned();
            let ghost pre = out.deep_view();
            proof {
                let rest = s@.subrange(i as int, n as int);
                assert(rest[0] == ',');
                assert(rest.subrange(1, rest.len() as int) =~= s@.subrange(i + 1, n as int));
            }
            out.push(field);
            proof {
                assert(out.deep_view() =~= pre.push(s@.subrange(start as int, i as int)));
                assert(pre.push(s@.subrange(start as int, i as int)) + split_commas_from(
                    s@.subrange(i + 1, n as int),
                    Seq::empty(),
                ) =~= pre + (seq![s@.subrange(start as int, i as int)] + split_commas_from(
                    s@.subrange(i + 1, n as int),
                    Seq::empty(),
                )));
                assert(s@.subrange(i + 1, i + 1) =~= Seq::<char>::empty());
            }
            start = i + 1;
        } else {
            proof {
                let rest = s@.subrange(i as int, n as int);
                assert(rest[0] == s@[i as int]);
                assert(rest.subrange(1, rest.len() as int) =~= s@.subrange(i + 1, n as int));
                assert(s@.subrange(start as int, i as int).push(s@[i as int]) =~= s@.subrange(
                    start as int,
                    i + 1,
                ));
            }
        }
        i = i + 1;
    }
    let field = s.substring_char(start, n).to_owned();
    let ghost pre = out.deep_view();
    proof {
        assert(split_commas_from(s@.subrange(n as int, n as int), s@.subrange(
            start as int,
            n as int,
        )) =~= seq![s@.subrange(start as int, n as int)]);
    }
    out.push(field);
    proof {
        assert(out.deep_view() =~= pre.push(s@.subrange(start as int, n as int)));
        assert(pre.push(s@.subrange(start as int, n as int)) =~= pre + seq![s@.subrange(
            start as int,
            n as int,
        )]);
    }
    out
}

/// A decimal digit character.
pub open spec fn is_digit(c: char) -> bool {
    '0' <= c && c <= '9'
}

/// Numeric value of one digit character.
pub open spec fn digit_val(c: char) -> int {
    c as int - '0' as int
}

/// Every character of `s` is a decimal digit.
pub open spec fn all_digits(s: Seq<char>) -> bool {
    forall|i: int| 0 <= i < s.len() ==> is_digit(#[trigger] s[i])
}

/// Value of a digit string read in base ten.
pub open spec fn digits_val(s: Seq<char>) -> int
    decreases s.len(),
{
    if s.len() == 0 {
        0
    } else {
        digits_val(s.drop_last()) * 10 + digit_val(s.last())
    }
}

/// The 32-bit integer that the standard decimal parser reads from `s`:
/// an optional sign, then at least one digit, nothing else, and a value
/// within range; otherwise nothing.
pub open spec fn parsed_i32(s: Seq<char>) -> Option<i32> {
    let signed = s.len() > 0 && (s[0] == '+' || s[0] == '-');
    let ds = if signed {
        s.subrange(1, s.len() as int)
    } else {
        s
    };
    if ds.len() > 0 && all_digits(ds) {
        let m = digits_val(ds);
        let v: int = if s.len() > 0 && s[0] == '-' {
            -m
        } else {
            m
        };
        if i32::MIN <= v <= i32::MAX {
            Some(v as i32)
        } else {
            None
        }
    } else {
        None
    }
}

/// The declared content length of a record: the parsed value of the
/// header string, or -1 when the string is not a 32-bit decimal number.
pub open spec fn content_length_of(s: Seq<char>) -> i32 {
    match parsed_i32(s) {
        Some(v) => v,
        None => -1i32,
    }
}

/// A digit string's value is never negative.
proof fn lemma_digits_val_nonneg(s: Seq<char>)
    requires
        all_digits(s),
    ensures
        digits_val(s) >= 0,
    decreases s.len(),
{
    if s.len() > 0 {
        assert(all_digits(s.drop_last())) by {
            assert(forall|i: int| 0 <= i < s.len() - 1 ==> is_digit(#[trigger] s.drop_last()[i]));
        }
        lemma_digits_val_nonneg(s.drop_last());
    }
}

/// Appending digits to a digit string keeps its value at least as large.
proof fn lemma_digits_val_grows(s: Seq<char>, t: Seq<char>)
    requires
        all_digits(t),
        s.len() <= t.len(),
        s == t.subrange(0, s.len() as int),
    ensures
        digits_val(t) >= digits_val(s),
    decreases t.len() - s.len(),
{
    if s.len() < t.len() {
        let u = t.drop_last();
        assert(all_digits(u)) by {
            assert(forall|i: int| 0 <= i < u.len() ==> is_digit(#[trigger] u[i]));
        }
        assert(s =~= u.subrange(0, s.len() as int));
        lemma_digits_val_grows(s, u);
        lemma_digits_val_nonneg(u);
        assert(digits_val(t) == digits_val(u) * 10 + digit_val(t.last()));
        assert(digit_val(t.last()) >= 0);
        assert(digits_val(u) * 10 >= digits_val(u)) by (nonlinear_arith)
            requires digits_val(u) >= 0;
    } else {
        assert(s =~= t);
    }
}

/// Read `s` as a 32-bit decimal integer, with -1 for anything that does
/// not parse — the policy the columnar encoding applies to the declared
/// content length.
pub fn parse_i32_or_neg1(s: &str) -> (r: i32)
    ensures
        r == content_length_of(s@),
{
    let n = s.unicode_len();
    let mut i: usize = 0;
    let mut neg = false;
    if n > 0 {
        let c0 = s.get_char(0);
        if c0 == '+' || c0 == '-' {
            i = 1;
            neg = c0 == '-';
        }
    }
    let ghost ds = s@.subrange(i as int, n as int);
    proof {
        if i == 0 {
            assert(ds =~= s@);
        }
    }
    if i >= n {
        proof {
            assert(ds.len() == 0);
        }
        return -1;
    }
    let first: usize = i;
    let mut acc: i64 = 0;
    let mut over = false;
    while i < n
        invariant
            first <= i <= n,
            n == s@.len(),
            ds == s@.subrange(first as int, n as int),
            first == (if n > 0 && (s@[0] == '+' || s@[0] == '-') {
                1int
            } else {
                0int
            }),
            neg == (n > 0 && s@[0] == '-'),
            first == 0 ==> ds == s@,
            all_digits(s@.subrange(first as int, i as int)),
            !over ==> acc == digits_val(s@.subrange(first as int, i as int)),
            !over ==> 0 <= acc <= 2147483648i64,
            over ==> digits_val(s@.subrange(first as int, i as int)) > 2147483648,
            over ==> all_digits(ds) ==> digits_val(ds) > 2147483648,
        decreases n - i,
    {
        let c = s.get_char(i);
        if !(c >= '0' && c <= '9') {
            proof {
                assert(ds[i - first] == s@[i as int]);
                assert(!all_digits(ds));
            }
            return -1;
        }
        let d: i64 = (c as u32 as i64) - 48;
        proof {
            let pre = s@.subrange(first as int, i as int);
            let post = s@.subrange(first as int, i + 1);
            assert(post.drop_last() =~= pre);
            assert(post.last() == s@[i as int]);
            assert(d == digit_val(s@[i as int]));
            if over {
                lemma_digits_val_nonneg(post);
                assert(digits_val(post) == digits_val(pre) * 10 + digit_val(post.last()));
                assert(digits_val(pre) * 10 > 2147483648 * 10) by (nonlinear_arith)
                    requires digits_val(pre) > 2147483648;
            }
        }
        if !over {
            acc = acc * 10 + d;
            if acc > 2147483648 {
                over = true;
            }
        }
        proof {
            if over && all_digits(ds) {
                let post = s@.subrange(first as int, i + 1);
                assert(post =~= ds.subrange(0, post.len() as int));
                lemma_digits_val_grows(post, ds);
            }
        }
        i = i + 1;
    }
    proof {
        assert(s@.subrange(first as int, i as int) =~= ds);
    }
    if over {
        return -1;
    }
    if neg {
        proof {
            lemma_digits_val_nonneg(ds);
        }
        return (-acc) as i32;
    }
    if acc <= 2147483647 {
        acc as i32
    } else {
        -1
    }
}

/// The character of one decimal digit value.
pub open spec fn digit_char(d: int) -> char {
    if d == 0 {
        '0'
    } else if d == 1 {
        '1'
    } else if d == 2 {
        '2'
    } else if d == 3 {
        '3'
    } else if d == 4 {
        '4'
    } else if d == 5 {
        '5'
    } else if d == 6 {
        '6'
    } else if d == 7 {
        '7'
    } else if d == 8 {
        '8'
    } else {
        '9'
    }
}

/// Decimal digits of a positive number, most significant first; empty
/// for zero and below.
pub open spec fn dec_digits(n: int) -> Seq<char>
    decreases n,
{
    if n <= 0 {
        Seq::empty()
    } else {
        dec_digits(n / 10).push(digit_char(n % 10))
    }
}

/// The decimal rendering of a number, `0` included.
pub open spec fn dec_str(n: int) -> Seq<char> {
    if n == 0 {
        seq!['0']
    } else {
        dec_digits(n)
    }
}

/// One digit value as a string slice.
fn digit_str(d: u8) -> (r: &'static str)
    requires
        d < 10,
    ensures
        r@ == seq![digit_char(d as int)],
{
    proof {
        reveal_strlit("0");
        reveal_strlit("1");
        reveal_strlit("2");
        reveal_strlit("3");
        reveal_strlit("4");
        reveal_strlit("5");
        reveal_strlit("6");
        reveal_strlit("7");
        reveal_strlit("8");
        reveal_strlit("9");
    }
    let r = if d == 0 {
        "0"
    } else if d == 1 {
        "1"
    } else if d == 2 {
        "2"
    } else if d == 3 {
        "3"
    } else if d == 4 {
        "4"
    } else if d == 5 {
        "5"
    } else if d == 6 {
        "6"
    } else if d == 7 {
        "7"
    } else if d == 8 {
        "8"
    } else {
        "9"
    };
    proof {
        assert(r@ =~= seq![digit_char(d as int)]);
    }
    r
}

/// Digit values collected least significant first, read back as the
/// character sequence they denote.
pub open spec fn rev_digit_chars(ds: Seq<u8>) -> Seq<char> {
    Seq::new(ds.len(), |i: int| digit_char(ds[ds.len() - 1 - i] as int))
}

/// Render `n` in decimal.
pub fn format_usize(n: usize) -> (r: String)
    ensures
        r@ == dec_str(n as int),
{
    let mut out = String::new();
    if n == 0 {
        out.append(digit_str(0));
        proof {
            assert(out@ =~= seq!['0']);
        }
        return out;
    }
    let mut digits: Vec<u8> = Vec::new();
    let mut m: usize = n;
    proof {
        assert(rev_digit_chars(digits@) =~= Seq::<char>::empty());
    }
    while m > 0
        invariant
            dec_digits(n as int) == dec_digits(m as int) + rev_digit_chars(digits@),
            forall|j: int| 0 <= j < digits@.len() ==> #[trigger] digits@[j] < 10,
        decreases m,
    {
        let d: u8 = (m % 10) as u8;
        let ghost pre = digits@;
        digits.push(d);
        m = m / 10;
        proof {
            assert(rev_digit_chars(pre.push(d)) =~= seq![digit_char(d as int)] + rev_digit_chars(
                pre,
            ));
            assert(dec_digits(m as int).push(digit_char(d as int)) =~= dec_digits(m as int) + seq![
                digit_char(d as int)
            ]);
        }
    }
    let mut i: usize = digits.len();
    proof {
        assert(dec_digits(n as int) =~= rev_digit_chars(digits@));
        assert(out@ =~= rev_digit_chars(digits@).subrange(
            digits@.len() - i,
            digits@.len() - i,
        ));
    }
    while i > 0
        invariant
            i <= digits@.len(),
            forall|j: int| 0 <= j < digits@.len() ==> #[trigger] digits@[j] < 10,
            out@ == rev_digit_chars(digits@).subrange(0, digits@.len() - i),
        decreases i,
    {
        i = i - 1;
        let d = digits[i];
        let ghost pre = out@;
        out.append(digit_str(d));
        proof {
            assert(out@ =~= rev_digit_chars(digits@).subrange(0, digits@.len() - i));
        }
    }
    proof {
        assert(rev_digit_chars(digits@).subrange(0, digits@.len() as int) =~= rev_digit_chars(
            digits@,
        ));
        assert(dec_str(n as int) == dec_digits(n as int));
    }
    out
}

} // verus!
