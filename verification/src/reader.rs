//! Payload splitting for archived responses: locate the protocol header
//! block in a record's raw bytes, keep the header lines in order, and
//! extract the body as text — or report "no result" so the caller skips
//! the record and continues with its siblings.

use vstd::prelude::*;
use vstd::slice::slice_subrange;
use vstd::utf8::{decode_utf8, valid_utf8};

verus! {

/// Length in bytes of the complete response head that the header parser
/// finds at the start of `raw`, if it finds one; a partial or malformed
/// head has none. A function of the bytes alone.
pub uninterp spec fn http_head_len(raw: Seq<u8>) -> Option<int>;

/// The header (name, value) pairs the header parser reads out of `raw`,
/// in order, duplicates preserved, values decoded lossily. A function of
/// the bytes alone.
pub uninterp spec fn http_headers(raw: Seq<u8>) -> Seq<(Seq<char>, Seq<char>)>;

/// Relies on httparse::Response::parse: on a complete response head it
/// reports the head's byte count — never more than the buffer holds —
/// and fills the header slots in input order; a partial head, a parse
/// error, or more headers than the slots hold gives no result. Header
/// names are text; values are decoded lossily.
#[verifier::external_body]
fn parse_head(raw: &[u8]) -> (r: Option<(usize, Vec<(String, String)>)>)
    ensures
        match r {
            Some(p) => {
                &&& http_head_len(raw@) == Some(p.0 as int)
                &&& p.0 <= raw@.len()
                &&& p.1.deep_view() == http_headers(raw@)
            },
            None => http_head_len(raw@) is None,
        },
{
    let mut headers = [httparse::EMPTY_HEADER; 64];
    let mut res = httparse::Response::new(&mut headers);
    let status = res.parse(raw).ok()?;
    let len = match status {
        httparse::Status::Complete(l) => l,
        httparse::Status::Partial => return None,
    };
    let pairs = res
        .headers
        .iter()
        .map(|h| (h.name.to_string(), String::from_utf8_lossy(h.value).into_owned()))
        .collect();
    Some((len, pairs))
}

/// Relies on core::str::from_utf8: it succeeds exactly on valid UTF-8
/// and decodes it.
#[verifier::external_body]
fn utf8_to_string(b: &[u8]) -> (r: Option<String>)
    ensures
        match r {
            Some(s) => valid_utf8(b@) && s@ == decode_utf8(b@),
            None => !valid_utf8(b@),
        },
{
    match core::str::from_utf8(b) {
        Ok(s) => Some(s.to_string()),
        Err(_) => None,
    }
}

/// Split one record's raw payload into its protocol header lines and its
/// body text. There is a result exactly when a complete response head is
/// found and the body decodes as text; otherwise the record is skipped —
/// skipping is not an error and must not abort the file.
pub fn parse_http_response(raw: &[u8]) -> (r: Option<(Vec<(String, String)>, String)>)
    ensures
        r is Some <==> (http_head_len(raw@) matches Some(len) && valid_utf8(
            raw@.skip(len),
        )),
        r matches Some(p) ==> (http_head_len(raw@) matches Some(len) && {
            &&& 0 <= len <= raw@.len()
            &&& p.0.deep_view() == http_headers(raw@)
            &&& p.1@ == decode_utf8(raw@.skip(len))
        }),
{
    match parse_head(raw) {
        None => None,
        Some((len, headers)) => {
            let body = slice_subrange(raw, len, raw.len());
            proof {
                assert(body@ =~= raw@.skip(len as int));
            }
            match utf8_to_string(body) {
                None => None,
                Some(text) => Some((headers, text)),
            }
        },
    }
}

/// The plain text that the HTML-to-text converter extracts from markup.
/// A function of the input characters alone.
pub uninterp spec fn text_of_html(html: Seq<char>) -> Seq<char>;

/// Relies on nanohtml2text::html2text: the extracted text depends on the
/// input characters alone.
#[verifier::external_body]
fn html_to_text(s: &str) -> (r: String)
    ensures
        r@ == text_of_html(s@),
{
    nanohtml2text::html2text(s)
}

/// A record's payload splits cleanly: a complete response head was
/// found and the body decodes as text.
pub open spec fn decodable(raw: Seq<u8>) -> bool {
    http_head_len(raw) matches Some(len) && valid_utf8(raw.skip(len))
}

/// What one decodable record contributes: its headers and the plain
/// text of its body.
pub open spec fn record_row(raw: Seq<u8>) -> (Seq<(Seq<char>, Seq<char>)>, Seq<char>) {
    match http_head_len(raw) {
        Some(len) => (http_headers(raw), text_of_html(decode_utf8(raw.skip(len)))),
        None => (http_headers(raw), Seq::empty()),
    }
}

/// The contributions of a file's records, in file order: exactly one
/// entry per decodable record, and nothing for a malformed one.
pub open spec fn decoded_rows(rs: Seq<Seq<u8>>) -> Seq<(Seq<(Seq<char>, Seq<char>)>, Seq<char>)>
    decreases rs.len(),
{
    if rs.len() == 0 {
        Seq::empty()
    } else {
        let rest = decoded_rows(rs.drop_first());
        if decodable(rs[0]) {
            seq![record_row(rs[0])] + rest
        } else {
            rest
        }
    }
}

/// Split every record of a file, skipping the malformed ones. The
/// result holds exactly the decodable records' headers and text, in
/// order — a malformed record is dropped without changing what its
/// well-formed siblings contribute.
pub fn split_records(records: &Vec<Vec<u8>>) -> (r: Vec<(Vec<(String, String)>, String)>)
    ensures
        r.deep_view() == decoded_rows(records.deep_view()),
{
    let mut out: Vec<(Vec<(String, String)>, String)> = Vec::new();
    let mut i: usize = 0;
    let ghost all = records.deep_view();
    proof {
        assert(out.deep_view() =~= Seq::<(Seq<(Seq<char>, Seq<char>)>, Seq<char>)>::empty());
        assert(all.skip(0) =~= all);
    }
    while i < records.len()
        invariant
            i <= records@.len(),
            all == records.deep_view(),
            decoded_rows(all) == out.deep_view() + decoded_rows(all.skip(i as int)),
        decreases records@.len() - i,
    {
        let ghost suffix = all.skip(i as int);
        proof {
            assert(suffix[0] == all[i as int]);
            assert(suffix.drop_first() =~= all.skip(i + 1));
            assert(all[i as int] =~= records@[i as int]@);
        }
        match record_plain_text(records[i].as_slice()) {
            Some(pair) => {
                let ghost pre = out.deep_view();
                proof {
                    assert(pair.deep_view() =~~= record_row(all[i as int]));
                }
                out.push(pair);
                proof {
                    assert(out.deep_view() =~~= pre.push(record_row(all[i as int])));
                    assert(pre.push(record_row(all[i as int])) + decoded_rows(all.skip(i + 1))
                        =~= pre + (seq![record_row(all[i as int])] + decoded_rows(
                        all.skip(i + 1),
                    )));
                }
            },
            None => {},
        }
        i = i + 1;
    }
    proof {
        assert(decoded_rows(all.skip(records@.len() as int)) =~= Seq::<
            (Seq<(Seq<char>, Seq<char>)>, Seq<char>),
        >::empty());
    }
    out
}

/// The headers and the extracted plain text of one archived response
/// payload: split the record, then strip the body's markup. No result
/// exactly when the record itself yields none, and the record is then
/// skipped, not fatal.
pub fn record_plain_text(raw: &[u8]) -> (r: Option<(Vec<(String, String)>, String)>)
    ensures
        r is Some <==> (http_head_len(raw@) matches Some(len) && valid_utf8(
            raw@.skip(len),
        )),
        r matches Some(p) ==> (http_head_len(raw@) matches Some(len) && {
            &&& p.0.deep_view() == http_headers(raw@)
            &&& p.1@ == text_of_html(decode_utf8(raw@.skip(len)))
        }),
{
    match parse_http_response(raw) {
        None => None,
        Some((headers, body)) => {
            let text = html_to_text(body.as_str());
            Some((headers, text))
        },
    }
}

} // verus!
