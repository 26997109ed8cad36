//! Per-file processing policy: documents stream into the builder, and a
//! partition is cut exactly when the row threshold is reached, with a
//! final flush at end of input even when nothing was accumulated.

use vstd::prelude::*;
use vstd::arithmetic::div_mod::lemma_fundamental_div_mod_converse;
use vstd::arithmetic::mul::lemma_mul_inequality;
use crate::batch::{row_of, ColumnBatch, RecordBuilder, Row};
use crate::document::Document;

verus! {

/// One input file's accumulation state: the builder, the row threshold
/// owned by this caller of the builder, and the sequence number the next
/// partition of this file will carry.
pub struct FileProcessor {
    pub builder: RecordBuilder,
    pub threshold: usize,
    pub next_part: usize,
    /// Row counts of the partitions already emitted for this file, in
    /// emission order: the k-th partition (1-based) held `emitted[k - 1]`
    /// rows.
    pub emitted: Ghost<Seq<nat>>,
}

impl FileProcessor {
    /// The builder is aligned, the threshold positive, fewer rows than
    /// the threshold are pending, and the next sequence number continues
    /// the emitted partitions without a gap.
    pub open spec fn wf(self) -> bool {
        &&& self.builder.wf()
        &&& 1 <= self.threshold
        &&& self.builder.rows().len() < self.threshold
        &&& self.next_part == self.emitted@.len() + 1
    }

    /// A fresh processor: nothing accumulated, first partition numbered 1.
    pub fn new(threshold: usize) -> (p: FileProcessor)
        requires
            1 <= threshold,
        ensures
            p.wf(),
            p.threshold == threshold,
            p.next_part == 1,
            p.emitted@ == Seq::<nat>::empty(),
            p.builder.rows() == Seq::<Row>::empty(),
    {
        FileProcessor {
            builder: RecordBuilder::new(),
            threshold,
            next_part: 1,
            emitted: Ghost(Seq::empty()),
        }
    }

    /// Append one document; when that brings the accumulation up to the
    /// threshold, emit the finished batch together with its sequence
    /// number and start a new, empty accumulation.
    pub fn push(&mut self, doc: &Document) -> (out: Option<(ColumnBatch, usize)>)
        requires
            old(self).wf(),
            old(self).next_part < usize::MAX,
        ensures
            final(self).wf(),
            final(self).threshold == old(self).threshold,
            match out {
                Some(p) => {
                    &&& old(self).builder.rows().len() + 1 >= old(self).threshold
                    &&& p.0.wf()
                    &&& p.0.rows() == old(self).builder.rows().push(row_of(*doc))
                    &&& p.1 == old(self).next_part
                    &&& p.1 == old(self).emitted@.len() + 1
                    &&& final(self).next_part == old(self).next_part + 1
                    &&& final(self).emitted@ == old(self).emitted@.push(p.0.rows().len())
                    &&& final(self).builder.rows() == Seq::<Row>::empty()
                },
                None => {
                    &&& old(self).builder.rows().len() + 1 < old(self).threshold
                    &&& final(self).builder.rows() == old(self).builder.rows().push(
                        row_of(*doc),
                    )
                    &&& final(self).next_part == old(self).next_part
                    &&& final(self).emitted@ == old(self).emitted@
                },
            },
    {
        self.builder.append(doc);
        let count = self.builder.row_count();
        if count >= self.threshold {
            let batch = self.builder.finish();
            let part = self.next_part;
            self.next_part = self.next_part + 1;
            proof {
                self.emitted@ = self.emitted@.push(batch.rows().len());
            }
            Some((batch, part))
        } else {
            None
        }
    }

    /// End of input: emit whatever is accumulated — possibly zero rows —
    /// as one final partition, so even an empty input yields a file.
    pub fn flush(&mut self) -> (out: (ColumnBatch, usize))
        requires
            old(self).wf(),
            old(self).next_part < usize::MAX,
        ensures
            final(self).wf(),
            final(self).threshold == old(self).threshold,
            out.0.wf(),
            out.0.rows() == old(self).builder.rows(),
            out.1 == old(self).next_part,
            out.1 == old(self).emitted@.len() + 1,
            final(self).next_part == old(self).next_part + 1,
            final(self).emitted@ == old(self).emitted@.push(out.0.rows().len()),
            final(self).builder.rows() == Seq::<Row>::empty(),
    {
        let batch = self.builder.finish();
        let part = self.next_part;
        self.next_part = self.next_part + 1;
        proof {
            self.emitted@ = self.emitted@.push(batch.rows().len());
        }
        (batch, part)
    }
}

/// The rows of the whole document stream, in order.
pub open spec fn doc_rows(docs: Seq<Document>) -> Seq<Row> {
    docs.map_values(|d: Document| row_of(d))
}

/// Where partition `k` (0-based; its file carries number `k + 1`) of a
/// stream of `n` rows under threshold `t` ends: after `t` rows, or at
/// the end of the stream for the final partition.
pub open spec fn part_end(n: int, t: int, k: int) -> int {
    if (k + 1) * t <= n {
        (k + 1) * t
    } else {
        n
    }
}

/// Law: a file of `n` documents under threshold `t` produces exactly
/// `n / t + 1` partitions, numbered 1 upward in emission order, and the
/// partition numbered `k + 1` holds exactly the rows `k*t .. (k+1)*t` of
/// the stream, the last one the remainder — zero rows included, so an
/// empty input still yields exactly one empty partition.
pub fn process_documents(docs: &Vec<Document>, threshold: usize) -> (parts: Vec<
    (ColumnBatch, usize),
>)
    requires
        1 <= threshold,
        docs@.len() + 1 < usize::MAX,
    ensures
        parts@.len() == docs@.len() as int / threshold as int + 1,
        forall|k: int| 0 <= k < parts@.len() ==> (#[trigger] parts@[k]).1 == k + 1,
        forall|k: int| 0 <= k < parts@.len() ==> (#[trigger] parts@[k]).0.wf(),
        forall|k: int|
            0 <= k < parts@.len() ==> (#[trigger] parts@[k]).0.rows() == doc_rows(
                docs@,
            ).subrange(
                k * threshold as int,
                part_end(docs@.len() as int, threshold as int, k),
            ),
{
    let ghost t = threshold as int;
    let ghost n = docs@.len() as int;
    let mut proc = FileProcessor::new(threshold);
    let mut parts: Vec<(ColumnBatch, usize)> = Vec::new();
    let mut i: usize = 0;
    proof {
        assert(doc_rows(docs@).subrange(0, 0) =~= Seq::<Row>::empty());
    }
    while i < docs.len()
        invariant
            i <= docs@.len(),
            n == docs@.len(),
            t == threshold,
            1 <= t,
            n + 1 < usize::MAX,
            proc.wf(),
            proc.threshold == threshold,
            proc.emitted@.len() == parts@.len(),
            i == parts@.len() * t + proc.builder.rows().len(),
            proc.builder.rows() == doc_rows(docs@).subrange(parts@.len() * t, i as int),
            forall|k: int| 0 <= k < parts@.len() ==> (#[trigger] parts@[k]).1 == k + 1,
            forall|k: int| 0 <= k < parts@.len() ==> (#[trigger] parts@[k]).0.wf(),
            forall|k: int|
                0 <= k < parts@.len() ==> (#[trigger] parts@[k]).0.rows() == doc_rows(
                    docs@,
                ).subrange(k * t, (k + 1) * t),
        decreases docs@.len() - i,
    {
        let ghost q = parts@.len() as int;
        let ghost r = proc.builder.rows().len() as int;
        proof {
            assert(q <= q * t) by (nonlinear_arith)
                requires
                    1 <= t,
                    0 <= q,
            ;
        }
        let out = proc.push(&docs[i]);
        proof {
            assert(doc_rows(docs@)[i as int] == row_of(docs@[i as int]));
            assert(doc_rows(docs@).subrange(q * t, i as int).push(doc_rows(docs@)[i as int])
                =~= doc_rows(docs@).subrange(q * t, i + 1));
        }
        match out {
            Some(p) => {
                proof {
                    assert(r + 1 == t);
                    assert((q + 1) * t == q * t + t) by (nonlinear_arith);
                }
                parts.push(p);
                proof {
                    assert(proc.builder.rows() =~= doc_rows(docs@).subrange(
                        parts@.len() * t,
                        i + 1,
                    ));
                }
            },
            None => {},
        }
        i = i + 1;
    }
    let ghost q = parts@.len() as int;
    proof {
        assert(q <= q * t) by (nonlinear_arith)
            requires
                1 <= t,
                0 <= q,
        ;
    }
    let (last, part) = proc.flush();
    parts.push((last, part));
    proof {
        let r_last = n - q * t;
        lemma_fundamental_div_mod_converse(n, t, q, r_last);
        assert((q + 1) * t == q * t + t) by (nonlinear_arith);
        assert forall|k: int|
            0 <= k < parts@.len() implies (#[trigger] parts@[k]).0.rows() == doc_rows(
            docs@,
        ).subrange(k * t, part_end(n, t, k)) by {
            if k < q {
                lemma_mul_inequality(k + 1, q, t);
                assert(part_end(n, t, k) == (k + 1) * t);
            } else {
                assert(part_end(n, t, q) == n);
            }
        }
    }
    parts
}

/// Law: a file's output partitions are numbered contiguously starting at
/// 1 with no gaps — every emission carries the number `emitted.len() + 1`
/// at the moment it happens (see the contracts of `push` and `flush`), so
/// in every reachable state the numbers used so far are exactly
/// 1 ..= `emitted.len()`, and the next one extends them by one.
pub proof fn lemma_parts_contiguous(p: FileProcessor)
    requires
        p.wf(),
    ensures
        p.next_part == p.emitted@.len() + 1,
{
}

} // verus!
