//! The columnar batch: an accumulating builder whose column buffers stay
//! row-aligned across every append, and the immutable batch that a finish
//! freezes them into.

use vstd::prelude::*;
use crate::document::{Document, Identification};
use crate::strings::{content_length_of, parse_i32_or_neg1, split_commas, split_commas_exec};

verus! {

/// One logical row of the columnar layout, at specification level: the
/// value every column holds for one appended document, with `None` as the
/// explicit absent marker.
#[verifier::ext_equal]
pub struct Row {
    pub warc_record_id: Option<Seq<char>>,
    pub warc_refers_to: Option<Seq<char>>,
    pub warc_target_uri: Option<Seq<char>>,
    pub warc_date: Option<Seq<char>>,
    pub content: Seq<char>,
    pub identified_doc_lang: Seq<char>,
    pub identified_doc_prob: u32,
    pub sentences_langs: Seq<Option<Seq<char>>>,
    pub sentences_probs: Seq<Option<u32>>,
    pub warc_identified_content_language: Option<Seq<Seq<char>>>,
    pub harmful_pp: Option<u32>,
    pub tlsh: Option<Seq<char>>,
    pub quality_warnings: Option<Seq<Seq<char>>>,
    pub categories: Option<Seq<Seq<char>>>,
    pub warc_type: Option<Seq<char>>,
    pub content_length: Option<i32>,
    pub warc_block_digest: Option<Seq<char>>,
    pub content_type: Option<Seq<char>>,
}

/// The language of one sentence entry, absent when the sentence was not
/// identified.
pub open spec fn sentence_lang(o: Option<Identification>) -> Option<Seq<char>> {
    match o {
        Some(id) => Some(id.label@),
        None => None,
    }
}

/// The confidence bits of one sentence entry.
pub open spec fn sentence_prob(o: Option<Identification>) -> Option<u32> {
    match o {
        Some(id) => Some(id.prob_bits),
        None => None,
    }
}

/// The row that appending `doc` adds to every column: required fields as
/// they stand, the declared-language list split at commas, the declared
/// length parsed with the -1 fallback, absent fields marked absent.
pub open spec fn row_of(doc: Document) -> Row {
    Row {
        warc_record_id: doc.warc_headers.warc_record_id.deep_view(),
        warc_refers_to: doc.warc_headers.warc_refers_to.deep_view(),
        warc_target_uri: doc.warc_headers.warc_target_uri.deep_view(),
        warc_date: doc.warc_headers.warc_date.deep_view(),
        content: doc.content@,
        identified_doc_lang: doc.metadata.identification.label@,
        identified_doc_prob: doc.metadata.identification.prob_bits,
        sentences_langs: Seq::new(
            doc.metadata.sentence_identifications@.len(),
            |i: int| sentence_lang(doc.metadata.sentence_identifications@[i]),
        ),
        sentences_probs: Seq::new(
            doc.metadata.sentence_identifications@.len(),
            |i: int| sentence_prob(doc.metadata.sentence_identifications@[i]),
        ),
        warc_identified_content_language: match doc.warc_headers.warc_identified_content_language {
            Some(s) => Some(split_commas(s@)),
            None => None,
        },
        harmful_pp: doc.metadata.harmful_pp_bits,
        tlsh: doc.metadata.tlsh.deep_view(),
        quality_warnings: doc.metadata.quality_warnings.deep_view(),
        categories: doc.metadata.categories.deep_view(),
        warc_type: doc.warc_headers.warc_type.deep_view(),
        content_length: match doc.warc_headers.content_length {
            Some(s) => Some(content_length_of(s@)),
            None => None,
        },
        warc_block_digest: doc.warc_headers.warc_block_digest.deep_view(),
        content_type: doc.warc_headers.content_type.deep_view(),
    }
}

/// The column buffers, one per field of the layout, appended to in
/// document order and row-index-aligned.
pub struct Columns {
    pub warc_record_id: Vec<Option<String>>,
    pub warc_refers_to: Vec<Option<String>>,
    pub warc_target_uri: Vec<Option<String>>,
    pub warc_date: Vec<Option<String>>,
    pub content: Vec<String>,
    pub identified_doc_lang: Vec<String>,
    pub identified_doc_prob: Vec<u32>,
    pub sentences_langs: Vec<Vec<Option<String>>>,
    pub sentences_probs: Vec<Vec<Option<u32>>>,
    pub warc_identified_content_language: Vec<Option<Vec<String>>>,
    pub harmful_pp: Vec<Option<u32>>,
    pub tlsh: Vec<Option<String>>,
    pub quality_warnings: Vec<Option<Vec<String>>>,
    pub categories: Vec<Option<Vec<String>>>,
    pub warc_type: Vec<Option<String>>,
    pub content_length: Vec<Option<i32>>,
    pub warc_block_digest: Vec<Option<String>>,
    pub content_type: Vec<Option<String>>,
}

impl Columns {
    /// The number of logical rows.
    pub open spec fn len(self) -> nat {
        self.content@.len()
    }

    /// Every column holds exactly one entry per logical row, and the two
    /// per-sentence columns of each row are aligned with each other.
    pub open spec fn wf(self) -> bool {
        &&& self.warc_record_id@.len() == self.len()
        &&& self.warc_refers_to@.len() == self.len()
        &&& self.warc_target_uri@.len() == self.len()
        &&& self.warc_date@.len() == self.len()
        &&& self.content@.len() == self.len()
        &&& self.identified_doc_lang@.len() == self.len()
        &&& self.identified_doc_prob@.len() == self.len()
        &&& self.sentences_langs@.len() == self.len()
        &&& self.sentences_probs@.len() == self.len()
        &&& self.warc_identified_content_language@.len() == self.len()
        &&& self.harmful_pp@.len() == self.len()
        &&& self.tlsh@.len() == self.len()
        &&& self.quality_warnings@.len() == self.len()
        &&& self.categories@.len() == self.len()
        &&& self.warc_type@.len() == self.len()
        &&& self.content_length@.len() == self.len()
        &&& self.warc_block_digest@.len() == self.len()
        &&& self.content_type@.len() == self.len()
        &&& forall|i: int|
            0 <= i < self.len() ==> (#[trigger] self.sentences_langs@[i])@.len()
                == self.sentences_probs@[i]@.len()
    }

    /// The i-th logical row, assembled from the i-th entry of every column.
    pub open spec fn row(self, i: int) -> Row {
        Row {
            warc_record_id: self.warc_record_id.deep_view()[i],
            warc_refers_to: self.warc_refers_to.deep_view()[i],
            warc_target_uri: self.warc_target_uri.deep_view()[i],
            warc_date: self.warc_date.deep_view()[i],
            content: self.content.deep_view()[i],
            identified_doc_lang: self.identified_doc_lang.deep_view()[i],
            identified_doc_prob: self.identified_doc_prob@[i],
            sentences_langs: self.sentences_langs.deep_view()[i],
            sentences_probs: self.sentences_probs.deep_view()[i],
            warc_identified_content_language: self.warc_identified_content_language.deep_view()[i],
            harmful_pp: self.harmful_pp@[i],
            tlsh: self.tlsh.deep_view()[i],
            quality_warnings: self.quality_warnings.deep_view()[i],
            categories: self.categories.deep_view()[i],
            warc_type: self.warc_type.deep_view()[i],
            content_length: self.content_length@[i],
            warc_block_digest: self.warc_block_digest.deep_view()[i],
            content_type: self.content_type.deep_view()[i],
        }
    }

    /// All logical rows, in append order.
    pub open spec fn rows(self) -> Seq<Row> {
        Seq::new(self.len(), |i: int| self.row(i))
    }

    /// Empty column buffers.
    pub fn new() -> (c: Columns)
        ensures
            c.wf(),
            c.rows() == Seq::<Row>::empty(),
    {
        let c = Columns {
            warc_record_id: Vec::new(),
            warc_refers_to: Vec::new(),
            warc_target_uri: Vec::new(),
            warc_date: Vec::new(),
            content: Vec::new(),
            identified_doc_lang: Vec::new(),
            identified_doc_prob: Vec::new(),
            sentences_langs: Vec::new(),
            sentences_probs: Vec::new(),
            warc_identified_content_language: Vec::new(),
            harmful_pp: Vec::new(),
            tlsh: Vec::new(),
            quality_warnings: Vec::new(),
            categories: Vec::new(),
            warc_type: Vec::new(),
            content_length: Vec::new(),
            warc_block_digest: Vec::new(),
            content_type: Vec::new(),
        };
        proof {
            assert(c.rows() =~= Seq::<Row>::empty());
        }
        c
    }

    /// Push one entry into every column: present fields as values, absent
    /// fields as the absent marker, so the columns stay aligned.
    pub fn append(&mut self, doc: &Document)
        requires
            old(self).wf(),
        ensures
            final(self).wf(),
            final(self).rows() == old(self).rows().push(row_of(*doc)),
    {
        self.warc_record_id.push(clone_opt_string(&doc.warc_headers.warc_record_id));
        self.warc_refers_to.push(clone_opt_string(&doc.warc_headers.warc_refers_to));
        self.warc_target_uri.push(clone_opt_string(&doc.warc_headers.warc_target_uri));
        self.warc_date.push(clone_opt_string(&doc.warc_headers.warc_date));
        self.content.push(doc.content.clone());
        self.identified_doc_lang.push(doc.metadata.identification.label.clone());
        self.identified_doc_prob.push(doc.metadata.identification.prob_bits);

        let n = doc.metadata.sentence_identifications.len();
        let mut langs: Vec<Option<String>> = Vec::new();
        let mut probs: Vec<Option<u32>> = Vec::new();
        let mut j: usize = 0;
        proof {
            assert(langs.deep_view() =~= Seq::new(
                0,
                |i: int| sentence_lang(doc.metadata.sentence_identifications@[i]),
            ));
            assert(probs@ =~= Seq::new(
                0,
                |i: int| sentence_prob(doc.metadata.sentence_identifications@[i]),
            ));
        }
        while j < n
            invariant
                j <= n,
                n == doc.metadata.sentence_identifications@.len(),
                langs.deep_view() == Seq::new(
                    j as nat,
                    |i: int| sentence_lang(doc.metadata.sentence_identifications@[i]),
                ),
                probs@ == Seq::new(
                    j as nat,
                    |i: int| sentence_prob(doc.metadata.sentence_identifications@[i]),
                ),
            decreases n - j,
        {
            let ghost pre_langs = langs.deep_view();
            match &doc.metadata.sentence_identifications[j] {
                Some(id) => {
                    langs.push(Some(id.label.clone()));
                    probs.push(Some(id.prob_bits));
                },
                None => {
                    langs.push(None);
                    probs.push(None);
                },
            }
            proof {
                assert(langs.deep_view() =~= pre_langs.push(
                    sentence_lang(doc.metadata.sentence_identifications@[j as int]),
                ));
                assert(langs.deep_view() =~= Seq::new(
                    (j + 1) as nat,
                    |i: int| sentence_lang(doc.metadata.sentence_identifications@[i]),
                ));
                assert(probs@ =~= Seq::new(
                    (j + 1) as nat,
                    |i: int| sentence_prob(doc.metadata.sentence_identifications@[i]),
                ));
            }
            j = j + 1;
        }
        self.sentences_langs.push(langs);
        self.sentences_probs.push(probs);

        let id_langs: Option<Vec<String>> = match &doc.warc_headers.warc_identified_content_language {
            Some(s) => Some(split_commas_exec(s.as_str())),
            None => None,
        };
        self.warc_identified_content_language.push(id_langs);

        self.harmful_pp.push(doc.metadata.harmful_pp_bits);
        self.tlsh.push(clone_opt_string(&doc.metadata.tlsh));
        self.quality_warnings.push(clone_opt_vec_string(&doc.metadata.quality_warnings));
        self.categories.push(clone_opt_vec_string(&doc.metadata.categories));
        self.warc_type.push(clone_opt_string(&doc.warc_headers.warc_type));

        let length: Option<i32> = match &doc.warc_headers.content_length {
            Some(s) => Some(parse_i32_or_neg1(s.as_str())),
            None => None,
        };
        self.content_length.push(length);
        self.warc_block_digest.push(clone_opt_string(&doc.warc_headers.warc_block_digest));
        self.content_type.push(clone_opt_string(&doc.warc_headers.content_type));

        proof {
            assert(final(self).rows() =~~= old(self).rows().push(row_of(*doc)));
        }
    }
}

/// The accumulating half of the two-phase batch life cycle: documents are
/// appended here, and `finish` drains the buffers into an immutable
/// `ColumnBatch`, never aliasing the two states.
pub struct RecordBuilder {
    pub cols: Columns,
}

/// The frozen half: the columns of every document appended between two
/// finishes, immutable once produced.
pub struct ColumnBatch {
    pub cols: Columns,
}

impl RecordBuilder {
    /// The columns are aligned.
    pub open spec fn wf(self) -> bool {
        self.cols.wf()
    }

    /// The rows appended since the last finish, in order.
    pub open spec fn rows(self) -> Seq<Row> {
        self.cols.rows()
    }

    /// An empty builder.
    pub fn new() -> (b: RecordBuilder)
        ensures
            b.wf(),
            b.rows() == Seq::<Row>::empty(),
    {
        RecordBuilder { cols: Columns::new() }
    }

    /// Append one document as one row of every column.
    pub fn append(&mut self, doc: &Document)
        requires
            old(self).wf(),
        ensures
            final(self).wf(),
            final(self).rows() == old(self).rows().push(row_of(*doc)),
    {
        self.cols.append(doc);
    }

    /// Append a batch of documents in order.
    pub fn append_all(&mut self, docs: &Vec<Document>)
        requires
            old(self).wf(),
        ensures
            final(self).wf(),
            final(self).rows() == old(self).rows() + docs@.map_values(|d: Document| row_of(d)),
    {
        let ghost target = docs@.map_values(|d: Document| row_of(d));
        let mut i: usize = 0;
        proof {
            assert(old(self).rows() + target.subrange(0, 0) =~= old(self).rows());
        }
        while i < docs.len()
            invariant
                i <= docs@.len(),
                self.wf(),
                target == docs@.map_values(|d: Document| row_of(d)),
                self.rows() == old(self).rows() + target.subrange(0, i as int),
            decreases docs@.len() - i,
        {
            self.cols.append(&docs[i]);
            proof {
                assert(target[i as int] == row_of(docs@[i as int]));
                let ghost stepped = (old(self).rows() + target.subrange(0, i as int)).push(
                    target[i as int],
                );
                assert(stepped =~= old(self).rows() + target.subrange(0, i + 1));
            }
            i = i + 1;
        }
        proof {
            assert(target.subrange(0, docs@.len() as int) =~= target);
        }
    }

    /// Rows appended since the last finish.
    pub fn row_count(&self) -> (n: usize)
        requires
            self.wf(),
        ensures
            n == self.rows().len(),
    {
        self.cols.content.len()
    }

    /// Freeze the accumulated rows into an immutable batch and reset the
    /// builder to empty. The batch holds exactly the rows appended before
    /// this call, and rows appended afterwards start a new, initially
    /// empty accumulation — rows from before and after a finish are never
    /// mixed into one batch.
    pub fn finish(&mut self) -> (b: ColumnBatch)
        requires
            old(self).wf(),
        ensures
            b.wf(),
            b.rows() == old(self).rows(),
            final(self).wf(),
            final(self).rows() == Seq::<Row>::empty(),
    {
        let mut fresh = Columns::new();
        core::mem::swap(&mut self.cols, &mut fresh);
        ColumnBatch { cols: fresh }
    }
}

impl ColumnBatch {
    /// The columns are aligned.
    pub open spec fn wf(self) -> bool {
        self.cols.wf()
    }

    /// The rows of the batch, in append order.
    pub open spec fn rows(self) -> Seq<Row> {
        self.cols.rows()
    }

    /// Number of rows in the batch.
    pub fn row_count(&self) -> (n: usize)
        requires
            self.wf(),
        ensures
            n == self.rows().len(),
    {
        self.cols.content.len()
    }
}

/// Law: in a well-formed set of column buffers every column holds exactly
/// one entry per appended document — after N appends, N entries each,
/// absent markers included.
pub proof fn lemma_columns_aligned(c: Columns)
    requires
        c.wf(),
    ensures
        c.warc_record_id@.len() == c.rows().len(),
        c.warc_refers_to@.len() == c.rows().len(),
        c.warc_target_uri@.len() == c.rows().len(),
        c.warc_date@.len() == c.rows().len(),
        c.content@.len() == c.rows().len(),
        c.identified_doc_lang@.len() == c.rows().len(),
        c.identified_doc_prob@.len() == c.rows().len(),
        c.sentences_langs@.len() == c.rows().len(),
        c.sentences_probs@.len() == c.rows().len(),
        c.warc_identified_content_language@.len() == c.rows().len(),
        c.harmful_pp@.len() == c.rows().len(),
        c.tlsh@.len() == c.rows().len(),
        c.quality_warnings@.len() == c.rows().len(),
        c.categories@.len() == c.rows().len(),
        c.warc_type@.len() == c.rows().len(),
        c.content_length@.len() == c.rows().len(),
        c.warc_block_digest@.len() == c.rows().len(),
        c.content_type@.len() == c.rows().len(),
{
}

/// The column names of the layout, in column order: a stable contract
/// that consumers of the output files depend on. The per-sentence
/// language list is named `sentence_langs`, asymmetric beside
/// `sentences_probs`; consumers depend on the names exactly as they
/// stand.
pub fn column_names() -> (r: Vec<&'static str>)
    ensures
        r.deep_view() == seq![
            "warc_record_id"@,
            "warc_refers_to"@,
            "warc_target_uri"@,
            "warc_date"@,
            "content"@,
            "identified_doc_lang"@,
            "identified_doc_prob"@,
            "sentence_langs"@,
            "sentences_probs"@,
            "warc_identified_content_language"@,
            "harmful_pp"@,
            "tlsh"@,
            "quality_warnings"@,
            "categories"@,
            "warc_type"@,
            "content_length"@,
            "warc_block_digest"@,
            "content_type"@,
        ],
{
    let mut v: Vec<&'static str> = Vec::new();
    v.push("warc_record_id");
    v.push("warc_refers_to");
    v.push("warc_target_uri");
    v.push("warc_date");
    v.push("content");
    v.push("identified_doc_lang");
    v.push("identified_doc_prob");
    v.push("sentence_langs");
    v.push("sentences_probs");
    v.push("warc_identified_content_language");
    v.push("harmful_pp");
    v.push("tlsh");
    v.push("quality_warnings");
    v.push("categories");
    v.push("warc_type");
    v.push("content_length");
    v.push("warc_block_digest");
    v.push("content_type");
    proof {
        assert(v.deep_view() =~= seq![
            "warc_record_id"@,
            "warc_refers_to"@,
            "warc_target_uri"@,
            "warc_date"@,
            "content"@,
            "identified_doc_lang"@,
            "identified_doc_prob"@,
            "sentence_langs"@,
            "sentences_probs"@,
            "warc_identified_content_language"@,
            "harmful_pp"@,
            "tlsh"@,
            "quality_warnings"@,
            "categories"@,
            "warc_type"@,
            "content_length"@,
            "warc_block_digest"@,
            "content_type"@,
        ]);
    }
    v
}

/// Clone one optional string field, keeping its abstract value.
fn clone_opt_string(o: &Option<String>) -> (r: Option<String>)
    ensures
        r.deep_view() == o.deep_view(),
{
    match o {
        Some(s) => Some(s.clone()),
        None => None,
    }
}

/// Clone a list of strings, keeping its abstract value.
fn clone_vec_string(v: &Vec<String>) -> (r: Vec<String>)
    ensures
        r.deep_view() == v.deep_view(),
{
    let mut out: Vec<String> = Vec::new();
    let mut i: usize = 0;
    proof {
        assert(out.deep_view() =~= v.deep_view().subrange(0, 0));
    }
    while i < v.len()
        invariant
            i <= v@.len(),
            out.deep_view() == v.deep_view().subrange(0, i as int),
        decreases v@.len() - i,
    {
        let ghost pre = out.deep_view();
        out.push(v[i].clone());
        proof {
            assert(out.deep_view() =~= pre.push(v.deep_view()[i as int]));
            assert(out.deep_view() =~= v.deep_view().subrange(0, i + 1));
        }
        i = i + 1;
    }
    proof {
        assert(v.deep_view().subrange(0, v@.len() as int) =~= v.deep_view());
    }
    out
}

/// Clone an optional list of strings, keeping its abstract value.
fn clone_opt_vec_string(o: &Option<Vec<String>>) -> (r: Option<Vec<String>>)
    ensures
        r.deep_view() == o.deep_view(),
{
    match o {
        Some(v) => Some(clone_vec_string(v)),
        None => None,
    }
}

} // verus!
