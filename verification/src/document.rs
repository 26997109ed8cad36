//! The unit of ingestion: one annotated document, carrying its archive
//! provenance, its extracted text, and its per-document and per-sentence
//! language identification.
//!
//! Probabilities travel through the core as the raw bit patterns of the
//! 32-bit values they were produced as; the core never computes on them,
//! it only keeps them aligned with their rows.

use vstd::prelude::*;

verus! {

/// A language label together with the identifier's confidence, the latter
/// held as the bit pattern of the produced 32-bit value.
pub struct Identification {
    pub label: String,
    pub prob_bits: u32,
}

/// Archive-level provenance of a document. Every field is optional: an
/// absent field is recorded as absent in the columnar output rather than
/// invented.
pub struct WarcHeaders {
    pub warc_record_id: Option<String>,
    pub warc_refers_to: Option<String>,
    pub warc_target_uri: Option<String>,
    pub warc_date: Option<String>,
    /// Comma-separated list of declared content languages.
    pub warc_identified_content_language: Option<String>,
    pub warc_type: Option<String>,
    /// Declared length, kept as the header's own string; the columnar
    /// encoding parses it and falls back to -1 when it is not a number.
    pub content_length: Option<String>,
    pub warc_block_digest: Option<String>,
    pub content_type: Option<String>,
}

/// Annotation metadata of a document. Whole-document identification is
/// required; everything else may be absent.
pub struct Metadata {
    pub identification: Identification,
    /// One entry per sentence, in sentence order; an entry is absent when
    /// the sentence could not be identified.
    pub sentence_identifications: Vec<Option<Identification>>,
    pub harmful_pp_bits: Option<u32>,
    pub tlsh: Option<String>,
    pub quality_warnings: Option<Vec<String>>,
    pub categories: Option<Vec<String>>,
}

/// One decoded annotation record: provenance, extracted text, metadata.
pub struct Document {
    pub warc_headers: WarcHeaders,
    pub content: String,
    pub metadata: Metadata,
}

} // verus!
