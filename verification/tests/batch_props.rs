use cc_annotator::batch::{column_names, RecordBuilder};
use cc_annotator::document::{Document, Identification, Metadata, WarcHeaders};

fn doc(content: &str) -> Document {
    Document {
        warc_headers: WarcHeaders {
            warc_record_id: Some(String::from("<urn:uuid:1>")),
            warc_refers_to: None,
            warc_target_uri: Some(String::from("https://example.com/")),
            warc_date: Some(String::from("2023-01-01T00:00:00Z")),
            warc_identified_content_language: Some(String::from("en,fr")),
            warc_type: Some(String::from("conversion")),
            content_length: Some(String::from("123")),
            warc_block_digest: None,
            content_type: Some(String::from("text/plain")),
        },
        content: String::from(content),
        metadata: Metadata {
            identification: Identification {
                label: String::from("en"),
                prob_bits: 0.93_f32.to_bits(),
            },
            sentence_identifications: vec![
                Some(Identification { label: String::from("en"), prob_bits: 0.9_f32.to_bits() }),
                None,
            ],
            harmful_pp_bits: None,
            tlsh: Some(String::from("T1A0B1C2")),
            quality_warnings: None,
            categories: Some(vec![String::from("news")]),
        },
    }
}

#[test]
fn row_count_matches_appends() {
    let mut b = RecordBuilder::new();
    assert_eq!(b.row_count(), 0);
    for i in 0..3 {
        b.append(&doc(&format!("text {}", i)));
    }
    assert_eq!(b.row_count(), 3);
    // every column buffer holds exactly one (possibly absent) entry per row
    assert_eq!(b.cols.warc_record_id.len(), 3);
    assert_eq!(b.cols.warc_refers_to.len(), 3);
    assert_eq!(b.cols.warc_target_uri.len(), 3);
    assert_eq!(b.cols.warc_date.len(), 3);
    assert_eq!(b.cols.content.len(), 3);
    assert_eq!(b.cols.identified_doc_lang.len(), 3);
    assert_eq!(b.cols.identified_doc_prob.len(), 3);
    assert_eq!(b.cols.sentences_langs.len(), 3);
    assert_eq!(b.cols.sentences_probs.len(), 3);
    assert_eq!(b.cols.warc_identified_content_language.len(), 3);
    assert_eq!(b.cols.harmful_pp.len(), 3);
    assert_eq!(b.cols.tlsh.len(), 3);
    assert_eq!(b.cols.quality_warnings.len(), 3);
    assert_eq!(b.cols.categories.len(), 3);
    assert_eq!(b.cols.warc_type.len(), 3);
    assert_eq!(b.cols.content_length.len(), 3);
    assert_eq!(b.cols.warc_block_digest.len(), 3);
    assert_eq!(b.cols.content_type.len(), 3);
    assert_eq!(b.cols.warc_refers_to[0], None);
    assert_eq!(b.cols.harmful_pp[1], None);
}

#[test]
fn append_applies_column_rules() {
    let mut b = RecordBuilder::new();
    b.append(&doc("hello"));
    assert_eq!(
        b.cols.warc_identified_content_language[0],
        Some(vec![String::from("en"), String::from("fr")])
    );
    assert_eq!(b.cols.content_length[0], Some(123));
    assert_eq!(b.cols.sentences_langs[0], vec![Some(String::from("en")), None]);
    assert_eq!(b.cols.sentences_probs[0], vec![Some(0.9_f32.to_bits()), None]);
    assert_eq!(b.cols.sentences_langs[0].len(), b.cols.sentences_probs[0].len());
    assert_eq!(b.cols.identified_doc_lang[0], "en");
    assert_eq!(b.cols.categories[0], Some(vec![String::from("news")]));
    assert_eq!(b.cols.quality_warnings[0], None);

    let mut d = doc("x");
    d.warc_headers.content_length = Some(String::from("not a number"));
    b.append(&d);
    assert_eq!(b.cols.content_length[1], Some(-1));

    let mut d2 = doc("y");
    d2.warc_headers.content_length = None;
    d2.warc_headers.warc_identified_content_language = None;
    b.append(&d2);
    assert_eq!(b.cols.content_length[2], None);
    assert_eq!(b.cols.warc_identified_content_language[2], None);
}

#[test]
fn finish_never_mixes_rows() {
    let mut b = RecordBuilder::new();
    b.append(&doc("a"));
    b.append(&doc("b"));
    let first = b.finish();
    assert_eq!(first.row_count(), 2);
    assert_eq!(first.cols.content, vec![String::from("a"), String::from("b")]);
    assert_eq!(b.row_count(), 0);
    b.append(&doc("c"));
    let second = b.finish();
    assert_eq!(second.row_count(), 1);
    assert_eq!(second.cols.content, vec![String::from("c")]);
    assert_eq!(first.row_count(), 2);
}

#[test]
fn append_all_appends_in_order() {
    let mut b = RecordBuilder::new();
    let docs = vec![doc("one"), doc("two")];
    b.append_all(&docs);
    assert_eq!(b.row_count(), 2);
    assert_eq!(b.cols.content[0], "one");
    assert_eq!(b.cols.content[1], "two");
}

#[test]
fn column_names_are_the_stable_schema() {
    let names = column_names();
    assert_eq!(
        names,
        vec![
            "warc_record_id",
            "warc_refers_to",
            "warc_target_uri",
            "warc_date",
            "content",
            "identified_doc_lang",
            "identified_doc_prob",
            "sentence_langs",
            "sentences_probs",
            "warc_identified_content_language",
            "harmful_pp",
            "tlsh",
            "quality_warnings",
            "categories",
            "warc_type",
            "content_length",
            "warc_block_digest",
            "content_type",
        ]
    );
}
