use cc_annotator::document::{Document, Identification, Metadata, WarcHeaders};
use cc_annotator::pipeline::FileProcessor;
use cc_annotator::reader::{parse_http_response, record_plain_text, split_records};

#[test]
fn splits_headers_and_body_in_order() {
    let raw = b"HTTP/1.1 200 OK\r\nContent-Type: text/plain\r\nX-Tag: 1\r\nX-Tag: 2\r\n\r\nhello body";
    let (headers, body) = parse_http_response(raw).expect("well-formed record");
    assert_eq!(
        headers,
        vec![
            (String::from("Content-Type"), String::from("text/plain")),
            (String::from("X-Tag"), String::from("1")),
            (String::from("X-Tag"), String::from("2")),
        ]
    );
    assert_eq!(body, "hello body");
}

#[test]
fn partial_head_gives_no_result() {
    let raw = b"HTTP/1.1 200 OK\r\nContent-Type: text";
    assert!(parse_http_response(raw).is_none());
}

#[test]
fn malformed_head_gives_no_result() {
    let raw = b"\xff\xfe not http at all";
    assert!(parse_http_response(raw).is_none());
}

#[test]
fn undecodable_body_gives_no_result() {
    let raw = b"HTTP/1.1 200 OK\r\nContent-Type: text/plain\r\n\r\n\xff\xfe\xfd";
    assert!(parse_http_response(raw).is_none());
}

#[test]
fn record_text_extracts_plain_text() {
    let raw = b"HTTP/1.1 200 OK\r\nContent-Type: text/html\r\n\r\nplain words";
    let (headers, text) = record_plain_text(raw).expect("well-formed record");
    assert_eq!(headers.len(), 1);
    assert_eq!(text, "plain words");
}

#[test]
fn record_text_strips_markup() {
    let raw = b"HTTP/1.1 200 OK\r\nContent-Type: text/html\r\n\r\n<p>Hi</p>";
    let (_, text) = record_plain_text(raw).expect("well-formed record");
    assert!(text.contains("Hi"));
    assert!(!text.contains("<p>"));
}

#[test]
fn split_records_keeps_only_decodable_records() {
    let records: Vec<Vec<u8>> = vec![
        b"HTTP/1.1 200 OK\r\nContent-Type: text/plain\r\n\r\nfirst".to_vec(),
        b"\xff\xfe broken".to_vec(),
        b"HTTP/1.1 200 OK\r\nContent-Type: text/plain\r\n\r\nsecond".to_vec(),
    ];
    let rows = split_records(&records);
    assert_eq!(rows.len(), 2);
    assert_eq!(rows[0].1, "first");
    assert_eq!(rows[1].1, "second");
    assert_eq!(rows[0].0, vec![(String::from("Content-Type"), String::from("text/plain"))]);
}

fn doc_from_text(text: String) -> Document {
    Document {
        warc_headers: WarcHeaders {
            warc_record_id: None,
            warc_refers_to: None,
            warc_target_uri: None,
            warc_date: None,
            warc_identified_content_language: None,
            warc_type: None,
            content_length: None,
            warc_block_digest: None,
            content_type: None,
        },
        content: text,
        metadata: Metadata {
            identification: Identification { label: String::from("en"), prob_bits: 0 },
            sentence_identifications: Vec::new(),
            harmful_pp_bits: None,
            tlsh: None,
            quality_warnings: None,
            categories: None,
        },
    }
}

#[test]
fn malformed_record_is_skipped_without_touching_siblings() {
    let records: Vec<&[u8]> = vec![
        b"HTTP/1.1 200 OK\r\nContent-Type: text/plain\r\n\r\nfirst",
        b"\xff\xfe broken record",
        b"HTTP/1.1 200 OK\r\nContent-Type: text/plain\r\n\r\nsecond",
    ];
    let mut p = FileProcessor::new(90_000);
    let mut skipped: usize = 0;
    for raw in records {
        match record_plain_text(raw) {
            Some((_, text)) => {
                assert!(p.push(&doc_from_text(text)).is_none());
            }
            None => skipped += 1,
        }
    }
    let (batch, part) = p.flush();
    assert_eq!(skipped, 1);
    assert_eq!(part, 1);
    assert_eq!(batch.row_count(), 2);
    assert_eq!(batch.cols.content, vec![String::from("first"), String::from("second")]);
}
