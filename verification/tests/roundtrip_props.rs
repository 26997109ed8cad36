use arrow::array::{
    ArrayRef, Float32Builder, Int32Builder, LargeStringBuilder, ListBuilder, RecordBatch,
    StringBuilder,
};
use bytes::Bytes;
use cc_annotator::batch::{column_names, ColumnBatch, RecordBuilder};
use cc_annotator::document::{Document, Identification, Metadata, WarcHeaders};
use parquet::arrow::arrow_reader::ParquetRecordBatchReaderBuilder;
use parquet::arrow::ArrowWriter;
use parquet::basic::{Compression, ZstdLevel};
use parquet::file::properties::WriterProperties;
use std::sync::Arc;

fn sample_doc(n: usize) -> Document {
    Document {
        warc_headers: WarcHeaders {
            warc_record_id: Some(format!("<urn:uuid:{}>", n)),
            warc_refers_to: if n % 2 == 0 { None } else { Some(format!("<urn:uuid:ref-{}>", n)) },
            warc_target_uri: Some(format!("https://example.com/{}", n)),
            warc_date: Some(String::from("2023-05-01T00:00:00Z")),
            warc_identified_content_language: if n % 3 == 0 {
                None
            } else {
                Some(String::from("en,fra"))
            },
            warc_type: Some(String::from("conversion")),
            content_length: if n % 2 == 0 { Some(format!("{}", 100 + n)) } else { None },
            warc_block_digest: Some(format!("sha1:{}", n)),
            content_type: Some(String::from("text/plain")),
        },
        content: format!("document body number {}", n),
        metadata: Metadata {
            identification: Identification {
                label: String::from("en"),
                prob_bits: (0.5_f32 + n as f32 / 100.0).to_bits(),
            },
            sentence_identifications: vec![
                Some(Identification { label: String::from("en"), prob_bits: 0.8_f32.to_bits() }),
                None,
                Some(Identification { label: String::from("fr"), prob_bits: 0.6_f32.to_bits() }),
            ],
            harmful_pp_bits: if n % 2 == 0 { Some(0.1_f32.to_bits()) } else { None },
            tlsh: if n % 2 == 0 { Some(format!("T1HASH{}", n)) } else { None },
            quality_warnings: if n % 2 == 0 { Some(vec![String::from("short_sentences")]) } else { None },
            categories: Some(vec![String::from("news"), String::from("sports")]),
        },
    }
}

fn opt_list(
    b: &mut ListBuilder<StringBuilder>,
    v: &Option<Vec<String>>,
) {
    match v {
        Some(items) => {
            for it in items {
                b.values().append_value(it);
            }
            b.append(true);
        }
        None => b.append(false),
    }
}

fn to_arrow(cb: &ColumnBatch) -> RecordBatch {
    let c = &cb.cols;
    let n = c.content.len();
    let mut warc_record_id = StringBuilder::new();
    let mut warc_refers_to = StringBuilder::new();
    let mut warc_target_uri = StringBuilder::new();
    let mut warc_date = StringBuilder::new();
    let mut content = LargeStringBuilder::new();
    let mut identified_doc_lang = StringBuilder::new();
    let mut identified_doc_prob = Float32Builder::new();
    let mut sentences_langs = ListBuilder::new(StringBuilder::new());
    let mut sentences_probs = ListBuilder::new(Float32Builder::new());
    let mut id_content_language = ListBuilder::new(StringBuilder::new());
    let mut harmful_pp = Float32Builder::new();
    let mut tlsh = StringBuilder::new();
    let mut quality_warnings = ListBuilder::new(StringBuilder::new());
    let mut categories = ListBuilder::new(StringBuilder::new());
    let mut warc_type = StringBuilder::new();
    let mut content_length = Int32Builder::new();
    let mut warc_block_digest = StringBuilder::new();
    let mut content_type = StringBuilder::new();
    for i in 0..n {
        warc_record_id.append_option(c.warc_record_id[i].as_ref());
        warc_refers_to.append_option(c.warc_refers_to[i].as_ref());
        warc_target_uri.append_option(c.warc_target_uri[i].as_ref());
        warc_date.append_option(c.warc_date[i].as_ref());
        content.append_value(&c.content[i]);
        identified_doc_lang.append_value(&c.identified_doc_lang[i]);
        identified_doc_prob.append_value(f32::from_bits(c.identified_doc_prob[i]));
        for lang in &c.sentences_langs[i] {
            sentences_langs.values().append_option(lang.as_ref());
        }
        sentences_langs.append(true);
        for prob in &c.sentences_probs[i] {
            sentences_probs.values().append_option(prob.map(f32::from_bits));
        }
        sentences_probs.append(true);
        opt_list(&mut id_content_language, &c.warc_identified_content_language[i]);
        harmful_pp.append_option(c.harmful_pp[i].map(f32::from_bits));
        tlsh.append_option(c.tlsh[i].as_ref());
        opt_list(&mut quality_warnings, &c.quality_warnings[i]);
        opt_list(&mut categories, &c.categories[i]);
        warc_type.append_option(c.warc_type[i].as_ref());
        content_length.append_option(c.content_length[i]);
        warc_block_digest.append_option(c.warc_block_digest[i].as_ref());
        content_type.append_option(c.content_type[i].as_ref());
    }
    let names = column_names();
    let arrays: Vec<ArrayRef> = vec![
        Arc::new(warc_record_id.finish()),
        Arc::new(warc_refers_to.finish()),
        Arc::new(warc_target_uri.finish()),
        Arc::new(warc_date.finish()),
        Arc::new(content.finish()),
        Arc::new(identified_doc_lang.finish()),
        Arc::new(identified_doc_prob.finish()),
        Arc::new(sentences_langs.finish()),
        Arc::new(sentences_probs.finish()),
        Arc::new(id_content_language.finish()),
        Arc::new(harmful_pp.finish()),
        Arc::new(tlsh.finish()),
        Arc::new(quality_warnings.finish()),
        Arc::new(categories.finish()),
        Arc::new(warc_type.finish()),
        Arc::new(content_length.finish()),
        Arc::new(warc_block_digest.finish()),
        Arc::new(content_type.finish()),
    ];
    let nullable = [
        true, true, true, true, false, false, false, true, true, true, true, true, true, true,
        true, true, true, true,
    ];
    RecordBatch::try_from_iter_with_nullable(
        names
            .iter()
            .map(|s| s.to_string())
            .zip(arrays)
            .zip(nullable)
            .map(|((name, array), null_ok)| (name, array, null_ok)),
    )
    .expect("columns are row-aligned")
}

#[test]
fn parquet_round_trip_reproduces_the_batch() {
    let mut b = RecordBuilder::new();
    for i in 0..7 {
        b.append(&sample_doc(i));
    }
    let cb = b.finish();
    let batch = to_arrow(&cb);
    assert_eq!(batch.num_rows(), cb.row_count());
    assert_eq!(batch.num_columns(), 18);

    let props = WriterProperties::builder()
        .set_compression(Compression::ZSTD(ZstdLevel::try_new(3).expect("fixed level")))
        .build();
    let mut buf: Vec<u8> = Vec::new();
    let mut writer =
        ArrowWriter::try_new(&mut buf, batch.schema(), Some(props)).expect("writer opens");
    writer.write(&batch).expect("batch encodes");
    writer.close().expect("file finishes");

    let reader = ParquetRecordBatchReaderBuilder::try_new(Bytes::from(buf))
        .expect("file parses")
        .build()
        .expect("reader builds");
    let decoded: Vec<RecordBatch> = reader.map(|r| r.expect("rows decode")).collect();
    let decoded =
        arrow::compute::concat_batches(&batch.schema(), &decoded).expect("one combined batch");

    // identical row count, column names, nesting and nullability
    assert_eq!(decoded.num_rows(), batch.num_rows());
    assert_eq!(decoded.schema(), batch.schema());
    // identical values, absent markers included
    assert_eq!(decoded, batch);
}
