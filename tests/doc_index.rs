use tabby_scheduler::{
    binarize_embedding, chunk_attributes, push_decimal, ChunkPipeline, ChunkRecord, DocBuilder,
    SourceDocument, CHUNK_SIZE,
};

fn document(id: &str, body: &str) -> SourceDocument {
    SourceDocument {
        id: id.to_string(),
        title: "Title".to_string(),
        link: "https://example.com/page".to_string(),
        body: body.to_string(),
    }
}

fn bits(values: &[f32]) -> Vec<u32> {
    values.iter().map(|v| v.to_bits()).collect()
}

/// Runs a pipeline to the end, with `embed` deciding the outcome of each chunk.
fn run(
    mut pipeline: ChunkPipeline,
    mut embed: impl FnMut(usize, &str) -> Option<Vec<u32>>,
) -> (Vec<String>, Vec<ChunkRecord>) {
    let mut texts = Vec::new();
    let mut records = Vec::new();
    let mut k = 0;
    while let Some(text) = pipeline.pending().cloned() {
        let outcome = embed(k, &text);
        texts.push(text);
        if let Some(r) = pipeline.advance(outcome) {
            records.push(r);
        }
        k += 1;
    }
    assert!(pipeline.is_done());
    (texts, records)
}

fn record_text(r: &ChunkRecord) -> String {
    assert_eq!(r.attributes.fields.len(), 1);
    assert_eq!(r.attributes.fields[0].name, "chunk_text");
    r.attributes.fields[0].value.clone()
}

#[test]
fn format_id_adds_namespace() {
    let b = DocBuilder::new();
    assert_eq!(b.format_id("abc"), "web:abc");
    assert_eq!(b.format_id(""), "web:");
}

#[test]
fn build_id_uses_document_id() {
    let b = DocBuilder::new();
    assert_eq!(b.build_id(&document("doc-17", "body")), "web:doc-17");
}

#[test]
fn build_attributes_holds_title_and_link() {
    let b = DocBuilder::new();
    let a = b.build_attributes(&document("x", "body"));
    assert_eq!(a.fields.len(), 2);
    assert_eq!(a.fields[0].name, "title");
    assert_eq!(a.fields[0].value, "Title");
    assert_eq!(a.fields[1].name, "link");
    assert_eq!(a.fields[1].value, "https://example.com/page");
}

#[test]
fn build_attributes_passes_empty_fields_through() {
    let b = DocBuilder::new();
    let d = SourceDocument {
        id: String::new(),
        title: String::new(),
        link: String::new(),
        body: String::new(),
    };
    let a = b.build_attributes(&d);
    assert_eq!(a.fields[0].value, "");
    assert_eq!(a.fields[1].value, "");
}

#[test]
fn chunk_attributes_holds_text() {
    let a = chunk_attributes(&"some chunk".to_string());
    assert_eq!(a.fields.len(), 1);
    assert_eq!(a.fields[0].name, "chunk_text");
    assert_eq!(a.fields[0].value, "some chunk");
}

#[test]
fn default_chunk_size() {
    assert_eq!(DocBuilder::new().chunk_size(), 2048);
    assert_eq!(CHUNK_SIZE, 2048);
}

#[test]
fn chunk_size_zero_is_refused() {
    assert!(DocBuilder::with_chunk_size(0).is_none());
    assert_eq!(DocBuilder::with_chunk_size(10).unwrap().chunk_size(), 10);
}

#[test]
fn decimal_digits() {
    for (n, expected) in [(0usize, "0"), (7, "7"), (10, "10"), (12345, "12345")] {
        let mut s = "n=".to_string();
        push_decimal(&mut s, n);
        assert_eq!(s, format!("n={expected}"));
    }
    let mut s = String::new();
    push_decimal(&mut s, usize::MAX);
    assert_eq!(s, usize::MAX.to_string());
}

#[test]
fn binarize_thresholds_on_zero() {
    let t = binarize_embedding(&bits(&[0.5, -0.25, 0.0, -3.0]));
    assert_eq!(
        t,
        vec!["embedding_one_0", "embedding_zero_1", "embedding_one_2", "embedding_zero_3"]
    );
}

#[test]
fn binarize_special_values() {
    let t = binarize_embedding(&bits(&[-0.0, f32::INFINITY, f32::NEG_INFINITY, f32::NAN]));
    assert_eq!(
        t,
        vec!["embedding_one_0", "embedding_one_1", "embedding_zero_2", "embedding_zero_3"]
    );
}

#[test]
fn binarize_zero_vector() {
    let t = binarize_embedding(&bits(&[0.0; 12]));
    assert_eq!(t.len(), 12);
    for (i, tok) in t.iter().enumerate() {
        assert_eq!(tok, &format!("embedding_one_{i}"));
    }
    assert_eq!(t[11], "embedding_one_11");
}

#[test]
fn binarize_empty_vector() {
    assert!(binarize_embedding(&[]).is_empty());
}

#[test]
fn binarize_is_deterministic() {
    let v = bits(&[0.1, -0.2, 0.3, -0.4, 0.0]);
    assert_eq!(binarize_embedding(&v), binarize_embedding(&v));
    let same_signs = bits(&[9.0, -1.0, 1e-9, -7.5, 2.0]);
    assert_eq!(binarize_embedding(&v), binarize_embedding(&same_signs));
}

#[test]
fn short_body_is_one_trimmed_chunk() {
    let b = DocBuilder::new();
    let p = b.build_chunk_attributes(document("a", "  hello world \n"));
    assert_eq!(p.num_chunks(), 1);
    assert_eq!(p.pending().unwrap(), "hello world");
}

#[test]
fn empty_body_gives_no_records() {
    let b = DocBuilder::new();
    let p = b.build_chunk_attributes(document("a", ""));
    assert_eq!(p.num_chunks(), 0);
    assert!(p.is_done());
    assert!(p.pending().is_none());
    let (texts, records) = run(p, |_, _| Some(vec![0]));
    assert!(texts.is_empty());
    assert!(records.is_empty());
}

#[test]
fn whitespace_body_gives_no_chunks() {
    let b = DocBuilder::new();
    let p = b.build_chunk_attributes(document("a", "  \n\t  \n"));
    assert_eq!(p.num_chunks(), 0);
    assert!(p.is_done());
}

#[test]
fn long_body_is_split_into_bounded_chunks() {
    let body = "lorem ipsum dolor sit amet. ".repeat(200);
    let body: String = body.chars().take(5000).collect();
    assert_eq!(body.chars().count(), 5000);
    let b = DocBuilder::new();
    let p = b.build_chunk_attributes(document("a", &body));
    assert!(p.num_chunks() >= 3);
    let (texts, _) = run(p, |_, _| None);
    assert!(texts.len() >= 3);
    for t in &texts {
        assert!(!t.is_empty());
        assert!(t.chars().count() <= 2048);
    }
}

#[test]
fn one_failed_embedding_of_three() {
    let b = DocBuilder::with_chunk_size(10).unwrap();
    let p = b.build_chunk_attributes(document("a", "Some text\n\nfrom a\ndocument"));
    assert_eq!(p.num_chunks(), 3);
    let (texts, records) = run(p, |k, _| if k == 1 { None } else { Some(bits(&[1.0, -1.0])) });
    assert_eq!(texts, vec!["Some text", "from a", "document"]);
    assert_eq!(records.len(), 2);
    assert_eq!(record_text(&records[0]), "Some text");
    assert_eq!(record_text(&records[1]), "document");
    assert_eq!(records[0].tokens, vec!["embedding_one_0", "embedding_zero_1"]);
}

#[test]
fn records_follow_chunk_order() {
    let b = DocBuilder::with_chunk_size(10).unwrap();
    let p = b.build_chunk_attributes(document("a", "Some text\n\nfrom a\ndocument"));
    let (texts, records) = run(p, |k, _| Some(bits(&[k as f32 - 1.0])));
    assert_eq!(records.len(), texts.len());
    for (r, t) in records.iter().zip(texts.iter()) {
        assert_eq!(&record_text(r), t);
    }
    assert_eq!(records[0].tokens, vec!["embedding_zero_0"]);
    assert_eq!(records[1].tokens, vec!["embedding_one_0"]);
    assert_eq!(records[2].tokens, vec!["embedding_one_0"]);
}

#[test]
fn failed_embedding_gives_no_record() {
    let b = DocBuilder::new();
    let mut p = b.build_chunk_attributes(document("a", "one chunk"));
    assert!(p.advance(None).is_none());
    assert!(p.is_done());
}

#[test]
fn every_embedding_failing_gives_no_records() {
    let b = DocBuilder::with_chunk_size(10).unwrap();
    let p = b.build_chunk_attributes(document("a", "Some text\n\nfrom a\ndocument"));
    let (texts, records) = run(p, |_, _| None);
    assert_eq!(texts.len(), 3);
    assert!(records.is_empty());
}

#[test]
fn pending_is_the_next_chunk() {
    let b = DocBuilder::with_chunk_size(10).unwrap();
    let mut p = b.build_chunk_attributes(document("a", "Some text\n\nfrom a\ndocument"));
    assert_eq!(p.pending().unwrap(), "Some text");
    assert!(p.advance(Some(vec![0])).is_some());
    assert_eq!(p.pending().unwrap(), "from a");
    assert!(!p.is_done());
}
