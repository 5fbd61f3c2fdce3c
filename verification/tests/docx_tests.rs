use litenote::block::Block;
use litenote::docx::{blocks_of_docx_json, block_for_style, parse_docx, DocxError};

fn ds(t: &str) -> String {
    t.to_string()
}

fn para(style: Option<&str>, texts: &[&str]) -> String {
    let pieces: Vec<String> = texts
        .iter()
        .map(|t| format!("{{\"type\":\"text\",\"data\":{{\"preserveSpace\":true,\"text\":{:?}}}}}", t))
        .collect();
    let property = match style {
        Some(st) => format!(",\"property\":{{\"style\":{:?}}}", st),
        None => String::new(),
    };
    format!(
        "{{\"type\":\"paragraph\",\"data\":{{\"children\":[{{\"type\":\"run\",\"data\":{{\"children\":[{}]}}}}]{}}}}}",
        pieces.join(","),
        property
    )
}

fn document(children: &[String]) -> String {
    format!("{{\"document\":{{\"children\":[{}]}}}}", children.join(","))
}

#[test]
fn docx_json_styles() {
    let json = document(&[
        para(Some("Heading1"), &["Hello ", "World"]),
        para(Some("Title"), &["Cover"]),
        para(Some("Heading2"), &["Two"]),
        para(Some("MyHeading3Custom"), &["Three"]),
        para(Some("Normal"), &["Body"]),
        para(None, &["Plain"]),
    ]);
    assert_eq!(
        blocks_of_docx_json(&json),
        Ok(vec![
            Block::H1(ds("Hello World")),
            Block::H1(ds("Cover")),
            Block::H2(ds("Two")),
            Block::H3(ds("Three")),
            Block::Paragraph(ds("Body")),
            Block::Paragraph(ds("Plain")),
        ])
    );
}

#[test]
fn docx_json_skips_blank_tables_and_non_text() {
    let table = ds("{\"type\":\"table\",\"data\":{\"rows\":[]}}");
    let no_data = ds("{\"type\":\"paragraph\"}");
    let odd_run = ds("{\"type\":\"paragraph\",\"data\":{\"children\":[{\"type\":\"insert\",\"data\":{}},{\"type\":\"run\",\"data\":{\"children\":[{\"type\":\"tab\"},{\"type\":\"text\",\"data\":{\"text\":\"Kept\"}}]}}]}}");
    let json = document(&[table, para(None, &["   ", "\t"]), no_data, odd_run]);
    assert_eq!(blocks_of_docx_json(&json), Ok(vec![Block::Paragraph(ds("Kept"))]));
}

#[test]
fn docx_text_keeps_its_spaces() {
    let json = document(&[para(None, &["  padded  "])]);
    assert_eq!(blocks_of_docx_json(&json), Ok(vec![Block::Paragraph(ds("  padded  "))]));
}

#[test]
fn docx_json_without_document() {
    assert_eq!(blocks_of_docx_json("{}"), Ok(vec![]));
    assert_eq!(blocks_of_docx_json("[1, 2]"), Ok(vec![]));
    assert_eq!(blocks_of_docx_json("{\"document\":{\"children\":5}}"), Ok(vec![]));
}

#[test]
fn docx_bad_json() {
    match blocks_of_docx_json("not json") {
        Err(e @ DocxError::BadJson(_)) => assert!(e.message().starts_with("JSON parse error: ")),
        other => panic!("unexpected {:?}", other),
    }
}

#[test]
fn docx_style_rules() {
    assert_eq!(block_for_style("heading1", ds("t")), Block::H1(ds("t")));
    assert_eq!(block_for_style("title", ds("t")), Block::H1(ds("t")));
    assert_eq!(block_for_style("subtitle", ds("t")), Block::Paragraph(ds("t")));
    assert_eq!(block_for_style("xheading2x", ds("t")), Block::H2(ds("t")));
    assert_eq!(block_for_style("heading3", ds("t")), Block::H3(ds("t")));
    assert_eq!(block_for_style("Heading1", ds("t")), Block::Paragraph(ds("t")));
    assert_eq!(block_for_style("", ds("t")), Block::Paragraph(ds("t")));
}

#[test]
fn docx_unreadable_bytes() {
    match parse_docx(docx_rs::read_docx(b"definitely not a zip")) {
        Err(e @ DocxError::Unreadable(_)) => assert!(!e.message().is_empty()),
        other => panic!("unexpected {:?}", other),
    }
}

#[test]
fn docx_built_document() {
    let doc = docx_rs::Docx::new()
        .add_paragraph(
            docx_rs::Paragraph::new().add_run(docx_rs::Run::new().add_text("Big title")).style("Heading1"),
        )
        .add_paragraph(docx_rs::Paragraph::new().add_run(docx_rs::Run::new().add_text("   ")))
        .add_paragraph(docx_rs::Paragraph::new().add_run(docx_rs::Run::new().add_text("Body text")));
    let mut buf = std::io::Cursor::new(Vec::new());
    doc.build().pack(&mut buf).unwrap();
    let bytes = buf.into_inner();
    assert_eq!(
        parse_docx(docx_rs::read_docx(&bytes)),
        Ok(vec![Block::H1(ds("Big title")), Block::Paragraph(ds("Body text"))])
    );
}
