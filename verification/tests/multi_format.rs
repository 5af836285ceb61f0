//! Reading and writing the text formats, through the library's checks,
//! decoder and document seeding (the host registry is left out: a
//! document here is the `Doc` value itself).

use apalabrar::doc_model::Doc;
use apalabrar::editor_core::{
    check_format_supported, check_open_input, decode_utf8, parse_doc_format, seed_doc, DocFormat, Error,
};

/// Opens `bytes` as `format`; the `.docx` reader is not linked here.
fn open_doc(bytes: &[u8], format: DocFormat) -> Result<Doc, Error> {
    check_open_input(bytes, format)?;
    let text = match format {
        DocFormat::Docx => panic!("the .docx reader is not linked in these tests"),
        _ => decode_utf8(bytes, format)?,
    };
    Ok(seed_doc(&text))
}

/// Writes `doc` as `format` (text formats only).
fn to_format(doc: &Doc, format: DocFormat) -> Result<Vec<u8>, Error> {
    let text = doc.text();
    check_format_supported(format)?;
    match format {
        DocFormat::Docx => panic!("the .docx writer is not linked in these tests"),
        _ => Ok(text.into_bytes()),
    }
}

#[test]
fn parse_doc_format_accepts_canonical_short_forms() {
    assert_eq!(parse_doc_format("docx").unwrap(), DocFormat::Docx);
    assert_eq!(parse_doc_format("md").unwrap(), DocFormat::Markdown);
    assert_eq!(parse_doc_format("html").unwrap(), DocFormat::Html);
    assert_eq!(parse_doc_format("rtf").unwrap(), DocFormat::Rtf);
    assert_eq!(parse_doc_format("odt").unwrap(), DocFormat::Odt);
}

#[test]
fn parse_doc_format_accepts_markdown_as_synonym_for_md() {
    assert_eq!(parse_doc_format("markdown").unwrap(), DocFormat::Markdown);
}

#[test]
fn parse_doc_format_rejects_unknown_with_unknownformat_carrying_the_input() {
    match parse_doc_format("pdf") {
        Err(Error::UnknownFormat { name }) => assert_eq!(name, "pdf"),
        other => panic!("expected UnknownFormat, got: {other:?}"),
    }
}

#[test]
fn parse_doc_format_is_case_sensitive() {
    assert!(matches!(parse_doc_format("DOCX"), Err(Error::UnknownFormat { .. }),));
}

#[test]
fn open_doc_markdown_decodes_utf8_source_as_text() {
    let d = open_doc(b"# Title\n\nbody", DocFormat::Markdown).unwrap();
    assert_eq!(d.text(), "# Title\n\nbody");
}

#[test]
fn open_doc_markdown_preserves_latam_accents() {
    let d = open_doc("¡Hola, mundó!".as_bytes(), DocFormat::Markdown).unwrap();
    assert_eq!(d.text(), "¡Hola, mundó!");
}

#[test]
fn open_doc_markdown_rejects_invalid_utf8() {
    let bytes: &[u8] = &[0xff, 0xfe, 0xfd];
    let r = open_doc(bytes, DocFormat::Markdown);
    assert!(matches!(r, Err(Error::InvalidInput { .. })), "got: {:?}", r.err(),);
}

#[test]
fn to_format_markdown_returns_utf8_bytes_of_doc_text() {
    let d = open_doc(b"# Hello", DocFormat::Markdown).unwrap();
    let out = to_format(&d, DocFormat::Markdown).unwrap();
    assert_eq!(out, b"# Hello".to_vec());
}

#[test]
fn open_doc_html_decodes_utf8_source_as_text() {
    let d = open_doc(b"<p>Hello</p>", DocFormat::Html).unwrap();
    assert_eq!(d.text(), "<p>Hello</p>");
}

#[test]
fn open_doc_html_rejects_invalid_utf8() {
    let bytes: &[u8] = &[0xc3, 0x28];
    let r = open_doc(bytes, DocFormat::Html);
    assert!(matches!(r, Err(Error::InvalidInput { .. })));
}

#[test]
fn to_format_html_returns_utf8_bytes_of_doc_text() {
    let d = open_doc(b"<h1>x</h1>", DocFormat::Html).unwrap();
    let out = to_format(&d, DocFormat::Html).unwrap();
    assert_eq!(out, b"<h1>x</h1>".to_vec());
}

#[test]
fn open_doc_rtf_returns_format_not_supported() {
    let r = open_doc(b"{\\rtf1}", DocFormat::Rtf);
    assert!(matches!(r, Err(Error::FormatNotSupported { .. })));
}

#[test]
fn open_doc_odt_returns_format_not_supported() {
    let r = open_doc(b"PK\x03\x04", DocFormat::Odt);
    assert!(matches!(r, Err(Error::FormatNotSupported { .. })));
}

#[test]
fn to_format_rtf_returns_format_not_supported() {
    let d = open_doc(b"hi", DocFormat::Markdown).unwrap();
    let r = to_format(&d, DocFormat::Rtf);
    assert!(matches!(r, Err(Error::FormatNotSupported { .. })));
}

#[test]
fn to_format_odt_returns_format_not_supported() {
    let d = open_doc(b"hi", DocFormat::Markdown).unwrap();
    let r = to_format(&d, DocFormat::Odt);
    assert!(matches!(r, Err(Error::FormatNotSupported { .. })));
}

#[test]
fn format_not_supported_error_carries_the_offending_format() {
    let r = open_doc(b"x", DocFormat::Rtf);
    match r {
        Err(Error::FormatNotSupported { format }) => assert_eq!(format, DocFormat::Rtf),
        other => panic!("expected FormatNotSupported, got: {:?}", other.err()),
    }
}

#[test]
fn open_doc_empty_bytes_errors_for_every_format() {
    for fmt in [DocFormat::Docx, DocFormat::Markdown, DocFormat::Html, DocFormat::Rtf, DocFormat::Odt] {
        let r = open_doc(b"", fmt);
        assert!(matches!(r, Err(Error::EmptyInput)), "fmt={fmt:?}, got: {:?}", r.err(),);
    }
}

#[test]
fn cross_format_save_md_then_open_as_md_preserves_text() {
    let d = open_doc(b"# Heading\n\ntext", DocFormat::Markdown).unwrap();
    let bytes = to_format(&d, DocFormat::Markdown).unwrap();
    let d2 = open_doc(&bytes, DocFormat::Markdown).unwrap();
    assert_eq!(d.text(), d2.text());
}
