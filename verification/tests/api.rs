//! Byte-offset editing through the registry: edits at UTF-8 offsets,
//! and the errors a refused offset or range gives (each test seeds its
//! document's text directly and works on a registry of its own).

use apalabrar::editor_core::bridge::Registry;
use apalabrar::editor_core::{seed_doc, EditOp, Error};

#[test]
fn apply_op_insert_text_at_offset_zero_prepends() {
    let mut reg = Registry::new();
    let id = reg.register(seed_doc("world"));
    reg.apply_op(
        id,
        EditOp::InsertText {
            offset: 0,
            text: "hello ".into(),
        },
    )
    .unwrap();
    assert_eq!(reg.doc_text(id).unwrap(), "hello world");
}

#[test]
fn apply_op_insert_text_at_doc_length_appends() {
    let mut reg = Registry::new();
    let id = reg.register(seed_doc("hello"));
    reg.apply_op(
        id,
        EditOp::InsertText {
            offset: 5,
            text: " world".into(),
        },
    )
    .unwrap();
    assert_eq!(reg.doc_text(id).unwrap(), "hello world");
}

#[test]
fn apply_op_delete_range_removes_text_slice() {
    let mut reg = Registry::new();
    let id = reg.register(seed_doc("hello world"));
    reg.apply_op(id, EditOp::DeleteRange { start: 5, end: 11 }).unwrap();
    assert_eq!(reg.doc_text(id).unwrap(), "hello");
}

#[test]
fn apply_op_insert_empty_string_is_noop() {
    let mut reg = Registry::new();
    let id = reg.register(seed_doc("hello"));
    reg.apply_op(
        id,
        EditOp::InsertText {
            offset: 2,
            text: String::new(),
        },
    )
    .unwrap();
    assert_eq!(reg.doc_text(id).unwrap(), "hello");
}

#[test]
fn apply_op_delete_empty_range_is_noop() {
    let mut reg = Registry::new();
    let id = reg.register(seed_doc("hello"));
    reg.apply_op(id, EditOp::DeleteRange { start: 3, end: 3 }).unwrap();
    assert_eq!(reg.doc_text(id).unwrap(), "hello");
}

#[test]
fn apply_op_delete_full_text_clears_document() {
    let mut reg = Registry::new();
    let id = reg.register(seed_doc("hello"));
    reg.apply_op(id, EditOp::DeleteRange { start: 0, end: 5 }).unwrap();
    assert_eq!(reg.doc_text(id).unwrap(), "");
}

#[test]
fn apply_op_inserts_multibyte_at_byte_offset_aligned_with_char_boundary() {
    let mut reg = Registry::new();
    // "café" = c(1) a(1) f(1) é(2) — 5 UTF-8 bytes, 4 chars.
    let id = reg.register(seed_doc("café"));
    reg.apply_op(
        id,
        EditOp::InsertText {
            offset: 5,
            text: "!".into(),
        },
    )
    .unwrap();
    assert_eq!(reg.doc_text(id).unwrap(), "café!");
}

#[test]
fn apply_op_after_close_returns_unknown_doc_error() {
    let mut reg = Registry::new();
    let id = reg.register(seed_doc("hello"));
    reg.close_doc(id).unwrap();
    let result = reg.apply_op(
        id,
        EditOp::InsertText {
            offset: 0,
            text: "x".into(),
        },
    );
    assert!(
        matches!(result, Err(Error::UnknownDoc(_))),
        "expected UnknownDoc, got {:?}",
        result.err()
    );
}

#[test]
fn doc_text_after_close_returns_unknown_doc_error() {
    let mut reg = Registry::new();
    let id = reg.register(seed_doc("hello"));
    reg.close_doc(id).unwrap();
    let result = reg.doc_text(id);
    assert!(
        matches!(result, Err(Error::UnknownDoc(_))),
        "expected UnknownDoc, got {:?}",
        result.err()
    );
}

#[test]
fn close_doc_on_already_closed_returns_unknown_doc_error() {
    let mut reg = Registry::new();
    let id = reg.register(seed_doc("hello"));
    reg.close_doc(id).unwrap();
    let result = reg.close_doc(id);
    assert!(
        matches!(result, Err(Error::UnknownDoc(_))),
        "expected UnknownDoc, got {:?}",
        result.err()
    );
}

#[test]
fn apply_op_insert_offset_past_doc_length_errors() {
    let mut reg = Registry::new();
    let id = reg.register(seed_doc("hello"));
    let result = reg.apply_op(
        id,
        EditOp::InsertText {
            offset: 999,
            text: "x".into(),
        },
    );
    assert!(
        matches!(
            result,
            Err(Error::OffsetOutOfBounds {
                offset: 999,
                len: 5
            })
        ),
        "expected OffsetOutOfBounds {{ offset: 999, len: 5 }}, got {:?}",
        result.err()
    );
}

#[test]
fn apply_op_insert_offset_inside_multibyte_char_errors() {
    let mut reg = Registry::new();
    // "café" = 5 bytes; offset 4 lands inside the 2-byte 'é'.
    let id = reg.register(seed_doc("café"));
    let result = reg.apply_op(
        id,
        EditOp::InsertText {
            offset: 4,
            text: "!".into(),
        },
    );
    assert!(
        matches!(result, Err(Error::OffsetNotOnCharBoundary { offset: 4 })),
        "expected OffsetNotOnCharBoundary {{ offset: 4 }}, got {:?}",
        result.err()
    );
}

#[test]
fn apply_op_delete_range_with_start_greater_than_end_errors() {
    let mut reg = Registry::new();
    let id = reg.register(seed_doc("hello"));
    let result = reg.apply_op(id, EditOp::DeleteRange { start: 4, end: 1 });
    assert!(
        matches!(
            result,
            Err(Error::InvalidRange {
                start: 4,
                end: 1,
                ..
            })
        ),
        "expected InvalidRange {{ start: 4, end: 1, .. }}, got {:?}",
        result.err()
    );
}

#[test]
fn apply_op_delete_range_past_doc_length_errors() {
    let mut reg = Registry::new();
    let id = reg.register(seed_doc("hello"));
    let result = reg.apply_op(id, EditOp::DeleteRange { start: 0, end: 999 });
    assert!(
        matches!(
            result,
            Err(Error::InvalidRange {
                start: 0,
                end: 999,
                len: 5
            })
        ),
        "expected InvalidRange {{ start: 0, end: 999, len: 5 }}, got {:?}",
        result.err()
    );
}

#[test]
fn byte_offset_edits_are_byte_slicing_of_the_utf8_text() {
    let mut reg = Registry::new();
    let id = reg.register(seed_doc("café"));
    reg.apply_op(id, EditOp::InsertText { offset: 5, text: "!".into() }).unwrap();
    assert_eq!(reg.doc_text(id).unwrap(), "café!");
    let cur = reg.doc_text(id).unwrap();
    reg.apply_op(id, EditOp::DeleteRange { start: 3, end: 5 }).unwrap();
    let expected = format!("{}{}", &cur[..3], &cur[5..]);
    assert_eq!(reg.doc_text(id).unwrap(), expected);
    assert_eq!(expected, "caf!");
}
