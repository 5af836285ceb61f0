//! The bridge's registry of open documents: handles, edit-op dispatch,
//! snapshots and block counts (each test works on a registry of its own).

use apalabrar::doc_model::{Block, BlockKind, BlockTree, EditOp, Mark, SuggestionState};
use apalabrar::editor_core::bridge::Registry;
use apalabrar::editor_core::{DocId, EditOp as ByteOp, Error};

#[test]
fn create_doc_returns_a_fresh_doc_id() {
    let mut reg = Registry::new();
    let id = reg.create_doc();
    assert_eq!(reg.doc_text(id).unwrap(), "");
    reg.close_doc(id).unwrap();
}

#[test]
fn create_doc_returns_distinct_ids_across_calls() {
    let mut reg = Registry::new();
    let a = reg.create_doc();
    let b = reg.create_doc();
    assert_ne!(a, b);
    reg.close_doc(a).unwrap();
    reg.close_doc(b).unwrap();
}

#[test]
fn snapshot_returns_bytes_for_empty_doc() {
    let mut reg = Registry::new();
    let id = reg.create_doc();
    let bytes = reg.snapshot(id).unwrap();
    assert!(!bytes.is_empty(), "snapshot must include CRDT metadata");
    reg.close_doc(id).unwrap();
}

#[test]
fn restore_from_snapshot_round_trips_text_and_blocks() {
    let mut reg = Registry::new();
    let original = reg.create_doc();
    reg.apply_edit_op(
        original,
        EditOp::InsertText {
            at: 0,
            text: "alpha\nbeta".into(),
            marks: vec![],
        },
    )
    .unwrap();
    let snap = reg.snapshot(original).unwrap();
    let restored = reg.restore_from_snapshot(&snap).unwrap();
    assert_eq!(reg.doc_text(restored).unwrap(), "alpha\nbeta");
    assert_eq!(reg.block_count(restored).unwrap(), 2);
    reg.close_doc(original).unwrap();
    reg.close_doc(restored).unwrap();
}

#[test]
fn restore_from_snapshot_with_garbage_bytes_returns_error() {
    let mut reg = Registry::new();
    let result = reg.restore_from_snapshot(&[1, 2, 3, 4, 5]);
    assert!(result.is_err(), "garbage bytes must not produce a DocId");
}

#[test]
fn snapshot_unknown_doc_returns_error() {
    let mut reg = Registry::new();
        // Build a clearly-invalid handle by closing one.
    let id = reg.create_doc();
    reg.close_doc(id).unwrap();
    assert!(matches!(reg.snapshot(id), Err(Error::UnknownDoc(_))));
    let _: DocId = id; // keep type info
}

#[test]
fn apply_edit_op_insert_text_into_empty_doc() {
    let mut reg = Registry::new();
    let id = reg.create_doc();
    reg.apply_edit_op(
        id,
        EditOp::InsertText {
            at: 0,
            text: "hello".into(),
            marks: vec![],
        },
    )
    .unwrap();
    assert_eq!(reg.doc_text(id).unwrap(), "hello");
    reg.close_doc(id).unwrap();
}

#[test]
fn apply_edit_op_insert_text_with_marks() {
    let mut reg = Registry::new();
    let id = reg.create_doc();
    reg.apply_edit_op(
        id,
        EditOp::InsertText {
            at: 0,
            text: "rich".into(),
            marks: vec![Mark::Bold, Mark::Italic],
        },
    )
    .unwrap();
    // Text projection has the inserted span.
    assert_eq!(reg.doc_text(id).unwrap(), "rich");
    reg.close_doc(id).unwrap();
}

#[test]
fn apply_edit_op_delete_range_removes_chars() {
    let mut reg = Registry::new();
    let id = reg.create_doc();
    reg.apply_edit_op(
        id,
        EditOp::InsertText {
            at: 0,
            text: "hello world".into(),
            marks: vec![],
        },
    )
    .unwrap();
    reg.apply_edit_op(id, EditOp::DeleteRange { from: 5, to: 11 }).unwrap();
    assert_eq!(reg.doc_text(id).unwrap(), "hello");
    reg.close_doc(id).unwrap();
}

#[test]
fn apply_edit_op_format_range_succeeds() {
    let mut reg = Registry::new();
    let id = reg.create_doc();
    reg.apply_edit_op(
        id,
        EditOp::InsertText {
            at: 0,
            text: "abc".into(),
            marks: vec![],
        },
    )
    .unwrap();
    reg.apply_edit_op(
        id,
        EditOp::FormatRange {
            from: 0,
            to: 3,
            mark: Mark::Bold,
        },
    )
    .unwrap();
    // Text unchanged; the mark is in the rich-text projection.
    assert_eq!(reg.doc_text(id).unwrap(), "abc");
    reg.close_doc(id).unwrap();
}

#[test]
fn apply_edit_op_insert_block_at_start() {
    let mut reg = Registry::new();
    let id = reg.create_doc();
    reg.apply_edit_op(
        id,
        EditOp::InsertText {
            at: 0,
            text: "body".into(),
            marks: vec![],
        },
    )
    .unwrap();
    reg.apply_edit_op(
        id,
        EditOp::InsertBlock {
            at: 0,
            block: Block {
                kind: BlockKind::Heading { level: 1 },
                text: "title".into(),
            },
        },
    )
    .unwrap();
    assert_eq!(reg.doc_text(id).unwrap(), "title\nbody");
    assert_eq!(reg.block_count(id).unwrap(), 2);
    reg.close_doc(id).unwrap();
}

#[test]
fn apply_edit_op_split_block_at_position() {
    let mut reg = Registry::new();
    let id = reg.create_doc();
    reg.apply_edit_op(
        id,
        EditOp::InsertText {
            at: 0,
            text: "abcdef".into(),
            marks: vec![],
        },
    )
    .unwrap();
    reg.apply_edit_op(id, EditOp::SplitBlock { at: 3 }).unwrap();
    assert_eq!(reg.doc_text(id).unwrap(), "abc\ndef");
    assert_eq!(reg.block_count(id).unwrap(), 2);
    reg.close_doc(id).unwrap();
}

#[test]
fn apply_edit_op_merge_blocks_combines_text() {
    let mut reg = Registry::new();
    let id = reg.create_doc();
    reg.apply_edit_op(
        id,
        EditOp::InsertText {
            at: 0,
            text: "hello\nworld".into(),
            marks: vec![],
        },
    )
    .unwrap();
    reg.apply_edit_op(
        id,
        EditOp::MergeBlocks {
            first: 0,
            second: 6,
        },
    )
    .unwrap();
    assert_eq!(reg.doc_text(id).unwrap(), "helloworld");
    reg.close_doc(id).unwrap();
}

#[test]
fn apply_edit_op_insert_comment_with_explicit_thread_id() {
    let mut reg = Registry::new();
    let id = reg.create_doc();
    reg.apply_edit_op(
        id,
        EditOp::InsertText {
            at: 0,
            text: "abc".into(),
            marks: vec![],
        },
    )
    .unwrap();
    reg.apply_edit_op(
        id,
        EditOp::InsertComment {
            from: 0,
            to: 1,
            body: "review".into(),
            thread_id: Some("t-1".into()),
            author: "tester".into(),
            created_at: 0,
        },
    )
    .unwrap();
    // Body unchanged by the comment op.
    assert_eq!(reg.doc_text(id).unwrap(), "abc");
    reg.close_doc(id).unwrap();
}

#[test]
fn apply_edit_op_suggest_then_accept_applies_replacement() {
    let mut reg = Registry::new();
    let id = reg.create_doc();
    reg.apply_edit_op(
        id,
        EditOp::InsertText {
            at: 0,
            text: "hello world".into(),
            marks: vec![],
        },
    )
    .unwrap();
    reg.apply_edit_op(
        id,
        EditOp::Suggest {
            from: 0,
            to: 5,
            replacement: "HOLA".into(),
        },
    )
    .unwrap();
    // Suggest does NOT mutate the body yet.
    assert_eq!(reg.doc_text(id).unwrap(), "hello world");
    // Read the assigned id from the underlying doc-model.
    let suggestion_id = reg.doc(id).map(|d| {
        d.last_suggestion_id().expect("id assigned")
    })
    .unwrap();
    reg.apply_edit_op(
        id,
        EditOp::AcceptSuggestion {
            suggestion_id: suggestion_id.clone(),
        },
    )
    .unwrap();
    assert_eq!(reg.doc_text(id).unwrap(), "HOLA world");
    let state = reg.doc(id).map(|d| {
        d.suggestion(&suggestion_id).map(|s| s.state)
    })
    .unwrap();
    assert_eq!(state, Some(SuggestionState::Accepted));
    reg.close_doc(id).unwrap();
}

#[test]
fn apply_edit_op_insert_citation_inserts_marker() {
    let mut reg = Registry::new();
    let id = reg.create_doc();
    reg.apply_edit_op(
        id,
        EditOp::InsertText {
            at: 0,
            text: "ref".into(),
            marks: vec![],
        },
    )
    .unwrap();
    reg.apply_edit_op(
        id,
        EditOp::InsertCitation {
            at: 3,
            key: "Smith2020".into(),
        },
    )
    .unwrap();
    let body = reg.doc_text(id).unwrap();
    let chars: Vec<char> = body.chars().collect();
    assert_eq!(chars.len(), 4);
    assert_eq!(chars[3], '\u{E000}');
    reg.close_doc(id).unwrap();
}

#[test]
fn apply_edit_op_insert_footnote_inserts_marker_and_records_body() {
    let mut reg = Registry::new();
    let id = reg.create_doc();
    reg.apply_edit_op(
        id,
        EditOp::InsertText {
            at: 0,
            text: "main".into(),
            marks: vec![],
        },
    )
    .unwrap();
    let body = BlockTree {
        blocks: vec![Block {
            kind: BlockKind::Paragraph,
            text: "footnote text".into(),
        }],
    };
    reg.apply_edit_op(id, EditOp::InsertFootnote { at: 4, body }).unwrap();
    let chars: Vec<char> = reg.doc_text(id).unwrap().chars().collect();
    assert_eq!(chars.last().copied(), Some('\u{E001}'));
    reg.close_doc(id).unwrap();
}

#[test]
fn bridge_block_count_empty_doc_is_one() {
    let mut reg = Registry::new();
    let id = reg.create_doc();
    assert_eq!(reg.block_count(id).unwrap(), 1);
    reg.close_doc(id).unwrap();
}

#[test]
fn block_count_after_inserts_with_newlines() {
    let mut reg = Registry::new();
    let id = reg.create_doc();
    reg.apply_edit_op(
        id,
        EditOp::InsertText {
            at: 0,
            text: "a\nb\nc".into(),
            marks: vec![],
        },
    )
    .unwrap();
    assert_eq!(reg.block_count(id).unwrap(), 3);
    reg.close_doc(id).unwrap();
}

#[test]
fn apply_edit_op_unknown_doc_returns_unknown_doc_error() {
    let mut reg = Registry::new();
    let id = reg.create_doc();
    reg.close_doc(id).unwrap();
    let result = reg.apply_edit_op(
        id,
        EditOp::InsertText {
            at: 0,
            text: "x".into(),
            marks: vec![],
        },
    );
    assert!(matches!(result, Err(Error::UnknownDoc(_))));
}

#[test]
fn apply_edit_op_accept_suggestion_unknown_id_returns_edit_op_failed() {
    let mut reg = Registry::new();
    let id = reg.create_doc();
    let result = reg.apply_edit_op(
        id,
        EditOp::AcceptSuggestion {
            suggestion_id: "no-such-id".into(),
        },
    );
    let Err(Error::EditOpFailed { kind, reason }) = result else {
        panic!("expected EditOpFailed, got {result:?}");
    };
    // Pin the variant-name string and the underlying reason so the
    // bridge layer's `edit_op_kind` and the doc-model error message
    // both stay in sync — catches kind-rename mutations and any
    // change to the doc-model error format.
    assert_eq!(kind, "AcceptSuggestion");
    assert!(
        reason.contains("no-such-id"),
        "reason should include the bad id: {reason}"
    );
    reg.close_doc(id).unwrap();
}

#[test]
fn block_count_unknown_doc_returns_unknown_doc_error() {
    let mut reg = Registry::new();
    let id = reg.create_doc();
    reg.close_doc(id).unwrap();
    assert!(matches!(reg.block_count(id), Err(Error::UnknownDoc(_))));
}

#[test]
fn a_closed_handle_is_never_handed_out_again() {
    let mut reg = Registry::new();
    let a = reg.create_doc();
    reg.close_doc(a).unwrap();
    let b = reg.create_doc();
    assert_ne!(a, b);
    assert!(matches!(reg.close_doc(a), Err(Error::UnknownDoc(x)) if x == a));
    assert!(matches!(reg.doc_text(a), Err(Error::UnknownDoc(_))));
    assert_eq!(reg.doc_text(b).unwrap(), "");
}

#[test]
fn byte_offset_edits_through_the_registry_touch_only_their_document() {
    let mut reg = Registry::new();
    let a = reg.create_doc();
    let b = reg.create_doc();
    reg.apply_op(a, ByteOp::InsertText { offset: 0, text: "héllo".into() }).unwrap();
    reg.apply_op(b, ByteOp::InsertText { offset: 0, text: "other".into() }).unwrap();
    assert!(matches!(
        reg.apply_op(a, ByteOp::DeleteRange { start: 1, end: 2 }),
        Err(Error::OffsetNotOnCharBoundary { offset: 2 }) | Err(Error::InvalidRange { .. })
    ));
    reg.apply_op(a, ByteOp::DeleteRange { start: 1, end: 3 }).unwrap();
    assert_eq!(reg.doc_text(a).unwrap(), "hllo");
    assert_eq!(reg.doc_text(b).unwrap(), "other");
}
