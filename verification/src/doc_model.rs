//! The document model: a CRDT-backed document (text, inline marks, a
//! parallel block-kind list, comments, suggestions, citations and
//! footnotes) and the edit-op surface that mutates it.
//!
//! Positions are Unicode codepoint offsets into the single linearised
//! body text; block boundaries are `\n` codepoints in that text, and
//! block kinds live in a parallel list with one entry per block.

pub mod store;
pub mod document;
pub mod lines;
pub mod records;
pub mod laws;

pub use document::Doc;

use vstd::prelude::*;

use crate::text::{
    chars_eq, chars_of, decimal_string, lemma_parse_decimal, parse_unsigned, push_all,
    spec_decimal, spec_parse_unsigned, string_from_chars, has_prefix,
};

verus! {

/// The package version.
pub const VERSION: &'static str = "0.0.0";

/// Stable position handle: a codepoint offset into the body text.
pub type Position = usize;

/// Inline character formatting marks.
#[derive(Debug, Clone, Copy, PartialEq, Eq, Hash)]
pub enum Mark {
    Bold,
    Italic,
}

/// The mark key under which a mark is stored.
pub open spec fn spec_mark_key(m: Mark) -> Seq<char> {
    match m {
        Mark::Bold => "bold"@,
        Mark::Italic => "italic"@,
    }
}

impl Mark {
    /// The stable key of the mark, shared by every replica.
    pub fn key(self) -> (r: &'static str)
        ensures
            r@ == spec_mark_key(self),
    {
        match self {
            Mark::Bold => "bold",
            Mark::Italic => "italic",
        }
    }
}

/// Block-level node kind.
#[derive(Debug, Clone, Copy, PartialEq, Eq)]
pub enum BlockKind {
    /// Body paragraph.
    Paragraph,
    /// Heading; `level` is clamped into 1..=6 when stored.
    Heading { level: u8 },
    /// List item; `indent` is the logical depth (0 = top).
    ListItem { indent: u8 },
}

/// A block: its kind and its text.
#[derive(Debug, Clone, PartialEq, Eq)]
pub struct Block {
    pub kind: BlockKind,
    pub text: String,
}

/// A flat list of blocks (a footnote body).
#[derive(Debug, Clone, Default, PartialEq, Eq)]
pub struct BlockTree {
    pub blocks: Vec<Block>,
}

/// Lifecycle of a comment thread.
#[derive(Debug, Clone, Copy, PartialEq, Eq, Hash)]
pub enum CommentStatus {
    Open,
    Resolved,
}

/// One reply inside a comment thread.
#[derive(Debug, Clone, PartialEq, Eq)]
pub struct CommentReply {
    pub id: String,
    pub body: String,
    pub author: String,
    /// Epoch milliseconds.
    pub created_at: i64,
}

/// A comment thread anchored to a codepoint range (raw positions).
#[derive(Debug, Clone, PartialEq, Eq)]
pub struct Comment {
    pub thread_id: String,
    pub from: Position,
    pub to: Position,
    pub body: String,
    pub author: String,
    /// Epoch milliseconds.
    pub created_at: i64,
    pub status: CommentStatus,
    pub replies: Vec<CommentReply>,
}

/// Lifecycle of a suggestion.
#[derive(Debug, Clone, Copy, PartialEq, Eq, Hash)]
pub enum SuggestionState {
    Pending,
    Accepted,
    Rejected,
}

/// A suggested replacement of a codepoint range.
#[derive(Debug, Clone, PartialEq, Eq)]
pub struct Suggestion {
    pub id: String,
    pub from: Position,
    pub to: Position,
    pub replacement: String,
    pub state: SuggestionState,
}

/// A citation: a `\u{E000}` marker at `at` carrying a CSL citation key.
#[derive(Debug, Clone, PartialEq, Eq)]
pub struct Citation {
    pub id: String,
    pub at: Position,
    pub key: String,
}

/// A footnote: a `\u{E001}` marker at `at` and its flat block body.
#[derive(Debug, Clone, PartialEq, Eq)]
pub struct Footnote {
    pub id: String,
    pub at: Position,
    pub body: BlockTree,
}

// ─────────────────────────────────────────────────────────────────
// Block-kind and state encodings
// ─────────────────────────────────────────────────────────────────

/// A heading level clamped into 1..=6.
pub open spec fn clamp_level(level: u8) -> u8 {
    if level < 1 {
        1
    } else if level > 6 {
        6
    } else {
        level
    }
}

/// The canonical string of a block kind: `paragraph`,
/// `heading:{level clamped to 1..=6}` or `list-item:{indent}`.
pub open spec fn spec_kind_str(kind: BlockKind) -> Seq<char> {
    match kind {
        BlockKind::Paragraph => "paragraph"@,
        BlockKind::Heading { level } => "heading:"@ + spec_decimal(clamp_level(level) as nat),
        BlockKind::ListItem { indent } => "list-item:"@ + spec_decimal(indent as nat),
    }
}

/// The block kind a stored string decodes to: a heading with the parsed
/// level (1 when unreadable) clamped into 1..=6, a list item with the
/// parsed indent (0 when unreadable), or a paragraph for anything else.
pub open spec fn spec_str_to_kind(s: Seq<char>) -> BlockKind {
    if has_prefix(s, "heading:"@) {
        let rest = s.subrange("heading:"@.len() as int, s.len() as int);
        let level: u8 = match spec_parse_unsigned(rest, 255) {
            Some(v) => v as u8,
            None => 1,
        };
        BlockKind::Heading { level: clamp_level(level) }
    } else if has_prefix(s, "list-item:"@) {
        let rest = s.subrange("list-item:"@.len() as int, s.len() as int);
        let indent: u8 = match spec_parse_unsigned(rest, 255) {
            Some(v) => v as u8,
            None => 0,
        };
        BlockKind::ListItem { indent }
    } else {
        BlockKind::Paragraph
    }
}

/// A block kind as stored: heading levels clamped.
pub open spec fn normalize_kind(kind: BlockKind) -> BlockKind {
    match kind {
        BlockKind::Heading { level } => BlockKind::Heading { level: clamp_level(level) },
        _ => kind,
    }
}

fn strip_prefix(s: &[char], p: &str) -> (r: Option<Vec<char>>)
    ensures
        match r {
            Some(rest) => has_prefix(s@, p@) && rest@ == s@.subrange(p@.len() as int, s@.len() as int),
            None => !has_prefix(s@, p@),
        },
{
    let pc = chars_of(p);
    if pc.len() > s.len() {
        return None;
    }
    let mut i: usize = 0;
    while i < pc.len()
        invariant
            pc@ == p@,
            pc@.len() <= s@.len(),
            i <= pc@.len(),
            forall|j: int| 0 <= j < i ==> s@[j] == pc@[j],
        decreases pc@.len() - i,
    {
        if s[i] != pc[i] {
            assert(s@.subrange(0, pc@.len() as int)[i as int] != pc@[i as int]);
            return None;
        }
        i += 1;
    }
    assert(s@.subrange(0, pc@.len() as int) =~= pc@);
    let mut rest: Vec<char> = Vec::new();
    let mut k: usize = pc.len();
    while k < s.len()
        invariant
            pc@.len() <= k <= s@.len(),
            rest@ == s@.subrange(pc@.len() as int, k as int),
        decreases s@.len() - k,
    {
        rest.push(s[k]);
        assert(s@.subrange(pc@.len() as int, k + 1) =~= s@.subrange(pc@.len() as int, k as int).push(
            s@[k as int],
        ));
        k += 1;
    }
    Some(rest)
}

fn clamp_u8(level: u8) -> (r: u8)
    ensures
        r == clamp_level(level),
{
    if level < 1 {
        1
    } else if level > 6 {
        6
    } else {
        level
    }
}

/// Encodes a block kind as its canonical string.
pub fn kind_to_str(kind: &BlockKind) -> (r: String)
    ensures
        r@ == spec_kind_str(*kind),
{
    match kind {
        BlockKind::Paragraph => "paragraph".to_owned(),
        BlockKind::Heading { level } => {
            let mut out = chars_of("heading:");
            push_all(&mut out, chars_of(decimal_string(clamp_u8(*level) as u64).as_str()).as_slice());
            string_from_chars(out.as_slice())
        },
        BlockKind::ListItem { indent } => {
            let mut out = chars_of("list-item:");
            push_all(&mut out, chars_of(decimal_string(*indent as u64).as_str()).as_slice());
            string_from_chars(out.as_slice())
        },
    }
}

/// Decodes a stored block-kind string; unknown strings decode to a
/// paragraph (see [`spec_str_to_kind`]).
pub fn str_to_kind(s: &str) -> (r: BlockKind)
    ensures
        r == spec_str_to_kind(s@),
{
    let cs = chars_of(s);
    match strip_prefix(cs.as_slice(), "heading:") {
        Some(rest) => {
            let level: u8 = match parse_unsigned(rest.as_slice(), 255) {
                Some(v) => v as u8,
                None => 1,
            };
            BlockKind::Heading { level: clamp_u8(level) }
        },
        None => match strip_prefix(cs.as_slice(), "list-item:") {
            Some(rest) => {
                let indent: u8 = match parse_unsigned(rest.as_slice(), 255) {
                    Some(v) => v as u8,
                    None => 0,
                };
                BlockKind::ListItem { indent }
            },
            None => BlockKind::Paragraph,
        },
    }
}

/// Decoding the encoding of a block kind gives the kind back, with a
/// heading level clamped into 1..=6.
pub proof fn lemma_kind_round_trip(kind: BlockKind)
    ensures
        spec_str_to_kind(spec_kind_str(kind)) == normalize_kind(kind),
{
    reveal_strlit("paragraph");
    reveal_strlit("heading:");
    reveal_strlit("list-item:");
    let s = spec_kind_str(kind);
    match kind {
        BlockKind::Paragraph => {
            assert(!has_prefix(s, "heading:"@)) by {
                if has_prefix(s, "heading:"@) {
                    assert(s[0] == "heading:"@[0]);
                }
            }
            assert(!has_prefix(s, "list-item:"@)) by {
                if has_prefix(s, "list-item:"@) {
                    assert(s[1] == "list-item:"@[1]);
                }
            }
        },
        BlockKind::Heading { level } => {
            let d = spec_decimal(clamp_level(level) as nat);
            assert(s.subrange(0, 8) =~= "heading:"@);
            assert(s.subrange(8, s.len() as int) =~= d);
            lemma_parse_decimal(clamp_level(level) as nat, 255);
        },
        BlockKind::ListItem { indent } => {
            let d = spec_decimal(indent as nat);
            assert(!has_prefix(s, "heading:"@)) by {
                if has_prefix(s, "heading:"@) {
                    assert(s[0] == "heading:"@[0]);
                }
            }
            assert(s.subrange(0, 10) =~= "list-item:"@);
            assert(s.subrange(10, s.len() as int) =~= d);
            lemma_parse_decimal(indent as nat, 255);
        },
    }
}

/// The stored code of a suggestion state.
pub open spec fn spec_state_str(state: SuggestionState) -> Seq<char> {
    match state {
        SuggestionState::Pending => "pending"@,
        SuggestionState::Accepted => "accepted"@,
        SuggestionState::Rejected => "rejected"@,
    }
}

/// The state a stored code decodes to; unknown codes are `Pending`.
pub open spec fn spec_str_to_state(s: Seq<char>) -> SuggestionState {
    if s == "accepted"@ {
        SuggestionState::Accepted
    } else if s == "rejected"@ {
        SuggestionState::Rejected
    } else {
        SuggestionState::Pending
    }
}

/// Encodes a suggestion state.
pub fn state_to_str(state: SuggestionState) -> (r: &'static str)
    ensures
        r@ == spec_state_str(state),
{
    match state {
        SuggestionState::Pending => "pending",
        SuggestionState::Accepted => "accepted",
        SuggestionState::Rejected => "rejected",
    }
}

/// Decodes a suggestion state; unknown strings fall back to `Pending`.
pub fn str_to_state(s: &str) -> (r: SuggestionState)
    ensures
        r == spec_str_to_state(s@),
{
    if chars_eq(chars_of(s).as_slice(), chars_of("accepted").as_slice()) {
        SuggestionState::Accepted
    } else if chars_eq(chars_of(s).as_slice(), chars_of("rejected").as_slice()) {
        SuggestionState::Rejected
    } else {
        SuggestionState::Pending
    }
}

/// Decoding the code of a state gives the state back.
pub proof fn lemma_state_round_trip(state: SuggestionState)
    ensures
        spec_str_to_state(spec_state_str(state)) == state,
{
    reveal_strlit("pending");
    reveal_strlit("accepted");
    reveal_strlit("rejected");
    assert("pending"@ != "accepted"@) by {
        assert("pending"@[0] != "accepted"@[0]);
    }
    assert("pending"@ != "rejected"@) by {
        assert("pending"@[0] != "rejected"@[0]);
    }
    assert("accepted"@ != "rejected"@) by {
        assert("accepted"@[0] != "rejected"@[0]);
    }
}


// ─────────────────────────────────────────────────────────────────
// Edit ops
// ─────────────────────────────────────────────────────────────────

/// The edit verbs applied to a document.
#[derive(Debug, Clone, PartialEq, Eq)]
pub enum EditOp {
    /// Insert `text` at `at`, applying `marks` to the inserted span.
    InsertText { at: Position, text: String, marks: Vec<Mark> },
    /// Delete the codepoints in `[from, to)` (clipped).
    DeleteRange { from: Position, to: Position },
    /// Apply `mark` to `[from, to)` (clipped).
    FormatRange { from: Position, to: Position, mark: Mark },
    /// Insert a block at `at`.
    InsertBlock { at: Position, block: Block },
    /// Split the block holding `at`.
    SplitBlock { at: Position },
    /// Merge the blocks holding `first` and `second` when adjacent.
    MergeBlocks { first: Position, second: Position },
    /// Anchor a comment thread to `[from, to)`; `thread_id` `None` mints
    /// an id.
    InsertComment {
        from: Position,
        to: Position,
        body: String,
        thread_id: Option<String>,
        author: String,
        created_at: i64,
    },
    /// Append a reply to an existing thread.
    ReplyToComment { thread_id: String, body: String, author: String, created_at: i64 },
    /// Set a thread's status.
    SetCommentStatus { thread_id: String, status: CommentStatus },
    /// Record a suggested replacement of `[from, to)`.
    Suggest { from: Position, to: Position, replacement: String },
    /// Apply a recorded suggestion.
    AcceptSuggestion { suggestion_id: String },
    /// Insert a citation marker at `at` carrying `key`.
    InsertCitation { at: Position, key: String },
    /// Insert a footnote marker at `at` with body `body`.
    InsertFootnote { at: Position, body: BlockTree },
}

/// Why an edit op failed.
#[derive(Debug, Clone, PartialEq, Eq)]
#[non_exhaustive]
pub enum Error {
    /// The op variant is not implemented.
    NotYetImplemented(&'static str),
    /// No suggestion (or no well-formed one) has this id.
    SuggestionNotFound(String),
    /// No comment thread has this id.
    CommentNotFound(String),
}

/// The message of an error.
pub open spec fn spec_error_message(e: Error) -> Seq<char> {
    match e {
        Error::NotYetImplemented(name) => "EditOp variant '"@ + name@ + "' is not yet implemented in this phase"@,
        Error::SuggestionNotFound(id) => "suggestion '"@ + id@ + "' not found"@,
        Error::CommentNotFound(id) => "comment thread '"@ + id@ + "' not found"@,
    }
}

impl Error {
    /// The human-readable message of the error.
    pub fn message(&self) -> (r: String)
        ensures
            r@ == spec_error_message(*self),
    {
        let (head, mid, tail) = match self {
            Error::NotYetImplemented(name) => ("EditOp variant '", *name, "' is not yet implemented in this phase"),
            Error::SuggestionNotFound(id) => ("suggestion '", id.as_str(), "' not found"),
            Error::CommentNotFound(id) => ("comment thread '", id.as_str(), "' not found"),
        };
        let mut out = chars_of(head);
        push_all(&mut out, chars_of(mid).as_slice());
        push_all(&mut out, chars_of(tail).as_slice());
        string_from_chars(out.as_slice())
    }
}

} // verus!
