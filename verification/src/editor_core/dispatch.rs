//! The edit-op dispatcher: applies a document edit op and describes
//! what the renderer must repaint — the dirty block range, whether the
//! block count changed, where the caret goes, and the id the op minted.

use vstd::prelude::*;

use crate::doc_model::document::{clip, clip_range, op_effect, Doc};
use crate::doc_model::lines::{count_newlines, count_nl, lemma_count_nl_mono, lemma_take_all, lines};
use crate::doc_model::records::{comment_decodes, comments_id, i64_or_zero, suggestion_decodes, suggestions_id};
use crate::doc_model::store::sub_map;
use crate::doc_model::{spec_error_message as spec_doc_message, EditOp, Error as DocError, Position};
use crate::editor_core::Error;
use crate::text::chars_of;

verus! {

/// Half-open block index range `[start, end)`; empty when `start == end`.
#[derive(Debug, Clone, Copy, PartialEq, Eq)]
pub struct BlockRange {
    pub start: usize,
    pub end: usize,
}

impl BlockRange {
    /// The empty range at 0: nothing changed.
    pub fn empty() -> (r: BlockRange)
        ensures
            r == (BlockRange { start: 0, end: 0 }),
    {
        BlockRange { start: 0, end: 0 }
    }

    /// `true` iff the range is empty.
    pub fn is_empty(self) -> (r: bool)
        ensures
            r == (self.end == self.start),
    {
        self.end == self.start
    }
}

/// An annotation id minted by an op, tagged with its container.
#[derive(Debug, Clone, PartialEq, Eq)]
pub enum MintedId {
    Comment(String),
    Suggestion(String),
    Citation(String),
    Footnote(String),
    Reply(String),
}

/// What the renderer must repaint after an op.
#[derive(Debug, Clone, PartialEq, Eq)]
pub struct RenderDelta {
    pub dirty_blocks: BlockRange,
    pub structural: bool,
    pub caret_hint: Option<Position>,
    pub minted_id: Option<MintedId>,
}

impl RenderDelta {
    /// Nothing happened: empty range, no structural change, no caret
    /// hint, no minted id.
    pub fn noop() -> (r: RenderDelta)
        ensures
            r == noop_delta(),
    {
        RenderDelta { dirty_blocks: BlockRange::empty(), structural: false, caret_hint: None, minted_id: None }
    }
}

/// The "nothing happened" delta.
pub open spec fn noop_delta() -> RenderDelta {
    RenderDelta { dirty_blocks: BlockRange { start: 0, end: 0 }, structural: false, caret_hint: None, minted_id: None }
}

/// Index of the block holding position `p` of `s`, `p` clipped to the
/// text (a `\n` belongs to the block it ends).
pub open spec fn block_index_clipped(s: Seq<char>, p: int) -> int {
    count_nl(s.take(clip(p, s.len() as int))) as int
}

/// The variant name of an edit op.
pub open spec fn spec_op_kind(op: EditOp) -> Seq<char> {
    match op {
        EditOp::InsertText { .. } => "InsertText"@,
        EditOp::DeleteRange { .. } => "DeleteRange"@,
        EditOp::FormatRange { .. } => "FormatRange"@,
        EditOp::InsertBlock { .. } => "InsertBlock"@,
        EditOp::SplitBlock { .. } => "SplitBlock"@,
        EditOp::MergeBlocks { .. } => "MergeBlocks"@,
        EditOp::InsertComment { .. } => "InsertComment"@,
        EditOp::ReplyToComment { .. } => "ReplyToComment"@,
        EditOp::SetCommentStatus { .. } => "SetCommentStatus"@,
        EditOp::Suggest { .. } => "Suggest"@,
        EditOp::AcceptSuggestion { .. } => "AcceptSuggestion"@,
        EditOp::InsertCitation { .. } => "InsertCitation"@,
        EditOp::InsertFootnote { .. } => "InsertFootnote"@,
    }
}

/// A dirty range over the blocks holding positions `lo` and `hi` of
/// `s` (both clipped): from the first through the second.
pub open spec fn range_over(s: Seq<char>, lo: int, hi: int) -> BlockRange {
    BlockRange {
        start: block_index_clipped(s, lo) as usize,
        end: (block_index_clipped(s, hi) + 1) as usize,
    }
}

/// The anchor `(from, to)` of comment `id` of `m`, or `(0, 0)` when it
/// does not decode.
pub open spec fn comment_anchor(m: Map<Seq<char>, crate::doc_model::store::Slot>, id: Seq<char>) -> (int, int) {
    if comment_decodes(m, id) {
        let sm = sub_map(m, id);
        ((i64_or_zero(sm, "from"@) as usize) as int, (i64_or_zero(sm, "to"@) as usize) as int)
    } else {
        (0, 0)
    }
}

/// The ordered span `(min, max)` of suggestion `id` of `m`, or `(0, 0)`
/// when it does not decode.
pub open spec fn suggestion_span(m: Map<Seq<char>, crate::doc_model::store::Slot>, id: Seq<char>) -> (int, int) {
    if suggestion_decodes(m, id) {
        let sm = sub_map(m, id);
        let f = (i64_or_zero(sm, "from"@) as usize) as int;
        let t = (i64_or_zero(sm, "to"@) as usize) as int;
        (if f < t { f } else { t }, if f < t { t } else { f })
    } else {
        (0, 0)
    }
}

/// `m` is `Some(c(id))` for the constructor tagged `tag` (0 comment,
/// 1 suggestion, 2 citation, 3 footnote, 4 reply) and an id equal to
/// `id`.
pub open spec fn minted_is(m: Option<MintedId>, tag: int, id: Option<Seq<char>>) -> bool {
    match m {
        Some(MintedId::Comment(s)) => tag == 0 && id == Some(s@),
        Some(MintedId::Suggestion(s)) => tag == 1 && id == Some(s@),
        Some(MintedId::Citation(s)) => tag == 2 && id == Some(s@),
        Some(MintedId::Footnote(s)) => tag == 3 && id == Some(s@),
        Some(MintedId::Reply(s)) => tag == 4 && id == Some(s@),
        None => false,
    }
}

/// The delta `dispatch` reports for `op` taking `o` to `n`.
pub open spec fn delta_is(o: Doc, n: Doc, op: EditOp, d: RenderDelta) -> bool {
    let pre = o.body();
    let len = pre.len() as int;
    let grew = lines(n.body()).len() != lines(pre).len();
    match op {
        EditOp::InsertText { at, text, .. } => if text@.len() == 0 {
            d == noop_delta()
        } else {
            let a = clip(at as int, len);
            let b = block_index_clipped(pre, a);
            let nl = count_nl(text@);
            &&& d.dirty_blocks == BlockRange { start: b as usize, end: (b + 1 + nl) as usize }
            &&& d.structural == (nl > 0)
            &&& d.caret_hint == Some((a + text@.len()) as usize)
            &&& d.minted_id is None
        },
        EditOp::DeleteRange { from, to } => {
            let (s, e) = clip_range(from as int, to as int, len);
            if s == e {
                d == noop_delta()
            } else {
                let lo = block_index_clipped(pre, s);
                let hi = block_index_clipped(pre, e);
                &&& d.dirty_blocks == BlockRange { start: lo as usize, end: (if grew { lo + 1 } else { hi + 1 }) as usize }
                &&& d.structural == grew
                &&& d.caret_hint == Some(s as usize)
                &&& d.minted_id is None
            }
        },
        EditOp::FormatRange { from, to, .. } => {
            let (s, e) = clip_range(from as int, to as int, len);
            if s == e {
                d == noop_delta()
            } else {
                d == RenderDelta { dirty_blocks: range_over(pre, s, e), structural: false, caret_hint: None, minted_id: None }
            }
        },
        EditOp::InsertBlock { at, block } => {
            let a = clip(at as int, len);
            let b = block_index_clipped(pre, a);
            d == RenderDelta {
                dirty_blocks: BlockRange { start: b as usize, end: (b + 2) as usize },
                structural: true,
                caret_hint: Some((a + block.text@.len() + 1) as usize),
                minted_id: None,
            }
        },
        EditOp::SplitBlock { at } => {
            let a = clip(at as int, len);
            let b = block_index_clipped(pre, a);
            d == RenderDelta {
                dirty_blocks: BlockRange { start: b as usize, end: (b + 2) as usize },
                structural: true,
                caret_hint: Some((a + 1) as usize),
                minted_id: None,
            }
        },
        EditOp::MergeBlocks { first, .. } => if !grew {
            d == noop_delta()
        } else {
            let b = block_index_clipped(pre, first as int);
            d == RenderDelta {
                dirty_blocks: BlockRange { start: b as usize, end: (b + 1) as usize },
                structural: true,
                caret_hint: None,
                minted_id: None,
            }
        },
        EditOp::InsertComment { from, to, .. } => {
            let (s, e) = clip_range(from as int, to as int, len);
            &&& d.dirty_blocks == range_over(pre, s, e)
            &&& !d.structural
            &&& d.caret_hint is None
            &&& minted_is(d.minted_id, 0, n.last_ids().comment)
        },
        EditOp::ReplyToComment { thread_id, .. } => {
            let (f, t) = comment_anchor(o.records(comments_id()), thread_id@);
            &&& d.dirty_blocks == range_over(n.body(), f, t)
            &&& !d.structural
            &&& d.caret_hint is None
            &&& minted_is(d.minted_id, 4, n.last_ids().reply)
        },
        EditOp::SetCommentStatus { thread_id, .. } => {
            let (f, t) = comment_anchor(o.records(comments_id()), thread_id@);
            d == RenderDelta { dirty_blocks: range_over(n.body(), f, t), structural: false, caret_hint: None, minted_id: None }
        },
        EditOp::Suggest { from, to, .. } => {
            let (s, e) = clip_range(from as int, to as int, len);
            &&& d.dirty_blocks == range_over(pre, s, e)
            &&& !d.structural
            &&& d.caret_hint is None
            &&& minted_is(d.minted_id, 1, n.last_ids().suggestion)
        },
        EditOp::AcceptSuggestion { suggestion_id } => {
            let (lo, hi) = suggestion_span(o.records(suggestions_id()), suggestion_id@);
            let bl = block_index_clipped(pre, lo);
            let bh = block_index_clipped(pre, hi);
            d == RenderDelta {
                dirty_blocks: BlockRange { start: bl as usize, end: (if grew { bl + 1 } else { bh + 1 }) as usize },
                structural: grew,
                caret_hint: None,
                minted_id: None,
            }
        },
        EditOp::InsertCitation { at, .. } => {
            let a = clip(at as int, len);
            let b = block_index_clipped(pre, a);
            &&& d.dirty_blocks == BlockRange { start: b as usize, end: (b + 1) as usize }
            &&& !d.structural
            &&& d.caret_hint == Some((a + 1) as usize)
            &&& minted_is(d.minted_id, 2, n.last_ids().citation)
        },
        EditOp::InsertFootnote { at, .. } => {
            let a = clip(at as int, len);
            let b = block_index_clipped(pre, a);
            &&& d.dirty_blocks == BlockRange { start: b as usize, end: (b + 1) as usize }
            &&& !d.structural
            &&& d.caret_hint == Some((a + 1) as usize)
            &&& minted_is(d.minted_id, 3, n.last_ids().footnote)
        },
    }
}

/// Index of the block holding position `p` of `text`: the number of
/// `\n` before `p`, `p` clipped to the text (a `\n` belongs to the block
/// it ends; past the end is the last block).
pub fn block_idx_at(text: &str, p: Position) -> (r: usize)
    ensures
        r == block_index_clipped(text@, p as int),
{
    let cs = chars_of(text);
    let q = if p < cs.len() { p } else { cs.len() };
    count_newlines(cs.as_slice(), q)
}

/// The variant name of an op.
pub(crate) fn edit_op_kind(op: &EditOp) -> (r: &'static str)
    ensures
        r@ == spec_op_kind(*op),
{
    match op {
        EditOp::InsertText { .. } => "InsertText",
        EditOp::DeleteRange { .. } => "DeleteRange",
        EditOp::FormatRange { .. } => "FormatRange",
        EditOp::InsertBlock { .. } => "InsertBlock",
        EditOp::SplitBlock { .. } => "SplitBlock",
        EditOp::MergeBlocks { .. } => "MergeBlocks",
        EditOp::InsertComment { .. } => "InsertComment",
        EditOp::ReplyToComment { .. } => "ReplyToComment",
        EditOp::SetCommentStatus { .. } => "SetCommentStatus",
        EditOp::Suggest { .. } => "Suggest",
        EditOp::AcceptSuggestion { .. } => "AcceptSuggestion",
        EditOp::InsertCitation { .. } => "InsertCitation",
        EditOp::InsertFootnote { .. } => "InsertFootnote",
    }
}

/// The dispatcher's error for a failed op of kind `kind`.
pub open spec fn failed_as(e: Error, kind: Seq<char>, de: DocError) -> bool {
    e matches Error::EditOpFailed { kind: k, reason } && k@ == kind && reason@ == spec_doc_message(de)
}

/// Applies `op`, turning a document error into `EditOpFailed` with the
/// op's kind and the error's message.
pub(crate) fn apply(doc: &mut Doc, op: EditOp, kind: &'static str) -> (r: Result<(), Error>)
    requires
        old(doc).admits(op),
    ensures
        exists|res: Result<(), DocError>|
            #![trigger op_effect(*old(doc), *final(doc), op, res)]
            op_effect(*old(doc), *final(doc), op, res) && match res {
                Ok(()) => r is Ok,
                Err(de) => r is Err && failed_as(r->Err_0, kind@, de),
            },
{
    match doc.apply_edit_op(op) {
        Ok(()) => Ok(()),
        Err(e) => Err(Error::EditOpFailed { kind: kind.to_owned(), reason: e.message() }),
    }
}

/// `r` is what `dispatch` returns for `op` taking `o` to `n`: the
/// document changed as the op says, and either the op succeeded and the
/// delta is the one [`delta_is`] describes, or it failed and the error
/// carries the op's kind and the document error's message.
pub open spec fn dispatched(o: Doc, n: Doc, op: EditOp, r: Result<RenderDelta, Error>) -> bool {
    exists|res: Result<(), DocError>|
        #![trigger op_effect(o, n, op, res)]
        op_effect(o, n, op, res) && match res {
            Ok(()) => r is Ok && delta_is(o, n, op, r->Ok_0),
            Err(de) => r is Err && failed_as(r->Err_0, spec_op_kind(op), de),
        }
}

/// Length of the body of `doc`, with the bound a `String` gives it.
fn body_len(doc: &Doc) -> (r: usize)
    ensures
        r == doc.body().len(),
        r <= isize::MAX,
{
    let t = doc.text();
    chars_of(t.as_str()).len()
}

/// Applies `op` to `doc` and returns the [`RenderDelta`] the renderer
/// needs; a document error comes back as `EditOpFailed` naming the op.
/// The op must be admitted (see [`Doc::admits_op`]).
pub fn dispatch(doc: &mut Doc, op: EditOp) -> (r: Result<RenderDelta, Error>)
    requires
        old(doc).admits(op),
    ensures
        dispatched(*old(doc), *final(doc), op, r),
{
    let kind = edit_op_kind(&op);
    match op {
        EditOp::InsertText { at, text, marks } => dispatch_insert_text(doc, at, text, marks, kind),
        EditOp::DeleteRange { from, to } => dispatch_delete(doc, from, to, kind),
        EditOp::FormatRange { from, to, mark } => dispatch_format(doc, from, to, mark, kind),
        EditOp::InsertBlock { at, block } => {
            let tlen = chars_of(block.text.as_str()).len();
            dispatch_block(doc, EditOp::InsertBlock { at, block }, at, tlen, kind)
        },
        EditOp::SplitBlock { at } => dispatch_block(doc, EditOp::SplitBlock { at }, at, 0, kind),
        EditOp::MergeBlocks { first, second } => dispatch_merge(doc, first, second, kind),
        EditOp::InsertComment { from, to, body, thread_id, author, created_at } => dispatch_annotate(
            doc,
            EditOp::InsertComment { from, to, body, thread_id, author, created_at },
            from,
            to,
            kind,
        ),
        EditOp::Suggest { from, to, replacement } => dispatch_annotate(
            doc,
            EditOp::Suggest { from, to, replacement },
            from,
            to,
            kind,
        ),
        EditOp::ReplyToComment { thread_id, body, author, created_at } => dispatch_thread(
            doc,
            EditOp::ReplyToComment { thread_id, body, author, created_at },
            kind,
        ),
        EditOp::SetCommentStatus { thread_id, status } => dispatch_thread(
            doc,
            EditOp::SetCommentStatus { thread_id, status },
            kind,
        ),
        EditOp::AcceptSuggestion { suggestion_id } => dispatch_accept(doc, suggestion_id, kind),
        EditOp::InsertCitation { at, key } => dispatch_marker(doc, EditOp::InsertCitation { at, key }, at, kind),
        EditOp::InsertFootnote { at, body } => dispatch_marker(doc, EditOp::InsertFootnote { at, body }, at, kind),
    }
}

/// `dispatch` for `InsertText`.
fn dispatch_insert_text(doc: &mut Doc, at: usize, text: String, marks: Vec<crate::doc_model::Mark>, kind: &'static str) -> (r: Result<RenderDelta, Error>)
    requires
        old(doc).admits(EditOp::InsertText { at, text, marks }),
        kind@ == spec_op_kind(EditOp::InsertText { at, text, marks }),
    ensures
        dispatched(*old(doc), *final(doc), EditOp::InsertText { at, text, marks }, r),
{
    let ghost op = EditOp::InsertText { at, text, marks };
    if text.as_str().is_empty() {
        let r = Ok(RenderDelta::noop());
        assert(op_effect(*old(doc), *doc, op, Ok(())));
        return r;
    }
    let pre_text = doc.text();
    let pre_len = chars_of(pre_text.as_str()).len();
    let actual_at = if at < pre_len { at } else { pre_len };
    let block_start = block_idx_at(pre_text.as_str(), actual_at);
    let tc = chars_of(text.as_str());
    let newlines = count_newlines(tc.as_slice(), tc.len());
    let inserted = tc.len();
    proof {
        lemma_take_all(text@);
        lemma_count_nl_mono(pre_text@, actual_at as int, pre_len as int);
    }
    match apply(doc, EditOp::InsertText { at, text, marks }, kind) {
        Ok(()) => {},
        Err(e) => return Err(e),
    }
    let post_len = body_len(doc);
    assert(post_len == pre_len + inserted);
    let r = Ok(RenderDelta {
        dirty_blocks: BlockRange { start: block_start, end: block_start + 1 + newlines },
        structural: newlines > 0,
        caret_hint: Some(actual_at + inserted),
        minted_id: None,
    });
    assert(op_effect(*old(doc), *doc, op, Ok(())));
    r
}

/// `dispatch` for `DeleteRange`.
fn dispatch_delete(doc: &mut Doc, from: usize, to: usize, kind: &'static str) -> (r: Result<RenderDelta, Error>)
    requires
        old(doc).admits(EditOp::DeleteRange { from, to }),
        kind@ == spec_op_kind(EditOp::DeleteRange { from, to }),
    ensures
        dispatched(*old(doc), *final(doc), EditOp::DeleteRange { from, to }, r),
{
    let ghost op = EditOp::DeleteRange { from, to };
    let pre_text = doc.text();
    let pre_len = chars_of(pre_text.as_str()).len();
    let pre_blocks = doc.block_count();
    let start = if from < pre_len { from } else { pre_len };
    let end0 = if to < pre_len { to } else { pre_len };
    let end = if end0 > start { end0 } else { start };
    let block_lo = block_idx_at(pre_text.as_str(), start);
    let block_hi = block_idx_at(pre_text.as_str(), end);
    proof {
        lemma_count_nl_mono(pre_text@, start as int, pre_len as int);
        lemma_count_nl_mono(pre_text@, end as int, pre_len as int);
    }
    match apply(doc, EditOp::DeleteRange { from, to }, kind) {
        Ok(()) => {},
        Err(e) => return Err(e),
    }
    assert(op_effect(*old(doc), *doc, op, Ok(())));
    if start == end {
        return Ok(RenderDelta::noop());
    }
    let post_blocks = doc.block_count();
    let structural = post_blocks != pre_blocks;
    let dirty_end = if structural { block_lo + 1 } else { block_hi + 1 };
    Ok(RenderDelta {
        dirty_blocks: BlockRange { start: block_lo, end: dirty_end },
        structural,
        caret_hint: Some(start),
        minted_id: None,
    })
}

/// `dispatch` for `FormatRange`.
fn dispatch_format(doc: &mut Doc, from: usize, to: usize, mark: crate::doc_model::Mark, kind: &'static str) -> (r: Result<RenderDelta, Error>)
    requires
        old(doc).admits(EditOp::FormatRange { from, to, mark }),
        kind@ == spec_op_kind(EditOp::FormatRange { from, to, mark }),
    ensures
        dispatched(*old(doc), *final(doc), EditOp::FormatRange { from, to, mark }, r),
{
    let ghost op = EditOp::FormatRange { from, to, mark };
    let pre_text = doc.text();
    let pre_len = chars_of(pre_text.as_str()).len();
    let start = if from < pre_len { from } else { pre_len };
    let end0 = if to < pre_len { to } else { pre_len };
    let end = if end0 > start { end0 } else { start };
    let block_lo = block_idx_at(pre_text.as_str(), start);
    let block_hi = block_idx_at(pre_text.as_str(), end);
    proof {
        lemma_count_nl_mono(pre_text@, end as int, pre_len as int);
    }
    match apply(doc, EditOp::FormatRange { from, to, mark }, kind) {
        Ok(()) => {},
        Err(e) => return Err(e),
    }
    assert(op_effect(*old(doc), *doc, op, Ok(())));
    if start == end {
        return Ok(RenderDelta::noop());
    }
    Ok(RenderDelta {
        dirty_blocks: BlockRange { start: block_lo, end: block_hi + 1 },
        structural: false,
        caret_hint: None,
        minted_id: None,
    })
}

/// `dispatch` for `InsertBlock` and `SplitBlock`; the caret advances
/// past `tlen` codepoints of block text (none for a split) and a `\n`.
fn dispatch_block(doc: &mut Doc, op: EditOp, at: usize, tlen: usize, kind: &'static str) -> (r: Result<RenderDelta, Error>)
    requires
        old(doc).admits(op),
        kind@ == spec_op_kind(op),
        (op matches EditOp::InsertBlock { at: a, block } && a == at && tlen == block.text@.len())
            || (op matches EditOp::SplitBlock { at: a } && a == at && tlen == 0),
    ensures
        dispatched(*old(doc), *final(doc), op, r),
{
    let ghost op0 = op;
    let pre_text = doc.text();
    let pre_len = chars_of(pre_text.as_str()).len();
    let actual_at = if at < pre_len { at } else { pre_len };
    let block_idx = block_idx_at(pre_text.as_str(), actual_at);
    proof {
        lemma_count_nl_mono(pre_text@, actual_at as int, pre_len as int);
    }
    match apply(doc, op, kind) {
        Ok(()) => {},
        Err(e) => return Err(e),
    }
    let post_len = body_len(doc);
    assert(op_effect(*old(doc), *doc, op0, Ok(())));
    assert(post_len >= actual_at + tlen + 1);
    let extra = tlen + 1;
    Ok(RenderDelta {
        dirty_blocks: BlockRange { start: block_idx, end: block_idx + 2 },
        structural: true,
        caret_hint: Some(actual_at + extra),
        minted_id: None,
    })
}

/// `dispatch` for `MergeBlocks`.
fn dispatch_merge(doc: &mut Doc, first: usize, second: usize, kind: &'static str) -> (r: Result<RenderDelta, Error>)
    requires
        old(doc).admits(EditOp::MergeBlocks { first, second }),
        kind@ == spec_op_kind(EditOp::MergeBlocks { first, second }),
    ensures
        dispatched(*old(doc), *final(doc), EditOp::MergeBlocks { first, second }, r),
{
    let ghost op = EditOp::MergeBlocks { first, second };
    let pre_text = doc.text();
    let pre_blocks = doc.block_count();
    let block_first = block_idx_at(pre_text.as_str(), first);
    proof {
        lemma_count_nl_mono(pre_text@, clip(first as int, pre_text@.len() as int), pre_text@.len() as int);
    }
    match apply(doc, EditOp::MergeBlocks { first, second }, kind) {
        Ok(()) => {},
        Err(e) => return Err(e),
    }
    assert(op_effect(*old(doc), *doc, op, Ok(())));
    let post_blocks = doc.block_count();
    if post_blocks == pre_blocks {
        return Ok(RenderDelta::noop());
    }
    Ok(RenderDelta {
        dirty_blocks: BlockRange { start: block_first, end: block_first + 1 },
        structural: true,
        caret_hint: None,
        minted_id: None,
    })
}

/// `dispatch` for `InsertComment` and `Suggest`: the anchored range's
/// blocks are dirty and the minted id is reported.
fn dispatch_annotate(doc: &mut Doc, op: EditOp, from: usize, to: usize, kind: &'static str) -> (r: Result<RenderDelta, Error>)
    requires
        old(doc).admits(op),
        kind@ == spec_op_kind(op),
        (op matches EditOp::InsertComment { from: f, to: t, .. } && f == from && t == to)
            || (op matches EditOp::Suggest { from: f, to: t, .. } && f == from && t == to),
    ensures
        dispatched(*old(doc), *final(doc), op, r),
{
    let ghost op0 = op;
    let is_comment = match &op {
        EditOp::InsertComment { .. } => true,
        _ => false,
    };
    let pre_text = doc.text();
    let pre_len = chars_of(pre_text.as_str()).len();
    let start = if from < pre_len { from } else { pre_len };
    let end0 = if to < pre_len { to } else { pre_len };
    let end = if end0 > start { end0 } else { start };
    let block_lo = block_idx_at(pre_text.as_str(), start);
    let block_hi = block_idx_at(pre_text.as_str(), end);
    proof {
        lemma_count_nl_mono(pre_text@, end as int, pre_len as int);
    }
    match apply(doc, op, kind) {
        Ok(()) => {},
        Err(e) => return Err(e),
    }
    assert(op_effect(*old(doc), *doc, op0, Ok(())));
    let minted = if is_comment {
        match doc.last_comment_thread_id() {
            Some(id) => MintedId::Comment(id),
            None => vstd::pervasive::unreached(),
        }
    } else {
        match doc.last_suggestion_id() {
            Some(id) => MintedId::Suggestion(id),
            None => vstd::pervasive::unreached(),
        }
    };
    Ok(RenderDelta {
        dirty_blocks: BlockRange { start: block_lo, end: block_hi + 1 },
        structural: false,
        caret_hint: None,
        minted_id: Some(minted),
    })
}

/// `dispatch` for `ReplyToComment` and `SetCommentStatus`: the blocks of
/// the thread's anchor (on the text after the op) are dirty.
fn dispatch_thread(doc: &mut Doc, op: EditOp, kind: &'static str) -> (r: Result<RenderDelta, Error>)
    requires
        old(doc).admits(op),
        kind@ == spec_op_kind(op),
        op is ReplyToComment || op is SetCommentStatus,
    ensures
        dispatched(*old(doc), *final(doc), op, r),
{
    let ghost op0 = op;
    let (tid, is_reply) = match &op {
        EditOp::ReplyToComment { thread_id, .. } => (thread_id.clone(), true),
        EditOp::SetCommentStatus { thread_id, .. } => (thread_id.clone(), false),
        _ => (String::new(), false),
    };
    let (pf, pt) = match doc.comment(tid.as_str()) {
        Some(c) => (c.from, c.to),
        None => (0, 0),
    };
    match apply(doc, op, kind) {
        Ok(()) => {},
        Err(e) => return Err(e),
    }
    assert(op_effect(*old(doc), *doc, op0, Ok(())));
    let post_text = doc.text();
    let block_lo = block_idx_at(post_text.as_str(), pf);
    let block_hi = block_idx_at(post_text.as_str(), pt);
    proof {
        lemma_count_nl_mono(post_text@, clip(pt as int, post_text@.len() as int), post_text@.len() as int);
    }
    let minted = if is_reply {
        match doc.last_reply_id() {
            Some(id) => Some(MintedId::Reply(id)),
            None => vstd::pervasive::unreached(),
        }
    } else {
        None
    };
    Ok(RenderDelta {
        dirty_blocks: BlockRange { start: block_lo, end: block_hi + 1 },
        structural: false,
        caret_hint: None,
        minted_id: minted,
    })
}

/// `dispatch` for `AcceptSuggestion`.
fn dispatch_accept(doc: &mut Doc, suggestion_id: String, kind: &'static str) -> (r: Result<RenderDelta, Error>)
    requires
        old(doc).admits(EditOp::AcceptSuggestion { suggestion_id }),
        kind@ == spec_op_kind(EditOp::AcceptSuggestion { suggestion_id }),
    ensures
        dispatched(*old(doc), *final(doc), EditOp::AcceptSuggestion { suggestion_id }, r),
{
    let ghost op = EditOp::AcceptSuggestion { suggestion_id };
    let pre_text = doc.text();
    let pre_blocks = doc.block_count();
    let (lo, hi) = match doc.suggestion(suggestion_id.as_str()) {
        Some(sg) => if sg.from < sg.to { (sg.from, sg.to) } else { (sg.to, sg.from) },
        None => (0, 0),
    };
    let block_lo = block_idx_at(pre_text.as_str(), lo);
    let block_hi = block_idx_at(pre_text.as_str(), hi);
    proof {
        lemma_count_nl_mono(pre_text@, clip(hi as int, pre_text@.len() as int), pre_text@.len() as int);
        lemma_count_nl_mono(pre_text@, clip(lo as int, pre_text@.len() as int), pre_text@.len() as int);
    }
    match apply(doc, EditOp::AcceptSuggestion { suggestion_id }, kind) {
        Ok(()) => {},
        Err(e) => return Err(e),
    }
    assert(op_effect(*old(doc), *doc, op, Ok(())));
    let post_blocks = doc.block_count();
    let structural = post_blocks != pre_blocks;
    let dirty_end = if structural { block_lo + 1 } else { block_hi + 1 };
    Ok(RenderDelta {
        dirty_blocks: BlockRange { start: block_lo, end: dirty_end },
        structural,
        caret_hint: None,
        minted_id: None,
    })
}

/// `dispatch` for `InsertCitation` and `InsertFootnote`: the marker's
/// block is dirty, the caret goes after it, and the minted id is
/// reported.
fn dispatch_marker(doc: &mut Doc, op: EditOp, at: usize, kind: &'static str) -> (r: Result<RenderDelta, Error>)
    requires
        old(doc).admits(op),
        kind@ == spec_op_kind(op),
        (op matches EditOp::InsertCitation { at: a, .. } && a == at)
            || (op matches EditOp::InsertFootnote { at: a, .. } && a == at),
    ensures
        dispatched(*old(doc), *final(doc), op, r),
{
    let ghost op0 = op;
    let is_citation = match &op {
        EditOp::InsertCitation { .. } => true,
        _ => false,
    };
    let pre_text = doc.text();
    let pre_len = chars_of(pre_text.as_str()).len();
    let actual_at = if at < pre_len { at } else { pre_len };
    let block_idx = block_idx_at(pre_text.as_str(), actual_at);
    proof {
        lemma_count_nl_mono(pre_text@, actual_at as int, pre_len as int);
    }
    match apply(doc, op, kind) {
        Ok(()) => {},
        Err(e) => return Err(e),
    }
    assert(op_effect(*old(doc), *doc, op0, Ok(())));
    let post_len = body_len(doc);
    assert(post_len == pre_len + 1);
    let minted = if is_citation {
        match doc.last_citation_id() {
            Some(id) => MintedId::Citation(id),
            None => vstd::pervasive::unreached(),
        }
    } else {
        match doc.last_footnote_id() {
            Some(id) => MintedId::Footnote(id),
            None => vstd::pervasive::unreached(),
        }
    };
    Ok(RenderDelta {
        dirty_blocks: BlockRange { start: block_idx, end: block_idx + 1 },
        structural: false,
        caret_hint: Some(actual_at + 1),
        minted_id: Some(minted),
    })
}

} // verus!
