//! Properties of the dispatcher that hold over every edit op.

use vstd::prelude::*;

use crate::doc_model::document::{accept_effect, clip, clip_range, op_effect, spec_delete_text, spec_insert_text, splice, Doc};
use crate::doc_model::laws::{lemma_count_nl_concat, lemma_count_nl_splice};
use crate::doc_model::lines::{count_nl, lemma_count_nl_mono, lemma_lines_len, lemma_newline_exists, lemma_newline_index, lemma_take_all, lines};
use crate::doc_model::records::{comments_id, suggestions_id};
use crate::doc_model::{EditOp, Error as DocError};
use crate::editor_core::dispatch::{
    block_index_clipped, comment_anchor, delta_is, dispatched, failed_as, spec_op_kind, suggestion_span, RenderDelta,
};
use crate::editor_core::Error;

verus! {

/// A block index is at most the number of `\n`, which is at most the
/// length.
proof fn lemma_idx_bounds(s: Seq<char>, p: int)
    requires
        0 <= p,
    ensures
        0 <= block_index_clipped(s, p) <= count_nl(s),
        count_nl(s) <= s.len(),
{
    lemma_count_nl_mono(s, clip(p, s.len() as int), s.len() as int);
    lemma_take_all(s);
}

/// Block indices grow with the position.
proof fn lemma_idx_mono(s: Seq<char>, p: int, q: int)
    requires
        0 <= p <= q,
    ensures
        block_index_clipped(s, p) <= block_index_clipped(s, q),
{
    lemma_count_nl_mono(s, clip(p, s.len() as int), clip(q, s.len() as int));
}

/// The `\n` count of a prefix of a text is at most that of the text.
proof fn lemma_prefix_nl(s: Seq<char>, p: int)
    requires
        0 <= p <= s.len(),
    ensures
        count_nl(s.subrange(0, p)) <= count_nl(s),
{
    lemma_count_nl_mono(s, p, s.len() as int);
    lemma_take_all(s);
    assert(s.take(p) == s.subrange(0, p));
}

/// A splice never removes a `\n`.
proof fn lemma_splice_nl(s: Seq<char>, p: int, t: Seq<char>)
    requires
        0 <= p <= s.len(),
    ensures
        count_nl(splice(s, p, t)) >= count_nl(s),
        count_nl(splice(s, p, t)) == count_nl(s) + count_nl(t),
{
    lemma_count_nl_splice(s, p, t);
}

/// An accepted suggestion keeps the text before its start: the block
/// holding its start still exists afterwards.
proof fn lemma_accept_prefix(o: Doc, n: Doc, id: String)
    requires
        accept_effect(o, n, id, Ok(())),
        lines(n.body()).len() != lines(o.body()).len(),
    ensures
        block_index_clipped(o.body(), suggestion_span(o.records(suggestions_id()), id@).0) <= count_nl(n.body()),
{
    let pre = o.body();
    let post = n.body();
    let len = pre.len() as int;
    let m = o.records(suggestions_id());
    let (lo, hi) = suggestion_span(m, id@);
    if n == o {
    } else {
        let sm = crate::doc_model::store::sub_map(m, id@);
        let from = crate::doc_model::records::i64_or_zero(sm, "from"@) as usize;
        let to = crate::doc_model::records::i64_or_zero(sm, "to"@) as usize;
        let (s, e) = clip_range(from as int, to as int, len);
        let cut = spec_delete_text(pre, from as int, to as int);
        assert(cut == pre.subrange(0, s) + pre.subrange(e, len));
        let p = clip(from as int, cut.len() as int);
        assert(s <= p <= cut.len());
        assert(post == spec_insert_text(cut, from as int, crate::doc_model::records::str_or_empty(sm, "replacement"@)));
        assert(post.subrange(0, p) =~= cut.subrange(0, p));
        lemma_prefix_nl(post, p);
        lemma_count_nl_mono(cut, s, p);
        assert(cut.take(p) == cut.subrange(0, p));
        assert(cut.take(s) =~= pre.take(s));
        assert(0 <= lo <= from);
        lemma_count_nl_mono(pre, clip(lo, len), s);
    }
}

/// The thread a reply or status change names has its anchor in order
/// (`from <= to`); other ops ask nothing.
pub open spec fn anchor_in_order(o: Doc, op: EditOp) -> bool {
    match op {
        EditOp::ReplyToComment { thread_id, .. } => {
            let (f, t) = comment_anchor(o.records(comments_id()), thread_id@);
            f <= t
        },
        EditOp::SetCommentStatus { thread_id, .. } => {
            let (f, t) = comment_anchor(o.records(comments_id()), thread_id@);
            f <= t
        },
        _ => true,
    }
}

/// Every delta `dispatch` reports has a well-formed dirty range: it
/// starts no later than it ends and ends at most one past the number of
/// blocks after the op (for bodies that fit in memory, and, for a
/// reply or status change, a thread anchored in order).
#[verifier::spinoff_prover]
#[verifier::rlimit(100)]
pub proof fn law_dirty_range_bounded(o: Doc, n: Doc, op: EditOp, r: Result<RenderDelta, Error>)
    requires
        dispatched(o, n, op, r),
        r is Ok,
        anchor_in_order(o, op),
        o.body().len() < usize::MAX,
        n.body().len() < usize::MAX,
    ensures
        r->Ok_0.dirty_blocks.start <= r->Ok_0.dirty_blocks.end,
        r->Ok_0.dirty_blocks.end <= lines(n.body()).len() + 1,
{
    let res = choose|res: Result<(), DocError>|
        #![trigger op_effect(o, n, op, res)]
        op_effect(o, n, op, res) && match res {
            Ok(()) => r is Ok && delta_is(o, n, op, r->Ok_0),
            Err(de) => r is Err && failed_as(r->Err_0, spec_op_kind(op), de),
        };
    assert(res is Ok);
    let d = r->Ok_0;
    assert(delta_is(o, n, op, d));
    let pre = o.body();
    let post = n.body();
    let len = pre.len() as int;
    lemma_lines_len(post);
    lemma_lines_len(pre);
    lemma_idx_bounds(post, 0);
    lemma_idx_bounds(pre, 0);
    match op {
        EditOp::InsertText { at, text, .. } => {
            if text@.len() > 0 {
                let a = clip(at as int, len);
                lemma_splice_nl(pre, a, text@);
                assert(post == splice(pre, a, text@));
                lemma_idx_bounds(pre, a);
            }
        },
        EditOp::DeleteRange { from, to } => {
            let (s, e) = clip_range(from as int, to as int, len);
            if s != e {
                lemma_idx_bounds(pre, s);
                lemma_idx_bounds(pre, e);
                lemma_idx_mono(pre, s, e);
                let x = pre.subrange(0, s);
                let y = pre.subrange(e, len);
                assert(post == x + y);
                lemma_count_nl_concat(x, y);
                assert(pre.take(s) == x);
            }
        },
        EditOp::FormatRange { from, to, .. } => {
            let (s, e) = clip_range(from as int, to as int, len);
            if s != e {
                lemma_idx_bounds(pre, e);
                lemma_idx_mono(pre, s, e);
            }
        },
        EditOp::InsertBlock { at, block } => {
            let a = clip(at as int, len);
            lemma_idx_bounds(pre, a);
            let t = block.text@;
            lemma_splice_nl(pre, a, t.push('\n'));
            lemma_splice_nl(pre, a, seq!['\n'] + t);
            lemma_splice_nl(pre, a, seq!['\n'] + t.push('\n'));
        },
        EditOp::SplitBlock { at } => {
            let a = clip(at as int, len);
            lemma_idx_bounds(pre, a);
            lemma_splice_nl(pre, a, seq!['\n']);
        },
        EditOp::MergeBlocks { first, second } => {
            if lines(post).len() != lines(pre).len() {
                let i1 = count_nl(pre.take(clip(first as int, len)));
                let i2 = count_nl(pre.take(clip(second as int, len)));
                if i1 + 1 == i2 {
                    lemma_count_nl_mono(pre, clip(second as int, len), len);
                    lemma_take_all(pre);
                    lemma_newline_exists(pre, len, i1);
                    let j = choose|j: int| 0 <= j < len && pre[j] == '\n' && count_nl(pre.take(j)) == i1;
                    lemma_newline_index(pre, j, i1);
                    let x = pre.subrange(0, j);
                    let m = pre.subrange(j, j + 1);
                    let y = pre.subrange(j + 1, len);
                    assert(post == x + y);
                    assert(pre =~= x + m + y);
                    lemma_count_nl_concat(x + m, y);
                    lemma_count_nl_concat(x, m);
                    lemma_count_nl_concat(x, y);
                    assert(m.len() == 1 && m.last() == pre[j]);
                    assert(m.drop_last() =~= Seq::<char>::empty());
                    assert(count_nl(m.drop_last()) == 0);
                    assert(count_nl(m) == 1);
                    lemma_idx_bounds(pre, first as int);
                }
            }
        },
        EditOp::InsertComment { from, to, .. } => {
            let (s, e) = clip_range(from as int, to as int, len);
            assert(post == pre);
            lemma_idx_bounds(pre, e);
            lemma_idx_mono(pre, s, e);
        },
        EditOp::ReplyToComment { thread_id, .. } => {
            let (f, t) = comment_anchor(o.records(comments_id()), thread_id@);
            lemma_idx_bounds(post, t);
            lemma_idx_mono(post, f, t);
        },
        EditOp::SetCommentStatus { thread_id, .. } => {
            let (f, t) = comment_anchor(o.records(comments_id()), thread_id@);
            lemma_idx_bounds(post, t);
            lemma_idx_mono(post, f, t);
        },
        EditOp::Suggest { from, to, .. } => {
            let (s, e) = clip_range(from as int, to as int, len);
            assert(post == pre);
            lemma_idx_bounds(pre, e);
            lemma_idx_mono(pre, s, e);
        },
        EditOp::AcceptSuggestion { suggestion_id } => {
            let (lo, hi) = suggestion_span(o.records(suggestions_id()), suggestion_id@);
            lemma_idx_bounds(pre, hi);
            lemma_idx_mono(pre, lo, hi);
            if lines(post).len() != lines(pre).len() {
                lemma_accept_prefix(o, n, suggestion_id);
            }
        },
        EditOp::InsertCitation { at, .. } => {
            let a = clip(at as int, len);
            lemma_idx_bounds(pre, a);
            lemma_splice_nl(pre, a, seq!['\u{E000}']);
        },
        EditOp::InsertFootnote { at, .. } => {
            let a = clip(at as int, len);
            lemma_idx_bounds(pre, a);
            lemma_splice_nl(pre, a, seq!['\u{E001}']);
        },
    }
}

/// `dispatch` either succeeds or fails with `EditOpFailed` naming the
/// op's variant, and a failed op leaves the document as it was.
pub proof fn law_dispatch_error_is_typed(o: Doc, n: Doc, op: EditOp, r: Result<RenderDelta, Error>)
    requires
        dispatched(o, n, op, r),
        r is Err,
    ensures
        r->Err_0 matches Error::EditOpFailed { kind, .. } && kind@ == spec_op_kind(op),
        n == o,
{
    let res = choose|res: Result<(), DocError>|
        #![trigger op_effect(o, n, op, res)]
        op_effect(o, n, op, res) && match res {
            Ok(()) => r is Ok && delta_is(o, n, op, r->Ok_0),
            Err(de) => r is Err && failed_as(r->Err_0, spec_op_kind(op), de),
        };
    assert(res is Err);
}

/// A reply or status change repaints every block the thread's anchor
/// `[from, to]` touches: the dirty range starts at or before the block
/// holding `from` (the number of `\n` before it) and ends after the block
/// holding `to`, both positions clipped to the text.
pub proof fn law_thread_repaint_covers_anchor(o: Doc, n: Doc, op: EditOp, r: Result<RenderDelta, Error>)
    requires
        dispatched(o, n, op, r),
        r is Ok,
        op is ReplyToComment || op is SetCommentStatus,
        n.body().len() < usize::MAX,
    ensures
        ({
            let id = match op {
                EditOp::ReplyToComment { thread_id, .. } => thread_id@,
                EditOp::SetCommentStatus { thread_id, .. } => thread_id@,
                _ => Seq::empty(),
            };
            let (f, t) = comment_anchor(o.records(comments_id()), id);
            let text = n.body();
            let d = r->Ok_0;
            &&& d.dirty_blocks.start <= count_nl(text.take(if f < text.len() { f } else { text.len() as int }))
            &&& count_nl(text.take(if t < text.len() { t } else { text.len() as int })) < d.dirty_blocks.end
        }),
{
    let res = choose|res: Result<(), DocError>|
        #![trigger op_effect(o, n, op, res)]
        op_effect(o, n, op, res) && match res {
            Ok(()) => r is Ok && delta_is(o, n, op, r->Ok_0),
            Err(de) => r is Err && failed_as(r->Err_0, spec_op_kind(op), de),
        };
    assert(res is Ok);
    let post = n.body();
    lemma_idx_bounds(post, 0);
    match op {
        EditOp::ReplyToComment { thread_id, .. } => {
            let (f, t) = comment_anchor(o.records(comments_id()), thread_id@);
            lemma_idx_bounds(post, f);
            lemma_idx_bounds(post, t);
        },
        EditOp::SetCommentStatus { thread_id, .. } => {
            let (f, t) = comment_anchor(o.records(comments_id()), thread_id@);
            lemma_idx_bounds(post, f);
            lemma_idx_bounds(post, t);
        },
        _ => {},
    }
}

} // verus!
