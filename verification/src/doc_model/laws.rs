//! Properties of the document model that span several operations.

use vstd::prelude::*;

use super::document::{accept_effect, clip, clip_range, format_effect, insert_block_effect, insert_comment_effect, merge_effect, padded, reply_effect, set_status_effect, spec_delete_text, spec_insert_text, splice, split_effect, suggest_effect, Doc};
use super::lines::{count_nl, lemma_count_nl_step, lemma_lines_len, lemma_newline_index, lemma_take_all, lines, line_end_of, line_start_of};
use super::records::{comment_decodes, comments_id, field_str, i64_or_zero, lemma_record_ids_distinct, spec_replies, str_or_empty, suggestion_decodes, suggestions_id, thread_replies, ReplyView};
use super::store::{content_of, has_sub_list, has_sub_map, snapshot_content, sub_map, Slot};
use super::{spec_str_to_state, CommentStatus, Error, Mark, SuggestionState};

verus! {

/// A document restored from a snapshot of `d` has the text, the marks,
/// the block kinds and the records of `d`: `from_snapshot(d.snapshot())`
/// round-trips.
pub proof fn law_snapshot_round_trip(d: Doc, snap: Seq<u8>, restored: Doc)
    requires
        snapshot_content(snap) == content_of(d.store()),
        content_of(restored.store()) == snapshot_content(snap),
    ensures
        restored.body() == d.body(),
        forall|m: Mark| #[trigger] restored.marked(m) == d.marked(m),
        restored.kind_list() == d.kind_list(),
        forall|c: Seq<char>| #[trigger] restored.records(c) == d.records(c),
{
    let a = content_of(d.store());
    let b = content_of(restored.store());
    assert(a.texts[super::document::body_id()] == b.texts[super::document::body_id()]);
    assert forall|m: Mark| #[trigger] restored.marked(m) == d.marked(m) by {
        let k = (super::document::body_id(), super::spec_mark_key(m));
        assert(a.marks[k] == b.marks[k]);
    }
    assert(a.mlists[super::document::blocks_id()] == b.mlists[super::document::blocks_id()]);
    assert forall|c: Seq<char>| #[trigger] restored.records(c) == d.records(c) by {
        assert(a.maps[c] == b.maps[c]);
    }
}

/// Deleting the span an insertion added gives the text back:
/// `DeleteRange { from: a, to: a + n }` undoes `InsertText` of `n`
/// codepoints at `a` (both clipped the same way).
pub proof fn law_delete_undoes_insert(body: Seq<char>, at: int, text: Seq<char>)
    requires
        0 <= at,
    ensures
        ({
            let a = clip(at, body.len() as int);
            spec_delete_text(spec_insert_text(body, at, text), a, a + text.len()) == body
        }),
{
    let a = clip(at, body.len() as int);
    let ins = spec_insert_text(body, at, text);
    assert(spec_delete_text(ins, a, a + text.len()) =~= body);
}

/// After formatting, every codepoint of the clipped range carries the
/// mark: `has_mark` answers `true` there.
pub proof fn law_format_then_has_mark(o: Doc, n: Doc, from: usize, to: usize, mark: Mark, p: int)
    requires
        format_effect(o, n, from, to, mark),
        clip_range(from as int, to as int, o.body().len() as int).0 <= p < clip_range(
            from as int,
            to as int,
            o.body().len() as int,
        ).1,
    ensures
        p < n.body().len(),
        n.marked(mark).contains(p),
{
}

/// A comment written under a fresh id reads back with the given fields,
/// status open and no replies (positions that fit in `i64`).
pub proof fn law_comment_reads_back(
    o: Doc,
    n: Doc,
    from: usize,
    to: usize,
    body: String,
    thread_id: String,
    author: String,
    created_at: i64,
)
    requires
        !o.records(comments_id()).contains_key(thread_id@),
        from <= i64::MAX,
        to <= i64::MAX,
        insert_comment_effect(o, n, from, to, body, Some(thread_id), author, created_at),
    ensures
        comment_decodes(n.records(comments_id()), thread_id@),
        ({
            let sm = sub_map(n.records(comments_id()), thread_id@);
            &&& i64_or_zero(sm, "from"@) as usize == from
            &&& i64_or_zero(sm, "to"@) as usize == to
            &&& str_or_empty(sm, "body"@) == body@
            &&& str_or_empty(sm, "author"@) == author@
            &&& i64_or_zero(sm, "created_at"@) == created_at
            &&& field_str(sm, "status"@) != Some("resolved"@)
            &&& thread_replies(sm) == Seq::<ReplyView>::empty()
        }),
{
    reveal_strlit("open");
    reveal_strlit("resolved");
    reveal_strlit("from");
    reveal_strlit("to");
    reveal_strlit("body");
    reveal_strlit("author");
    reveal_strlit("created_at");
    reveal_strlit("status");
    reveal_strlit("replies");
    let keys = seq!["from"@, "to"@, "body"@, "author"@, "created_at"@, "status"@, "replies"@];
    assert forall|i: int, j: int| 0 <= i < j < 7 implies keys[i] != keys[j] by {
        assert(keys[i][0] != keys[j][0]);
    }
    assert(!o.records(comments_id()).contains_key(thread_id@));
    let base = sub_map(o.records(comments_id()), thread_id@);
    assert(base == Map::<Seq<char>, Slot>::empty());
    let sm = sub_map(n.records(comments_id()), thread_id@);
    assert(sm == super::document::comment_fields(base, from, to, body@, author@, created_at));
    assert("open"@[0] != "resolved"@[0]);
    assert(!sm.contains_key("replies"@)) by {
        assert(keys[6] != keys[0] && keys[6] != keys[1] && keys[6] != keys[2] && keys[6] != keys[3] && keys[6] != keys[4]
            && keys[6] != keys[5]);
    }
    assert(sm["from"@] == super::records::ival(from as i64)) by {
        assert(keys[0] != keys[1] && keys[0] != keys[2] && keys[0] != keys[3] && keys[0] != keys[4] && keys[0] != keys[5]);
    }
    assert(sm["to"@] == super::records::ival(to as i64)) by {
        assert(keys[1] != keys[2] && keys[1] != keys[3] && keys[1] != keys[4] && keys[1] != keys[5]);
    }
    assert(sm["body"@] == super::records::sval(body@)) by {
        assert(keys[2] != keys[3] && keys[2] != keys[4] && keys[2] != keys[5]);
    }
    assert(sm["author"@] == super::records::sval(author@)) by {
        assert(keys[3] != keys[4] && keys[3] != keys[5]);
    }
    assert(sm["created_at"@] == super::records::ival(created_at)) by {
        assert(keys[4] != keys[5]);
    }
    assert(from as i64 as usize == from);
    assert(to as i64 as usize == to);
}

/// A reply to an existing thread is appended after its earlier replies.
pub proof fn law_reply_appends(
    o: Doc,
    n: Doc,
    thread_id: String,
    body: String,
    author: String,
    created_at: i64,
    r: Result<(), Error>,
)
    requires
        has_sub_map(o.records(comments_id()), thread_id@),
        reply_effect(o, n, thread_id, body, author, created_at, r),
    ensures
        r is Ok,
        thread_replies(sub_map(n.records(comments_id()), thread_id@)) == thread_replies(
            sub_map(o.records(comments_id()), thread_id@),
        ).push(
            ReplyView {
                id: o.next_id_for("r"@, "next_reply_id"@),
                body: body@,
                author: author@,
                created_at,
            },
        ),
{
    reveal_strlit("id");
    reveal_strlit("body");
    reveal_strlit("author");
    reveal_strlit("created_at");
    let sm = sub_map(o.records(comments_id()), thread_id@);
    let l = super::document::replies_or_empty(sm);
    let fields = super::document::reply_fields(o.next_id_for("r"@, "next_reply_id"@), body@, author@, created_at);
    let l2 = l.push(Slot::MapC(fields));
    assert(l2.drop_last() =~= l);
    assert("id"@ != "body"@ && "id"@ != "author"@ && "id"@ != "created_at"@) by {
        assert("id"@[0] != "body"@[0]);
        assert("id"@[0] != "author"@[0]);
        assert("id"@[0] != "created_at"@[0]);
    }
    assert("body"@ != "author"@ && "body"@ != "created_at"@ && "author"@ != "created_at"@) by {
        assert("body"@[0] != "author"@[0]);
        assert("body"@[0] != "created_at"@[0]);
        assert("author"@[0] != "created_at"@[0]);
    }
    if !has_sub_list(sm, "replies"@) {
        assert(l =~= Seq::<Slot>::empty());
        assert(spec_replies(l) =~= Seq::<ReplyView>::empty());
    }
}

/// Setting a thread's status is what the thread then reports.
pub proof fn law_status_reads_back(o: Doc, n: Doc, thread_id: String, status: CommentStatus, r: Result<(), Error>)
    requires
        has_sub_map(o.records(comments_id()), thread_id@),
        set_status_effect(o, n, thread_id, status, r),
    ensures
        r is Ok,
        (field_str(sub_map(n.records(comments_id()), thread_id@), "status"@) == Some("resolved"@)) == (status
            == CommentStatus::Resolved),
{
    reveal_strlit("open");
    reveal_strlit("resolved");
    assert("open"@[0] != "resolved"@[0]);
}

/// Accepting a suggestion just recorded (positions that fit in `i64`)
/// applies its replacement: the text becomes the one with `[from, to)`
/// replaced.
pub proof fn law_accept_applies_suggestion(
    o: Doc,
    m: Doc,
    n: Doc,
    from: usize,
    to: usize,
    replacement: String,
    id: String,
    r: Result<(), Error>,
)
    requires
        from <= i64::MAX,
        to <= i64::MAX,
        suggest_effect(o, m, from, to, replacement),
        id@ == o.next_id_for("s"@, "next_suggestion_id"@),
        accept_effect(m, n, id, r),
    ensures
        r is Ok,
        n.body() == spec_insert_text(spec_delete_text(o.body(), from as int, to as int), from as int, replacement@),
{
    lemma_record_ids_distinct();
    reveal_strlit("from");
    reveal_strlit("to");
    reveal_strlit("replacement");
    reveal_strlit("state");
    reveal_strlit("pending");
    reveal_strlit("accepted");
    reveal_strlit("rejected");
    let id = id@;
    let sm = sub_map(m.records(suggestions_id()), id);
    assert("from"@ != "to"@ && "from"@ != "replacement"@ && "from"@ != "state"@ && "to"@ != "replacement"@ && "to"@
        != "state"@ && "replacement"@ != "state"@) by {
        assert("from"@[0] != "to"@[0]);
        assert("from"@[0] != "replacement"@[0]);
        assert("from"@[0] != "state"@[0]);
        assert("to"@[0] != "replacement"@[0]);
        assert("to"@[0] != "state"@[0]);
        assert("replacement"@[0] != "state"@[0]);
    }
    assert(suggestion_decodes(m.records(suggestions_id()), id));
    assert(str_or_empty(sm, "state"@) == "pending"@);
    assert("pending"@ != "accepted"@ && "pending"@ != "rejected"@) by {
        assert("pending"@[0] != "accepted"@[0]);
        assert("pending"@[0] != "rejected"@[0]);
    }
    assert(spec_str_to_state("pending"@) == SuggestionState::Pending);
    assert(from as i64 as usize == from);
    assert(to as i64 as usize == to);
}

/// The `\n` count of a concatenation is the sum of the counts.
pub proof fn lemma_count_nl_concat(a: Seq<char>, b: Seq<char>)
    ensures
        count_nl(a + b) == count_nl(a) + count_nl(b),
    decreases b.len(),
{
    if b.len() > 0 {
        lemma_count_nl_concat(a, b.drop_last());
        assert((a + b).drop_last() =~= a + b.drop_last());
    } else {
        assert(a + b =~= a);
    }
}

/// The `\n` count of `t` spliced into `s`.
pub proof fn lemma_count_nl_splice(s: Seq<char>, p: int, t: Seq<char>)
    requires
        0 <= p <= s.len(),
    ensures
        count_nl(splice(s, p, t)) == count_nl(s) + count_nl(t),
{
    let a = s.subrange(0, p);
    let b = s.subrange(p, s.len() as int);
    lemma_count_nl_concat(a + t, b);
    lemma_count_nl_concat(a, t);
    lemma_count_nl_concat(a, b);
    assert(a + b =~= s);
}

/// Merging the two blocks a split created gives the text back:
/// `MergeBlocks { first: a, second: a + 1 }` undoes `SplitBlock { at }`,
/// `a` being `at` clipped to the text.
pub proof fn law_merge_undoes_split(o: Doc, m: Doc, n: Doc, at: usize, a: usize)
    requires
        a == clip(at as int, o.body().len() as int),
        a < usize::MAX,
        split_effect(o, m, at),
        merge_effect(m, n, a, (a + 1) as usize),
    ensures
        n.body() == o.body(),
        lines(n.body()).len() == lines(o.body()).len(),
{
    let b = o.body();
    let mb = m.body();
    assert(mb =~= splice(b, a as int, seq!['\n']));
    assert(mb.take(a as int) =~= b.take(a as int));
    lemma_count_nl_step(mb, a as int);
    assert(mb.take(a as int + 1).len() == a + 1);
    let k = count_nl(b.take(a as int));
    lemma_newline_index(mb, a as int, k);
    assert(clip(a as int, mb.len() as int) == a);
    assert(clip(a + 1, mb.len() as int) == a + 1);
    assert(count_nl(mb.take(a as int)) == k);
    assert(count_nl(mb.take(a + 1)) == k + 1);
    assert(mb.subrange(0, a as int) + mb.subrange(a + 1, mb.len() as int) =~= b);
}

/// Inserting a block with single-line text at a block boundary adds
/// exactly one block; inside a block (which it splits) it adds two.
pub proof fn law_insert_block_count(o: Doc, n: Doc, at: usize, block: super::Block)
    requires
        insert_block_effect(o, n, at, block),
        count_nl(block.text@) == 0,
    ensures
        ({
            let a = clip(at as int, o.body().len() as int);
            let boundary = a == line_start_of(o.body(), a) || a == line_end_of(o.body(), a);
            lines(n.body()).len() == lines(o.body()).len() + if boundary { 1int } else { 2int }
        }),
{
    let b = o.body();
    let t = block.text@;
    let a = clip(at as int, b.len() as int);
    lemma_lines_len(b);
    lemma_lines_len(n.body());
    lemma_count_nl_concat(t, seq!['\n']);
    lemma_count_nl_concat(seq!['\n'], t);
    lemma_count_nl_concat(seq!['\n'] + t, seq!['\n']);
    assert(count_nl(seq!['\n']) == 1) by {
        reveal_with_fuel(count_nl, 2);
        assert(seq!['\n'].drop_last() =~= Seq::<char>::empty());
    }
    assert(t.push('\n') =~= t + seq!['\n']);
    assert((seq!['\n'] + t).push('\n') =~= seq!['\n'] + t + seq!['\n']);
    lemma_count_nl_splice(b, a, t.push('\n'));
    lemma_count_nl_splice(b, a, seq!['\n'] + t);
    lemma_count_nl_splice(b, a, (seq!['\n'] + t).push('\n'));
}

/// The padded list is as long as asked, when it was no longer.
proof fn lemma_padded_len(l: Seq<super::store::Slot>, n: nat)
    requires
        l.len() <= n,
    ensures
        padded(l, n).len() == n,
{
}

/// `SplitBlock` keeps the kind list as long as the block count, when it
/// was no longer before.
pub proof fn law_split_keeps_kind_list_in_step(o: Doc, n: Doc, at: usize)
    requires
        o.kind_list().len() <= lines(o.body()).len(),
        split_effect(o, n, at),
    ensures
        n.kind_list().len() == lines(n.body()).len(),
{
    let b = o.body();
    lemma_lines_len(b);
    lemma_lines_len(n.body());
    assert(count_nl(seq!['\n']) == 1) by {
        reveal_with_fuel(count_nl, 2);
        assert(seq!['\n'].drop_last() =~= Seq::<char>::empty());
    }
    let a = clip(at as int, b.len() as int);
    lemma_count_nl_splice(b, a, seq!['\n']);
    lemma_padded_len(o.kind_list(), count_nl(b) + 1);
    super::lines::lemma_count_nl_mono(b, a, b.len() as int);
    lemma_take_all(b);
}

/// `MergeBlocks` keeps the kind list as long as the block count.
pub proof fn law_merge_keeps_kind_list_in_step(o: Doc, n: Doc, first: usize, second: usize)
    requires
        o.kind_list().len() == lines(o.body()).len(),
        merge_effect(o, n, first, second),
    ensures
        n.kind_list().len() == lines(n.body()).len(),
{
    let b = o.body();
    lemma_lines_len(b);
    lemma_lines_len(n.body());
    let s2 = clip(second as int, b.len() as int);
    let i1 = count_nl(b.take(clip(first as int, b.len() as int)));
    let i2 = count_nl(b.take(s2));
    if i1 + 1 == i2 {
        assert(count_nl(seq!['\n']) == 1) by {
            reveal_with_fuel(count_nl, 2);
            assert(seq!['\n'].drop_last() =~= Seq::<char>::empty());
        }
        super::lines::lemma_newline_exists(b, s2, i1);
        let j = choose|j: int| 0 <= j < s2 && b[j] == '\n' && count_nl(b.take(j)) == i1;
        lemma_newline_index(b, j, i1);
        let nl = j;
        super::lines::lemma_count_nl_mono(b, s2, b.len() as int);
        lemma_take_all(b);
        lemma_padded_len(o.kind_list(), count_nl(b) + 1);
        let x = b.subrange(0, nl);
        let y = b.subrange(nl + 1, b.len() as int);
        lemma_count_nl_concat(x, y);
        lemma_count_nl_concat(x + seq!['\n'], y);
        lemma_count_nl_concat(x, seq!['\n']);
        assert(x + seq!['\n'] + y =~= b);
    }
}

/// `InsertBlock` with a single-line text keeps the kind list as long as
/// the block count, when it was no longer before.
pub proof fn law_insert_block_keeps_kind_list_in_step(o: Doc, n: Doc, at: usize, block: super::Block)
    requires
        o.kind_list().len() <= lines(o.body()).len(),
        insert_block_effect(o, n, at, block),
        count_nl(block.text@) == 0,
    ensures
        n.kind_list().len() == lines(n.body()).len(),
{
    let b = o.body();
    law_insert_block_count(o, n, at, block);
    lemma_lines_len(b);
    lemma_lines_len(n.body());
    lemma_padded_len(o.kind_list(), count_nl(b) + 1);
    let a = clip(at as int, b.len() as int);
    super::lines::lemma_count_nl_mono(b, a, b.len() as int);
    lemma_take_all(b);
}

} // verus!
