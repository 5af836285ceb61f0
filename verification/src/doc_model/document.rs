//! The document: a `loro` document holding the body text, its inline
//! marks, the parallel block-kind list and the record maps, plus the
//! ids minted by the most recent record-creating edit ops.

use vstd::prelude::*;

use loro::LoroDoc;

use super::lines::{count_newlines, count_nl, find_newline, line_bounds, line_end_of, line_start_of, lines, lemma_count_nl_mono, lemma_lines_len, lemma_newline_exists, lemma_newline_index, lemma_take_all, newline_index, split_lines};
use super::store::{snapshot_exportable, holds_other, merged_content, content_of, delta_text, doc_export_snapshot, doc_from_snapshot, doc_import, doc_new, import_accepted, is_empty_doc, lvalue_view, loro_map, loro_marks, loro_mlist, loro_text, marks_after_delete, marks_after_insert, mlist_delete_one, mlist_get, mlist_insert_str, mlist_len, mlist_push_str, only_mlist_changed, only_text_changed, same_maps, seg_marked, snapshot_accepted, snapshot_content, snapshot_loads, text_delete, text_delta, text_insert, text_len, text_mark, text_string, DeltaSeg, Entry, LVal, LValue, Slot};
use super::records::{citation_decodes, citation_is, comment_decodes, comment_is, comments_id, citations_id, decode_citation, decode_comment, decode_footnote, decode_suggestion, field_str, footnote_decodes, footnote_is, footnotes_id, has_record, i64_or_zero, ival, lemma_record_ids_distinct, meta_id, read_counter, read_i64, read_str, spec_next_id, str_or_empty, sub_put, suggestion_decodes, suggestion_is, suggestions_id, sval};
use super::store::{doc_peer_id, entries_map_rec, has_sub_list, has_sub_map, loro_peer, map_ensure_map, map_get, map_insert, map_keys, map_slot_ok, only_map_changed, same_mlists, same_texts, sub_ensure_list, sub_insert, sub_list, sub_list_item_insert, sub_list_len, sub_list_push_map, sub_map};
use super::{kind_to_str, spec_kind_str, spec_mark_key, spec_str_to_kind, spec_str_to_state, state_to_str, str_to_kind, str_to_state, Block, BlockKind, BlockTree, Citation, Comment, CommentStatus, EditOp, Error, Footnote, Mark, Suggestion, SuggestionState};
use crate::text::{chars_of, hex_string, int_decimal_string, push_all, sort_strings, str_views, strictly_sorted, string_from_chars};

verus! {

/// Container id of the body text.
pub open spec fn body_id() -> Seq<char> {
    "doc"@
}

/// Container id of the block-kind list.
pub open spec fn blocks_id() -> Seq<char> {
    "blocks"@
}

/// The CRDT-backed document.
pub struct Doc {
    inner: LoroDoc,
    last_comment_thread_id: Option<String>,
    last_suggestion_id: Option<String>,
    last_citation_id: Option<String>,
    last_footnote_id: Option<String>,
    last_reply_id: Option<String>,
}

/// The characters of an optional string.
pub open spec fn opt_str(o: Option<String>) -> Option<Seq<char>> {
    match o {
        Some(s) => Some(s@),
        None => None,
    }
}

/// The ids minted by the most recent record-creating ops: comment
/// thread, suggestion, citation, footnote, reply.
pub struct LastIds {
    pub comment: Option<Seq<char>>,
    pub suggestion: Option<Seq<char>>,
    pub citation: Option<Seq<char>>,
    pub footnote: Option<Seq<char>>,
    pub reply: Option<Seq<char>>,
}

/// No id minted yet.
pub open spec fn no_last_ids() -> LastIds {
    LastIds { comment: None, suggestion: None, citation: None, footnote: None, reply: None }
}

impl Doc {
    /// The underlying `loro` document.
    pub closed spec fn store(self) -> LoroDoc {
        self.inner
    }

    /// The transient minted ids.
    pub closed spec fn last_ids(self) -> LastIds {
        LastIds {
            comment: opt_str(self.last_comment_thread_id),
            suggestion: opt_str(self.last_suggestion_id),
            citation: opt_str(self.last_citation_id),
            footnote: opt_str(self.last_footnote_id),
            reply: opt_str(self.last_reply_id),
        }
    }

    /// The body text, as codepoints.
    pub open spec fn body(self) -> Seq<char> {
        loro_text(self.store(), body_id())
    }

    /// The body positions that carry mark `m`.
    pub open spec fn marked(self, m: Mark) -> Set<int> {
        loro_marks(self.store(), body_id(), spec_mark_key(m))
    }

    /// The stored block-kind list.
    pub open spec fn kind_list(self) -> Seq<Slot> {
        loro_mlist(self.store(), blocks_id())
    }

    /// The root record map `cid`.
    pub open spec fn records(self, cid: Seq<char>) -> Map<Seq<char>, Slot> {
        loro_map(self.store(), cid)
    }

    /// Everything but the body text and its marks is as in `old`.
    pub open spec fn text_only_changed(self, old: Doc) -> bool {
        &&& only_text_changed(old.store(), self.store(), body_id())
        &&& self.last_ids() == old.last_ids()
    }

    /// A fresh, empty document.
    pub fn new() -> (d: Doc)
        ensures
            is_empty_doc(d.store()),
            d.body() == Seq::<char>::empty(),
            d.last_ids() == no_last_ids(),
    {
        Doc {
            inner: doc_new(),
            last_comment_thread_id: None,
            last_suggestion_id: None,
            last_citation_id: None,
            last_footnote_id: None,
            last_reply_id: None,
        }
    }

    /// Length of the body in codepoints.
    fn body_len(&self) -> (r: usize)
        ensures
            r == self.body().len(),
    {
        text_len(&self.inner, "doc")
    }

    /// Inserts `text` at codepoint `pos`, clipped to the body length.
    /// Empty `text` changes nothing.
    pub fn insert(&mut self, pos: usize, text: &str)
        ensures
            final(self).body() == spec_insert_text(old(self).body(), pos as int, text@),
            forall|m: Mark, i: int|
                !(clip(pos as int, old(self).body().len() as int) <= i < clip(pos as int, old(self).body().len() as int) + text@.len())
                    ==> (#[trigger] final(self).marked(m).contains(i) <==> marks_after_insert(
                    old(self).marked(m),
                    clip(pos as int, old(self).body().len() as int),
                    text@.len() as int,
                ).contains(i)),
            final(self).text_only_changed(*old(self)),
    {
        if text.is_empty() {
            proof {
                assert(spec_insert_text(old(self).body(), pos as int, text@) =~= old(self).body());
                assert forall|m: Mark, i: int| #[trigger] self.marked(m).contains(i) <==> marks_after_insert(
                    old(self).marked(m), clip(pos as int, old(self).body().len() as int), 0).contains(i) by {}
            }
            return;
        }
        let len = self.body_len();
        let p = if pos < len { pos } else { len };
        text_insert(&mut self.inner, "doc", p, text);
        proof {
            assert forall|m: Mark, i: int|
                !(p <= i < p + text@.len()) implies (#[trigger] self.marked(m).contains(i) <==> marks_after_insert(
                    old(self).marked(m), p as int, text@.len() as int).contains(i)) by {
                let k = spec_mark_key(m);
                assert(loro_marks(self.inner, "doc"@, k).contains(i) <==> marks_after_insert(
                    loro_marks(old(self).inner, "doc"@, k), p as int, text@.len() as int).contains(i));
            }
        }
    }

    /// Deletes the codepoints in `[range.start, range.end)`, clipped to
    /// the body; an empty or inverted range changes nothing.
    pub fn delete(&mut self, range: std::ops::Range<usize>)
        ensures
            ({
                let (s, e) = clip_range(range.start as int, range.end as int, old(self).body().len() as int);
                &&& final(self).body() == old(self).body().subrange(0, s) + old(self).body().subrange(e, old(self).body().len() as int)
                &&& forall|m: Mark| #[trigger] final(self).marked(m) == marks_after_delete(old(self).marked(m), s, e - s)
            }),
            final(self).text_only_changed(*old(self)),
    {
        let len = self.body_len();
        let start = if range.start < len { range.start } else { len };
        let end0 = if range.end < len { range.end } else { len };
        let end = if end0 > start { end0 } else { start };
        if start == end {
            proof {
                assert(old(self).body().subrange(0, start as int) + old(self).body().subrange(end as int, len as int) =~= old(self).body());
                assert forall|m: Mark| #[trigger] self.marked(m) == marks_after_delete(old(self).marked(m), start as int, 0) by {
                    assert(self.marked(m) =~= marks_after_delete(old(self).marked(m), start as int, 0));
                }
            }
            return;
        }
        text_delete(&mut self.inner, "doc", start, end - start);
        proof {
            assert forall|m: Mark| #[trigger] self.marked(m) == marks_after_delete(old(self).marked(m), start as int, end - start) by {
                let k = spec_mark_key(m);
                assert(loro_marks(self.inner, "doc"@, k) == marks_after_delete(loro_marks(old(self).inner, "doc"@, k), start as int, (end - start) as int));
            }
        }
    }

    /// Applies `mark` to the codepoints in `[range.start, range.end)`,
    /// clipped to the body; the other mark and the text are unchanged.
    pub fn format(&mut self, range: std::ops::Range<usize>, mark: Mark)
        ensures
            ({
                let (s, e) = clip_range(range.start as int, range.end as int, old(self).body().len() as int);
                final(self).marked(mark) == old(self).marked(mark).union(Set::new(|i: int| s <= i < e))
            }),
            final(self).marked(other_mark(mark)) == old(self).marked(other_mark(mark)),
            final(self).body() == old(self).body(),
            final(self).text_only_changed(*old(self)),
    {
        proof {
            lemma_mark_keys_distinct();
        }
        let len = self.body_len();
        let start = if range.start < len { range.start } else { len };
        let end0 = if range.end < len { range.end } else { len };
        let end = if end0 > start { end0 } else { start };
        if start == end {
            proof {
                assert(self.marked(mark) =~= old(self).marked(mark).union(Set::new(|i: int| start <= i < end)));
            }
            return;
        }
        text_mark(&mut self.inner, "doc", start, end, mark.key());
    }

    /// The full state as a binary snapshot (pending changes committed);
    /// the export must succeed (see [`Doc::try_snapshot`] for the checked
    /// form).
    pub fn snapshot(&self) -> (r: Vec<u8>)
        requires
            snapshot_exportable(self.store()),
        ensures
            snapshot_accepted(r@),
            snapshot_content(r@) == content_of(self.store()),
    {
        match doc_export_snapshot(&self.inner) {
            Some(b) => b,
            None => vstd::pervasive::unreached(),
        }
    }

    /// The full state as a binary snapshot, or `None` when `loro` refuses
    /// the export.
    pub fn try_snapshot(&self) -> (r: Option<Vec<u8>>)
        ensures
            r is Some <==> snapshot_exportable(self.store()),
            r matches Some(b) ==> snapshot_accepted(b@) && snapshot_content(b@) == content_of(self.store()),
    {
        doc_export_snapshot(&self.inner)
    }

    /// Merges another replica's snapshot; the snapshot must be one that
    /// `loro` imports (see [`Doc::try_merge`] for the checked form). The
    /// document then holds the CRDT merge of its contents with the
    /// snapshot's, under the same peer id.
    pub fn merge(&mut self, snapshot: &[u8])
        requires
            import_accepted(old(self).store(), snapshot@),
        ensures
            content_of(final(self).store()) == merged_content(old(self).store(), snapshot@),
            loro_peer(final(self).store()) == loro_peer(old(self).store()),
            final(self).last_ids() == old(self).last_ids(),
    {
        let _ok = doc_import(&mut self.inner, snapshot);
    }

    /// Merges a snapshot if `loro` imports it; returns whether it did.
    pub fn try_merge(&mut self, snapshot: &[u8]) -> (r: bool)
        ensures
            r == import_accepted(old(self).store(), snapshot@),
            r ==> content_of(final(self).store()) == merged_content(old(self).store(), snapshot@),
            r ==> loro_peer(final(self).store()) == loro_peer(old(self).store()),
            final(self).last_ids() == old(self).last_ids(),
    {
        doc_import(&mut self.inner, snapshot)
    }

    /// A document holding the contents of `snapshot`, which must be one
    /// `loro` loads (see [`Doc::try_from_snapshot`]).
    pub fn from_snapshot(snapshot: &[u8]) -> (d: Doc)
        requires
            snapshot_accepted(snapshot@),
        ensures
            content_of(d.store()) == snapshot_content(snapshot@),
            d.last_ids() == no_last_ids(),
    {
        let inner = match doc_from_snapshot(snapshot) {
            Some(inner) => inner,
            None => vstd::pervasive::unreached(),
        };
        Doc {
            inner,
            last_comment_thread_id: None,
            last_suggestion_id: None,
            last_citation_id: None,
            last_footnote_id: None,
            last_reply_id: None,
        }
    }

    /// A document holding the contents of `snapshot`, or `None` when
    /// `loro` does not load it.
    pub fn try_from_snapshot(snapshot: &[u8]) -> (r: Option<Doc>)
        ensures
            r is Some <==> snapshot_accepted(snapshot@),
            r matches Some(d) ==> content_of(d.store()) == snapshot_content(snapshot@) && d.last_ids()
                == no_last_ids(),
    {
        if snapshot_loads(snapshot) {
            Some(Doc::from_snapshot(snapshot))
        } else {
            None
        }
    }

    /// The body as a plain string.
    pub fn text(&self) -> (r: String)
        ensures
            r@ == self.body(),
            r@.len() <= isize::MAX,
            vstd::utf8::encode_utf8(r@).len() <= isize::MAX,
    {
        text_string(&self.inner, "doc")
    }

    /// `true` iff the codepoint at `pos` exists and carries `mark`.
    #[verifier::loop_isolation(false)]
    #[verifier::spinoff_prover]
    #[verifier::rlimit(40)]
    pub fn has_mark(&self, pos: usize, mark: Mark) -> (r: bool)
        ensures
            r == (pos < self.body().len() && self.marked(mark).contains(pos as int)),
    {
        let key = mark.key();
        let segs = text_delta(&self.inner, "doc");
        let mut cursor: usize = 0;
        let mut k: usize = 0;
        while k < segs.len()
            invariant
                k <= segs@.len(),
                cursor == delta_text(segs@.subrange(0, k as int)).len(),
                cursor <= pos,
                delta_text(segs@) == self.body(),
            decreases segs@.len() - k,
        {
            proof {
                lemma_delta_text_step(segs@, k as int);
            }
            let n = chars_of(segs[k].insert.as_str()).len();
            if pos - cursor < n {
                let res = attrs_marked(&segs[k].attributes, key);
                proof {
                    lemma_delta_text_prefix_len(segs@, k as int + 1);
                    let ghost p = pos as int;
                    assert(delta_text(segs@.subrange(0, k as int)).len() <= p < delta_text(segs@.subrange(0, k as int + 1)).len());
                    assert(seg_marked(segs@[k as int].attributes@, key@) <==> loro_marks(self.inner, "doc"@, key@).contains(p));
                }
                return res;
            }
            cursor = cursor + n;
            k = k + 1;
        }
        proof {
            assert(segs@.subrange(0, segs@.len() as int) =~= segs@);
        }
        false
    }
}

/// `pos` clipped to `len`.
pub open spec fn clip(pos: int, len: int) -> int {
    if pos < len {
        pos
    } else {
        len
    }
}

/// A range clipped into `[0, len]`, empty when inverted.
pub open spec fn clip_range(start: int, end: int, len: int) -> (int, int) {
    let s = clip(start, len);
    let e = clip(end, len);
    (s, if e > s { e } else { s })
}

/// The body after inserting `t` at `pos` (clipped); empty `t` changes
/// nothing.
pub open spec fn spec_insert_text(body: Seq<char>, pos: int, t: Seq<char>) -> Seq<char> {
    let p = clip(pos, body.len() as int);
    body.subrange(0, p) + t + body.subrange(p, body.len() as int)
}

/// The other inline mark.
pub open spec fn other_mark(m: Mark) -> Mark {
    match m {
        Mark::Bold => Mark::Italic,
        Mark::Italic => Mark::Bold,
    }
}

/// The two mark keys differ.
pub proof fn lemma_mark_keys_distinct()
    ensures
        spec_mark_key(Mark::Bold) != spec_mark_key(Mark::Italic),
{
    reveal_strlit("bold");
    reveal_strlit("italic");
    assert("bold"@[0] != "italic"@[0]);
}

/// One more segment adds its text.
proof fn lemma_delta_text_step(s: Seq<DeltaSeg>, k: int)
    requires
        0 <= k < s.len(),
    ensures
        delta_text(s.subrange(0, k + 1)) == delta_text(s.subrange(0, k)) + s[k].insert@,
{
    assert(s.subrange(0, k + 1).drop_last() =~= s.subrange(0, k));
}

/// A prefix of the segments holds no more text than all of them.
proof fn lemma_delta_text_prefix_len(s: Seq<DeltaSeg>, k: int)
    requires
        0 <= k <= s.len(),
    ensures
        delta_text(s.subrange(0, k)).len() <= delta_text(s).len(),
    decreases s.len() - k,
{
    if k < s.len() {
        lemma_delta_text_step(s, k);
        lemma_delta_text_prefix_len(s, k + 1);
    } else {
        assert(s.subrange(0, k) =~= s);
    }
}

/// `true` iff the attributes hold `key` with the value `true`.
fn attrs_marked(attrs: &Vec<(String, LValue)>, key: &str) -> (r: bool)
    ensures
        r == seg_marked(attrs@, key@),
{
    let kc = chars_of(key);
    let mut j: usize = 0;
    while j < attrs.len()
        invariant
            j <= attrs@.len(),
            kc@ == key@,
            forall|i: int| 0 <= i < j ==> !((#[trigger] attrs@[i]).0@ == key@ && attrs@[i].1 == LValue::Bool(true)),
        decreases attrs@.len() - j,
    {
        let (k, v) = &attrs[j];
        let hit = match v {
            LValue::Bool(b) => *b,
            _ => false,
        };
        if hit && crate::text::chars_eq(chars_of(k.as_str()).as_slice(), kc.as_slice()) {
            assert(attrs@[j as int].0@ == key@ && attrs@[j as int].1 == LValue::Bool(true));
            return true;
        }
        j = j + 1;
    }
    false
}

// ─────────────────────────────────────────────────────────────────
// Block model
// ─────────────────────────────────────────────────────────────────

/// The kind stored for block `idx`: the decoded string entry, or a
/// paragraph when the list is shorter or the entry is not a string.
pub open spec fn kind_at(l: Seq<Slot>, idx: int) -> BlockKind {
    if 0 <= idx < l.len() && l[idx] is Val && l[idx]->Val_0 is Str {
        spec_str_to_kind(l[idx]->Val_0->Str_0)
    } else {
        BlockKind::Paragraph
    }
}

/// The list entry that stores kind `k`.
pub open spec fn kind_slot(k: BlockKind) -> Slot {
    Slot::Val(LVal::Str(spec_kind_str(k)))
}

/// The default entry appended when the list is padded.
pub open spec fn paragraph_slot() -> Slot {
    Slot::Val(LVal::Str("paragraph"@))
}

/// `l` padded with paragraph entries up to length `n`.
pub open spec fn padded(l: Seq<Slot>, n: nat) -> Seq<Slot> {
    if l.len() >= n {
        l
    } else {
        l + Seq::new((n - l.len()) as nat, |i: int| paragraph_slot())
    }
}

/// `t` spliced into `s` at `p`.
pub open spec fn splice(s: Seq<char>, p: int, t: Seq<char>) -> Seq<char> {
    s.subrange(0, p) + t + s.subrange(p, s.len() as int)
}

/// Body and kind list after inserting a block of kind `kind` and text
/// `t` at `at` (clipped): at the start of a block it goes before it, at
/// the end after it, and in the middle it splits the block, whose second
/// half keeps the old kind.
pub open spec fn spec_insert_block(body: Seq<char>, kl: Seq<Slot>, at: int, kind: BlockKind, t: Seq<char>) -> (Seq<char>, Seq<Slot>) {
    let a = clip(at, body.len() as int);
    let idx = count_nl(body.take(a)) as int;
    let pl = padded(kl, count_nl(body) + 1);
    if a == line_start_of(body, a) {
        (splice(body, a, t.push('\n')), pl.insert(idx, kind_slot(kind)))
    } else if a == line_end_of(body, a) {
        (splice(body, a, seq!['\n'] + t), pl.insert(idx + 1, kind_slot(kind)))
    } else {
        (
            splice(body, a, seq!['\n'] + t.push('\n')),
            pl.insert(idx + 1, kind_slot(kind)).insert(idx + 2, kind_slot(kind_at(kl, idx))),
        )
    }
}

/// Body and kind list after splitting the block holding `at` (clipped):
/// both halves keep its kind.
pub open spec fn spec_split_block(body: Seq<char>, kl: Seq<Slot>, at: int) -> (Seq<char>, Seq<Slot>) {
    let a = clip(at, body.len() as int);
    let idx = count_nl(body.take(a)) as int;
    (splice(body, a, seq!['\n']), padded(kl, count_nl(body) + 1).insert(idx + 1, kind_slot(kind_at(kl, idx))))
}

/// Body and kind list after merging the blocks holding `first` and
/// `second` (clipped): when the second block directly follows the
/// first, the `\n` between them and the second kind entry go; otherwise
/// nothing changes.
pub open spec fn spec_merge_blocks(body: Seq<char>, kl: Seq<Slot>, first: int, second: int) -> (Seq<char>, Seq<Slot>) {
    let i1 = count_nl(body.take(clip(first, body.len() as int)));
    let i2 = count_nl(body.take(clip(second, body.len() as int)));
    if i1 + 1 != i2 {
        (body, kl)
    } else {
        let nl = newline_index(body, i1);
        (body.subrange(0, nl) + body.subrange(nl + 1, body.len() as int), padded(kl, count_nl(body) + 1).remove(i2 as int))
    }
}

/// Marks outside the `n` codepoints inserted at `p` shift with the text.
pub open spec fn marks_follow_insert(old: LoroDoc, new: LoroDoc, p: int, n: int) -> bool {
    forall|m: Mark, i: int|
        !(p <= i < p + n) ==> (#[trigger] loro_marks(new, body_id(), spec_mark_key(m)).contains(i) <==> marks_after_insert(
            loro_marks(old, body_id(), spec_mark_key(m)),
            p,
            n,
        ).contains(i))
}

impl Doc {
    /// Records and minted ids are as in `old`.
    pub open spec fn records_kept(self, old: Doc) -> bool {
        &&& same_maps(old.store(), self.store())
        &&& self.last_ids() == old.last_ids()
    }

    /// The body as a vector of codepoints.
    fn body_chars(&self) -> (v: Vec<char>)
        ensures
            v@ == self.body(),
            v@.len() <= isize::MAX,
    {
        let t = text_string(&self.inner, "doc");
        chars_of(t.as_str())
    }

    /// Number of blocks: one more than the number of `\n` in the body.
    pub fn block_count(&self) -> (r: usize)
        ensures
            r == lines(self.body()).len(),
            r == count_nl(self.body()) + 1,
    {
        let chars = self.body_chars();
        let n = count_newlines(chars.as_slice(), chars.len());
        proof {
            lemma_take_all(self.body());
            lemma_lines_len(self.body());
        }
        n + 1
    }

    /// The kind stored for block `idx`.
    fn block_kind_at(&self, idx: usize) -> (k: BlockKind)
        ensures
            k == kind_at(self.kind_list(), idx as int),
    {
        match mlist_get(&self.inner, "blocks", idx) {
            Some(Entry::Value(LValue::Str(s))) => str_to_kind(s.as_str()),
            _ => BlockKind::Paragraph,
        }
    }

    /// Block `idx`: its stored kind and its line of text; `None` past the
    /// last block.
    pub fn block(&self, idx: usize) -> (r: Option<Block>)
        ensures
            match r {
                Some(b) => idx < lines(self.body()).len() && b.kind == kind_at(self.kind_list(), idx as int)
                    && b.text@ == lines(self.body())[idx as int],
                None => idx >= lines(self.body()).len(),
            },
    {
        let chars = self.body_chars();
        let segs = split_lines(chars.as_slice());
        if idx >= segs.len() {
            return None;
        }
        let text = string_from_chars(segs[idx].as_slice());
        Some(Block { kind: self.block_kind_at(idx), text })
    }

    /// Every block, in order.
    pub fn blocks(&self) -> (r: Vec<Block>)
        ensures
            r@.len() == lines(self.body()).len(),
            forall|j: int|
                0 <= j < r@.len() ==> (#[trigger] r@[j]).kind == kind_at(self.kind_list(), j) && r@[j].text@
                    == lines(self.body())[j],
    {
        let chars = self.body_chars();
        let segs = split_lines(chars.as_slice());
        let mut out: Vec<Block> = Vec::new();
        let mut j: usize = 0;
        while j < segs.len()
            invariant
                j <= segs@.len(),
                segs@.len() == lines(self.body()).len(),
                forall|i: int| 0 <= i < segs@.len() ==> (#[trigger] segs@[i])@ == lines(self.body())[i],
                out@.len() == j,
                forall|i: int|
                    0 <= i < j ==> (#[trigger] out@[i]).kind == kind_at(self.kind_list(), i) && out@[i].text@
                        == lines(self.body())[i],
            decreases segs@.len() - j,
        {
            let text = string_from_chars(segs[j].as_slice());
            out.push(Block { kind: self.block_kind_at(j), text });
            j = j + 1;
        }
        out
    }

    /// Appends paragraph entries until the kind list covers every block.
    fn pad_blocks_list(&mut self)
        ensures
            final(self).kind_list() == padded(old(self).kind_list(), count_nl(old(self).body()) + 1),
            only_mlist_changed(old(self).store(), final(self).store(), blocks_id()),
            final(self).last_ids() == old(self).last_ids(),
    {
        let needed = self.block_count();
        let current = mlist_len(&self.inner, "blocks");
        let ghost l0 = old(self).kind_list();
        if current >= needed {
            return;
        }
        let mut i = current;
        while i < needed
            invariant
                current == l0.len(),
                current <= i <= needed,
                needed == count_nl(old(self).body()) + 1,
                self.kind_list() =~= l0 + Seq::new((i - current) as nat, |k: int| paragraph_slot()),
                only_mlist_changed(old(self).store(), self.store(), blocks_id()),
                self.last_ids() == old(self).last_ids(),
            decreases needed - i,
        {
            let ghost before = self.kind_list();
            mlist_push_str(&mut self.inner, "blocks", "paragraph");
            proof {
                assert(self.kind_list() == before.push(paragraph_slot()));
                assert(self.kind_list() =~= l0 + Seq::new((i + 1 - current) as nat, |k: int| paragraph_slot()));
            }
            i = i + 1;
        }
    }
}

impl Doc {
    /// Splits the block holding `at` (clipped) into two with its kind.
    fn handle_split_block(&mut self, at: usize)
        ensures
            split_effect(*old(self), *final(self), at),

    {
        let len = self.body_len();
        let at = if at < len { at } else { len };
        let chars = self.body_chars();
        let idx = count_newlines(chars.as_slice(), at);
        let kind_old = kind_to_str(&self.block_kind_at(idx));
        proof {
            lemma_count_nl_mono(self.body(), at as int, len as int);
            lemma_take_all(self.body());
        }
        self.pad_blocks_list();
        let ghost mid = *self;
        text_insert(&mut self.inner, "doc", at, "\n");
        proof {
            reveal_strlit("\n");
        }
        let ghost mid2 = *self;
        mlist_insert_str(&mut self.inner, "blocks", idx + 1, kind_old.as_str());
        proof {
            assert(self.body() =~= splice(old(self).body(), at as int, seq!['\n']));
            assert forall|m: Mark, i: int| !(at <= i < at + 1) implies (#[trigger] loro_marks(self.inner, body_id(), spec_mark_key(m)).contains(i)
                <==> marks_after_insert(old(self).marked(m), at as int, 1).contains(i)) by {
                let k = spec_mark_key(m);
                assert(loro_marks(self.inner, "doc"@, k) == loro_marks(mid2.inner, "doc"@, k));
                assert(loro_marks(mid.inner, "doc"@, k) == loro_marks(old(self).inner, "doc"@, k));
                assert(loro_marks(mid2.inner, "doc"@, k).contains(i) <==> marks_after_insert(loro_marks(mid.inner, "doc"@, k), at as int, 1).contains(i));
            }
        }
    }

    /// Inserts a block at `at` (clipped); see [`spec_insert_block`].
    fn handle_insert_block(&mut self, at: usize, block: Block)
        ensures
            insert_block_effect(*old(self), *final(self), at, block),

    {
        let len = self.body_len();
        let at = if at < len { at } else { len };
        let chars = self.body_chars();
        let idx = count_newlines(chars.as_slice(), at);
        let (bs, be) = line_bounds(chars.as_slice(), at);
        let kind_old = kind_to_str(&self.block_kind_at(idx));
        let new_kind = kind_to_str(&block.kind);
        proof {
            lemma_count_nl_mono(self.body(), at as int, len as int);
            lemma_take_all(self.body());
        }
        self.pad_blocks_list();
        let mut v = chars_of(block.text.as_str());
        if at == bs {
            v.push('\n');
            let ins = string_from_chars(v.as_slice());
            text_insert(&mut self.inner, "doc", at, ins.as_str());
            mlist_insert_str(&mut self.inner, "blocks", idx, new_kind.as_str());
        } else if at == be {
            let mut w: Vec<char> = Vec::new();
            w.push('\n');
            crate::text::push_all(&mut w, v.as_slice());
            let ins = string_from_chars(w.as_slice());
            text_insert(&mut self.inner, "doc", at, ins.as_str());
            mlist_insert_str(&mut self.inner, "blocks", idx + 1, new_kind.as_str());
        } else {
            let mut w: Vec<char> = Vec::new();
            w.push('\n');
            crate::text::push_all(&mut w, v.as_slice());
            w.push('\n');
            let ins = string_from_chars(w.as_slice());
            text_insert(&mut self.inner, "doc", at, ins.as_str());
            mlist_insert_str(&mut self.inner, "blocks", idx + 1, new_kind.as_str());
            mlist_insert_str(&mut self.inner, "blocks", idx + 2, kind_old.as_str());
        }
        proof {
            assert(self.body() =~= spec_insert_block(old(self).body(), old(self).kind_list(), at as int, block.kind, block.text@).0);
        }
    }

    /// Merges the blocks holding `first` and `second` (clipped) when the
    /// second directly follows the first; see [`spec_merge_blocks`].
    fn handle_merge_blocks(&mut self, first: usize, second: usize)
        ensures
            merge_effect(*old(self), *final(self), first, second),

    {
        let len = self.body_len();
        let f = if first < len { first } else { len };
        let s = if second < len { second } else { len };
        let chars = self.body_chars();
        let i1 = count_newlines(chars.as_slice(), f);
        let i2 = count_newlines(chars.as_slice(), s);
        if i1 + 1 != i2 {
            return;
        }
        let nl = match find_newline(chars.as_slice(), i1) {
            Some(j) => j,
            None => {
                proof {
                    lemma_newline_exists(self.body(), s as int, i1 as nat);
                }
                return;
            },
        };
        proof {
            lemma_newline_index(self.body(), nl as int, i1 as nat);
            lemma_count_nl_mono(self.body(), s as int, len as int);
            lemma_take_all(self.body());
        }
        self.pad_blocks_list();
        text_delete(&mut self.inner, "doc", nl, 1);
        mlist_delete_one(&mut self.inner, "blocks", i2);
    }
}

// ─────────────────────────────────────────────────────────────────
// Records
// ─────────────────────────────────────────────────────────────────

/// Only the root maps `c1` and `c2` may differ; texts, lists and the
/// peer are kept.
pub open spec fn maps_changed(a: LoroDoc, b: LoroDoc, c1: Seq<char>, c2: Seq<char>) -> bool {
    &&& same_texts(a, b)
    &&& same_mlists(a, b)
    &&& forall|c: Seq<char>| c != c1 && c != c2 ==> #[trigger] loro_map(b, c) == loro_map(a, c)
    &&& loro_peer(b) == loro_peer(a)
}

/// Only the body text (and its marks) and the root maps `c1` and `c2`
/// may differ.
pub open spec fn text_and_maps_changed(a: LoroDoc, b: LoroDoc, c1: Seq<char>, c2: Seq<char>) -> bool {
    &&& forall|c: Seq<char>| c != body_id() ==> #[trigger] loro_text(b, c) == loro_text(a, c)
    &&& same_mlists(a, b)
    &&& forall|c: Seq<char>| c != c1 && c != c2 ==> #[trigger] loro_map(b, c) == loro_map(a, c)
    &&& loro_peer(b) == loro_peer(a)
}

/// The stored fields of a new comment thread over `base`.
pub open spec fn comment_fields(base: Map<Seq<char>, Slot>, from: usize, to: usize, body: Seq<char>, author: Seq<char>, created_at: i64) -> Map<Seq<char>, Slot> {
    base.insert("from"@, ival(from as i64)).insert("to"@, ival(to as i64)).insert("body"@, sval(body)).insert(
        "author"@,
        sval(author),
    ).insert("created_at"@, ival(created_at)).insert("status"@, sval("open"@))
}

/// The stored fields of a new reply.
pub open spec fn reply_fields(id: Seq<char>, body: Seq<char>, author: Seq<char>, created_at: i64) -> Map<Seq<char>, Slot> {
    Map::empty().insert("id"@, sval(id)).insert("body"@, sval(body)).insert("author"@, sval(author)).insert(
        "created_at"@,
        ival(created_at),
    )
}

/// The stored fields of a new suggestion over `base`.
pub open spec fn suggestion_fields(base: Map<Seq<char>, Slot>, from: usize, to: usize, replacement: Seq<char>) -> Map<Seq<char>, Slot> {
    base.insert("from"@, ival(from as i64)).insert("to"@, ival(to as i64)).insert("replacement"@, sval(replacement)).insert(
        "state"@,
        sval("pending"@),
    )
}

/// The stored form of a footnote block: its kind string and text.
pub open spec fn stored_block(b: Block) -> LVal {
    LVal::Record(Map::empty().insert("kind"@, LVal::Str(spec_kind_str(b.kind))).insert("text"@, LVal::Str(b.text@)))
}

/// A status' stored code.
pub open spec fn spec_status_str(s: CommentStatus) -> Seq<char> {
    match s {
        CommentStatus::Open => "open"@,
        CommentStatus::Resolved => "resolved"@,
    }
}

/// The reply list entry `sm` has (or gets) at `replies`: an existing
/// list, or an empty one.
pub open spec fn replies_or_empty(sm: Map<Seq<char>, Slot>) -> Seq<Slot> {
    if has_sub_list(sm, "replies"@) {
        sub_list(sm, "replies"@)
    } else {
        Seq::empty()
    }
}

/// `key` of map `m` is absent, null or a list container.
pub open spec fn list_slot_ok(m: Map<Seq<char>, Slot>, key: Seq<char>) -> bool {
    !m.contains_key(key) || m[key] is ListC || m[key] == Slot::Val(LVal::Null)
}

/// Encodes footnote blocks as a stored list value.
fn block_tree_to_value(blocks: &Vec<Block>) -> (r: LValue)
    ensures
        lvalue_view(r) == LVal::List(blocks@.map_values(|b: Block| stored_block(b))),
        !holds_other(r),
{
    let mut items: Vec<LValue> = Vec::new();
    let mut i: usize = 0;
    while i < blocks.len()
        invariant
            i <= blocks@.len(),
            items@.len() == i,
            forall|j: int| 0 <= j < i ==> lvalue_view(#[trigger] items@[j]) == stored_block(blocks@[j]),
            forall|j: int| 0 <= j < i ==> !holds_other(#[trigger] items@[j]),
        decreases blocks@.len() - i,
    {
        let b = &blocks[i];
        let mut es: Vec<(String, LValue)> = Vec::new();
        es.push(("kind".to_owned(), LValue::Str(kind_to_str(&b.kind))));
        es.push(("text".to_owned(), LValue::Str(b.text.clone())));
        proof {
            reveal_with_fuel(entries_map_rec, 3);
            assert(es@.subrange(0, 1).subrange(0, 0) =~= Seq::<(String, LValue)>::empty());
            assert(es@.subrange(0, es@.len() - 1) =~= es@.subrange(0, 1));
            assert(entries_map_rec(es@) =~= Map::empty().insert("kind"@, LVal::Str(spec_kind_str(b.kind))).insert(
                "text"@,
                LVal::Str(b.text@),
            ));
        }
        proof {
            assert(!holds_other(es@[0].1) && !holds_other(es@[1].1));
            assert(!holds_other(LValue::Record(es)));
        }
        items.push(LValue::Record(es));
        i = i + 1;
    }
    proof {
        let l = lvalue_view(LValue::List(items))->List_0;
        assert(l =~= blocks@.map_values(|b: Block| stored_block(b)));
    }
    LValue::List(items)
}

impl Doc {
    /// The integer counter `key` of the meta map (0 when unset).
    pub open spec fn counter(self, key: Seq<char>) -> i64 {
        i64_or_zero(self.records(meta_id()), key)
    }

    /// The id the next `next_id(prefix, key)` mints.
    pub open spec fn next_id_for(self, prefix: Seq<char>, key: Seq<char>) -> Seq<char> {
        spec_next_id(prefix, loro_peer(self.store()), self.counter(key))
    }

    /// The id `InsertComment` uses: the given one, or a minted one.
    pub open spec fn comment_id_for(self, thread_id: Option<Seq<char>>) -> Seq<char> {
        match thread_id {
            Some(t) => t,
            None => self.next_id_for("c"@, "next_comment_id"@),
        }
    }

    /// `op` can be applied without a conflicting stored value: a record
    /// slot it creates is free (absent, null or already a record), the
    /// reply list slot of an existing thread is free, and a counter it
    /// advances is below its maximum.
    pub open spec fn admits(self, op: EditOp) -> bool {
        match op {
            EditOp::InsertComment { thread_id, .. } => {
                &&& thread_id is None ==> self.counter("next_comment_id"@) < i64::MAX
                &&& map_slot_ok(self.records(comments_id()), self.comment_id_for(opt_str(thread_id)))
            },
            EditOp::ReplyToComment { thread_id, .. } => has_sub_map(self.records(comments_id()), thread_id@) ==> {
                &&& self.counter("next_reply_id"@) < i64::MAX
                &&& list_slot_ok(sub_map(self.records(comments_id()), thread_id@), "replies"@)
            },
            EditOp::Suggest { .. } => {
                &&& self.counter("next_suggestion_id"@) < i64::MAX
                &&& map_slot_ok(self.records(suggestions_id()), self.next_id_for("s"@, "next_suggestion_id"@))
            },
            EditOp::InsertCitation { .. } => {
                &&& self.counter("next_citation_id"@) < i64::MAX
                &&& map_slot_ok(self.records(citations_id()), self.next_id_for("cit"@, "next_citation_id"@))
            },
            EditOp::InsertFootnote { .. } => {
                &&& self.counter("next_footnote_id"@) < i64::MAX
                &&& map_slot_ok(self.records(footnotes_id()), self.next_id_for("fn"@, "next_footnote_id"@))
            },
            _ => true,
        }
    }

    /// The id the next `next_id(prefix, counter_key)` mints, without
    /// minting it.
    fn peek_next_id(&self, prefix: &str, counter_key: &str) -> (r: String)
        ensures
            r@ == self.next_id_for(prefix@, counter_key@),
    {
        let n = read_counter(&self.inner, "meta", counter_key);
        let peer = doc_peer_id(&self.inner);
        let mut out = chars_of(prefix);
        out.push('-');
        push_all(&mut out, chars_of(hex_string(peer).as_str()).as_slice());
        out.push('-');
        push_all(&mut out, chars_of(int_decimal_string(n).as_str()).as_slice());
        string_from_chars(out.as_slice())
    }

    /// Mints an id `{prefix}-{peer in hex}-{n}` from the persistent
    /// counter `counter_key`, which advances by one.
    fn next_id(&mut self, prefix: &str, counter_key: &str) -> (r: String)
        requires
            old(self).counter(counter_key@) < i64::MAX,
        ensures
            r@ == old(self).next_id_for(prefix@, counter_key@),
            final(self).records(meta_id()) == old(self).records(meta_id()).insert(
                counter_key@,
                ival((old(self).counter(counter_key@) + 1) as i64),
            ),
            only_map_changed(old(self).store(), final(self).store(), meta_id()),
            final(self).last_ids() == old(self).last_ids(),
    {
        let id = self.peek_next_id(prefix, counter_key);
        let n = read_counter(&self.inner, "meta", counter_key);
        map_insert(&mut self.inner, "meta", counter_key, &LValue::I64(n + 1));
        id
    }

    /// `key` of root map `cid` is free for a record.
    fn slot_free(&self, cid: &str, key: &str) -> (r: bool)
        ensures
            r == map_slot_ok(self.records(cid@), key@),
    {
        match map_get(&self.inner, cid, key) {
            None => true,
            Some(Entry::MapC) => true,
            Some(Entry::Value(LValue::Null)) => true,
            _ => false,
        }
    }

    /// Whether `op` can be applied (see [`Doc::admits`]).
    pub fn admits_op(&self, op: &EditOp) -> (r: bool)
        ensures
            r == self.admits(*op),
    {
        match op {
            EditOp::InsertComment { thread_id, .. } => match thread_id {
                Some(t) => self.slot_free("comments", t.as_str()),
                None => {
                    let n = read_counter(&self.inner, "meta", "next_comment_id");
                    let id = self.peek_next_id("c", "next_comment_id");
                    n < i64::MAX && self.slot_free("comments", id.as_str())
                },
            },
            EditOp::ReplyToComment { thread_id, .. } => {
                if !has_record(&self.inner, "comments", thread_id.as_str()) {
                    return true;
                }
                let n = read_counter(&self.inner, "meta", "next_reply_id");
                let free = match super::store::sub_get(&self.inner, "comments", thread_id.as_str(), "replies") {
                    None => true,
                    Some(Entry::ListC) => true,
                    Some(Entry::Value(LValue::Null)) => true,
                    _ => false,
                };
                n < i64::MAX && free
            },
            EditOp::Suggest { .. } => {
                let n = read_counter(&self.inner, "meta", "next_suggestion_id");
                let id = self.peek_next_id("s", "next_suggestion_id");
                n < i64::MAX && self.slot_free("suggestions", id.as_str())
            },
            EditOp::InsertCitation { .. } => {
                let n = read_counter(&self.inner, "meta", "next_citation_id");
                let id = self.peek_next_id("cit", "next_citation_id");
                n < i64::MAX && self.slot_free("citations", id.as_str())
            },
            EditOp::InsertFootnote { .. } => {
                let n = read_counter(&self.inner, "meta", "next_footnote_id");
                let id = self.peek_next_id("fn", "next_footnote_id");
                n < i64::MAX && self.slot_free("footnotes", id.as_str())
            },
            _ => true,
        }
    }
}

impl Doc {
    /// The ids minted so far, with the comment thread id replaced.
    pub open spec fn with_comment_id(self, id: Seq<char>) -> LastIds {
        LastIds {
            comment: Some(id),
            suggestion: self.last_ids().suggestion,
            citation: self.last_ids().citation,
            footnote: self.last_ids().footnote,
            reply: self.last_ids().reply,
        }
    }

    /// Anchors a comment thread to `[from, to)` under `thread_id`, or a
    /// minted id when it is `None`; an existing record with that id keeps
    /// its other fields.
    fn handle_insert_comment(
        &mut self,
        from: usize,
        to: usize,
        body: String,
        thread_id: Option<String>,
        author: String,
        created_at: i64,
    )
        requires
            old(self).admits(EditOp::InsertComment { from, to, body, thread_id, author, created_at }),
        ensures
            insert_comment_effect(*old(self), *final(self), from, to, body, thread_id, author, created_at),

    {
        proof {
            lemma_record_ids_distinct();
        }
        let ghost cm = old(self).records(comments_id());
        let ghost id0 = old(self).comment_id_for(opt_str(thread_id));
        let id = match thread_id {
            Some(t) => t,
            None => self.next_id("c", "next_comment_id"),
        };
        assert(id@ == id0);
        map_ensure_map(&mut self.inner, "comments", id.as_str());
        sub_insert(&mut self.inner, "comments", id.as_str(), "from", &LValue::I64(from as i64));
        sub_insert(&mut self.inner, "comments", id.as_str(), "to", &LValue::I64(to as i64));
        sub_insert(&mut self.inner, "comments", id.as_str(), "body", &LValue::Str(body));
        sub_insert(&mut self.inner, "comments", id.as_str(), "author", &LValue::Str(author));
        sub_insert(&mut self.inner, "comments", id.as_str(), "created_at", &LValue::I64(created_at));
        sub_insert(&mut self.inner, "comments", id.as_str(), "status", &LValue::Str("open".to_owned()));
        self.last_comment_thread_id = Some(id);
        proof {
            assert(self.records(comments_id()) =~= cm.insert(
                id0,
                Slot::MapC(comment_fields(sub_map(cm, id0), from, to, body@, author@, created_at)),
            ));
        }
    }

    /// Appends a reply to thread `thread_id`, or reports that there is no
    /// such thread.
    fn handle_reply_to_comment(&mut self, thread_id: String, body: String, author: String, created_at: i64) -> (r: Result<(), Error>)
        requires
            old(self).admits(EditOp::ReplyToComment { thread_id, body, author, created_at }),
        ensures
            reply_effect(*old(self), *final(self), thread_id, body, author, created_at, r),

    {
        proof {
            lemma_record_ids_distinct();
        }
        if !has_record(&self.inner, "comments", thread_id.as_str()) {
            return Err(Error::CommentNotFound(thread_id));
        }
        let ghost cm = old(self).records(comments_id());
        let ghost sm = sub_map(cm, thread_id@);
        let tid = thread_id.as_str();
        sub_ensure_list(&mut self.inner, "comments", tid, "replies");
        let reply_id = self.next_id("r", "next_reply_id");
        let idx = sub_list_len(&self.inner, "comments", tid, "replies");
        sub_list_push_map(&mut self.inner, "comments", tid, "replies");
        let ghost l1 = replies_or_empty(sm).push(Slot::MapC(Map::empty()));
        sub_list_item_insert(&mut self.inner, "comments", tid, "replies", idx, "id", &LValue::Str(reply_id.clone()));
        sub_list_item_insert(&mut self.inner, "comments", tid, "replies", idx, "body", &LValue::Str(body));
        sub_list_item_insert(&mut self.inner, "comments", tid, "replies", idx, "author", &LValue::Str(author));
        sub_list_item_insert(&mut self.inner, "comments", tid, "replies", idx, "created_at", &LValue::I64(created_at));
        proof {
            let fields = reply_fields(reply_id@, body@, author@, created_at);
            assert(sub_list(sub_map(self.records(comments_id()), thread_id@), "replies"@) =~= replies_or_empty(sm).push(Slot::MapC(fields)));
            assert(sub_map(self.records(comments_id()), thread_id@) =~= sm.insert(
                "replies"@,
                Slot::ListC(replies_or_empty(sm).push(Slot::MapC(fields))),
            ));
            assert(self.records(comments_id()) =~= cm.insert(
                thread_id@,
                Slot::MapC(sm.insert("replies"@, Slot::ListC(replies_or_empty(sm).push(Slot::MapC(fields))))),
            ));
        }
        self.last_reply_id = Some(reply_id);
        Ok(())
    }
}

impl Doc {
    /// Sets the status of thread `thread_id`, or reports that there is no
    /// such thread.
    fn handle_set_comment_status(&mut self, thread_id: String, status: CommentStatus) -> (r: Result<(), Error>)
        ensures
            set_status_effect(*old(self), *final(self), thread_id, status, r),

    {
        if !has_record(&self.inner, "comments", thread_id.as_str()) {
            return Err(Error::CommentNotFound(thread_id));
        }
        let code = match status {
            CommentStatus::Open => "open",
            CommentStatus::Resolved => "resolved",
        };
        sub_insert(&mut self.inner, "comments", thread_id.as_str(), "status", &LValue::Str(code.to_owned()));
        Ok(())
    }

    /// Records a pending suggestion to replace `[from, to)` under a
    /// minted id; the text is not changed.
    fn handle_suggest(&mut self, from: usize, to: usize, replacement: String)
        requires
            old(self).admits(EditOp::Suggest { from, to, replacement }),
        ensures
            suggest_effect(*old(self), *final(self), from, to, replacement),

    {
        proof {
            lemma_record_ids_distinct();
        }
        let ghost m = old(self).records(suggestions_id());
        let id = self.next_id("s", "next_suggestion_id");
        map_ensure_map(&mut self.inner, "suggestions", id.as_str());
        sub_insert(&mut self.inner, "suggestions", id.as_str(), "from", &LValue::I64(from as i64));
        sub_insert(&mut self.inner, "suggestions", id.as_str(), "to", &LValue::I64(to as i64));
        sub_insert(&mut self.inner, "suggestions", id.as_str(), "replacement", &LValue::Str(replacement));
        sub_insert(&mut self.inner, "suggestions", id.as_str(), "state", &LValue::Str(state_to_str(SuggestionState::Pending).to_owned()));
        proof {
            reveal_strlit("pending");
            assert(self.records(suggestions_id()) =~= m.insert(
                id@,
                Slot::MapC(suggestion_fields(sub_map(m, id@), from, to, replacement@)),
            ));
        }
        self.last_suggestion_id = Some(id);
    }

    /// Inserts a one-codepoint marker at `at` (clipped) and records it
    /// in root map `cid` under a minted id with the fields `at` and
    /// `field` = `value`.
    fn insert_marker_record(
        &mut self,
        at: usize,
        marker: char,
        cid: &str,
        prefix: &str,
        counter_key: &str,
        field: &str,
        value: LValue,
    ) -> (r: String)
        requires
            !holds_other(value),
            old(self).counter(counter_key@) < i64::MAX,
            map_slot_ok(old(self).records(cid@), old(self).next_id_for(prefix@, counter_key@)),
            cid@ != meta_id(),
            cid@ == citations_id() || cid@ == footnotes_id(),
        ensures
            ({
                let id = old(self).next_id_for(prefix@, counter_key@);
                let a = clip(at as int, old(self).body().len() as int);
                let m = old(self).records(cid@);
                &&& r@ == id
                &&& final(self).body() == splice(old(self).body(), a, seq![marker])
                &&& final(self).records(cid@) == m.insert(
                    id,
                    Slot::MapC(sub_map(m, id).insert("at"@, ival(a as i64)).insert(field@, Slot::Val(lvalue_view(value)))),
                )
                &&& final(self).records(meta_id()) == old(self).records(meta_id()).insert(
                    counter_key@,
                    ival((old(self).counter(counter_key@) + 1) as i64),
                )
                &&& marks_follow_insert(old(self).store(), final(self).store(), a, 1)
            }),
            text_and_maps_changed(old(self).store(), final(self).store(), cid@, meta_id()),
            final(self).last_ids() == old(self).last_ids(),
    {
        let ghost m = old(self).records(cid@);
        let id = self.next_id(prefix, counter_key);
        let len = self.body_len();
        let a = if at < len { at } else { len };
        let ghost mid = *self;
        let mut mk: Vec<char> = Vec::new();
        mk.push(marker);
        let ms = string_from_chars(mk.as_slice());
        text_insert(&mut self.inner, "doc", a, ms.as_str());
        let ghost mid2 = *self;
        map_ensure_map(&mut self.inner, cid, id.as_str());
        sub_insert(&mut self.inner, cid, id.as_str(), "at", &LValue::I64(a as i64));
        sub_insert(&mut self.inner, cid, id.as_str(), field, &value);
        proof {
            assert(self.records(cid@) =~= m.insert(
                id@,
                Slot::MapC(sub_map(m, id@).insert("at"@, ival(a as i64)).insert(field@, Slot::Val(lvalue_view(value)))),
            ));
            assert(self.body() =~= splice(old(self).body(), a as int, seq![marker]));
            assert forall|mm: Mark, i: int| !(a <= i < a + 1) implies (#[trigger] loro_marks(self.inner, body_id(), spec_mark_key(mm)).contains(i)
                <==> marks_after_insert(old(self).marked(mm), a as int, 1).contains(i)) by {
                let k = spec_mark_key(mm);
                assert(loro_marks(self.inner, "doc"@, k) == loro_marks(mid2.inner, "doc"@, k));
                assert(loro_marks(mid.inner, "doc"@, k) == loro_marks(old(self).inner, "doc"@, k));
            }
        }
        id
    }

    /// Inserts a citation marker at `at` (clipped) and records its
    /// position and key under a minted id.
    fn handle_insert_citation(&mut self, at: usize, key: String)
        requires
            old(self).admits(EditOp::InsertCitation { at, key }),
        ensures
            citation_effect(*old(self), *final(self), at, key),

    {
        proof {
            lemma_record_ids_distinct();
        }
        let ghost k = key@;
        let id = self.insert_marker_record(at, '\u{E000}', "citations", "cit", "next_citation_id", "key", LValue::Str(key));
        self.last_citation_id = Some(id);
        proof {
            assert(lvalue_view(LValue::Str(key)) == LVal::Str(k));
        }
    }

    /// Inserts a footnote marker at `at` (clipped) and records its
    /// position and blocks under a minted id.
    fn handle_insert_footnote(&mut self, at: usize, body: BlockTree)
        requires
            old(self).admits(EditOp::InsertFootnote { at, body }),
        ensures
            footnote_effect(*old(self), *final(self), at, body),

    {
        proof {
            lemma_record_ids_distinct();
        }
        let value = block_tree_to_value(&body.blocks);
        let ghost v = lvalue_view(value);
        let id = self.insert_marker_record(at, '\u{E001}', "footnotes", "fn", "next_footnote_id", "blocks", value);
        self.last_footnote_id = Some(id);
        proof {
            assert(v == LVal::List(body.blocks@.map_values(|b: Block| stored_block(b))));
        }
    }
}

/// The body after deleting `[from, to)` (clipped; empty when inverted).
pub open spec fn spec_delete_text(body: Seq<char>, from: int, to: int) -> Seq<char> {
    let (s, e) = clip_range(from, to, body.len() as int);
    body.subrange(0, s) + body.subrange(e, body.len() as int)
}

/// The suggestion record `id` of `m` is complete (all four fields).
pub open spec fn suggestion_complete(m: Map<Seq<char>, Slot>, id: Seq<char>) -> bool {
    suggestion_decodes(m, id)
}

/// The thread ids of a list of comments.
pub open spec fn comment_ids(v: Seq<Comment>) -> Seq<Seq<char>> {
    v.map_values(|c: Comment| c.thread_id@)
}

impl Doc {
    /// Applies suggestion `id`: when its record is a pending, complete
    /// suggestion, replaces `[from, to)` by the replacement and marks it
    /// accepted; a decided suggestion is left alone; an unknown or
    /// malformed one is an error.
    fn handle_accept_suggestion(&mut self, id: String) -> (r: Result<(), Error>)
        ensures
            accept_effect(*old(self), *final(self), id, r),

    {
        if !has_record(&self.inner, "suggestions", id.as_str()) {
            return Err(Error::SuggestionNotFound(id));
        }
        let state = match read_str(&self.inner, "suggestions", id.as_str(), "state") {
            Some(v) => str_to_state(v.as_str()),
            None => return Err(Error::SuggestionNotFound(id)),
        };
        match state {
            SuggestionState::Pending => {},
            _ => return Ok(()),
        }
        let from = match read_i64(&self.inner, "suggestions", id.as_str(), "from") {
            Some(v) => v as usize,
            None => return Err(Error::SuggestionNotFound(id)),
        };
        let to = match read_i64(&self.inner, "suggestions", id.as_str(), "to") {
            Some(v) => v as usize,
            None => return Err(Error::SuggestionNotFound(id)),
        };
        let replacement = match read_str(&self.inner, "suggestions", id.as_str(), "replacement") {
            Some(v) => v,
            None => return Err(Error::SuggestionNotFound(id)),
        };
        self.delete(from..to);
        self.insert(from, replacement.as_str());
        sub_insert(&mut self.inner, "suggestions", id.as_str(), "state", &LValue::Str(state_to_str(SuggestionState::Accepted).to_owned()));
        proof {
            reveal_strlit("accepted");
        }
        Ok(())
    }

    /// The keys of root map `cid`, sorted.
    fn sorted_keys(&self, cid: &str) -> (r: Vec<String>)
        ensures
            strictly_sorted(str_views(r@)),
            forall|x: Seq<char>| str_views(r@).contains(x) <==> self.records(cid@).contains_key(x),
    {
        let keys = map_keys(&self.inner, cid);
        proof {
            assert forall|i: int, j: int| 0 <= i < j < str_views(keys@).len() implies str_views(keys@)[i] != str_views(keys@)[j] by {
                assert(str_views(keys@)[i] == keys@[i]@);
                assert(str_views(keys@)[j] == keys@[j]@);
            }
        }
        let r = sort_strings(keys);
        proof {
            assert forall|x: Seq<char>| str_views(keys@).contains(x) <==> self.records(cid@).contains_key(x) by {
                if str_views(keys@).contains(x) {
                    let i = choose|i: int| 0 <= i < str_views(keys@).len() && str_views(keys@)[i] == x;
                    assert(keys@[i]@ == x);
                }
                if self.records(cid@).contains_key(x) {
                    let i = choose|i: int| 0 <= i < keys@.len() && (#[trigger] keys@[i])@ == x;
                    assert(str_views(keys@)[i] == x);
                }
            }
        }
        r
    }

    /// Sorted ids of every comment thread.
    pub fn comment_thread_ids(&self) -> (r: Vec<String>)
        ensures
            strictly_sorted(str_views(r@)),
            forall|x: Seq<char>| str_views(r@).contains(x) <==> self.records(comments_id()).contains_key(x),
    {
        self.sorted_keys("comments")
    }

    /// Sorted ids of every suggestion, whatever its state.
    pub fn suggestion_ids(&self) -> (r: Vec<String>)
        ensures
            strictly_sorted(str_views(r@)),
            forall|x: Seq<char>| str_views(r@).contains(x) <==> self.records(suggestions_id()).contains_key(x),
    {
        self.sorted_keys("suggestions")
    }

    /// Sorted ids of every citation.
    pub fn citation_ids(&self) -> (r: Vec<String>)
        ensures
            strictly_sorted(str_views(r@)),
            forall|x: Seq<char>| str_views(r@).contains(x) <==> self.records(citations_id()).contains_key(x),
    {
        self.sorted_keys("citations")
    }

    /// Sorted ids of every footnote.
    pub fn footnote_ids(&self) -> (r: Vec<String>)
        ensures
            strictly_sorted(str_views(r@)),
            forall|x: Seq<char>| str_views(r@).contains(x) <==> self.records(footnotes_id()).contains_key(x),
    {
        self.sorted_keys("footnotes")
    }

    /// The comment thread `thread_id`, or `None` when absent or
    /// malformed.
    pub fn comment(&self, thread_id: &str) -> (r: Option<Comment>)
        ensures
            r is Some <==> comment_decodes(self.records(comments_id()), thread_id@),
            r matches Some(c) ==> comment_is(c, self.records(comments_id()), thread_id@),
    {
        decode_comment(&self.inner, "comments", thread_id)
    }

    /// The suggestion `id`, or `None` when absent or malformed.
    pub fn suggestion(&self, id: &str) -> (r: Option<Suggestion>)
        ensures
            r is Some <==> suggestion_decodes(self.records(suggestions_id()), id@),
            r matches Some(x) ==> suggestion_is(x, self.records(suggestions_id()), id@),
    {
        decode_suggestion(&self.inner, "suggestions", id)
    }

    /// The citation `id`, or `None` when absent or malformed.
    pub fn citation(&self, id: &str) -> (r: Option<Citation>)
        ensures
            r is Some <==> citation_decodes(self.records(citations_id()), id@),
            r matches Some(x) ==> citation_is(x, self.records(citations_id()), id@),
    {
        decode_citation(&self.inner, "citations", id)
    }

    /// The footnote `id`, or `None` when absent or malformed.
    pub fn footnote(&self, id: &str) -> (r: Option<Footnote>)
        ensures
            r is Some <==> footnote_decodes(self.records(footnotes_id()), id@),
            r matches Some(x) ==> footnote_is(x, self.records(footnotes_id()), id@),
    {
        decode_footnote(&self.inner, "footnotes", id)
    }

    /// Every comment thread that decodes, sorted by id.
    pub fn comments(&self) -> (r: Vec<Comment>)
        ensures
            strictly_sorted(comment_ids(r@)),
            forall|k: int| 0 <= k < r@.len() ==> comment_is(#[trigger] r@[k], self.records(comments_id()), r@[k].thread_id@)
                && comment_decodes(self.records(comments_id()), r@[k].thread_id@),
            forall|id: Seq<char>| comment_decodes(self.records(comments_id()), id) ==> comment_ids(r@).contains(id),
    {
        let ids = self.comment_thread_ids();
        let ghost cm = self.records(comments_id());
        let mut out: Vec<Comment> = Vec::new();
        let mut i: usize = 0;
        while i < ids.len()
            invariant
                i <= ids@.len(),
                cm == self.records(comments_id()),
                strictly_sorted(str_views(ids@)),
                forall|x: Seq<char>| str_views(ids@).contains(x) <==> cm.contains_key(x),
                strictly_sorted(comment_ids(out@)),
                forall|k: int| 0 <= k < out@.len() ==> comment_is(#[trigger] out@[k], cm, out@[k].thread_id@)
                    && comment_decodes(cm, out@[k].thread_id@),
                forall|k: int| 0 <= k < out@.len() ==> exists|j: int| 0 <= j < i && #[trigger] comment_ids(out@)[k] == str_views(ids@)[j],
                forall|j: int| 0 <= j < i && comment_decodes(cm, #[trigger] str_views(ids@)[j]) ==> comment_ids(out@).contains(str_views(ids@)[j]),
            decreases ids@.len() - i,
        {
            assert(str_views(ids@)[i as int] == ids@[i as int]@);
            match self.comment(ids[i].as_str()) {
                Some(c) => {
                    let ghost before = out@;
                    out.push(c);
                    proof {
                        assert(comment_ids(out@) =~= comment_ids(before).push(ids@[i as int]@));
                        assert forall|a: int, b: int| 0 <= a < b < comment_ids(out@).len() implies crate::text::seq_lt(comment_ids(out@)[a], comment_ids(out@)[b]) by {
                            if b == before.len() {
                                assert(comment_ids(before)[a] == comment_ids(out@)[a]);
                                let j = choose|j: int| 0 <= j < i && #[trigger] comment_ids(before)[a] == str_views(ids@)[j];
                            } else {
                                assert(comment_ids(before)[a] == comment_ids(out@)[a]);
                                assert(comment_ids(before)[b] == comment_ids(out@)[b]);
                            }
                        }
                        assert forall|k: int| 0 <= k < out@.len() implies exists|j: int| 0 <= j < i + 1 && #[trigger] comment_ids(out@)[k] == str_views(ids@)[j] by {
                            if k < before.len() {
                                assert(comment_ids(before)[k] == comment_ids(out@)[k]);
                                let j = choose|j: int| 0 <= j < i && #[trigger] comment_ids(before)[k] == str_views(ids@)[j];
                            } else {
                                assert(comment_ids(out@)[k] == str_views(ids@)[i as int]);
                            }
                        }
                        assert forall|j: int| 0 <= j < i + 1 && comment_decodes(cm, #[trigger] str_views(ids@)[j]) implies comment_ids(out@).contains(str_views(ids@)[j]) by {
                            if j < i {
                                let k = choose|k: int| 0 <= k < before.len() && comment_ids(before)[k] == str_views(ids@)[j];
                                assert(comment_ids(out@)[k] == str_views(ids@)[j]);
                            } else {
                                assert(comment_ids(out@)[before.len() as int] == str_views(ids@)[j]);
                            }
                        }
                    }
                },
                None => {},
            }
            i = i + 1;
        }
        proof {
            assert forall|id: Seq<char>| comment_decodes(cm, id) implies comment_ids(out@).contains(id) by {
                assert(str_views(ids@).contains(id));
                let j = choose|j: int| 0 <= j < str_views(ids@).len() && str_views(ids@)[j] == id;
            }
        }
        out
    }
}

/// The suggestion record `id` decodes to a pending suggestion.
pub open spec fn is_pending(m: Map<Seq<char>, Slot>, id: Seq<char>) -> bool {
    suggestion_decodes(m, id) && spec_str_to_state(str_or_empty(sub_map(m, id), "state"@)) == SuggestionState::Pending
}

impl Doc {
    /// Sorted ids of the pending suggestions.
    pub fn pending_suggestion_ids(&self) -> (r: Vec<String>)
        ensures
            strictly_sorted(str_views(r@)),
            forall|x: Seq<char>| str_views(r@).contains(x) <==> is_pending(self.records(suggestions_id()), x),
    {
        let ids = self.suggestion_ids();
        let ghost m = self.records(suggestions_id());
        let mut out: Vec<String> = Vec::new();
        let mut i: usize = 0;
        while i < ids.len()
            invariant
                i <= ids@.len(),
                m == self.records(suggestions_id()),
                strictly_sorted(str_views(ids@)),
                forall|x: Seq<char>| str_views(ids@).contains(x) <==> m.contains_key(x),
                strictly_sorted(str_views(out@)),
                forall|k: int| 0 <= k < out@.len() ==> is_pending(m, #[trigger] str_views(out@)[k]),
                forall|k: int| 0 <= k < out@.len() ==> exists|j: int| 0 <= j < i && #[trigger] str_views(out@)[k] == str_views(ids@)[j],
                forall|j: int| 0 <= j < i && is_pending(m, #[trigger] str_views(ids@)[j]) ==> str_views(out@).contains(str_views(ids@)[j]),
            decreases ids@.len() - i,
        {
            assert(str_views(ids@)[i as int] == ids@[i as int]@);
            let pending = match self.suggestion(ids[i].as_str()) {
                Some(sg) => match sg.state {
                    SuggestionState::Pending => true,
                    _ => false,
                },
                None => false,
            };
            if pending {
                let ghost before = out@;
                out.push(ids[i].clone());
                proof {
                    assert(str_views(out@) =~= str_views(before).push(ids@[i as int]@));
                    assert forall|a: int, b: int| 0 <= a < b < str_views(out@).len() implies crate::text::seq_lt(str_views(out@)[a], str_views(out@)[b]) by {
                        assert(str_views(before)[a] == str_views(out@)[a]);
                        if b == before.len() {
                            let j = choose|j: int| 0 <= j < i && #[trigger] str_views(before)[a] == str_views(ids@)[j];
                        } else {
                            assert(str_views(before)[b] == str_views(out@)[b]);
                        }
                    }
                    assert forall|k: int| 0 <= k < out@.len() implies exists|j: int| 0 <= j < i + 1 && #[trigger] str_views(out@)[k] == str_views(ids@)[j] by {
                        if k < before.len() {
                            assert(str_views(before)[k] == str_views(out@)[k]);
                            let j = choose|j: int| 0 <= j < i && #[trigger] str_views(before)[k] == str_views(ids@)[j];
                        } else {
                            assert(str_views(out@)[k] == str_views(ids@)[i as int]);
                        }
                    }
                    assert forall|j: int| 0 <= j < i + 1 && is_pending(m, #[trigger] str_views(ids@)[j]) implies str_views(out@).contains(str_views(ids@)[j]) by {
                        if j < i {
                            let k = choose|k: int| 0 <= k < before.len() && str_views(before)[k] == str_views(ids@)[j];
                            assert(str_views(out@)[k] == str_views(ids@)[j]);
                        } else {
                            assert(str_views(out@)[before.len() as int] == str_views(ids@)[j]);
                        }
                    }
                    assert forall|k: int| 0 <= k < out@.len() implies is_pending(m, #[trigger] str_views(out@)[k]) by {
                        if k < before.len() {
                            assert(str_views(before)[k] == str_views(out@)[k]);
                        }
                    }
                }
            }
            i = i + 1;
        }
        proof {
            assert forall|x: Seq<char>| str_views(out@).contains(x) <==> is_pending(m, x) by {
                if is_pending(m, x) {
                    assert(str_views(ids@).contains(x));
                    let j = choose|j: int| 0 <= j < str_views(ids@).len() && str_views(ids@)[j] == x;
                }
                if str_views(out@).contains(x) {
                    let k = choose|k: int| 0 <= k < str_views(out@).len() && str_views(out@)[k] == x;
                }
            }
        }
        out
    }

    /// The id minted by the most recent op of its kind on this value
    /// (not kept in snapshots).
    pub fn last_comment_thread_id(&self) -> (r: Option<String>)
        ensures
            opt_str(r) == self.last_ids().comment,
    {
        match &self.last_comment_thread_id {
            Some(s) => Some(s.clone()),
            None => None,
        }
    }

    /// The id minted by the most recent op of its kind on this value
    /// (not kept in snapshots).
    pub fn last_suggestion_id(&self) -> (r: Option<String>)
        ensures
            opt_str(r) == self.last_ids().suggestion,
    {
        match &self.last_suggestion_id {
            Some(s) => Some(s.clone()),
            None => None,
        }
    }

    /// The id minted by the most recent op of its kind on this value
    /// (not kept in snapshots).
    pub fn last_citation_id(&self) -> (r: Option<String>)
        ensures
            opt_str(r) == self.last_ids().citation,
    {
        match &self.last_citation_id {
            Some(s) => Some(s.clone()),
            None => None,
        }
    }

    /// The id minted by the most recent op of its kind on this value
    /// (not kept in snapshots).
    pub fn last_footnote_id(&self) -> (r: Option<String>)
        ensures
            opt_str(r) == self.last_ids().footnote,
    {
        match &self.last_footnote_id {
            Some(s) => Some(s.clone()),
            None => None,
        }
    }

    /// The id minted by the most recent op of its kind on this value
    /// (not kept in snapshots).
    pub fn last_reply_id(&self) -> (r: Option<String>)
        ensures
            opt_str(r) == self.last_ids().reply,
    {
        match &self.last_reply_id {
            Some(s) => Some(s.clone()),
            None => None,
        }
    }
}

/// What `split_block` does (see the op of the same name).
pub open spec fn split_effect(o: Doc, n: Doc, at: usize) -> bool {
    &&& ({
                    let (b, l) = spec_split_block(o.body(), o.kind_list(), at as int);
                    n.body() == b && n.kind_list() == l
    })
    &&& marks_follow_insert(o.store(), n.store(), clip(at as int, o.body().len() as int), 1)
    &&& n.records_kept(o)
}

/// What `insert_block` does (see the op of the same name).
pub open spec fn insert_block_effect(o: Doc, n: Doc, at: usize, block: Block) -> bool {
    &&& ({
                    let (b, l) = spec_insert_block(o.body(), o.kind_list(), at as int, block.kind, block.text@);
                    n.body() == b && n.kind_list() == l
    })
    &&& n.records_kept(o)
}

/// What `merge_blocks` does (see the op of the same name).
pub open spec fn merge_effect(o: Doc, n: Doc, first: usize, second: usize) -> bool {
    &&& ({
                    let (b, l) = spec_merge_blocks(o.body(), o.kind_list(), first as int, second as int);
                    n.body() == b && n.kind_list() == l
    })
    &&& n.records_kept(o)
}

/// What `insert_comment` does (see the op of the same name).
pub open spec fn insert_comment_effect(o: Doc, n: Doc, from: usize, to: usize, body: String, thread_id: Option<String>, author: String, created_at: i64) -> bool {
    &&& ({
                    let id = o.comment_id_for(opt_str(thread_id));
                    let cm = o.records(comments_id());
                    &&& n.records(comments_id()) == cm.insert(
                        id,
                        Slot::MapC(comment_fields(sub_map(cm, id), from, to, body@, author@, created_at)),
                    )
                    &&& n.records(meta_id()) == (if thread_id is None {
                        o.records(meta_id()).insert("next_comment_id"@, ival((o.counter("next_comment_id"@) + 1) as i64))
                    } else {
                        o.records(meta_id())
                    })
                    &&& n.last_ids() == o.with_comment_id(id)
    })
    &&& maps_changed(o.store(), n.store(), comments_id(), meta_id())
}

/// What `reply_to_comment` does (see the op of the same name).
pub open spec fn reply_effect(o: Doc, n: Doc, thread_id: String, body: String, author: String, created_at: i64, r: Result<(), Error>) -> bool {
    &&& !has_sub_map(o.records(comments_id()), thread_id@) ==> r == Err::<(), Error>(Error::CommentNotFound(thread_id))
                    && n == o
    &&& has_sub_map(o.records(comments_id()), thread_id@) ==> ({
                    let cm = o.records(comments_id());
                    let sm = sub_map(cm, thread_id@);
                    let rid = o.next_id_for("r"@, "next_reply_id"@);
                    &&& r is Ok
                    &&& n.records(comments_id()) == cm.insert(
                        thread_id@,
                        Slot::MapC(sm.insert("replies"@, Slot::ListC(replies_or_empty(sm).push(Slot::MapC(reply_fields(rid, body@, author@, created_at)))))),
                    )
                    &&& n.records(meta_id()) == o.records(meta_id()).insert(
                        "next_reply_id"@,
                        ival((o.counter("next_reply_id"@) + 1) as i64),
                    )
                    &&& n.last_ids() == (LastIds {
                        comment: o.last_ids().comment,
                        suggestion: o.last_ids().suggestion,
                        citation: o.last_ids().citation,
                        footnote: o.last_ids().footnote,
                        reply: Some(rid),
                    })
                    &&& maps_changed(o.store(), n.store(), comments_id(), meta_id())
    })
}

/// What `set_comment_status` does (see the op of the same name).
pub open spec fn set_status_effect(o: Doc, n: Doc, thread_id: String, status: CommentStatus, r: Result<(), Error>) -> bool {
    &&& !has_sub_map(o.records(comments_id()), thread_id@) ==> r == Err::<(), Error>(Error::CommentNotFound(thread_id))
                    && n == o
    &&& has_sub_map(o.records(comments_id()), thread_id@) ==> {
                    &&& r is Ok
                    &&& n.records(comments_id()) == sub_put(
                        o.records(comments_id()),
                        thread_id@,
                        "status"@,
                        sval(spec_status_str(status)),
                    )
                    &&& only_map_changed(o.store(), n.store(), comments_id())
                    &&& n.last_ids() == o.last_ids()
    }
}

/// What `suggest` does (see the op of the same name).
pub open spec fn suggest_effect(o: Doc, n: Doc, from: usize, to: usize, replacement: String) -> bool {
    &&& ({
                    let id = o.next_id_for("s"@, "next_suggestion_id"@);
                    let m = o.records(suggestions_id());
                    &&& n.records(suggestions_id()) == m.insert(
                        id,
                        Slot::MapC(suggestion_fields(sub_map(m, id), from, to, replacement@)),
                    )
                    &&& n.records(meta_id()) == o.records(meta_id()).insert(
                        "next_suggestion_id"@,
                        ival((o.counter("next_suggestion_id"@) + 1) as i64),
                    )
                    &&& n.last_ids() == (LastIds {
                        comment: o.last_ids().comment,
                        suggestion: Some(id),
                        citation: o.last_ids().citation,
                        footnote: o.last_ids().footnote,
                        reply: o.last_ids().reply,
                    })
    })
    &&& maps_changed(o.store(), n.store(), suggestions_id(), meta_id())
}

/// What `accept_suggestion` does (see the op of the same name).
pub open spec fn accept_effect(o: Doc, n: Doc, id: String, r: Result<(), Error>) -> bool {
    &&& ({
                    let m = o.records(suggestions_id());
                    let sm = sub_map(m, id@);
                    let found = has_sub_map(m, id@) && field_str(sm, "state"@) is Some;
                    let pending = found && spec_str_to_state(str_or_empty(sm, "state"@)) == SuggestionState::Pending;
                    &&& !found ==> r == Err::<(), Error>(Error::SuggestionNotFound(id)) && n == o
                    &&& found && !pending ==> r is Ok && n == o
                    &&& pending && !suggestion_complete(m, id@) ==> r == Err::<(), Error>(Error::SuggestionNotFound(id))
                        && n == o
                    &&& pending && suggestion_complete(m, id@) ==> {
                        let from = i64_or_zero(sm, "from"@) as usize;
                        let to = i64_or_zero(sm, "to"@) as usize;
                        let cut = spec_delete_text(o.body(), from as int, to as int);
                        &&& r is Ok
                        &&& n.body() == spec_insert_text(cut, from as int, str_or_empty(sm, "replacement"@))
                        &&& n.records(suggestions_id()) == sub_put(m, id@, "state"@, sval("accepted"@))
                        &&& forall|c: Seq<char>| c != suggestions_id() ==> #[trigger] n.records(c) == o.records(c)
                        &&& n.kind_list() == o.kind_list()
                        &&& n.last_ids() == o.last_ids()
                    }
    })
}

/// What `insert_citation` does (see the op of the same name).
pub open spec fn citation_effect(o: Doc, n: Doc, at: usize, key: String) -> bool {
    &&& ({
                    let id = o.next_id_for("cit"@, "next_citation_id"@);
                    let a = clip(at as int, o.body().len() as int);
                    let m = o.records(citations_id());
                    &&& n.body() == splice(o.body(), a, seq!['\u{E000}'])
                    &&& n.records(citations_id()) == m.insert(
                        id,
                        Slot::MapC(sub_map(m, id).insert("at"@, ival(a as i64)).insert("key"@, sval(key@))),
                    )
                    &&& n.records(meta_id()) == o.records(meta_id()).insert(
                        "next_citation_id"@,
                        ival((o.counter("next_citation_id"@) + 1) as i64),
                    )
                    &&& marks_follow_insert(o.store(), n.store(), a, 1)
                    &&& n.last_ids() == (LastIds {
                        comment: o.last_ids().comment,
                        suggestion: o.last_ids().suggestion,
                        citation: Some(id),
                        footnote: o.last_ids().footnote,
                        reply: o.last_ids().reply,
                    })
    })
    &&& text_and_maps_changed(o.store(), n.store(), citations_id(), meta_id())
}

/// What `insert_footnote` does (see the op of the same name).
pub open spec fn footnote_effect(o: Doc, n: Doc, at: usize, body: BlockTree) -> bool {
    &&& ({
                    let id = o.next_id_for("fn"@, "next_footnote_id"@);
                    let a = clip(at as int, o.body().len() as int);
                    let m = o.records(footnotes_id());
                    &&& n.body() == splice(o.body(), a, seq!['\u{E001}'])
                    &&& n.records(footnotes_id()) == m.insert(
                        id,
                        Slot::MapC(sub_map(m, id).insert("at"@, ival(a as i64)).insert(
                            "blocks"@,
                            Slot::Val(LVal::List(body.blocks@.map_values(|b: Block| stored_block(b)))),
                        )),
                    )
                    &&& n.records(meta_id()) == o.records(meta_id()).insert(
                        "next_footnote_id"@,
                        ival((o.counter("next_footnote_id"@) + 1) as i64),
                    )
                    &&& marks_follow_insert(o.store(), n.store(), a, 1)
                    &&& n.last_ids() == (LastIds {
                        comment: o.last_ids().comment,
                        suggestion: o.last_ids().suggestion,
                        citation: o.last_ids().citation,
                        footnote: Some(id),
                        reply: o.last_ids().reply,
                    })
    })
    &&& text_and_maps_changed(o.store(), n.store(), footnotes_id(), meta_id())
}

/// What `InsertText` does: nothing for empty text; otherwise the text
/// goes in at `at` (clipped), each listed mark covers the inserted span,
/// and marks outside the span shift with the text.
pub open spec fn insert_text_effect(o: Doc, n: Doc, at: usize, text: Seq<char>, marks: Seq<Mark>) -> bool {
    if text.len() == 0 {
        n == o
    } else {
        let a = clip(at as int, o.body().len() as int);
        &&& n.body() == spec_insert_text(o.body(), at as int, text)
        &&& forall|m: Mark, p: int| marks.contains(m) && a <= p < a + text.len() ==> #[trigger] n.marked(m).contains(p)
        &&& marks_follow_insert(o.store(), n.store(), a, text.len() as int)
        &&& n.text_only_changed(o)
    }
}

/// What `DeleteRange` does (see [`Doc::delete`]).
pub open spec fn delete_effect(o: Doc, n: Doc, from: usize, to: usize) -> bool {
    let (s, e) = clip_range(from as int, to as int, o.body().len() as int);
    &&& n.body() == spec_delete_text(o.body(), from as int, to as int)
    &&& forall|m: Mark| #[trigger] n.marked(m) == marks_after_delete(o.marked(m), s, e - s)
    &&& n.text_only_changed(o)
}

/// What `FormatRange` does (see [`Doc::format`]).
pub open spec fn format_effect(o: Doc, n: Doc, from: usize, to: usize, mark: Mark) -> bool {
    let (s, e) = clip_range(from as int, to as int, o.body().len() as int);
    &&& n.marked(mark) == o.marked(mark).union(Set::new(|i: int| s <= i < e))
    &&& n.marked(other_mark(mark)) == o.marked(other_mark(mark))
    &&& n.body() == o.body()
    &&& n.text_only_changed(o)
}

/// The outcome of applying `op` to `o`, giving `n` and result `r`.
pub open spec fn op_effect(o: Doc, n: Doc, op: EditOp, r: Result<(), Error>) -> bool {
    match op {
        EditOp::InsertText { at, text, marks } => r is Ok && insert_text_effect(o, n, at, text@, marks@),
        EditOp::DeleteRange { from, to } => r is Ok && delete_effect(o, n, from, to),
        EditOp::FormatRange { from, to, mark } => r is Ok && format_effect(o, n, from, to, mark),
        EditOp::InsertBlock { at, block } => r is Ok && insert_block_effect(o, n, at, block),
        EditOp::SplitBlock { at } => r is Ok && split_effect(o, n, at),
        EditOp::MergeBlocks { first, second } => r is Ok && merge_effect(o, n, first, second),
        EditOp::InsertComment { from, to, body, thread_id, author, created_at } => r is Ok
            && insert_comment_effect(o, n, from, to, body, thread_id, author, created_at),
        EditOp::ReplyToComment { thread_id, body, author, created_at } => reply_effect(
            o,
            n,
            thread_id,
            body,
            author,
            created_at,
            r,
        ),
        EditOp::SetCommentStatus { thread_id, status } => set_status_effect(o, n, thread_id, status, r),
        EditOp::Suggest { from, to, replacement } => r is Ok && suggest_effect(o, n, from, to, replacement),
        EditOp::AcceptSuggestion { suggestion_id } => accept_effect(o, n, suggestion_id, r),
        EditOp::InsertCitation { at, key } => r is Ok && citation_effect(o, n, at, key),
        EditOp::InsertFootnote { at, body } => r is Ok && footnote_effect(o, n, at, body),
    }
}

impl Doc {
    /// Applies an edit op. It fails only when a reply or status change
    /// names an unknown thread, or an accepted suggestion is unknown or
    /// malformed; `op` must be admitted (see [`Doc::admits_op`]).
    pub fn apply_edit_op(&mut self, op: EditOp) -> (r: Result<(), Error>)
        requires
            old(self).admits(op),
        ensures
            op_effect(*old(self), *final(self), op, r),
    {
        match op {
            EditOp::InsertText { at, text, marks } => {
                if text.as_str().is_empty() {
                    return Ok(());
                }
                let prior = self.body_len();
                let start = if at < prior { at } else { prior };
                let n = chars_of(text.as_str()).len();
                self.insert(at, text.as_str());
                let total = self.body_len();
                let ghost o = *old(self);
                let ghost after_insert = *self;
                let mut j: usize = 0;
                while j < marks.len()
                    invariant
                        j <= marks@.len(),
                        total == self.body().len(),
                        start + n <= total,
                        start == clip(at as int, o.body().len() as int),
                        n == text@.len(),
                        self.body() == spec_insert_text(o.body(), at as int, text@),
                        forall|k: int, p: int| 0 <= k < j && start <= p < start + n ==> #[trigger] self.marked(marks@[k]).contains(p),
                        forall|m: Mark, i: int| !(start <= i < start + n) ==> (#[trigger] self.marked(m).contains(i)
                            <==> marks_after_insert(o.marked(m), start as int, n as int).contains(i)),
                        self.text_only_changed(o),
                    decreases marks@.len() - j,
                {
                    let mark = marks[j];
                    let ghost before = *self;
                    self.format(start..start + n, mark);
                    proof {
                        assert forall|m: Mark, i: int| !(start <= i < start + n) implies (#[trigger] self.marked(m).contains(i)
                            <==> marks_after_insert(o.marked(m), start as int, n as int).contains(i)) by {
                            if m == mark {
                            } else {
                                assert(m == other_mark(mark));
                            }
                        }
                        assert forall|k: int, p: int| 0 <= k < j + 1 && start <= p < start + n implies #[trigger] self.marked(marks@[k]).contains(p) by {
                            if marks@[k] == mark {
                            } else {
                                assert(marks@[k] == other_mark(mark));
                            }
                        }
                    }
                    j = j + 1;
                }
                proof {
                    assert forall|m: Mark, i: int| !(start <= i < start + n) implies (#[trigger] loro_marks(self.inner, body_id(), spec_mark_key(m)).contains(i)
                        <==> marks_after_insert(loro_marks(o.inner, body_id(), spec_mark_key(m)), start as int, n as int).contains(i)) by {
                        assert(self.marked(m).contains(i) <==> marks_after_insert(o.marked(m), start as int, n as int).contains(i));
                    }
                    assert forall|m: Mark, p: int| marks@.contains(m) && start <= p < start + n implies #[trigger] self.marked(m).contains(p) by {
                        let k = choose|k: int| 0 <= k < marks@.len() && marks@[k] == m;
                        assert(self.marked(marks@[k]).contains(p));
                    }
                }
                Ok(())
            },
            EditOp::DeleteRange { from, to } => {
                self.delete(from..to);
                Ok(())
            },
            EditOp::FormatRange { from, to, mark } => {
                self.format(from..to, mark);
                Ok(())
            },
            EditOp::InsertBlock { at, block } => {
                self.handle_insert_block(at, block);
                Ok(())
            },
            EditOp::SplitBlock { at } => {
                self.handle_split_block(at);
                Ok(())
            },
            EditOp::MergeBlocks { first, second } => {
                self.handle_merge_blocks(first, second);
                Ok(())
            },
            EditOp::InsertComment { from, to, body, thread_id, author, created_at } => {
                self.handle_insert_comment(from, to, body, thread_id, author, created_at);
                Ok(())
            },
            EditOp::ReplyToComment { thread_id, body, author, created_at } => self.handle_reply_to_comment(
                thread_id,
                body,
                author,
                created_at,
            ),
            EditOp::SetCommentStatus { thread_id, status } => self.handle_set_comment_status(thread_id, status),
            EditOp::Suggest { from, to, replacement } => {
                self.handle_suggest(from, to, replacement);
                Ok(())
            },
            EditOp::AcceptSuggestion { suggestion_id } => self.handle_accept_suggestion(suggestion_id),
            EditOp::InsertCitation { at, key } => {
                self.handle_insert_citation(at, key);
                Ok(())
            },
            EditOp::InsertFootnote { at, body } => {
                self.handle_insert_footnote(at, body);
                Ok(())
            },
        }
    }
}

impl Default for Doc {
    fn default() -> (d: Doc)
        ensures
            is_empty_doc(d.store()),
            d.last_ids() == no_last_ids(),
    {
        Doc::new()
    }
}

} // verus!
