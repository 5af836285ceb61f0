//! The record maps (comments, suggestions, citations, footnotes) and
//! the id counters: how records are stored as sub-maps of plain slots,
//! how they decode, and the readers that decode them.

use vstd::prelude::*;

use loro::LoroDoc;

use super::store::{entries_map_rec, has_sub_list, has_sub_map, item_map, loro_map, lvalue_view, map_get, sub_get, sub_list, sub_list_get, sub_list_item_get, sub_list_len, sub_map, Entry, LVal, LValue, Slot};
use super::{spec_str_to_kind, spec_str_to_state, str_to_kind, str_to_state, Block, BlockKind, Citation, Comment, CommentReply, CommentStatus, Footnote, BlockTree, Suggestion};
use crate::text::{chars_eq, chars_of};

verus! {

/// Container id of the comment threads.
pub open spec fn comments_id() -> Seq<char> {
    "comments"@
}

/// Container id of the suggestions.
pub open spec fn suggestions_id() -> Seq<char> {
    "suggestions"@
}

/// Container id of the citations.
pub open spec fn citations_id() -> Seq<char> {
    "citations"@
}

/// Container id of the footnotes.
pub open spec fn footnotes_id() -> Seq<char> {
    "footnotes"@
}

/// Container id of the id counters.
pub open spec fn meta_id() -> Seq<char> {
    "meta"@
}

/// The record containers are distinct from each other.
pub proof fn lemma_record_ids_distinct()
    ensures
        comments_id() != suggestions_id(),
        comments_id() != citations_id(),
        comments_id() != footnotes_id(),
        comments_id() != meta_id(),
        suggestions_id() != citations_id(),
        suggestions_id() != footnotes_id(),
        suggestions_id() != meta_id(),
        citations_id() != footnotes_id(),
        citations_id() != meta_id(),
        footnotes_id() != meta_id(),
{
    reveal_strlit("comments");
    reveal_strlit("suggestions");
    reveal_strlit("citations");
    reveal_strlit("footnotes");
    reveal_strlit("meta");
    assert(comments_id()[1] != citations_id()[1]);
    assert(comments_id()[0] != suggestions_id()[0]);
    assert(comments_id()[0] != footnotes_id()[0]);
    assert(comments_id()[0] != meta_id()[0]);
    assert(suggestions_id()[0] != citations_id()[0]);
    assert(suggestions_id()[0] != footnotes_id()[0]);
    assert(suggestions_id()[0] != meta_id()[0]);
    assert(citations_id()[0] != footnotes_id()[0]);
    assert(citations_id()[0] != meta_id()[0]);
    assert(footnotes_id()[0] != meta_id()[0]);
}

/// A stored integer.
pub open spec fn ival(n: i64) -> Slot {
    Slot::Val(LVal::I64(n))
}

/// A stored string.
pub open spec fn sval(s: Seq<char>) -> Slot {
    Slot::Val(LVal::Str(s))
}

/// The integer stored under `k`, if that entry is an integer.
pub open spec fn field_i64(m: Map<Seq<char>, Slot>, k: Seq<char>) -> Option<i64> {
    if m.contains_key(k) && m[k] is Val && m[k]->Val_0 is I64 {
        Some(m[k]->Val_0->I64_0)
    } else {
        None
    }
}

/// The string stored under `k`, if that entry is a string.
pub open spec fn field_str(m: Map<Seq<char>, Slot>, k: Seq<char>) -> Option<Seq<char>> {
    if m.contains_key(k) && m[k] is Val && m[k]->Val_0 is Str {
        Some(m[k]->Val_0->Str_0)
    } else {
        None
    }
}

/// The string under `k`, or the empty string.
pub open spec fn str_or_empty(m: Map<Seq<char>, Slot>, k: Seq<char>) -> Seq<char> {
    match field_str(m, k) {
        Some(s) => s,
        None => Seq::empty(),
    }
}

/// The integer under `k`, or 0.
pub open spec fn i64_or_zero(m: Map<Seq<char>, Slot>, k: Seq<char>) -> i64 {
    match field_i64(m, k) {
        Some(n) => n,
        None => 0,
    }
}

/// `m` with `field` of the sub-map at `key` set to `v`.
pub open spec fn sub_put(m: Map<Seq<char>, Slot>, key: Seq<char>, field: Seq<char>, v: Slot) -> Map<Seq<char>, Slot> {
    m.insert(key, Slot::MapC(sub_map(m, key).insert(field, v)))
}

/// The id `{prefix}-{peer in hex}-{n}`.
pub open spec fn spec_next_id(prefix: Seq<char>, peer: u64, n: i64) -> Seq<char> {
    prefix + seq!['-'] + crate::text::spec_hex(peer as nat) + seq!['-'] + crate::text::spec_int_decimal(n as int)
}

/// The integer field `field` of the record at `key` of root map `cid`.
pub fn read_i64(doc: &LoroDoc, cid: &str, key: &str, field: &str) -> (r: Option<i64>)
    requires
        has_sub_map(loro_map(*doc, cid@), key@),
    ensures
        r == field_i64(sub_map(loro_map(*doc, cid@), key@), field@),
{
    match sub_get(doc, cid, key, field) {
        Some(Entry::Value(LValue::I64(n))) => Some(n),
        _ => None,
    }
}

/// The string field `field` of the record at `key` of root map `cid`.
pub fn read_str(doc: &LoroDoc, cid: &str, key: &str, field: &str) -> (r: Option<String>)
    requires
        has_sub_map(loro_map(*doc, cid@), key@),
    ensures
        match r {
            Some(s) => field_str(sub_map(loro_map(*doc, cid@), key@), field@) == Some(s@),
            None => field_str(sub_map(loro_map(*doc, cid@), key@), field@) is None,
        },
{
    match sub_get(doc, cid, key, field) {
        Some(Entry::Value(LValue::Str(s))) => Some(s),
        _ => None,
    }
}

/// The integer under `key` of root map `cid`, or 0.
pub fn read_counter(doc: &LoroDoc, cid: &str, key: &str) -> (r: i64)
    ensures
        r == i64_or_zero(loro_map(*doc, cid@), key@),
{
    match map_get(doc, cid, key) {
        Some(Entry::Value(LValue::I64(n))) => n,
        _ => 0,
    }
}

/// Whether root map `cid` holds a record (a sub-map) at `key`.
pub fn has_record(doc: &LoroDoc, cid: &str, key: &str) -> (r: bool)
    ensures
        r == has_sub_map(loro_map(*doc, cid@), key@),
{
    match map_get(doc, cid, key) {
        Some(Entry::MapC) => true,
        _ => false,
    }
}

// ─────────────────────────────────────────────────────────────────
// Decoded records
// ─────────────────────────────────────────────────────────────────

/// A decoded reply: id, body, author, creation time.
pub struct ReplyView {
    pub id: Seq<char>,
    pub body: Seq<char>,
    pub author: Seq<char>,
    pub created_at: i64,
}

/// The reply a stored sub-map decodes to (missing fields default).
pub open spec fn reply_of(m: Map<Seq<char>, Slot>) -> ReplyView {
    ReplyView {
        id: str_or_empty(m, "id"@),
        body: str_or_empty(m, "body"@),
        author: str_or_empty(m, "author"@),
        created_at: i64_or_zero(m, "created_at"@),
    }
}

/// The replies a stored list decodes to: its sub-maps, in order;
/// entries that are not sub-maps are skipped.
pub open spec fn spec_replies(l: Seq<Slot>) -> Seq<ReplyView>
    decreases l.len(),
{
    if l.len() == 0 {
        Seq::empty()
    } else {
        let pre = spec_replies(l.drop_last());
        if l.last() is MapC {
            pre.push(reply_of(l.last()->MapC_0))
        } else {
            pre
        }
    }
}

/// The reply list of a thread record (empty when it has none).
pub open spec fn thread_replies(sm: Map<Seq<char>, Slot>) -> Seq<ReplyView> {
    if has_sub_list(sm, "replies"@) {
        spec_replies(sub_list(sm, "replies"@))
    } else {
        Seq::empty()
    }
}

/// The decoded view of a reply.
pub open spec fn reply_view(r: CommentReply) -> ReplyView {
    ReplyView { id: r.id@, body: r.body@, author: r.author@, created_at: r.created_at }
}

/// Decodes the replies of the thread record at `key` of root map `cid`.
pub fn read_replies(doc: &LoroDoc, cid: &str, key: &str) -> (r: Vec<CommentReply>)
    requires
        has_sub_map(loro_map(*doc, cid@), key@),
    ensures
        r@.map_values(|x: CommentReply| reply_view(x)) == thread_replies(sub_map(loro_map(*doc, cid@), key@)),
{
    let ghost sm = sub_map(loro_map(*doc, cid@), key@);
    let mut out: Vec<CommentReply> = Vec::new();
    match sub_get(doc, cid, key, "replies") {
        Some(Entry::ListC) => {},
        _ => {
            proof {
                assert(out@.map_values(|x: CommentReply| reply_view(x)) =~= Seq::<ReplyView>::empty());
            }
            return out;
        },
    }
    let ghost l = sub_list(sm, "replies"@);
    let n = sub_list_len(doc, cid, key, "replies");
    let mut i: usize = 0;
    proof {
        assert(l.subrange(0, 0) =~= Seq::<Slot>::empty());
        assert(out@.map_values(|x: CommentReply| reply_view(x)) =~= Seq::<ReplyView>::empty());
    }
    while i < n
        invariant
            i <= n == l.len(),
            sm == sub_map(loro_map(*doc, cid@), key@),
            has_sub_map(loro_map(*doc, cid@), key@),
            has_sub_list(sm, "replies"@),
            l == sub_list(sm, "replies"@),
            out@.map_values(|x: CommentReply| reply_view(x)) == spec_replies(l.subrange(0, i as int)),
        decreases n - i,
    {
        proof {
            assert(l.subrange(0, i as int + 1).drop_last() =~= l.subrange(0, i as int));
        }
        match sub_list_get(doc, cid, key, "replies", i) {
            Some(Entry::MapC) => {
                let id = item_str(doc, cid, key, i, "id");
                let body = item_str(doc, cid, key, i, "body");
                let author = item_str(doc, cid, key, i, "author");
                let created_at = match sub_list_item_get(doc, cid, key, "replies", i, "created_at") {
                    Some(Entry::Value(LValue::I64(v))) => v,
                    _ => 0,
                };
                let ghost before = out@;
                out.push(CommentReply { id, body, author, created_at });
                proof {
                    assert(out@.map_values(|x: CommentReply| reply_view(x)) =~= before.map_values(
                        |x: CommentReply| reply_view(x),
                    ).push(reply_of(item_map(l, i as int))));
                }
            },
            _ => {},
        }
        i = i + 1;
    }
    proof {
        assert(l.subrange(0, n as int) =~= l);
    }
    out
}

/// A string field of the reply sub-map at `idx`, or the empty string.
fn item_str(doc: &LoroDoc, cid: &str, key: &str, idx: usize, field: &str) -> (r: String)
    requires
        has_sub_map(loro_map(*doc, cid@), key@),
        has_sub_list(sub_map(loro_map(*doc, cid@), key@), "replies"@),
        idx < sub_list(sub_map(loro_map(*doc, cid@), key@), "replies"@).len(),
        sub_list(sub_map(loro_map(*doc, cid@), key@), "replies"@)[idx as int] is MapC,
    ensures
        r@ == str_or_empty(item_map(sub_list(sub_map(loro_map(*doc, cid@), key@), "replies"@), idx as int), field@),
{
    match sub_list_item_get(doc, cid, key, "replies", idx, field) {
        Some(Entry::Value(LValue::Str(s))) => s,
        _ => String::new(),
    }
}

// ─────────────────────────────────────────────────────────────────
// Comments, suggestions, citations, footnotes
// ─────────────────────────────────────────────────────────────────

/// The record at `id` decodes to a comment: it is a sub-map with
/// integer `from` and `to` and a string `body`.
pub open spec fn comment_decodes(cm: Map<Seq<char>, Slot>, id: Seq<char>) -> bool {
    let sm = sub_map(cm, id);
    &&& has_sub_map(cm, id)
    &&& field_i64(sm, "from"@) is Some
    &&& field_i64(sm, "to"@) is Some
    &&& field_str(sm, "body"@) is Some
}

/// `c` is the comment the record at `id` decodes to; missing author,
/// time, status and replies default to empty, 0, open and none.
pub open spec fn comment_is(c: Comment, cm: Map<Seq<char>, Slot>, id: Seq<char>) -> bool {
    let sm = sub_map(cm, id);
    &&& c.thread_id@ == id
    &&& c.from == i64_or_zero(sm, "from"@) as usize
    &&& c.to == i64_or_zero(sm, "to"@) as usize
    &&& c.body@ == str_or_empty(sm, "body"@)
    &&& c.author@ == str_or_empty(sm, "author"@)
    &&& c.created_at == i64_or_zero(sm, "created_at"@)
    &&& c.status == (if field_str(sm, "status"@) == Some("resolved"@) {
        CommentStatus::Resolved
    } else {
        CommentStatus::Open
    })
    &&& c.replies@.map_values(|x: CommentReply| reply_view(x)) == thread_replies(sm)
}

/// Decodes the comment thread `id` of root map `cid`.
pub fn decode_comment(doc: &LoroDoc, cid: &str, id: &str) -> (r: Option<Comment>)
    ensures
        r is Some <==> comment_decodes(loro_map(*doc, cid@), id@),
        r matches Some(c) ==> comment_is(c, loro_map(*doc, cid@), id@),
{
    if !has_record(doc, cid, id) {
        return None;
    }
    let from = match read_i64(doc, cid, id, "from") {
        Some(v) => v,
        None => return None,
    };
    let to = match read_i64(doc, cid, id, "to") {
        Some(v) => v,
        None => return None,
    };
    let body = match read_str(doc, cid, id, "body") {
        Some(v) => v,
        None => return None,
    };
    let author = match read_str(doc, cid, id, "author") {
        Some(v) => v,
        None => String::new(),
    };
    let created_at = match read_i64(doc, cid, id, "created_at") {
        Some(v) => v,
        None => 0,
    };
    let status = match read_str(doc, cid, id, "status") {
        Some(v) => if chars_eq(chars_of(v.as_str()).as_slice(), chars_of("resolved").as_slice()) {
            CommentStatus::Resolved
        } else {
            CommentStatus::Open
        },
        None => CommentStatus::Open,
    };
    let replies = read_replies(doc, cid, id);
    Some(Comment {
        thread_id: id.to_owned(),
        from: from as usize,
        to: to as usize,
        body,
        author,
        created_at,
        status,
        replies,
    })
}

/// The record at `id` decodes to a suggestion: integer `from`, `to`,
/// string `replacement` and `state`.
pub open spec fn suggestion_decodes(m: Map<Seq<char>, Slot>, id: Seq<char>) -> bool {
    let sm = sub_map(m, id);
    &&& has_sub_map(m, id)
    &&& field_i64(sm, "from"@) is Some
    &&& field_i64(sm, "to"@) is Some
    &&& field_str(sm, "replacement"@) is Some
    &&& field_str(sm, "state"@) is Some
}

/// `s` is the suggestion the record at `id` decodes to.
pub open spec fn suggestion_is(s: Suggestion, m: Map<Seq<char>, Slot>, id: Seq<char>) -> bool {
    let sm = sub_map(m, id);
    &&& s.id@ == id
    &&& s.from == i64_or_zero(sm, "from"@) as usize
    &&& s.to == i64_or_zero(sm, "to"@) as usize
    &&& s.replacement@ == str_or_empty(sm, "replacement"@)
    &&& s.state == spec_str_to_state(str_or_empty(sm, "state"@))
}

/// Decodes the suggestion `id` of root map `cid`.
pub fn decode_suggestion(doc: &LoroDoc, cid: &str, id: &str) -> (r: Option<Suggestion>)
    ensures
        r is Some <==> suggestion_decodes(loro_map(*doc, cid@), id@),
        r matches Some(s) ==> suggestion_is(s, loro_map(*doc, cid@), id@),
{
    if !has_record(doc, cid, id) {
        return None;
    }
    let from = match read_i64(doc, cid, id, "from") {
        Some(v) => v,
        None => return None,
    };
    let to = match read_i64(doc, cid, id, "to") {
        Some(v) => v,
        None => return None,
    };
    let replacement = match read_str(doc, cid, id, "replacement") {
        Some(v) => v,
        None => return None,
    };
    let state = match read_str(doc, cid, id, "state") {
        Some(v) => str_to_state(v.as_str()),
        None => return None,
    };
    Some(Suggestion { id: id.to_owned(), from: from as usize, to: to as usize, replacement, state })
}

/// The record at `id` decodes to a citation: integer `at`, string `key`.
pub open spec fn citation_decodes(m: Map<Seq<char>, Slot>, id: Seq<char>) -> bool {
    let sm = sub_map(m, id);
    &&& has_sub_map(m, id)
    &&& field_i64(sm, "at"@) is Some
    &&& field_str(sm, "key"@) is Some
}

/// `c` is the citation the record at `id` decodes to.
pub open spec fn citation_is(c: Citation, m: Map<Seq<char>, Slot>, id: Seq<char>) -> bool {
    let sm = sub_map(m, id);
    &&& c.id@ == id
    &&& c.at == i64_or_zero(sm, "at"@) as usize
    &&& c.key@ == str_or_empty(sm, "key"@)
}

/// Decodes the citation `id` of root map `cid`.
pub fn decode_citation(doc: &LoroDoc, cid: &str, id: &str) -> (r: Option<Citation>)
    ensures
        r is Some <==> citation_decodes(loro_map(*doc, cid@), id@),
        r matches Some(c) ==> citation_is(c, loro_map(*doc, cid@), id@),
{
    if !has_record(doc, cid, id) {
        return None;
    }
    let at = match read_i64(doc, cid, id, "at") {
        Some(v) => v,
        None => return None,
    };
    let key = match read_str(doc, cid, id, "key") {
        Some(v) => v,
        None => return None,
    };
    Some(Citation { id: id.to_owned(), at: at as usize, key })
}

/// The block a stored footnote entry decodes to: a map value with
/// `kind` and `text` strings (each defaulting), anything else an empty
/// paragraph.
pub open spec fn block_of(v: LVal) -> (BlockKind, Seq<char>) {
    match v {
        LVal::Record(m) => (
            if m.contains_key("kind"@) && m["kind"@] is Str {
                spec_str_to_kind(m["kind"@]->Str_0)
            } else {
                BlockKind::Paragraph
            },
            if m.contains_key("text"@) && m["text"@] is Str {
                m["text"@]->Str_0
            } else {
                Seq::empty()
            },
        ),
        _ => (BlockKind::Paragraph, Seq::empty()),
    }
}

/// The blocks stored under `blocks` when that entry is a list value.
pub open spec fn field_blocks(sm: Map<Seq<char>, Slot>) -> Option<Seq<(BlockKind, Seq<char>)>> {
    if sm.contains_key("blocks"@) && sm["blocks"@] is Val && sm["blocks"@]->Val_0 is List {
        Some(sm["blocks"@]->Val_0->List_0.map_values(|v: LVal| block_of(v)))
    } else {
        None
    }
}

/// The kind and text of a block.
pub open spec fn block_view(b: Block) -> (BlockKind, Seq<char>) {
    (b.kind, b.text@)
}

/// The record at `id` decodes to a footnote: integer `at`, list
/// `blocks`.
pub open spec fn footnote_decodes(m: Map<Seq<char>, Slot>, id: Seq<char>) -> bool {
    let sm = sub_map(m, id);
    &&& has_sub_map(m, id)
    &&& field_i64(sm, "at"@) is Some
    &&& field_blocks(sm) is Some
}

/// `f` is the footnote the record at `id` decodes to.
pub open spec fn footnote_is(f: Footnote, m: Map<Seq<char>, Slot>, id: Seq<char>) -> bool {
    let sm = sub_map(m, id);
    &&& f.id@ == id
    &&& f.at == i64_or_zero(sm, "at"@) as usize
    &&& field_blocks(sm) == Some(f.body.blocks@.map_values(|b: Block| block_view(b)))
}

/// The value stored under `key` in a list of entries (the last one
/// wins, as when they were inserted in order).
fn entries_get<'a>(es: &'a Vec<(String, LValue)>, key: &str) -> (r: Option<&'a LValue>)
    ensures
        match r {
            Some(v) => entries_map_rec(es@).contains_key(key@) && entries_map_rec(es@)[key@] == lvalue_view(*v),
            None => !entries_map_rec(es@).contains_key(key@),
        },
{
    let kc = chars_of(key);
    let mut found: Option<&'a LValue> = None;
    let mut i: usize = 0;
    proof {
        assert(es@.subrange(0, 0) =~= Seq::<(String, LValue)>::empty());
    }
    while i < es.len()
        invariant
            i <= es@.len(),
            kc@ == key@,
            match found {
                Some(v) => entries_map_rec(es@.subrange(0, i as int)).contains_key(key@) && entries_map_rec(
                    es@.subrange(0, i as int),
                )[key@] == lvalue_view(*v),
                None => !entries_map_rec(es@.subrange(0, i as int)).contains_key(key@),
            },
        decreases es@.len() - i,
    {
        proof {
            let s = es@.subrange(0, i as int + 1);
            assert(s.subrange(0, s.len() - 1) =~= es@.subrange(0, i as int));
        }
        if chars_eq(chars_of(es[i].0.as_str()).as_slice(), kc.as_slice()) {
            found = Some(&es[i].1);
        }
        i = i + 1;
    }
    proof {
        assert(es@.subrange(0, es@.len() as int) =~= es@);
    }
    found
}

/// Decodes one stored footnote block.
fn decode_block(v: &LValue) -> (r: Block)
    ensures
        block_view(r) == block_of(lvalue_view(*v)),
{
    match v {
        LValue::Record(es) => {
            let kind = match entries_get(es, "kind") {
                Some(LValue::Str(s)) => str_to_kind(s.as_str()),
                _ => BlockKind::Paragraph,
            };
            let text = match entries_get(es, "text") {
                Some(LValue::Str(s)) => s.clone(),
                _ => String::new(),
            };
            Block { kind, text }
        },
        _ => Block { kind: BlockKind::Paragraph, text: String::new() },
    }
}

/// Decodes the footnote `id` of root map `cid`.
pub fn decode_footnote(doc: &LoroDoc, cid: &str, id: &str) -> (r: Option<Footnote>)
    ensures
        r is Some <==> footnote_decodes(loro_map(*doc, cid@), id@),
        r matches Some(f) ==> footnote_is(f, loro_map(*doc, cid@), id@),
{
    if !has_record(doc, cid, id) {
        return None;
    }
    let at = match read_i64(doc, cid, id, "at") {
        Some(v) => v,
        None => return None,
    };
    let items = match sub_get(doc, cid, id, "blocks") {
        Some(Entry::Value(LValue::List(items))) => items,
        _ => return None,
    };
    let ghost lv = lvalue_view(LValue::List(items))->List_0;
    let mut blocks: Vec<Block> = Vec::new();
    let mut i: usize = 0;
    while i < items.len()
        invariant
            i <= items@.len(),
            blocks@.len() == i,
            forall|j: int| 0 <= j < i ==> block_view(#[trigger] blocks@[j]) == block_of(lvalue_view(items@[j])),
        decreases items@.len() - i,
    {
        blocks.push(decode_block(&items[i]));
        i = i + 1;
    }
    proof {
        assert(lv.len() == items@.len());
        assert forall|j: int| 0 <= j < lv.len() implies lv[j] == lvalue_view(items@[j]) by {}
        assert(blocks@.map_values(|b: Block| block_view(b)) =~= lv.map_values(|v: LVal| block_of(v)));
    }
    Some(Footnote { id: id.to_owned(), at: at as usize, body: BlockTree { blocks } })
}

} // verus!
