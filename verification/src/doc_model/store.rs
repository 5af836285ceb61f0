//! The CRDT store under the document model: the `loro` document, the
//! plain-value model of its contents that the contracts speak of, and
//! the trusted wrappers through which the document model reads and
//! writes it.
//!
//! The model: a root text container holds a character sequence and,
//! per mark key, the set of positions carrying that mark with value
//! `true`; a root movable list holds a sequence of slots; a root map
//! holds a map from keys to slots. A slot is a value or a nested
//! container.

#![allow(deprecated)]

use vstd::prelude::*;

use loro::{Container, ExportMode, LoroDoc, LoroList, LoroMap, LoroValue, TextDelta, ValueOrContainer};

verus! {

/// The `loro` document (opaque; its contents are described by the
/// `loro_*` names below).
#[verifier::external_type_specification]
#[verifier::external_body]
pub struct ExLoroDoc(LoroDoc);

/// A `loro` value (opaque; converted to [`LValue`] on reading).
#[verifier::external_type_specification]
#[verifier::external_body]
pub struct ExLoroValue(LoroValue);

/// A `loro` read result: a value or a container handle (opaque;
/// converted to [`Entry`] on reading).
#[verifier::external_type_specification]
#[verifier::external_body]
pub struct ExValueOrContainer(ValueOrContainer);

/// A `loro` value, as plain data.
pub enum LVal {
    Null,
    Bool(bool),
    I64(i64),
    Str(Seq<char>),
    List(Seq<LVal>),
    Record(Map<Seq<char>, LVal>),
    /// A double, binary or container reference.
    Other,
}

/// One entry of a map or list container: a value or a nested container.
pub enum Slot {
    Val(LVal),
    MapC(Map<Seq<char>, Slot>),
    ListC(Seq<Slot>),
    /// A container of another kind (text, tree, movable list, counter).
    OtherC,
}

/// The characters of the root text container `cid`.
pub uninterp spec fn loro_text(doc: LoroDoc, cid: Seq<char>) -> Seq<char>;

/// The positions of text container `cid` that carry mark `key` with
/// value `true`.
pub uninterp spec fn loro_marks(doc: LoroDoc, cid: Seq<char>, key: Seq<char>) -> Set<int>;

/// The entries of the root movable list `cid`.
pub uninterp spec fn loro_mlist(doc: LoroDoc, cid: Seq<char>) -> Seq<Slot>;

/// The entries of the root map `cid`.
pub uninterp spec fn loro_map(doc: LoroDoc, cid: Seq<char>) -> Map<Seq<char>, Slot>;

/// The document's peer id.
pub uninterp spec fn loro_peer(doc: LoroDoc) -> u64;

/// The document contents a snapshot encodes: its root texts, marks,
/// movable lists and maps.
pub struct Content {
    pub texts: Map<Seq<char>, Seq<char>>,
    pub marks: Map<(Seq<char>, Seq<char>), Set<int>>,
    pub mlists: Map<Seq<char>, Seq<Slot>>,
    pub maps: Map<Seq<char>, Map<Seq<char>, Slot>>,
}

/// The contents of a document.
pub open spec fn content_of(doc: LoroDoc) -> Content {
    Content {
        texts: Map::new(|c: Seq<char>| true, |c: Seq<char>| loro_text(doc, c)),
        marks: Map::new(
            |ck: (Seq<char>, Seq<char>)| true,
            |ck: (Seq<char>, Seq<char>)| loro_marks(doc, ck.0, ck.1),
        ),
        mlists: Map::new(|c: Seq<char>| true, |c: Seq<char>| loro_mlist(doc, c)),
        maps: Map::new(|c: Seq<char>| true, |c: Seq<char>| loro_map(doc, c)),
    }
}

/// What `LoroDoc::from_snapshot` loads from `bytes`: the contents they
/// encode.
pub uninterp spec fn snapshot_content(bytes: Seq<u8>) -> Content;

/// `LoroDoc::from_snapshot` accepts `bytes`.
pub uninterp spec fn snapshot_accepted(bytes: Seq<u8>) -> bool;

/// `LoroDoc::import` of `bytes` into `doc` succeeds.
pub uninterp spec fn import_accepted(doc: LoroDoc, bytes: Seq<u8>) -> bool;

/// The contents of `doc` after `LoroDoc::import` of `bytes` succeeds:
/// the CRDT merge of the document's history with the changes the bytes
/// carry, which `loro` computes from the two alone.
pub uninterp spec fn merged_content(doc: LoroDoc, bytes: Seq<u8>) -> Content;

// ─────────────────────────────────────────────────────────────────
// Frame conditions
// ─────────────────────────────────────────────────────────────────

/// All texts and marks equal.
pub open spec fn same_texts(a: LoroDoc, b: LoroDoc) -> bool {
    &&& forall|c: Seq<char>| #[trigger] loro_text(b, c) == loro_text(a, c)
    &&& forall|c: Seq<char>, k: Seq<char>| #[trigger] loro_marks(b, c, k) == loro_marks(a, c, k)
}

/// Texts and marks equal except those of container `cid`.
pub open spec fn same_texts_except(a: LoroDoc, b: LoroDoc, cid: Seq<char>) -> bool {
    &&& forall|c: Seq<char>| c != cid ==> #[trigger] loro_text(b, c) == loro_text(a, c)
    &&& forall|c: Seq<char>, k: Seq<char>|
        c != cid ==> #[trigger] loro_marks(b, c, k) == loro_marks(a, c, k)
}

/// All movable lists equal.
pub open spec fn same_mlists(a: LoroDoc, b: LoroDoc) -> bool {
    forall|c: Seq<char>| #[trigger] loro_mlist(b, c) == loro_mlist(a, c)
}

/// All maps equal.
pub open spec fn same_maps(a: LoroDoc, b: LoroDoc) -> bool {
    forall|c: Seq<char>| #[trigger] loro_map(b, c) == loro_map(a, c)
}

/// Maps equal except map `cid`.
pub open spec fn same_maps_except(a: LoroDoc, b: LoroDoc, cid: Seq<char>) -> bool {
    forall|c: Seq<char>| c != cid ==> #[trigger] loro_map(b, c) == loro_map(a, c)
}

/// Only text container `cid` may differ (and the peer is kept).
pub open spec fn only_text_changed(a: LoroDoc, b: LoroDoc, cid: Seq<char>) -> bool {
    same_texts_except(a, b, cid) && same_mlists(a, b) && same_maps(a, b) && loro_peer(b)
        == loro_peer(a)
}

/// Only movable list `cid` may differ.
pub open spec fn only_mlist_changed(a: LoroDoc, b: LoroDoc, cid: Seq<char>) -> bool {
    &&& same_texts(a, b)
    &&& forall|c: Seq<char>| c != cid ==> #[trigger] loro_mlist(b, c) == loro_mlist(a, c)
    &&& same_maps(a, b)
    &&& loro_peer(b) == loro_peer(a)
}

/// Only map `cid` may differ.
pub open spec fn only_map_changed(a: LoroDoc, b: LoroDoc, cid: Seq<char>) -> bool {
    same_texts(a, b) && same_mlists(a, b) && same_maps_except(a, b, cid) && loro_peer(b)
        == loro_peer(a)
}

// ─────────────────────────────────────────────────────────────────
// Rich-text mark effects
// ─────────────────────────────────────────────────────────────────

/// Mark positions outside `[p, p + n)` after inserting `n` characters
/// at `p`: earlier positions keep their mark, later ones shift by `n`.
pub open spec fn marks_after_insert(m: Set<int>, p: int, n: int) -> Set<int> {
    Set::new(|i: int| (i < p && m.contains(i)) || (i >= p + n && m.contains(i - n)))
}

/// Mark positions after deleting `[p, p + n)`.
pub open spec fn marks_after_delete(m: Set<int>, p: int, n: int) -> Set<int> {
    Set::new(|i: int| (i < p && m.contains(i)) || (i >= p && m.contains(i + n)))
}

// ─────────────────────────────────────────────────────────────────
// Exec-side values
// ─────────────────────────────────────────────────────────────────

/// A `loro` value as plain executable data.
pub enum LValue {
    Null,
    Bool(bool),
    I64(i64),
    Str(String),
    List(Vec<LValue>),
    /// Entries of a map value, each key once.
    Record(Vec<(String, LValue)>),
    Other,
}

/// The map that a list of distinct-key entries describes.
pub open spec fn entries_map(es: Seq<(String, LValue)>) -> Map<Seq<char>, LVal>
    decreases es.len(),
{
    if es.len() == 0 {
        Map::empty()
    } else {
        entries_map(es.drop_last()).insert(es.last().0@, lvalue_view(es.last().1))
    }
}

/// The plain model of an executable value.
pub open spec fn lvalue_view(v: LValue) -> LVal
    decreases v,
{
    match v {
        LValue::Null => LVal::Null,
        LValue::Bool(b) => LVal::Bool(b),
        LValue::I64(n) => LVal::I64(n),
        LValue::Str(s) => LVal::Str(s@),
        LValue::List(vs) => LVal::List(
            Seq::new(vs@.len(), |i: int| if 0 <= i < vs@.len() { lvalue_view(vs@[i]) } else { LVal::Null }),
        ),
        LValue::Record(es) => LVal::Record(entries_map_rec(es@)),
        LValue::Other => LVal::Other,
    }
}

/// [`entries_map`], defined alongside [`lvalue_view`].
pub open spec fn entries_map_rec(es: Seq<(String, LValue)>) -> Map<Seq<char>, LVal>
    decreases es,
{
    if es.len() == 0 {
        Map::empty()
    } else {
        entries_map_rec(es.subrange(0, es.len() - 1)).insert(
            es[es.len() - 1].0@,
            lvalue_view(es[es.len() - 1].1),
        )
    }
}

/// `v` holds, at some depth, a value of a kind this model does not
/// describe (`Other`); such a value is not written back to `loro`.
pub open spec fn holds_other(v: LValue) -> bool
    decreases v,
{
    match v {
        LValue::Other => true,
        LValue::List(vs) => exists|i: int| 0 <= i < vs@.len() && #[trigger] holds_other(vs@[i]),
        LValue::Record(es) => exists|i: int| 0 <= i < es@.len() && #[trigger] holds_other(es@[i].1),
        _ => false,
    }
}

/// A read entry: a value, or the kind of a nested container.
pub enum Entry {
    Value(LValue),
    MapC,
    ListC,
    OtherC,
}

/// `e` describes slot `s` (containers by kind only).
pub open spec fn entry_matches(e: Entry, s: Slot) -> bool {
    match e {
        Entry::Value(v) => s == Slot::Val(lvalue_view(v)),
        Entry::MapC => s is MapC,
        Entry::ListC => s is ListC,
        Entry::OtherC => s is OtherC,
    }
}

/// `r` describes what `m` holds at `key`.
pub open spec fn read_matches(r: Option<Entry>, m: Map<Seq<char>, Slot>, key: Seq<char>) -> bool {
    match r {
        Some(e) => m.contains_key(key) && entry_matches(e, m[key]),
        None => !m.contains_key(key),
    }
}

/// A segment of a rich-text delta: its text and its attributes (each
/// key once).
pub struct DeltaSeg {
    pub insert: String,
    pub attributes: Vec<(String, LValue)>,
}

/// Concatenated text of delta segments.
pub open spec fn delta_text(d: Seq<DeltaSeg>) -> Seq<char>
    decreases d.len(),
{
    if d.len() == 0 {
        Seq::empty()
    } else {
        delta_text(d.drop_last()) + d.last().insert@
    }
}

/// The attributes of a segment hold `key` with the value `true`.
pub open spec fn seg_marked(attrs: Seq<(String, LValue)>, key: Seq<char>) -> bool {
    exists|j: int| 0 <= j < attrs.len() && (#[trigger] attrs[j]).0@ == key && attrs[j].1 == LValue::Bool(true)
}

/// The attribute keys of a segment are distinct.
pub open spec fn distinct_keys(attrs: Seq<(String, LValue)>) -> bool {
    forall|i: int, j: int| 0 <= i < j < attrs.len() ==> (#[trigger] attrs[i]).0@ != (#[trigger] attrs[j]).0@
}

// ─────────────────────────────────────────────────────────────────
// Converters (plain data <-> loro values)
// ─────────────────────────────────────────────────────────────────

/// Converts a `loro` value to plain data, variant by variant.
#[verifier::external_body]
fn lvalue_from_loro(v: &LoroValue) -> LValue {
    match v {
        LoroValue::Null => LValue::Null,
        LoroValue::Bool(b) => LValue::Bool(*b),
        LoroValue::I64(n) => LValue::I64(*n),
        LoroValue::String(s) => LValue::Str(s.to_string()),
        LoroValue::List(l) => LValue::List(l.iter().map(lvalue_from_loro).collect()),
        LoroValue::Map(m) => LValue::Record(m.iter().map(|(k, x)| (k.clone(), lvalue_from_loro(x))).collect()),
        _ => LValue::Other,
    }
}

/// Converts plain data to a `loro` value, variant by variant.
#[verifier::external_body]
fn lvalue_to_loro(v: &LValue) -> LoroValue {
    match v {
        LValue::Null | LValue::Other => LoroValue::Null,
        LValue::Bool(b) => LoroValue::Bool(*b),
        LValue::I64(n) => LoroValue::I64(*n),
        LValue::Str(s) => LoroValue::String(s.as_str().into()),
        LValue::List(l) => LoroValue::List(l.iter().map(lvalue_to_loro).collect::<Vec<_>>().into()),
        LValue::Record(es) => LoroValue::Map(es.iter().map(|(k, x)| (k.clone(), lvalue_to_loro(x))).collect::<std::collections::HashMap<_, _>>().into()),
    }
}

/// Converts a read `loro` entry: a value, or a container's kind.
#[verifier::external_body]
fn entry_from_loro(v: &ValueOrContainer) -> Entry {
    match v {
        ValueOrContainer::Value(x) => Entry::Value(lvalue_from_loro(x)),
        ValueOrContainer::Container(Container::Map(_)) => Entry::MapC,
        ValueOrContainer::Container(Container::List(_)) => Entry::ListC,
        ValueOrContainer::Container(_) => Entry::OtherC,
    }
}

// ─────────────────────────────────────────────────────────────────
// Document
// ─────────────────────────────────────────────────────────────────

/// Every container of `d` is empty.
pub open spec fn is_empty_doc(d: LoroDoc) -> bool {
    &&& forall|c: Seq<char>| #[trigger] loro_text(d, c) == Seq::<char>::empty()
    &&& forall|c: Seq<char>, k: Seq<char>| #[trigger] loro_marks(d, c, k) == Set::<int>::empty()
    &&& forall|c: Seq<char>| #[trigger] loro_mlist(d, c) == Seq::<Slot>::empty()
    &&& forall|c: Seq<char>| #[trigger] loro_map(d, c) == Map::<Seq<char>, Slot>::empty()
}

/// `LoroDoc::new`: a document with every container empty.
#[verifier::external_body]
pub(crate) fn doc_new() -> (doc: LoroDoc)
    ensures
        is_empty_doc(doc),
{
    LoroDoc::new()
}

/// `LoroDoc::peer_id`.
#[verifier::external_body]
pub(crate) fn doc_peer_id(doc: &LoroDoc) -> (r: u64)
    ensures
        r == loro_peer(*doc),
{
    doc.peer_id()
}

/// `LoroDoc::export(ExportMode::Snapshot)` succeeds on `doc` (it refuses
/// a document whose history holds a change block it cannot parse).
pub uninterp spec fn snapshot_exportable(doc: LoroDoc) -> bool;

/// `LoroDoc::commit` followed by `LoroDoc::export(ExportMode::Snapshot)`:
/// when the export succeeds, a snapshot that encodes the document's
/// contents and that `LoroDoc::from_snapshot` accepts.
#[verifier::external_body]
pub(crate) fn doc_export_snapshot(doc: &LoroDoc) -> (r: Option<Vec<u8>>)
    ensures
        r is Some <==> snapshot_exportable(*doc),
        r matches Some(b) ==> snapshot_accepted(b@) && snapshot_content(b@) == content_of(*doc),
{
    doc.commit();
    doc.export(ExportMode::Snapshot).ok()
}

/// `LoroDoc::from_snapshot`: on success, a document holding the contents
/// the snapshot encodes.
/// Whether `loro`'s decoder can panic on some malformed bytes is left
/// open: nothing here catches such a panic.
#[verifier::external_body]
pub(crate) fn doc_from_snapshot(bytes: &[u8]) -> (r: Option<LoroDoc>)
    ensures
        r is Some <==> snapshot_accepted(bytes@),
        r matches Some(d) ==> content_of(d) == snapshot_content(bytes@),
{
    LoroDoc::from_snapshot(bytes).ok()
}

/// Whether `LoroDoc::from_snapshot` accepts `bytes` (the document it
/// builds is dropped).
/// Whether `loro`'s decoder can panic on some malformed bytes is left
/// open: nothing here catches such a panic.
#[verifier::external_body]
pub(crate) fn snapshot_loads(bytes: &[u8]) -> (r: bool)
    ensures
        r == snapshot_accepted(bytes@),
{
    LoroDoc::from_snapshot(bytes).is_ok()
}

/// `LoroDoc::import`: succeeds exactly when the import is accepted, and
/// then the document holds the merged contents (named, not spelled out:
/// they are the CRDT merge) and keeps its peer id. What a refused import
/// leaves behind is not stated.
/// Whether `loro`'s decoder can panic on some malformed bytes is left
/// open: nothing here catches such a panic.
#[verifier::external_body]
pub(crate) fn doc_import(doc: &mut LoroDoc, bytes: &[u8]) -> (r: bool)
    ensures
        r == import_accepted(*old(doc), bytes@),
        r ==> content_of(*final(doc)) == merged_content(*old(doc), bytes@),
        r ==> loro_peer(*final(doc)) == loro_peer(*old(doc)),
{
    doc.import(bytes).is_ok()
}

// ─────────────────────────────────────────────────────────────────
// Text containers
// ─────────────────────────────────────────────────────────────────

/// `LoroText::len_unicode` of root text `cid`.
#[verifier::external_body]
pub(crate) fn text_len(doc: &LoroDoc, cid: &str) -> (r: usize)
    ensures
        r == loro_text(*doc, cid@).len(),
{
    doc.get_text(cid).len_unicode()
}

/// `LoroText::to_string` of root text `cid` (a `String` holds at most
/// `isize::MAX` bytes, so at most that many codepoints).
#[verifier::external_body]
pub(crate) fn text_string(doc: &LoroDoc, cid: &str) -> (r: String)
    ensures
        r@ == loro_text(*doc, cid@),
        r@.len() <= isize::MAX,
        vstd::utf8::encode_utf8(r@).len() <= isize::MAX,
{
    doc.get_text(cid).to_string()
}

/// `LoroText::insert` at a codepoint position within the text.
#[verifier::external_body]
pub(crate) fn text_insert(doc: &mut LoroDoc, cid: &str, pos: usize, s: &str)
    requires
        pos <= loro_text(*old(doc), cid@).len(),
    ensures
        loro_text(*final(doc), cid@) == loro_text(*old(doc), cid@).subrange(0, pos as int) + s@
            + loro_text(*old(doc), cid@).subrange(pos as int, loro_text(*old(doc), cid@).len() as int),
        forall|k: Seq<char>, i: int|
            !(pos <= i < pos + s@.len()) ==> (#[trigger] loro_marks(*final(doc), cid@, k).contains(i)
                <==> marks_after_insert(loro_marks(*old(doc), cid@, k), pos as int, s@.len() as int).contains(i)),
        only_text_changed(*old(doc), *final(doc), cid@),
{
    doc.get_text(cid).insert(pos, s).expect("insert within the text succeeds")
}

/// `LoroText::delete` of `len` codepoints at `pos`, within the text.
#[verifier::external_body]
pub(crate) fn text_delete(doc: &mut LoroDoc, cid: &str, pos: usize, len: usize)
    requires
        pos + len <= loro_text(*old(doc), cid@).len(),
    ensures
        loro_text(*final(doc), cid@) == loro_text(*old(doc), cid@).subrange(0, pos as int)
            + loro_text(*old(doc), cid@).subrange(pos + len, loro_text(*old(doc), cid@).len() as int),
        forall|k: Seq<char>|
            #[trigger] loro_marks(*final(doc), cid@, k) == marks_after_delete(
                loro_marks(*old(doc), cid@, k),
                pos as int,
                len as int,
            ),
        only_text_changed(*old(doc), *final(doc), cid@),
{
    doc.get_text(cid).delete(pos, len).expect("delete within the text succeeds")
}

/// `LoroText::mark` of a non-empty range with `key = true`: the range
/// gains the mark; the text and other keys are unchanged. Only the keys
/// `bold` and `italic` are admitted: `loro` refuses a key its default
/// text-style configuration does not hold.
#[verifier::external_body]
pub(crate) fn text_mark(doc: &mut LoroDoc, cid: &str, start: usize, end: usize, key: &str)
    requires
        start < end <= loro_text(*old(doc), cid@).len(),
        key@ == "bold"@ || key@ == "italic"@,
    ensures
        loro_text(*final(doc), cid@) == loro_text(*old(doc), cid@),
        loro_marks(*final(doc), cid@, key@) == loro_marks(*old(doc), cid@, key@).union(
            Set::new(|i: int| start <= i < end),
        ),
        forall|k: Seq<char>|
            k != key@ ==> #[trigger] loro_marks(*final(doc), cid@, k) == loro_marks(*old(doc), cid@, k),
        only_text_changed(*old(doc), *final(doc), cid@),
{
    doc.get_text(cid).mark(start..end, key, true).expect("mark of a non-empty range succeeds")
}

/// `LoroText::to_delta`: segments whose texts concatenate to the text,
/// each segment's attributes holding a mark key with `true` exactly on
/// the positions that carry that mark.
#[verifier::external_body]
pub(crate) fn text_delta(doc: &LoroDoc, cid: &str) -> (r: Vec<DeltaSeg>)
    ensures
        delta_text(r@) == loro_text(*doc, cid@),
        forall|k: int| 0 <= k < r@.len() ==> distinct_keys((#[trigger] r@[k]).attributes@),
        forall|k: int, p: int, key: Seq<char>|
            0 <= k < r@.len() && delta_text(r@.subrange(0, k)).len() <= p < delta_text(
                r@.subrange(0, k + 1),
            ).len() ==> (seg_marked(#[trigger] r@[k].attributes@, key) <==> #[trigger] loro_marks(
                *doc,
                cid@,
                key,
            ).contains(p)),
{
    doc.get_text(cid).to_delta().into_iter().filter_map(|seg| match seg {
        TextDelta::Insert { insert, attributes } => Some(DeltaSeg {
            insert,
            attributes: attributes.map(|a| a.iter().map(|(k, v)| (k.clone(), lvalue_from_loro(v))).collect()).unwrap_or_default(),
        }),
        _ => None,
    }).collect()
}

// ─────────────────────────────────────────────────────────────────
// Movable lists
// ─────────────────────────────────────────────────────────────────

/// `LoroMovableList::len` of root list `cid`.
#[verifier::external_body]
pub(crate) fn mlist_len(doc: &LoroDoc, cid: &str) -> (r: usize)
    ensures
        r == loro_mlist(*doc, cid@).len(),
{
    doc.get_movable_list(cid).len()
}

/// `LoroMovableList::get`.
#[verifier::external_body]
pub(crate) fn mlist_get(doc: &LoroDoc, cid: &str, idx: usize) -> (r: Option<Entry>)
    ensures
        match r {
            Some(e) => idx < loro_mlist(*doc, cid@).len() && entry_matches(e, loro_mlist(*doc, cid@)[idx as int]),
            None => idx >= loro_mlist(*doc, cid@).len(),
        },
{
    doc.get_movable_list(cid).get(idx).map(|v| entry_from_loro(&v))
}

/// `LoroMovableList::insert` of a string value at a position within
/// the list (the end included).
#[verifier::external_body]
pub(crate) fn mlist_insert_str(doc: &mut LoroDoc, cid: &str, idx: usize, s: &str)
    requires
        idx <= loro_mlist(*old(doc), cid@).len(),
    ensures
        loro_mlist(*final(doc), cid@) == loro_mlist(*old(doc), cid@).insert(idx as int, Slot::Val(LVal::Str(s@))),
        only_mlist_changed(*old(doc), *final(doc), cid@),
{
    doc.get_movable_list(cid).insert(idx, s).expect("insert within the list succeeds")
}

/// `LoroMovableList::push` of a string value.
#[verifier::external_body]
pub(crate) fn mlist_push_str(doc: &mut LoroDoc, cid: &str, s: &str)
    ensures
        loro_mlist(*final(doc), cid@) == loro_mlist(*old(doc), cid@).push(Slot::Val(LVal::Str(s@))),
        only_mlist_changed(*old(doc), *final(doc), cid@),
{
    doc.get_movable_list(cid).push(s).expect("push onto a list succeeds")
}

/// `LoroMovableList::delete` of one entry within the list.
#[verifier::external_body]
pub(crate) fn mlist_delete_one(doc: &mut LoroDoc, cid: &str, idx: usize)
    requires
        idx < loro_mlist(*old(doc), cid@).len(),
    ensures
        loro_mlist(*final(doc), cid@) == loro_mlist(*old(doc), cid@).remove(idx as int),
        only_mlist_changed(*old(doc), *final(doc), cid@),
{
    doc.get_movable_list(cid).delete(idx, 1).expect("delete within the list succeeds")
}

// ─────────────────────────────────────────────────────────────────
// Maps
// ─────────────────────────────────────────────────────────────────

/// `LoroMap::keys` of root map `cid`: each key once.
#[verifier::external_body]
pub(crate) fn map_keys(doc: &LoroDoc, cid: &str) -> (r: Vec<String>)
    ensures
        forall|i: int| 0 <= i < r@.len() ==> loro_map(*doc, cid@).contains_key((#[trigger] r@[i])@),
        forall|k: Seq<char>| #[trigger] loro_map(*doc, cid@).contains_key(k) ==> exists|i: int| 0 <= i < r@.len() && (#[trigger] r@[i])@ == k,
        forall|i: int, j: int| 0 <= i < j < r@.len() ==> (#[trigger] r@[i])@ != (#[trigger] r@[j])@,
{
    doc.get_map(cid).keys().map(|k| k.to_string()).collect()
}

/// `LoroMap::get` on root map `cid`.
#[verifier::external_body]
pub(crate) fn map_get(doc: &LoroDoc, cid: &str, key: &str) -> (r: Option<Entry>)
    ensures
        read_matches(r, loro_map(*doc, cid@), key@),
{
    doc.get_map(cid).get(key).map(|v| entry_from_loro(&v))
}

/// `LoroMap::insert` of a value into root map `cid`. A value holding
/// `Other` is not admitted: the conversion would store `null` for it.
#[verifier::external_body]
pub(crate) fn map_insert(doc: &mut LoroDoc, cid: &str, key: &str, v: &LValue)
    requires
        !holds_other(*v),
    ensures
        loro_map(*final(doc), cid@) == loro_map(*old(doc), cid@).insert(key@, Slot::Val(lvalue_view(*v))),
        only_map_changed(*old(doc), *final(doc), cid@),
{
    doc.get_map(cid).insert(key, lvalue_to_loro(v)).expect("map insert succeeds")
}

/// The root entry at `key` is absent, null or a map container, so
/// `get_or_create_container` with a map succeeds.
pub open spec fn map_slot_ok(m: Map<Seq<char>, Slot>, key: Seq<char>) -> bool {
    !m.contains_key(key) || m[key] is MapC || m[key] == Slot::Val(LVal::Null)
}

/// `LoroMap::get_or_create_container` with a new map on root map `cid`:
/// an existing map container is kept, otherwise an empty one is created.
#[verifier::external_body]
pub(crate) fn map_ensure_map(doc: &mut LoroDoc, cid: &str, key: &str)
    requires
        map_slot_ok(loro_map(*old(doc), cid@), key@),
    ensures
        loro_map(*final(doc), cid@) == (if loro_map(*old(doc), cid@).contains_key(key@) && loro_map(*old(doc), cid@)[key@] is MapC {
            loro_map(*old(doc), cid@)
        } else {
            loro_map(*old(doc), cid@).insert(key@, Slot::MapC(Map::empty()))
        }),
        only_map_changed(*old(doc), *final(doc), cid@),
{
    doc.get_map(cid).get_or_create_container(key, LoroMap::new()).expect("the key holds no other value");
}

/// The sub-map at `key` of map `m` (empty when absent or not a map).
pub open spec fn sub_map(m: Map<Seq<char>, Slot>, key: Seq<char>) -> Map<Seq<char>, Slot> {
    if m.contains_key(key) && m[key] is MapC {
        m[key]->MapC_0
    } else {
        Map::empty()
    }
}

/// `m` holds a map container at `key`.
pub open spec fn has_sub_map(m: Map<Seq<char>, Slot>, key: Seq<char>) -> bool {
    m.contains_key(key) && m[key] is MapC
}

/// `LoroMap::get` on the map container at `key` of root map `cid`.
#[verifier::external_body]
pub(crate) fn sub_get(doc: &LoroDoc, cid: &str, key: &str, field: &str) -> (r: Option<Entry>)
    requires
        has_sub_map(loro_map(*doc, cid@), key@),
    ensures
        read_matches(r, sub_map(loro_map(*doc, cid@), key@), field@),
{
    match doc.get_map(cid).get(key) {
        Some(ValueOrContainer::Container(Container::Map(m))) => m.get(field).map(|v| entry_from_loro(&v)),
        _ => None,
    }
}

/// `LoroMap::insert` of a value into the map container at `key` of
/// root map `cid`.
#[verifier::external_body]
pub(crate) fn sub_insert(doc: &mut LoroDoc, cid: &str, key: &str, field: &str, v: &LValue)
    requires
        !holds_other(*v),
        has_sub_map(loro_map(*old(doc), cid@), key@),
    ensures
        loro_map(*final(doc), cid@) == loro_map(*old(doc), cid@).insert(
            key@,
            Slot::MapC(sub_map(loro_map(*old(doc), cid@), key@).insert(field@, Slot::Val(lvalue_view(*v)))),
        ),
        only_map_changed(*old(doc), *final(doc), cid@),
{
    if let Some(ValueOrContainer::Container(Container::Map(m))) = doc.get_map(cid).get(key) {
        m.insert(field, lvalue_to_loro(v)).expect("map insert succeeds");
    }
}

/// The list container at `field` of sub-map `sm` (empty when absent or
/// not a list).
pub open spec fn sub_list(sm: Map<Seq<char>, Slot>, field: Seq<char>) -> Seq<Slot> {
    if sm.contains_key(field) && sm[field] is ListC {
        sm[field]->ListC_0
    } else {
        Seq::empty()
    }
}

/// `LoroMap::get_or_create_container` with a new list, on the map
/// container at `key` of root map `cid`.
#[verifier::external_body]
pub(crate) fn sub_ensure_list(doc: &mut LoroDoc, cid: &str, key: &str, field: &str)
    requires
        has_sub_map(loro_map(*old(doc), cid@), key@),
        ({
            let sm = sub_map(loro_map(*old(doc), cid@), key@);
            !sm.contains_key(field@) || sm[field@] is ListC || sm[field@] == Slot::Val(LVal::Null)
        }),
    ensures
        ({
            let sm = sub_map(loro_map(*old(doc), cid@), key@);
            loro_map(*final(doc), cid@) == (if sm.contains_key(field@) && sm[field@] is ListC {
                loro_map(*old(doc), cid@)
            } else {
                loro_map(*old(doc), cid@).insert(key@, Slot::MapC(sm.insert(field@, Slot::ListC(Seq::empty()))))
            })
        }),
        only_map_changed(*old(doc), *final(doc), cid@),
{
    if let Some(ValueOrContainer::Container(Container::Map(m))) = doc.get_map(cid).get(key) {
        m.get_or_create_container(field, LoroList::new()).expect("the field holds no other value");
    }
}

/// `LoroList::push_container` of a new map onto the list at `field` of
/// the map container at `key` of root map `cid`.
#[verifier::external_body]
pub(crate) fn sub_list_push_map(doc: &mut LoroDoc, cid: &str, key: &str, field: &str)
    requires
        has_sub_map(loro_map(*old(doc), cid@), key@),
        has_sub_list(sub_map(loro_map(*old(doc), cid@), key@), field@),
    ensures
        ({
            let sm = sub_map(loro_map(*old(doc), cid@), key@);
            loro_map(*final(doc), cid@) == loro_map(*old(doc), cid@).insert(
                key@,
                Slot::MapC(sm.insert(field@, Slot::ListC(sub_list(sm, field@).push(Slot::MapC(Map::empty()))))),
            )
        }),
        only_map_changed(*old(doc), *final(doc), cid@),
{
    if let Some(ValueOrContainer::Container(Container::Map(m))) = doc.get_map(cid).get(key) {
        if let Some(ValueOrContainer::Container(Container::List(l))) = m.get(field) {
            l.push_container(LoroMap::new()).expect("push onto a list succeeds");
        }
    }
}

/// `sm` holds a list container at `field`.
pub open spec fn has_sub_list(sm: Map<Seq<char>, Slot>, field: Seq<char>) -> bool {
    sm.contains_key(field) && sm[field] is ListC
}

/// `LoroList::len` of the list at `field` of the map at `key`.
#[verifier::external_body]
pub(crate) fn sub_list_len(doc: &LoroDoc, cid: &str, key: &str, field: &str) -> (r: usize)
    requires
        has_sub_map(loro_map(*doc, cid@), key@),
        has_sub_list(sub_map(loro_map(*doc, cid@), key@), field@),
    ensures
        r == sub_list(sub_map(loro_map(*doc, cid@), key@), field@).len(),
{
    match doc.get_map(cid).get(key) {
        Some(ValueOrContainer::Container(Container::Map(m))) => match m.get(field) {
            Some(ValueOrContainer::Container(Container::List(l))) => l.len(),
            _ => 0,
        },
        _ => 0,
    }
}

/// The map container at index `idx` of list `l` (empty when not a map).
pub open spec fn item_map(l: Seq<Slot>, idx: int) -> Map<Seq<char>, Slot> {
    if 0 <= idx < l.len() && l[idx] is MapC {
        l[idx]->MapC_0
    } else {
        Map::empty()
    }
}

/// `LoroList::get` at `idx` of the list at `field` of the map at `key`.
#[verifier::external_body]
pub(crate) fn sub_list_get(doc: &LoroDoc, cid: &str, key: &str, field: &str, idx: usize) -> (r: Option<Entry>)
    requires
        has_sub_map(loro_map(*doc, cid@), key@),
        has_sub_list(sub_map(loro_map(*doc, cid@), key@), field@),
    ensures
        ({
            let l = sub_list(sub_map(loro_map(*doc, cid@), key@), field@);
            match r {
                Some(e) => idx < l.len() && entry_matches(e, l[idx as int]),
                None => idx >= l.len(),
            }
        }),
{
    match doc.get_map(cid).get(key) {
        Some(ValueOrContainer::Container(Container::Map(m))) => match m.get(field) {
            Some(ValueOrContainer::Container(Container::List(l))) => l.get(idx).map(|v| entry_from_loro(&v)),
            _ => None,
        },
        _ => None,
    }
}

/// `LoroMap::get` on the map at index `idx` of that list.
#[verifier::external_body]
pub(crate) fn sub_list_item_get(doc: &LoroDoc, cid: &str, key: &str, field: &str, idx: usize, item_field: &str) -> (r: Option<Entry>)
    requires
        has_sub_map(loro_map(*doc, cid@), key@),
        has_sub_list(sub_map(loro_map(*doc, cid@), key@), field@),
        idx < sub_list(sub_map(loro_map(*doc, cid@), key@), field@).len(),
        sub_list(sub_map(loro_map(*doc, cid@), key@), field@)[idx as int] is MapC,
    ensures
        read_matches(r, item_map(sub_list(sub_map(loro_map(*doc, cid@), key@), field@), idx as int), item_field@),
{
    match doc.get_map(cid).get(key) {
        Some(ValueOrContainer::Container(Container::Map(m))) => match m.get(field) {
            Some(ValueOrContainer::Container(Container::List(l))) => match l.get(idx) {
                Some(ValueOrContainer::Container(Container::Map(im))) => im.get(item_field).map(|v| entry_from_loro(&v)),
                _ => None,
            },
            _ => None,
        },
        _ => None,
    }
}

/// `LoroMap::insert` into the map at index `idx` of that list.
#[verifier::external_body]
pub(crate) fn sub_list_item_insert(doc: &mut LoroDoc, cid: &str, key: &str, field: &str, idx: usize, item_field: &str, v: &LValue)
    requires
        !holds_other(*v),
        has_sub_map(loro_map(*old(doc), cid@), key@),
        has_sub_list(sub_map(loro_map(*old(doc), cid@), key@), field@),
        idx < sub_list(sub_map(loro_map(*old(doc), cid@), key@), field@).len(),
        sub_list(sub_map(loro_map(*old(doc), cid@), key@), field@)[idx as int] is MapC,
    ensures
        ({
            let sm = sub_map(loro_map(*old(doc), cid@), key@);
            let l = sub_list(sm, field@);
            loro_map(*final(doc), cid@) == loro_map(*old(doc), cid@).insert(
                key@,
                Slot::MapC(sm.insert(field@, Slot::ListC(l.update(idx as int, Slot::MapC(item_map(l, idx as int).insert(item_field@, Slot::Val(lvalue_view(*v)))))))),
            )
        }),
        only_map_changed(*old(doc), *final(doc), cid@),
{
    if let Some(ValueOrContainer::Container(Container::Map(m))) = doc.get_map(cid).get(key) {
        if let Some(ValueOrContainer::Container(Container::List(l))) = m.get(field) {
            if let Some(ValueOrContainer::Container(Container::Map(im))) = l.get(idx) {
                im.insert(item_field, lvalue_to_loro(v)).expect("map insert succeeds");
            }
        }
    }
}

} // verus!
