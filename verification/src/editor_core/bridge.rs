//! The documents a host has open, each under a handle, and the calls the
//! host makes on them. A handle that was never handed out, or whose
//! document was closed, is an unknown document.

use std::collections::HashMap;

use vstd::prelude::*;

use crate::doc_model::document::op_effect;
use crate::doc_model::lines::lines;
use crate::doc_model::store::{content_of, snapshot_accepted, snapshot_content, snapshot_exportable};
use crate::doc_model::{Doc, EditOp as DocOp, Error as DocError};
use crate::editor_core::dispatch::{apply, edit_op_kind, failed_as, spec_op_kind};
use crate::editor_core::find::{find as find_in, match_pairs, spec_find, FindOptions, Match};
use crate::editor_core::{apply_op as apply_byte_op, byte_edit_effect, DocId, EditOp, Error};

verus! {

/// What applying `op` through the bridge returns: the document changed
/// as the op says, and a document error comes back as `EditOpFailed`
/// naming the op's kind and carrying the error's message.
pub open spec fn applied(o: Doc, n: Doc, op: DocOp, r: Result<(), Error>) -> bool {
    exists|res: Result<(), DocError>|
        #![trigger op_effect(o, n, op, res)]
        op_effect(o, n, op, res) && match res {
            Ok(()) => r is Ok,
            Err(de) => r is Err && failed_as(r->Err_0, spec_op_kind(op), de),
        }
}

/// Applies a document edit op, reporting a document error as
/// `EditOpFailed`; the op must be admitted (see [`Doc::admits_op`]).
pub fn apply_edit_to(doc: &mut Doc, op: DocOp) -> (r: Result<(), Error>)
    requires
        old(doc).admits(op),
    ensures
        applied(*old(doc), *final(doc), op, r),
{
    let kind = edit_op_kind(&op);
    apply(doc, op, kind)
}

/// The reason given when snapshot bytes do not load.
pub open spec fn bad_snapshot_reason() -> Seq<char> {
    "snapshot bytes are not a valid Loro CRDT snapshot"@
}

/// `r` is the error for the unknown handle `id`.
pub open spec fn unknown(r: Error, id: DocId) -> bool {
    r matches Error::UnknownDoc(i) && i == id
}

/// The open documents, by raw handle, and the next handle to give out.
pub struct Registry {
    docs: HashMap<u64, Doc>,
    next_id: u64,
}

impl Registry {
    /// The open documents, by raw handle.
    pub closed spec fn docs(self) -> Map<u64, Doc> {
        self.docs@
    }

    /// The raw value of the next handle.
    pub closed spec fn next_id(self) -> u64 {
        self.next_id
    }

    /// Handles start at 1 and every open one is below the next.
    pub open spec fn wf(self) -> bool {
        &&& 1 <= self.next_id()
        &&& forall|k: u64| #[trigger] self.docs().contains_key(k) ==> 1 <= k < self.next_id()
    }

    /// `id` names an open document.
    pub open spec fn has(self, id: DocId) -> bool {
        self.docs().contains_key(id.0)
    }

    /// The open document under `id`.
    pub open spec fn get(self, id: DocId) -> Doc {
        self.docs()[id.0]
    }

    /// No documents; the first handle is 1.
    pub fn new() -> (r: Registry)
        ensures
            r.wf(),
            r.docs() == Map::<u64, Doc>::empty(),
            r.next_id() == 1,
    {
        Registry { docs: HashMap::new(), next_id: 1 }
    }

    /// Whether another handle can be given out.
    pub fn can_register(&self) -> (r: bool)
        ensures
            r == (self.next_id() < u64::MAX),
    {
        self.next_id < u64::MAX
    }

    /// Opens `doc` under a fresh handle: the next one, which no open
    /// document holds.
    pub fn register(&mut self, doc: Doc) -> (id: DocId)
        requires
            old(self).wf(),
            old(self).next_id() < u64::MAX,
        ensures
            final(self).wf(),
            id.0 == old(self).next_id(),
            !old(self).has(id),
            final(self).docs() == old(self).docs().insert(id.0, doc),
            final(self).next_id() == old(self).next_id() + 1,
    {
        let raw = self.next_id;
        self.next_id = raw + 1;
        self.docs.insert(raw, doc);
        proof {
            assert forall|k: u64| #[trigger] final(self).docs().contains_key(k) implies 1 <= k < final(self).next_id() by {
                if k != raw {
                    assert(old(self).docs().contains_key(k));
                }
            }
        }
        DocId(raw)
    }

    /// Opens a fresh empty document.
    pub fn create_doc(&mut self) -> (id: DocId)
        requires
            old(self).wf(),
            old(self).next_id() < u64::MAX,
        ensures
            final(self).wf(),
            id.0 == old(self).next_id(),
            !old(self).has(id),
            final(self).has(id),
            final(self).get(id).body() == Seq::<char>::empty(),
            final(self).docs().remove(id.0) == old(self).docs(),
            final(self).next_id() == old(self).next_id() + 1,
    {
        let id = self.register(Doc::new());
        proof {
            assert(final(self).docs().remove(id.0) =~= old(self).docs());
        }
        id
    }

    /// Closes the document under `id`.
    pub fn close_doc(&mut self, id: DocId) -> (r: Result<(), Error>)
        requires
            old(self).wf(),
        ensures
            final(self).wf(),
            final(self).next_id() == old(self).next_id(),
            old(self).has(id) ==> r is Ok && final(self).docs() == old(self).docs().remove(id.0),
            !old(self).has(id) ==> r is Err && unknown(r->Err_0, id) && final(self).docs() == old(self).docs(),
    {
        let r = match self.docs.remove(&id.0) {
            Some(_) => Ok(()),
            None => Err(Error::UnknownDoc(id)),
        };
        proof {
            assert forall|k: u64| #[trigger] final(self).docs().contains_key(k) implies 1 <= k < final(self).next_id() by {
                assert(old(self).docs().contains_key(k));
            }
        }
        r
    }

    /// The document under `id`.
    pub fn doc(&self, id: DocId) -> (r: Result<&Doc, Error>)
        ensures
            self.has(id) ==> (r matches Ok(d) && *d == self.get(id)),
            !self.has(id) ==> r is Err && unknown(r->Err_0, id),
    {
        match self.docs.get(&id.0) {
            Some(d) => Ok(d),
            None => Err(Error::UnknownDoc(id)),
        }
    }

    /// The text of the document under `id`.
    pub fn doc_text(&self, id: DocId) -> (r: Result<String, Error>)
        ensures
            self.has(id) ==> (r matches Ok(s) && s@ == self.get(id).body()),
            !self.has(id) ==> r is Err && unknown(r->Err_0, id),
    {
        match self.doc(id) {
            Ok(d) => Ok(d.text()),
            Err(e) => Err(e),
        }
    }

    /// The matches of `needle` in the text of the document under `id`.
    pub fn find(&self, id: DocId, needle: &str, opts: FindOptions) -> (r: Result<Vec<Match>, Error>)
        ensures
            self.has(id) ==> (r matches Ok(v) && match_pairs(v@) == spec_find(self.get(id).body(), needle@, opts)),
            !self.has(id) ==> r is Err && unknown(r->Err_0, id),
    {
        match self.doc(id) {
            Ok(d) => {
                let text = d.text();
                Ok(find_in(text.as_str(), needle, opts))
            },
            Err(e) => Err(e),
        }
    }

    /// A snapshot of the document under `id`, whose export must succeed.
    pub fn snapshot(&self, id: DocId) -> (r: Result<Vec<u8>, Error>)
        requires
            self.has(id) ==> snapshot_exportable(self.get(id).store()),
        ensures
            self.has(id) ==> (r matches Ok(b) && snapshot_accepted(b@) && snapshot_content(b@) == content_of(
                self.get(id).store(),
            )),
            !self.has(id) ==> r is Err && unknown(r->Err_0, id),
    {
        match self.doc(id) {
            Ok(d) => Ok(d.snapshot()),
            Err(e) => Err(e),
        }
    }

    /// The number of blocks of the document under `id`.
    pub fn block_count(&self, id: DocId) -> (r: Result<usize, Error>)
        ensures
            self.has(id) ==> (r matches Ok(n) && n == lines(self.get(id).body()).len()),
            !self.has(id) ==> r is Err && unknown(r->Err_0, id),
    {
        match self.doc(id) {
            Ok(d) => Ok(d.block_count()),
            Err(e) => Err(e),
        }
    }

    /// Opens a document restored from `snapshot`; bytes that do not load
    /// are refused and nothing is opened.
    pub fn restore_from_snapshot(&mut self, snapshot: &[u8]) -> (r: Result<DocId, Error>)
        requires
            old(self).wf(),
            old(self).next_id() < u64::MAX,
        ensures
            final(self).wf(),
            snapshot_accepted(snapshot@) ==> (r matches Ok(id) && id.0 == old(self).next_id() && !old(self).has(id)
                && final(self).has(id) && content_of(final(self).get(id).store()) == snapshot_content(snapshot@)
                && final(self).docs().remove(id.0) == old(self).docs() && final(self).next_id()
                == old(self).next_id() + 1),
            !snapshot_accepted(snapshot@) ==> (r matches Err(Error::SerializeFailed { reason }) && reason@
                == bad_snapshot_reason() && *final(self) == *old(self)),
    {
        match Doc::try_from_snapshot(snapshot) {
            Some(doc) => {
                let id = self.register(doc);
                proof {
                    assert(final(self).docs().remove(id.0) =~= old(self).docs());
                }
                Ok(id)
            },
            None => Err(Error::SerializeFailed { reason: "snapshot bytes are not a valid Loro CRDT snapshot".to_string() }),
        }
    }

    /// Applies a byte-offset edit to the document under `id` (see
    /// [`byte_edit_effect`]); no other document changes.
    pub fn apply_op(&mut self, id: DocId, op: EditOp) -> (r: Result<(), Error>)
        requires
            old(self).wf(),
        ensures
            final(self).wf(),
            final(self).next_id() == old(self).next_id(),
            old(self).has(id) ==> final(self).has(id) && byte_edit_effect(old(self).get(id), final(self).get(id), op, r)
                && final(self).docs() == old(self).docs().insert(id.0, final(self).get(id)),
            !old(self).has(id) ==> r is Err && unknown(r->Err_0, id) && final(self).docs() == old(self).docs(),
    {
        match self.docs.remove(&id.0) {
            Some(mut doc) => {
                let r = apply_byte_op(&mut doc, op);
                self.docs.insert(id.0, doc);
                proof {
                    assert(final(self).docs() =~= old(self).docs().insert(id.0, final(self).get(id)));
                    assert forall|k: u64| #[trigger] final(self).docs().contains_key(k) implies 1 <= k < final(self).next_id() by {
                        assert(old(self).docs().contains_key(k));
                    }
                }
                r
            },
            None => {
                proof {
                    assert(final(self).docs() =~= old(self).docs());
                }
                Err(Error::UnknownDoc(id))
            },
        }
    }

    /// Applies a document edit op to the document under `id` (see
    /// [`applied`]); no other document changes. The op must be admitted
    /// by that document.
    pub fn apply_edit_op(&mut self, id: DocId, op: DocOp) -> (r: Result<(), Error>)
        requires
            old(self).wf(),
            old(self).has(id) ==> old(self).get(id).admits(op),
        ensures
            final(self).wf(),
            final(self).next_id() == old(self).next_id(),
            old(self).has(id) ==> final(self).has(id) && applied(old(self).get(id), final(self).get(id), op, r)
                && final(self).docs() == old(self).docs().insert(id.0, final(self).get(id)),
            !old(self).has(id) ==> r is Err && unknown(r->Err_0, id) && final(self).docs() == old(self).docs(),
    {
        match self.docs.remove(&id.0) {
            Some(mut doc) => {
                let r = apply_edit_to(&mut doc, op);
                self.docs.insert(id.0, doc);
                proof {
                    assert(final(self).docs() =~= old(self).docs().insert(id.0, final(self).get(id)));
                }
                r
            },
            None => Err(Error::UnknownDoc(id)),
        }
    }
}

/// Handles are never reused: a handle handed out before the registry
/// reached some state (every such handle is below its next one) differs
/// from any handle handed out from a later state (the next one only
/// grows), even if its document has since been closed.
pub proof fn law_handle_not_reused(earlier: Registry, a: DocId, later: Registry, b: DocId)
    requires
        earlier.wf(),
        a.0 < earlier.next_id(),
        earlier.next_id() <= later.next_id(),
        b.0 == later.next_id(),
    ensures
        a != b,
{
}

/// Restoring a snapshot of an open document opens a document with its
/// text and its block count: `restore_from_snapshot(snapshot(id))`
/// round-trips what `doc_text` and `block_count` read.
pub proof fn law_restore_round_trip(reg: Registry, id: DocId, bytes: Seq<u8>, restored: Registry, new_id: DocId)
    requires
        reg.has(id),
        snapshot_content(bytes) == content_of(reg.get(id).store()),
        restored.has(new_id),
        content_of(restored.get(new_id).store()) == snapshot_content(bytes),
    ensures
        restored.get(new_id).body() == reg.get(id).body(),
        lines(restored.get(new_id).body()).len() == lines(reg.get(id).body()).len(),
{
    crate::doc_model::laws::law_snapshot_round_trip(reg.get(id), bytes, restored.get(new_id));
}

} // verus!
