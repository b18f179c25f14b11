//! The object storage gateway: raw bytes keyed by storage id. Put, get and
//! delete, with length reporting; the gateway knows nothing of memorable
//! identifiers.

use crate::error::TransferError;
use vstd::prelude::*;

verus! {

/// One stored blob.
pub struct Blob {
    /// Opaque key the blob is addressed by.
    pub storage_id: String,
    /// The raw bytes.
    pub data: Vec<u8>,
}

/// Some blob carries this storage id.
pub open spec fn contains_blob(s: Seq<Blob>, sid: Seq<char>) -> bool {
    exists|i: int| 0 <= i < s.len() && s[i].storage_id@ == sid
}

/// The bytes of the blob that carries this storage id, when one does.
pub open spec fn blob_data_of(s: Seq<Blob>, sid: Seq<char>) -> Seq<u8> {
    s[choose|i: int| 0 <= i < s.len() && s[i].storage_id@ == sid].data@
}

/// The object store, modelled as its live blobs.
pub struct ObjectStore {
    /// The stored blobs.
    pub blobs: Vec<Blob>,
}

impl ObjectStore {
    /// Well-formedness: storage ids are unique.
    pub open spec fn wf(self) -> bool {
        forall|i: int, j: int|
            0 <= i < j < self.blobs@.len() ==> #[trigger] self.blobs@[i].storage_id@
                != #[trigger] self.blobs@[j].storage_id@
    }

    /// The bytes stored under a storage id, when some blob carries it.
    pub open spec fn data_of(self, sid: Seq<char>) -> Seq<u8> {
        blob_data_of(self.blobs@, sid)
    }

    /// An empty store.
    pub fn new() -> (st: ObjectStore)
        ensures
            st.wf(),
            st.blobs@.len() == 0,
    {
        ObjectStore { blobs: Vec::new() }
    }

    /// Stores bytes under a storage id, replacing any blob already there,
    /// as a put to the backing store does.
    pub fn put_stream(&mut self, storage_id: &String, data: Vec<u8>)
        requires
            old(self).wf(),
        ensures
            final(self).wf(),
            contains_blob(final(self).blobs@, storage_id@),
            final(self).data_of(storage_id@) == data@,
            forall|sid: Seq<char>|
                sid != storage_id@ ==> (#[trigger] contains_blob(final(self).blobs@, sid)
                    == contains_blob(old(self).blobs@, sid)),
            forall|sid: Seq<char>|
                sid != storage_id@ && contains_blob(old(self).blobs@, sid)
                    ==> #[trigger] final(self).data_of(sid) == old(self).data_of(sid),
    {
        self.delete(storage_id);
        let ghost mid = *self;
        let blob = Blob { storage_id: storage_id.clone(), data };
        self.blobs.push(blob);
        proof {
            let n = mid.blobs@.len() as int;
            assert(self.blobs@[n].storage_id@ == storage_id@);
            assert(contains_blob(self.blobs@, storage_id@));
            let w = choose|i: int|
                0 <= i < self.blobs@.len() && self.blobs@[i].storage_id@ == storage_id@;
            assert(w == n);
            assert forall|sid: Seq<char>| sid != storage_id@ implies (#[trigger] contains_blob(
                self.blobs@,
                sid,
            ) == contains_blob(mid.blobs@, sid)) by {
                if contains_blob(self.blobs@, sid) {
                    let k = choose|i: int|
                        0 <= i < self.blobs@.len() && self.blobs@[i].storage_id@ == sid;
                    assert(k < n && mid.blobs@[k] == self.blobs@[k]);
                }
                if contains_blob(mid.blobs@, sid) {
                    let k = choose|i: int|
                        0 <= i < mid.blobs@.len() && mid.blobs@[i].storage_id@ == sid;
                    assert(self.blobs@[k] == mid.blobs@[k]);
                }
            }
            assert forall|sid: Seq<char>|
                sid != storage_id@ && contains_blob(mid.blobs@, sid) implies #[trigger] self
                .data_of(sid) == mid.data_of(sid) by {
                let k = choose|i: int|
                    0 <= i < self.blobs@.len() && self.blobs@[i].storage_id@ == sid;
                let k2 = choose|i: int|
                    0 <= i < mid.blobs@.len() && mid.blobs@[i].storage_id@ == sid;
                assert(self.blobs@[k2] == mid.blobs@[k2]);
                assert(k < n);
                assert(mid.blobs@[k] == self.blobs@[k]);
            }
        }
    }

    /// Fetches the bytes stored under a storage id, with their length, or
    /// fails with `NotFound`. A network or backing-store failure is the
    /// caller's `Storage` error, outside this model.
    pub fn get_stream(&self, storage_id: &String) -> (r: Result<(Vec<u8>, usize), TransferError>)
        requires
            self.wf(),
        ensures
            match r {
                Ok((data, len)) => contains_blob(self.blobs@, storage_id@) && data@ == self.data_of(
                    storage_id@,
                ) && len == data@.len(),
                Err(e) => e == TransferError::NotFound && !contains_blob(self.blobs@, storage_id@),
            },
    {
        let mut i: usize = 0;
        while i < self.blobs.len()
            invariant
                0 <= i <= self.blobs@.len(),
                self.wf(),
                forall|j: int| 0 <= j < i ==> self.blobs@[j].storage_id@ != storage_id@,
            decreases self.blobs@.len() - i,
        {
            if self.blobs[i].storage_id == *storage_id {
                let mut out: Vec<u8> = Vec::new();
                out.extend_from_slice(self.blobs[i].data.as_slice());
                let n = out.len();
                proof {
                    let w = choose|k: int|
                        0 <= k < self.blobs@.len() && self.blobs@[k].storage_id@ == storage_id@;
                    assert(w == i as int);
                }
                return Ok((out, n));
            }
            i = i + 1;
        }
        Err(TransferError::NotFound)
    }

    /// Deletes the blob stored under a storage id; deleting an absent id
    /// succeeds, as in the backing store.
    pub fn delete(&mut self, storage_id: &String)
        requires
            old(self).wf(),
        ensures
            final(self).wf(),
            !contains_blob(final(self).blobs@, storage_id@),
            (exists|i: int|
                0 <= i < old(self).blobs@.len() && old(self).blobs@[i].storage_id@ == storage_id@
                    && final(self).blobs@ == old(self).blobs@.remove(i)) || (!contains_blob(
                old(self).blobs@,
                storage_id@,
            ) && final(self).blobs@ == old(self).blobs@),
            forall|sid: Seq<char>|
                sid != storage_id@ ==> (#[trigger] contains_blob(final(self).blobs@, sid)
                    == contains_blob(old(self).blobs@, sid)),
            forall|sid: Seq<char>|
                sid != storage_id@ && contains_blob(old(self).blobs@, sid)
                    ==> #[trigger] final(self).data_of(sid) == old(self).data_of(sid),
    {
        let ghost orig = self.blobs@;
        let mut i: usize = 0;
        while i < self.blobs.len()
            invariant
                0 <= i <= self.blobs@.len(),
                self.wf(),
                self.blobs@ == orig,
                orig == old(self).blobs@,
                forall|j: int| 0 <= j < i ==> self.blobs@[j].storage_id@ != storage_id@,
            decreases self.blobs@.len() - i,
        {
            if self.blobs[i].storage_id == *storage_id {
                self.blobs.remove(i);
                proof {
                    lemma_remove_blob(orig, i as int, storage_id@, self.blobs@);
                }
                return ;
            }
            i = i + 1;
        }
    }
}

/// What removing the one blob that carries a storage id leaves: every other
/// id keeps its presence and its bytes, ids stay unique, and the removed id
/// is gone.
proof fn lemma_remove_blob(orig: Seq<Blob>, at: int, sid: Seq<char>, rest: Seq<Blob>)
    requires
        0 <= at < orig.len(),
        orig[at].storage_id@ == sid,
        rest == orig.remove(at),
        forall|i: int, j: int|
            0 <= i < j < orig.len() ==> #[trigger] orig[i].storage_id@ != #[trigger] orig[j].storage_id@,
    ensures
        forall|i: int, j: int|
            0 <= i < j < rest.len() ==> #[trigger] rest[i].storage_id@ != #[trigger] rest[j].storage_id@,
        !contains_blob(rest, sid),
        forall|other: Seq<char>|
            other != sid ==> (#[trigger] contains_blob(rest, other) == contains_blob(orig, other)),
        forall|other: Seq<char>|
            other != sid && contains_blob(orig, other) ==> #[trigger] blob_data_of(rest, other)
                == blob_data_of(orig, other),
{
    assert forall|i: int, j: int| 0 <= i < j < rest.len() implies #[trigger] rest[i].storage_id@
        != #[trigger] rest[j].storage_id@ by {
        let io = if i < at {
            i
        } else {
            i + 1
        };
        let jo = if j < at {
            j
        } else {
            j + 1
        };
        assert(orig[io] == rest[i]);
        assert(orig[jo] == rest[j]);
    }
    assert forall|k: int| 0 <= k < rest.len() implies rest[k].storage_id@ != sid by {
        let ko = if k < at {
            k
        } else {
            k + 1
        };
        assert(orig[ko] == rest[k]);
    }
    assert forall|other: Seq<char>| other != sid implies (#[trigger] contains_blob(rest, other)
        == contains_blob(orig, other)) by {
        if contains_blob(rest, other) {
            let k = choose|i: int| 0 <= i < rest.len() && rest[i].storage_id@ == other;
            let ko = if k < at {
                k
            } else {
                k + 1
            };
            assert(orig[ko] == rest[k]);
        }
        if contains_blob(orig, other) {
            let k = choose|i: int| 0 <= i < orig.len() && orig[i].storage_id@ == other;
            if k < at {
                assert(rest[k] == orig[k]);
            } else {
                assert(k > at);
                assert(rest[k - 1] == orig[k]);
            }
        }
    }
    assert forall|other: Seq<char>|
        other != sid && contains_blob(orig, other) implies #[trigger] blob_data_of(rest, other)
        == blob_data_of(orig, other) by {
        assert(contains_blob(rest, other));
        let kr = choose|i: int| 0 <= i < rest.len() && rest[i].storage_id@ == other;
        assert(0 <= kr < rest.len() && rest[kr].storage_id@ == other);
        let ko = choose|i: int| 0 <= i < orig.len() && orig[i].storage_id@ == other;
        let m = if kr < at {
            kr
        } else {
            kr + 1
        };
        assert(orig[m] == rest[kr]);
        assert(orig[m].storage_id@ == other);
        assert(m == ko);
    }
}

} // verus!
