//! The metadata index: rows for uploaded files (assets) and pasted texts,
//! each keyed by an opaque storage id and a globally-unique memorable id,
//! with expiry timestamps and the sweep that removes expired rows.

use crate::error::TransferError;
use vstd::prelude::*;

verus! {

/// Metadata of one uploaded file. The blob itself lives in the object
/// store under `storage_id`.
pub struct Asset {
    /// Opaque key of the blob in the object store.
    pub storage_id: String,
    /// Globally unique, human-memorable public identifier.
    pub memo_id: String,
    /// Name the uploader supplied; used only to name the download.
    pub file_name: String,
    /// Whether the uploader declared the payload encrypted.
    pub encrypted: bool,
    /// Absolute expiry timestamp, in milliseconds.
    pub expire_at: u64,
}

impl Clone for Asset {
    fn clone(&self) -> (r: Self)
        ensures
            r == *self,
    {
        Asset {
            storage_id: self.storage_id.clone(),
            memo_id: self.memo_id.clone(),
            file_name: self.file_name.clone(),
            encrypted: self.encrypted,
            expire_at: self.expire_at,
        }
    }
}

/// One pasted text, stored directly in the index: `content` is the
/// byte-safe (hex) encoding of the ciphertext.
pub struct Text {
    /// Opaque row key; texts have no blob, the key only addresses the row.
    pub storage_id: String,
    /// Globally unique, human-memorable public identifier.
    pub memo_id: String,
    /// Hex-encoded ciphertext.
    pub content: String,
    /// Absolute expiry timestamp, in milliseconds.
    pub expire_at: u64,
}

impl Clone for Text {
    fn clone(&self) -> (r: Self)
        ensures
            r == *self,
    {
        Text {
            storage_id: self.storage_id.clone(),
            memo_id: self.memo_id.clone(),
            content: self.content.clone(),
            expire_at: self.expire_at,
        }
    }
}

/// Some asset row carries this memo id.
pub open spec fn contains_asset_memo(s: Seq<Asset>, memo: Seq<char>) -> bool {
    exists|i: int| 0 <= i < s.len() && s[i].memo_id@ == memo
}

/// Some text row carries this memo id.
pub open spec fn contains_text_memo(s: Seq<Text>, memo: Seq<char>) -> bool {
    exists|i: int| 0 <= i < s.len() && s[i].memo_id@ == memo
}

/// Some asset row carries this storage id.
pub open spec fn contains_asset_storage(s: Seq<Asset>, sid: Seq<char>) -> bool {
    exists|i: int| 0 <= i < s.len() && s[i].storage_id@ == sid
}

/// Some asset row carries this memo id and is still live at `now`: a row
/// whose expiry has passed counts as deleted even before it is swept.
pub open spec fn contains_live_asset_memo(s: Seq<Asset>, memo: Seq<char>, now: u64) -> bool {
    exists|i: int| 0 <= i < s.len() && s[i].memo_id@ == memo && s[i].expire_at > now
}

/// Some text row carries this storage id.
pub open spec fn contains_text_storage(s: Seq<Text>, sid: Seq<char>) -> bool {
    exists|i: int| 0 <= i < s.len() && s[i].storage_id@ == sid
}

/// An asset row that is still live at `now`.
pub open spec fn asset_live_p(now: u64) -> spec_fn(Asset) -> bool {
    |a: Asset| a.expire_at > now
}

/// An asset row that is expired at `now`.
pub open spec fn asset_expired_p(now: u64) -> spec_fn(Asset) -> bool {
    |a: Asset| a.expire_at <= now
}

/// A text row that is still live at `now`.
pub open spec fn text_live_p(now: u64) -> spec_fn(Text) -> bool {
    |t: Text| t.expire_at > now
}

/// The views of a sequence of strings.
pub open spec fn string_views(s: Seq<String>) -> Seq<Seq<char>> {
    s.map_values(|x: String| x@)
}

/// The storage ids of a sequence of asset rows.
pub open spec fn asset_storage_ids(s: Seq<Asset>) -> Seq<Seq<char>> {
    s.map_values(|a: Asset| a.storage_id@)
}

/// The index over both tables.
pub struct MetadataIndex {
    /// The asset table.
    pub assets: Vec<Asset>,
    /// The text table.
    pub texts: Vec<Text>,
}

impl MetadataIndex {
    /// A memo id is live when any row of either table carries it.
    pub open spec fn memo_live(self, memo: Seq<char>) -> bool {
        contains_asset_memo(self.assets@, memo) || contains_text_memo(self.texts@, memo)
    }

    /// Well-formedness: memo ids are unique across both tables together,
    /// and storage ids are unique within each table.
    pub open spec fn wf(self) -> bool {
        &&& forall|i: int, j: int|
            0 <= i < j < self.assets@.len() ==> #[trigger] self.assets@[i].memo_id@
                != #[trigger] self.assets@[j].memo_id@
        &&& forall|i: int, j: int|
            0 <= i < j < self.texts@.len() ==> #[trigger] self.texts@[i].memo_id@
                != #[trigger] self.texts@[j].memo_id@
        &&& forall|i: int, j: int|
            0 <= i < self.assets@.len() && 0 <= j < self.texts@.len()
                ==> #[trigger] self.assets@[i].memo_id@ != #[trigger] self.texts@[j].memo_id@
        &&& forall|i: int, j: int|
            0 <= i < j < self.assets@.len() ==> #[trigger] self.assets@[i].storage_id@
                != #[trigger] self.assets@[j].storage_id@
        &&& forall|i: int, j: int|
            0 <= i < j < self.texts@.len() ==> #[trigger] self.texts@[i].storage_id@
                != #[trigger] self.texts@[j].storage_id@
    }

    /// An empty index.
    pub fn new() -> (ix: MetadataIndex)
        ensures
            ix.wf(),
            ix.assets@.len() == 0,
            ix.texts@.len() == 0,
    {
        MetadataIndex { assets: Vec::new(), texts: Vec::new() }
    }

    /// Whether any live row carries this memo id.
    pub fn memo_in_use(&self, memo_id: &String) -> (r: bool)
        ensures
            r == self.memo_live(memo_id@),
    {
        let mut i: usize = 0;
        while i < self.assets.len()
            invariant
                0 <= i <= self.assets@.len(),
                forall|j: int| 0 <= j < i ==> self.assets@[j].memo_id@ != memo_id@,
            decreases self.assets@.len() - i,
        {
            if self.assets[i].memo_id == *memo_id {
                return true;
            }
            i = i + 1;
        }
        let mut k: usize = 0;
        while k < self.texts.len()
            invariant
                0 <= k <= self.texts@.len(),
                forall|j: int| 0 <= j < k ==> self.texts@[j].memo_id@ != memo_id@,
            decreases self.texts@.len() - k,
        {
            if self.texts[k].memo_id == *memo_id {
                return true;
            }
            k = k + 1;
        }
        false
    }

    /// Whether any asset row carries this storage id.
    fn asset_storage_in_use(&self, storage_id: &String) -> (r: bool)
        ensures
            r == contains_asset_storage(self.assets@, storage_id@),
    {
        let mut i: usize = 0;
        while i < self.assets.len()
            invariant
                0 <= i <= self.assets@.len(),
                forall|j: int| 0 <= j < i ==> self.assets@[j].storage_id@ != storage_id@,
            decreases self.assets@.len() - i,
        {
            if self.assets[i].storage_id == *storage_id {
                return true;
            }
            i = i + 1;
        }
        false
    }

    /// Whether any text row carries this storage id.
    fn text_storage_in_use(&self, storage_id: &String) -> (r: bool)
        ensures
            r == contains_text_storage(self.texts@, storage_id@),
    {
        let mut i: usize = 0;
        while i < self.texts.len()
            invariant
                0 <= i <= self.texts@.len(),
                forall|j: int| 0 <= j < i ==> self.texts@[j].storage_id@ != storage_id@,
            decreases self.texts@.len() - i,
        {
            if self.texts[i].storage_id == *storage_id {
                return true;
            }
            i = i + 1;
        }
        false
    }

    /// Creates an asset row. The memo id must be fresh among all live
    /// assets and texts and the storage id fresh in the asset table;
    /// otherwise the call fails with `DuplicateIdentifier` (retried by the
    /// caller with new random ids, never surfaced). The expiry defaults to
    /// `now` plus the configured TTL when the uploader gave none.
    pub fn create_asset(
        &mut self,
        file_name: String,
        encrypted: bool,
        expire_at: Option<u64>,
        now: u64,
        default_ttl: u64,
        memo_id: String,
        storage_id: String,
    ) -> (r: Result<Asset, TransferError>)
        requires
            old(self).wf(),
            now + default_ttl <= u64::MAX,
        ensures
            final(self).wf(),
            r is Ok <==> !old(self).memo_live(memo_id@) && !contains_asset_storage(
                old(self).assets@,
                storage_id@,
            ),
            match r {
                Ok(a) => {
                    &&& a.memo_id@ == memo_id@
                    &&& a.storage_id@ == storage_id@
                    &&& a.file_name@ == file_name@
                    &&& a.encrypted == encrypted
                    &&& a.expire_at == (match expire_at {
                        Some(t) => t as int,
                        None => now + default_ttl,
                    })
                    &&& !old(self).memo_live(a.memo_id@)
                    &&& final(self).assets@ == old(self).assets@.push(a)
                    &&& final(self).texts@ == old(self).texts@
                },
                Err(e) => {
                    &&& e == TransferError::DuplicateIdentifier
                    &&& final(self).assets@ == old(self).assets@
                    &&& final(self).texts@ == old(self).texts@
                },
            },
    {
        if self.memo_in_use(&memo_id) || self.asset_storage_in_use(&storage_id) {
            return Err(TransferError::DuplicateIdentifier);
        }
        let expire = match expire_at {
            Some(t) => t,
            None => now + default_ttl,
        };
        let asset = Asset { storage_id, memo_id, file_name, encrypted, expire_at: expire };
        let result = asset.clone();
        self.assets.push(asset);
        Ok(result)
    }

    /// Looks an asset up by its memo id; fails with `NotFound` when no live
    /// row carries it.
    pub fn find_asset_by_memo(&self, memo_id: &String) -> (r: Result<Asset, TransferError>)
        ensures
            match r {
                Ok(a) => a.memo_id@ == memo_id@ && exists|i: int|
                    0 <= i < self.assets@.len() && self.assets@[i] == a,
                Err(e) => e == TransferError::NotFound && !contains_asset_memo(
                    self.assets@,
                    memo_id@,
                ),
            },
    {
        let mut i: usize = 0;
        while i < self.assets.len()
            invariant
                0 <= i <= self.assets@.len(),
                forall|j: int| 0 <= j < i ==> self.assets@[j].memo_id@ != memo_id@,
            decreases self.assets@.len() - i,
        {
            if self.assets[i].memo_id == *memo_id {
                return Ok(self.assets[i].clone());
            }
            i = i + 1;
        }
        Err(TransferError::NotFound)
    }

    /// Creates a text row; the content is stored in the index itself. The
    /// memo id must be fresh among all live rows and the storage id fresh
    /// in the text table; otherwise fails with `DuplicateIdentifier`.
    pub fn create_text(
        &mut self,
        content: String,
        now: u64,
        default_ttl: u64,
        memo_id: String,
        storage_id: String,
    ) -> (r: Result<Text, TransferError>)
        requires
            old(self).wf(),
            now + default_ttl <= u64::MAX,
        ensures
            final(self).wf(),
            r is Ok <==> !old(self).memo_live(memo_id@) && !contains_text_storage(
                old(self).texts@,
                storage_id@,
            ),
            match r {
                Ok(t) => {
                    &&& t.memo_id@ == memo_id@
                    &&& t.storage_id@ == storage_id@
                    &&& t.content@ == content@
                    &&& t.expire_at == now + default_ttl
                    &&& !old(self).memo_live(t.memo_id@)
                    &&& final(self).texts@ == old(self).texts@.push(t)
                    &&& final(self).assets@ == old(self).assets@
                },
                Err(e) => {
                    &&& e == TransferError::DuplicateIdentifier
                    &&& final(self).assets@ == old(self).assets@
                    &&& final(self).texts@ == old(self).texts@
                },
            },
    {
        if self.memo_in_use(&memo_id) || self.text_storage_in_use(&storage_id) {
            return Err(TransferError::DuplicateIdentifier);
        }
        let text = Text { storage_id, memo_id, content, expire_at: now + default_ttl };
        let result = text.clone();
        self.texts.push(text);
        Ok(result)
    }

    /// Looks a text up by its memo id; fails with `NotFound` when no live
    /// row carries it.
    pub fn find_text_by_memo(&self, memo_id: &String) -> (r: Result<Text, TransferError>)
        ensures
            match r {
                Ok(t) => t.memo_id@ == memo_id@ && exists|i: int|
                    0 <= i < self.texts@.len() && self.texts@[i] == t,
                Err(e) => e == TransferError::NotFound && !contains_text_memo(
                    self.texts@,
                    memo_id@,
                ),
            },
    {
        let mut i: usize = 0;
        while i < self.texts.len()
            invariant
                0 <= i <= self.texts@.len(),
                forall|j: int| 0 <= j < i ==> self.texts@[j].memo_id@ != memo_id@,
            decreases self.texts@.len() - i,
        {
            if self.texts[i].memo_id == *memo_id {
                return Ok(self.texts[i].clone());
            }
            i = i + 1;
        }
        Err(TransferError::NotFound)
    }

    /// Deletes the text row carrying this storage id, if any. Deleting an
    /// absent id is not an error, as in the backing store.
    pub fn delete_text(&mut self, storage_id: &String)
        requires
            old(self).wf(),
        ensures
            final(self).wf(),
            final(self).assets@ == old(self).assets@,
            !contains_text_storage(final(self).texts@, storage_id@),
            (exists|i: int|
                0 <= i < old(self).texts@.len() && old(self).texts@[i].storage_id@ == storage_id@
                    && final(self).texts@ == old(self).texts@.remove(i)) || (!contains_text_storage(
                old(self).texts@,
                storage_id@,
            ) && final(self).texts@ == old(self).texts@),
    {
        let mut i: usize = 0;
        while i < self.texts.len()
            invariant
                0 <= i <= self.texts@.len(),
                self.wf(),
                self.assets@ == old(self).assets@,
                self.texts@ == old(self).texts@,
                forall|j: int| 0 <= j < i ==> self.texts@[j].storage_id@ != storage_id@,
            decreases self.texts@.len() - i,
        {
            if self.texts[i].storage_id == *storage_id {
                let ghost pre = self.texts@;
                self.texts.remove(i);
                proof {
                    assert(self.texts@ =~= pre.remove(i as int));
                    lemma_remove_keeps_distinct_texts(pre, i as int);
                    assert forall|k: int|
                        0 <= k < self.texts@.len() implies self.texts@[k].storage_id@
                        != storage_id@ by {
                        if k >= i {
                            assert(self.texts@[k] == pre[k + 1]);
                        }
                    }
                }
                return ;
            }
            i = i + 1;
        }
    }

    /// The sweep over the asset table: removes every expired row, keeping
    /// the live rows in order, and returns the storage ids of the removed
    /// rows, in order, for the caller to hand to the object store.
    pub fn list_and_delete_expired_assets(&mut self, now: u64) -> (ids: Vec<String>)
        requires
            old(self).wf(),
        ensures
            final(self).wf(),
            final(self).texts@ == old(self).texts@,
            final(self).assets@ == old(self).assets@.filter(asset_live_p(now)),
            string_views(ids@) == asset_storage_ids(
                old(self).assets@.filter(asset_expired_p(now)),
            ),
    {
        let ghost orig = self.assets@;
        let mut kept: Vec<Asset> = Vec::new();
        let mut ids: Vec<String> = Vec::new();
        let mut i: usize = 0;
        while i < self.assets.len()
            invariant
                0 <= i <= self.assets@.len(),
                self.assets@ == orig,
                self.texts@ == old(self).texts@,
                kept@ == orig.take(i as int).filter(asset_live_p(now)),
                string_views(ids@) == asset_storage_ids(
                    orig.take(i as int).filter(asset_expired_p(now)),
                ),
            decreases self.assets@.len() - i,
        {
            let ghost pre_ids = ids@;
            let a = &self.assets[i];
            if a.expire_at <= now {
                ids.push(a.storage_id.clone());
            } else {
                kept.push(a.clone());
            }
            proof {
                lemma_filter_take_step(orig, asset_live_p(now), i as int);
                lemma_filter_take_step(orig, asset_expired_p(now), i as int);
                if orig[i as int].expire_at <= now {
                    assert(asset_expired_p(now)(orig[i as int]));
                    let ef = orig.take(i + 1).filter(asset_expired_p(now));
                    assert(ef == orig.take(i as int).filter(asset_expired_p(now)).push(
                        orig[i as int],
                    ));
                    assert(ids@ == pre_ids.push(ids@[pre_ids.len() as int]));
                    assert(ids@[pre_ids.len() as int]@ == orig[i as int].storage_id@);
                    assert(string_views(pre_ids).len() == pre_ids.len());
                    assert(string_views(pre_ids) == asset_storage_ids(
                        orig.take(i as int).filter(asset_expired_p(now)),
                    ));
                    assert(ids@.len() == pre_ids.len() + 1);
                    assert(string_views(ids@).len() == asset_storage_ids(ef).len());
                    assert forall|k: int|
                        0 <= k < string_views(ids@).len() implies string_views(ids@)[k]
                        == asset_storage_ids(ef)[k] by {
                        if k < pre_ids.len() {
                            assert(string_views(pre_ids)[k] == asset_storage_ids(
                                orig.take(i as int).filter(asset_expired_p(now)),
                            )[k]);
                        }
                    }
                    assert(string_views(ids@) =~= asset_storage_ids(ef));
                }
            }
            i = i + 1;
        }
        proof {
            assert(orig.take(orig.len() as int) =~= orig);
            lemma_filter_keeps_distinct(
                orig,
                asset_live_p(now),
                |a: Asset| a.memo_id@,
            );
            lemma_filter_keeps_distinct(
                orig,
                asset_live_p(now),
                |a: Asset| a.storage_id@,
            );
        }
        self.assets = kept;
        proof {
            let f = orig.filter(asset_live_p(now));
            assert forall|x: int, j: int|
                0 <= x < f.len() && 0 <= j < self.texts@.len() implies #[trigger] f[x].memo_id@
                != #[trigger] self.texts@[j].memo_id@ by {
                assert(orig.contains(f[x]));
                let w = choose|w: int| 0 <= w < orig.len() && orig[w] == f[x];
                assert(old(self).assets@[w].memo_id@ != old(self).texts@[j].memo_id@);
            }
        }
        ids
    }

    /// The sweep over the text table: removes every expired row, keeping
    /// the live rows in order. Texts have no blob, so nothing is returned.
    pub fn delete_expired_texts(&mut self, now: u64)
        requires
            old(self).wf(),
        ensures
            final(self).wf(),
            final(self).assets@ == old(self).assets@,
            final(self).texts@ == old(self).texts@.filter(text_live_p(now)),
    {
        let ghost orig = self.texts@;
        let mut kept: Vec<Text> = Vec::new();
        let mut i: usize = 0;
        while i < self.texts.len()
            invariant
                0 <= i <= self.texts@.len(),
                self.texts@ == orig,
                self.assets@ == old(self).assets@,
                kept@ == orig.take(i as int).filter(text_live_p(now)),
            decreases self.texts@.len() - i,
        {
            let t = &self.texts[i];
            if t.expire_at > now {
                kept.push(t.clone());
            }
            proof {
                lemma_filter_take_step(orig, text_live_p(now), i as int);
            }
            i = i + 1;
        }
        proof {
            assert(orig.take(orig.len() as int) =~= orig);
            lemma_filter_keeps_distinct(orig, text_live_p(now), |t: Text| t.memo_id@);
            lemma_filter_keeps_distinct(orig, text_live_p(now), |t: Text| t.storage_id@);
        }
        self.texts = kept;
        proof {
            let f = orig.filter(text_live_p(now));
            assert forall|x: int, j: int|
                0 <= j < self.assets@.len() && 0 <= x < f.len() implies #[trigger] self.assets@[j].memo_id@
                != #[trigger] f[x].memo_id@ by {
                assert(orig.contains(f[x]));
                let w = choose|w: int| 0 <= w < orig.len() && orig[w] == f[x];
                assert(old(self).assets@[j].memo_id@ != old(self).texts@[w].memo_id@);
            }
        }
    }
}

/// One step of `filter` over a growing prefix: filtering the first `i + 1`
/// elements appends the element at `i` exactly when it satisfies the
/// predicate.
pub(crate) proof fn lemma_filter_take_step<A>(s: Seq<A>, p: spec_fn(A) -> bool, i: int)
    requires
        0 <= i < s.len(),
    ensures
        s.take(i + 1).filter(p) == if p(s[i]) {
            s.take(i).filter(p).push(s[i])
        } else {
            s.take(i).filter(p)
        },
{
    reveal(Seq::filter);
    assert(s.take(i + 1).drop_last() =~= s.take(i));
    assert(s.take(i + 1).last() == s[i]);
}

/// Filtering keeps every element of the original sequence, and keeps a
/// key that was pairwise distinct pairwise distinct.
pub(crate) proof fn lemma_filter_keeps_distinct<A>(s: Seq<A>, p: spec_fn(A) -> bool, key: spec_fn(A) -> Seq<char>)
    requires
        forall|i: int, j: int| #![trigger s[i], s[j]]
            0 <= i < j < s.len() ==> key(s[i]) != key(s[j]),
    ensures
        forall|k: int| 0 <= k < s.filter(p).len() ==> s.contains(#[trigger] s.filter(p)[k]),
        forall|i: int, j: int| #![trigger s.filter(p)[i], s.filter(p)[j]]
            0 <= i < j < s.filter(p).len() ==> key(s.filter(p)[i]) != key(s.filter(p)[j]),
    decreases s.len(),
{
    reveal(Seq::filter);
    if s.len() == 0 {
    } else {
        let d = s.drop_last();
        assert(forall|i: int| 0 <= i < d.len() ==> d[i] == s[i]);
        lemma_filter_keeps_distinct(d, p, key);
        let f = s.filter(p);
        let fd = d.filter(p);
        assert forall|k: int| 0 <= k < f.len() implies s.contains(#[trigger] f[k]) by {
            if p(s.last()) && k == f.len() - 1 {
                assert(f[k] == s.last());
                assert(s[s.len() - 1] == s.last());
            } else {
                assert(f[k] == fd[k]);
                assert(d.contains(fd[k]));
                let w = choose|w: int| 0 <= w < d.len() && d[w] == fd[k];
                assert(s[w] == f[k]);
            }
        }
        assert forall|i: int, j: int| #![trigger f[i], f[j]]
            0 <= i < j < f.len() implies key(f[i]) != key(f[j]) by {
            if p(s.last()) && j == f.len() - 1 {
                assert(f[i] == fd[i]);
                assert(d.contains(fd[i]));
                let w = choose|w: int| 0 <= w < d.len() && d[w] == fd[i];
                assert(key(s[w]) != key(s[s.len() - 1]));
                assert(f[j] == s.last());
            } else {
                assert(f[i] == fd[i]);
                assert(f[j] == fd[j]);
            }
        }
    }
}

/// Removing a row keeps the pairwise distinctness of memo and storage ids
/// in the text table.
proof fn lemma_remove_keeps_distinct_texts(s: Seq<Text>, at: int)
    requires
        0 <= at < s.len(),
        forall|i: int, j: int|
            0 <= i < j < s.len() ==> #[trigger] s[i].memo_id@ != #[trigger] s[j].memo_id@,
        forall|i: int, j: int|
            0 <= i < j < s.len() ==> #[trigger] s[i].storage_id@ != #[trigger] s[j].storage_id@,
    ensures
        forall|i: int, j: int|
            0 <= i < j < s.remove(at).len() ==> #[trigger] s.remove(at)[i].memo_id@
                != #[trigger] s.remove(at)[j].memo_id@,
        forall|i: int, j: int|
            0 <= i < j < s.remove(at).len() ==> #[trigger] s.remove(at)[i].storage_id@
                != #[trigger] s.remove(at)[j].storage_id@,
{
    let r = s.remove(at);
    assert forall|i: int, j: int| 0 <= i < j < r.len() implies #[trigger] r[i].memo_id@
        != #[trigger] r[j].memo_id@ by {
        let io = if i < at { i } else { i + 1 };
        let jo = if j < at { j } else { j + 1 };
        assert(s[io] == r[i]);
        assert(s[jo] == r[j]);
    }
    assert forall|i: int, j: int| 0 <= i < j < r.len() implies #[trigger] r[i].storage_id@
        != #[trigger] r[j].storage_id@ by {
        let io = if i < at { i } else { i + 1 };
        let jo = if j < at { j } else { j + 1 };
        assert(s[io] == r[i]);
        assert(s[jo] == r[j]);
    }
}

/// Among all currently-live assets and texts together, memo ids are
/// pairwise distinct: a memo id returned by a create operation names
/// exactly one record.
pub proof fn lemma_live_memo_ids_unique(ix: MetadataIndex)
    requires
        ix.wf(),
    ensures
        forall|i: int, j: int|
            0 <= i < j < ix.assets@.len() ==> #[trigger] ix.assets@[i].memo_id@
                != #[trigger] ix.assets@[j].memo_id@,
        forall|i: int, j: int|
            0 <= i < j < ix.texts@.len() ==> #[trigger] ix.texts@[i].memo_id@
                != #[trigger] ix.texts@[j].memo_id@,
        forall|i: int, j: int|
            0 <= i < ix.assets@.len() && 0 <= j < ix.texts@.len()
                ==> #[trigger] ix.assets@[i].memo_id@ != #[trigger] ix.texts@[j].memo_id@,
{
}

} // verus!
