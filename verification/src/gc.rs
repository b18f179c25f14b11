//! The garbage collector: a timer-driven Idle/Sweeping loop around one
//! sweep operation that removes expired index rows first and then deletes
//! the blobs of the removed asset rows.

use crate::index::{
    asset_expired_p, asset_live_p, asset_storage_ids, contains_asset_memo, contains_text_memo,
    lemma_filter_keeps_distinct, string_views, text_live_p,
};
use crate::server::Server;
use crate::store::contains_blob;
use vstd::prelude::*;

verus! {

/// What one sweep at time `now` leaves behind: only the live rows of each
/// table, in order; every expired asset wholly gone, row and blob, and its
/// memo id and every expired text's memo id free again; the blobs of live
/// assets, and every blob not named by an expired asset row, untouched.
pub open spec fn sweep_post(pre: Server, post: Server, now: u64) -> bool {
    &&& post.index.assets@ == pre.index.assets@.filter(asset_live_p(now))
    &&& post.index.texts@ == pre.index.texts@.filter(text_live_p(now))
    &&& forall|i: int|
        0 <= i < pre.index.assets@.len() && (#[trigger] pre.index.assets@[i]).expire_at <= now
            ==> !contains_asset_memo(post.index.assets@, pre.index.assets@[i].memo_id@)
            && !contains_blob(post.store.blobs@, pre.index.assets@[i].storage_id@)
    &&& forall|i: int|
        0 <= i < pre.index.texts@.len() && (#[trigger] pre.index.texts@[i]).expire_at <= now
            ==> !contains_text_memo(post.index.texts@, pre.index.texts@[i].memo_id@)
    &&& forall|sid: Seq<char>|
        contains_blob(pre.store.blobs@, sid) && !asset_storage_ids(
            pre.index.assets@.filter(asset_expired_p(now)),
        ).contains(sid) ==> #[trigger] contains_blob(post.store.blobs@, sid)
            && post.store.data_of(sid) == pre.store.data_of(sid)
}

impl Server {
    /// One sweep: removes the expired asset rows and hands their storage
    /// ids to the store for deletion, then removes the expired text rows.
    /// Index rows go first, so a failure between the steps leaves at worst
    /// an orphaned blob, never a dangling row.
    pub fn sweep(&mut self, now: u64)
        requires
            old(self).wf(),
        ensures
            final(self).wf(),
            final(self).same_config(*old(self)),
            sweep_post(*old(self), *final(self), now),
    {
        let ids = self.index.list_and_delete_expired_assets(now);
        let ghost swept = string_views(ids@);
        let mut k: usize = 0;
        while k < ids.len()
            invariant
                0 <= k <= ids@.len(),
                self.store.wf(),
                self.index.wf(),
                self.index.assets@ == old(self).index.assets@.filter(asset_live_p(now)),
                self.index.texts@ == old(self).index.texts@,
                self.api_key@ == old(self).api_key@,
                self.default_ttl == old(self).default_ttl,
                self.max_upload == old(self).max_upload,
                swept == string_views(ids@),
                swept == asset_storage_ids(old(self).index.assets@.filter(asset_expired_p(now))),
                forall|j: int| 0 <= j < k ==> !contains_blob(self.store.blobs@, swept[j]),
                forall|sid: Seq<char>|
                    !swept.take(k as int).contains(sid) ==> (#[trigger] contains_blob(
                        self.store.blobs@,
                        sid,
                    ) == contains_blob(old(self).store.blobs@, sid)),
                forall|sid: Seq<char>|
                    !swept.take(k as int).contains(sid) && contains_blob(
                        old(self).store.blobs@,
                        sid,
                    ) ==> #[trigger] self.store.data_of(sid) == old(self).store.data_of(sid),
            decreases ids@.len() - k,
        {
            let ghost before = self.store;
            self.store.delete(&ids[k]);
            proof {
                assert(swept.take(k + 1) =~= swept.take(k as int).push(swept[k as int]));
                assert forall|j: int| 0 <= j < k + 1 implies !contains_blob(
                    self.store.blobs@,
                    swept[j],
                ) by {
                    if j < k {
                        if swept[j] != swept[k as int] {
                            assert(contains_blob(self.store.blobs@, swept[j]) == contains_blob(
                                before.blobs@,
                                swept[j],
                            ));
                        }
                    }
                }
                assert forall|sid: Seq<char>| !swept.take(k + 1).contains(sid) implies (
                #[trigger] contains_blob(self.store.blobs@, sid) == contains_blob(
                    old(self).store.blobs@,
                    sid,
                )) by {
                    assert(!swept.take(k as int).contains(sid)) by {
                        if swept.take(k as int).contains(sid) {
                            let w = choose|w: int|
                                0 <= w < k && swept.take(k as int)[w] == sid;
                            assert(swept.take(k + 1)[w] == sid);
                        }
                    }
                    assert(sid != swept[k as int]) by {
                        if sid == swept[k as int] {
                            assert(swept.take(k + 1)[k as int] == sid);
                        }
                    }
                }
                assert forall|sid: Seq<char>|
                    !swept.take(k + 1).contains(sid) && contains_blob(
                        old(self).store.blobs@,
                        sid,
                    ) implies #[trigger] self.store.data_of(sid) == old(self).store.data_of(
                    sid,
                ) by {
                    assert(!swept.take(k as int).contains(sid)) by {
                        if swept.take(k as int).contains(sid) {
                            let w = choose|w: int|
                                0 <= w < k && swept.take(k as int)[w] == sid;
                            assert(swept.take(k + 1)[w] == sid);
                        }
                    }
                    assert(sid != swept[k as int]) by {
                        if sid == swept[k as int] {
                            assert(swept.take(k + 1)[k as int] == sid);
                        }
                    }
                    assert(contains_blob(before.blobs@, sid));
                }
            }
            k = k + 1;
        }
        proof {
            assert(swept.take(swept.len() as int) =~= swept);
        }
        self.index.delete_expired_texts(now);
        proof {
            self.lemma_sweep_shape(*old(self), swept, now);
        }
    }

    /// Derives the whole-server sweep shape from the component contracts:
    /// uniqueness of ids turns "rows removed, listed blobs deleted" into
    /// "every expired record wholly gone and everything else untouched".
    proof fn lemma_sweep_shape(self, pre: Server, swept: Seq<Seq<char>>, now: u64)
        requires
            pre.wf(),
            self.index.wf(),
            self.store.wf(),
            self.index.assets@ == pre.index.assets@.filter(asset_live_p(now)),
            self.index.texts@ == pre.index.texts@.filter(text_live_p(now)),
            swept == asset_storage_ids(pre.index.assets@.filter(asset_expired_p(now))),
            forall|j: int| 0 <= j < swept.len() ==> !contains_blob(self.store.blobs@, swept[j]),
            forall|sid: Seq<char>|
                !swept.contains(sid) ==> (#[trigger] contains_blob(self.store.blobs@, sid)
                    == contains_blob(pre.store.blobs@, sid)),
            forall|sid: Seq<char>|
                !swept.contains(sid) && contains_blob(pre.store.blobs@, sid)
                    ==> #[trigger] self.store.data_of(sid) == pre.store.data_of(sid),
        ensures
            self.wf(),
            sweep_post(pre, self, now),
    {
        let pa = pre.index.assets@;
        let pt = pre.index.texts@;
        let live = pa.filter(asset_live_p(now));
        let dead = pa.filter(asset_expired_p(now));
        lemma_filter_keeps_distinct(pa, asset_live_p(now), |a: crate::index::Asset| a.storage_id@);
        lemma_filter_keeps_distinct(pa, asset_expired_p(now), |a: crate::index::Asset| a.storage_id@);
        lemma_filter_keeps_distinct(pt, text_live_p(now), |t: crate::index::Text| t.memo_id@);
        // A live asset's storage id is not among the swept ids.
        assert forall|x: int|
            0 <= x < live.len() implies !swept.contains(
            (#[trigger] live[x]).storage_id@,
        ) by {
            assert(pa.contains(live[x]));
            let w = choose|w: int| 0 <= w < pa.len() && pa[w] == live[x];
            pa.lemma_filter_pred(asset_live_p(now), x);
            if swept.contains(live[x].storage_id@) {
                let m = choose|m: int| 0 <= m < swept.len() && swept[m] == live[x].storage_id@;
                assert(dead[m].storage_id@ == live[x].storage_id@);
                assert(pa.contains(dead[m]));
                let w2 = choose|w2: int| 0 <= w2 < pa.len() && pa[w2] == dead[m];
                pa.lemma_filter_pred(asset_expired_p(now), m);
                assert(w2 == w);
            }
        }
        // Well-formedness: every remaining row's blob is still present.
        assert forall|i: int| 0 <= i < self.index.assets@.len() implies contains_blob(
            self.store.blobs@,
            (#[trigger] self.index.assets@[i]).storage_id@,
        ) by {
            assert(pa.contains(live[i]));
            let w = choose|w: int| 0 <= w < pa.len() && pa[w] == live[i];
            assert(contains_blob(pre.store.blobs@, pa[w].storage_id@));
        }
        // Every expired asset is wholly gone.
        assert forall|i: int|
            0 <= i < pa.len() && (#[trigger] pa[i]).expire_at <= now implies !contains_asset_memo(
            self.index.assets@,
            pa[i].memo_id@,
        ) && !contains_blob(self.store.blobs@, pa[i].storage_id@) by {
            if contains_asset_memo(live, pa[i].memo_id@) {
                let x = choose|x: int| 0 <= x < live.len() && live[x].memo_id@ == pa[i].memo_id@;
                assert(pa.contains(live[x]));
                let w = choose|w: int| 0 <= w < pa.len() && pa[w] == live[x];
                pa.lemma_filter_pred(asset_live_p(now), x);
                assert(w == i);
            }
            assert(swept.contains(pa[i].storage_id@)) by {
                lemma_expired_asset_swept(pa, i, now);
            }
            let m = choose|m: int| 0 <= m < swept.len() && swept[m] == pa[i].storage_id@;
            assert(!contains_blob(self.store.blobs@, swept[m]));
        }
        // Every expired text's memo id is free again.
        assert forall|i: int|
            0 <= i < pt.len() && (#[trigger] pt[i]).expire_at <= now implies !contains_text_memo(
            self.index.texts@,
            pt[i].memo_id@,
        ) by {
            let lt = pt.filter(text_live_p(now));
            if contains_text_memo(lt, pt[i].memo_id@) {
                let x = choose|x: int| 0 <= x < lt.len() && lt[x].memo_id@ == pt[i].memo_id@;
                assert(pt.contains(lt[x]));
                let w = choose|w: int| 0 <= w < pt.len() && pt[w] == lt[x];
                pt.lemma_filter_pred(text_live_p(now), x);
                assert(w == i);
            }
        }
    }
}

/// An expired asset's storage id stands in the swept-id list: it is the id
/// of a row of the expired filter.
proof fn lemma_expired_asset_swept(pa: Seq<crate::index::Asset>, i: int, now: u64)
    requires
        0 <= i < pa.len(),
        pa[i].expire_at <= now,
    ensures
        asset_storage_ids(pa.filter(asset_expired_p(now))).contains(pa[i].storage_id@),
{
    pa.lemma_filter_contains(asset_expired_p(now), i);
    let dead = pa.filter(asset_expired_p(now));
    let m = choose|m: int| 0 <= m < dead.len() && dead[m] == pa[i];
    assert(asset_storage_ids(dead)[m] == pa[i].storage_id@);
}

/// After a sweep, an asset that was already expired is wholly gone: no
/// index row carries its memo id — so a download of that id fails its
/// success condition and reports `NotFound` — and its blob is no longer
/// in the object store.
pub proof fn lemma_download_after_sweep(pre: Server, post: Server, now: u64, i: int)
    requires
        sweep_post(pre, post, now),
        0 <= i < pre.index.assets@.len(),
        pre.index.assets@[i].expire_at <= now,
    ensures
        !contains_asset_memo(post.index.assets@, pre.index.assets@[i].memo_id@),
        !contains_blob(post.store.blobs@, pre.index.assets@[i].storage_id@),
{
}

/// The timer that drives the collector: the loop is Idle until the
/// deadline passes, then runs one sweep and is Idle again. Sweeps never
/// overlap: one runs to completion inside one tick, and a sweep that
/// overruns only delays the next deadline.
pub struct GarbageCollector {
    /// The configured sweep interval, in milliseconds.
    pub interval: u64,
    /// The deadline of the next sweep.
    pub next_run: u64,
}

impl GarbageCollector {
    /// A collector whose first sweep is due one interval from now.
    pub fn new(interval: u64, now: u64) -> (gc: GarbageCollector)
        requires
            now + interval <= u64::MAX,
        ensures
            gc.interval == interval,
            gc.next_run == now + interval,
    {
        GarbageCollector { interval, next_run: now + interval }
    }

    /// One tick of the timer loop: sweeps exactly when the deadline has
    /// passed, and then schedules the next sweep one interval after this
    /// tick, so an overrunning sweep delays rather than overlaps.
    pub fn tick(&mut self, server: &mut Server, now: u64) -> (swept: bool)
        requires
            old(server).wf(),
            now + old(self).interval <= u64::MAX,
        ensures
            final(self).interval == old(self).interval,
            final(server).wf(),
            final(server).same_config(*old(server)),
            swept == (now >= old(self).next_run),
            swept ==> final(self).next_run == now + old(self).interval && sweep_post(
                *old(server),
                *final(server),
                now,
            ),
            !swept ==> final(self).next_run == old(self).next_run && *final(server) == *old(
                server,
            ),
    {
        if now >= self.next_run {
            server.sweep(now);
            self.next_run = now + self.interval;
            true
        } else {
            false
        }
    }
}

} // verus!
