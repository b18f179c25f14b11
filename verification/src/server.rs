//! The server: the metadata index and the object store behind the four
//! operations of the wire API, guarded by a shared API key.

use crate::error::TransferError;
use crate::ids::{fresh_memo_id, random_storage_token, valid_storage_token};
use crate::index::{
    contains_asset_memo, contains_asset_storage, contains_live_asset_memo, contains_text_memo,
    contains_text_storage, Asset, MetadataIndex, Text,
};
use crate::protocol::{
    CopyParams, CopyResponse, CreateResponse, DownloadParams, DownloadReply, PasteBody,
};
use crate::store::{blob_data_of, contains_blob, ObjectStore};
use vstd::prelude::*;
use vstd::string::StrSliceExecFns;

verus! {

/// How many times a create is retried with fresh random identifiers when
/// they collide with a live record.
pub const ID_RETRY_LIMIT: usize = 8;

/// The content of the text row that carries this memo id, when one does.
pub open spec fn text_content_of(s: Seq<Text>, memo: Seq<char>) -> Seq<char> {
    s[choose|i: int| 0 <= i < s.len() && s[i].memo_id@ == memo].content@
}

/// The server state: index, store, and the configuration the handlers
/// read — the shared API key and the default TTL in milliseconds.
pub struct Server {
    /// The metadata index.
    pub index: MetadataIndex,
    /// The object store.
    pub store: ObjectStore,
    /// The shared secret every authenticated call must carry.
    pub api_key: String,
    /// Default TTL in milliseconds for records created without an expiry.
    pub default_ttl: u64,
    /// The maximum accepted payload size: bytes of an upload body, and
    /// characters of a paste payload, whose hex framing is ASCII.
    pub max_upload: u64,
}

impl Server {
    /// Well-formedness: both components are well-formed, and every asset
    /// row's blob is present — the sweep removes index rows first, so a
    /// row never dangles without its blob.
    pub open spec fn wf(self) -> bool {
        &&& self.index.wf()
        &&& self.store.wf()
        &&& forall|i: int|
            0 <= i < self.index.assets@.len() ==> contains_blob(
                self.store.blobs@,
                #[trigger] self.index.assets@[i].storage_id@,
            )
    }

    /// The configuration of the handlers never changes.
    pub open spec fn same_config(self, other: Server) -> bool {
        self.api_key@ == other.api_key@ && self.default_ttl == other.default_ttl
            && self.max_upload == other.max_upload
    }

    /// A fresh server around an empty index and store.
    pub fn new(api_key: String, default_ttl: u64, max_upload: u64) -> (s: Server)
        ensures
            s.wf(),
            s.index.assets@.len() == 0,
            s.index.texts@.len() == 0,
            s.store.blobs@.len() == 0,
            s.api_key@ == api_key@,
            s.default_ttl == default_ttl,
            s.max_upload == max_upload,
    {
        Server {
            index: MetadataIndex::new(),
            store: ObjectStore::new(),
            api_key,
            default_ttl,
            max_upload,
        }
    }

    /// The shared-key check that guards every call but plain download:
    /// passes exactly when the caller presented the configured key.
    pub fn authorize(&self, provided: Option<&String>) -> (r: Result<(), TransferError>)
        ensures
            r is Ok <==> (match provided {
                Some(k) => k@ == self.api_key@,
                None => false,
            }),
            r is Err ==> r == Err::<(), TransferError>(TransferError::Unauthorized),
    {
        match provided {
            Some(k) => {
                if *k == self.api_key {
                    Ok(())
                } else {
                    Err(TransferError::Unauthorized)
                }
            },
            None => Err(TransferError::Unauthorized),
        }
    }

    /// Upload with caller-supplied identifiers: stores the body under the
    /// storage id and creates the asset row. Succeeds exactly when the
    /// body fits the configured maximum, a file name was given, and both
    /// identifiers are fresh; a collision is `DuplicateIdentifier`, for
    /// the retrying caller. Nothing changes on failure.
    pub fn handle_upload_with_ids(
        &mut self,
        file_name: Option<String>,
        encrypted: bool,
        body: &Vec<u8>,
        expire_at: Option<u64>,
        now: u64,
        memo_id: String,
        storage_id: String,
    ) -> (r: Result<CreateResponse, TransferError>)
        requires
            old(self).wf(),
            now + old(self).default_ttl <= u64::MAX,
        ensures
            final(self).wf(),
            final(self).same_config(*old(self)),
            r is Ok <==> body@.len() <= old(self).max_upload && file_name is Some && !old(
                self,
            ).index.memo_live(memo_id@) && !contains_asset_storage(
                old(self).index.assets@,
                storage_id@,
            ),
            match r {
                Ok(resp) => {
                    &&& resp.id@ == memo_id@
                    &&& final(self).index.texts@ == old(self).index.texts@
                    &&& final(self).index.assets@.len() == old(self).index.assets@.len() + 1
                    &&& final(self).index.assets@ == old(self).index.assets@.push(
                        final(self).index.assets@.last(),
                    )
                    &&& {
                        let a = final(self).index.assets@.last();
                        &&& a.memo_id@ == memo_id@
                        &&& a.storage_id@ == storage_id@
                        &&& a.file_name@ == file_name->Some_0@
                        &&& a.encrypted == encrypted
                        &&& a.expire_at == (match expire_at {
                            Some(t) => t as int,
                            None => now + old(self).default_ttl,
                        })
                    }
                    &&& contains_blob(final(self).store.blobs@, storage_id@)
                    &&& final(self).store.data_of(storage_id@) == body@
                    &&& forall|sid: Seq<char>|
                        sid != storage_id@ ==> (#[trigger] contains_blob(
                            final(self).store.blobs@,
                            sid,
                        ) == contains_blob(old(self).store.blobs@, sid))
                    &&& forall|sid: Seq<char>|
                        sid != storage_id@ && contains_blob(old(self).store.blobs@, sid)
                            ==> #[trigger] final(self).store.data_of(sid) == old(
                            self,
                        ).store.data_of(sid)
                },
                Err(e) => {
                    &&& final(self).index.assets@ == old(self).index.assets@
                    &&& final(self).index.texts@ == old(self).index.texts@
                    &&& final(self).store.blobs@ == old(self).store.blobs@
                    &&& (e == TransferError::PayloadTooLarge <==> body@.len() > old(
                        self,
                    ).max_upload)
                    &&& (e == TransferError::MissingFileName <==> body@.len() <= old(
                        self,
                    ).max_upload && file_name is None)
                    &&& (body@.len() <= old(self).max_upload && file_name is Some ==> e
                        == TransferError::DuplicateIdentifier)
                },
            },
    {
        if body.len() as u64 > self.max_upload {
            return Err(TransferError::PayloadTooLarge);
        }
        let name = match file_name {
            Some(n) => n,
            None => {
                return Err(TransferError::MissingFileName);
            },
        };
        let ghost sid = storage_id@;
        let created = self.index.create_asset(
            name,
            encrypted,
            expire_at,
            now,
            self.default_ttl,
            memo_id,
            storage_id,
        );
        let asset = match created {
            Ok(a) => a,
            Err(e) => {
                return Err(e);
            },
        };
        let mut data: Vec<u8> = Vec::new();
        data.extend_from_slice(body.as_slice());
        self.store.put_stream(&asset.storage_id, data);
        proof {
            assert(final(self).index.assets@.last() == asset);
            assert forall|i: int| 0 <= i < self.index.assets@.len() implies contains_blob(
                self.store.blobs@,
                #[trigger] self.index.assets@[i].storage_id@,
            ) by {
                if i < self.index.assets@.len() - 1 {
                    assert(old(self).index.assets@[i] == self.index.assets@[i]);
                    assert(self.index.assets@[i].storage_id@ != sid);
                }
            }
        }
        Ok(CreateResponse { id: asset.memo_id })
    }

    /// Upload: draws a fresh memorable id and a fresh sixteen-character
    /// alphanumeric storage token, retrying on the pathological collision,
    /// and stores the body. An oversized body and a missing file name are
    /// rejected; a collision is never surfaced unless the retries are
    /// exhausted.
    pub fn handle_upload(
        &mut self,
        file_name: Option<String>,
        encrypted: bool,
        body: &Vec<u8>,
        expire_at: Option<u64>,
        now: u64,
    ) -> (r: Result<CreateResponse, TransferError>)
        requires
            old(self).wf(),
            now + old(self).default_ttl <= u64::MAX,
        ensures
            final(self).wf(),
            final(self).same_config(*old(self)),
            r == Err::<CreateResponse, TransferError>(TransferError::PayloadTooLarge) <==> body@.len()
                > old(self).max_upload,
            r == Err::<CreateResponse, TransferError>(TransferError::MissingFileName) <==> body@.len()
                <= old(self).max_upload && file_name is None,
            match r {
                Ok(resp) => {
                    &&& resp.id@.len() > 0
                    &&& final(self).index.texts@ == old(self).index.texts@
                    &&& final(self).index.assets@.len() == old(self).index.assets@.len() + 1
                    &&& final(self).index.assets@ == old(self).index.assets@.push(
                        final(self).index.assets@.last(),
                    )
                    &&& {
                        let a = final(self).index.assets@.last();
                        &&& a.memo_id@ == resp.id@
                        &&& !old(self).index.memo_live(a.memo_id@)
                        &&& valid_storage_token(a.storage_id@)
                        &&& a.file_name@ == file_name->Some_0@
                        &&& a.encrypted == encrypted
                        &&& a.expire_at == (match expire_at {
                            Some(t) => t as int,
                            None => now + old(self).default_ttl,
                        })
                        &&& contains_blob(final(self).store.blobs@, a.storage_id@)
                        &&& final(self).store.data_of(a.storage_id@) == body@
                    }
                },
                Err(e) => {
                    &&& final(self).index.assets@ == old(self).index.assets@
                    &&& final(self).index.texts@ == old(self).index.texts@
                    &&& final(self).store.blobs@ == old(self).store.blobs@
                    &&& (e == TransferError::PayloadTooLarge || e == TransferError::MissingFileName
                        || e == TransferError::DuplicateIdentifier)
                },
            },
    {
        if body.len() as u64 > self.max_upload {
            return Err(TransferError::PayloadTooLarge);
        }
        if file_name.is_none() {
            return Err(TransferError::MissingFileName);
        }
        let mut attempts: usize = 0;
        while attempts < ID_RETRY_LIMIT
            invariant
                self.wf(),
                self.same_config(*old(self)),
                self.index.assets@ == old(self).index.assets@,
                self.index.texts@ == old(self).index.texts@,
                self.store.blobs@ == old(self).store.blobs@,
                now + self.default_ttl <= u64::MAX,
                file_name is Some,
                body@.len() <= self.max_upload,
            decreases ID_RETRY_LIMIT - attempts,
        {
            let memo_id = fresh_memo_id();
            let storage_id = random_storage_token();
            let name = match &file_name {
                Some(n) => Some(n.clone()),
                None => None,
            };
            let r = self.handle_upload_with_ids(
                name,
                encrypted,
                body,
                expire_at,
                now,
                memo_id,
                storage_id,
            );
            match r {
                Ok(resp) => {
                    return Ok(resp);
                },
                Err(_) => {},
            }
            attempts = attempts + 1;
        }
        Err(TransferError::DuplicateIdentifier)
    }

    /// Download: open to unauthenticated callers. Succeeds exactly when an
    /// asset row carries the memo id and has not yet expired — a row whose
    /// expiry has passed counts as deleted even before the sweep removes
    /// it. The reply holds the stored bytes, their length, and the
    /// original file name. Nothing changes.
    pub fn handle_download(&self, params: DownloadParams, now: u64) -> (r: Result<
        DownloadReply,
        TransferError,
    >)
        requires
            self.wf(),
        ensures
            r is Ok <==> (params.file is Some && contains_live_asset_memo(
                self.index.assets@,
                params.file->Some_0@,
                now,
            )),
            match r {
                Ok(reply) => exists|i: int|
                    {
                        &&& 0 <= i < self.index.assets@.len()
                        &&& (#[trigger] self.index.assets@[i]).memo_id@ == params.file->Some_0@
                        &&& self.index.assets@[i].expire_at > now
                        &&& reply.file_name@ == self.index.assets@[i].file_name@
                        &&& reply.body@ == self.store.data_of(self.index.assets@[i].storage_id@)
                        &&& reply.content_length == reply.body@.len()
                    },
                Err(e) => e == TransferError::NotFound,
            },
    {
        let memo = match params.file {
            Some(m) => m,
            None => {
                return Err(TransferError::NotFound);
            },
        };
        let asset = match self.index.find_asset_by_memo(&memo) {
            Ok(a) => a,
            Err(e) => {
                proof {
                    assert(!contains_live_asset_memo(self.index.assets@, memo@, now));
                }
                return Err(e);
            },
        };
        let ghost w = choose|i: int|
            0 <= i < self.index.assets@.len() && self.index.assets@[i] == asset;
        if asset.expire_at <= now {
            proof {
                assert forall|j: int|
                    0 <= j < self.index.assets@.len() && self.index.assets@[j].memo_id@
                        == memo@ implies self.index.assets@[j].expire_at <= now by {
                    if j != w {
                        assert(self.index.assets@[j].memo_id@
                            != self.index.assets@[w].memo_id@);
                    }
                }
            }
            return Err(TransferError::NotFound);
        }
        let (body, len) = match self.store.get_stream(&asset.storage_id) {
            Ok(p) => p,
            Err(_) => {
                proof {
                    assert(contains_blob(self.store.blobs@, self.index.assets@[w].storage_id@));
                }
                return Err(TransferError::NotFound);
            },
        };
        Ok(DownloadReply { file_name: asset.file_name, content_length: len, body })
    }

    /// Paste with caller-supplied identifiers: creates the text row.
    /// Succeeds exactly when the content fits the configured maximum, is
    /// nonempty, and both identifiers are fresh; a collision is
    /// `DuplicateIdentifier`, for the retrying caller. Nothing changes on
    /// failure.
    pub fn handle_paste_with_ids(
        &mut self,
        content: String,
        now: u64,
        memo_id: String,
        storage_id: String,
    ) -> (r: Result<CreateResponse, TransferError>)
        requires
            old(self).wf(),
            now + old(self).default_ttl <= u64::MAX,
        ensures
            final(self).wf(),
            final(self).same_config(*old(self)),
            r is Ok <==> content@.len() <= old(self).max_upload && content@.len() > 0
                && !old(self).index.memo_live(memo_id@) && !contains_text_storage(
                old(self).index.texts@,
                storage_id@,
            ),
            match r {
                Ok(resp) => {
                    &&& resp.id@ == memo_id@
                    &&& final(self).index.assets@ == old(self).index.assets@
                    &&& final(self).store.blobs@ == old(self).store.blobs@
                    &&& final(self).index.texts@.len() == old(self).index.texts@.len() + 1
                    &&& final(self).index.texts@ == old(self).index.texts@.push(
                        final(self).index.texts@.last(),
                    )
                    &&& {
                        let t = final(self).index.texts@.last();
                        &&& t.memo_id@ == memo_id@
                        &&& t.storage_id@ == storage_id@
                        &&& t.content@ == content@
                        &&& t.expire_at == now + old(self).default_ttl
                    }
                },
                Err(e) => {
                    &&& final(self).index.assets@ == old(self).index.assets@
                    &&& final(self).index.texts@ == old(self).index.texts@
                    &&& final(self).store.blobs@ == old(self).store.blobs@
                    &&& (e == TransferError::PayloadTooLarge <==> content@.len()
                        > old(self).max_upload)
                    &&& (e == TransferError::EmptyInput <==> content@.len() <= old(
                        self,
                    ).max_upload && content@.len() == 0)
                    &&& (content@.len() <= old(self).max_upload && content@.len() > 0
                        ==> e == TransferError::DuplicateIdentifier)
                },
            },
    {
        let payload_len = content.as_str().unicode_len();
        if payload_len as u64 > self.max_upload {
            return Err(TransferError::PayloadTooLarge);
        }
        if content.as_str().is_empty() {
            return Err(TransferError::EmptyInput);
        }
        let created = self.index.create_text(content, now, self.default_ttl, memo_id, storage_id);
        match created {
            Ok(t) => Ok(CreateResponse { id: t.memo_id }),
            Err(e) => Err(e),
        }
    }

    /// Paste: draws fresh identifiers, retrying on the pathological
    /// collision, and creates the text row. An oversized and an empty
    /// content are rejected.
    pub fn handle_paste(&mut self, body: PasteBody, now: u64) -> (r: Result<
        CreateResponse,
        TransferError,
    >)
        requires
            old(self).wf(),
            now + old(self).default_ttl <= u64::MAX,
        ensures
            final(self).wf(),
            final(self).same_config(*old(self)),
            r == Err::<CreateResponse, TransferError>(TransferError::PayloadTooLarge)
                <==> body.content@.len() > old(self).max_upload,
            r == Err::<CreateResponse, TransferError>(TransferError::EmptyInput) <==> body.content@.len()
                <= old(self).max_upload && body.content@.len() == 0,
            match r {
                Ok(resp) => {
                    &&& resp.id@.len() > 0
                    &&& final(self).index.assets@ == old(self).index.assets@
                    &&& final(self).store.blobs@ == old(self).store.blobs@
                    &&& final(self).index.texts@.len() == old(self).index.texts@.len() + 1
                    &&& final(self).index.texts@ == old(self).index.texts@.push(
                        final(self).index.texts@.last(),
                    )
                    &&& {
                        let t = final(self).index.texts@.last();
                        &&& t.memo_id@ == resp.id@
                        &&& !old(self).index.memo_live(t.memo_id@)
                        &&& t.content@ == body.content@
                        &&& t.expire_at == now + old(self).default_ttl
                    }
                },
                Err(e) => {
                    &&& final(self).index.assets@ == old(self).index.assets@
                    &&& final(self).index.texts@ == old(self).index.texts@
                    &&& final(self).store.blobs@ == old(self).store.blobs@
                    &&& (e == TransferError::PayloadTooLarge || e == TransferError::EmptyInput || e
                        == TransferError::DuplicateIdentifier)
                },
            },
    {
        let content = body.content;
        let payload_len = content.as_str().unicode_len();
        if payload_len as u64 > self.max_upload {
            return Err(TransferError::PayloadTooLarge);
        }
        if content.as_str().is_empty() {
            return Err(TransferError::EmptyInput);
        }
        let mut attempts: usize = 0;
        while attempts < ID_RETRY_LIMIT
            invariant
                self.wf(),
                self.same_config(*old(self)),
                self.index.assets@ == old(self).index.assets@,
                self.index.texts@ == old(self).index.texts@,
                self.store.blobs@ == old(self).store.blobs@,
                now + self.default_ttl <= u64::MAX,
                content@ == body.content@,
                content@.len() > 0,
                content@.len() <= self.max_upload,
            decreases ID_RETRY_LIMIT - attempts,
        {
            let memo_id = fresh_memo_id();
            let storage_id = random_storage_token();
            let r = self.handle_paste_with_ids(content.clone(), now, memo_id, storage_id);
            match r {
                Ok(resp) => {
                    return Ok(resp);
                },
                Err(_) => {},
            }
            attempts = attempts + 1;
        }
        Err(TransferError::DuplicateIdentifier)
    }

    /// Copy: succeeds exactly when the memo id is nonempty and a text row
    /// carries it; returns the stored content and then deletes the row, so
    /// that no second copy of the same memo id can succeed. An empty memo
    /// id is rejected. Nothing else changes.
    pub fn handle_copy(&mut self, params: CopyParams) -> (r: Result<
        CopyResponse,
        TransferError,
    >)
        requires
            old(self).wf(),
        ensures
            final(self).wf(),
            final(self).same_config(*old(self)),
            final(self).index.assets@ == old(self).index.assets@,
            final(self).store.blobs@ == old(self).store.blobs@,
            r is Ok <==> params.memo_id@.len() > 0 && contains_text_memo(
                old(self).index.texts@,
                params.memo_id@,
            ),
            match r {
                Ok(resp) => {
                    &&& resp.content@ == text_content_of(old(self).index.texts@, params.memo_id@)
                    &&& !contains_text_memo(final(self).index.texts@, params.memo_id@)
                    &&& exists|i: int|
                        {
                            &&& 0 <= i < old(self).index.texts@.len()
                            &&& (#[trigger] old(self).index.texts@[i]).memo_id@ == params.memo_id@
                            &&& final(self).index.texts@ == old(self).index.texts@.remove(i)
                        }
                    &&& forall|m: Seq<char>|
                        m != params.memo_id@ ==> (#[trigger] contains_text_memo(
                            final(self).index.texts@,
                            m,
                        ) == contains_text_memo(old(self).index.texts@, m))
                },
                Err(e) => {
                    &&& final(self).index.texts@ == old(self).index.texts@
                    &&& (e == TransferError::EmptyInput <==> params.memo_id@.len() == 0)
                    &&& (params.memo_id@.len() > 0 ==> e == TransferError::NotFound)
                },
            },
    {
        if params.memo_id.as_str().is_empty() {
            return Err(TransferError::EmptyInput);
        }
        let text = match self.index.find_text_by_memo(&params.memo_id) {
            Ok(t) => t,
            Err(e) => {
                return Err(e);
            },
        };
        let ghost pre = self.index.texts@;
        let ghost ti = choose|i: int| 0 <= i < pre.len() && pre[i] == text;
        proof {
            let w = choose|i: int| 0 <= i < pre.len() && pre[i].memo_id@ == params.memo_id@;
            assert(pre[ti].memo_id@ == params.memo_id@);
        }
        let content = text.content;
        self.index.delete_text(&text.storage_id);
        proof {
            let rem = choose|i: int|
                0 <= i < pre.len() && pre[i].storage_id@ == text.storage_id@
                    && self.index.texts@ == pre.remove(i);
            assert(contains_text_storage(pre, text.storage_id@)) by {
                assert(pre[ti].storage_id@ == text.storage_id@);
            }
            assert(pre[rem].storage_id@ == pre[ti].storage_id@);
            assert(rem == ti);
            let post = self.index.texts@;
            assert forall|k: int| 0 <= k < post.len() implies post[k].memo_id@
                != params.memo_id@ by {
                if k < rem {
                    assert(post[k] == pre[k]);
                } else {
                    assert(post[k] == pre[k + 1]);
                }
            }
            assert forall|m: Seq<char>| m != params.memo_id@ implies (#[trigger] contains_text_memo(
                post,
                m,
            ) == contains_text_memo(pre, m)) by {
                if contains_text_memo(post, m) {
                    let k = choose|i: int| 0 <= i < post.len() && post[i].memo_id@ == m;
                    if k < rem {
                        assert(pre[k] == post[k]);
                    } else {
                        assert(pre[k + 1] == post[k]);
                    }
                }
                if contains_text_memo(pre, m) {
                    let k = choose|i: int| 0 <= i < pre.len() && pre[i].memo_id@ == m;
                    assert(k != ti);
                    if k < rem {
                        assert(post[k] == pre[k]);
                    } else {
                        assert(post[k - 1] == pre[k]);
                    }
                }
            }
            assert(text_content_of(pre, params.memo_id@) == content@) by {
                let w = choose|i: int| 0 <= i < pre.len() && pre[i].memo_id@ == params.memo_id@;
                assert(pre[ti].memo_id@ == params.memo_id@);
                assert(w == ti);
            }
        }
        Ok(CopyResponse { content })
    }
}

} // verus!
