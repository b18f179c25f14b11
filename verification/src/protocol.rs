//! The wire shapes of the four operations — upload, download, paste, copy —
//! independent of any transport library.

use vstd::prelude::*;

verus! {

/// The request header carrying the shared API key on authenticated calls.
pub const API_KEY_HEADER: &'static str = "filecrab-key";

/// The response header carrying the original file name of a download.
pub const FILE_NAME_HEADER: &'static str = "filecrab-file-name";

/// Answer to an upload or paste: the memorable id to share.
pub struct CreateResponse {
    /// The memorable id of the new record.
    pub id: String,
}

/// Body of a paste request: the byte-safe (hex) encoding of the ciphertext.
pub struct PasteBody {
    /// Hex-encoded ciphertext.
    pub content: String,
}

/// Answer to a copy: the stored content, hex-encoded ciphertext.
pub struct CopyResponse {
    /// Hex-encoded ciphertext.
    pub content: String,
}

/// Query of a download: the memorable id, absent when the caller sent none.
pub struct DownloadParams {
    /// The memorable id to fetch.
    pub file: Option<String>,
}

/// Query of a copy: the memorable id.
pub struct CopyParams {
    /// The memorable id to fetch and delete.
    pub memo_id: String,
}

/// Answer to a download: the stored bytes with the name to save them
/// under and the length announced ahead of the body.
pub struct DownloadReply {
    /// The original file name, carried in a response header.
    pub file_name: String,
    /// The announced body length.
    pub content_length: usize,
    /// The raw (possibly encrypted) bytes.
    pub body: Vec<u8>,
}

} // verus!
