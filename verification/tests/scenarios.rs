//! End-to-end runs of the whole pipeline: client preparation, server
//! handling, garbage collection, and client resolution.

use filecrab::client::{
    prepare_paste, prepare_upload, process_copy, process_download, DownloadOutcome,
};
use filecrab::error::TransferError;
use filecrab::protocol::{CopyParams, DownloadParams, PasteBody};
use filecrab::server::Server;

const TTL: u64 = 3_600_000;
const MAX_UPLOAD: u64 = 64 * 1024 * 1024;

/// Ten megabytes of varied bytes.
fn big_file() -> Vec<u8> {
    let mut data = Vec::with_capacity(10 * 1024 * 1024);
    let mut x: u32 = 0x2545_F491;
    for _ in 0..(10 * 1024 * 1024) {
        x ^= x << 13;
        x ^= x >> 17;
        x ^= x << 5;
        data.push(x as u8);
    }
    data
}

#[test]
fn upload_download_ten_megabytes_with_auto_detection() {
    let original = big_file();
    let mut server = Server::new("key".to_string(), TTL, MAX_UPLOAD);

    // Sender side: encrypt under the passphrase, then upload.
    let req = prepare_upload(original.clone(), "big.bin".to_string(), Some("hunter2"));
    let resp = server
        .handle_upload(Some(req.file_name), req.encrypted, &req.body, None, 1_000)
        .unwrap();

    // Receiver side: download without a passphrase first; the classifier
    // detects ciphertext, so the receiver supplies one and decrypts.
    let reply = server
        .handle_download(DownloadParams { file: Some(resp.id) }, 1_000)
        .unwrap();
    assert_eq!(reply.file_name, "big.bin");
    let body = match process_download(reply.body, None).unwrap() {
        DownloadOutcome::NeedsPassphrase => {
            let reply = server
                .handle_download(
                    DownloadParams { file: Some(server.index.assets[0].memo_id.clone()) },
                    1_000,
                )
                .unwrap();
            match process_download(reply.body, Some("hunter2")).unwrap() {
                DownloadOutcome::Decrypted(p) => p,
                _ => panic!("the passphrase must decrypt the body"),
            }
        }
        _ => panic!("an encrypted body must ask for a passphrase"),
    };
    assert_eq!(body.len(), original.len());
    assert_eq!(body, original);
}

#[test]
fn paste_copy_copy_again() {
    let mut server = Server::new("key".to_string(), TTL, MAX_UPLOAD);

    let framed = prepare_paste("hello world", "p@ss");
    let resp = server.handle_paste(PasteBody { content: framed }, 1_000).unwrap();

    let copied = server
        .handle_copy(CopyParams { memo_id: resp.id.clone() })
        .unwrap();
    assert_eq!(process_copy(&copied.content, "p@ss").unwrap(), "hello world");

    let again = server.handle_copy(CopyParams { memo_id: resp.id });
    assert_eq!(again.map(|_| ()), Err(TransferError::NotFound));
}

#[test]
fn upload_already_expired_then_sweep() {
    let mut server = Server::new("key".to_string(), TTL, MAX_UPLOAD);
    let body: Vec<u8> = b"gone in a second".to_vec();
    let now: u64 = 10_000;

    let resp = server
        .handle_upload(Some("brief.bin".to_string()), false, &body, Some(now - 1_000), now)
        .unwrap();
    let sid = server.index.assets[0].storage_id.clone();

    server.sweep(now);

    let r = server.handle_download(DownloadParams { file: Some(resp.id) }, now);
    assert_eq!(r.map(|_| ()), Err(TransferError::NotFound));
    assert_eq!(server.store.get_stream(&sid).map(|_| ()), Err(TransferError::NotFound));
    assert!(server.store.blobs.is_empty());
}
