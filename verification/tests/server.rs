use filecrab::error::TransferError;
use filecrab::gc::GarbageCollector;
use filecrab::protocol::{CopyParams, DownloadParams, PasteBody};
use filecrab::server::Server;

const TTL: u64 = 3_600_000;
const MAX_UPLOAD: u64 = 16 * 1024 * 1024;

fn server() -> Server {
    Server::new("sesame".to_string(), TTL, MAX_UPLOAD)
}

#[test]
fn authorize_accepts_the_configured_key_only() {
    let s = server();
    let good = "sesame".to_string();
    let bad = "SECRET-REDACTED".to_string();
    assert!(s.authorize(Some(&good)).is_ok());
    assert_eq!(s.authorize(Some(&bad)), Err(TransferError::Unauthorized));
    assert_eq!(s.authorize(None), Err(TransferError::Unauthorized));
    assert_eq!(TransferError::Unauthorized.status_code(), 401);
}

#[test]
fn upload_then_download_returns_the_bytes() {
    let mut s = server();
    let body: Vec<u8> = b"file bytes".to_vec();
    let resp = s
        .handle_upload(Some("a.txt".to_string()), false, &body, None, 1_000)
        .unwrap();
    assert!(!resp.id.is_empty());
    let reply = s
        .handle_download(DownloadParams { file: Some(resp.id.clone()) }, 1_000)
        .unwrap();
    assert_eq!(reply.file_name, "a.txt");
    assert_eq!(reply.body, body);
    assert_eq!(reply.content_length, body.len());
    // The storage token is sixteen alphanumeric characters.
    let sid = &s.index.assets[0].storage_id;
    assert_eq!(sid.len(), 16);
    assert!(sid.chars().all(|c| c.is_ascii_alphanumeric()));
}

#[test]
fn download_of_unknown_memo_is_not_found() {
    let s = server();
    let r = s.handle_download(DownloadParams { file: Some("no_such_memo".to_string()) }, 1_000);
    assert_eq!(r.map(|_| ()), Err(TransferError::NotFound));
    let r = s.handle_download(DownloadParams { file: None }, 1_000);
    assert_eq!(r.map(|_| ()), Err(TransferError::NotFound));
    assert_eq!(TransferError::NotFound.status_code(), 404);
}

#[test]
fn upload_without_file_name_is_rejected() {
    let mut s = server();
    let body: Vec<u8> = b"file bytes".to_vec();
    let r = s.handle_upload(None, false, &body, None, 1_000);
    assert_eq!(r.map(|_| ()), Err(TransferError::MissingFileName));
    assert_eq!(TransferError::MissingFileName.status_code(), 400);
    assert_eq!(s.index.assets.len(), 0);
}

#[test]
fn upload_defaults_the_expiry_to_now_plus_ttl() {
    let mut s = server();
    let body: Vec<u8> = b"x".to_vec();
    s.handle_upload(Some("a".to_string()), false, &body, None, 5_000).unwrap();
    s.handle_upload(Some("b".to_string()), false, &body, Some(42), 5_000).unwrap();
    assert_eq!(s.index.assets[0].expire_at, 5_000 + TTL);
    assert_eq!(s.index.assets[1].expire_at, 42);
}

#[test]
fn memo_ids_are_unique_among_live_records() {
    let mut s = server();
    let body: Vec<u8> = b"x".to_vec();
    let mut ids: Vec<String> = Vec::new();
    for i in 0..8 {
        let name = format!("f{i}");
        ids.push(s.handle_upload(Some(name), false, &body, None, 1_000).unwrap().id);
    }
    ids.push(s.handle_paste(PasteBody { content: "74657874".to_string() }, 1_000).unwrap().id);
    for a in 0..ids.len() {
        for b in 0..a {
            assert_ne!(ids[a], ids[b]);
        }
    }
}

#[test]
fn paste_of_empty_content_is_rejected() {
    let mut s = server();
    let r = s.handle_paste(PasteBody { content: String::new() }, 1_000);
    assert_eq!(r.map(|_| ()), Err(TransferError::EmptyInput));
    assert_eq!(TransferError::EmptyInput.status_code(), 400);
}

#[test]
fn copy_returns_the_content_once_then_not_found() {
    let mut s = server();
    let resp = s.handle_paste(PasteBody { content: "636f6e74656e74".to_string() }, 1_000).unwrap();
    let first = s
        .handle_copy(CopyParams { memo_id: resp.id.clone() })
        .unwrap();
    assert_eq!(first.content, "636f6e74656e74");
    let second = s.handle_copy(CopyParams { memo_id: resp.id.clone() });
    assert_eq!(second.map(|_| ()), Err(TransferError::NotFound));
}

#[test]
fn copy_of_empty_memo_is_rejected() {
    let mut s = server();
    let r = s.handle_copy(CopyParams { memo_id: String::new() });
    assert_eq!(r.map(|_| ()), Err(TransferError::EmptyInput));
}

#[test]
fn sweep_removes_expired_rows_and_blobs() {
    let mut s = server();
    let body: Vec<u8> = b"doomed".to_vec();
    let keep: Vec<u8> = b"kept".to_vec();
    let doomed = s
        .handle_upload(Some("old.bin".to_string()), false, &body, Some(1_000), 500)
        .unwrap();
    let kept = s
        .handle_upload(Some("new.bin".to_string()), false, &keep, Some(9_000), 500)
        .unwrap();
    let doomed_sid = s.index.assets[0].storage_id.clone();
    s.sweep(2_000);
    // The expired row and its blob are gone.
    let r = s.handle_download(DownloadParams { file: Some(doomed.id) }, 2_000);
    assert_eq!(r.map(|_| ()), Err(TransferError::NotFound));
    assert_eq!(s.store.get_stream(&doomed_sid).map(|_| ()), Err(TransferError::NotFound));
    // The live row and its blob survive.
    let reply = s.handle_download(DownloadParams { file: Some(kept.id) }, 2_000).unwrap();
    assert_eq!(reply.body, keep);
}

#[test]
fn sweep_removes_expired_texts() {
    let mut s = server();
    let resp = s.handle_paste(PasteBody { content: "61".to_string() }, 1_000).unwrap();
    s.sweep(1_000 + TTL);
    let r = s.handle_copy(CopyParams { memo_id: resp.id });
    assert_eq!(r.map(|_| ()), Err(TransferError::NotFound));
    assert_eq!(s.index.texts.len(), 0);
}

#[test]
fn expired_but_unswept_asset_is_already_not_found() {
    let mut s = server();
    let body: Vec<u8> = b"short lived".to_vec();
    let resp = s
        .handle_upload(Some("f.bin".to_string()), false, &body, Some(4_000), 3_000)
        .unwrap();
    // Before the expiry the row serves; at and after it, it counts as
    // deleted even though no sweep has run yet.
    assert!(s.handle_download(DownloadParams { file: Some(resp.id.clone()) }, 3_999).is_ok());
    let r = s.handle_download(DownloadParams { file: Some(resp.id) }, 4_000);
    assert_eq!(r.map(|_| ()), Err(TransferError::NotFound));
    assert_eq!(s.index.assets.len(), 1);
}

#[test]
fn oversized_payloads_are_rejected() {
    let mut s = Server::new("sesame".to_string(), TTL, 8);
    let big: Vec<u8> = vec![0u8; 9];
    let r = s.handle_upload(Some("big.bin".to_string()), false, &big, None, 1_000);
    assert_eq!(r.map(|_| ()), Err(TransferError::PayloadTooLarge));
    assert_eq!(TransferError::PayloadTooLarge.status_code(), 413);
    // The limit outranks the missing file name, as the transport check does.
    let r = s.handle_upload(None, false, &big, None, 1_000);
    assert_eq!(r.map(|_| ()), Err(TransferError::PayloadTooLarge));
    let small: Vec<u8> = vec![0u8; 8];
    assert!(s.handle_upload(Some("ok.bin".to_string()), false, &small, None, 1_000).is_ok());
    let r = s.handle_paste(PasteBody { content: "616263646566616263".to_string() }, 1_000);
    assert_eq!(r.map(|_| ()), Err(TransferError::PayloadTooLarge));
    assert!(s.handle_paste(PasteBody { content: "61626364".to_string() }, 1_000).is_ok());
}

#[test]
fn duplicate_identifier_maps_to_conflict() {
    assert_eq!(TransferError::DuplicateIdentifier.status_code(), 409);
    assert_eq!(TransferError::Storage.status_code(), 500);
    assert_eq!(TransferError::Transport.status_code(), 500);
    assert_eq!(TransferError::InvalidEncoding.status_code(), 400);
}

#[test]
fn timer_sweeps_only_when_due_and_reschedules() {
    let mut s = server();
    let mut gc = GarbageCollector::new(10_000, 0);
    assert_eq!(gc.next_run, 10_000);
    assert!(!gc.tick(&mut s, 9_999));
    assert_eq!(gc.next_run, 10_000);
    assert!(gc.tick(&mut s, 10_000));
    assert_eq!(gc.next_run, 20_000);
    // A tick that comes late delays the next deadline rather than
    // scheduling overlapping sweeps.
    assert!(gc.tick(&mut s, 35_000));
    assert_eq!(gc.next_run, 45_000);
}

#[test]
fn expired_upload_is_gone_after_one_timer_tick() {
    let mut s = server();
    let body: Vec<u8> = b"short lived".to_vec();
    let resp = s
        .handle_upload(Some("f".to_string()), false, &body, Some(4_000), 4_500)
        .unwrap();
    let mut gc = GarbageCollector::new(1_000, 4_500);
    assert!(gc.tick(&mut s, 5_500));
    let r = s.handle_download(DownloadParams { file: Some(resp.id) }, 5_500);
    assert_eq!(r.map(|_| ()), Err(TransferError::NotFound));
    assert!(s.store.blobs.is_empty());
}
