use filecrab::client::{
    chunk_bytes, prepare_paste, prepare_upload, process_copy, process_download,
    DownloadAccumulator, DownloadOutcome,
};
use filecrab::error::TransferError;

#[test]
fn paste_copy_round_trip() {
    let framed = prepare_paste("hello world", "p@ss");
    // The payload is byte-safe: lowercase hex digits only.
    assert!(framed.chars().all(|c| c.is_ascii_hexdigit() && !c.is_ascii_uppercase()));
    let text = process_copy(&framed, "p@ss").unwrap();
    assert_eq!(text, "hello world");
}

#[test]
fn copy_accepts_uppercase_hex() {
    let framed = prepare_paste("hello world", "p@ss");
    let upper = framed.to_uppercase();
    assert_ne!(upper, framed);
    assert_eq!(process_copy(&upper, "p@ss").unwrap(), "hello world");
}

#[test]
fn copy_with_wrong_passphrase_fails() {
    let framed = prepare_paste("hello world", "p@ss");
    assert_eq!(process_copy(&framed, "other"), Err(TransferError::DecryptionFailed));
}

#[test]
fn copy_of_malformed_hex_fails() {
    assert_eq!(process_copy("zz", "p@ss"), Err(TransferError::InvalidEncoding));
    assert_eq!(process_copy("abc", "p@ss"), Err(TransferError::InvalidEncoding));
}

#[test]
fn upload_without_passphrase_sends_bytes_unmodified() {
    let bytes: Vec<u8> = b"raw content".to_vec();
    let req = prepare_upload(bytes.clone(), "a.txt".to_string(), None);
    assert!(!req.encrypted);
    assert_eq!(req.body, bytes);
    assert_eq!(req.file_name, "a.txt");
}

#[test]
fn upload_with_passphrase_seals_the_body() {
    let bytes: Vec<u8> = b"raw content".to_vec();
    let req = prepare_upload(bytes.clone(), "a.txt".to_string(), Some("k"));
    assert!(req.encrypted);
    assert_ne!(req.body, bytes);
    match process_download(req.body, Some("k")).unwrap() {
        DownloadOutcome::Decrypted(p) => assert_eq!(p, bytes),
        _ => panic!("expected a decrypted body"),
    }
}

#[test]
fn download_auto_detects_ciphertext() {
    let bytes: Vec<u8> = b"raw content".to_vec();
    let req = prepare_upload(bytes.clone(), "a.txt".to_string(), Some("k"));
    match process_download(req.body, None).unwrap() {
        DownloadOutcome::NeedsPassphrase => {}
        _ => panic!("an envelope without a passphrase must ask for one"),
    }
    match process_download(bytes.clone(), None).unwrap() {
        DownloadOutcome::Plain(b) => assert_eq!(b, bytes),
        _ => panic!("a plain body must come back unmodified"),
    }
}

#[test]
fn accumulator_reassembles_chunks_with_progress() {
    let mut acc = DownloadAccumulator::new(10);
    acc.push_chunk(&[1, 2, 3, 4]);
    assert_eq!(acc.received, 4);
    acc.push_chunk(&[5, 6, 7, 8]);
    assert_eq!(acc.received, 8);
    // A chunk past the announced total caps the progress position.
    acc.push_chunk(&[9, 10, 11]);
    assert_eq!(acc.received, 10);
    assert_eq!(acc.into_body(), vec![1, 2, 3, 4, 5, 6, 7, 8, 9, 10, 11]);
}

#[test]
fn accumulator_with_unknown_total_stays_at_zero() {
    let mut acc = DownloadAccumulator::new(0);
    acc.push_chunk(&[1, 2, 3]);
    assert_eq!(acc.received, 0);
    assert_eq!(acc.into_body(), vec![1, 2, 3]);
}

#[test]
fn chunking_cuts_bounded_pieces_that_reassemble() {
    let data: Vec<u8> = (0u8..=9).collect();
    let chunks = chunk_bytes(&data, 4);
    assert_eq!(chunks, vec![vec![0, 1, 2, 3], vec![4, 5, 6, 7], vec![8, 9]]);
    let joined: Vec<u8> = chunks.concat();
    assert_eq!(joined, data);
    let whole = chunk_bytes(&data, 100);
    assert_eq!(whole, vec![data.clone()]);
    let empty = chunk_bytes(&Vec::new(), 4);
    assert!(empty.is_empty());
}
