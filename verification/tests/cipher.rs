use filecrab::cipher::{decrypt, encrypt, looks_like_ciphertext};
use filecrab::error::TransferError;

#[test]
fn encrypt_decrypt_round_trip() {
    let plain: Vec<u8> = b"attack at dawn".to_vec();
    let sealed = encrypt(&plain, "hunter2");
    assert_ne!(sealed, plain);
    let opened = decrypt(&sealed, "hunter2").unwrap();
    assert_eq!(opened, plain);
}

#[test]
fn decrypt_with_wrong_passphrase_fails() {
    let plain: Vec<u8> = b"attack at dawn".to_vec();
    let sealed = encrypt(&plain, "hunter2");
    let r = decrypt(&sealed, "hunter3");
    assert_eq!(r, Err(TransferError::DecryptionFailed));
}

#[test]
fn decrypt_of_non_envelope_fails() {
    let garbage: Vec<u8> = b"this is not an envelope at all".to_vec();
    let r = decrypt(&garbage, "hunter2");
    assert_eq!(r, Err(TransferError::DecryptionFailed));
}

#[test]
fn classifier_recognises_envelopes() {
    let plain: Vec<u8> = b"some payload".to_vec();
    let sealed = encrypt(&plain, "pw");
    assert!(looks_like_ciphertext(&sealed));
}

#[test]
fn classifier_rejects_plain_buffers() {
    assert!(!looks_like_ciphertext(&b"some payload".to_vec()));
    assert!(!looks_like_ciphertext(&Vec::new()));
    assert!(!looks_like_ciphertext(&b"age".to_vec()));
    // The magic alone is enough for the sniff: the header line decides.
    assert!(looks_like_ciphertext(&b"age-encryption.org/v1\n".to_vec()));
}

#[test]
fn empty_plaintext_round_trips() {
    let plain: Vec<u8> = Vec::new();
    let sealed = encrypt(&plain, "pw");
    assert!(looks_like_ciphertext(&sealed));
    assert_eq!(decrypt(&sealed, "pw").unwrap(), plain);
}
