//! Passphrase envelope encryption and decryption of byte buffers, plus a
//! pure classifier that recognises the envelope format by its leading magic
//! bytes.

use crate::error::TransferError;
use vstd::prelude::*;

verus! {

/// The pinned scrypt work factor every envelope is sealed with, as the
/// base-two logarithm of the iteration count.
const SCRYPT_WORK_FACTOR: u8 = 12;

/// The pinned cap on the work factor accepted when opening an envelope.
/// It exceeds the sealing work factor, so every envelope sealed here
/// opens on every machine, and it bounds the work a hostile envelope can
/// demand.
const MAX_SCRYPT_WORK_FACTOR: u8 = 22;

/// What decrypting a buffer under a passphrase yields: the embedded
/// plaintext when the buffer is an envelope sealed under that passphrase,
/// and nothing otherwise. Decryption is a pure function of the two
/// arguments; this name stands for its result.
pub uninterp spec fn decrypt_of(ciphertext: Seq<u8>, passphrase: Seq<char>) -> Option<Seq<u8>>;

/// The ASCII bytes of `age-encryption.org/v1`, the header line that every
/// envelope produced by this scheme begins with.
pub open spec fn envelope_magic() -> Seq<u8> {
    seq![
        97u8, 103u8, 101u8, 45u8, 101u8, 110u8, 99u8, 114u8, 121u8, 112u8, 116u8, 105u8,
        111u8, 110u8, 46u8, 111u8, 114u8, 103u8, 47u8, 118u8, 49u8,
    ]
}

/// A buffer is (recognised as) an envelope exactly when it starts with the
/// magic header bytes.
pub open spec fn is_envelope(data: Seq<u8>) -> bool {
    data.len() >= envelope_magic().len() && data.subrange(0, envelope_magic().len() as int)
        == envelope_magic()
}

/// The magic header as an executable buffer.
fn envelope_magic_bytes() -> (v: Vec<u8>)
    ensures
        v@ == envelope_magic(),
{
    let v: Vec<u8> = vec![
        97u8, 103u8, 101u8, 45u8, 101u8, 110u8, 99u8, 114u8, 121u8, 112u8, 116u8, 105u8,
        111u8, 110u8, 46u8, 111u8, 114u8, 103u8, 47u8, 118u8, 49u8,
    ];
    proof {
        assert(v@ =~= envelope_magic());
    }
    v
}

/// Decides, without a passphrase, whether a buffer is ciphertext produced by
/// this scheme: a magic-byte sniff, true exactly on buffers that begin with
/// the envelope header.
pub fn looks_like_ciphertext(data: &Vec<u8>) -> (r: bool)
    ensures
        r == is_envelope(data@),
{
    let magic = envelope_magic_bytes();
    if data.len() < magic.len() {
        return false;
    }
    let mut i: usize = 0;
    while i < magic.len()
        invariant
            0 <= i <= magic.len(),
            magic@ == envelope_magic(),
            data@.len() >= magic@.len(),
            forall|j: int| 0 <= j < i ==> data@[j] == magic@[j],
        decreases magic.len() - i,
    {
        if data[i] != magic[i] {
            assert(data@.subrange(0, envelope_magic().len() as int)[i as int] != envelope_magic()[i as int]);
            return false;
        }
        i = i + 1;
    }
    proof {
        assert(data@.subrange(0, envelope_magic().len() as int) =~= envelope_magic());
    }
    true
}

/// Relies on `age::encrypt` with an `age::scrypt::Recipient`: the output is
/// an age v1 file, so it begins with the header magic; decrypting it with
/// the same passphrase recovers the plaintext, and the scrypt recipient
/// stanza authenticates the passphrase, so decryption under any other
/// passphrase fails. The work factor is pinned, and below the pinned
/// acceptance cap, so a ciphertext sealed here opens on every machine; and
/// encryption to a growable buffer with one scrypt recipient cannot fail.
#[verifier::external_body]
fn age_encrypt(plaintext: &[u8], passphrase: &str) -> (c: Vec<u8>)
    ensures
        is_envelope(c@),
        decrypt_of(c@, passphrase@) == Some(plaintext@),
        forall|other: Seq<char>| other != passphrase@ ==> decrypt_of(c@, other) is None,
{
    let mut recipient = age::scrypt::Recipient::new(passphrase.to_owned().into());
    recipient.set_work_factor(SCRYPT_WORK_FACTOR);
    age::encrypt(&recipient, plaintext).expect("sealing into a buffer cannot fail")
}

/// Relies on `age::decrypt` with an `age::scrypt::Identity`: it yields the
/// plaintext exactly when the buffer is an age file sealed under this
/// passphrase, and fails closed otherwise. A buffer without the header
/// magic never parses as a file. The acceptance cap on the work factor is
/// pinned, so the result depends on the two arguments alone, never on the
/// machine.
#[verifier::external_body]
fn age_decrypt(ciphertext: &[u8], passphrase: &str) -> (r: Option<Vec<u8>>)
    ensures
        match r {
            Some(p) => decrypt_of(ciphertext@, passphrase@) == Some(p@),
            None => decrypt_of(ciphertext@, passphrase@) is None,
        },
        !is_envelope(ciphertext@) ==> r is None,
{
    let mut identity = age::scrypt::Identity::new(passphrase.to_owned().into());
    identity.set_max_work_factor(MAX_SCRYPT_WORK_FACTOR);
    age::decrypt(&identity, ciphertext).ok()
}

/// Seals a plaintext under a passphrase. The ciphertext is a recognisable
/// envelope; it decrypts to the plaintext under this passphrase and under no
/// other.
pub fn encrypt(plaintext: &Vec<u8>, passphrase: &str) -> (c: Vec<u8>)
    ensures
        is_envelope(c@),
        decrypt_of(c@, passphrase@) == Some(plaintext@),
        forall|other: Seq<char>| other != passphrase@ ==> decrypt_of(c@, other) is None,
{
    age_encrypt(plaintext.as_slice(), passphrase)
}

/// Opens an envelope under a passphrase: returns the embedded plaintext
/// exactly when the buffer decrypts under this passphrase, and fails with
/// `DecryptionFailed` (never partial output) otherwise; a buffer that is
/// not an envelope always fails.
pub fn decrypt(ciphertext: &Vec<u8>, passphrase: &str) -> (r: Result<Vec<u8>, TransferError>)
    ensures
        match r {
            Ok(p) => decrypt_of(ciphertext@, passphrase@) == Some(p@),
            Err(e) => e == TransferError::DecryptionFailed && decrypt_of(
                ciphertext@,
                passphrase@,
            ) is None,
        },
        !is_envelope(ciphertext@) ==> r is Err,
{
    match age_decrypt(ciphertext.as_slice(), passphrase) {
        Some(p) => Ok(p),
        None => Err(TransferError::DecryptionFailed),
    }
}

} // verus!
