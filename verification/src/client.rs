//! The transfer client: what each of the four commands computes around the
//! wire call — encrypting before upload, reassembling and decrypting after
//! download, and the hex framing of pasted text.

use crate::cipher::{decrypt, decrypt_of, encrypt, envelope_magic, is_envelope, looks_like_ciphertext};
use crate::error::TransferError;
use crate::hexcodec::{hex_decode, hex_decode_spec, hex_encode, hex_encode_spec};
use vstd::prelude::*;
use vstd::string::StrSliceExecFns;
use vstd::utf8::{decode_utf8, encode_utf8, valid_utf8};

verus! {

/// The subcommands of the command line around this client.
#[allow(inconsistent_fields)]
pub enum Command {
    /// Upload a file, optionally protected by a passphrase.
    Upload {
        /// Path of the file to upload.
        path: String,
        /// Passphrase protecting the file.
        pwd: Option<String>,
    },
    /// Download the file named by a memorable id.
    Download {
        /// The memorable id.
        id: String,
        /// Passphrase to open the file.
        pwd: Option<String>,
        /// Destination path; the current directory when absent.
        path: Option<String>,
    },
    /// Paste a text, always passphrase-protected.
    Paste {
        /// The text; read from the pipe when absent.
        content: Option<String>,
        /// Passphrase protecting the text.
        pwd: String,
    },
    /// Copy the text named by a memorable id.
    Copy {
        /// The memorable id.
        id: String,
        /// Passphrase to open the text.
        pwd: String,
        /// File to write the text to, instead of the clipboard.
        out: Option<String>,
    },
    /// Switch the active configured endpoint.
    Switch,
    /// Add a configured endpoint.
    Add,
    /// Remove a configured endpoint.
    Remove,
    /// Write an initial configuration.
    Init,
}

/// One upload request, ready for the wire.
pub struct UploadRequest {
    /// The file name sent alongside the bytes.
    pub file_name: String,
    /// Whether the body was sealed under a passphrase.
    pub encrypted: bool,
    /// The bytes to send.
    pub body: Vec<u8>,
}

/// Prepares an upload: with a passphrase the body is the sealed envelope
/// and the request is flagged encrypted; without one the bytes travel
/// unmodified.
pub fn prepare_upload(bytes: Vec<u8>, file_name: String, passphrase: Option<&str>) -> (req:
    UploadRequest)
    ensures
        req.file_name@ == file_name@,
        match passphrase {
            Some(k) => {
                &&& req.encrypted
                &&& is_envelope(req.body@)
                &&& decrypt_of(req.body@, k@) == Some(bytes@)
                &&& forall|other: Seq<char>| other != k@ ==> decrypt_of(req.body@, other) is None
            },
            None => !req.encrypted && req.body@ == bytes@,
        },
{
    match passphrase {
        Some(k) => {
            let sealed = encrypt(&bytes, k);
            UploadRequest { file_name, encrypted: true, body: sealed }
        },
        None => UploadRequest { file_name, encrypted: false, body: bytes },
    }
}

/// Reassembly of a downloaded body from wire chunks, with the progress
/// accounting the caller displays: the buffer is exactly the chunks in
/// order, and the received count climbs by each chunk's size but never
/// past the announced total.
pub struct DownloadAccumulator {
    /// The bytes received so far, in order.
    pub buf: Vec<u8>,
    /// The progress position: received bytes, capped at the total.
    pub received: u64,
    /// The announced content length.
    pub total: u64,
}

impl DownloadAccumulator {
    /// The progress position never passes the announced total.
    pub open spec fn wf(self) -> bool {
        self.received <= self.total
    }

    /// An empty accumulator for a body of announced length `total`.
    pub fn new(total: u64) -> (acc: DownloadAccumulator)
        ensures
            acc.wf(),
            acc.buf@ == Seq::<u8>::empty(),
            acc.received == 0,
            acc.total == total,
    {
        DownloadAccumulator { buf: Vec::new(), received: 0, total }
    }

    /// Appends one wire chunk: the buffer grows by exactly the chunk, and
    /// the progress position by its size, capped at the total.
    pub fn push_chunk(&mut self, chunk: &[u8])
        requires
            old(self).wf(),
        ensures
            final(self).wf(),
            final(self).total == old(self).total,
            final(self).buf@ == old(self).buf@ + chunk@,
            final(self).received == if old(self).received + chunk@.len() <= old(self).total {
                old(self).received + chunk@.len()
            } else {
                old(self).total as int
            },
    {
        self.buf.extend_from_slice(chunk);
        let len: u64 = chunk.len() as u64;
        if len >= self.total - self.received {
            self.received = self.total;
        } else {
            self.received = self.received + len;
        }
    }

    /// Hands the reassembled body out.
    pub fn into_body(self) -> (body: Vec<u8>)
        ensures
            body@ == self.buf@,
    {
        self.buf
    }
}

/// The views of a sequence of byte buffers.
pub open spec fn chunk_views(cs: Seq<Vec<u8>>) -> Seq<Seq<u8>> {
    cs.map_values(|c: Vec<u8>| c@)
}

/// Cuts a body into wire chunks of at most `chunk_size` bytes, none
/// empty, whose concatenation is exactly the body: memory on the wire is
/// proportional to the chunk size, not the body size.
pub fn chunk_bytes(data: &Vec<u8>, chunk_size: usize) -> (chunks: Vec<Vec<u8>>)
    requires
        chunk_size > 0,
    ensures
        chunk_views(chunks@).flatten() == data@,
        forall|i: int| 0 <= i < chunks@.len() ==> 0 < #[trigger] chunks@[i]@.len() <= chunk_size,
{
    let mut chunks: Vec<Vec<u8>> = Vec::new();
    let mut done: usize = 0;
    proof {
        assert(chunk_views(chunks@).flatten() =~= data@.take(0));
    }
    while done < data.len()
        invariant
            0 <= done <= data@.len(),
            chunk_size > 0,
            chunk_views(chunks@).flatten() == data@.take(done as int),
            forall|i: int|
                0 <= i < chunks@.len() ==> 0 < #[trigger] chunks@[i]@.len() <= chunk_size,
        decreases data@.len() - done,
    {
        let take = if data.len() - done < chunk_size {
            data.len() - done
        } else {
            chunk_size
        };
        let mut piece: Vec<u8> = Vec::new();
        let mut j: usize = 0;
        while j < take
            invariant
                0 <= j <= take,
                done + take <= data@.len(),
                data@.len() <= usize::MAX,
                piece@ == data@.subrange(done as int, done + j),
            decreases take - j,
        {
            piece.push(data[done + j]);
            proof {
                assert(piece@ =~= data@.subrange(done as int, done + j + 1));
            }
            j = j + 1;
        }
        let ghost pre_chunks = chunks@;
        chunks.push(piece);
        proof {
            assert(chunk_views(chunks@) =~= chunk_views(pre_chunks).push(
                data@.subrange(done as int, done + take),
            ));
            chunk_views(pre_chunks).lemma_flatten_push(
                data@.subrange(done as int, done + take),
            );
            assert(chunk_views(chunks@).flatten() =~= data@.take(done + take));
        }
        done = done + take;
    }
    proof {
        assert(data@.take(data@.len() as int) =~= data@);
    }
    chunks
}

/// What a downloaded body resolved to.
pub enum DownloadOutcome {
    /// The payload was not encrypted: the bytes exactly as received.
    Plain(Vec<u8>),
    /// The payload opened under the supplied passphrase.
    Decrypted(Vec<u8>),
    /// The payload is an envelope and no passphrase was supplied: the
    /// caller must obtain one and decrypt separately.
    NeedsPassphrase,
}

/// Resolves a downloaded body: with a passphrase it is decrypted; without
/// one, a body that the classifier recognises as an envelope asks for a
/// passphrase, and anything else is returned unmodified. Fails exactly
/// when a supplied passphrase does not open the body.
pub fn process_download(body: Vec<u8>, passphrase: Option<&str>) -> (r: Result<
    DownloadOutcome,
    TransferError,
>)
    ensures
        match r {
            Ok(out) => match out {
                DownloadOutcome::Plain(b) => passphrase is None && !is_envelope(body@) && b@
                    == body@,
                DownloadOutcome::Decrypted(p) => passphrase matches Some(k) && decrypt_of(
                    body@,
                    k@,
                ) == Some(p@),
                DownloadOutcome::NeedsPassphrase => passphrase is None && is_envelope(body@),
            },
            Err(e) => e == TransferError::DecryptionFailed && (passphrase matches Some(k)
                && decrypt_of(body@, k@) is None),
        },
{
    match passphrase {
        Some(k) => match decrypt(&body, k) {
            Ok(p) => Ok(DownloadOutcome::Decrypted(p)),
            Err(e) => Err(e),
        },
        None => {
            if looks_like_ciphertext(&body) {
                Ok(DownloadOutcome::NeedsPassphrase)
            } else {
                Ok(DownloadOutcome::Plain(body))
            }
        },
    }
}

/// Prepares a paste: seals the text under the mandatory passphrase and
/// frames the envelope as hex, so the payload is byte-safe on the wire.
pub fn prepare_paste(content: &str, passphrase: &str) -> (s: String)
    ensures
        exists|c: Seq<u8>|
            {
                &&& s@ == #[trigger] hex_encode_spec(c)
                &&& is_envelope(c)
                &&& decrypt_of(c, passphrase@) == Some(encode_utf8(content@))
                &&& forall|other: Seq<char>| other != passphrase@ ==> decrypt_of(c, other) is None
            },
        s@.len() > 0,
{
    let bytes = content.as_bytes_vec();
    let sealed = encrypt(&bytes, passphrase);
    let framed = hex_encode(&sealed);
    proof {
        assert(framed@ == hex_encode_spec(sealed@));
        assert(sealed@.len() >= envelope_magic().len());
    }
    framed
}

/// What decrypting yields on valid UTF-8, by `String::from_utf8_lossy`:
/// invalid sequences are replaced, and valid bytes decode exactly. The
/// result depends on the bytes alone; this name stands for it.
pub uninterp spec fn utf8_lossy_of(bytes: Seq<u8>) -> Seq<char>;

/// Relies on `String::from_utf8_lossy`: on valid UTF-8 the decoded
/// characters exactly, with invalid sequences replaced otherwise.
#[verifier::external_body]
fn utf8_lossy(bytes: &Vec<u8>) -> (r: String)
    ensures
        r@ == utf8_lossy_of(bytes@),
        valid_utf8(bytes@) ==> r@ == decode_utf8(bytes@),
{
    String::from(String::from_utf8_lossy(bytes))
}

/// Resolves a copied text: unframes the hex, opens the envelope under the
/// passphrase, and decodes the plaintext as text. Succeeds exactly when
/// the content is well-framed and the passphrase opens it.
pub fn process_copy(content: &str, passphrase: &str) -> (r: Result<String, TransferError>)
    ensures
        match r {
            Ok(s) => match hex_decode_spec(content@) {
                Some(c) => match decrypt_of(c, passphrase@) {
                    Some(p) => s@ == utf8_lossy_of(p) && (valid_utf8(p) ==> s@ == decode_utf8(p)),
                    None => false,
                },
                None => false,
            },
            Err(e) => match hex_decode_spec(content@) {
                Some(c) => e == TransferError::DecryptionFailed && decrypt_of(
                    c,
                    passphrase@,
                ) is None,
                None => e == TransferError::InvalidEncoding,
            },
        },
{
    let sealed = match hex_decode(content) {
        Some(c) => c,
        None => {
            return Err(TransferError::InvalidEncoding);
        },
    };
    let plain = match decrypt(&sealed, passphrase) {
        Ok(p) => p,
        Err(e) => {
            return Err(e);
        },
    };
    Ok(utf8_lossy(&plain))
}

} // verus!
