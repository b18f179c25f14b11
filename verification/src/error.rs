//! The error taxonomy of the transfer pipeline, and the HTTP status class
//! that the server reports for each error.

use vstd::prelude::*;

verus! {

/// Every failure the pipeline surfaces.
#[derive(Clone, Copy, Debug, PartialEq, Eq, Structural)]
pub enum TransferError {
    /// The identifier is absent, expired, or already swept.
    NotFound,
    /// The passphrase is wrong or the input is not a valid envelope.
    DecryptionFailed,
    /// A freshly drawn identifier collided with a live record.
    DuplicateIdentifier,
    /// A network failure between client and server.
    Transport,
    /// A failure of the backing object store or index.
    Storage,
    /// The shared API key is missing or wrong.
    Unauthorized,
    /// The upload request carries no file name.
    MissingFileName,
    /// The pasted content is empty, or a query parameter is empty.
    EmptyInput,
    /// The payload exceeds the configured maximum upload size.
    PayloadTooLarge,
    /// A text payload is not byte-safe encoded as expected.
    InvalidEncoding,
}

/// The HTTP status class that the server answers with for an error: the
/// identifier errors map to 404, an identifier collision to 409, a missing
/// key to 401, malformed requests to 400, an oversized payload to 413,
/// everything else to 500.
pub open spec fn spec_status_code(e: TransferError) -> u16 {
    match e {
        TransferError::NotFound => 404,
        TransferError::DuplicateIdentifier => 409,
        TransferError::Unauthorized => 401,
        TransferError::MissingFileName => 400,
        TransferError::EmptyInput => 400,
        TransferError::InvalidEncoding => 400,
        TransferError::PayloadTooLarge => 413,
        _ => 500,
    }
}

impl TransferError {
    /// The HTTP status code this error is reported with.
    pub fn status_code(&self) -> (code: u16)
        ensures
            code == spec_status_code(*self),
    {
        match self {
            TransferError::NotFound => 404,
            TransferError::DuplicateIdentifier => 409,
            TransferError::Unauthorized => 401,
            TransferError::MissingFileName => 400,
            TransferError::EmptyInput => 400,
            TransferError::InvalidEncoding => 400,
            TransferError::PayloadTooLarge => 413,
            _ => 500,
        }
    }
}

} // verus!
