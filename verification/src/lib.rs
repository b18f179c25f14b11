//! Ephemeral file and text sharing: passphrase envelope encryption, a
//! metadata index keyed by memorable identifiers, an object store for raw
//! bytes, and a garbage collector that sweeps expired records.

pub mod cipher;
pub mod client;
pub mod clock;
pub mod error;
pub mod gc;
pub mod hexcodec;
pub mod ids;
pub mod index;
pub mod instances;
pub mod protocol;
pub mod server;
pub mod store;
