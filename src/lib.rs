//! A directory-backed store of replay records: one CBOR file per key.
//!
//! The library holds everything the store decides: where each record lives,
//! how file names map back to keys, how bytes become record values and back,
//! which error a failed operation reports, and a model of the records
//! directory over which the store's laws are proved. The file-system calls
//! themselves are made by the caller, which hands the outcomes in.

pub mod codec;
pub mod error;
pub mod layout;
pub mod store;
