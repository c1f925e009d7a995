//! Canonical binary codec for ledger transactions.
//!
//! A transaction is a deployment, an execution or a bare fee payment. Its
//! encoding is a version byte, a variant tag, the stored identifier and the
//! variant's fields in a fixed order. Every byte passes through a bounded
//! stream, and decoding recomputes the identifier and compares it with the one
//! found in the stream.

pub mod error;
pub mod stream;
pub mod digest;
pub mod transaction;
pub mod wire;
pub mod codec;
pub mod laws;

pub use crate::error::{CodecError, ConstructionError, Field, Variant};
pub use crate::stream::{BoundedReader, BoundedWriter};
pub use crate::transaction::{
    Deployment, Execution, Fee, Owner, Transaction, TransactionID, MAX_TRANSACTION_SIZE,
};
