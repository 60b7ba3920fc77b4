//! Decoding, verifying, altering and re-signing Ethereum transactions.
//!
//! A signed transaction comes in as bytes. It is decoded, the signer is
//! recovered from its signature, a field of its body is changed, the body is
//! signed again with a key unlocked from an encrypted keystore, and the
//! result goes out as bytes in the same encoding. A transfer is built from
//! its fields and goes the same way from signing on.
//!
//! The framing of lists, the Keccak digest, the signatures on secp256k1,
//! the key derivation and the cipher are the work of other crates. What
//! this crate adds is proved: which bytes are a transaction and which are
//! not, how the chain identifier and the recovery id share the field `v`,
//! which signatures and records are accepted, and in what order the steps
//! of an operation follow each other.

pub mod amount;
pub mod bigend;
pub mod error;
pub mod hash;
pub mod hex;
pub mod keystore;
pub mod ops;
pub mod replay;
pub mod signer;
pub mod transaction;
pub mod u256;
pub mod wire;

pub use crate::error::Error;
pub use crate::hex::HexBytes;
pub use crate::keystore::{open_keyfile, read_keyfile_address};
pub use crate::ops::{bump_gas_price, debug, get_nonce, sign_transaction, transfer};
