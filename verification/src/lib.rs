//! Offline construction and signing of Ethereum transactions.
//!
//! A transaction is encoded as an RLP list, hashed with Keccak-256 together
//! with the chain id, signed with a recoverable ECDSA signature over
//! secp256k1, and encoded once more with the signature appended.

pub mod big_endian;
pub mod ecdsa;
pub mod keccak;
pub mod raw_transaction;
pub mod rlp_encoding;
pub mod rlp_stream;
pub mod types;

pub use ecdsa::{ecdsa_sign, EcdsaSig, SignError};
pub use raw_transaction::RawTransaction;
pub use types::{H160, H256, U256};
