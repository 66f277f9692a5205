//! Qubic smart-contract payload encoding, response decoding, identities and transactions.
pub mod bytes;
pub mod codec;
pub mod sc_api;
pub mod reader;
pub mod decoder;
pub mod qubic_types;
pub mod qubic_transactions;
pub mod transaction;
pub mod rpc;
pub mod client;
pub mod wallet_connect;
pub mod session;
pub mod relay;
pub mod bob;
