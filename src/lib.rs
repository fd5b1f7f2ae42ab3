//! Block ingestion for the Arweave network.
//!
//! The library holds the decisions of the ingestion service: which endpoint to
//! ask next and when to give up, how loosely typed JSON fields are read, how a
//! block and its transactions become the canonical record and its binary wire
//! form, how the polling engine advances its durable cursor, and the framed
//! line protocol that carries each block to consumers.
pub mod bigint;
pub mod client;
pub mod cmd;
pub mod console;
pub mod decimal;
pub mod emit;
pub mod env;
pub mod fork;
pub mod grpc;
pub mod encoding;
pub mod pb;
pub mod polling;
pub mod result;
pub mod types;
pub mod wire;

pub use self::result::Error;
