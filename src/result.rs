//! Errors of the library.
use vstd::prelude::*;

verus! {

/// The errors that the ingestion core reports.
#[derive(Clone, Copy, Debug, PartialEq, Eq, Structural)]
pub enum Error {
    /// A block of this height could not be found.
    BlockNotFound(u64),
    /// The configuration lists no endpoint.
    EmptyEndpoints,
    /// A path could not be used.
    InvalidPath,
    /// A block range is empty or reversed.
    InvalidRange,
    /// A block could not be converted to its wire form.
    ParseBlockFailed,
    /// The cursor text is not a decimal height.
    ParseBlockPtrFailed,
    /// The configured end block has been emitted.
    StopBlockReached,
    /// Every endpoint failed in every retry cycle.
    RetriesReached,
    /// A field is not valid base64url.
    Base64Decode,
    /// A decimal integer could not be parsed.
    ParseInt,
    /// A big integer is not a decimal number below 2^256.
    Uint,
    /// A JSON field has a type that the schema does not allow.
    Decode,
    /// The transactions fetched for a block do not match its identifiers.
    TxMismatch,
    /// A request failed below HTTP: connection, TLS or name resolution.
    Transport,
    /// A request took longer than its deadline.
    Timeout,
    /// The cursor file could not be read or written.
    Io,
}

} // verus!
