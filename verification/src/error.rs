use vstd::prelude::*;

verus! {

/// Failures of the wire codecs and of the per-connection dispatcher.
///
/// Decode failures distinguish truncated input (`IncompleteFrame`) from
/// input whose bytes cannot mean anything under the schema in use
/// (`MalformedInput`, `SchemaMismatch`, `MalformedRecord`,
/// `UnsupportedCompression`). `InternalSchemaMismatch` marks a handler bug:
/// a response body that does not answer the request's API. `Storage` and
/// `Coordinator` carry a delegated backend's failure out of a handler.
#[derive(Clone, Copy, Debug, PartialEq, Eq, Structural)]
pub enum Error {
    /// The input ended before a complete value could be read.
    IncompleteFrame,
    /// An integer was out of range for its target type.
    MalformedInput,
    /// A non-tagged field did not match the schema in use.
    SchemaMismatch,
    /// A record's self-described length did not match its encoded tail.
    MalformedRecord,
    /// The batch named a compression codec this broker does not support.
    UnsupportedCompression,
    /// A handler produced a body that does not answer the request's API.
    InternalSchemaMismatch,
    /// The delegated storage backend failed.
    Storage,
    /// The delegated group coordinator failed.
    Coordinator,
}

} // verus!
