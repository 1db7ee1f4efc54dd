use vstd::prelude::*;

verus! {

/// Why a boundary call produced no output.
///
/// At the foreign boundary every variant collapses into the same null
/// sentinel; inside the library the reason is kept so that contracts and
/// tests can speak of it.
#[derive(Debug, Clone, Copy, PartialEq, Eq, Structural)]
pub enum BridgeError {
    /// A required argument was absent (a null input pointer).
    InvalidArgument,
    /// The input text is not well-formed UTF-8.
    InvalidEncoding,
    /// A configuration payload is not well-formed UTF-8.
    InvalidPayload,
    /// A configuration payload does not parse into its configuration family.
    InvalidConfiguration,
    /// The converter rejected the input or the configuration.
    ConversionFailure,
    /// The result cannot travel as a terminated string (it holds a zero byte),
    /// or a part of it could not be serialized.
    EncodingFailure,
}

} // verus!
