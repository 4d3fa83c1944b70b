use vstd::prelude::*;

verus! {

/// The kinds of failure an encode or decode operation can report.
///
/// Every decode operation returns one of these instead of aborting; no
/// failure is recovered or retried inside the codec.
#[derive(Clone, Copy, Debug, PartialEq, Eq, Structural)]
pub enum Error {
    /// Fewer bytes were available than a length prefix or fixed-width field requires.
    UnexpectedEndOfInput,
    /// The leading byte is a reserved tag.
    InvalidTag,
    /// The tag encodes a different wire type than the one requested.
    TypeMismatch,
    /// The decoded integer does not fit losslessly in the requested width.
    NumericOverflow,
    /// A record or message array holds a different element count than the expected one.
    ArityMismatch,
    /// Variant types have no representation in the base protocol.
    UnsupportedConstruct,
}

impl Error {
    /// A short human-readable name for the error kind.
    pub fn describe(&self) -> &'static str {
        match self {
            Error::UnexpectedEndOfInput => "unexpected end of input",
            Error::InvalidTag => "invalid tag",
            Error::TypeMismatch => "type mismatch",
            Error::NumericOverflow => "numeric overflow",
            Error::ArityMismatch => "arity mismatch",
            Error::UnsupportedConstruct => "unsupported construct",
        }
    }
}

} // verus!
