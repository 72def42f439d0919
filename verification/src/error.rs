use vstd::prelude::*;

verus! {

/// Why a value could not be built from untrusted input.
#[derive(Clone, Copy, Debug, PartialEq, Eq, Structural)]
pub enum Error {
    /// A byte buffer does not have the length that the type requires.
    InvalidLength,
    /// A text is not the canonical text of any identifier.
    InvalidEncoding,
    /// A text is not the canonical text of any app.
    InvalidApp,
    /// The parts of a transaction break the rules of its data model.
    MalformedTransaction,
    /// Bytes or text do not encode a data value.
    DecodeError,
    /// Encoded data has no structured form.
    DeserializeError,
}

} // verus!
