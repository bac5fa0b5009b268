use vstd::prelude::*;

verus! {

/// Why a payload could not be decoded, or a text field could not be read.
///
/// `UnexpectedEnd` is the only kind that says the payload ran out; every other
/// variant is an invalid byte and carries the value that was rejected.
#[derive(Clone, Copy, Debug, PartialEq, Eq, Structural)]
pub enum DecodeError {
    /// The payload ended before a field could be read in full.
    UnexpectedEnd,
    /// The leading byte is not one of the message tags.
    UnknownMessageTag(u8),
    /// The replica identity byte of a relation is not one of `d`, `n`, `f`, `i`.
    UnknownReplicaIdentity(u8),
    /// A tuple marker other than the ones allowed at that point.
    UnexpectedTupleTag(u8),
    /// The tag of a column value is not one of `n`, `u`, `t`.
    UnknownTupleDataTag(u8),
    /// A length prefix below zero.
    NegativeLength(i32),
    /// A text field is not valid UTF-8.
    InvalidUtf8,
}

impl DecodeError {
    pub open spec fn spec_is_invalid_input(&self) -> bool {
        !(*self is UnexpectedEnd)
    }

    /// Whether this is an invalid-input error, as opposed to running out of bytes.
    #[verifier::when_used_as_spec(spec_is_invalid_input)]
    pub fn is_invalid_input(&self) -> (r: bool)
        ensures
            r == self.spec_is_invalid_input(),
    {
        match self {
            DecodeError::UnexpectedEnd => false,
            _ => true,
        }
    }
}

} // verus!
