use vstd::prelude::*;
use vstd::string::StringExecFns;

verus! {

/// The limit-violation marker: a read was attempted while the remaining
/// byte budget was already zero. Deliberately information-free.
#[derive(Clone, Copy, Debug, PartialEq, Eq, Structural)]
pub struct LengthLimitExceeded;

impl LengthLimitExceeded {
    /// The human-readable description of the violation.
    pub fn message(&self) -> (r: String)
        ensures
            r@ == "Length limit exceeded"@,
    {
        String::from_str("Length limit exceeded")
    }
}

/// A failure raised by the wrapped source itself. The `code` stands for
/// whatever identity the source gives its errors; the wrapper never reads
/// or rewrites it.
#[derive(Clone, Copy, Debug, PartialEq, Eq, Structural)]
pub struct SourceFault {
    /// Identifies the failure to the caller; opaque to the wrapper.
    pub code: u64,
}

/// What a read step through a [`crate::LengthLimit`] can fail with: either
/// the wrapper's own limit violation, or the source's failure passed
/// through unchanged. The two are never conflated.
#[derive(Clone, Copy, Debug, PartialEq, Eq, Structural)]
pub enum ReadError {
    /// The byte budget was already exhausted when the read was attempted.
    LimitExceeded(LengthLimitExceeded),
    /// The wrapped source failed; the fault is exactly the one it raised.
    Source(SourceFault),
}

impl ReadError {
    /// True of the wrapper's own limit violation.
    pub fn is_limit_exceeded(&self) -> (r: bool)
        ensures
            r == (self matches ReadError::LimitExceeded(_)),
    {
        match self {
            ReadError::LimitExceeded(_) => true,
            ReadError::Source(_) => false,
        }
    }
}

} // verus!
