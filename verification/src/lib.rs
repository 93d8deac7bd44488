//! Byte-budget enforcement for streaming reads.
//!
//! A [`LengthLimit`] wraps a readable source and puts a hard upper bound on
//! the total number of bytes that may be read through it. The bound is
//! exclusive: a source whose length equals the limit is reported as a
//! violation, not a success, because the violation is detected by the read
//! attempt that finds the budget already exhausted.
//!
//! The wrapper never asks the source for more bytes than the remaining
//! budget, decrements the budget by exactly the number of bytes produced,
//! and passes every failure of the source through unchanged.

mod errors;
mod ext;
mod limit;
mod source;

pub use errors::{LengthLimitExceeded, ReadError, SourceFault};
pub use ext::LengthLimitExt;
pub use limit::{clamp_request, clamped, debit, LengthLimit};
pub use source::{ByteSource, FaultySource, SliceSource};
