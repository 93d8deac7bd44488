use vstd::prelude::*;

use crate::limit::LengthLimit;

verus! {

/// Puts a byte budget on any value by wrapping it in a [`LengthLimit`],
/// with the budget given in bytes, kilobytes, megabytes or gigabytes
/// (each unit 1024 of the one before).
pub trait LengthLimitExt: Sized {
    /// Wraps `self` under an exclusive budget of `max_bytes` bytes.
    fn limit_bytes(self, max_bytes: usize) -> (r: LengthLimit<Self>)
        ensures
            r.budget() == max_bytes,
            r.inner() == self,
    ;

    /// Wraps `self` under an exclusive budget of `max_kb` kilobytes
    /// (1024 bytes each).
    fn limit_kb(self, max_kb: usize) -> (r: LengthLimit<Self>)
        requires
            max_kb * 1024 <= usize::MAX,
        ensures
            r.budget() == max_kb * 1024,
            r.inner() == self,
    ;

    /// Wraps `self` under an exclusive budget of `max_mb` megabytes
    /// (1,048,576 bytes each).
    fn limit_mb(self, max_mb: usize) -> (r: LengthLimit<Self>)
        requires
            max_mb * 1024 * 1024 <= usize::MAX,
        ensures
            r.budget() == max_mb * 1024 * 1024,
            r.inner() == self,
    ;

    /// Wraps `self` under an exclusive budget of `max_gb` gigabytes
    /// (1,073,741,824 bytes each).
    fn limit_gb(self, max_gb: usize) -> (r: LengthLimit<Self>)
        requires
            max_gb * 1024 * 1024 * 1024 <= usize::MAX,
        ensures
            r.budget() == max_gb * 1024 * 1024 * 1024,
            r.inner() == self,
    ;
}

impl<T> LengthLimitExt for T {
    fn limit_bytes(self, max_bytes: usize) -> (r: LengthLimit<Self>) {
        LengthLimit::new(self, max_bytes)
    }

    fn limit_kb(self, max_kb: usize) -> (r: LengthLimit<Self>) {
        self.limit_bytes(max_kb * 1024)
    }

    fn limit_mb(self, max_mb: usize) -> (r: LengthLimit<Self>) {
        self.limit_kb(max_mb * 1024)
    }

    fn limit_gb(self, max_gb: usize) -> (r: LengthLimit<Self>) {
        self.limit_mb(max_gb * 1024)
    }
}

} // verus!
