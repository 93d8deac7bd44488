use vstd::prelude::*;

use crate::errors::{LengthLimitExceeded, ReadError, SourceFault};
use crate::source::ByteSource;

verus! {

/// How many bytes one read step may ask of the source: the caller's
/// request, narrowed to the remaining budget.
pub open spec fn clamped(budget: usize, requested: usize) -> usize {
    if requested <= budget {
        requested
    } else {
        budget
    }
}

/// The pre-delegation decision of one read step: with `budget` bytes still
/// permitted and `requested` bytes asked for, either the limit signal (the
/// budget is already spent) or the number of bytes to ask of the source.
pub fn clamp_request(budget: usize, requested: usize) -> (r: Result<usize, LengthLimitExceeded>)
    ensures
        budget == 0 ==> r == Err::<usize, LengthLimitExceeded>(LengthLimitExceeded),
        budget > 0 ==> r == Ok::<usize, LengthLimitExceeded>(clamped(budget, requested)),
{
    if budget == 0 {
        Err(LengthLimitExceeded)
    } else if requested <= budget {
        Ok(requested)
    } else {
        Ok(budget)
    }
}

/// The post-delegation update of one read step: the budget less the bytes
/// the source produced, saturating at zero.
pub fn debit(budget: usize, produced: usize) -> (r: usize)
    ensures
        r == if produced <= budget {
            (budget - produced) as usize
        } else {
            0usize
        },
        r <= budget,
{
    if produced <= budget {
        budget - produced
    } else {
        0
    }
}

/// A readable source under a hard byte budget.
///
/// Every read step first fails outright if the budget is already zero,
/// then narrows the request to the budget, delegates to the source, and
/// debits the budget by the bytes actually produced. The bound is thereby
/// exclusive: a source exactly as long as the budget ends in a violation,
/// because its end of stream is never reached. A source failure passes
/// through unchanged, and a stream that ends before the limit is ordinary
/// success.
#[derive(Clone, Copy, Debug)]
pub struct LengthLimit<T> {
    reader: T,
    bytes_remaining: usize,
}

impl<T> LengthLimit<T> {
    /// The bytes still permitted before the limit is considered met.
    pub closed spec fn budget(&self) -> usize {
        self.bytes_remaining
    }

    /// The wrapped source.
    pub closed spec fn inner(&self) -> T {
        self.reader
    }

    /// Wraps `reader` under a budget of `max_bytes` bytes.
    pub fn new(reader: T, max_bytes: usize) -> (r: Self)
        ensures
            r.budget() == max_bytes,
            r.inner() == reader,
    {
        LengthLimit { reader, bytes_remaining: max_bytes }
    }

    /// The number of additional bytes permitted before the limit is reached.
    pub fn bytes_remaining(&self) -> (r: usize)
        ensures
            r == self.budget(),
    {
        self.bytes_remaining
    }

    /// Consumes the wrapper and hands the source back, exactly where its
    /// read cursor sits; any unread budget is forfeited.
    pub fn into_inner(self) -> (r: T)
        ensures
            r == self.inner(),
    {
        self.reader
    }

    /// Borrows the wrapped source without touching the budget.
    pub fn as_ref(&self) -> (r: &T)
        ensures
            *r == self.inner(),
    {
        &self.reader
    }
}

impl<T: ByteSource> LengthLimit<T> {
    /// One read step: fail if the budget is spent, otherwise ask the
    /// source for at most `clamped(budget, max)` bytes and debit the
    /// budget by what it produced. The source is not touched when the
    /// limit signal is raised, and a failure of the source is handed
    /// through unchanged, never turned into a limit signal.
    pub fn read(&mut self, max: usize) -> (r: Result<Vec<u8>, ReadError>)
        ensures
            final(self).budget() <= old(self).budget(),
            final(self).inner().infallible() == old(self).inner().infallible(),
            old(self).budget() == 0 ==> r == Err::<Vec<u8>, ReadError>(ReadError::LimitExceeded(
                LengthLimitExceeded,
            )) && *final(self) == *old(self),
            old(self).budget() > 0 ==> match r {
                Ok(bytes) => {
                    &&& bytes@.len() <= clamped(old(self).budget(), max)
                    &&& bytes@.len() <= old(self).inner().remaining().len()
                    &&& bytes@ == old(self).inner().remaining().take(bytes@.len() as int)
                    &&& final(self).inner().remaining() == old(self).inner().remaining().skip(
                        bytes@.len() as int,
                    )
                    &&& final(self).budget() == old(self).budget() - bytes@.len()
                    &&& (bytes@.len() == 0 <==> (max == 0 || old(
                        self,
                    ).inner().remaining().len() == 0))
                },
                Err(ReadError::Source(fault)) => {
                    &&& !old(self).inner().infallible()
                    &&& old(self).inner().may_fail_with(fault)
                    &&& final(self).budget() == old(self).budget()
                    &&& final(self).inner().remaining() == old(self).inner().remaining()
                },
                Err(ReadError::LimitExceeded(_)) => false,
            },
            old(self).budget() > 0 && old(self).inner().infallible() ==> r is Ok,
            forall|f: SourceFault| #[trigger]
                final(self).inner().may_fail_with(f) == old(self).inner().may_fail_with(f),
    {
        let clamp = match clamp_request(self.bytes_remaining, max) {
            Err(signal) => {
                return Err(ReadError::LimitExceeded(signal));
            },
            Ok(clamp) => clamp,
        };
        match self.reader.read(clamp) {
            Ok(bytes) => {
                self.bytes_remaining = debit(self.bytes_remaining, bytes.len());
                Ok(bytes)
            },
            Err(fault) => Err(ReadError::Source(fault)),
        }
    }

    /// Drives read steps until the stream ends or a step fails, appending
    /// every byte produced to `out` and returning how many were appended.
    ///
    /// A source shorter than the budget is read in full and succeeds; one
    /// whose length meets or exceeds the budget yields exactly the first
    /// `budget` bytes and then the limit signal; a failing source has its
    /// own fault handed through, after whatever bytes it produced. The
    /// caller thus never sees a truncated stream reported as success.
    pub fn read_to_end(&mut self, out: &mut Vec<u8>) -> (r: Result<usize, ReadError>)
        ensures
            final(self).budget() <= old(self).budget(),
            final(self).inner().infallible() == old(self).inner().infallible(),
            match r {
                Ok(n) => {
                    &&& n == old(self).inner().remaining().len()
                    &&& old(self).inner().remaining().len() < old(self).budget()
                    &&& final(out)@ == old(out)@ + old(self).inner().remaining()
                    &&& final(self).budget() == old(self).budget() - n
                    &&& final(self).inner().remaining().len() == 0
                },
                Err(ReadError::LimitExceeded(_)) => {
                    &&& old(self).inner().remaining().len() >= old(self).budget()
                    &&& final(out)@ == old(out)@ + old(self).inner().remaining().take(
                        old(self).budget() as int,
                    )
                    &&& final(self).budget() == 0
                    &&& final(self).inner().remaining() == old(self).inner().remaining().skip(
                        old(self).budget() as int,
                    )
                },
                Err(ReadError::Source(fault)) => {
                    &&& !old(self).inner().infallible()
                    &&& old(self).inner().may_fail_with(fault)
                    &&& exists|k: int|
                        {
                            &&& 0 <= k <= old(self).budget()
                            &&& k <= old(self).inner().remaining().len()
                            &&& final(out)@ == old(out)@ + old(self).inner().remaining().take(k)
                            &&& final(self).budget() == old(self).budget() - k
                            &&& final(self).inner().remaining() == old(
                                self,
                            ).inner().remaining().skip(k)
                        }
                },
            },
            old(self).inner().infallible() ==> (r is Ok <==> old(self).inner().remaining().len()
                < old(self).budget()),
            forall|f: SourceFault| #[trigger]
                final(self).inner().may_fail_with(f) == old(self).inner().may_fail_with(f),
    {
        let mut total: usize = 0;
        loop
            invariant
                total <= old(self).budget(),
                self.budget() == old(self).budget() - total,
                total <= old(self).inner().remaining().len(),
                self.inner().remaining() == old(self).inner().remaining().skip(total as int),
                self.inner().infallible() == old(self).inner().infallible(),
                forall|f: SourceFault| #[trigger]
                    self.inner().may_fail_with(f) == old(self).inner().may_fail_with(f),
                out@ == old(out)@ + old(self).inner().remaining().take(total as int),
            decreases self.budget(),
        {
            let want = self.bytes_remaining;
            match self.read(want) {
                Ok(mut bytes) => {
                    let produced = bytes.len();
                    if produced == 0 {
                        proof {
                            assert(old(self).inner().remaining().skip(total as int).len() == 0);
                            assert(old(self).inner().remaining().take(total as int) =~= old(
                                self,
                            ).inner().remaining());
                        }
                        return Ok(total);
                    }
                    proof {
                        assert(old(self).inner().remaining().take(total as int) + old(
                            self,
                        ).inner().remaining().skip(total as int).take(produced as int) =~= old(
                            self,
                        ).inner().remaining().take(total + produced));
                    }
                    out.append(&mut bytes);
                    total = total + produced;
                },
                Err(error) => {
                    proof {
                        if error matches ReadError::LimitExceeded(_) {
                            assert(total == old(self).budget());
                        }
                    }
                    return Err(error);
                },
            }
        }
    }
}

} // verus!
