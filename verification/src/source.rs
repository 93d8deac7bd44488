use vstd::prelude::*;
use vstd::slice::{slice_subrange, slice_to_vec};

use crate::errors::SourceFault;

verus! {

/// A readable source: an entity that can be asked to produce up to `max`
/// bytes, returning either the bytes it produced (none meaning end of
/// stream) or a failure of its own.
///
/// `remaining()` is the sequence of bytes the source has not yet produced;
/// a successful read hands out a prefix of it and drops that prefix. A
/// read that returns no bytes means the stream has ended (or that nothing
/// was asked for); a source never stalls while bytes remain. A source for
/// which `infallible()` holds never fails.
pub trait ByteSource: Sized {
    /// The bytes this source has not yet produced, in order.
    spec fn remaining(&self) -> Seq<u8>;

    /// True of a source that can never raise a failure.
    spec fn infallible(&self) -> bool;

    /// The faults this source is able to raise; a read never fails with
    /// any other, and the set does not change as the source is read.
    spec fn may_fail_with(&self, fault: SourceFault) -> bool;

    /// Produce up to `max` of the remaining bytes, or fail.
    fn read(&mut self, max: usize) -> (r: Result<Vec<u8>, SourceFault>)
        ensures
            final(self).infallible() == old(self).infallible(),
            forall|f: SourceFault| #[trigger]
                final(self).may_fail_with(f) == old(self).may_fail_with(f),
            old(self).infallible() ==> r is Ok,
            match r {
                Ok(bytes) => {
                    &&& bytes@.len() <= max
                    &&& bytes@.len() <= old(self).remaining().len()
                    &&& bytes@ == old(self).remaining().take(bytes@.len() as int)
                    &&& final(self).remaining() == old(self).remaining().skip(
                        bytes@.len() as int,
                    )
                    &&& (bytes@.len() == 0 <==> (max == 0 || old(self).remaining().len() == 0))
                },
                Err(fault) => final(self).remaining() == old(self).remaining() && old(
                    self,
                ).may_fail_with(fault),
            },
    ;
}

/// An in-memory source: a sequence of bytes handed out from the front, one
/// prefix per read. It never fails.
#[derive(Clone, Debug)]
pub struct SliceSource {
    data: Vec<u8>,
    pos: usize,
}

impl SliceSource {
    /// All the bytes this source was created over, read or not.
    pub closed spec fn all_bytes(&self) -> Seq<u8> {
        self.data@
    }

    /// A source over `data`, none of it produced yet.
    pub fn new(data: Vec<u8>) -> (r: SliceSource)
        ensures
            r.remaining() == data@,
            r.all_bytes() == data@,
            r.infallible(),
    {
        SliceSource { data, pos: 0 }
    }

    /// Borrows all the bytes, read or not.
    pub fn get_ref(&self) -> (r: &Vec<u8>)
        ensures
            r@ == self.all_bytes(),
    {
        &self.data
    }

    /// Consumes the source and hands back all the bytes, read or not.
    pub fn into_inner(self) -> (r: Vec<u8>)
        ensures
            r@ == self.all_bytes(),
    {
        self.data
    }
}

impl ByteSource for SliceSource {
    closed spec fn remaining(&self) -> Seq<u8> {
        if self.pos <= self.data@.len() {
            self.data@.skip(self.pos as int)
        } else {
            Seq::empty()
        }
    }

    closed spec fn infallible(&self) -> bool {
        true
    }

    closed spec fn may_fail_with(&self, fault: SourceFault) -> bool {
        false
    }

    fn read(&mut self, max: usize) -> (r: Result<Vec<u8>, SourceFault>)
        ensures
            r matches Ok(bytes) ==> bytes@.len() == if max <= old(self).remaining().len() {
                max as int
            } else {
                old(self).remaining().len() as int
            },
    {
        let avail = if self.pos < self.data.len() {
            self.data.len() - self.pos
        } else {
            0
        };
        let n = if max < avail {
            max
        } else {
            avail
        };
        if n == 0 {
            proof {
                assert(self.remaining() =~= self.remaining().skip(0));
                assert(Seq::<u8>::empty() =~= self.remaining().take(0));
            }
            return Ok(Vec::new());
        }
        let end = self.pos + n;
        let chunk = slice_subrange(self.data.as_slice(), self.pos, end);
        let bytes = slice_to_vec(chunk);
        let ghost before = self.remaining();
        self.pos = end;
        proof {
            assert(bytes@ =~= before.take(n as int));
            assert(self.remaining() =~= before.skip(n as int));
        }
        Ok(bytes)
    }
}

/// A source that produces a fixed run of bytes and then fails with a fixed
/// fault, for exercising how a wrapper treats a failing source.
#[derive(Clone, Debug)]
pub struct FaultySource {
    data: Vec<u8>,
    pos: usize,
    fault: SourceFault,
}

impl FaultySource {
    /// The fault this source raises once its bytes are spent.
    pub closed spec fn fault(&self) -> SourceFault {
        self.fault
    }

    /// A source that produces `data` and then fails with `fault`.
    pub fn new(data: Vec<u8>, fault: SourceFault) -> (r: FaultySource)
        ensures
            r.remaining() == data@,
            !r.infallible(),
            r.fault() == fault,
            forall|f: SourceFault| #[trigger] r.may_fail_with(f) <==> f == fault,
    {
        FaultySource { data, pos: 0, fault }
    }
}

impl ByteSource for FaultySource {
    closed spec fn remaining(&self) -> Seq<u8> {
        if self.pos <= self.data@.len() {
            self.data@.skip(self.pos as int)
        } else {
            Seq::empty()
        }
    }

    closed spec fn infallible(&self) -> bool {
        false
    }

    closed spec fn may_fail_with(&self, fault: SourceFault) -> bool {
        fault == self.fault
    }

    fn read(&mut self, max: usize) -> (r: Result<Vec<u8>, SourceFault>)
        ensures
            final(self).fault() == old(self).fault(),
            old(self).remaining().len() == 0 ==> r == Err::<Vec<u8>, SourceFault>(
                old(self).fault(),
            ),
            old(self).remaining().len() > 0 && max > 0 ==> (r matches Ok(bytes) && bytes@.len()
                == if max <= old(self).remaining().len() {
                max as int
            } else {
                old(self).remaining().len() as int
            }),
    {
        let avail = if self.pos < self.data.len() {
            self.data.len() - self.pos
        } else {
            0
        };
        if avail == 0 {
            return Err(self.fault);
        }
        let n = if max < avail {
            max
        } else {
            avail
        };
        if n == 0 {
            proof {
                assert(self.remaining() =~= self.remaining().skip(0));
                assert(Seq::<u8>::empty() =~= self.remaining().take(0));
            }
            return Ok(Vec::new());
        }
        let end = self.pos + n;
        let chunk = slice_subrange(self.data.as_slice(), self.pos, end);
        let bytes = slice_to_vec(chunk);
        let ghost before = self.remaining();
        self.pos = end;
        proof {
            assert(bytes@ =~= before.take(n as int));
            assert(self.remaining() =~= before.skip(n as int));
        }
        Ok(bytes)
    }
}

} // verus!
