//! The append-only, alignment-aware byte sink that owns position assignment.
//!
//! A `Writer` owns the growing archive buffer. Positions are byte offsets
//! from the start of the buffer; once assigned they are stable forever, since
//! the buffer only ever grows at the end. The writer is constructed with a
//! capacity limit standing for the most its underlying sink can hold; a write
//! that would pass the limit fails with [`ArchiveError::SinkFull`] and leaves
//! the buffer untouched.

use vstd::prelude::*;

use crate::error::ArchiveError;

verus! {

/// The number of zero bytes needed after `len` to reach a multiple of `align`.
pub open spec fn pad_for(len: int, align: int) -> int
    recommends
        align >= 1,
{
    if len % align == 0 {
        0
    } else {
        align - len % align
    }
}

/// An append-only byte sink with a monotonic position cursor.
pub struct Writer {
    buf: Vec<u8>,
    limit: usize,
}

impl Writer {
    /// The bytes written so far.
    pub closed spec fn view(&self) -> Seq<u8> {
        self.buf@
    }

    /// The most bytes the underlying sink can hold.
    pub closed spec fn spec_limit(&self) -> int {
        self.limit as int
    }

    /// The buffer never grows past the sink's limit.
    pub open spec fn wf(&self) -> bool {
        self@.len() <= self.spec_limit()
    }

    /// Creates an empty writer over a sink that can hold `limit` bytes.
    pub fn new(limit: usize) -> (w: Writer)
        ensures
            w@ == Seq::<u8>::empty(),
            w.spec_limit() == limit,
            w.wf(),
    {
        Writer { buf: Vec::new(), limit }
    }

    /// The current position: the offset one past the last byte written.
    pub fn pos(&self) -> (p: usize)
        ensures
            p == self@.len(),
    {
        self.buf.len()
    }

    /// The finished buffer, for reading archived data back in place.
    pub fn as_bytes(&self) -> (r: &[u8])
        ensures
            r@ == self@,
    {
        self.buf.as_slice()
    }

    /// Appends `bytes` whole, or fails without changing the buffer.
    ///
    /// On success the returned position is where the first new byte stands.
    pub fn write_bytes(&mut self, bytes: &[u8]) -> (r: Result<usize, ArchiveError>)
        requires
            old(self).wf(),
        ensures
            final(self).wf(),
            final(self).spec_limit() == old(self).spec_limit(),
            r matches Ok(p) ==> p == old(self)@.len() && final(self)@ == old(self)@ + bytes@,
            r is Err ==> final(self)@ == old(self)@ && r == Err::<usize, ArchiveError>(
                ArchiveError::SinkFull,
            ),
            r is Ok <==> old(self)@.len() + bytes@.len() <= old(self).spec_limit(),
    {
        let start = self.buf.len();
        if bytes.len() > self.limit - start {
            return Err(ArchiveError::SinkFull);
        }
        let mut i: usize = 0;
        while i < bytes.len()
            invariant
                i <= bytes@.len(),
                self.buf@ == old(self)@ + bytes@.subrange(0, i as int),
                self.limit == old(self).limit,
                start == old(self)@.len(),
                old(self)@.len() + bytes@.len() <= self.limit,
            decreases bytes@.len() - i,
        {
            self.buf.push(bytes[i]);
            i = i + 1;
            proof {
                assert(self.buf@ =~= old(self)@ + bytes@.subrange(0, i as int));
            }
        }
        proof {
            assert(self.buf@ =~= old(self)@ + bytes@);
        }
        Ok(start)
    }

    /// Advances the cursor to the next multiple of `align`, reserving the
    /// skipped bytes as zeroes, and returns the aligned position.
    pub fn align_for(&mut self, align: usize) -> (r: Result<usize, ArchiveError>)
        requires
            old(self).wf(),
            align >= 1,
        ensures
            final(self).wf(),
            final(self).spec_limit() == old(self).spec_limit(),
            r matches Ok(p) ==> {
                &&& p == old(self)@.len() + pad_for(old(self)@.len() as int, align as int)
                &&& p == final(self)@.len()
                &&& (p as int) % (align as int) == 0
                &&& final(self)@ == old(self)@ + Seq::<u8>::new(
                    pad_for(old(self)@.len() as int, align as int) as nat,
                    |i: int| 0u8,
                )
            },
            r is Err ==> final(self)@ == old(self)@ && r == Err::<usize, ArchiveError>(
                ArchiveError::SinkFull,
            ),
            r is Ok <==> old(self)@.len() + pad_for(old(self)@.len() as int, align as int) <= old(
                self,
            ).spec_limit(),
    {
        let len = self.buf.len();
        let rem = len % align;
        let pad: usize = if rem == 0 {
            0
        } else {
            align - rem
        };
        if pad > self.limit - len {
            return Err(ArchiveError::SinkFull);
        }
        let mut i: usize = 0;
        while i < pad
            invariant
                i <= pad,
                self.buf@ == old(self)@ + Seq::<u8>::new(i as nat, |j: int| 0u8),
                self.limit == old(self).limit,
                len == old(self)@.len(),
                pad == pad_for(old(self)@.len() as int, align as int),
                old(self)@.len() + pad <= self.limit,
            decreases pad - i,
        {
            self.buf.push(0u8);
            i = i + 1;
            proof {
                assert(self.buf@ =~= old(self)@ + Seq::<u8>::new(i as nat, |j: int| 0u8));
            }
        }
        proof {
            let a = align as int;
            let l = len as int;
            if l % a != 0 {
                vstd::arithmetic::div_mod::lemma_fundamental_div_mod(l, a);
                assert(l + (a - l % a) == (l / a + 1) * a) by (nonlinear_arith)
                    requires
                        l == a * (l / a) + l % a,
                ;
                vstd::arithmetic::div_mod::lemma_mod_multiples_basic(l / a + 1, a);
            }
        }
        Ok(len + pad)
    }
}

} // verus!
