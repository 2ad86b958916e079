//! Archival of slices of 64-bit integers: the sequence form of the
//! dynamically-sized protocol.
//!
//! Archiving a slice runs the two-phase protocol per element: first every
//! element is archived in index order, flushing any data it depends on; then
//! the writer is aligned once for the element representation and every
//! element's archived bytes are finalized contiguously from that base. The
//! base position is the resolver for the whole sequence, and the Reference
//! embedded in the parent stores the relative offset to the base plus the
//! element count.

use vstd::bytes::lemma_auto_spec_u64_to_from_le_bytes;
use vstd::bytes::spec_u64_from_le_bytes;
use vstd::bytes::spec_u64_to_le_bytes;
use vstd::bytes::u64_from_le_bytes;
use vstd::bytes::u64_to_le_bytes;
use vstd::prelude::*;
use vstd::slice::slice_subrange;

use crate::error::ArchiveError;
use crate::protocol::Archive;
use crate::protocol::Resolve;
use crate::rel_ptr::RelPtr;
use crate::writer::pad_for;
use crate::writer::Writer;

verus! {

/// The archived bytes of a sequence of integers: each element's
/// little-endian encoding, in index order.
pub open spec fn le_bytes_of_seq(s: Seq<u64>) -> Seq<u8>
    decreases s.len(),
{
    if s.len() == 0 {
        Seq::<u8>::empty()
    } else {
        le_bytes_of_seq(s.drop_last()) + spec_u64_to_le_bytes(s.last())
    }
}

/// Each element contributes exactly eight bytes.
pub proof fn lemma_le_bytes_of_seq_len(s: Seq<u64>)
    ensures
        le_bytes_of_seq(s).len() == 8 * s.len(),
    decreases s.len(),
{
    lemma_auto_spec_u64_to_from_le_bytes();
    if s.len() > 0 {
        lemma_le_bytes_of_seq_len(s.drop_last());
    }
}

/// The eight bytes at chunk `i` are the encoding of element `i`.
pub proof fn lemma_le_bytes_of_seq_index(s: Seq<u64>, i: int)
    requires
        0 <= i < s.len(),
    ensures
        le_bytes_of_seq(s).subrange(8 * i, 8 * i + 8) == spec_u64_to_le_bytes(s[i]),
    decreases s.len(),
{
    lemma_auto_spec_u64_to_from_le_bytes();
    lemma_le_bytes_of_seq_len(s.drop_last());
    if i == s.len() - 1 {
        assert(le_bytes_of_seq(s).subrange(8 * i, 8 * i + 8) =~= spec_u64_to_le_bytes(s.last()));
    } else {
        lemma_le_bytes_of_seq_index(s.drop_last(), i);
        assert(le_bytes_of_seq(s).subrange(8 * i, 8 * i + 8) =~= le_bytes_of_seq(
            s.drop_last(),
        ).subrange(8 * i, 8 * i + 8));
    }
}

/// Archives a slice: every element is archived first, then the writer is
/// aligned for the element representation and each element's bytes are
/// finalized in index order from the returned base position, which is the
/// resolver for the whole sequence.
pub fn slice_archive_ref(slice: &[u64], writer: &mut Writer) -> (r: Result<usize, ArchiveError>)
    requires
        old(writer).wf(),
    ensures
        final(writer).wf(),
        final(writer).spec_limit() == old(writer).spec_limit(),
        old(writer)@.is_prefix_of(final(writer)@),
        r matches Ok(base) ==> {
            &&& base == old(writer)@.len() + pad_for(old(writer)@.len() as int, 8)
            &&& (base as int) % 8 == 0
            &&& final(writer)@ == old(writer)@ + Seq::<u8>::new(
                pad_for(old(writer)@.len() as int, 8) as nat,
                |i: int| 0u8,
            ) + le_bytes_of_seq(slice@)
            &&& final(writer)@.len() == base + 8 * slice@.len()
        },
        r is Err ==> r == Err::<usize, ArchiveError>(ArchiveError::SinkFull),
        r is Ok <==> old(writer)@.len() + pad_for(old(writer)@.len() as int, 8) + 8 * slice@.len()
            <= old(writer).spec_limit(),
{
    let ghost old_buf = old(writer)@;
    let mut resolvers: Vec<()> = Vec::new();
    let mut i: usize = 0;
    while i < slice.len()
        invariant
            old(writer).wf(),
            writer.wf(),
            old_buf == old(writer)@,
            writer@ == old_buf,
            writer.spec_limit() == old(writer).spec_limit(),
            i <= slice@.len(),
            resolvers@.len() == i,
        decreases slice@.len() - i,
    {
        let r = slice[i].archive(writer);
        match r {
            Ok(resolver) => resolvers.push(resolver),
            Err(_) => {
                proof {
                    assert(false);
                }
            },
        }
        i = i + 1;
    }
    let ghost pad = Seq::<u8>::new(pad_for(old_buf.len() as int, 8) as nat, |i: int| 0u8);
    let base = match writer.align_for(8) {
        Ok(p) => p,
        Err(e) => {
            proof {
                lemma_le_bytes_of_seq_len(slice@);
                assert(writer@.subrange(0, old_buf.len() as int) =~= old_buf);
            }
            return Err(e);
        },
    };
    let ghost aligned_buf = writer@;
    let mut i: usize = 0;
    while i < slice.len()
        invariant
            writer.wf(),
            writer.spec_limit() == old(writer).spec_limit(),
            old_buf == old(writer)@,
            i <= slice@.len(),
            resolvers@.len() == slice@.len(),
            aligned_buf == old_buf + pad,
            pad == Seq::<u8>::new(pad_for(old_buf.len() as int, 8) as nat, |i: int| 0u8),
            base == aligned_buf.len(),
            base == old_buf.len() + pad_for(old_buf.len() as int, 8),
            (base as int) % 8 == 0,
            writer@ == aligned_buf + le_bytes_of_seq(slice@.subrange(0, i as int)),
        decreases slice@.len() - i,
    {
        let pos_i = writer.pos();
        let archived = resolvers[i].resolve(pos_i, &slice[i]);
        let bytes = u64_to_le_bytes(archived);
        proof {
            lemma_le_bytes_of_seq_len(slice@.subrange(0, i as int));
        }
        let w = writer.write_bytes(bytes.as_slice());
        proof {
            lemma_le_bytes_of_seq_len(slice@);
            lemma_le_bytes_of_seq_len(slice@.subrange(0, i as int));
        }
        match w {
            Ok(_) => {},
            Err(e) => {
                proof {
                    assert(writer@.len() == base + 8 * (i as int));
                    assert(8 * (i as int) + 8 <= 8 * slice@.len());
                    assert(writer@.subrange(0, old_buf.len() as int) =~= old_buf);
                    assert(old_buf.is_prefix_of(writer@));
                }
                return Err(e);
            },
        }
        i = i + 1;
        proof {
            let prefix = slice@.subrange(0, i as int);
            assert(prefix.drop_last() =~= slice@.subrange(0, i as int - 1));
            assert(writer@ =~= aligned_buf + le_bytes_of_seq(prefix));
        }
    }
    proof {
        assert(slice@.subrange(0, slice@.len() as int) =~= slice@);
        lemma_le_bytes_of_seq_len(slice@);
        assert(old_buf.is_prefix_of(writer@)) by {
            assert(writer@.subrange(0, old_buf.len() as int) =~= old_buf);
        }
    }
    Ok(base)
}

/// The Reference produced for a slice payload: a relative pointer to the
/// contiguous element array plus the element count as metadata.
#[derive(Clone, Copy, Debug, Hash, PartialEq, Eq, Structural)]
pub struct SliceRef {
    pub ptr: RelPtr,
    pub len: usize,
}

impl SliceRef {
    /// Where the element array starts when this reference stands at `pos`.
    pub open spec fn spec_start(&self, pos: int) -> int {
        self.ptr.spec_target(pos)
    }

    /// The reference, read at `pos`, denotes an aligned element array that
    /// lies inside `buf` and wholly before the reference itself.
    pub open spec fn wf_at(&self, pos: int, buf: Seq<u8>) -> bool {
        &&& 0 <= self.spec_start(pos)
        &&& self.spec_start(pos) % 8 == 0
        &&& self.spec_start(pos) + 8 * self.len <= pos
        &&& self.spec_start(pos) + 8 * self.len <= buf.len()
        &&& i64::MIN < self.ptr.spec_offset()
    }

    /// The raw payload bytes of the whole element array.
    pub open spec fn payload(&self, pos: int, buf: Seq<u8>) -> Seq<u8> {
        buf.subrange(self.spec_start(pos), self.spec_start(pos) + 8 * self.len)
    }

    /// Element `i`, decoded from its little-endian bytes.
    pub open spec fn spec_elem(&self, pos: int, buf: Seq<u8>, i: int) -> u64 {
        spec_u64_from_le_bytes(
            buf.subrange(self.spec_start(pos) + 8 * i, self.spec_start(pos) + 8 * i + 8),
        )
    }

    /// All elements the reference denotes, in index order.
    pub open spec fn spec_elems(&self, pos: int, buf: Seq<u8>) -> Seq<u64> {
        Seq::new(self.len as nat, |i: int| self.spec_elem(pos, buf, i))
    }

    /// The reference at `pos` in `buf` denotes exactly the elements `s`.
    pub open spec fn represents(&self, pos: int, buf: Seq<u8>, s: Seq<u64>) -> bool {
        &&& self.wf_at(pos, buf)
        &&& s.len() == self.len
        &&& self.payload(pos, buf) == le_bytes_of_seq(s)
    }

    /// Reads element `i` back from the buffer.
    pub fn get(&self, buf: &[u8], pos: usize, i: usize) -> (r: u64)
        requires
            self.wf_at(pos as int, buf@),
            i < self.len,
        ensures
            r == self.spec_elem(pos as int, buf@, i as int),
    {
        let start = self.ptr.target(pos);
        let off = start + 8 * i;
        let chunk = slice_subrange(buf, off, off + 8);
        u64_from_le_bytes(chunk)
    }

    /// Reconstructs the owned vector of all elements.
    pub fn deserialize(&self, buf: &[u8], pos: usize) -> (r: Vec<u64>)
        requires
            self.wf_at(pos as int, buf@),
        ensures
            r@ == self.spec_elems(pos as int, buf@),
    {
        let mut out: Vec<u64> = Vec::new();
        let mut i: usize = 0;
        while i < self.len
            invariant
                self.wf_at(pos as int, buf@),
                i <= self.len,
                out@.len() == i,
                forall|j: int| 0 <= j < i ==> out@[j] == self.spec_elem(pos as int, buf@, j),
            decreases self.len - i,
        {
            out.push(self.get(buf, pos, i));
            i = i + 1;
        }
        proof {
            assert(out@ =~= self.spec_elems(pos as int, buf@));
        }
        out
    }
}

impl Resolve<[u64]> for usize {
    type Archived = SliceRef;

    /// The base position this resolver recorded is aligned for the element
    /// representation, and the whole element array lies before `pos`.
    open spec fn resolve_req(self, pos: usize, value: &[u64]) -> bool {
        &&& (self as int) % 8 == 0
        &&& self + 8 * value@.len() <= pos
        &&& pos <= i64::MAX
    }

    open spec fn resolve_spec(self, pos: usize, value: &[u64]) -> SliceRef {
        SliceRef {
            ptr: RelPtr::spec_make(self as int - pos as int),
            len: value@.len() as usize,
        }
    }

    fn resolve(self, pos: usize, value: &[u64]) -> (out: SliceRef) {
        SliceRef { ptr: RelPtr::make(pos, self), len: value.len() }
    }
}

/// Deserializing an archived slice recovers exactly the elements it was
/// resolved from: the element-wise round trip for sequences.
pub proof fn lemma_slice_round_trip(a: SliceRef, pos: int, buf: Seq<u8>, s: Seq<u64>)
    requires
        a.represents(pos, buf, s),
    ensures
        a.spec_elems(pos, buf) == s,
{
    lemma_auto_spec_u64_to_from_le_bytes();
    lemma_le_bytes_of_seq_len(s);
    assert forall|i: int| 0 <= i < s.len() implies a.spec_elem(pos, buf, i) == s[i] by {
        lemma_le_bytes_of_seq_index(s, i);
        let start = a.spec_start(pos);
        assert(buf.subrange(start + 8 * i, start + 8 * i + 8) =~= a.payload(pos, buf).subrange(
            8 * i,
            8 * i + 8,
        ));
    }
    assert(a.spec_elems(pos, buf) =~= s);
}

/// The ordering invariant for sequences: the element array a slice
/// Reference points to lies wholly before the Reference's own position.
pub proof fn lemma_slice_payload_precedes(a: SliceRef, pos: int, buf: Seq<u8>, s: Seq<u64>)
    requires
        a.represents(pos, buf, s),
    ensures
        a.spec_start(pos) + 8 * a.len <= pos,
        0 <= a.spec_start(pos),
{
}

/// The alignment invariant for sequences: the element array starts at a
/// position aligned for the 8-byte element representation, so every
/// element's own position is a multiple of its alignment too.
pub proof fn lemma_slice_elements_aligned(a: SliceRef, pos: int, buf: Seq<u8>, s: Seq<u64>)
    requires
        a.represents(pos, buf, s),
    ensures
        a.spec_start(pos) % 8 == 0,
        forall|i: int| 0 <= i < a.len ==> (a.spec_start(pos) + #[trigger] (8 * i)) % 8 == 0,
{
    assert forall|i: int| 0 <= i < a.len implies (a.spec_start(pos) + #[trigger] (8 * i)) % 8
        == 0 by {
        vstd::arithmetic::div_mod::lemma_add_mod_noop(a.spec_start(pos), 8 * i, 8);
        vstd::arithmetic::div_mod::lemma_mod_multiples_basic(i, 8);
    }
}

/// A slice reference stays valid in any extension of the append-only
/// buffer: relocation or further growth never invalidates it.
pub proof fn lemma_slice_relocatable(
    a: SliceRef,
    pos: int,
    buf: Seq<u8>,
    buf2: Seq<u8>,
    s: Seq<u64>,
)
    requires
        a.represents(pos, buf, s),
        buf.is_prefix_of(buf2),
    ensures
        a.represents(pos, buf2, s),
{
    assert(buf2.subrange(0, buf.len() as int) =~= buf);
    assert(a.payload(pos, buf2) =~= a.payload(pos, buf));
}

} // verus!
