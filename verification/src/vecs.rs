//! Archival of owned, growable vectors.
//!
//! A vector archives through its slice view, reusing the sequence
//! algorithm; its archived representation is a transparent wrapper over the
//! slice-view Reference.

use vstd::bytes::spec_u64_to_le_bytes;
use vstd::bytes::u64_to_le_bytes;
use vstd::prelude::*;

use crate::error::ArchiveError;
use crate::protocol::Archive;
use crate::protocol::Resolve;
use crate::rel_ptr::RelPtr;
use crate::slices::le_bytes_of_seq;
use crate::slices::lemma_le_bytes_of_seq_len;
use crate::slices::slice_archive_ref;
use crate::slices::SliceRef;
use crate::writer::pad_for;
use crate::writer::Writer;

verus! {

/// The archived representation of a vector: a transparent wrapper over the
/// slice-view Reference.
#[derive(Debug, Hash, PartialEq, Eq, Structural)]
pub struct ArchivedVec<T> {
    pub reference: T,
}

/// The resolver a vector produces: a wrapper over the slice-view resolver,
/// the recorded base position of the element array.
pub struct VecResolver<T> {
    pub inner: T,
}

impl ArchivedVec<SliceRef> {
    /// The representation at `pos` in `buf` denotes exactly the elements
    /// `s`.
    pub open spec fn represents(&self, pos: int, buf: Seq<u8>, s: Seq<u64>) -> bool {
        self.reference.represents(pos, buf, s)
    }

    /// Reads element `i` back from the buffer.
    pub fn get(&self, buf: &[u8], pos: usize, i: usize) -> (r: u64)
        requires
            self.reference.wf_at(pos as int, buf@),
            i < self.reference.len,
        ensures
            r == self.reference.spec_elem(pos as int, buf@, i as int),
    {
        self.reference.get(buf, pos, i)
    }

    /// Reconstructs the owned vector of all elements.
    pub fn deserialize(&self, buf: &[u8], pos: usize) -> (r: Vec<u64>)
        requires
            self.reference.wf_at(pos as int, buf@),
        ensures
            r@ == self.reference.spec_elems(pos as int, buf@),
    {
        self.reference.deserialize(buf, pos)
    }

    /// Structural equality against a non-archived vector: both sides are
    /// dereferenced to their element sequences and compared element-wise.
    pub fn eq_vec(&self, buf: &[u8], pos: usize, other: &Vec<u64>) -> (r: bool)
        requires
            self.reference.wf_at(pos as int, buf@),
        ensures
            r == (self.reference.spec_elems(pos as int, buf@) == other@),
    {
        if self.reference.len != other.len() {
            proof {
                assert(self.reference.spec_elems(pos as int, buf@).len() == self.reference.len);
            }
            return false;
        }
        let mut i: usize = 0;
        while i < other.len()
            invariant
                self.reference.wf_at(pos as int, buf@),
                self.reference.len == other@.len(),
                i <= other@.len(),
                forall|j: int|
                    0 <= j < i ==> self.reference.spec_elem(pos as int, buf@, j) == other@[j],
            decreases other@.len() - i,
        {
            if self.get(buf, pos, i) != other[i] {
                return false;
            }
            i = i + 1;
        }
        proof {
            assert(self.reference.spec_elems(pos as int, buf@) =~= other@);
        }
        true
    }
}

impl Resolve<Vec<u64>> for VecResolver<usize> {
    type Archived = ArchivedVec<SliceRef>;

    open spec fn resolve_req(self, pos: usize, value: &Vec<u64>) -> bool {
        &&& (self.inner as int) % 8 == 0
        &&& self.inner + 8 * value@.len() <= pos
        &&& pos <= i64::MAX
    }

    open spec fn resolve_spec(self, pos: usize, value: &Vec<u64>) -> ArchivedVec<SliceRef> {
        ArchivedVec {
            reference: SliceRef {
                ptr: RelPtr::spec_make(self.inner as int - pos as int),
                len: value@.len() as usize,
            },
        }
    }

    fn resolve(self, pos: usize, value: &Vec<u64>) -> (out: ArchivedVec<SliceRef>) {
        ArchivedVec { reference: self.inner.resolve(pos, value.as_slice()) }
    }
}

impl Archive for Vec<u64> {
    type Resolver = VecResolver<usize>;

    /// Archiving a vector aligns the writer for the element representation
    /// and appends every element's archived bytes in index order, recording
    /// the aligned base; it fails exactly when that does not fit.
    open spec fn archive_post(
        &self,
        old_buf: Seq<u8>,
        new_buf: Seq<u8>,
        limit: int,
        r: Result<VecResolver<usize>, ArchiveError>,
    ) -> bool {
        &&& (r matches Ok(res) ==> {
            &&& res.inner == old_buf.len() + pad_for(old_buf.len() as int, 8)
            &&& (res.inner as int) % 8 == 0
            &&& new_buf == old_buf + Seq::<u8>::new(
                pad_for(old_buf.len() as int, 8) as nat,
                |i: int| 0u8,
            ) + le_bytes_of_seq(self@)
            &&& new_buf.len() == res.inner + 8 * self@.len()
        })
        &&& (r matches Err(e) ==> e == ArchiveError::SinkFull)
        &&& (r is Ok <==> old_buf.len() + pad_for(old_buf.len() as int, 8) + 8 * self@.len()
            <= limit)
    }

    fn archive(&self, writer: &mut Writer) -> (r: Result<VecResolver<usize>, ArchiveError>) {
        match slice_archive_ref(self.as_slice(), writer) {
            Ok(base) => Ok(VecResolver { inner: base }),
            Err(e) => Err(e),
        }
    }
}

/// The bytes of a vector's archived representation as laid into the
/// buffer: the relative offset, then the element count, each as a 64-bit
/// little-endian word.
pub open spec fn vec_rep_bytes(a: ArchivedVec<SliceRef>) -> Seq<u8> {
    spec_u64_to_le_bytes(a.reference.ptr.offset as u64) + spec_u64_to_le_bytes(
        a.reference.len as u64,
    )
}

/// Reserves properly aligned space for a vector's archived representation,
/// resolves it at the reserved position, and writes its bytes there in one
/// step. Afterwards the buffer holds both the element array — written
/// earlier by the archive step, as the stated precondition records — and a
/// representation that denotes the original elements.
pub fn resolve_and_write_vec(value: &Vec<u64>, resolver: VecResolver<usize>, writer: &mut Writer) -> (r:
    Result<(usize, ArchivedVec<SliceRef>), ArchiveError>)
    requires
        old(writer).wf(),
        old(writer).spec_limit() <= i64::MAX,
        (resolver.inner as int) % 8 == 0,
        resolver.inner + 8 * value@.len() <= old(writer)@.len(),
        old(writer)@.subrange(
            resolver.inner as int,
            resolver.inner + 8 * value@.len(),
        ) == le_bytes_of_seq(value@),
    ensures
        final(writer).wf(),
        final(writer).spec_limit() == old(writer).spec_limit(),
        old(writer)@.is_prefix_of(final(writer)@),
        r matches Ok(p) ==> {
            &&& p.0 == old(writer)@.len() + pad_for(old(writer)@.len() as int, 8)
            &&& (p.0 as int) % 8 == 0
            &&& p.1 == resolver.resolve_spec(p.0, value)
            &&& final(writer)@ == old(writer)@ + Seq::<u8>::new(
                pad_for(old(writer)@.len() as int, 8) as nat,
                |i: int| 0u8,
            ) + vec_rep_bytes(p.1)
            &&& p.1.represents(p.0 as int, final(writer)@, value@)
        },
        r matches Err(e) ==> e == ArchiveError::SinkFull,
        r is Ok <==> old(writer)@.len() + pad_for(old(writer)@.len() as int, 8) + 16 <= old(
            writer,
        ).spec_limit(),
{
    let ghost old_buf = old(writer)@;
    let pos = match writer.align_for(8) {
        Ok(p) => p,
        Err(e) => {
            return Err(e);
        },
    };
    let archived = resolver.resolve(pos, value);
    let off_bits: u64 = #[verifier::truncate] (archived.reference.ptr.offset as u64);
    let off_bytes = u64_to_le_bytes(off_bits);
    let len_bytes = u64_to_le_bytes(archived.reference.len as u64);
    match writer.write_bytes(off_bytes.as_slice()) {
        Ok(_) => {},
        Err(e) => {
            proof {
                assert(writer@.subrange(0, old_buf.len() as int) =~= old_buf);
            }
            return Err(e);
        },
    }
    match writer.write_bytes(len_bytes.as_slice()) {
        Ok(_) => {},
        Err(e) => {
            proof {
                assert(writer@.subrange(0, old_buf.len() as int) =~= old_buf);
            }
            return Err(e);
        },
    }
    proof {
        lemma_le_bytes_of_seq_len(value@);
        let pad = Seq::<u8>::new(pad_for(old_buf.len() as int, 8) as nat, |i: int| 0u8);
        assert(writer@ =~= old_buf + pad + vec_rep_bytes(archived));
        assert(writer@.subrange(0, old_buf.len() as int) =~= old_buf);
        let a = archived;
        let start = a.reference.spec_start(pos as int);
        let len = a.reference.len as int;
        assert(start == resolver.inner);
        assert forall|i: int| 0 <= i < 8 * len implies writer@[start + i] == le_bytes_of_seq(
            value@,
        )[i] by {
            assert(writer@[start + i] == old_buf[start + i]);
            assert(old_buf.subrange(
                resolver.inner as int,
                resolver.inner + 8 * value@.len(),
            )[i] == old_buf[start + i]);
        }
        assert(a.reference.payload(pos as int, writer@) =~= le_bytes_of_seq(value@));
    }
    Ok((pos, archived))
}

/// Archiving then resolving yields a representation that denotes the
/// original elements: the element-wise round trip for vectors. The element
/// array placed by the archive step survives into any later state of the
/// append-only buffer, and the resolved reference points exactly at it.
pub proof fn lemma_vec_archive_resolve(
    value: &Vec<u64>,
    resolver: VecResolver<usize>,
    old_buf: Seq<u8>,
    new_buf: Seq<u8>,
    limit: int,
    buf: Seq<u8>,
    pos: usize,
)
    requires
        value.archive_post(old_buf, new_buf, limit, Ok(resolver)),
        resolver.resolve_req(pos, value),
        new_buf.is_prefix_of(buf),
    ensures
        resolver.resolve_spec(pos, value).represents(pos as int, buf, value@),
{
    let a = resolver.resolve_spec(pos, value);
    let start = a.reference.spec_start(pos as int);
    let len = a.reference.len as int;
    lemma_le_bytes_of_seq_len(value@);
    assert(start == resolver.inner);
    assert(buf.subrange(0, new_buf.len() as int) =~= new_buf);
    assert forall|i: int| 0 <= i < 8 * len implies buf[start + i] == le_bytes_of_seq(value@)[i] by {
        assert(new_buf[start + i] == le_bytes_of_seq(value@)[i]);
        assert(buf.subrange(0, new_buf.len() as int)[start + i] == buf[start + i]);
    }
    assert(a.reference.payload(pos as int, buf) =~= le_bytes_of_seq(value@));
}

} // verus!
