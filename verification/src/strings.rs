//! Archival of character strings.
//!
//! A string's payload — its UTF-8 bytes — is written out of line during the
//! archive phase; the archived representation is a transparent wrapper over a
//! character-sequence Reference: a relative pointer to the payload plus its
//! byte count. Equality against non-archived strings is structural, by the
//! text both sides denote.

use vstd::bytes::spec_u64_to_le_bytes;
use vstd::bytes::u64_to_le_bytes;
use vstd::prelude::*;
use vstd::slice::slice_subrange;
use vstd::string::StringSliceAdditionalSpecFns;
use vstd::utf8::decode_utf8;
use vstd::utf8::decode_utf8_encode_utf8;
use vstd::utf8::encode_utf8;
use vstd::utf8::encode_utf8_decode_utf8;
use vstd::utf8::encode_utf8_valid_utf8;
use vstd::utf8::valid_utf8;

use crate::error::ArchiveError;
use crate::protocol::Archive;
use crate::protocol::Resolve;
use crate::rel_ptr::RelPtr;
use crate::writer::pad_for;
use crate::writer::Writer;

verus! {

/// Relies on `core::str::from_utf8`: it returns `Ok` exactly when the bytes
/// are valid UTF-8, and the resulting `&str` views those same bytes.
#[verifier::external_body]
pub(crate) fn bytes_as_str<'a>(v: &'a [u8]) -> (r: Option<&'a str>)
    ensures
        r is Some <==> valid_utf8(v@),
        r matches Some(s) ==> s.spec_bytes() == v@,
{
    core::str::from_utf8(v).ok()
}

/// Compares two byte slices element-wise.
pub fn bytes_eq(a: &[u8], b: &[u8]) -> (r: bool)
    ensures
        r == (a@ == b@),
{
    if a.len() != b.len() {
        return false;
    }
    let mut i: usize = 0;
    while i < a.len()
        invariant
            i <= a@.len(),
            a@.len() == b@.len(),
            forall|j: int| 0 <= j < i ==> a@[j] == b@[j],
        decreases a@.len() - i,
    {
        if a[i] != b[i] {
            return false;
        }
        i = i + 1;
    }
    proof {
        assert(a@ =~= b@);
    }
    true
}

/// The Reference produced for a `str` payload: a relative pointer to the
/// payload bytes plus their count.
#[derive(Clone, Copy, Debug, Hash, PartialEq, Eq, Structural)]
pub struct StrRef {
    pub ptr: RelPtr,
    pub len: usize,
}

impl StrRef {
    /// Where the payload starts when this reference stands at `pos`.
    pub open spec fn spec_start(&self, pos: int) -> int {
        self.ptr.spec_target(pos)
    }

    /// The reference, read at `pos`, denotes a payload region that lies
    /// inside `buf` and wholly before the reference itself.
    pub open spec fn wf_at(&self, pos: int, buf: Seq<u8>) -> bool {
        &&& 0 <= self.spec_start(pos)
        &&& self.spec_start(pos) + self.len <= pos
        &&& self.spec_start(pos) + self.len <= buf.len()
        &&& i64::MIN < self.ptr.spec_offset()
    }

    /// The payload bytes this reference denotes in `buf`.
    pub open spec fn payload(&self, pos: int, buf: Seq<u8>) -> Seq<u8> {
        buf.subrange(self.spec_start(pos), self.spec_start(pos) + self.len)
    }

    /// The reference at `pos` in `buf` denotes exactly the text `s`.
    pub open spec fn represents(&self, pos: int, buf: Seq<u8>, s: Seq<char>) -> bool {
        &&& self.wf_at(pos, buf)
        &&& self.payload(pos, buf) == encode_utf8(s)
    }

    /// Reads the payload back as a string slice borrowed from the buffer.
    pub fn as_str<'a>(&self, buf: &'a [u8], pos: usize) -> (r: &'a str)
        requires
            self.wf_at(pos as int, buf@),
            valid_utf8(self.payload(pos as int, buf@)),
        ensures
            r.spec_bytes() == self.payload(pos as int, buf@),
            r@ == decode_utf8(self.payload(pos as int, buf@)),
    {
        let start = self.ptr.target(pos);
        let slice = slice_subrange(buf, start, start + self.len);
        let out = bytes_as_str(slice);
        match out {
            Some(s) => {
                proof {
                    broadcast use encode_utf8_decode_utf8;

                }
                s
            },
            None => {
                proof {
                    assert(false);
                }
                ""
            },
        }
    }
}

/// The archived representation of a string: a transparent wrapper over the
/// character-sequence Reference.
#[derive(Clone, Copy, Debug, Hash, PartialEq, Eq, Structural)]
pub struct ArchivedString {
    pub reference: StrRef,
}

impl ArchivedString {
    /// The representation at `pos` in `buf` denotes exactly the text `s`.
    pub open spec fn represents(&self, pos: int, buf: Seq<u8>, s: Seq<char>) -> bool {
        self.reference.represents(pos, buf, s)
    }

    /// Reads the archived text back as a string slice borrowed from the
    /// buffer.
    pub fn as_str<'a>(&self, buf: &'a [u8], pos: usize) -> (r: &'a str)
        requires
            self.reference.wf_at(pos as int, buf@),
            valid_utf8(self.reference.payload(pos as int, buf@)),
        ensures
            r.spec_bytes() == self.reference.payload(pos as int, buf@),
            r@ == decode_utf8(self.reference.payload(pos as int, buf@)),
    {
        self.reference.as_str(buf, pos)
    }

    /// Structural equality against a non-archived string slice: both sides
    /// are dereferenced to the text they denote and compared element-wise.
    pub fn eq_str(&self, buf: &[u8], pos: usize, other: &str) -> (r: bool)
        requires
            self.reference.wf_at(pos as int, buf@),
            valid_utf8(self.reference.payload(pos as int, buf@)),
        ensures
            r == (decode_utf8(self.reference.payload(pos as int, buf@)) == other@),
    {
        let s = self.as_str(buf, pos);
        let r = bytes_eq(s.as_bytes(), other.as_bytes());
        proof {
            broadcast use encode_utf8_decode_utf8;

            let payload = self.reference.payload(pos as int, buf@);
            if decode_utf8(payload) == other@ {
                decode_utf8_encode_utf8(payload);
            }
        }
        r
    }

    /// Reconstructs an owned string equal to the archived text.
    pub fn deserialize(&self, buf: &[u8], pos: usize) -> (r: String)
        requires
            self.reference.wf_at(pos as int, buf@),
            valid_utf8(self.reference.payload(pos as int, buf@)),
        ensures
            r@ == decode_utf8(self.reference.payload(pos as int, buf@)),
    {
        self.as_str(buf, pos).to_owned()
    }
}

/// Structural equality of a non-archived string slice against an archived
/// string: the symmetric direction of [`ArchivedString::eq_str`].
pub fn str_eq_archived(other: &str, archived: &ArchivedString, buf: &[u8], pos: usize) -> (r: bool)
    requires
        archived.reference.wf_at(pos as int, buf@),
        valid_utf8(archived.reference.payload(pos as int, buf@)),
    ensures
        r == (other@ == decode_utf8(archived.reference.payload(pos as int, buf@))),
{
    archived.eq_str(buf, pos, other)
}

/// Archives the payload of a `str`: writes its UTF-8 bytes at the current
/// position and returns that position as the resolver for the whole payload.
pub fn archive_str_ref(s: &str, writer: &mut Writer) -> (r: Result<usize, ArchiveError>)
    requires
        old(writer).wf(),
    ensures
        final(writer).wf(),
        final(writer).spec_limit() == old(writer).spec_limit(),
        r matches Ok(base) ==> base == old(writer)@.len() && final(writer)@ == old(writer)@
            + encode_utf8(s@),
        r is Err ==> final(writer)@ == old(writer)@ && r == Err::<usize, ArchiveError>(
            ArchiveError::SinkFull,
        ),
        r is Ok <==> old(writer)@.len() + encode_utf8(s@).len() <= old(writer).spec_limit(),
{
    writer.write_bytes(s.as_bytes())
}

/// The resolver a string produces: the recorded base position of its
/// already-written payload bytes.
pub struct StringResolver {
    pub base: usize,
}

impl Resolve<String> for StringResolver {
    type Archived = ArchivedString;

    /// The representation must stand after its payload, at a position
    /// aligned for its 64-bit fields and addressable by a relative offset.
    open spec fn resolve_req(self, pos: usize, value: &String) -> bool {
        &&& self.base + encode_utf8(value@).len() <= pos
        &&& pos <= i64::MAX
        &&& (pos as int) % 8 == 0
    }

    open spec fn resolve_spec(self, pos: usize, value: &String) -> ArchivedString {
        ArchivedString {
            reference: StrRef {
                ptr: RelPtr::spec_make(self.base as int - pos as int),
                len: encode_utf8(value@).len() as usize,
            },
        }
    }

    fn resolve(self, pos: usize, value: &String) -> (out: ArchivedString)
    {
        let len = value.as_str().len();
        ArchivedString { reference: StrRef { ptr: RelPtr::make(pos, self.base), len } }
    }
}

impl Archive for String {
    type Resolver = StringResolver;

    /// Archiving a string appends exactly its UTF-8 payload and records
    /// where that payload begins; it fails exactly when the payload does not
    /// fit, leaving the buffer unchanged.
    open spec fn archive_post(
        &self,
        old_buf: Seq<u8>,
        new_buf: Seq<u8>,
        limit: int,
        r: Result<StringResolver, ArchiveError>,
    ) -> bool {
        &&& (r matches Ok(res) ==> res.base == old_buf.len() && new_buf == old_buf + encode_utf8(
            self@,
        ))
        &&& (r matches Err(e) ==> e == ArchiveError::SinkFull && new_buf == old_buf)
        &&& (r is Ok <==> old_buf.len() + encode_utf8(self@).len() <= limit)
    }

    fn archive(&self, writer: &mut Writer) -> (r: Result<StringResolver, ArchiveError>) {
        let base = archive_str_ref(self.as_str(), writer)?;
        Ok(StringResolver { base })
    }
}

/// The bytes of a string's archived representation as laid into the
/// buffer: the relative offset, then the byte count, each as a 64-bit
/// little-endian word.
pub open spec fn str_rep_bytes(a: ArchivedString) -> Seq<u8> {
    spec_u64_to_le_bytes(a.reference.ptr.offset as u64) + spec_u64_to_le_bytes(
        a.reference.len as u64,
    )
}

/// Reserves properly aligned space for a string's archived representation,
/// resolves it at the reserved position, and writes its bytes there in one
/// step: no partially initialized representation is ever observable.
/// Afterwards the buffer holds both the payload — written earlier by the
/// archive step, as the stated precondition records — and a representation
/// that denotes the original text.
pub fn resolve_and_write_string(value: &String, resolver: StringResolver, writer: &mut Writer) -> (r:
    Result<(usize, ArchivedString), ArchiveError>)
    requires
        old(writer).wf(),
        old(writer).spec_limit() <= i64::MAX,
        resolver.base + encode_utf8(value@).len() <= old(writer)@.len(),
        old(writer)@.subrange(
            resolver.base as int,
            resolver.base + encode_utf8(value@).len(),
        ) == encode_utf8(value@),
    ensures
        final(writer).wf(),
        final(writer).spec_limit() == old(writer).spec_limit(),
        old(writer)@.is_prefix_of(final(writer)@),
        r matches Ok(p) ==> {
            &&& p.0 == old(writer)@.len() + pad_for(old(writer)@.len() as int, 8)
            &&& (p.0 as int) % 8 == 0
            &&& p.1 == resolver.resolve_spec(p.0, value)
            &&& final(writer)@ == old(writer)@ + Seq::<u8>::new(
                pad_for(old(writer)@.len() as int, 8) as nat,
                |i: int| 0u8,
            ) + str_rep_bytes(p.1)
            &&& p.1.represents(p.0 as int, final(writer)@, value@)
        },
        r matches Err(e) ==> e == ArchiveError::SinkFull,
        r is Ok <==> old(writer)@.len() + pad_for(old(writer)@.len() as int, 8) + 16 <= old(
            writer,
        ).spec_limit(),
{
    let ghost old_buf = old(writer)@;
    let pos = match writer.align_for(8) {
        Ok(p) => p,
        Err(e) => {
            return Err(e);
        },
    };
    let archived = resolver.resolve(pos, value);
    let off_bits: u64 = #[verifier::truncate] (archived.reference.ptr.offset as u64);
    let off_bytes = u64_to_le_bytes(off_bits);
    let len_bytes = u64_to_le_bytes(archived.reference.len as u64);
    match writer.write_bytes(off_bytes.as_slice()) {
        Ok(_) => {},
        Err(e) => {
            proof {
                assert(writer@.subrange(0, old_buf.len() as int) =~= old_buf);
            }
            return Err(e);
        },
    }
    match writer.write_bytes(len_bytes.as_slice()) {
        Ok(_) => {},
        Err(e) => {
            proof {
                assert(writer@.subrange(0, old_buf.len() as int) =~= old_buf);
            }
            return Err(e);
        },
    }
    proof {
        let pad = Seq::<u8>::new(pad_for(old_buf.len() as int, 8) as nat, |i: int| 0u8);
        assert(writer@ =~= old_buf + pad + str_rep_bytes(archived));
        assert(writer@.subrange(0, old_buf.len() as int) =~= old_buf);
        let a = archived;
        let start = a.reference.spec_start(pos as int);
        let len = a.reference.len as int;
        assert(start == resolver.base);
        assert forall|i: int| 0 <= i < len implies writer@[start + i] == encode_utf8(value@)[i] by {
            assert(writer@[start + i] == old_buf[start + i]);
            assert(old_buf.subrange(
                resolver.base as int,
                resolver.base + encode_utf8(value@).len(),
            )[i] == old_buf[start + i]);
        }
        assert(a.reference.payload(pos as int, writer@) =~= encode_utf8(value@));
    }
    Ok((pos, archived))
}

/// Archiving then resolving yields a representation that denotes the
/// original text: the element-wise round trip for strings. The payload
/// placed by the archive step survives into any later state of the
/// append-only buffer, and the resolved reference points exactly at it.
pub proof fn lemma_string_archive_resolve(
    value: &String,
    resolver: StringResolver,
    old_buf: Seq<u8>,
    new_buf: Seq<u8>,
    limit: int,
    buf: Seq<u8>,
    pos: usize,
)
    requires
        value.archive_post(old_buf, new_buf, limit, Ok(resolver)),
        resolver.resolve_req(pos, value),
        new_buf.is_prefix_of(buf),
    ensures
        resolver.resolve_spec(pos, value).represents(pos as int, buf, value@),
{
    let a = resolver.resolve_spec(pos, value);
    let start = a.reference.spec_start(pos as int);
    let len = a.reference.len as int;
    assert(start == resolver.base);
    assert(buf.subrange(0, new_buf.len() as int) =~= new_buf);
    assert forall|i: int| 0 <= i < len implies buf[start + i] == encode_utf8(value@)[i] by {
        assert(new_buf[start + i] == encode_utf8(value@)[i]);
        assert(buf.subrange(0, new_buf.len() as int)[start + i] == buf[start + i]);
    }
    assert(a.reference.payload(pos as int, buf) =~= encode_utf8(value@));
}

/// Deserializing an archived text payload — a string's or a box's —
/// recovers exactly the characters it was resolved from: the payload
/// decodes to the original text.
pub proof fn lemma_string_round_trip(reference: StrRef, pos: int, buf: Seq<u8>, s: Seq<char>)
    requires
        reference.represents(pos, buf, s),
    ensures
        valid_utf8(reference.payload(pos, buf)),
        decode_utf8(reference.payload(pos, buf)) == s,
{
    broadcast use encode_utf8_valid_utf8, encode_utf8_decode_utf8;

}

/// A reference stays valid under relocation and under further growth of the
/// append-only buffer: any buffer that extends one in which the reference
/// represents `s` still has it representing `s`.
pub proof fn lemma_string_relocatable(
    reference: StrRef,
    pos: int,
    buf: Seq<u8>,
    buf2: Seq<u8>,
    s: Seq<char>,
)
    requires
        reference.represents(pos, buf, s),
        buf.is_prefix_of(buf2),
    ensures
        reference.represents(pos, buf2, s),
{
    assert(buf2.subrange(0, buf.len() as int) =~= buf);
    assert(reference.payload(pos, buf2) =~= reference.payload(pos, buf));
}

/// The ordering invariant: every payload a text Reference points to lies
/// strictly before the Reference's own position in the buffer.
pub proof fn lemma_string_payload_precedes(reference: StrRef, pos: int, buf: Seq<u8>, s: Seq<char>)
    requires
        reference.represents(pos, buf, s),
    ensures
        reference.spec_start(pos) + reference.len <= pos,
        0 <= reference.spec_start(pos),
{
}

} // verus!
