//! Archival of boxed, possibly-unsized payloads.
//!
//! A box delegates directly to its payload's own archival: no data of its
//! own is added, and the archived representation is a transparent wrapper
//! over whatever Reference the payload produces. The payload here is a
//! boxed string slice, the box's common dynamically-sized case.

use vstd::prelude::*;
use vstd::string::StringSliceAdditionalSpecFns;
use vstd::utf8::decode_utf8;
use vstd::utf8::decode_utf8_encode_utf8;
use vstd::utf8::encode_utf8;
use vstd::utf8::encode_utf8_decode_utf8;
use vstd::utf8::valid_utf8;

use crate::error::ArchiveError;
use crate::protocol::Archive;
use crate::protocol::Resolve;
use crate::rel_ptr::RelPtr;
use crate::strings::archive_str_ref;
use crate::strings::bytes_eq;
use crate::strings::StrRef;
use crate::writer::Writer;

verus! {

/// Relies on `Box`'s dereference: a boxed string slice yields the text it
/// owns.
#[verifier::external_body]
pub(crate) fn boxed_str_as_str<'a>(b: &'a Box<str>) -> (r: &'a str)
    ensures
        r@ == b@,
{
    &**b
}

/// Relies on `String::into_boxed_str`: the box owns the same text.
#[verifier::external_body]
pub(crate) fn string_into_boxed_str(s: String) -> (r: Box<str>)
    ensures
        r@ == s@,
{
    s.into_boxed_str()
}

/// The archived representation of a box: a transparent wrapper over the
/// Reference its payload produced.
#[derive(Debug, Hash, PartialEq, Eq, Structural)]
pub struct ArchivedBox<T> {
    pub reference: T,
}

/// The resolver a box produces: a wrapper over its payload's resolver, the
/// recorded base position of the payload.
pub struct BoxResolver<T> {
    pub inner: T,
}

impl ArchivedBox<StrRef> {
    /// The representation at `pos` in `buf` denotes exactly the text `s`.
    pub open spec fn represents(&self, pos: int, buf: Seq<u8>, s: Seq<char>) -> bool {
        self.reference.represents(pos, buf, s)
    }

    /// Reads the boxed text back as a string slice borrowed from the
    /// buffer.
    pub fn as_str<'a>(&self, buf: &'a [u8], pos: usize) -> (r: &'a str)
        requires
            self.reference.wf_at(pos as int, buf@),
            valid_utf8(self.reference.payload(pos as int, buf@)),
        ensures
            r.spec_bytes() == self.reference.payload(pos as int, buf@),
            r@ == decode_utf8(self.reference.payload(pos as int, buf@)),
    {
        self.reference.as_str(buf, pos)
    }

    /// Structural equality against a non-archived box: both sides are
    /// dereferenced to the text they denote and compared element-wise.
    pub fn eq_boxed_str(&self, buf: &[u8], pos: usize, other: &Box<str>) -> (r: bool)
        requires
            self.reference.wf_at(pos as int, buf@),
            valid_utf8(self.reference.payload(pos as int, buf@)),
        ensures
            r == (decode_utf8(self.reference.payload(pos as int, buf@)) == other@),
    {
        let s = self.as_str(buf, pos);
        let o = boxed_str_as_str(other);
        let r = bytes_eq(s.as_bytes(), o.as_bytes());
        proof {
            broadcast use encode_utf8_decode_utf8;

            let payload = self.reference.payload(pos as int, buf@);
            if decode_utf8(payload) == other@ {
                decode_utf8_encode_utf8(payload);
            }
        }
        r
    }

    /// Reconstructs an owned box holding the archived text.
    pub fn deserialize(&self, buf: &[u8], pos: usize) -> (r: Box<str>)
        requires
            self.reference.wf_at(pos as int, buf@),
            valid_utf8(self.reference.payload(pos as int, buf@)),
        ensures
            r@ == decode_utf8(self.reference.payload(pos as int, buf@)),
    {
        string_into_boxed_str(self.as_str(buf, pos).to_owned())
    }
}

impl Resolve<Box<str>> for BoxResolver<usize> {
    type Archived = ArchivedBox<StrRef>;

    open spec fn resolve_req(self, pos: usize, value: &Box<str>) -> bool {
        &&& self.inner + encode_utf8(value@).len() <= pos
        &&& pos <= i64::MAX
        &&& (pos as int) % 8 == 0
    }

    open spec fn resolve_spec(self, pos: usize, value: &Box<str>) -> ArchivedBox<StrRef> {
        ArchivedBox {
            reference: StrRef {
                ptr: RelPtr::spec_make(self.inner as int - pos as int),
                len: encode_utf8(value@).len() as usize,
            },
        }
    }

    fn resolve(self, pos: usize, value: &Box<str>) -> (out: ArchivedBox<StrRef>) {
        let len = boxed_str_as_str(value).len();
        ArchivedBox { reference: StrRef { ptr: RelPtr::make(pos, self.inner), len } }
    }
}

impl Archive for Box<str> {
    type Resolver = BoxResolver<usize>;

    /// Archiving a box appends exactly its payload's bytes and records
    /// where they begin — nothing of the box's own; it fails exactly when
    /// the payload does not fit, leaving the buffer unchanged.
    open spec fn archive_post(
        &self,
        old_buf: Seq<u8>,
        new_buf: Seq<u8>,
        limit: int,
        r: Result<BoxResolver<usize>, ArchiveError>,
    ) -> bool {
        &&& (r matches Ok(res) ==> res.inner == old_buf.len() && new_buf == old_buf + encode_utf8(
            self@,
        ))
        &&& (r matches Err(e) ==> e == ArchiveError::SinkFull && new_buf == old_buf)
        &&& (r is Ok <==> old_buf.len() + encode_utf8(self@).len() <= limit)
    }

    fn archive(&self, writer: &mut Writer) -> (r: Result<BoxResolver<usize>, ArchiveError>) {
        match archive_str_ref(boxed_str_as_str(self), writer) {
            Ok(base) => Ok(BoxResolver { inner: base }),
            Err(e) => Err(e),
        }
    }
}

/// Archiving then resolving a box yields a representation that denotes the
/// original payload text, in any later state of the append-only buffer.
pub proof fn lemma_box_archive_resolve(
    value: &Box<str>,
    resolver: BoxResolver<usize>,
    old_buf: Seq<u8>,
    new_buf: Seq<u8>,
    limit: int,
    buf: Seq<u8>,
    pos: usize,
)
    requires
        value.archive_post(old_buf, new_buf, limit, Ok(resolver)),
        resolver.resolve_req(pos, value),
        new_buf.is_prefix_of(buf),
    ensures
        resolver.resolve_spec(pos, value).represents(pos as int, buf, value@),
{
    let a = resolver.resolve_spec(pos, value);
    let start = a.reference.spec_start(pos as int);
    let len = a.reference.len as int;
    assert(start == resolver.inner);
    assert(buf.subrange(0, new_buf.len() as int) =~= new_buf);
    assert forall|i: int| 0 <= i < len implies buf[start + i] == encode_utf8(value@)[i] by {
        assert(new_buf[start + i] == encode_utf8(value@)[i]);
        assert(buf.subrange(0, new_buf.len() as int)[start + i] == buf[start + i]);
    }
    assert(a.reference.payload(pos as int, buf) =~= encode_utf8(value@));
}

} // verus!
