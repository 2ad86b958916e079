//! Archival of 64-bit integers, and the byte-order wrapper they cross the
//! archive boundary through.
//!
//! An integer has no out-of-line data: its archive step writes nothing and
//! its resolver is empty, so resolving is the identity on the value. When an
//! integer's archived bytes are laid into the buffer they are written in
//! little-endian order; the typed view of such a normalized integer is the
//! little-endian wrapper the `rend` crate supplies, consumed here as an
//! opaque value transform applied at write and read time.

use vstd::prelude::*;

use crate::error::ArchiveError;
use crate::protocol::Archive;
use crate::protocol::Resolve;
use crate::writer::Writer;

verus! {

/// The numeric value a `rend::u64_le` byte-order wrapper holds.
pub uninterp spec fn le_contents(x: rend::u64_le) -> u64;

#[verifier::external_type_specification]
#[verifier::external_body]
pub struct ExU64Le(rend::u64_le);

/// Relies on `rend::u64_le::from_native`: the returned wrapper holds exactly
/// `value`.
#[verifier::external_body]
pub(crate) fn to_archived_u64(value: u64) -> (r: rend::u64_le)
    ensures
        le_contents(r) == value,
{
    rend::u64_le::from_native(value)
}

/// Relies on `rend::u64_le::to_native`: it returns the value the wrapper
/// holds.
#[verifier::external_body]
pub(crate) fn from_archived_u64(x: &rend::u64_le) -> (r: u64)
    ensures
        r == le_contents(*x),
{
    (*x).to_native()
}

impl Archive for u64 {
    type Resolver = ();

    /// An integer depends on no out-of-line data: archiving writes nothing
    /// and always succeeds.
    open spec fn archive_post(
        &self,
        old_buf: Seq<u8>,
        new_buf: Seq<u8>,
        limit: int,
        r: Result<(), ArchiveError>,
    ) -> bool {
        &&& r is Ok
        &&& new_buf == old_buf
    }

    fn archive(&self, writer: &mut Writer) -> (r: Result<(), ArchiveError>) {
        proof {
            assert(old(writer)@.is_prefix_of(writer@));
        }
        Ok(())
    }
}

impl Resolve<u64> for () {
    type Archived = u64;

    open spec fn resolve_req(self, pos: usize, value: &u64) -> bool {
        true
    }

    /// Resolving an integer is the identity: byte-order normalization
    /// happens when its bytes are written, not at the typed level.
    open spec fn resolve_spec(self, pos: usize, value: &u64) -> u64 {
        *value
    }

    fn resolve(self, pos: usize, value: &u64) -> (out: u64) {
        *value
    }
}

} // verus!
