//! The two-phase archive / resolve protocol for sized values.
//!
//! Archiving runs in two phases. The fallible `archive` phase may append to
//! the buffer whatever out-of-line data the value depends on, and produces a
//! single-use resolver capturing the positions of that data. The infallible
//! `resolve` phase consumes the resolver together with the original value and
//! the final position of the value's archived representation, and returns
//! that representation. Everything that can fail — sink growth, validation —
//! fails during `archive`; by the time `resolve` runs, every choice has been
//! made, so it is a pure function of `(value, position, resolver)`.

use vstd::prelude::*;

use crate::error::ArchiveError;
use crate::writer::Writer;

verus! {

/// The first, fallible phase: write dependencies, produce a resolver.
pub trait Archive: Sized {
    /// The deferred token bridging the two phases.
    type Resolver;

    /// What the archive step guarantees, relating the buffer before the
    /// call, the buffer after it, the sink's limit, and the outcome — for a
    /// success, the resolver produced; for a failure, which error and what
    /// the buffer still holds.
    spec fn archive_post(
        &self,
        old_buf: Seq<u8>,
        new_buf: Seq<u8>,
        limit: int,
        r: Result<Self::Resolver, ArchiveError>,
    ) -> bool;

    /// Writes any data `self`'s archived form will point at, and returns the
    /// resolver that remembers where that data landed. Must not write
    /// `self`'s own archived bytes. The buffer only ever grows: positions
    /// already assigned stay assigned, even when this step fails.
    fn archive(&self, writer: &mut Writer) -> (r: Result<Self::Resolver, ArchiveError>)
        requires
            old(writer).wf(),
        ensures
            final(writer).wf(),
            final(writer).spec_limit() == old(writer).spec_limit(),
            old(writer)@.is_prefix_of(final(writer)@),
            self.archive_post(old(writer)@, final(writer)@, old(writer).spec_limit(), r),
    ;
}

/// The second, infallible phase: a resolver is consumed, exactly once,
/// together with the originating value and a position, to produce the
/// value's archived representation.
pub trait Resolve<T: ?Sized>: Sized {
    /// The fixed-layout representation the resolve step produces.
    type Archived;

    /// Which positions are acceptable for the representation: in particular
    /// its alignment, and that every payload this resolver recorded lies
    /// before it.
    spec fn resolve_req(self, pos: usize, value: &T) -> bool;

    /// The representation as a pure function of value, position and resolver.
    spec fn resolve_spec(self, pos: usize, value: &T) -> Self::Archived;

    /// Combines `(value, position, resolver)` into the archived
    /// representation. No error path exists: every fallible check belongs to
    /// the archive phase.
    fn resolve(self, pos: usize, value: &T) -> (out: Self::Archived)
        requires
            self.resolve_req(pos, value),
        ensures
            out == self.resolve_spec(pos, value),
    ;
}

} // verus!
