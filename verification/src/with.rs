//! The `With` adapter mechanism: substitutable archival strategies.
//!
//! Some field types cannot or should not implement the archival protocol
//! directly — foreign ownership, or several equally valid encodings. A
//! `With<F, W>` pairs a field of type `F` with a phantom strategy selector
//! `W`; three companion traits dispatch the archive, serialize and
//! deserialize steps to the selected strategy. The wrapper is a purely
//! type-level device: it holds the field and nothing else.

use core::marker::PhantomData;
use vstd::prelude::*;

use crate::error::ArchiveError;
use crate::protocol::Archive;
use crate::writer::Writer;

verus! {

/// A transparent wrapper pairing a field with an archival strategy.
pub struct With<F, W> {
    pub field: F,
    pub strategy: PhantomData<W>,
}

impl<F, W> With<F, W> {
    /// Wraps a field with a strategy selector. The wrapper owns nothing
    /// beyond the field itself.
    pub fn wrap(field: F) -> (w: With<F, W>)
        ensures
            w.field == field,
    {
        With { field, strategy: PhantomData }
    }

    /// Unwraps a `With` into the underlying field.
    pub fn into_inner(self) -> (f: F)
        ensures
            f == self.field,
    {
        self.field
    }
}

/// The strategy's own resolve step, parameterized by the field's type: the
/// infallible half of archiving a `With<F, Self>`.
pub trait ArchiveWith<F> {
    /// The archived type of a `With<F, Self>`.
    type Archived;

    /// The resolver of a `With<F, Self>`.
    type Resolver;

    /// When the position and resolver are acceptable for the resolve step —
    /// in particular, that every check the fallible serialize step performs
    /// has already succeeded for `field`.
    spec fn resolve_with_req(field: &F, pos: usize, resolver: Self::Resolver) -> bool;

    /// What the resolve step guarantees about the representation produced.
    spec fn resolve_with_ens(
        field: &F,
        pos: usize,
        resolver: Self::Resolver,
        out: Self::Archived,
    ) -> bool;

    /// Resolves the archived type using a borrow of the field.
    fn resolve_with(field: &F, pos: usize, resolver: Self::Resolver) -> (out: Self::Archived)
        requires
            Self::resolve_with_req(field, pos, resolver),
        ensures
            Self::resolve_with_ens(field, pos, resolver, out),
    ;
}

/// The strategy's fallible serialization step: may write, validate, and
/// fail with a recoverable error.
pub trait SerializeWith<F>: ArchiveWith<F> {
    /// What the serialize step guarantees, relating the buffer before and
    /// after, the sink's limit, and the outcome.
    spec fn serialize_with_ens(
        field: &F,
        old_buf: Seq<u8>,
        new_buf: Seq<u8>,
        limit: int,
        r: Result<Self::Resolver, ArchiveError>,
    ) -> bool;

    /// Serializes the field using the given writer.
    fn serialize_with(field: &F, writer: &mut Writer) -> (r: Result<
        Self::Resolver,
        ArchiveError,
    >)
        requires
            old(writer).wf(),
        ensures
            final(writer).wf(),
            final(writer).spec_limit() == old(writer).spec_limit(),
            old(writer)@.is_prefix_of(final(writer)@),
            Self::serialize_with_ens(
                field,
                old(writer)@,
                final(writer)@,
                old(writer).spec_limit(),
                r,
            ),
    ;
}

/// The inverse strategy step: reconstructing a value of the original
/// foreign type from its archived form in the buffer.
pub trait DeserializeWith<F, T> {
    /// When the archived value can be read back at `pos` in `buf`.
    spec fn deserialize_with_req(field: &F, buf: Seq<u8>, pos: usize) -> bool;

    /// What the reconstructed value satisfies.
    spec fn deserialize_with_ens(
        field: &F,
        buf: Seq<u8>,
        pos: usize,
        r: Result<T, ArchiveError>,
    ) -> bool;

    /// Deserializes the field type from its archived form.
    fn deserialize_with(field: &F, buf: &[u8], pos: usize) -> (r: Result<T, ArchiveError>)
        requires
            Self::deserialize_with_req(field, buf@, pos),
        ensures
            Self::deserialize_with_ens(field, buf@, pos, r),
    ;
}

impl<F, W: SerializeWith<F>> Archive for With<F, W> {
    type Resolver = W::Resolver;

    /// A wrapped field archives exactly as its strategy serializes it.
    open spec fn archive_post(
        &self,
        old_buf: Seq<u8>,
        new_buf: Seq<u8>,
        limit: int,
        r: Result<W::Resolver, ArchiveError>,
    ) -> bool {
        W::serialize_with_ens(&self.field, old_buf, new_buf, limit, r)
    }

    fn archive(&self, writer: &mut Writer) -> (r: Result<W::Resolver, ArchiveError>) {
        W::serialize_with(&self.field, writer)
    }
}

/// Resolves a wrapped field through its strategy: the resolve step of a
/// `With<F, W>` is exactly the strategy's own resolve step on the field.
pub fn resolve_wrapped<F, W: ArchiveWith<F>>(
    value: &With<F, W>,
    pos: usize,
    resolver: W::Resolver,
) -> (out: W::Archived)
    requires
        W::resolve_with_req(&value.field, pos, resolver),
    ensures
        W::resolve_with_ens(&value.field, pos, resolver, out),
{
    W::resolve_with(&value.field, pos, resolver)
}

/// Reconstruction of an owned value from its archived form in the buffer.
pub trait Deserialize<T> {
    /// When the archived value can be read back at `pos` in `buf`.
    spec fn deserialize_req(&self, buf: Seq<u8>, pos: usize) -> bool;

    /// What the reconstructed value satisfies.
    spec fn deserialize_ens(&self, buf: Seq<u8>, pos: usize, r: Result<T, ArchiveError>) -> bool;

    /// Deserializes an owned value from `self`'s archived form.
    fn deserialize(&self, buf: &[u8], pos: usize) -> (r: Result<T, ArchiveError>)
        requires
            self.deserialize_req(buf@, pos),
        ensures
            self.deserialize_ens(buf@, pos, r),
    ;
}

impl<F, T, W: DeserializeWith<F, T>> Deserialize<With<T, W>> for F {
    open spec fn deserialize_req(&self, buf: Seq<u8>, pos: usize) -> bool {
        W::deserialize_with_req(self, buf, pos)
    }

    /// An archived value deserializes into a wrapped field exactly as its
    /// strategy reconstructs that field.
    open spec fn deserialize_ens(
        &self,
        buf: Seq<u8>,
        pos: usize,
        r: Result<With<T, W>, ArchiveError>,
    ) -> bool {
        match r {
            Ok(w) => W::deserialize_with_ens(self, buf, pos, Ok(w.field)),
            Err(e) => W::deserialize_with_ens(self, buf, pos, Err(e)),
        }
    }

    fn deserialize(&self, buf: &[u8], pos: usize) -> (r: Result<With<T, W>, ArchiveError>) {
        match W::deserialize_with(self, buf, pos) {
            Ok(field) => Ok(With::wrap(field)),
            Err(e) => Err(e),
        }
    }
}

/// A wrapper making an archived value read-only: the archived form of a
/// lock-guarded value, with the lock stripped.
pub struct Immutable<T> {
    value: T,
}

impl<T> Immutable<T> {
    /// The wrapped value.
    pub closed spec fn spec_value(&self) -> T {
        self.value
    }

    /// Wraps a value.
    pub fn new(value: T) -> (r: Immutable<T>)
        ensures
            r.spec_value() == value,
    {
        Immutable { value }
    }

    /// Gets the underlying immutable value.
    pub fn value(&self) -> (r: &T)
        ensures
            *r == self.spec_value(),
    {
        &self.value
    }
}

} // verus!
