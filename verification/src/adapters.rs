//! Built-in archival strategies for the `With` wrapper.
//!
//! `AsString` coerces OS-native path/string values — whose encoding is not
//! statically guaranteed to be text — into the character-string strategy,
//! failing with an encoding error during the fallible serialize step.
//! `Lock` archives mutex- or read/write-lock-guarded values by acquiring
//! the lock during serialization, mapping a poisoned lock to a recoverable
//! error there, and stripping the lock from the archived form.

use vstd::prelude::*;
use vstd::string::StringSliceAdditionalSpecFns;
use vstd::string::StrSliceExecFns;
use vstd::utf8::valid_utf8;

use crate::error::ArchiveError;
use crate::num::from_archived_u64;
use crate::num::to_archived_u64;
use crate::protocol::Archive;
use crate::rel_ptr::RelPtr;
use crate::strings::archive_str_ref;
use crate::strings::bytes_as_str;
use crate::strings::ArchivedString;
use crate::strings::StringResolver;
use crate::strings::StrRef;
use crate::with::ArchiveWith;
use crate::with::DeserializeWith;
use crate::with::Immutable;
use crate::with::SerializeWith;
use crate::writer::Writer;

verus! {

/// An OS-native string or path, modeled as the bytes the operating system
/// hands over: not guaranteed to hold valid UTF-8 text.
pub struct NativeString {
    pub bytes: Vec<u8>,
}

/// The string-coercion strategy: archives an OS-native string as an
/// ordinary archived string, rejecting invalid encodings while
/// serializing.
pub struct AsString;

impl ArchiveWith<NativeString> for AsString {
    type Archived = ArchivedString;

    type Resolver = StringResolver;

    /// Resolving assumes the encoding check of the serialize step has
    /// already passed for this very field: resolving a never-serialized
    /// native string is a contract violation, not a reportable failure.
    open spec fn resolve_with_req(field: &NativeString, pos: usize, resolver: StringResolver) -> bool {
        &&& valid_utf8(field.bytes@)
        &&& resolver.base + field.bytes@.len() <= pos
        &&& pos <= i64::MAX
        &&& (pos as int) % 8 == 0
    }

    open spec fn resolve_with_ens(
        field: &NativeString,
        pos: usize,
        resolver: StringResolver,
        out: ArchivedString,
    ) -> bool {
        out == ArchivedString {
            reference: StrRef {
                ptr: RelPtr::spec_make(resolver.base as int - pos as int),
                len: field.bytes@.len() as usize,
            },
        }
    }

    fn resolve_with(field: &NativeString, pos: usize, resolver: StringResolver) -> (out:
        ArchivedString) {
        ArchivedString {
            reference: StrRef { ptr: RelPtr::make(pos, resolver.base), len: field.bytes.len() },
        }
    }
}

impl SerializeWith<NativeString> for AsString {
    /// Success is owed exactly when the bytes are valid UTF-8 and fit: an
    /// invalid encoding is rejected before anything is written, so no
    /// Reference ever comes to exist for it.
    open spec fn serialize_with_ens(
        field: &NativeString,
        old_buf: Seq<u8>,
        new_buf: Seq<u8>,
        limit: int,
        r: Result<StringResolver, ArchiveError>,
    ) -> bool {
        &&& (r matches Ok(res) ==> valid_utf8(field.bytes@) && res.base == old_buf.len()
            && new_buf == old_buf + field.bytes@)
        &&& (r matches Err(e) ==> new_buf == old_buf && (e == ArchiveError::InvalidEncoding || e
            == ArchiveError::SinkFull))
        &&& (!valid_utf8(field.bytes@) ==> r == Err::<StringResolver, ArchiveError>(
            ArchiveError::InvalidEncoding,
        ))
        &&& (valid_utf8(field.bytes@) ==> (r is Ok <==> old_buf.len() + field.bytes@.len()
            <= limit))
    }

    fn serialize_with(field: &NativeString, writer: &mut Writer) -> (r: Result<
        StringResolver,
        ArchiveError,
    >) {
        match bytes_as_str(field.bytes.as_slice()) {
            None => Err(ArchiveError::InvalidEncoding),
            Some(s) => match archive_str_ref(s, writer) {
                Ok(base) => Ok(StringResolver { base }),
                Err(e) => Err(e),
            },
        }
    }
}

impl DeserializeWith<ArchivedString, NativeString> for AsString {
    open spec fn deserialize_with_req(field: &ArchivedString, buf: Seq<u8>, pos: usize) -> bool {
        &&& field.reference.wf_at(pos as int, buf)
        &&& valid_utf8(field.reference.payload(pos as int, buf))
    }

    /// Text decoded from the archive is always a valid native string, so
    /// reconstruction cannot fail.
    open spec fn deserialize_with_ens(
        field: &ArchivedString,
        buf: Seq<u8>,
        pos: usize,
        r: Result<NativeString, ArchiveError>,
    ) -> bool {
        r matches Ok(ns) && ns.bytes@ == field.reference.payload(pos as int, buf)
    }

    fn deserialize_with(field: &ArchivedString, buf: &[u8], pos: usize) -> (r: Result<
        NativeString,
        ArchiveError,
    >) {
        let s = field.as_str(buf, pos);
        Ok(NativeString { bytes: s.as_bytes_vec() })
    }
}

#[verifier::external_type_specification]
#[verifier::external_body]
#[verifier::reject_recursive_types(T)]
pub struct ExMutex<T: ?Sized>(std::sync::Mutex<T>);

#[verifier::external_type_specification]
#[verifier::external_body]
#[verifier::reject_recursive_types(T)]
pub struct ExRwLock<T: ?Sized>(std::sync::RwLock<T>);

/// Relies on `std::sync::Mutex::new`: builds a fresh, unpoisoned lock
/// holding `value`.
#[verifier::external_body]
pub(crate) fn mutex_new(value: u64) -> (m: std::sync::Mutex<u64>) {
    std::sync::Mutex::new(value)
}

/// Relies on `std::sync::Mutex::lock`: blocks, then yields the guarded
/// value, or nothing when the lock is poisoned. Which value comes back
/// depends on the lock's state at the call, so nothing more is promised.
#[verifier::external_body]
pub(crate) fn mutex_read(m: &std::sync::Mutex<u64>) -> (r: Option<u64>) {
    match m.lock() {
        Ok(guard) => Some(*guard),
        Err(_) => None,
    }
}

/// Relies on `std::sync::Mutex::lock` and `PoisonError::into_inner`:
/// yields the guarded value, proceeding even when the lock is poisoned.
#[verifier::external_body]
pub(crate) fn mutex_read_force(m: &std::sync::Mutex<u64>) -> (r: u64) {
    match m.lock() {
        Ok(guard) => *guard,
        Err(poisoned) => *poisoned.into_inner(),
    }
}

/// Relies on `std::sync::RwLock::new`: builds a fresh, unpoisoned lock
/// holding `value`.
#[verifier::external_body]
pub(crate) fn rwlock_new(value: u64) -> (m: std::sync::RwLock<u64>) {
    std::sync::RwLock::new(value)
}

/// Relies on `std::sync::RwLock::read`: blocks, then yields the guarded
/// value, or nothing when the lock is poisoned.
#[verifier::external_body]
pub(crate) fn rwlock_read(m: &std::sync::RwLock<u64>) -> (r: Option<u64>) {
    match m.read() {
        Ok(guard) => Some(*guard),
        Err(_) => None,
    }
}

/// Relies on `std::sync::RwLock::read` and `PoisonError::into_inner`:
/// yields the guarded value, proceeding even when the lock is poisoned.
#[verifier::external_body]
pub(crate) fn rwlock_read_force(m: &std::sync::RwLock<u64>) -> (r: u64) {
    match m.read() {
        Ok(guard) => *guard,
        Err(poisoned) => *poisoned.into_inner(),
    }
}

/// The lock-unwrapping strategy: serializes the guarded value, surfacing a
/// poisoned lock as a recoverable error during the fallible step only; the
/// archived form strips the lock entirely.
pub struct Lock;

impl ArchiveWith<std::sync::Mutex<u64>> for Lock {
    type Archived = Immutable<rend::u64_le>;

    type Resolver = ();

    open spec fn resolve_with_req(field: &std::sync::Mutex<u64>, pos: usize, resolver: ()) -> bool {
        true
    }

    /// The resolve step re-acquires the lock and, being infallible, force-
    /// reads it even when poisoned: a deliberate, documented compromise.
    /// Which value it reads depends on the lock's state at that instant, so
    /// no contract pins it.
    open spec fn resolve_with_ens(
        field: &std::sync::Mutex<u64>,
        pos: usize,
        resolver: (),
        out: Immutable<rend::u64_le>,
    ) -> bool {
        true
    }

    fn resolve_with(field: &std::sync::Mutex<u64>, pos: usize, resolver: ()) -> (out: Immutable<
        rend::u64_le,
    >) {
        Immutable::new(to_archived_u64(mutex_read_force(field)))
    }
}

impl SerializeWith<std::sync::Mutex<u64>> for Lock {
    /// Serializing acquires the lock and forwards to the guarded value's
    /// own serialize step, which writes nothing for an integer; a poisoned
    /// lock surfaces here, as the poisoned-lock error, before any resolve
    /// step can run.
    open spec fn serialize_with_ens(
        field: &std::sync::Mutex<u64>,
        old_buf: Seq<u8>,
        new_buf: Seq<u8>,
        limit: int,
        r: Result<(), ArchiveError>,
    ) -> bool {
        &&& new_buf == old_buf
        &&& (r matches Err(e) ==> e == ArchiveError::Poisoned)
    }

    fn serialize_with(field: &std::sync::Mutex<u64>, writer: &mut Writer) -> (r: Result<
        (),
        ArchiveError,
    >) {
        match mutex_read(field) {
            Some(value) => value.archive(writer),
            None => Err(ArchiveError::Poisoned),
        }
    }
}

impl DeserializeWith<Immutable<rend::u64_le>, std::sync::Mutex<u64>> for Lock {
    open spec fn deserialize_with_req(
        field: &Immutable<rend::u64_le>,
        buf: Seq<u8>,
        pos: usize,
    ) -> bool {
        true
    }

    /// Deserialization reconstructs a fresh, unpoisoned lock around the
    /// recovered value and cannot fail.
    open spec fn deserialize_with_ens(
        field: &Immutable<rend::u64_le>,
        buf: Seq<u8>,
        pos: usize,
        r: Result<std::sync::Mutex<u64>, ArchiveError>,
    ) -> bool {
        r is Ok
    }

    fn deserialize_with(field: &Immutable<rend::u64_le>, buf: &[u8], pos: usize) -> (r: Result<
        std::sync::Mutex<u64>,
        ArchiveError,
    >) {
        Ok(mutex_new(from_archived_u64(field.value())))
    }
}

impl ArchiveWith<std::sync::RwLock<u64>> for Lock {
    type Archived = Immutable<rend::u64_le>;

    type Resolver = ();

    open spec fn resolve_with_req(field: &std::sync::RwLock<u64>, pos: usize, resolver: ()) -> bool {
        true
    }

    /// As for the mutex: the infallible resolve step force-reads a
    /// poisoned lock, and no contract pins the value it observes.
    open spec fn resolve_with_ens(
        field: &std::sync::RwLock<u64>,
        pos: usize,
        resolver: (),
        out: Immutable<rend::u64_le>,
    ) -> bool {
        true
    }

    fn resolve_with(field: &std::sync::RwLock<u64>, pos: usize, resolver: ()) -> (out: Immutable<
        rend::u64_le,
    >) {
        Immutable::new(to_archived_u64(rwlock_read_force(field)))
    }
}

impl SerializeWith<std::sync::RwLock<u64>> for Lock {
    open spec fn serialize_with_ens(
        field: &std::sync::RwLock<u64>,
        old_buf: Seq<u8>,
        new_buf: Seq<u8>,
        limit: int,
        r: Result<(), ArchiveError>,
    ) -> bool {
        &&& new_buf == old_buf
        &&& (r matches Err(e) ==> e == ArchiveError::Poisoned)
    }

    fn serialize_with(field: &std::sync::RwLock<u64>, writer: &mut Writer) -> (r: Result<
        (),
        ArchiveError,
    >) {
        match rwlock_read(field) {
            Some(value) => value.archive(writer),
            None => Err(ArchiveError::Poisoned),
        }
    }
}

impl DeserializeWith<Immutable<rend::u64_le>, std::sync::RwLock<u64>> for Lock {
    open spec fn deserialize_with_req(
        field: &Immutable<rend::u64_le>,
        buf: Seq<u8>,
        pos: usize,
    ) -> bool {
        true
    }

    open spec fn deserialize_with_ens(
        field: &Immutable<rend::u64_le>,
        buf: Seq<u8>,
        pos: usize,
        r: Result<std::sync::RwLock<u64>, ArchiveError>,
    ) -> bool {
        r is Ok
    }

    fn deserialize_with(field: &Immutable<rend::u64_le>, buf: &[u8], pos: usize) -> (r: Result<
        std::sync::RwLock<u64>,
        ArchiveError,
    >) {
        Ok(rwlock_new(from_archived_u64(field.value())))
    }
}

} // verus!
