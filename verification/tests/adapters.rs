//! Tests for the `With` wrapper mechanism and the built-in adapters.

use std::sync::Mutex;
use std::sync::RwLock;

use zarc::Archive;
use zarc::ArchiveError;
use zarc::ArchiveWith;
use zarc::AsString;
use zarc::Deserialize;
use zarc::DeserializeWith;
use zarc::Lock;
use zarc::NativeString;
use zarc::SerializeWith;
use zarc::With;
use zarc::Writer;

#[test]
fn with_wraps_and_unwraps_the_field() {
    let w: With<u64, Lock> = With::wrap(9);
    assert_eq!(w.into_inner(), 9);
}

#[test]
fn native_string_serializes_as_archived_string() {
    let mut w = Writer::new(1024);
    let field = NativeString { bytes: b"a native path".to_vec() };
    let resolver = AsString::serialize_with(&field, &mut w).unwrap();
    assert_eq!(resolver.base, 0);
    let pos = w.align_for(8).unwrap();
    let archived = AsString::resolve_with(&field, pos, resolver);
    let buf = w.as_bytes();
    assert_eq!(archived.as_str(buf, pos), "a native path");
    let back = AsString::deserialize_with(&archived, buf, pos).unwrap();
    assert_eq!(back.bytes, b"a native path".to_vec());
}

#[test]
fn invalid_encoding_is_rejected_and_writes_nothing() {
    let mut w = Writer::new(1024);
    let field = NativeString { bytes: vec![0xff, 0xfe, 0x41] };
    let r = AsString::serialize_with(&field, &mut w);
    assert!(matches!(r, Err(ArchiveError::InvalidEncoding)));
    assert_eq!(w.pos(), 0);
}

#[test]
fn with_wrapper_archives_through_its_strategy() {
    let mut w = Writer::new(1024);
    let wrapped: With<NativeString, AsString> =
        With::wrap(NativeString { bytes: b"dispatch".to_vec() });
    let resolver = wrapped.archive(&mut w).unwrap();
    let pos = w.align_for(8).unwrap();
    let archived = zarc::with::resolve_wrapped(&wrapped, pos, resolver);
    assert_eq!(archived.as_str(w.as_bytes(), pos), "dispatch");
}

#[test]
fn deserialize_bridge_rebuilds_a_wrapped_field() {
    let mut w = Writer::new(1024);
    let field = NativeString { bytes: b"bridged".to_vec() };
    let resolver = AsString::serialize_with(&field, &mut w).unwrap();
    let pos = w.align_for(8).unwrap();
    let archived = AsString::resolve_with(&field, pos, resolver);
    let buf = w.as_bytes();
    let back: With<NativeString, AsString> =
        Deserialize::deserialize(&archived, buf, pos).unwrap();
    assert_eq!(back.into_inner().bytes, b"bridged".to_vec());
}

#[test]
fn healthy_mutex_serializes_resolves_and_deserializes() {
    let mut w = Writer::new(1024);
    let field: Mutex<u64> = Mutex::new(42);
    let resolver = Lock::serialize_with(&field, &mut w).unwrap();
    assert_eq!(w.pos(), 0);
    let archived = Lock::resolve_with(&field, 0, resolver);
    assert_eq!(archived.value().to_native(), 42);
    let back: Mutex<u64> = Lock::deserialize_with(&archived, w.as_bytes(), 0).unwrap();
    assert_eq!(*back.lock().unwrap(), 42);
}

#[test]
fn healthy_rwlock_serializes_resolves_and_deserializes() {
    let mut w = Writer::new(1024);
    let field: RwLock<u64> = RwLock::new(7);
    let resolver = Lock::serialize_with(&field, &mut w).unwrap();
    let archived = Lock::resolve_with(&field, 0, resolver);
    assert_eq!(archived.value().to_native(), 7);
    let back: RwLock<u64> = Lock::deserialize_with(&archived, w.as_bytes(), 0).unwrap();
    assert_eq!(*back.read().unwrap(), 7);
}

#[test]
fn lock_adapter_wraps_a_guarded_value_with_the_lock_stripped() {
    let field: Mutex<u64> = Mutex::new(314);
    let archived = Lock::resolve_with(&field, 0, ());
    // The archived form is an immutable wrapper over the byte-order-
    // normalized value; the lock itself is gone.
    assert_eq!(archived.value().to_native(), 314);
}
