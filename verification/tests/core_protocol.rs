//! Tests for the writer, relative pointers, and the archive/resolve
//! protocol on owned types.

use zarc::Archive;
use zarc::ArchiveError;
use zarc::RelPtr;
use zarc::Resolve;
use zarc::Writer;

#[test]
fn writer_positions_are_monotonic_and_aligned() {
    let mut w = Writer::new(1024);
    assert_eq!(w.pos(), 0);
    let p0 = w.write_bytes(&[1, 2, 3]).unwrap();
    assert_eq!(p0, 0);
    assert_eq!(w.pos(), 3);
    let p1 = w.align_for(8).unwrap();
    assert_eq!(p1, 8);
    assert_eq!(p1 % 8, 0);
    assert_eq!(w.pos(), 8);
    // Aligning an already aligned cursor reserves nothing.
    let p2 = w.align_for(8).unwrap();
    assert_eq!(p2, 8);
}

#[test]
fn writer_sink_full_leaves_buffer_untouched() {
    let mut w = Writer::new(4);
    let r = w.write_bytes(&[9, 9, 9, 9, 9]);
    assert_eq!(r, Err(ArchiveError::SinkFull));
    assert_eq!(w.pos(), 0);
    assert_eq!(w.write_bytes(&[1, 2, 3, 4]).unwrap(), 0);
}

#[test]
fn rel_ptr_target_is_position_independent() {
    let ptr = RelPtr::make(16, 4);
    assert_eq!(ptr.target(16), 4);
    let forward = RelPtr::make(0, 24);
    assert_eq!(forward.target(0), 24);
}

#[test]
fn string_archive_resolve_round_trip() {
    let mut w = Writer::new(1024);
    let v = String::from("hello, archive");
    let resolver = v.archive(&mut w).unwrap();
    assert_eq!(resolver.base, 0);
    let (pos, archived) = zarc::strings::resolve_and_write_string(&v, resolver, &mut w).unwrap();
    assert_eq!(pos, 16);
    let buf = w.as_bytes();
    assert_eq!(archived.as_str(buf, pos), "hello, archive");
    let back = archived.deserialize(buf, pos);
    assert_eq!(back, v);
}

#[test]
fn string_representation_bytes_are_little_endian_words() {
    let mut w = Writer::new(1024);
    let v = String::from("abcdefgh");
    let resolver = v.archive(&mut w).unwrap();
    let (pos, _archived) = zarc::strings::resolve_and_write_string(&v, resolver, &mut w).unwrap();
    let buf = w.as_bytes();
    // Payload first, then at the aligned position the relative offset and
    // the byte count, each as a 64-bit little-endian word.
    assert_eq!(&buf[0..8], b"abcdefgh");
    assert_eq!(pos, 8);
    let offset = (-8i64) as u64;
    assert_eq!(&buf[8..16], &offset.to_le_bytes());
    assert_eq!(&buf[16..24], &8u64.to_le_bytes());
}

#[test]
fn string_payload_precedes_reference() {
    let mut w = Writer::new(1024);
    let v = String::from("ordering");
    let resolver = v.archive(&mut w).unwrap();
    let base = resolver.base;
    let (pos, archived) = zarc::strings::resolve_and_write_string(&v, resolver, &mut w).unwrap();
    assert!(base + v.len() <= pos);
    assert_eq!(archived.reference.ptr.offset, base as i64 - pos as i64);
    assert!(archived.reference.ptr.offset <= 0);
}

#[test]
fn archived_string_equals_plain_string_both_ways() {
    let mut w = Writer::new(1024);
    let v = String::from("abc");
    let resolver = v.archive(&mut w).unwrap();
    let (pos, archived) = zarc::strings::resolve_and_write_string(&v, resolver, &mut w).unwrap();
    let buf = w.as_bytes();
    assert!(archived.eq_str(buf, pos, "abc"));
    assert!(zarc::strings::str_eq_archived("abc", &archived, buf, pos));
    assert!(!archived.eq_str(buf, pos, "abd"));
    assert!(!zarc::strings::str_eq_archived("ab", &archived, buf, pos));
}

#[test]
fn empty_string_round_trip() {
    let mut w = Writer::new(64);
    let v = String::new();
    let resolver = v.archive(&mut w).unwrap();
    let (pos, archived) = zarc::strings::resolve_and_write_string(&v, resolver, &mut w).unwrap();
    let buf = w.as_bytes();
    assert_eq!(archived.as_str(buf, pos), "");
    assert!(archived.eq_str(buf, pos, ""));
}

#[test]
fn vec_archive_resolve_round_trip() {
    let mut w = Writer::new(1024);
    let v: Vec<u64> = vec![5, 6, 7, 0xffff_ffff_ffff_ffff];
    let resolver = v.archive(&mut w).unwrap();
    assert_eq!(resolver.inner, 0);
    let pos = w.align_for(8).unwrap();
    let archived = resolver.resolve(pos, &v);
    let buf = w.as_bytes();
    assert_eq!(archived.get(buf, pos, 0), 5);
    assert_eq!(archived.get(buf, pos, 3), 0xffff_ffff_ffff_ffff);
    assert_eq!(archived.deserialize(buf, pos), v);
    assert!(archived.eq_vec(buf, pos, &v));
    assert!(!archived.eq_vec(buf, pos, &vec![5, 6, 7]));
    assert!(!archived.eq_vec(buf, pos, &vec![5, 6, 7, 8]));
}

#[test]
fn vec_elements_are_little_endian_at_aligned_base() {
    let mut w = Writer::new(1024);
    w.write_bytes(&[1, 2, 3]).unwrap();
    let v: Vec<u64> = vec![0x0102_0304_0506_0708, 11];
    let resolver = v.archive(&mut w).unwrap();
    // The base is aligned for the 8-byte element representation.
    assert_eq!(resolver.inner, 8);
    let buf = w.as_bytes();
    assert_eq!(&buf[8..16], &0x0102_0304_0506_0708u64.to_le_bytes());
    assert_eq!(&buf[16..24], &11u64.to_le_bytes());
}

#[test]
fn empty_vec_round_trip() {
    let mut w = Writer::new(64);
    let v: Vec<u64> = Vec::new();
    let resolver = v.archive(&mut w).unwrap();
    let pos = w.align_for(8).unwrap();
    let archived = resolver.resolve(pos, &v);
    let buf = w.as_bytes();
    assert_eq!(archived.deserialize(buf, pos), v);
    assert!(archived.eq_vec(buf, pos, &v));
}

#[test]
fn vec_archive_fails_when_it_does_not_fit() {
    let mut w = Writer::new(15);
    let v: Vec<u64> = vec![1, 2];
    let r = v.archive(&mut w);
    assert!(matches!(r, Err(ArchiveError::SinkFull)));
}

#[test]
fn vec_resolve_and_write_embeds_a_valid_reference() {
    let mut w = Writer::new(1024);
    let v: Vec<u64> = vec![3, 1, 4];
    let resolver = v.archive(&mut w).unwrap();
    let (pos, archived) = zarc::vecs::resolve_and_write_vec(&v, resolver, &mut w).unwrap();
    assert_eq!(pos, 24);
    let buf = w.as_bytes();
    assert_eq!(archived.deserialize(buf, pos), v);
    // The embedded reference: relative offset back to the element array,
    // then the element count.
    let offset = (-24i64) as u64;
    assert_eq!(&buf[24..32], &offset.to_le_bytes());
    assert_eq!(&buf[32..40], &3u64.to_le_bytes());
}

#[test]
fn several_values_share_one_buffer_in_archive_order() {
    let mut w = Writer::new(1024);
    let first = String::from("first");
    let second = String::from("second!");
    let r1 = first.archive(&mut w).unwrap();
    let r2 = second.archive(&mut w).unwrap();
    // Payloads landed one after the other, positions never reassigned.
    assert_eq!(r1.base, 0);
    assert_eq!(r2.base, 5);
    let (pos1, a1) = zarc::strings::resolve_and_write_string(&first, r1, &mut w).unwrap();
    let (pos2, a2) = zarc::strings::resolve_and_write_string(&second, r2, &mut w).unwrap();
    assert!(pos1 < pos2);
    let buf = w.as_bytes();
    assert_eq!(a1.as_str(buf, pos1), "first");
    assert_eq!(a2.as_str(buf, pos2), "second!");
}

#[test]
fn relocated_buffer_still_resolves_references() {
    let mut w = Writer::new(1024);
    let v = String::from("movable");
    let resolver = v.archive(&mut w).unwrap();
    let (pos, archived) = zarc::strings::resolve_and_write_string(&v, resolver, &mut w).unwrap();
    // Copy the whole buffer somewhere else; the relative reference is
    // unaffected by the move.
    let copy: Vec<u8> = w.as_bytes().to_vec();
    assert_eq!(archived.as_str(&copy, pos), "movable");
}

#[test]
fn box_archive_resolve_round_trip() {
    let mut w = Writer::new(1024);
    let v: Box<str> = String::from("boxed payload").into_boxed_str();
    let resolver = v.archive(&mut w).unwrap();
    assert_eq!(resolver.inner, 0);
    let pos = w.align_for(8).unwrap();
    let archived = resolver.resolve(pos, &v);
    let buf = w.as_bytes();
    assert_eq!(archived.as_str(buf, pos), "boxed payload");
    assert!(archived.eq_boxed_str(buf, pos, &v));
    let back = archived.deserialize(buf, pos);
    assert_eq!(back, v);
}
