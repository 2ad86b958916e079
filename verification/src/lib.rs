//! A zero-copy archival serialization core.
//!
//! Values are archived in two phases: an `archive` step writes any out-of-line
//! data a value depends on into an append-only buffer and produces a
//! single-use resolver; a later `resolve` step combines the value, the
//! resolver, and the final position of the value's archived representation
//! into that representation. Dynamically sized payloads (strings, slices) are
//! addressed through relative offsets, so a finished buffer stays valid under
//! relocation.

pub mod adapters;
pub mod boxes;
pub mod error;
pub mod num;
pub mod protocol;
pub mod rel_ptr;
pub mod slices;
pub mod strings;
pub mod vecs;
pub mod with;
pub mod writer;

pub use adapters::AsString;
pub use adapters::Lock;
pub use adapters::NativeString;
pub use boxes::ArchivedBox;
pub use boxes::BoxResolver;
pub use error::ArchiveError;
pub use protocol::Archive;
pub use protocol::Resolve;
pub use rel_ptr::RelPtr;
pub use strings::ArchivedString;
pub use strings::StringResolver;
pub use vecs::ArchivedVec;
pub use vecs::VecResolver;
pub use with::ArchiveWith;
pub use with::Deserialize;
pub use with::DeserializeWith;
pub use with::Immutable;
pub use with::SerializeWith;
pub use with::With;
pub use writer::Writer;
