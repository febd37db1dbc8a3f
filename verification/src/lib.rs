//! A persisted, memory-mapped, strongly-typed fixed-capacity array.
//!
//! A backing file starts with a self-describing header (magic tag, record
//! type identity, record count), is padded to a page boundary, and then
//! carries `record_count` fixed-size records.  This crate holds the verified
//! core: the header codec, the page-alignment arithmetic, the plans that
//! decide how a file is created or reopened, and the typed view over a
//! mapped byte region.  The raw file and mapping system calls live outside
//! the library, behind the [`view::Mmap`] trait.

pub mod align;
pub mod error;
pub mod header;
pub mod view;
