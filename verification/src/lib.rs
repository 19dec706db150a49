//! Codec for the binary container format of a firmware Human Interface
//! Infrastructure (HII) package database.
//!
//! A database is a run of package lists; a package list is a 20-byte header
//! followed by packages; a package is a 4-byte header followed by a body whose
//! layout depends on the package's type. Every record carries its own length and
//! nothing else describes the structure, so the cursors of this crate walk a
//! caller-supplied byte buffer by following those length fields, and never read
//! past the extent of the record that contains them. The builders go the other
//! way and produce buffers that the cursors read back unchanged.
pub mod error;
pub mod guid;
pub mod package_header;
pub mod records;
pub mod snapshot;
pub mod text;
pub mod wire;
