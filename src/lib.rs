//! File-integrity checking against a manifest of content digests.
//!
//! The library holds the logic: rendering SHA-256 digests as lowercase
//! hexadecimal, normalising relative paths, building a manifest from the
//! files found under a root, and comparing a manifest with what was observed
//! on disk. Reading files, walking directories and the manifest's JSON form
//! are left to the caller.

mod text;
pub mod digest;
pub mod paths;
pub mod manifest;
pub mod compare;
pub mod generate;
pub mod laws;
