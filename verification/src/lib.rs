//! A forensic scanner for raw NTFS disk images.
//!
//! Given a byte-addressable image, the scanner locates every plausible Master
//! File Table record (1024 bytes, beginning with the signature `FILE` on an
//! 8-byte boundary) and decodes it into an [`NtfsEntry`](model::NtfsEntry):
//! names, timestamps, attribute flags, data streams with their cluster
//! layouts, reparse information, and identifiers.
//!
//! Every decoder is specified against a mathematical model of the on-disk
//! format and verified: offsets read from untrusted data are bounds-checked,
//! arithmetic cannot overflow, and a record that does not decode is skipped
//! rather than failing the scan.

pub mod attrs;
pub mod bytes;
pub mod model;
pub mod record;
pub mod scan;
pub mod text;
