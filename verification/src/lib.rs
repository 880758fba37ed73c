//! Validation and decoding of FTAB containers: a 48-byte header, a table of
//! 16-byte entry descriptors, and payloads addressed by absolute offsets.
//!
//! [`parse_ftab_from_bytes`] turns the bytes of a buffer into an [`Ftab`] or
//! into the first rule that the buffer breaks. What it returns is fixed by
//! [`model::parse_model`], a function on byte sequences; [`laws`] holds what
//! is proved of that function.

pub mod container;
pub mod endian;
pub mod laws;
pub mod layout;
pub mod model;
pub mod parser;
pub mod text;

pub use container::{Ftab, FtabEntry, FtabError, ValidationMode};
pub use parser::parse_ftab_from_bytes;
pub use text::safe_tag_filename;
