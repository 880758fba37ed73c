//! What parsing means, as a function from the bytes of a buffer to the
//! container they describe or to the first rule they break.

use vstd::prelude::*;

use crate::container::{EntryModel, ErrorModel, FtabModel};
use crate::layout::{field_u32, field_u64, HEADER_LEN, MAX_FILES, ROW_LEN};

verus! {

/// The text `rksoftab`.
pub const MAGIC_RKSOFTAB: [u8; 8] = [0x72, 0x6b, 0x73, 0x6f, 0x66, 0x74, 0x61, 0x62];

/// The text `RKSOFTAB`.
pub const MAGIC_RKSOFTAB_UPPER: [u8; 8] = [0x52, 0x4b, 0x53, 0x4f, 0x46, 0x54, 0x41, 0x42];

/// The text `rkosftab`.
pub const MAGIC_RKOSFTAB: [u8; 8] = [0x72, 0x6b, 0x6f, 0x73, 0x66, 0x74, 0x61, 0x62];

/// The text `RKOSFTAB`.
pub const MAGIC_RKOSFTAB_UPPER: [u8; 8] = [0x52, 0x4b, 0x4f, 0x53, 0x46, 0x54, 0x41, 0x42];

/// What a `Truncated` error names when the header is cut short.
pub const TRUNCATED_HEADER: &'static str = "header (need 48 bytes)";

/// A magic is accepted when it is one of the four known tags, byte for byte.
pub open spec fn accepted_magic(magic: Seq<u8>) -> bool {
    ||| magic == MAGIC_RKSOFTAB@
    ||| magic == MAGIC_RKSOFTAB_UPPER@
    ||| magic == MAGIC_RKOSFTAB@
    ||| magic == MAGIC_RKOSFTAB_UPPER@
}

/// The generation counter of the header.
pub open spec fn generation_of(bytes: Seq<u8>) -> nat {
    field_u32(bytes, 0x00)
}

/// The validity flag of the header.
pub open spec fn valid_flag_of(bytes: Seq<u8>) -> nat {
    field_u32(bytes, 0x04)
}

/// The boot nonce of the header.
pub open spec fn boot_nonce_of(bytes: Seq<u8>) -> nat {
    field_u64(bytes, 0x08)
}

/// Where the header says the manifest starts.
pub open spec fn manifest_offset_of(bytes: Seq<u8>) -> nat {
    field_u32(bytes, 0x10)
}

/// How long the header says the manifest is.
pub open spec fn manifest_length_of(bytes: Seq<u8>) -> nat {
    field_u32(bytes, 0x14)
}

/// The eight bytes of the header that hold the magic.
pub open spec fn magic_of(bytes: Seq<u8>) -> Seq<u8> {
    bytes.subrange(0x20, 0x28)
}

/// How many descriptors the header says the table holds.
pub open spec fn file_count_of(bytes: Seq<u8>) -> nat {
    field_u32(bytes, 0x28)
}

/// The offset just past the last descriptor of the table.
pub open spec fn table_end_of(bytes: Seq<u8>) -> nat {
    HEADER_LEN as nat + (ROW_LEN as nat) * file_count_of(bytes)
}

/// Where descriptor `i` starts.
pub open spec fn row_start(i: nat) -> nat {
    HEADER_LEN as nat + (ROW_LEN as nat) * i
}

/// The tag of descriptor `i`.
pub open spec fn row_tag(bytes: Seq<u8>, i: nat) -> Seq<u8> {
    bytes.subrange(row_start(i) as int, row_start(i) + 4 as int)
}

/// Where descriptor `i` says its payload starts.
pub open spec fn row_offset(bytes: Seq<u8>, i: nat) -> nat {
    field_u32(bytes, row_start(i) + 4 as int)
}

/// How long descriptor `i` says its payload is.
pub open spec fn row_length(bytes: Seq<u8>, i: nat) -> nat {
    field_u32(bytes, row_start(i) + 8 as int)
}

/// The first rule that the header, the table bounds or the manifest break,
/// if any: what is checked before a descriptor is read.
pub open spec fn frame_error(bytes: Seq<u8>, header_only: bool) -> Option<ErrorModel> {
    if bytes.len() < HEADER_LEN {
        Some(ErrorModel::Truncated(TRUNCATED_HEADER@))
    } else if !accepted_magic(magic_of(bytes)) {
        Some(ErrorModel::InvalidMagic(magic_of(bytes)))
    } else if file_count_of(bytes) == 0 || file_count_of(bytes) > MAX_FILES {
        Some(ErrorModel::InvalidFileCount(file_count_of(bytes)))
    } else if table_end_of(bytes) > bytes.len() {
        Some(ErrorModel::TableOutOfBounds { table_end: table_end_of(bytes), file_len: bytes.len() })
    } else if !header_only && manifest_length_of(bytes) != 0 && manifest_offset_of(bytes)
        + manifest_length_of(bytes) > bytes.len() {
        Some(
            ErrorModel::ManifestOutOfBounds {
                off: manifest_offset_of(bytes),
                len: manifest_length_of(bytes),
                file_len: bytes.len(),
            },
        )
    } else {
        None
    }
}

/// The `len` bytes of the buffer that start at `off`.
pub open spec fn byte_range(bytes: Seq<u8>, off: nat, len: nat) -> Seq<u8>
    recommends
        off + len <= bytes.len(),
{
    bytes.subrange(off as int, (off + len) as int)
}

/// The manifest: a copy of its declared range where the declared length is
/// not zero and the range lies in the buffer, absent otherwise.
pub open spec fn manifest_model(bytes: Seq<u8>) -> Option<Seq<u8>> {
    let off = manifest_offset_of(bytes);
    let len = manifest_length_of(bytes);
    if len != 0 && off + len <= bytes.len() {
        Some(byte_range(bytes, off, len))
    } else {
        None
    }
}

/// What one descriptor contributes.
pub enum RowOutcome {
    /// Its declared length is zero: a placeholder, which gives no entry.
    Skipped,
    /// It gives this entry.
    Emitted(EntryModel),
    /// It breaks this rule.
    Rejected(ErrorModel),
}

/// The payload of a descriptor: a copy of its declared range where that lies
/// in the buffer, empty otherwise.
pub open spec fn payload_model(bytes: Seq<u8>, off: nat, len: nat) -> Seq<u8> {
    if off + len <= bytes.len() {
        byte_range(bytes, off, len)
    } else {
        Seq::empty()
    }
}

/// The entry that descriptor `i` declares.
pub open spec fn row_entry(bytes: Seq<u8>, i: nat) -> EntryModel {
    EntryModel {
        tag: row_tag(bytes, i),
        offset: row_offset(bytes, i),
        length: row_length(bytes, i),
        data: payload_model(bytes, row_offset(bytes, i), row_length(bytes, i)),
    }
}

/// What descriptor `i` contributes: nothing where its length is zero; an
/// error where its payload starts inside the header or the table, or, unless
/// `header_only`, ends past the buffer; its entry otherwise.
pub open spec fn row_outcome(bytes: Seq<u8>, header_only: bool, i: nat) -> RowOutcome {
    let off = row_offset(bytes, i);
    let len = row_length(bytes, i);
    if len == 0 {
        RowOutcome::Skipped
    } else if off < table_end_of(bytes) {
        RowOutcome::Rejected(
            ErrorModel::EntryBeforeTable { idx: i, off, table_end: table_end_of(bytes) },
        )
    } else if !header_only && off + len > bytes.len() {
        RowOutcome::Rejected(
            ErrorModel::EntryOutOfBounds { idx: i, off, len, file_len: bytes.len() },
        )
    } else {
        RowOutcome::Emitted(row_entry(bytes, i))
    }
}

/// The entries of the first `n` descriptors in table order, or the error of
/// the first descriptor among them that is rejected.
pub open spec fn rows_model(bytes: Seq<u8>, header_only: bool, n: nat) -> Result<
    Seq<EntryModel>,
    ErrorModel,
>
    decreases n,
{
    if n == 0 {
        Ok(Seq::empty())
    } else {
        match rows_model(bytes, header_only, (n - 1) as nat) {
            Err(e) => Err(e),
            Ok(entries) => match row_outcome(bytes, header_only, (n - 1) as nat) {
                RowOutcome::Skipped => Ok(entries),
                RowOutcome::Emitted(entry) => Ok(entries.push(entry)),
                RowOutcome::Rejected(e) => Err(e),
            },
        }
    }
}

/// The container that a buffer describes, or the first rule that it breaks.
pub open spec fn parse_model(bytes: Seq<u8>, header_only: bool) -> Result<FtabModel, ErrorModel> {
    match frame_error(bytes, header_only) {
        Some(e) => Err(e),
        None => match rows_model(bytes, header_only, file_count_of(bytes)) {
            Err(e) => Err(e),
            Ok(entries) => Ok(
                FtabModel {
                    generation: generation_of(bytes),
                    valid_flag: valid_flag_of(bytes),
                    boot_nonce: boot_nonce_of(bytes),
                    magic: magic_of(bytes),
                    number_of_files: file_count_of(bytes),
                    manifest: manifest_model(bytes),
                    entries,
                },
            ),
        },
    }
}

} // verus!
