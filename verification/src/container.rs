//! The parsed container, its entries and the errors of parsing, each with the
//! mathematical model that the contracts speak of.

use vstd::prelude::*;

use crate::layout::{HEADER_LEN, MAX_FILES, ROW_LEN};
use crate::model::accepted_magic;

verus! {

/// How much of the payload geometry a parse enforces.
#[derive(Clone, Copy, Debug)]
pub struct ValidationMode {
    /// When set, payloads and the manifest that do not fit in the buffer are
    /// tolerated: the header and the table are still checked in full.
    pub header_only: bool,
}

/// One tagged payload of a container.
#[derive(Debug)]
pub struct FtabEntry {
    /// The four bytes that name the entry; they need not be text.
    pub tag: [u8; 4],
    /// Where the payload starts, counted from the start of the buffer.
    pub offset: u32,
    /// The declared length of the payload.
    pub length: u32,
    /// A copy of the payload, or nothing where header-only mode let a
    /// payload pass that the buffer does not hold.
    pub data: Vec<u8>,
}

/// A parsed container. It owns copies of all it holds.
#[derive(Debug)]
pub struct Ftab {
    pub generation: u32,
    pub valid_flag: u32,
    pub boot_nonce: u64,
    /// One of the four accepted magics.
    pub magic: [u8; 8],
    /// The number of descriptors in the table, from 1 to 127.
    pub number_of_files: u32,
    /// A copy of the manifest; absent where its declared length is zero, or
    /// where header-only mode let a manifest pass that the buffer does not
    /// hold.
    pub manifest: Option<Vec<u8>>,
    /// The entries in table order, without the descriptors of length zero.
    pub entries: Vec<FtabEntry>,
}

/// Why a buffer is not a valid container.
#[derive(Debug)]
pub enum FtabError {
    /// The buffer ends before the named region does.
    Truncated(&'static str),
    /// The magic is none of the accepted ones; these are the bytes found.
    InvalidMagic([u8; 8]),
    /// The entry count is zero or above 127; this is the count found.
    InvalidFileCount(u32),
    /// The table of descriptors ends past the buffer.
    TableOutOfBounds { table_end: u64, file_len: u64 },
    /// The manifest ends past the buffer (strict mode only).
    ManifestOutOfBounds { off: u64, len: u64, file_len: u64 },
    /// The payload of descriptor `idx` ends past the buffer (strict mode
    /// only).
    EntryOutOfBounds { idx: usize, off: u64, len: u64, file_len: u64 },
    /// The payload of descriptor `idx` starts before the end of the table.
    EntryBeforeTable { idx: usize, off: u64, table_end: u64 },
}

/// What an entry is: its tag, where its payload lies, and the payload.
pub struct EntryModel {
    pub tag: Seq<u8>,
    pub offset: nat,
    pub length: nat,
    pub data: Seq<u8>,
}

/// What a container is.
pub struct FtabModel {
    pub generation: nat,
    pub valid_flag: nat,
    pub boot_nonce: nat,
    pub magic: Seq<u8>,
    pub number_of_files: nat,
    pub manifest: Option<Seq<u8>>,
    pub entries: Seq<EntryModel>,
}

/// What an error says: the variants of `FtabError`, over numbers and
/// sequences.
pub enum ErrorModel {
    Truncated(Seq<char>),
    InvalidMagic(Seq<u8>),
    InvalidFileCount(nat),
    TableOutOfBounds { table_end: nat, file_len: nat },
    ManifestOutOfBounds { off: nat, len: nat, file_len: nat },
    EntryOutOfBounds { idx: nat, off: nat, len: nat, file_len: nat },
    EntryBeforeTable { idx: nat, off: nat, table_end: nat },
}

impl EntryModel {
    /// What holds of every entry of a container with `files` descriptors:
    /// a tag of four bytes, a length that is not zero, a payload that starts
    /// behind the table, and data that is either the whole payload or, where
    /// it was not to be had, empty.
    pub open spec fn well_placed(self, files: nat) -> bool {
        &&& self.tag.len() == 4
        &&& self.length != 0
        &&& self.offset >= HEADER_LEN + ROW_LEN * files
        &&& self.offset <= u32::MAX
        &&& self.length <= u32::MAX
        &&& self.data.len() == self.length || self.data.len() == 0
    }
}

impl FtabModel {
    /// What holds of every container that a parse gives.
    pub open spec fn well_formed(self) -> bool {
        &&& accepted_magic(self.magic)
        &&& 1 <= self.number_of_files <= MAX_FILES
        &&& self.entries.len() <= self.number_of_files
        &&& self.manifest matches Some(manifest) ==> manifest.len() != 0
        &&& forall|k: int|
            0 <= k < self.entries.len() ==> (#[trigger] self.entries[k]).well_placed(
                self.number_of_files,
            )
    }
}

impl View for FtabEntry {
    type V = EntryModel;

    open spec fn view(&self) -> EntryModel {
        EntryModel {
            tag: self.tag@,
            offset: self.offset as nat,
            length: self.length as nat,
            data: self.data@,
        }
    }
}

/// The models of a sequence of entries, in the same order.
pub open spec fn entry_models(entries: Seq<FtabEntry>) -> Seq<EntryModel> {
    entries.map_values(|entry: FtabEntry| entry@)
}

impl View for Ftab {
    type V = FtabModel;

    open spec fn view(&self) -> FtabModel {
        FtabModel {
            generation: self.generation as nat,
            valid_flag: self.valid_flag as nat,
            boot_nonce: self.boot_nonce as nat,
            magic: self.magic@,
            number_of_files: self.number_of_files as nat,
            manifest: match self.manifest {
                Some(m) => Some(m@),
                None => None,
            },
            entries: entry_models(self.entries@),
        }
    }
}

impl View for FtabError {
    type V = ErrorModel;

    open spec fn view(&self) -> ErrorModel {
        match *self {
            FtabError::Truncated(what) => ErrorModel::Truncated(what@),
            FtabError::InvalidMagic(magic) => ErrorModel::InvalidMagic(magic@),
            FtabError::InvalidFileCount(count) => ErrorModel::InvalidFileCount(count as nat),
            FtabError::TableOutOfBounds { table_end, file_len } => ErrorModel::TableOutOfBounds {
                table_end: table_end as nat,
                file_len: file_len as nat,
            },
            FtabError::ManifestOutOfBounds { off, len, file_len } => ErrorModel::ManifestOutOfBounds {
                off: off as nat,
                len: len as nat,
                file_len: file_len as nat,
            },
            FtabError::EntryOutOfBounds { idx, off, len, file_len } => ErrorModel::EntryOutOfBounds {
                idx: idx as nat,
                off: off as nat,
                len: len as nat,
                file_len: file_len as nat,
            },
            FtabError::EntryBeforeTable { idx, off, table_end } => ErrorModel::EntryBeforeTable {
                idx: idx as nat,
                off: off as nat,
                table_end: table_end as nat,
            },
        }
    }
}

} // verus!
