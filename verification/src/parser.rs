//! The parser: from the bytes of a buffer to a container or the first rule
//! that the buffer breaks.

use vstd::prelude::*;
use vstd::slice::{slice_subrange, slice_to_vec};

use crate::container::{
    entry_models, EntryModel, ErrorModel, Ftab, FtabEntry, FtabError, FtabModel, ValidationMode,
};
use crate::endian::{read_u32_le, read_u64_le};
use crate::laws::{
    accepted_before, emitted_before, law_entries_follow_the_table, law_file_count_in_range,
    law_first_rejected_row_decides, law_parsed_is_well_formed, lemma_rows_model_stays_failed,
};
use crate::layout::{field_u32, field_u64, HEADER_LEN, MAX_FILES, ROW_LEN};
use crate::model::{
    accepted_magic, file_count_of, frame_error, magic_of, parse_model, payload_model, row_entry,
    row_length, row_outcome, row_start, rows_model, table_end_of, RowOutcome, MAGIC_RKOSFTAB,
    MAGIC_RKOSFTAB_UPPER, MAGIC_RKSOFTAB, MAGIC_RKSOFTAB_UPPER, TRUNCATED_HEADER,
};

verus! {

/// The model of what a parse returned.
pub open spec fn result_model(result: Result<Ftab, FtabError>) -> Result<FtabModel, ErrorModel> {
    match result {
        Ok(ftab) => Ok(ftab@),
        Err(error) => Err(error@),
    }
}

/// Reads the 32-bit little-endian field at `at`.
fn u32_at(bytes: &[u8], at: usize) -> (value: u32)
    requires
        at + 4 <= bytes.len(),
    ensures
        value as nat == field_u32(bytes@, at as int),
{
    read_u32_le(slice_subrange(bytes, at, at + 4))
}

/// Reads the 64-bit little-endian field at `at`.
fn u64_at(bytes: &[u8], at: usize) -> (value: u64)
    requires
        at + 8 <= bytes.len(),
    ensures
        value as nat == field_u64(bytes@, at as int),
{
    read_u64_le(slice_subrange(bytes, at, at + 8))
}

/// Copies the four bytes at `at`.
fn tag_at(bytes: &[u8], at: usize) -> (tag: [u8; 4])
    requires
        at + 4 <= bytes.len(),
    ensures
        tag@ == bytes@.subrange(at as int, at + 4),
{
    let tag = [bytes[at], bytes[at + 1], bytes[at + 2], bytes[at + 3]];
    assert(tag@ =~= bytes@.subrange(at as int, at + 4));
    tag
}

/// Copies the eight bytes at `at`.
fn magic_at(bytes: &[u8], at: usize) -> (magic: [u8; 8])
    requires
        at + 8 <= bytes.len(),
    ensures
        magic@ == bytes@.subrange(at as int, at + 8),
{
    let magic = [
        bytes[at],
        bytes[at + 1],
        bytes[at + 2],
        bytes[at + 3],
        bytes[at + 4],
        bytes[at + 5],
        bytes[at + 6],
        bytes[at + 7],
    ];
    assert(magic@ =~= bytes@.subrange(at as int, at + 8));
    magic
}

/// Whether two magics are the same, byte for byte.
fn same_magic(a: &[u8; 8], b: &[u8; 8]) -> (same: bool)
    ensures
        same == (a@ == b@),
{
    let mut i: usize = 0;
    while i < 8
        invariant
            i <= 8,
            forall|j: int| 0 <= j < i ==> a@[j] == b@[j],
        decreases 8 - i,
    {
        if a[i] != b[i] {
            return false;
        }
        i += 1;
    }
    assert(a@ =~= b@);
    true
}

/// Whether a magic is one of the four accepted tags.
pub fn is_accepted_magic(magic: &[u8; 8]) -> (accepted: bool)
    ensures
        accepted == accepted_magic(magic@),
{
    same_magic(magic, &MAGIC_RKSOFTAB) || same_magic(magic, &MAGIC_RKSOFTAB_UPPER) || same_magic(
        magic,
        &MAGIC_RKOSFTAB,
    ) || same_magic(magic, &MAGIC_RKOSFTAB_UPPER)
}

/// Copies `[start, end)` out of the buffer where that range lies in it, and
/// gives an empty vector otherwise.
fn copy_payload(bytes: &[u8], start: u64, len: u64) -> (data: Vec<u8>)
    requires
        start <= u32::MAX,
        len <= u32::MAX,
    ensures
        data@ == payload_model(bytes@, start as nat, len as nat),
{
    let end = start.saturating_add(len);
    if end <= bytes.len() as u64 {
        slice_to_vec(slice_subrange(bytes, start as usize, end as usize))
    } else {
        Vec::new()
    }
}

/// The model of what reading one descriptor returned.
pub open spec fn row_result_model(outcome: Result<Option<FtabEntry>, FtabError>) -> RowOutcome {
    match outcome {
        Ok(None) => RowOutcome::Skipped,
        Ok(Some(entry)) => RowOutcome::Emitted(entry@),
        Err(error) => RowOutcome::Rejected(error@),
    }
}

/// Reads descriptor `i` of the table and decides what it contributes.
fn parse_row(bytes: &[u8], i: usize, table_end: u64, mode: ValidationMode) -> (outcome: Result<
    Option<FtabEntry>,
    FtabError,
>)
    requires
        i < MAX_FILES,
        row_start(i as nat) + ROW_LEN <= bytes.len(),
        table_end as nat == table_end_of(bytes@),
    ensures
        row_result_model(outcome) == row_outcome(bytes@, mode.header_only, i as nat),
{
    let at = HEADER_LEN + i * ROW_LEN;
    let tag = tag_at(bytes, at);
    let payload_off = u32_at(bytes, at + 4);
    let payload_len = u32_at(bytes, at + 8);
    if payload_len == 0 {
        return Ok(None);
    }
    if (payload_off as u64) < table_end {
        return Err(FtabError::EntryBeforeTable { idx: i, off: payload_off as u64, table_end });
    }
    let file_len = bytes.len() as u64;
    let end = (payload_off as u64).saturating_add(payload_len as u64);
    if !mode.header_only && end > file_len {
        return Err(
            FtabError::EntryOutOfBounds {
                idx: i,
                off: payload_off as u64,
                len: payload_len as u64,
                file_len,
            },
        );
    }
    let data = copy_payload(bytes, payload_off as u64, payload_len as u64);
    Ok(Some(FtabEntry { tag, offset: payload_off, length: payload_len, data }))
}

/// The model of what reading the table returned.
pub open spec fn rows_result_model(outcome: Result<Vec<FtabEntry>, FtabError>) -> Result<
    Seq<EntryModel>,
    ErrorModel,
> {
    match outcome {
        Ok(entries) => Ok(entry_models(entries@)),
        Err(error) => Err(error@),
    }
}

/// Reads the `count` descriptors of the table in order, up to the first
/// that is rejected.
fn parse_rows(bytes: &[u8], count: usize, table_end: u64, mode: ValidationMode) -> (outcome: Result<
    Vec<FtabEntry>,
    FtabError,
>)
    requires
        0 < count <= MAX_FILES,
        count as nat == file_count_of(bytes@),
        table_end as nat == table_end_of(bytes@),
        table_end <= bytes.len(),
    ensures
        rows_result_model(outcome) == rows_model(bytes@, mode.header_only, count as nat),
{
    let mut entries: Vec<FtabEntry> = Vec::with_capacity(count);
    let mut i: usize = 0;
    assert(entry_models(entries@) =~= Seq::empty());
    while i < count
        invariant
            i <= count,
            0 < count <= MAX_FILES,
            count as nat == file_count_of(bytes@),
            table_end as nat == table_end_of(bytes@),
            table_end <= bytes.len(),
            rows_model(bytes@, mode.header_only, i as nat) == Ok::<Seq<EntryModel>, ErrorModel>(
                entry_models(entries@),
            ),
        decreases count - i,
    {
        let ghost before = entry_models(entries@);
        match parse_row(bytes, i, table_end, mode) {
            Ok(None) => {},
            Ok(Some(entry)) => {
                entries.push(entry);
                assert(entry_models(entries@) =~= before.push(entry@));
            },
            Err(error) => {
                proof {
                    lemma_rows_model_stays_failed(
                        bytes@,
                        mode.header_only,
                        (i + 1) as nat,
                        count as nat,
                    );
                }
                return Err(error);
            },
        }
        i += 1;
    }
    Ok(entries)
}

/// Parses a container from the whole of its bytes.
///
/// The result is the container that `parse_model` gives for these bytes and
/// this mode, or the error that it gives: the first rule broken, in the order
/// header length, magic, entry count, table bounds, manifest bounds, and then
/// the descriptors in table order. The clauses after the first spell out what
/// that means: for a container that parses, for each check of the header, for
/// the first descriptor that is rejected, and for the entries, which follow
/// the descriptors of nonzero length one by one.
pub fn parse_ftab_from_bytes(bytes: &[u8], mode: ValidationMode) -> (result: Result<
    Ftab,
    FtabError,
>)
    ensures
        result_model(result) == parse_model(bytes@, mode.header_only),
        result matches Ok(ftab) ==> ftab@.well_formed(),
        bytes@.len() < HEADER_LEN ==> result_model(result) == Err::<FtabModel, ErrorModel>(
            ErrorModel::Truncated(TRUNCATED_HEADER@),
        ),
        bytes@.len() >= HEADER_LEN && !accepted_magic(magic_of(bytes@)) ==> result_model(result)
            == Err::<FtabModel, ErrorModel>(ErrorModel::InvalidMagic(magic_of(bytes@))),
        bytes@.len() >= HEADER_LEN && accepted_magic(magic_of(bytes@)) && (file_count_of(bytes@)
            == 0 || file_count_of(bytes@) > MAX_FILES) ==> result_model(result) == Err::<
            FtabModel,
            ErrorModel,
        >(ErrorModel::InvalidFileCount(file_count_of(bytes@))),
        bytes@.len() >= HEADER_LEN && accepted_magic(magic_of(bytes@)) && 1 <= file_count_of(bytes@)
            <= MAX_FILES && table_end_of(bytes@) <= bytes@.len() ==> !(result matches Err(
            FtabError::Truncated(_),
        )) && !(result matches Err(FtabError::InvalidMagic(_))) && !(result matches Err(
            FtabError::InvalidFileCount(_),
        )) && !(result matches Err(FtabError::TableOutOfBounds { .. })),
        forall|i: nat|
            frame_error(bytes@, mode.header_only) is None && i < file_count_of(bytes@)
                && accepted_before(bytes@, mode.header_only, i) && #[trigger] row_outcome(
                bytes@,
                mode.header_only,
                i,
            ) is Rejected ==> result_model(result) == Err::<FtabModel, ErrorModel>(
                row_outcome(bytes@, mode.header_only, i)->Rejected_0,
            ),
        result matches Ok(ftab) ==> ftab.entries@.len() == emitted_before(
            bytes@,
            file_count_of(bytes@),
        ),
        forall|i: nat|
            result is Ok && i < file_count_of(bytes@) && #[trigger] row_length(bytes@, i) != 0
                ==> emitted_before(bytes@, i) < result->Ok_0.entries@.len()
                && result->Ok_0.entries@[emitted_before(bytes@, i) as int]@ == row_entry(
                bytes@,
                i,
            ),
{
    proof {
        law_parsed_is_well_formed(bytes@, mode.header_only);
        law_entries_follow_the_table(bytes@, mode.header_only);
        assert forall|i: nat|
            frame_error(bytes@, mode.header_only) is None && i < file_count_of(bytes@)
                && accepted_before(bytes@, mode.header_only, i) && #[trigger] row_outcome(
                bytes@,
                mode.header_only,
                i,
            ) is Rejected implies parse_model(bytes@, mode.header_only) == Err::<
            FtabModel,
            ErrorModel,
        >(row_outcome(bytes@, mode.header_only, i)->Rejected_0) by {
            law_first_rejected_row_decides(bytes@, mode.header_only, i);
        }
        if bytes@.len() >= HEADER_LEN && accepted_magic(magic_of(bytes@)) && 1 <= file_count_of(
            bytes@,
        ) <= MAX_FILES && table_end_of(bytes@) <= bytes@.len() {
            law_file_count_in_range(bytes@, mode.header_only);
        }
    }
    if bytes.len() < HEADER_LEN {
        return Err(FtabError::Truncated(TRUNCATED_HEADER));
    }
    let generation = u32_at(bytes, 0x00);
    let valid_flag = u32_at(bytes, 0x04);
    let boot_nonce = u64_at(bytes, 0x08);
    let manifest_offset = u32_at(bytes, 0x10) as u64;
    let manifest_length = u32_at(bytes, 0x14) as u64;
    let magic = magic_at(bytes, 0x20);
    let number_of_files = u32_at(bytes, 0x28);

    if !is_accepted_magic(&magic) {
        return Err(FtabError::InvalidMagic(magic));
    }
    if number_of_files == 0 || number_of_files > MAX_FILES {
        return Err(FtabError::InvalidFileCount(number_of_files));
    }
    let table_end = HEADER_LEN as u64 + (number_of_files as u64) * (ROW_LEN as u64);
    let file_len = bytes.len() as u64;
    if table_end > file_len {
        return Err(FtabError::TableOutOfBounds { table_end, file_len });
    }
    let manifest = if manifest_length > 0 {
        let end = manifest_offset.saturating_add(manifest_length);
        if !mode.header_only && end > file_len {
            return Err(
                FtabError::ManifestOutOfBounds {
                    off: manifest_offset,
                    len: manifest_length,
                    file_len,
                },
            );
        }
        if end <= file_len {
            Some(slice_to_vec(slice_subrange(bytes, manifest_offset as usize, end as usize)))
        } else {
            None
        }
    } else {
        None
    };

    let entries = parse_rows(bytes, number_of_files as usize, table_end, mode)?;
    Ok(Ftab { generation, valid_flag, boot_nonce, magic, number_of_files, manifest, entries })
}

} // verus!
