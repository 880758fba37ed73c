//! What holds of every parse, proved of `parse_model`, which is what
//! `parse_ftab_from_bytes` returns.

use vstd::prelude::*;

use crate::container::{EntryModel, ErrorModel, FtabModel};
use crate::layout::{lemma_le_u32_bound, HEADER_LEN, MAX_FILES};
use crate::model::{
    accepted_magic, boot_nonce_of, byte_range, file_count_of, frame_error, generation_of, magic_of,
    manifest_length_of, manifest_offset_of, parse_model, row_entry, row_length, row_offset,
    row_outcome, row_start, row_tag, rows_model, table_end_of, valid_flag_of, RowOutcome,
    TRUNCATED_HEADER,
};

verus! {

/// How many of the first `n` descriptors declare a length that is not zero:
/// the place that the entry of descriptor `n` takes in the result.
pub open spec fn emitted_before(bytes: Seq<u8>, n: nat) -> nat
    decreases n,
{
    if n == 0 {
        0
    } else if row_length(bytes, (n - 1) as nat) != 0 {
        emitted_before(bytes, (n - 1) as nat) + 1
    } else {
        emitted_before(bytes, (n - 1) as nat)
    }
}

/// None of the first `n` descriptors is rejected.
pub open spec fn accepted_before(bytes: Seq<u8>, header_only: bool, n: nat) -> bool {
    forall|j: nat| j < n ==> !(#[trigger] row_outcome(bytes, header_only, j) is Rejected)
}

/// The entries that a run over descriptors gave, or none where it failed.
pub open spec fn entries_of(rows: Result<Seq<EntryModel>, ErrorModel>) -> Seq<EntryModel> {
    match rows {
        Ok(entries) => entries,
        Err(_) => Seq::empty(),
    }
}

/// Where none of the first `n` descriptors is rejected, they give one entry
/// for each descriptor of nonzero length.
pub proof fn lemma_rows_accepted(bytes: Seq<u8>, header_only: bool, n: nat)
    requires
        accepted_before(bytes, header_only, n),
    ensures
        rows_model(bytes, header_only, n) is Ok,
        entries_of(rows_model(bytes, header_only, n)).len() == emitted_before(bytes, n),
    decreases n,
{
    if n > 0 {
        let m = (n - 1) as nat;
        lemma_rows_accepted(bytes, header_only, m);
        assert(!(row_outcome(bytes, header_only, m) is Rejected));
    }
}

/// Where none of the first `n` descriptors is rejected, the entry of a
/// descriptor `j` of nonzero length among them stands in the result behind
/// the entries of the descriptors before it.
pub proof fn lemma_row_entry_place(bytes: Seq<u8>, header_only: bool, n: nat, j: nat)
    requires
        accepted_before(bytes, header_only, n),
        j < n,
        row_length(bytes, j) != 0,
    ensures
        rows_model(bytes, header_only, n) is Ok,
        entries_of(rows_model(bytes, header_only, n)).len() == emitted_before(bytes, n),
        emitted_before(bytes, j) < emitted_before(bytes, n),
        entries_of(rows_model(bytes, header_only, n))[emitted_before(bytes, j) as int]
            == row_entry(bytes, j),
    decreases n,
{
    let m = (n - 1) as nat;
    lemma_rows_accepted(bytes, header_only, m);
    lemma_rows_accepted(bytes, header_only, n);
    assert(!(row_outcome(bytes, header_only, m) is Rejected));
    if j < m {
        lemma_row_entry_place(bytes, header_only, m, j);
    } else {
        assert(!(row_outcome(bytes, header_only, j) is Rejected));
    }
}

/// Where descriptor `i` is the first to be rejected, every run that reaches
/// it fails with its error.
pub proof fn lemma_rows_first_rejected(bytes: Seq<u8>, header_only: bool, n: nat, i: nat)
    requires
        i < n,
        accepted_before(bytes, header_only, i),
        row_outcome(bytes, header_only, i) is Rejected,
    ensures
        rows_model(bytes, header_only, n) == Err::<Seq<EntryModel>, ErrorModel>(
            row_outcome(bytes, header_only, i)->Rejected_0,
        ),
    decreases n,
{
    if n == i + 1 {
        lemma_rows_accepted(bytes, header_only, i);
    } else {
        lemma_rows_first_rejected(bytes, header_only, (n - 1) as nat, i);
    }
}

/// Once the first `n` descriptors give an error, any longer prefix of the
/// table gives the same one.
pub proof fn lemma_rows_model_stays_failed(bytes: Seq<u8>, header_only: bool, n: nat, m: nat)
    requires
        n <= m,
        rows_model(bytes, header_only, n) is Err,
    ensures
        rows_model(bytes, header_only, m) == rows_model(bytes, header_only, n),
    decreases m,
{
    if n < m {
        lemma_rows_model_stays_failed(bytes, header_only, n, (m - 1) as nat);
    }
}

/// A run over descriptors succeeds exactly when none of them is rejected,
/// and fails with the error of the first that is.
pub proof fn lemma_rows_model_cases(bytes: Seq<u8>, header_only: bool, n: nat)
    ensures
        match rows_model(bytes, header_only, n) {
            Ok(_) => accepted_before(bytes, header_only, n),
            Err(e) => exists|i: nat|
                i < n && accepted_before(bytes, header_only, i) && #[trigger] row_outcome(
                    bytes,
                    header_only,
                    i,
                ) == RowOutcome::Rejected(e),
        },
    decreases n,
{
    if n > 0 {
        let m = (n - 1) as nat;
        lemma_rows_model_cases(bytes, header_only, m);
        match rows_model(bytes, header_only, m) {
            Ok(_) => {
                match row_outcome(bytes, header_only, m) {
                    RowOutcome::Rejected(e) => {
                        assert(m < n && accepted_before(bytes, header_only, m) && row_outcome(
                            bytes,
                            header_only,
                            m,
                        ) == RowOutcome::Rejected(e));
                    },
                    _ => {},
                }
            },
            Err(e) => {
                let i = choose|i: nat|
                    i < m && accepted_before(bytes, header_only, i) && #[trigger] row_outcome(
                        bytes,
                        header_only,
                        i,
                    ) == RowOutcome::Rejected(e);
                assert(i < n && accepted_before(bytes, header_only, i) && row_outcome(
                    bytes,
                    header_only,
                    i,
                ) == RowOutcome::Rejected(e));
            },
        }
    }
}

/// The entries of a run that succeeds all declare a nonzero length.
pub proof fn lemma_entries_have_length(bytes: Seq<u8>, header_only: bool, n: nat)
    requires
        rows_model(bytes, header_only, n) is Ok,
    ensures
        forall|k: int|
            0 <= k < entries_of(rows_model(bytes, header_only, n)).len() ==> (#[trigger] entries_of(
                rows_model(bytes, header_only, n),
            )[k]).length != 0,
    decreases n,
{
    if n > 0 {
        let m = (n - 1) as nat;
        lemma_entries_have_length(bytes, header_only, m);
        let shorter = entries_of(rows_model(bytes, header_only, m));
        let longer = entries_of(rows_model(bytes, header_only, n));
        assert forall|k: int| 0 <= k < longer.len() implies (#[trigger] longer[k]).length != 0 by {
            if k < shorter.len() {
                assert(longer[k] == shorter[k]);
            }
        }
    }
}

/// Where strict mode rejects none of the first `n` descriptors, both modes
/// give the same entries for them.
pub proof fn lemma_rows_agree(bytes: Seq<u8>, n: nat)
    requires
        accepted_before(bytes, false, n),
    ensures
        rows_model(bytes, true, n) == rows_model(bytes, false, n),
    decreases n,
{
    if n > 0 {
        let m = (n - 1) as nat;
        lemma_rows_agree(bytes, m);
        assert(!(row_outcome(bytes, false, m) is Rejected));
    }
}

/// The entries of a run that succeeds are well placed behind a table of
/// `file_count_of(bytes)` descriptors that lies in the buffer, and there are
/// at most as many as descriptors were read.
pub proof fn lemma_entries_well_placed(bytes: Seq<u8>, header_only: bool, n: nat)
    requires
        rows_model(bytes, header_only, n) is Ok,
        n <= file_count_of(bytes),
        table_end_of(bytes) <= bytes.len(),
    ensures
        entries_of(rows_model(bytes, header_only, n)).len() <= n,
        forall|k: int|
            0 <= k < entries_of(rows_model(bytes, header_only, n)).len() ==> (#[trigger] entries_of(
                rows_model(bytes, header_only, n),
            )[k]).well_placed(file_count_of(bytes)),
        !header_only ==> forall|k: int|
            0 <= k < entries_of(rows_model(bytes, header_only, n)).len() ==> (#[trigger] entries_of(
                rows_model(bytes, header_only, n),
            )[k]).data.len() == entries_of(rows_model(bytes, header_only, n))[k].length,
    decreases n,
{
    if n > 0 {
        let m = (n - 1) as nat;
        lemma_entries_well_placed(bytes, header_only, m);
        let shorter = entries_of(rows_model(bytes, header_only, m));
        let longer = entries_of(rows_model(bytes, header_only, n));
        lemma_le_u32_bound(bytes.subrange(row_start(m) + 4 as int, row_start(m) + 8 as int));
        lemma_le_u32_bound(bytes.subrange(row_start(m) + 8 as int, row_start(m) + 12 as int));
        assert forall|k: int| 0 <= k < longer.len() implies (#[trigger] longer[k]).well_placed(
            file_count_of(bytes),
        ) && (!header_only ==> longer[k].data.len() == longer[k].length) by {
            if k < shorter.len() {
                assert(longer[k] == shorter[k]);
            }
        }
    }
}

/// A buffer shorter than the header is reported as truncated, whatever it
/// holds and in either mode.
pub proof fn law_short_buffer_is_truncated(bytes: Seq<u8>, header_only: bool)
    requires
        bytes.len() < HEADER_LEN,
    ensures
        parse_model(bytes, header_only) == Err::<FtabModel, ErrorModel>(
            ErrorModel::Truncated(TRUNCATED_HEADER@),
        ),
{
}

/// A buffer that holds a header whose magic is none of the accepted ones is
/// rejected with the eight bytes it holds in that place.
pub proof fn law_unknown_magic_is_rejected(bytes: Seq<u8>, header_only: bool)
    requires
        bytes.len() >= HEADER_LEN,
        !accepted_magic(magic_of(bytes)),
    ensures
        parse_model(bytes, header_only) == Err::<FtabModel, ErrorModel>(
            ErrorModel::InvalidMagic(magic_of(bytes)),
        ),
{
}

/// Under an accepted magic, an entry count of zero or above 127 is rejected
/// with the count that the header declares.
pub proof fn law_file_count_out_of_range(bytes: Seq<u8>, header_only: bool)
    requires
        bytes.len() >= HEADER_LEN,
        accepted_magic(magic_of(bytes)),
        file_count_of(bytes) == 0 || file_count_of(bytes) > MAX_FILES,
    ensures
        parse_model(bytes, header_only) == Err::<FtabModel, ErrorModel>(
            ErrorModel::InvalidFileCount(file_count_of(bytes)),
        ),
{
}

/// Under an accepted magic, an entry count from 1 to 127 whose table fits in
/// the buffer passes every check of the header and the table: what is left to
/// fail is the manifest or a descriptor.
pub proof fn law_file_count_in_range(bytes: Seq<u8>, header_only: bool)
    requires
        bytes.len() >= HEADER_LEN,
        accepted_magic(magic_of(bytes)),
        1 <= file_count_of(bytes) <= MAX_FILES,
        table_end_of(bytes) <= bytes.len(),
    ensures
        match parse_model(bytes, header_only) {
            Ok(_) => true,
            Err(ErrorModel::ManifestOutOfBounds { .. }) => true,
            Err(ErrorModel::EntryOutOfBounds { .. }) => true,
            Err(ErrorModel::EntryBeforeTable { .. }) => true,
            Err(_) => false,
        },
{
    lemma_rows_model_cases(bytes, header_only, file_count_of(bytes));
}

/// A descriptor whose declared length is zero gives no entry and no error:
/// the run over the table is the same with it as without it.
pub proof fn law_zero_length_row_is_skipped(bytes: Seq<u8>, header_only: bool, i: nat)
    requires
        row_length(bytes, i) == 0,
    ensures
        row_outcome(bytes, header_only, i) is Skipped,
        rows_model(bytes, header_only, i + 1) == rows_model(bytes, header_only, i),
{
}

/// Every entry of a parsed container comes from a descriptor of nonzero
/// length, and there is one for each such descriptor; an error that names a
/// descriptor names one of nonzero length.
pub proof fn law_only_nonzero_rows_count(bytes: Seq<u8>, header_only: bool)
    ensures
        match parse_model(bytes, header_only) {
            Ok(c) => c.entries.len() == emitted_before(bytes, file_count_of(bytes)) && forall|
                k: int,
            |
                0 <= k < c.entries.len() ==> (#[trigger] c.entries[k]).length != 0,
            Err(ErrorModel::EntryBeforeTable { idx, .. }) => idx < file_count_of(bytes)
                && row_length(bytes, idx) != 0,
            Err(ErrorModel::EntryOutOfBounds { idx, .. }) => idx < file_count_of(bytes)
                && row_length(bytes, idx) != 0,
            Err(_) => true,
        },
{
    let n = file_count_of(bytes);
    lemma_rows_model_cases(bytes, header_only, n);
    if frame_error(bytes, header_only) is None {
        match rows_model(bytes, header_only, n) {
            Ok(entries) => {
                lemma_rows_accepted(bytes, header_only, n);
                lemma_entries_have_length(bytes, header_only, n);
            },
            Err(e) => {},
        }
    }
}

/// Past the header, the table bounds and the manifest, the first descriptor
/// to be rejected decides the result: the parse fails with its error.
pub proof fn law_first_rejected_row_decides(bytes: Seq<u8>, header_only: bool, i: nat)
    requires
        frame_error(bytes, header_only) is None,
        i < file_count_of(bytes),
        accepted_before(bytes, header_only, i),
        row_outcome(bytes, header_only, i) is Rejected,
    ensures
        parse_model(bytes, header_only) == Err::<FtabModel, ErrorModel>(
            row_outcome(bytes, header_only, i)->Rejected_0,
        ),
{
    lemma_rows_first_rejected(bytes, header_only, file_count_of(bytes), i);
}

/// The entries of a parsed container follow the table: there is one for each
/// descriptor of nonzero length, in table order, and it is the entry that
/// the descriptor declares.
pub proof fn law_entries_follow_the_table(bytes: Seq<u8>, header_only: bool)
    ensures
        parse_model(bytes, header_only) matches Ok(c) ==> {
            &&& c.entries.len() == emitted_before(bytes, file_count_of(bytes))
            &&& forall|i: nat|
                i < file_count_of(bytes) && #[trigger] row_length(bytes, i) != 0 ==> emitted_before(
                    bytes,
                    i,
                ) < c.entries.len() && c.entries[emitted_before(bytes, i) as int] == row_entry(
                    bytes,
                    i,
                )
        },
{
    let n = file_count_of(bytes);
    if parse_model(bytes, header_only) is Ok {
        lemma_rows_model_cases(bytes, header_only, n);
        lemma_rows_accepted(bytes, header_only, n);
        let entries = entries_of(rows_model(bytes, header_only, n));
        assert forall|i: nat| i < n && #[trigger] row_length(bytes, i) != 0 implies emitted_before(
            bytes,
            i,
        ) < entries.len() && entries[emitted_before(bytes, i) as int] == row_entry(bytes, i) by {
            lemma_row_entry_place(bytes, header_only, n, i);
        }
    }
}

/// Past the header, the table bounds and the manifest, the first descriptor
/// of nonzero length whose payload starts before the end of the table makes
/// the parse fail with `EntryBeforeTable`, naming that descriptor by its place
/// in the table, zero-length descriptors counted. In strict mode this asks
/// that no earlier descriptor reaches past the buffer, which would be
/// reported first.
pub proof fn law_first_entry_before_table(bytes: Seq<u8>, header_only: bool, i: nat)
    requires
        frame_error(bytes, header_only) is None,
        i < file_count_of(bytes),
        accepted_before(bytes, header_only, i),
        row_length(bytes, i) != 0,
        row_offset(bytes, i) < table_end_of(bytes),
    ensures
        parse_model(bytes, header_only) == Err::<FtabModel, ErrorModel>(
            ErrorModel::EntryBeforeTable {
                idx: i,
                off: row_offset(bytes, i),
                table_end: table_end_of(bytes),
            },
        ),
{
    lemma_rows_first_rejected(bytes, header_only, file_count_of(bytes), i);
}

/// In strict mode, the first descriptor to be rejected, where its payload
/// starts behind the table and ends past the buffer, makes the parse fail
/// with `EntryOutOfBounds`.
pub proof fn law_out_of_bounds_entry_strict(bytes: Seq<u8>, i: nat)
    requires
        frame_error(bytes, false) is None,
        i < file_count_of(bytes),
        accepted_before(bytes, false, i),
        row_length(bytes, i) != 0,
        row_offset(bytes, i) >= table_end_of(bytes),
        row_offset(bytes, i) + row_length(bytes, i) > bytes.len(),
    ensures
        parse_model(bytes, false) == Err::<FtabModel, ErrorModel>(
            ErrorModel::EntryOutOfBounds {
                idx: i,
                off: row_offset(bytes, i),
                len: row_length(bytes, i),
                file_len: bytes.len(),
            },
        ),
{
    lemma_rows_first_rejected(bytes, false, file_count_of(bytes), i);
}

/// In header-only mode, where no descriptor starts before the end of the
/// table, the parse succeeds, and a descriptor of nonzero length whose payload
/// ends past the buffer gives an entry with its tag, offset and length and
/// with no data.
pub proof fn law_out_of_bounds_entry_header_only(bytes: Seq<u8>, i: nat)
    requires
        frame_error(bytes, true) is None,
        accepted_before(bytes, true, file_count_of(bytes)),
        i < file_count_of(bytes),
        row_length(bytes, i) != 0,
        row_offset(bytes, i) + row_length(bytes, i) > bytes.len(),
    ensures
        parse_model(bytes, true) matches Ok(c) && emitted_before(bytes, i) < c.entries.len()
            && c.entries[emitted_before(bytes, i) as int] == (EntryModel {
            tag: row_tag(bytes, i),
            offset: row_offset(bytes, i),
            length: row_length(bytes, i),
            data: Seq::empty(),
        }),
{
    lemma_row_entry_place(bytes, true, file_count_of(bytes), i);
}

/// A buffer that keeps every rule of strict mode.
pub open spec fn sound_buffer(bytes: Seq<u8>) -> bool {
    &&& bytes.len() >= HEADER_LEN
    &&& accepted_magic(magic_of(bytes))
    &&& 1 <= file_count_of(bytes) <= MAX_FILES
    &&& table_end_of(bytes) <= bytes.len()
    &&& manifest_length_of(bytes) != 0 ==> manifest_offset_of(bytes) + manifest_length_of(bytes)
        <= bytes.len()
    &&& forall|i: nat|
        i < file_count_of(bytes) && #[trigger] row_length(bytes, i) != 0 ==> table_end_of(bytes)
            <= row_offset(bytes, i) && row_offset(bytes, i) + row_length(bytes, i) <= bytes.len()
}

/// A buffer that keeps every rule parses, in either mode, to the container
/// whose fields are the numbers that the header holds, whose manifest is the
/// declared range where its length is not zero, and whose entries are, in
/// table order, the descriptors of nonzero length, each with the tag, offset
/// and length that the table holds and the bytes of its declared range.
pub proof fn law_sound_buffer_parses(bytes: Seq<u8>, header_only: bool)
    requires
        sound_buffer(bytes),
    ensures
        parse_model(bytes, header_only) matches Ok(c) && {
            &&& c.generation == generation_of(bytes)
            &&& c.valid_flag == valid_flag_of(bytes)
            &&& c.boot_nonce == boot_nonce_of(bytes)
            &&& c.magic == magic_of(bytes)
            &&& c.number_of_files == file_count_of(bytes)
            &&& c.manifest == if manifest_length_of(bytes) == 0 {
                None::<Seq<u8>>
            } else {
                Some(byte_range(bytes, manifest_offset_of(bytes), manifest_length_of(bytes)))
            }
            &&& c.entries.len() == emitted_before(bytes, file_count_of(bytes))
            &&& forall|i: nat|
                i < file_count_of(bytes) && #[trigger] row_length(bytes, i) != 0 ==> emitted_before(
                    bytes,
                    i,
                ) < c.entries.len() && c.entries[emitted_before(bytes, i) as int] == (EntryModel {
                    tag: row_tag(bytes, i),
                    offset: row_offset(bytes, i),
                    length: row_length(bytes, i),
                    data: byte_range(bytes, row_offset(bytes, i), row_length(bytes, i)),
                })
        },
{
    let n = file_count_of(bytes);
    assert forall|j: nat| j < n implies !(#[trigger] row_outcome(bytes, header_only, j)
        is Rejected) by {
        if row_length(bytes, j) != 0 {
        }
    }
    lemma_rows_accepted(bytes, header_only, n);
    let entries = entries_of(rows_model(bytes, header_only, n));
    assert forall|i: nat| i < n && #[trigger] row_length(bytes, i) != 0 implies emitted_before(
        bytes,
        i,
    ) < entries.len() && entries[emitted_before(bytes, i) as int] == (EntryModel {
        tag: row_tag(bytes, i),
        offset: row_offset(bytes, i),
        length: row_length(bytes, i),
        data: byte_range(bytes, row_offset(bytes, i), row_length(bytes, i)),
    }) by {
        lemma_row_entry_place(bytes, header_only, n, i);
    }
}

/// Header-only mode relaxes strict mode and nothing else: what strict mode
/// accepts, header-only mode parses to the same container, and an error of
/// strict mode that is not about a payload or the manifest reaching past the
/// buffer is the error of header-only mode too.
pub proof fn law_header_only_relaxes_strict(bytes: Seq<u8>)
    ensures
        match parse_model(bytes, false) {
            Ok(_) => parse_model(bytes, true) == parse_model(bytes, false),
            Err(ErrorModel::ManifestOutOfBounds { .. }) => true,
            Err(ErrorModel::EntryOutOfBounds { .. }) => true,
            Err(_) => parse_model(bytes, true) == parse_model(bytes, false),
        },
{
    let n = file_count_of(bytes);
    if frame_error(bytes, false) is None {
        lemma_rows_model_cases(bytes, false, n);
        match rows_model(bytes, false, n) {
            Ok(_) => {
                lemma_rows_agree(bytes, n);
            },
            Err(e) => {
                let i = choose|i: nat|
                    i < n && accepted_before(bytes, false, i) && #[trigger] row_outcome(
                        bytes,
                        false,
                        i,
                    ) == RowOutcome::Rejected(e);
                if e is EntryBeforeTable {
                    assert forall|j: nat| j < i implies !(#[trigger] row_outcome(bytes, true, j)
                        is Rejected) by {
                        assert(!(row_outcome(bytes, false, j) is Rejected));
                    }
                    lemma_rows_first_rejected(bytes, true, n, i);
                }
            },
        }
    }
}

/// Every container that a parse gives is well formed.
pub proof fn law_parsed_is_well_formed(bytes: Seq<u8>, header_only: bool)
    ensures
        parse_model(bytes, header_only) matches Ok(c) ==> c.well_formed(),
{
    if parse_model(bytes, header_only) is Ok {
        lemma_entries_well_placed(bytes, header_only, file_count_of(bytes));
    }
}

/// In strict mode every entry of a parsed container holds the whole of its
/// payload, and the manifest is present exactly when the header declares a
/// length for it that is not zero.
pub proof fn law_strict_payloads_are_whole(bytes: Seq<u8>)
    ensures
        parse_model(bytes, false) matches Ok(c) ==> {
            &&& c.manifest is Some <==> manifest_length_of(bytes) != 0
            &&& forall|k: int|
                0 <= k < c.entries.len() ==> (#[trigger] c.entries[k]).data.len()
                    == c.entries[k].length
        },
{
    if parse_model(bytes, false) is Ok {
        lemma_entries_well_placed(bytes, false, file_count_of(bytes));
    }
}

} // verus!
