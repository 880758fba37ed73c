use ftab::{parse_ftab_from_bytes, Ftab, FtabError, ValidationMode};

const STRICT: ValidationMode = ValidationMode { header_only: false };
const RELAXED: ValidationMode = ValidationMode { header_only: true };

/// A header with the given magic and entry count; every other field is zero.
fn header(magic: &[u8; 8], count: u32) -> Vec<u8> {
    let mut bytes = vec![0u8; 0x30];
    bytes[0x20..0x28].copy_from_slice(magic);
    bytes[0x28..0x2C].copy_from_slice(&count.to_le_bytes());
    bytes
}

/// Appends one descriptor.
fn push_row(bytes: &mut Vec<u8>, tag: &[u8; 4], offset: u32, length: u32) {
    bytes.extend_from_slice(tag);
    bytes.extend_from_slice(&offset.to_le_bytes());
    bytes.extend_from_slice(&length.to_le_bytes());
    bytes.extend_from_slice(&[0u8; 4]);
}

fn set_manifest(bytes: &mut [u8], offset: u32, length: u32) {
    bytes[0x10..0x14].copy_from_slice(&offset.to_le_bytes());
    bytes[0x14..0x18].copy_from_slice(&length.to_le_bytes());
}

/// The buffer of 0x44 bytes with one entry `TEST` of four bytes at 0x40.
fn one_entry_buffer() -> Vec<u8> {
    let mut bytes = header(b"rksoftab", 1);
    push_row(&mut bytes, b"TEST", 0x40, 4);
    bytes.extend_from_slice(&[0xDE, 0xAD, 0xBE, 0xEF]);
    bytes
}

fn expect_ok(result: Result<Ftab, FtabError>) -> Ftab {
    match result {
        Ok(ftab) => ftab,
        Err(error) => panic!("unexpected error: {:?}", error),
    }
}

fn expect_err(result: Result<Ftab, FtabError>) -> FtabError {
    match result {
        Ok(_) => panic!("the parse succeeded"),
        Err(error) => error,
    }
}

#[test]
fn one_entry_parses() {
    let bytes = one_entry_buffer();
    assert_eq!(bytes.len(), 0x44);
    for mode in [STRICT, RELAXED] {
        let ftab = expect_ok(parse_ftab_from_bytes(&bytes, mode));
        assert_eq!(ftab.generation, 0);
        assert_eq!(ftab.valid_flag, 0);
        assert_eq!(ftab.boot_nonce, 0);
        assert_eq!(&ftab.magic, b"rksoftab");
        assert_eq!(ftab.number_of_files, 1);
        assert!(ftab.manifest.is_none());
        assert_eq!(ftab.entries.len(), 1);
        assert_eq!(&ftab.entries[0].tag, b"TEST");
        assert_eq!(ftab.entries[0].offset, 0x40);
        assert_eq!(ftab.entries[0].length, 4);
        assert_eq!(ftab.entries[0].data, vec![0xDE, 0xAD, 0xBE, 0xEF]);
    }
}

#[test]
fn one_entry_with_zero_payload_parses() {
    let mut bytes = header(b"rksoftab", 1);
    push_row(&mut bytes, b"TEST", 0x40, 4);
    bytes.extend_from_slice(&[0u8; 4]);
    assert_eq!(bytes.len(), 0x44);
    let ftab = expect_ok(parse_ftab_from_bytes(&bytes, STRICT));
    assert_eq!(ftab.entries.len(), 1);
    assert_eq!(&ftab.entries[0].tag, b"TEST");
    assert_eq!(ftab.entries[0].offset, 0x40);
    assert_eq!(ftab.entries[0].length, 4);
    assert_eq!(ftab.entries[0].data, vec![0u8; 4]);
    assert!(ftab.manifest.is_none());
}

#[test]
fn bytes_behind_the_payload_are_left_alone() {
    let mut bytes = header(b"rksoftab", 1);
    push_row(&mut bytes, b"TEST", 0x40, 4);
    bytes.extend_from_slice(&[0u8; 16]);
    assert_eq!(bytes.len(), 0x50);
    let ftab = expect_ok(parse_ftab_from_bytes(&bytes, STRICT));
    assert_eq!(ftab.entries.len(), 1);
    assert_eq!(ftab.entries[0].offset, 0x40);
    assert_eq!(ftab.entries[0].length, 4);
    assert_eq!(ftab.entries[0].data, vec![0u8; 4]);
    assert!(ftab.manifest.is_none());
}

#[test]
fn truncated_payload_fails_in_strict_mode() {
    let mut bytes = one_entry_buffer();
    bytes.truncate(0x42);
    match expect_err(parse_ftab_from_bytes(&bytes, STRICT)) {
        FtabError::EntryOutOfBounds { idx, off, len, file_len } => {
            assert_eq!(idx, 0);
            assert_eq!(off, 0x40);
            assert_eq!(len, 4);
            assert_eq!(file_len, 0x42);
        },
        other => panic!("wrong error: {:?}", other),
    }
}

#[test]
fn truncated_payload_is_empty_in_header_only_mode() {
    let mut bytes = one_entry_buffer();
    bytes.truncate(0x42);
    let ftab = expect_ok(parse_ftab_from_bytes(&bytes, RELAXED));
    assert_eq!(ftab.entries.len(), 1);
    assert_eq!(&ftab.entries[0].tag, b"TEST");
    assert_eq!(ftab.entries[0].offset, 0x40);
    assert_eq!(ftab.entries[0].length, 4);
    assert!(ftab.entries[0].data.is_empty());
}

#[test]
fn short_buffers_are_truncated() {
    let full = one_entry_buffer();
    for len in [0usize, 1, 8, 0x28, 0x2F] {
        for mode in [STRICT, RELAXED] {
            match expect_err(parse_ftab_from_bytes(&full[..len], mode)) {
                FtabError::Truncated(what) => assert_eq!(what, "header (need 48 bytes)"),
                other => panic!("wrong error: {:?}", other),
            }
        }
    }
}

#[test]
fn header_alone_with_one_entry_overruns_the_table() {
    let bytes = header(b"rksoftab", 1);
    match expect_err(parse_ftab_from_bytes(&bytes, RELAXED)) {
        FtabError::TableOutOfBounds { table_end, file_len } => {
            assert_eq!(table_end, 0x40);
            assert_eq!(file_len, 0x30);
        },
        other => panic!("wrong error: {:?}", other),
    }
}

#[test]
fn table_bounds_use_the_declared_count() {
    let mut bytes = header(b"RKSOFTAB", 127);
    bytes.resize(0x30 + 127 * 16 - 1, 0);
    match expect_err(parse_ftab_from_bytes(&bytes, STRICT)) {
        FtabError::TableOutOfBounds { table_end, file_len } => {
            assert_eq!(table_end, 0x30 + 127 * 16);
            assert_eq!(file_len, 0x30 + 127 * 16 - 1);
        },
        other => panic!("wrong error: {:?}", other),
    }
    bytes.push(0);
    let ftab = expect_ok(parse_ftab_from_bytes(&bytes, STRICT));
    assert_eq!(ftab.number_of_files, 127);
    assert!(ftab.entries.is_empty());
}

#[test]
fn unknown_magic_carries_the_bytes_found() {
    let mut bytes = one_entry_buffer();
    bytes[0x20..0x28].copy_from_slice(b"rksoftaB");
    for mode in [STRICT, RELAXED] {
        match expect_err(parse_ftab_from_bytes(&bytes, mode)) {
            FtabError::InvalidMagic(magic) => assert_eq!(&magic, b"rksoftaB"),
            other => panic!("wrong error: {:?}", other),
        }
    }
    bytes[0x20..0x28].copy_from_slice(&[0, 1, 2, 3, 0xFF, 0xFE, 0x80, 0x7F]);
    match expect_err(parse_ftab_from_bytes(&bytes, STRICT)) {
        FtabError::InvalidMagic(magic) => assert_eq!(magic, [0, 1, 2, 3, 0xFF, 0xFE, 0x80, 0x7F]),
        other => panic!("wrong error: {:?}", other),
    }
}

#[test]
fn unknown_magic_is_reported_before_the_count() {
    let bytes = header(b"FTABFTAB", 0);
    assert!(matches!(parse_ftab_from_bytes(&bytes, STRICT), Err(FtabError::InvalidMagic(_))));
}

#[test]
fn each_accepted_magic_parses() {
    for magic in [b"rksoftab", b"RKSOFTAB", b"rkosftab", b"RKOSFTAB"] {
        let mut bytes = header(magic, 1);
        push_row(&mut bytes, b"TEST", 0x40, 4);
        bytes.extend_from_slice(&[1, 2, 3, 4]);
        let ftab = expect_ok(parse_ftab_from_bytes(&bytes, STRICT));
        assert_eq!(&ftab.magic, magic);
    }
}

#[test]
fn mixed_case_magic_is_rejected() {
    for magic in [b"Rksoftab", b"rksoFTAB", b"RKOSftab", b"rksoftba"] {
        let mut bytes = header(magic, 1);
        push_row(&mut bytes, b"TEST", 0x40, 4);
        bytes.extend_from_slice(&[1, 2, 3, 4]);
        assert!(matches!(parse_ftab_from_bytes(&bytes, RELAXED), Err(FtabError::InvalidMagic(_))));
    }
}

#[test]
fn entry_count_out_of_range_is_rejected() {
    for count in [0u32, 128, 129, 255, 256, 0x1_0000, u32::MAX] {
        let mut bytes = header(b"rksoftab", count);
        bytes.resize(0x1000, 0);
        for mode in [STRICT, RELAXED] {
            match expect_err(parse_ftab_from_bytes(&bytes, mode)) {
                FtabError::InvalidFileCount(found) => assert_eq!(found, count),
                other => panic!("wrong error: {:?}", other),
            }
        }
    }
}

#[test]
fn entry_count_in_range_passes_the_count_check() {
    for count in [1u32, 2, 64, 126, 127] {
        let mut bytes = header(b"rksoftab", count);
        bytes.resize(0x30 + 16 * count as usize, 0);
        let ftab = expect_ok(parse_ftab_from_bytes(&bytes, STRICT));
        assert_eq!(ftab.number_of_files, count);
        assert!(ftab.entries.is_empty());
    }
}

#[test]
fn header_fields_are_little_endian() {
    let mut bytes = one_entry_buffer();
    bytes[0x00..0x04].copy_from_slice(&[0x01, 0x02, 0x03, 0x04]);
    bytes[0x04..0x08].copy_from_slice(&[0xFF, 0x00, 0x00, 0x80]);
    bytes[0x08..0x10].copy_from_slice(&[0x11, 0x22, 0x33, 0x44, 0x55, 0x66, 0x77, 0x88]);
    let ftab = expect_ok(parse_ftab_from_bytes(&bytes, STRICT));
    assert_eq!(ftab.generation, 0x0403_0201);
    assert_eq!(ftab.valid_flag, 0x8000_00FF);
    assert_eq!(ftab.boot_nonce, 0x8877_6655_4433_2211);
}

#[test]
fn reserved_regions_are_ignored() {
    let mut bytes = one_entry_buffer();
    bytes[0x18..0x20].copy_from_slice(&[0xFF; 8]);
    bytes[0x2C..0x30].copy_from_slice(&[0xFF; 4]);
    bytes[0x3C..0x40].copy_from_slice(&[0xFF; 4]);
    let ftab = expect_ok(parse_ftab_from_bytes(&bytes, STRICT));
    assert_eq!(ftab.entries.len(), 1);
    assert_eq!(ftab.entries[0].data, vec![0xDE, 0xAD, 0xBE, 0xEF]);
}

#[test]
fn manifest_is_copied_out() {
    let mut bytes = one_entry_buffer();
    bytes.extend_from_slice(&[9, 8, 7, 6, 5]);
    set_manifest(&mut bytes, 0x44, 5);
    for mode in [STRICT, RELAXED] {
        let ftab = expect_ok(parse_ftab_from_bytes(&bytes, mode));
        assert_eq!(ftab.manifest, Some(vec![9, 8, 7, 6, 5]));
    }
}

#[test]
fn manifest_may_overlap_the_header() {
    let mut bytes = one_entry_buffer();
    set_manifest(&mut bytes, 0x20, 8);
    let ftab = expect_ok(parse_ftab_from_bytes(&bytes, STRICT));
    assert_eq!(ftab.manifest, Some(b"rksoftab".to_vec()));
}

#[test]
fn manifest_of_length_zero_is_absent() {
    let mut bytes = one_entry_buffer();
    set_manifest(&mut bytes, 0xFFFF_FFFF, 0);
    for mode in [STRICT, RELAXED] {
        let ftab = expect_ok(parse_ftab_from_bytes(&bytes, mode));
        assert!(ftab.manifest.is_none());
    }
}

#[test]
fn manifest_past_the_buffer_fails_in_strict_mode() {
    let mut bytes = one_entry_buffer();
    set_manifest(&mut bytes, 0x40, 5);
    match expect_err(parse_ftab_from_bytes(&bytes, STRICT)) {
        FtabError::ManifestOutOfBounds { off, len, file_len } => {
            assert_eq!(off, 0x40);
            assert_eq!(len, 5);
            assert_eq!(file_len, 0x44);
        },
        other => panic!("wrong error: {:?}", other),
    }
}

#[test]
fn manifest_past_the_buffer_is_absent_in_header_only_mode() {
    let mut bytes = one_entry_buffer();
    set_manifest(&mut bytes, 0x40, 5);
    let ftab = expect_ok(parse_ftab_from_bytes(&bytes, RELAXED));
    assert!(ftab.manifest.is_none());
    assert_eq!(ftab.entries.len(), 1);
}

#[test]
fn manifest_range_does_not_wrap() {
    let mut bytes = one_entry_buffer();
    set_manifest(&mut bytes, u32::MAX, u32::MAX);
    match expect_err(parse_ftab_from_bytes(&bytes, STRICT)) {
        FtabError::ManifestOutOfBounds { off, len, file_len } => {
            assert_eq!(off, 0xFFFF_FFFF);
            assert_eq!(len, 0xFFFF_FFFF);
            assert_eq!(file_len, 0x44);
        },
        other => panic!("wrong error: {:?}", other),
    }
    let ftab = expect_ok(parse_ftab_from_bytes(&bytes, RELAXED));
    assert!(ftab.manifest.is_none());
}

#[test]
fn manifest_is_checked_before_the_entries() {
    let mut bytes = header(b"rksoftab", 1);
    push_row(&mut bytes, b"EARL", 0x10, 4);
    set_manifest(&mut bytes, 0x40, 1);
    assert!(matches!(
        parse_ftab_from_bytes(&bytes, STRICT),
        Err(FtabError::ManifestOutOfBounds { .. })
    ));
    assert!(matches!(
        parse_ftab_from_bytes(&bytes, RELAXED),
        Err(FtabError::EntryBeforeTable { .. })
    ));
}

#[test]
fn zero_length_rows_give_no_entry() {
    let mut bytes = header(b"rksoftab", 4);
    push_row(&mut bytes, b"NONE", 0, 0);
    push_row(&mut bytes, b"AAAA", 0x70, 2);
    push_row(&mut bytes, b"VOID", 0xFFFF_FFFF, 0);
    push_row(&mut bytes, b"BBBB", 0x72, 3);
    bytes.extend_from_slice(&[1, 2, 3, 4, 5]);
    for mode in [STRICT, RELAXED] {
        let ftab = expect_ok(parse_ftab_from_bytes(&bytes, mode));
        assert_eq!(ftab.number_of_files, 4);
        assert_eq!(ftab.entries.len(), 2);
        assert_eq!(&ftab.entries[0].tag, b"AAAA");
        assert_eq!(ftab.entries[0].data, vec![1, 2]);
        assert_eq!(&ftab.entries[1].tag, b"BBBB");
        assert_eq!(ftab.entries[1].data, vec![3, 4, 5]);
    }
}

#[test]
fn only_zero_length_rows_give_an_empty_container() {
    let mut bytes = header(b"rkosftab", 2);
    push_row(&mut bytes, b"NONE", 0, 0);
    push_row(&mut bytes, b"VOID", 5, 0);
    let ftab = expect_ok(parse_ftab_from_bytes(&bytes, STRICT));
    assert!(ftab.entries.is_empty());
}

#[test]
fn entry_before_table_names_the_first_such_row() {
    let mut bytes = header(b"rksoftab", 4);
    push_row(&mut bytes, b"NONE", 0, 0);
    push_row(&mut bytes, b"GOOD", 0x70, 2);
    push_row(&mut bytes, b"BAD1", 0x6F, 1);
    push_row(&mut bytes, b"BAD2", 0x00, 1);
    bytes.extend_from_slice(&[1, 2]);
    for mode in [STRICT, RELAXED] {
        match expect_err(parse_ftab_from_bytes(&bytes, mode)) {
            FtabError::EntryBeforeTable { idx, off, table_end } => {
                assert_eq!(idx, 2);
                assert_eq!(off, 0x6F);
                assert_eq!(table_end, 0x70);
            },
            other => panic!("wrong error: {:?}", other),
        }
    }
}

#[test]
fn entry_may_start_at_the_table_end() {
    let mut bytes = header(b"rksoftab", 1);
    push_row(&mut bytes, b"EDGE", 0x40, 1);
    bytes.push(0x5A);
    let ftab = expect_ok(parse_ftab_from_bytes(&bytes, STRICT));
    assert_eq!(ftab.entries[0].data, vec![0x5A]);
    bytes[0x34..0x38].copy_from_slice(&0x3Fu32.to_le_bytes());
    assert!(matches!(
        parse_ftab_from_bytes(&bytes, STRICT),
        Err(FtabError::EntryBeforeTable { idx: 0, off: 0x3F, table_end: 0x40 })
    ));
}

#[test]
fn earlier_out_of_bounds_row_wins_in_strict_mode() {
    let mut bytes = header(b"rksoftab", 2);
    push_row(&mut bytes, b"LONG", 0x50, 0x100);
    push_row(&mut bytes, b"EARL", 0x10, 4);
    match expect_err(parse_ftab_from_bytes(&bytes, STRICT)) {
        FtabError::EntryOutOfBounds { idx, off, len, file_len } => {
            assert_eq!(idx, 0);
            assert_eq!(off, 0x50);
            assert_eq!(len, 0x100);
            assert_eq!(file_len, 0x50);
        },
        other => panic!("wrong error: {:?}", other),
    }
    match expect_err(parse_ftab_from_bytes(&bytes, RELAXED)) {
        FtabError::EntryBeforeTable { idx, off, table_end } => {
            assert_eq!(idx, 1);
            assert_eq!(off, 0x10);
            assert_eq!(table_end, 0x50);
        },
        other => panic!("wrong error: {:?}", other),
    }
}

#[test]
fn entry_range_does_not_wrap() {
    let mut bytes = header(b"rksoftab", 1);
    push_row(&mut bytes, b"HUGE", u32::MAX, u32::MAX);
    match expect_err(parse_ftab_from_bytes(&bytes, STRICT)) {
        FtabError::EntryOutOfBounds { idx, off, len, file_len } => {
            assert_eq!(idx, 0);
            assert_eq!(off, 0xFFFF_FFFF);
            assert_eq!(len, 0xFFFF_FFFF);
            assert_eq!(file_len, 0x40);
        },
        other => panic!("wrong error: {:?}", other),
    }
    let ftab = expect_ok(parse_ftab_from_bytes(&bytes, RELAXED));
    assert_eq!(ftab.entries.len(), 1);
    assert_eq!(ftab.entries[0].offset, u32::MAX);
    assert_eq!(ftab.entries[0].length, u32::MAX);
    assert!(ftab.entries[0].data.is_empty());
}

#[test]
fn header_only_mode_keeps_entries_that_fit() {
    let mut bytes = header(b"rksoftab", 3);
    push_row(&mut bytes, b"FITS", 0x60, 2);
    push_row(&mut bytes, b"OVER", 0x61, 2);
    push_row(&mut bytes, b"GONE", 0x1000, 8);
    bytes.extend_from_slice(&[0xA1, 0xA2]);
    let ftab = expect_ok(parse_ftab_from_bytes(&bytes, RELAXED));
    assert_eq!(ftab.entries.len(), 3);
    assert_eq!(ftab.entries[0].data, vec![0xA1, 0xA2]);
    assert!(ftab.entries[1].data.is_empty());
    assert_eq!(ftab.entries[1].offset, 0x61);
    assert_eq!(ftab.entries[1].length, 2);
    assert!(ftab.entries[2].data.is_empty());
    assert_eq!(&ftab.entries[2].tag, b"GONE");
    match expect_err(parse_ftab_from_bytes(&bytes, STRICT)) {
        FtabError::EntryOutOfBounds { idx, .. } => assert_eq!(idx, 1),
        other => panic!("wrong error: {:?}", other),
    }
}

#[test]
fn duplicate_and_unprintable_tags_are_kept() {
    let mut bytes = header(b"rksoftab", 3);
    push_row(&mut bytes, b"SAME", 0x60, 1);
    push_row(&mut bytes, b"SAME", 0x60, 2);
    push_row(&mut bytes, &[0x00, 0xFF, 0x7F, 0x1F], 0x61, 1);
    bytes.extend_from_slice(&[7, 8]);
    let ftab = expect_ok(parse_ftab_from_bytes(&bytes, STRICT));
    assert_eq!(ftab.entries.len(), 3);
    assert_eq!(&ftab.entries[0].tag, b"SAME");
    assert_eq!(ftab.entries[0].data, vec![7]);
    assert_eq!(&ftab.entries[1].tag, b"SAME");
    assert_eq!(ftab.entries[1].data, vec![7, 8]);
    assert_eq!(ftab.entries[2].tag, [0x00, 0xFF, 0x7F, 0x1F]);
    assert_eq!(ftab.entries[2].data, vec![8]);
}

#[test]
fn constructed_buffer_round_trips() {
    let payloads: [(&[u8; 4], Vec<u8>); 5] = [
        (b"illb", vec![0x10; 7]),
        (b"rkos", (0u8..200).collect()),
        (b"\x01\x02\x03\x04", vec![0xFF]),
        (b"rkos", vec![1, 2, 3]),
        (b"    ", vec![0; 33]),
    ];
    let manifest: Vec<u8> = (0u8..50).map(|b| b.wrapping_mul(7)).collect();
    let count = payloads.len() as u32;
    let mut bytes = header(b"RKOSFTAB", count);
    bytes[0x00..0x04].copy_from_slice(&0xCAFE_F00Du32.to_le_bytes());
    bytes[0x04..0x08].copy_from_slice(&1u32.to_le_bytes());
    bytes[0x08..0x10].copy_from_slice(&0x0123_4567_89AB_CDEFu64.to_le_bytes());
    let table_end = 0x30 + 16 * count;
    let mut offset = table_end + 3;
    let mut offsets = Vec::new();
    for (tag, data) in payloads.iter() {
        push_row(&mut bytes, tag, offset, data.len() as u32);
        offsets.push(offset);
        offset += data.len() as u32 + 1;
    }
    let manifest_offset = offset;
    set_manifest(&mut bytes, manifest_offset, manifest.len() as u32);
    bytes.resize(manifest_offset as usize + manifest.len(), 0xEE);
    for ((_, data), at) in payloads.iter().zip(offsets.iter()) {
        bytes[*at as usize..*at as usize + data.len()].copy_from_slice(data);
    }
    bytes[manifest_offset as usize..].copy_from_slice(&manifest);

    for mode in [STRICT, RELAXED] {
        let ftab = expect_ok(parse_ftab_from_bytes(&bytes, mode));
        assert_eq!(ftab.generation, 0xCAFE_F00D);
        assert_eq!(ftab.valid_flag, 1);
        assert_eq!(ftab.boot_nonce, 0x0123_4567_89AB_CDEF);
        assert_eq!(&ftab.magic, b"RKOSFTAB");
        assert_eq!(ftab.number_of_files, count);
        assert_eq!(ftab.manifest.as_deref(), Some(manifest.as_slice()));
        assert_eq!(ftab.entries.len(), payloads.len());
        for (k, (tag, data)) in payloads.iter().enumerate() {
            assert_eq!(&ftab.entries[k].tag, *tag);
            assert_eq!(ftab.entries[k].offset, offsets[k]);
            assert_eq!(ftab.entries[k].length, data.len() as u32);
            assert_eq!(&ftab.entries[k].data, data);
        }
    }
}

#[test]
fn parsing_is_repeatable_and_owns_its_data() {
    let mut bytes = one_entry_buffer();
    let first = expect_ok(parse_ftab_from_bytes(&bytes, STRICT));
    let second = expect_ok(parse_ftab_from_bytes(&bytes, STRICT));
    assert_eq!(first.entries[0].data, second.entries[0].data);
    bytes[0x40] = 0;
    drop(bytes);
    assert_eq!(first.entries[0].data, vec![0xDE, 0xAD, 0xBE, 0xEF]);
}

#[test]
fn strict_success_is_header_only_success() {
    let mut bytes = header(b"rksoftab", 2);
    push_row(&mut bytes, b"ONE ", 0x50, 4);
    push_row(&mut bytes, b"TWO ", 0x52, 4);
    bytes.extend_from_slice(&[1, 2, 3, 4, 5, 6]);
    let strict = expect_ok(parse_ftab_from_bytes(&bytes, STRICT));
    let relaxed = expect_ok(parse_ftab_from_bytes(&bytes, RELAXED));
    assert_eq!(strict.entries.len(), relaxed.entries.len());
    for (a, b) in strict.entries.iter().zip(relaxed.entries.iter()) {
        assert_eq!(a.tag, b.tag);
        assert_eq!(a.offset, b.offset);
        assert_eq!(a.length, b.length);
        assert_eq!(a.data, b.data);
    }
}

/// The rules that every parsed container keeps.
fn keeps_the_rules(ftab: &Ftab, strict: bool) {
    let magics: [&[u8; 8]; 4] = [b"rksoftab", b"RKSOFTAB", b"rkosftab", b"RKOSFTAB"];
    assert!(magics.iter().any(|magic| **magic == ftab.magic));
    assert!(1 <= ftab.number_of_files && ftab.number_of_files <= 127);
    assert!(ftab.entries.len() <= ftab.number_of_files as usize);
    if let Some(manifest) = &ftab.manifest {
        assert!(!manifest.is_empty());
    }
    let table_end = 0x30 + 16 * ftab.number_of_files;
    for entry in ftab.entries.iter() {
        assert!(entry.length != 0);
        assert!(entry.offset >= table_end);
        if strict {
            assert_eq!(entry.data.len(), entry.length as usize);
        } else {
            assert!(entry.data.is_empty() || entry.data.len() == entry.length as usize);
        }
    }
}

#[test]
fn parsed_containers_keep_the_rules() {
    let mut buffers = vec![one_entry_buffer()];
    let mut truncated = one_entry_buffer();
    truncated.truncate(0x41);
    buffers.push(truncated);
    let mut with_manifest = one_entry_buffer();
    set_manifest(&mut with_manifest, 0, 0x44);
    buffers.push(with_manifest);
    let mut several = header(b"RKSOFTAB", 3);
    push_row(&mut several, b"ONE ", 0x60, 1);
    push_row(&mut several, b"NONE", 0, 0);
    push_row(&mut several, b"TWO ", 0x61, 0x20);
    several.extend_from_slice(&[5; 8]);
    buffers.push(several);
    let mut parsed = 0;
    for bytes in buffers.iter() {
        if let Ok(ftab) = parse_ftab_from_bytes(bytes, STRICT) {
            keeps_the_rules(&ftab, true);
            parsed += 1;
        }
        let ftab = expect_ok(parse_ftab_from_bytes(bytes, RELAXED));
        keeps_the_rules(&ftab, false);
    }
    assert_eq!(parsed, 2);
}
