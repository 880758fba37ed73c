//! Text for tags, file names and error messages.

use vstd::prelude::*;
use vstd::string::StringExecFns;

use crate::container::{ErrorModel, Ftab, FtabEntry, FtabError, FtabModel};

verus! {

/// `String::push` of std: appends one character to the end of the string.
pub assume_specification[ String::push ](s: &mut String, ch: char)
    ensures
        final(s)@ == old(s)@.push(ch),
;

/// Whether a byte is a printable ASCII character, the space included.
pub open spec fn is_printable(b: u8) -> bool {
    0x20 <= b <= 0x7E
}

/// Whether every byte is a printable ASCII character.
pub open spec fn all_printable(bytes: Seq<u8>) -> bool {
    forall|i: int| 0 <= i < bytes.len() ==> is_printable(#[trigger] bytes[i])
}

/// The characters whose code points are the given bytes.
pub open spec fn ascii_text(bytes: Seq<u8>) -> Seq<char> {
    bytes.map_values(|b: u8| b as char)
}

/// The digit for `d` in base 16 and below, with capitals above nine.
pub open spec fn digit_char(d: nat) -> char
    recommends
        d < 16,
{
    if d < 10 {
        (0x30 + d) as char
    } else {
        (0x37 + d) as char
    }
}

/// A number in decimal, without leading zeros.
pub open spec fn decimal_text(n: nat) -> Seq<char>
    decreases n,
{
    if n < 10 {
        seq![digit_char(n)]
    } else {
        decimal_text(n / 10).push(digit_char(n % 10))
    }
}

/// A number in hexadecimal with capital letters, without leading zeros.
pub open spec fn upper_hex_text(n: nat) -> Seq<char>
    decreases n,
{
    if n < 16 {
        seq![digit_char(n)]
    } else {
        upper_hex_text(n / 16).push(digit_char(n % 16))
    }
}

/// Each byte as two hexadecimal digits with capital letters.
pub open spec fn hex_pairs(bytes: Seq<u8>) -> Seq<char>
    decreases bytes.len(),
{
    if bytes.len() == 0 {
        Seq::empty()
    } else {
        hex_pairs(bytes.drop_last()).push(digit_char(bytes.last() as nat / 16)).push(
            digit_char(bytes.last() as nat % 16),
        )
    }
}

/// The character of a digit.
fn digit(d: u8) -> (c: char)
    requires
        d < 16,
    ensures
        c == digit_char(d as nat),
{
    if d < 10 {
        (0x30u8 + d) as char
    } else {
        (0x37u8 + d) as char
    }
}

/// Appends a number in decimal.
fn push_decimal(s: &mut String, n: u64)
    ensures
        final(s)@ == old(s)@ + decimal_text(n as nat),
    decreases n,
{
    if n >= 10 {
        push_decimal(s, n / 10);
    }
    s.push(digit((n % 10) as u8));
}

/// Appends a number in hexadecimal with capital letters.
fn push_upper_hex(s: &mut String, n: u64)
    ensures
        final(s)@ == old(s)@ + upper_hex_text(n as nat),
    decreases n,
{
    if n >= 16 {
        push_upper_hex(s, n / 16);
    }
    s.push(digit((n % 16) as u8));
}

/// The text of a tag: its four characters where all of them are printable
/// ASCII, and otherwise its bytes as eight hexadecimal digits.
pub open spec fn tag_text(tag: Seq<u8>) -> Seq<char> {
    if all_printable(tag) {
        ascii_text(tag)
    } else {
        hex_pairs(tag)
    }
}

/// The file name for the entry at place `index` with this tag: the text of
/// the tag, followed for every place but the first by `_` and the place in
/// decimal.
pub open spec fn tag_filename(tag: Seq<u8>, index: nat) -> Seq<char> {
    if index == 0 {
        tag_text(tag)
    } else {
        tag_text(tag).push('_') + decimal_text(index)
    }
}

/// Whether all four bytes of a tag are printable ASCII.
fn is_printable_tag(tag: &[u8; 4]) -> (printable: bool)
    ensures
        printable == all_printable(tag@),
{
    let mut i: usize = 0;
    while i < 4
        invariant
            i <= 4,
            forall|j: int| 0 <= j < i ==> is_printable(#[trigger] tag@[j]),
        decreases 4 - i,
    {
        if tag[i] < 0x20 || tag[i] > 0x7E {
            return false;
        }
        i += 1;
    }
    true
}

/// The text of a tag, as a string.
fn tag_text_of(tag: &[u8; 4]) -> (text: String)
    ensures
        text@ == tag_text(tag@),
{
    let printable = is_printable_tag(tag);
    let mut text = String::new();
    let mut i: usize = 0;
    while i < 4
        invariant
            i <= 4,
            printable == all_printable(tag@),
            printable ==> text@ == ascii_text(tag@.take(i as int)),
            !printable ==> text@ == hex_pairs(tag@.take(i as int)),
        decreases 4 - i,
    {
        let b = tag[i];
        proof {
            assert(tag@.take(i + 1).drop_last() == tag@.take(i as int));
            assert(tag@.take(i + 1).last() == b);
            assert(ascii_text(tag@.take(i + 1)) == ascii_text(tag@.take(i as int)).push(b as char));
        }
        if printable {
            text.push(b as char);
        } else {
            text.push(digit(b / 16));
            text.push(digit(b % 16));
        }
        i += 1;
    }
    assert(tag@.take(4) == tag@);
    text
}

impl FtabEntry {
    /// The tag as text: its four characters where all of them are printable
    /// ASCII, and otherwise its bytes as eight hexadecimal digits.
    pub fn tag_string(&self) -> (text: String)
        ensures
            text@ == tag_text(self.tag@),
    {
        tag_text_of(&self.tag)
    }
}

/// The name of the file that holds the payload of the entry at place `index`
/// with tag `tag4`.
pub fn safe_tag_filename(tag4: &[u8; 4], index: usize) -> (name: String)
    ensures
        name@ == tag_filename(tag4@, index as nat),
{
    let mut name = tag_text_of(tag4);
    if index != 0 {
        name.push('_');
        push_decimal(&mut name, index as u64);
    }
    name
}

/// The text that `String::from_utf8_lossy` gives for these bytes.
pub uninterp spec fn utf8_lossy_text(bytes: Seq<u8>) -> Seq<char>;

/// The text that the `Debug` format of `str` gives for this text: the text
/// between quotes, with escapes.
pub uninterp spec fn debug_quoted_text(text: Seq<char>) -> Seq<char>;

/// `String::from_utf8_lossy` of std: decodes bytes as UTF-8 and puts the
/// replacement character in the place of what is not. The result is named,
/// not described.
#[verifier::external_body]
fn utf8_lossy(bytes: &[u8]) -> (text: String)
    ensures
        text@ == utf8_lossy_text(bytes@),
{
    String::from_utf8_lossy(bytes).into_owned()
}

/// The `Debug` format of `str` of std. The result is named, not described.
#[verifier::external_body]
fn debug_quoted(text: &str) -> (quoted: String)
    ensures
        quoted@ == debug_quoted_text(text@),
{
    format!("{:?}", text)
}

/// The sum of two numbers, held at the largest 64-bit number.
pub open spec fn saturated_sum(a: nat, b: nat) -> nat {
    if a + b > u64::MAX {
        u64::MAX as nat
    } else {
        a + b
    }
}

/// The message for a magic that is not accepted, given the quoted text of
/// the bytes found.
pub open spec fn invalid_magic_text(quoted: Seq<char>) -> Seq<char> {
    "invalid magic at 0x20: "@ + quoted
}

/// What an error says, in words.
pub open spec fn error_text(error: ErrorModel) -> Seq<char> {
    match error {
        ErrorModel::Truncated(what) => "truncated "@ + what,
        ErrorModel::InvalidMagic(magic) => invalid_magic_text(
            debug_quoted_text(utf8_lossy_text(magic)),
        ),
        ErrorModel::InvalidFileCount(count) => "invalid number_of_files: "@ + decimal_text(count)
            + " (expected 1..=127)"@,
        ErrorModel::TableOutOfBounds { table_end, file_len } => "metadata table end (0x"@
            + upper_hex_text(table_end) + ") > file length (0x"@ + upper_hex_text(file_len) + ")"@,
        ErrorModel::ManifestOutOfBounds { off, len, file_len } => "manifest ["@ + decimal_text(off)
            + ".."@ + decimal_text(saturated_sum(off, len)) + "] exceeds file length 0x"@
            + upper_hex_text(file_len),
        ErrorModel::EntryOutOfBounds { idx, off, len, file_len } => "entry #"@ + decimal_text(idx)
            + " ["@ + decimal_text(off) + ".."@ + decimal_text(saturated_sum(off, len))
            + "] exceeds file length 0x"@ + upper_hex_text(file_len),
        ErrorModel::EntryBeforeTable { idx, off, table_end } => "entry #"@ + decimal_text(idx)
            + " offset 0x"@ + upper_hex_text(off) + " is before table_end 0x"@ + upper_hex_text(
            table_end,
        ),
    }
}

/// The message for a magic that is not accepted, given the quoted text of
/// the bytes found.
pub fn invalid_magic_message(quoted: &str) -> (message: String)
    ensures
        message@ == invalid_magic_text(quoted@),
{
    let mut message = String::from_str("invalid magic at 0x20: ");
    message.append(quoted);
    message
}

impl FtabError {
    /// What the error says, in words.
    pub fn message(&self) -> (message: String)
        ensures
            message@ == error_text(self@),
    {
        match self {
            FtabError::Truncated(what) => {
                let mut message = String::from_str("truncated ");
                message.append(what);
                message
            },
            FtabError::InvalidMagic(magic) => {
                let text = utf8_lossy(magic.as_slice());
                let quoted = debug_quoted(text.as_str());
                invalid_magic_message(quoted.as_str())
            },
            FtabError::InvalidFileCount(count) => {
                let mut message = String::from_str("invalid number_of_files: ");
                push_decimal(&mut message, *count as u64);
                message.append(" (expected 1..=127)");
                message
            },
            FtabError::TableOutOfBounds { table_end, file_len } => {
                let mut message = String::from_str("metadata table end (0x");
                push_upper_hex(&mut message, *table_end);
                message.append(") > file length (0x");
                push_upper_hex(&mut message, *file_len);
                message.append(")");
                message
            },
            FtabError::ManifestOutOfBounds { off, len, file_len } => {
                let mut message = String::from_str("manifest [");
                push_decimal(&mut message, *off);
                message.append("..");
                push_decimal(&mut message, off.saturating_add(*len));
                message.append("] exceeds file length 0x");
                push_upper_hex(&mut message, *file_len);
                message
            },
            FtabError::EntryOutOfBounds { idx, off, len, file_len } => {
                let mut message = String::from_str("entry #");
                push_decimal(&mut message, *idx as u64);
                message.append(" [");
                push_decimal(&mut message, *off);
                message.append("..");
                push_decimal(&mut message, off.saturating_add(*len));
                message.append("] exceeds file length 0x");
                push_upper_hex(&mut message, *file_len);
                message
            },
            FtabError::EntryBeforeTable { idx, off, table_end } => {
                let mut message = String::from_str("entry #");
                push_decimal(&mut message, *idx as u64);
                message.append(" offset 0x");
                push_upper_hex(&mut message, *off);
                message.append(" is before table_end 0x");
                push_upper_hex(&mut message, *table_end);
                message
            },
        }
    }
}

/// The length of a manifest as `Some(..)` around the number, or `None`.
pub open spec fn manifest_len_text(manifest: Option<Seq<u8>>) -> Seq<char> {
    match manifest {
        Some(bytes) => "Some("@ + decimal_text(bytes.len()) + ")"@,
        None => "None"@,
    }
}

/// One line about a container: its header fields, the length of its manifest
/// and the number of its entries, given the quoted text of its magic.
pub open spec fn summary_text(ftab: FtabModel, quoted_magic: Seq<char>) -> Seq<char> {
    "Ftab { generation: "@ + decimal_text(ftab.generation) + ", valid_flag: "@ + decimal_text(
        ftab.valid_flag,
    ) + ", boot_nonce: "@ + decimal_text(ftab.boot_nonce) + ", magic: "@ + quoted_magic
        + ", number_of_files: "@ + decimal_text(ftab.number_of_files) + ", manifest_len: "@
        + manifest_len_text(ftab.manifest) + ", entries: "@ + decimal_text(ftab.entries.len())
        + " }"@
}

impl Ftab {
    /// One line about the container, given the quoted text of its magic.
    pub fn summary_with_magic(&self, quoted_magic: &str) -> (summary: String)
        ensures
            summary@ == summary_text(self@, quoted_magic@),
    {
        let mut summary = String::from_str("Ftab { generation: ");
        push_decimal(&mut summary, self.generation as u64);
        summary.append(", valid_flag: ");
        push_decimal(&mut summary, self.valid_flag as u64);
        summary.append(", boot_nonce: ");
        push_decimal(&mut summary, self.boot_nonce);
        summary.append(", magic: ");
        summary.append(quoted_magic);
        summary.append(", number_of_files: ");
        push_decimal(&mut summary, self.number_of_files as u64);
        summary.append(", manifest_len: ");
        match &self.manifest {
            Some(manifest) => {
                summary.append("Some(");
                push_decimal(&mut summary, manifest.len() as u64);
                summary.append(")");
            },
            None => {
                summary.append("None");
            },
        }
        summary.append(", entries: ");
        push_decimal(&mut summary, self.entries.len() as u64);
        summary.append(" }");
        summary
    }

    /// One line about the container: its header fields, with the magic as
    /// quoted text, the length of its manifest and the number of its entries.
    /// The payloads are left out.
    pub fn summary(&self) -> (summary: String)
        ensures
            summary@ == summary_text(self@, debug_quoted_text(utf8_lossy_text(self.magic@))),
    {
        let text = utf8_lossy(self.magic.as_slice());
        let quoted = debug_quoted(text.as_str());
        self.summary_with_magic(quoted.as_str())
    }
}

} // verus!
