//! Finding the game's library in the listing of the process's memory
//! mappings, one line per mapping: address range, permissions, offset,
//! device, inode and path, separated by blanks.
use vstd::prelude::*;
use crate::bytes::{ascii, ascii_bytes, ends_with, first_occurrence, has_suffix, is_first_occurrence, lemma_first_occurrence, occurs};
use crate::scanner::SimpleMapRange;

verus! {

/// Why the library's range is not known.
#[derive(Clone, Copy, Debug, PartialEq, Eq, Structural)]
pub enum MapsError {
    /// No executable mapping of the library is listed.
    NotFound,
    /// The mapping's addresses do not fit 64 bits, or it ends before it
    /// starts.
    BadRange,
}

/// The line terminator.
pub open spec fn newline() -> u8 {
    10
}

/// `line` without one carriage return at its end.
pub open spec fn without_cr(line: Seq<u8>) -> Seq<u8> {
    if line.len() > 0 && line.last() == 13 {
        line.drop_last()
    } else {
        line
    }
}

/// The lines of `text` from index `at` on, where the line that `at` lies in
/// began at index `start`.
pub open spec fn lines_from(text: Seq<u8>, start: int, at: int) -> Seq<Seq<u8>>
    decreases text.len() - at,
{
    if at < 0 || at >= text.len() {
        if 0 <= start < text.len() {
            seq![text.subrange(start, text.len() as int)]
        } else {
            Seq::empty()
        }
    } else if text[at] == newline() {
        seq![without_cr(text.subrange(start, at))] + lines_from(text, at + 1, at + 1)
    } else {
        lines_from(text, start, at + 1)
    }
}

/// The lines of `text`, without their terminators. A line ends with a line
/// feed, or a carriage return and a line feed; what follows the last line
/// feed is a line too, unless it is empty.
pub open spec fn lines_of(text: Seq<u8>) -> Seq<Seq<u8>> {
    lines_from(text, 0, 0)
}

/// The lines of `text`, without their terminators.
///
/// Trusted: calls `bstr::ByteSlice::lines`, whose iterator cuts the text
/// after every line feed, yields a last piece without line feed unless it is
/// empty, and takes the line feed and one carriage return before it off each
/// piece.
#[verifier::external_body]
fn lines(text: &[u8]) -> (out: Vec<&[u8]>)
    ensures
        out@.map_values(|line: &[u8]| line@) == lines_of(text@),
{
    bstr::ByteSlice::lines(text).collect()
}

/// The parts of `text` before and after the leftmost `splitter`.
///
/// Trusted: calls `bstr::ByteSlice::split_once_str`, which is documented to
/// split at the first occurrence of the splitter and to return `None` where
/// there is none.
#[verifier::external_body]
fn split_once_str<'a>(text: &'a [u8], splitter: &[u8]) -> (parts: Option<(&'a [u8], &'a [u8])>)
    ensures
        match parts {
            Some((before, after)) => {
                &&& is_first_occurrence(text@, splitter@, before@.len() as int)
                &&& before@ == text@.subrange(0, before@.len() as int)
                &&& after@ == text@.subrange(
                    (before@.len() + splitter@.len()) as int,
                    text@.len() as int,
                )
            },
            None => !occurs(text@, splitter@),
        },
{
    bstr::ByteSlice::split_once_str(text, splitter)
}

/// The value of a hexadecimal digit, in either case.
pub open spec fn hex_digit(digit: u8) -> Option<nat> {
    if 48 <= digit <= 57 {
        Some((digit - 48) as nat)
    } else if 65 <= digit <= 70 {
        Some((digit - 55) as nat)
    } else if 97 <= digit <= 102 {
        Some((digit - 87) as nat)
    } else {
        None
    }
}

/// How many hexadecimal digits `text` begins with.
pub open spec fn hex_run(text: Seq<u8>) -> nat
    decreases text.len(),
{
    if text.len() == 0 || hex_digit(text[0]) is None {
        0
    } else {
        1 + hex_run(text.drop_first())
    }
}

/// The number that a string of hexadecimal digits writes.
pub open spec fn hex_value(digits: Seq<u8>) -> nat
    decreases digits.len(),
{
    if digits.len() == 0 {
        0
    } else {
        16 * hex_value(digits.drop_last()) + hex_digit(digits.last()).unwrap_or(0)
    }
}

/// The number written by the hexadecimal digits that `text` begins with, if
/// it fits 64 bits. No digit at all writes 0.
pub open spec fn hex_prefix(text: Seq<u8>) -> Option<u64> {
    let value = hex_value(text.take(hex_run(text) as int));
    if value <= u64::MAX {
        Some(value as u64)
    } else {
        None
    }
}

/// Reads the hexadecimal number that `text` begins with.
///
/// Trusted: calls `atoi::FromRadix16Checked::from_radix_16_checked` for
/// `u64`, which reads digits of either case up to the first other byte,
/// returns how many it read, and returns their value, `None` where the value
/// overflows, and 0 where there is no digit.
#[verifier::external_body]
fn from_radix_16_checked(text: &[u8]) -> (parsed: (Option<u64>, usize))
    ensures
        parsed.0 == hex_prefix(text@),
        parsed.1 == hex_run(text@),
{
    atoi::FromRadix16Checked::from_radix_16_checked(text)
}

/// The bytes that separate the fields of a line.
pub open spec fn is_space(byte: u8) -> bool {
    byte == 32 || byte == 9 || byte == 10 || byte == 12 || byte == 13
}

/// The index of the first separator at or after `from`; the line's length
/// where there is none.
pub open spec fn field_end(line: Seq<u8>, from: int) -> int
    decreases line.len() - from,
{
    if from < 0 || from >= line.len() {
        line.len() as int
    } else if is_space(line[from]) {
        from
    } else {
        field_end(line, from + 1)
    }
}

/// The index after the last separator before `upto`; 0 where there is none.
pub open spec fn last_field_start(line: Seq<u8>, upto: int) -> int
    decreases upto,
{
    if upto <= 0 || upto > line.len() {
        0
    } else if is_space(line[upto - 1]) {
        upto
    } else {
        last_field_start(line, upto - 1)
    }
}

/// The fields of a mapping's line that matter here.
pub struct MapsLine {
    /// The first field: the address range.
    pub range: Seq<u8>,
    /// The second field: the permissions.
    pub perms: Seq<u8>,
    /// The last field: the path.
    pub path: Seq<u8>,
}

/// The first, the second and the last field of `line`, where it has more
/// than two fields. Every separator ends a field, so two separators in a row
/// have an empty field between them.
pub open spec fn maps_fields(line: Seq<u8>) -> Option<MapsLine> {
    let first = field_end(line, 0);
    let second = field_end(line, first + 1);
    if first >= line.len() || second >= line.len() {
        None
    } else {
        Some(
            MapsLine {
                range: line.subrange(0, first),
                perms: line.subrange(first + 1, second),
                path: line.subrange(last_field_start(line, line.len() as int), line.len() as int),
            },
        )
    }
}

/// The name of the game's library.
pub open spec fn library_name() -> Seq<u8> {
    ascii("libminecraftpe.so")
}

/// The two addresses of the line's range, as they are written, where the
/// line lists an executable mapping of the game's library and its range
/// holds a hyphen.
pub open spec fn range_of_line(line: Seq<u8>) -> Option<(Seq<u8>, Seq<u8>)> {
    match maps_fields(line) {
        Some(fields) => if fields.perms.contains(120u8) && has_suffix(fields.path, library_name()) {
            match first_occurrence(fields.range, seq![45u8]) {
                Some(at) => Some(
                    (fields.range.subrange(0, at), fields.range.subrange(at + 1, fields.range.len() as int)),
                ),
                None => None,
            }
        } else {
            None
        },
        None => None,
    }
}

fn space(byte: u8) -> (yes: bool)
    ensures
        yes == is_space(byte),
{
    byte == 32 || byte == 9 || byte == 10 || byte == 12 || byte == 13
}

fn next_space(line: &[u8], from: usize) -> (end: usize)
    requires
        from <= line.len(),
    ensures
        end == field_end(line@, from as int),
        from <= end <= line.len(),
{
    let mut at = from;
    while at < line.len() && !space(line[at])
        invariant
            from <= at <= line.len(),
            field_end(line@, from as int) == field_end(line@, at as int),
        decreases line.len() - at,
    {
        at += 1;
    }
    at
}

fn last_start(line: &[u8]) -> (start: usize)
    ensures
        start == last_field_start(line@, line@.len() as int),
        start <= line.len(),
{
    let mut at = line.len();
    while at > 0 && !space(line[at - 1])
        invariant
            at <= line.len(),
            last_field_start(line@, line@.len() as int) == last_field_start(line@, at as int),
        decreases at,
    {
        at -= 1;
    }
    at
}

fn has_byte(text: &[u8], byte: u8) -> (yes: bool)
    ensures
        yes == text@.contains(byte),
{
    let mut i: usize = 0;
    while i < text.len()
        invariant
            i <= text.len(),
            forall|k: int| 0 <= k < i ==> text@[k] != byte,
        decreases text.len() - i,
    {
        if text[i] == byte {
            return true;
        }
        i += 1;
    }
    false
}

/// Reads one line of the listing: the two addresses of its range, as they
/// are written, where the line lists an executable mapping of the game's
/// library.
pub fn parse_range(buf: &[u8]) -> (range: Option<(&[u8], &[u8])>)
    ensures
        match range {
            Some((start, end)) => range_of_line(buf@) == Some((start@, end@)),
            None => range_of_line(buf@) is None,
        },
{
    let first = next_space(buf, 0);
    if first >= buf.len() {
        return None;
    }
    let second = next_space(buf, first + 1);
    if second >= buf.len() {
        return None;
    }
    let addr_range = vstd::slice::slice_subrange(buf, 0, first);
    let perms = vstd::slice::slice_subrange(buf, first + 1, second);
    let pathname = vstd::slice::slice_subrange(buf, last_start(buf), buf.len());
    proof {
        reveal_strlit("libminecraftpe.so");
        reveal_strlit("-");
        lemma_first_occurrence(addr_range@, seq![45u8]);
        assert(ascii("-") =~= seq![45u8]);
    }
    if has_byte(perms, 120u8) && ends_with(pathname, ascii_bytes("libminecraftpe.so")) {
        return split_once_str(addr_range, ascii_bytes("-"));
    }
    None
}

/// The first line at or after `from` that lists an executable mapping of the
/// game's library.
pub open spec fn first_library_line(lines: Seq<Seq<u8>>, from: int) -> Option<int>
    decreases lines.len() - from,
{
    if from < 0 || from >= lines.len() {
        None
    } else if range_of_line(lines[from]) is Some {
        Some(from)
    } else {
        first_library_line(lines, from + 1)
    }
}

/// The range that a line's two addresses span.
pub open spec fn range_between(start: Seq<u8>, end: Seq<u8>) -> Result<SimpleMapRange, MapsError> {
    match (hex_prefix(start), hex_prefix(end)) {
        (Some(from), Some(to)) => if from <= to {
            Ok(SimpleMapRange { start: from, size: (to - from) as u64 })
        } else {
            Err(MapsError::BadRange)
        },
        _ => Err(MapsError::BadRange),
    }
}

/// The range of the game's library according to a listing: that of the first
/// line that lists an executable mapping of it.
pub open spec fn library_range(contents: Seq<u8>) -> Result<SimpleMapRange, MapsError> {
    match first_library_line(lines_of(contents), 0) {
        Some(line) => {
            let range = range_of_line(lines_of(contents)[line]).unwrap();
            range_between(range.0, range.1)
        },
        None => Err(MapsError::NotFound),
    }
}

/// Finds the game's library in a listing of the process's memory mappings
/// and gives the range of its code: from the first address of the first line
/// that lists an executable mapping of the library to its second address.
///
/// That line decides alone. Where one of its addresses does not fit 64 bits,
/// or the second lies before the first, the result is `BadRange`, and no
/// later line is looked at. A listing without such a line gives `NotFound`.
pub fn find_minecraft_library_manually(contents: &[u8]) -> (found: Result<SimpleMapRange, MapsError>)
    ensures
        found == library_range(contents@),
{
    let all = lines(contents);
    let ghost listing = lines_of(contents@);
    let mut i: usize = 0;
    while i < all.len()
        invariant
            i <= all.len(),
            all@.map_values(|line: &[u8]| line@) == listing,
            listing == lines_of(contents@),
            first_library_line(listing, 0) == first_library_line(listing, i as int),
        decreases all.len() - i,
    {
        assert(listing[i as int] == all@[i as int]@);
        match parse_range(all[i]) {
            Some((addr_start, addr_end)) => {
                let start = from_radix_16_checked(addr_start).0;
                let end = from_radix_16_checked(addr_end).0;
                return match (start, end) {
                    (Some(from), Some(to)) => if from <= to {
                        Ok(SimpleMapRange { start: from, size: to - from })
                    } else {
                        Err(MapsError::BadRange)
                    },
                    _ => Err(MapsError::BadRange),
                };
            },
            None => {},
        }
        i += 1;
    }
    Err(MapsError::NotFound)
}

} // verus!
