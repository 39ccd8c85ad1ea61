//! A guard before the MIDI parser.
//!
//! The parser reads the timing field of every header chunk it meets. Where
//! the upper byte of that field is 0x80, it negates the 8-bit value -128,
//! which overflows and, in a build with overflow checks, panics. This module
//! walks the chunks of a file as the parser does and tells beforehand
//! whether that field will be read, so that such bytes never reach it.

use vstd::prelude::*;

verus! {

/// The four bytes at `at` are these.
pub open spec fn tag_at(bytes: Seq<u8>, at: int, a: u8, b: u8, c: u8, d: u8) -> bool {
    bytes[at] == a && bytes[at + 1] == b && bytes[at + 2] == c && bytes[at + 3] == d
}

/// The four bytes at `at` spell `MThd`, the id of a header chunk.
pub open spec fn is_header_id(bytes: Seq<u8>, at: int) -> bool {
    tag_at(bytes, at, 0x4D, 0x54, 0x68, 0x64)
}

/// The four bytes at `at` as a big-endian integer.
pub open spec fn be32(bytes: Seq<u8>, at: int) -> int {
    bytes[at] * 0x100_0000 + bytes[at + 1] * 0x1_0000 + bytes[at + 2] * 0x100 + bytes[at + 3]
}

/// The four bytes at `at` as a little-endian integer.
pub open spec fn le32(bytes: Seq<u8>, at: int) -> int {
    bytes[at] + bytes[at + 1] * 0x100 + bytes[at + 2] * 0x1_0000 + bytes[at + 3] * 0x100_0000
}

/// Where the data of a chunk ends: after `len` bytes, or at `end` where
/// fewer are left.
pub open spec fn chunk_end(start: int, len: int, end: int) -> int {
    if len <= end - start {
        start + len
    } else {
        end
    }
}

/// The header whose data lies from `start` to `end` has a format that the
/// parser accepts, and enough bytes for the parser to reach its timing field.
pub open spec fn timing_is_read(bytes: Seq<u8>, start: int, end: int) -> bool {
    end - start >= 6 && bytes[start] * 0x100 + bytes[start + 1] <= 2
}

/// The parser reads the timing field of this header, and overflows on it.
pub open spec fn header_overflows(bytes: Seq<u8>, start: int, end: int) -> bool {
    timing_is_read(bytes, start, end) && bytes[start + 4] == 0x80
}

/// The parser reads this header without an error: its timing is metrical,
/// or a timecode of 24, 25, 29 or 30 frames per second.
pub open spec fn header_is_read(bytes: Seq<u8>, start: int, end: int) -> bool {
    let upper = bytes[start + 4];
    timing_is_read(bytes, start, end) && (upper < 0x80 || upper == 256 - 24 || upper == 256 - 25
        || upper == 256 - 29 || upper == 256 - 30)
}

/// The walk over the chunks from `pos` to `end` meets a header that
/// overflows. The walk goes from chunk to chunk, and ends where no chunk id
/// and length can be read any more, or at a header that the parser rejects.
pub open spec fn walk_overflows(bytes: Seq<u8>, pos: int, end: int) -> bool
    decreases end - pos,
{
    if end - pos < 8 {
        false
    } else {
        let start = pos + 8;
        let stop = chunk_end(start, be32(bytes, pos + 4), end);
        if is_header_id(bytes, pos) {
            header_overflows(bytes, start, stop) || (header_is_read(bytes, start, stop)
                && walk_overflows(bytes, stop, end))
        } else {
            walk_overflows(bytes, stop, end)
        }
    }
}

/// Where the data of the first `data` chunk lies among the RIFF chunks from
/// `pos` to `end`, if there is one. A chunk of odd length is followed by one
/// byte of padding.
pub open spec fn riff_payload(bytes: Seq<u8>, pos: int, end: int) -> Option<(int, int)>
    decreases end - pos,
{
    if end - pos < 8 {
        None
    } else {
        let len = le32(bytes, pos + 4);
        let start = pos + 8;
        let stop = chunk_end(start, len, end);
        if tag_at(bytes, pos, 0x64, 0x61, 0x74, 0x61) {
            Some((start, stop))
        } else {
            riff_payload(
                bytes,
                if len % 2 == 1 && stop < end {
                    stop + 1
                } else {
                    stop
                },
                end,
            )
        }
    }
}

/// Where the chunks of the MIDI file lie in `bytes`: the whole of a file
/// that begins with a header chunk, the `data` chunk of a RIFF file of form
/// `RMID`, and nowhere in anything else.
pub open spec fn smf_region(bytes: Seq<u8>) -> Option<(int, int)> {
    if bytes.len() >= 4 && is_header_id(bytes, 0) {
        Some((0, bytes.len() as int))
    } else if bytes.len() >= 8 && tag_at(bytes, 0, 0x52, 0x49, 0x46, 0x46) {
        let riff_end = chunk_end(8, le32(bytes, 4), bytes.len() as int);
        if riff_end - 8 >= 4 && tag_at(bytes, 8, 0x52, 0x4D, 0x49, 0x44) {
            riff_payload(bytes, 12, riff_end)
        } else {
            None
        }
    } else {
        None
    }
}

/// Parsing `bytes` would read a timing field that overflows.
pub open spec fn reads_overflowing_timecode(bytes: Seq<u8>) -> bool {
    match smf_region(bytes) {
        Some(region) => walk_overflows(bytes, region.0, region.1),
        None => false,
    }
}

fn has_tag(bytes: &[u8], at: usize, a: u8, b: u8, c: u8, d: u8) -> (same: bool)
    requires
        at + 4 <= bytes@.len(),
    ensures
        same == tag_at(bytes@, at as int, a, b, c, d),
{
    bytes[at] == a && bytes[at + 1] == b && bytes[at + 2] == c && bytes[at + 3] == d
}

fn read_be32(bytes: &[u8], at: usize) -> (value: u32)
    requires
        at + 4 <= bytes@.len(),
    ensures
        value == be32(bytes@, at as int),
{
    (bytes[at] as u32) * 0x100_0000 + (bytes[at + 1] as u32) * 0x1_0000 + (bytes[at + 2] as u32)
        * 0x100 + (bytes[at + 3] as u32)
}

fn read_le32(bytes: &[u8], at: usize) -> (value: u32)
    requires
        at + 4 <= bytes@.len(),
    ensures
        value == le32(bytes@, at as int),
{
    (bytes[at] as u32) + (bytes[at + 1] as u32) * 0x100 + (bytes[at + 2] as u32) * 0x1_0000 + (
    bytes[at + 3] as u32) * 0x100_0000
}

fn end_of_chunk(start: usize, len: u32, end: usize) -> (stop: usize)
    requires
        start <= end,
    ensures
        stop == chunk_end(start as int, len as int, end as int),
        start <= stop <= end,
{
    if len as usize <= end - start {
        start + len as usize
    } else {
        end
    }
}

/// Walks the chunks from `start` to `end` and tells whether the parser
/// would meet a header that overflows.
pub fn walk_finds_overflow(bytes: &[u8], start: usize, end: usize) -> (found: bool)
    requires
        start <= end <= bytes@.len(),
    ensures
        found == walk_overflows(bytes@, start as int, end as int),
{
    let mut pos: usize = start;
    while end - pos >= 8
        invariant
            start <= pos <= end <= bytes@.len(),
            walk_overflows(bytes@, start as int, end as int) == walk_overflows(
                bytes@,
                pos as int,
                end as int,
            ),
        decreases end - pos,
    {
        let data: usize = pos + 8;
        let stop: usize = end_of_chunk(data, read_be32(bytes, pos + 4), end);
        if has_tag(bytes, pos, 0x4D, 0x54, 0x68, 0x64) {
            if stop - data < 6 {
                return false;
            }
            let format: u16 = (bytes[data] as u16) * 0x100 + bytes[data + 1] as u16;
            let upper: u8 = bytes[data + 4];
            if format > 2 {
                return false;
            }
            if upper == 0x80 {
                return true;
            }
            if upper > 0x80 && upper != 232 && upper != 231 && upper != 227 && upper != 226 {
                return false;
            }
        }
        pos = stop;
    }
    false
}

/// Finds the data of the first `data` chunk among the RIFF chunks from
/// `start` to `end`.
pub fn find_riff_payload(bytes: &[u8], start: usize, end: usize) -> (region: Option<(usize, usize)>)
    requires
        start <= end <= bytes@.len(),
    ensures
        match region {
            Some(found) => riff_payload(bytes@, start as int, end as int) == Some(
                (found.0 as int, found.1 as int),
            ) && found.0 <= found.1 <= end,
            None => riff_payload(bytes@, start as int, end as int) is None,
        },
{
    let mut pos: usize = start;
    while end - pos >= 8
        invariant
            start <= pos <= end <= bytes@.len(),
            riff_payload(bytes@, start as int, end as int) == riff_payload(
                bytes@,
                pos as int,
                end as int,
            ),
        decreases end - pos,
    {
        let len: u32 = read_le32(bytes, pos + 4);
        let data: usize = pos + 8;
        let stop: usize = end_of_chunk(data, len, end);
        if has_tag(bytes, pos, 0x64, 0x61, 0x74, 0x61) {
            return Some((data, stop));
        }
        pos = if len % 2 == 1 && stop < end {
            stop + 1
        } else {
            stop
        };
    }
    None
}

/// Finds where the chunks of the MIDI file lie in `bytes`.
pub fn find_smf_region(bytes: &[u8]) -> (region: Option<(usize, usize)>)
    ensures
        match region {
            Some(found) => smf_region(bytes@) == Some((found.0 as int, found.1 as int))
                && found.0 <= found.1 <= bytes@.len(),
            None => smf_region(bytes@) is None,
        },
{
    let n: usize = bytes.len();
    if n >= 4 && has_tag(bytes, 0, 0x4D, 0x54, 0x68, 0x64) {
        Some((0, n))
    } else if n >= 8 && has_tag(bytes, 0, 0x52, 0x49, 0x46, 0x46) {
        let riff_end: usize = end_of_chunk(8, read_le32(bytes, 4), n);
        if riff_end - 8 >= 4 && has_tag(bytes, 8, 0x52, 0x4D, 0x49, 0x44) {
            find_riff_payload(bytes, 12, riff_end)
        } else {
            None
        }
    } else {
        None
    }
}

/// Tells whether parsing `bytes` would read a timing field that overflows.
pub fn timecode_overflows(bytes: &[u8]) -> (found: bool)
    ensures
        found == reads_overflowing_timecode(bytes@),
{
    match find_smf_region(bytes) {
        Some((start, end)) => walk_finds_overflow(bytes, start, end),
        None => false,
    }
}

} // verus!
