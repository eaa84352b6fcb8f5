//! The index table: one sixteen-byte entry per sample of the movie data.

use vstd::arithmetic::div_mod::lemma_mod_multiples_vanish;
use vstd::prelude::*;
use vstd::std_specs::convert::FromSpecImpl;
use crate::bytes::le_i32;
use crate::error::{fails, AviError, ErrorKind};
use crate::reader::SubReader;

verus! {

/// What kind of sample an index entry points at.
#[derive(Debug, Clone, Copy, PartialEq, Eq, Structural)]
pub enum IndexEntryType {
    /// No known kind: the type bytes are none of the four known pairs.
    Unspecified,
    UncompressedVideoFrame,
    CompressedVideoFrame,
    PaletteChange,
    AudioData,
    VideoData,
}

/// One entry of the index table.
#[derive(Debug, Clone, Copy, PartialEq, Eq, Structural)]
pub struct IndexEntry {
    /// The stream the sample belongs to.
    pub stream_num: u8,
    /// The kind of the sample.
    pub kind: IndexEntryType,
    pub dw_flags: i32,
    /// Where the sample's record begins, counted from the movie data chunk.
    pub dw_chunk_offset: i32,
    /// How many bytes the sample holds.
    pub dw_chunk_length: i32,
}

/// The size of one index entry in bytes.
pub const INDEX_ENTRY_SIZE: usize = 16;

/// The kind named by the two type bytes of an entry: `db`, `dc`, `pc` and `wb`
/// are known, every other pair is `Unspecified`.
pub open spec fn entry_type_of(b0: u8, b1: u8) -> IndexEntryType {
    if b0 == 0x64 && b1 == 0x62 {
        IndexEntryType::UncompressedVideoFrame
    } else if b0 == 0x64 && b1 == 0x63 {
        IndexEntryType::CompressedVideoFrame
    } else if b0 == 0x70 && b1 == 0x63 {
        IndexEntryType::PaletteChange
    } else if b0 == 0x77 && b1 == 0x62 {
        IndexEntryType::AudioData
    } else {
        IndexEntryType::Unspecified
    }
}

/// The pairs `db`, `dc`, `pc` and `wb` name the four known kinds, and no other
/// pair of bytes names a kind.
pub proof fn lemma_entry_types(b0: u8, b1: u8)
    ensures
        entry_type_of('d' as u8, 'b' as u8) == IndexEntryType::UncompressedVideoFrame,
        entry_type_of('d' as u8, 'c' as u8) == IndexEntryType::CompressedVideoFrame,
        entry_type_of('p' as u8, 'c' as u8) == IndexEntryType::PaletteChange,
        entry_type_of('w' as u8, 'b' as u8) == IndexEntryType::AudioData,
        !(b0 == 'd' as u8 && (b1 == 'b' as u8 || b1 == 'c' as u8)) && !(b0 == 'p' as u8 && b1
            == 'c' as u8) && !(b0 == 'w' as u8 && b1 == 'b' as u8) ==> entry_type_of(b0, b1)
            == IndexEntryType::Unspecified,
{
}

/// The stream number written as two ASCII digits: `(b0 - '0') * 10 + (b1 - '0')`,
/// kept in a byte. Bytes that are no digits are not rejected: the sum wraps
/// modulo 256.
pub open spec fn stream_number(b0: u8, b1: u8) -> u8 {
    (((b0 - 0x30) * 10 + (b1 - 0x30)) % 256) as u8
}

/// Two ASCII digits give the number they write, from 0 to 99.
pub proof fn lemma_stream_number_digits(tens: u8, units: u8)
    requires
        tens < 10,
        units < 10,
    ensures
        stream_number((0x30 + tens) as u8, (0x30 + units) as u8) == 10 * tens + units,
        stream_number((0x30 + tens) as u8, (0x30 + units) as u8) <= 99,
{
}

/// The index entry stored in the sixteen bytes at `at`.
pub open spec fn spec_index_entry(data: Seq<u8>, at: int) -> IndexEntry {
    IndexEntry {
        stream_num: stream_number(data[at], data[at + 1]),
        kind: entry_type_of(data[at + 2], data[at + 3]),
        dw_flags: le_i32(data, at + 4),
        dw_chunk_offset: le_i32(data, at + 8),
        dw_chunk_length: le_i32(data, at + 12),
    }
}

/// The `count` index entries stored back to back from `at` on, in file order.
pub open spec fn spec_index_entries(data: Seq<u8>, at: int, count: nat) -> Seq<IndexEntry> {
    Seq::new(count, |i: int| spec_index_entry(data, at + 16 * i))
}

impl From<&[u8; 2]> for IndexEntryType {
    fn from(value: &[u8; 2]) -> (kind: Self) {
        let b0 = value[0];
        let b1 = value[1];
        if b0 == 0x64 && b1 == 0x62 {
            IndexEntryType::UncompressedVideoFrame
        } else if b0 == 0x64 && b1 == 0x63 {
            IndexEntryType::CompressedVideoFrame
        } else if b0 == 0x70 && b1 == 0x63 {
            IndexEntryType::PaletteChange
        } else if b0 == 0x77 && b1 == 0x62 {
            IndexEntryType::AudioData
        } else {
            IndexEntryType::Unspecified
        }
    }
}

impl FromSpecImpl<&[u8; 2]> for IndexEntryType {
    open spec fn obeys_from_spec() -> bool {
        true
    }

    open spec fn from_spec(value: &[u8; 2]) -> Self {
        entry_type_of(value@[0], value@[1])
    }
}

/// Decodes the two digit bytes of a stream number.
pub fn decode_stream_number(b0: u8, b1: u8) -> (n: u8)
    ensures
        n == stream_number(b0, b1),
{
    let shifted: u32 = (b0 as u32 + 208) * 10 + (b1 as u32 + 208);
    proof {
        let exact: int = (b0 - 0x30) * 10 + (b1 - 0x30);
        assert(shifted == 256 * 11 + exact);
        lemma_mod_multiples_vanish(11, exact, 256);
    }
    (shifted % 256) as u8
}

impl IndexEntry {
    /// Reads one index entry. It needs sixteen bytes; what they hold is never
    /// an error.
    pub fn read(r: &mut SubReader) -> (res: Result<IndexEntry, AviError>)
        ensures
            final(r).same_window(old(r)),
            old(r).has(16) ==> final(r).advanced(old(r), 16) && res == Ok::<IndexEntry, AviError>(
                spec_index_entry(old(r).source(), old(r).position()),
            ),
            !old(r).has(16) ==> fails(res, ErrorKind::PointerOutOfRange),
    {
        if r.remaining() < INDEX_ENTRY_SIZE {
            return Err(AviError::PointerOutOfRange);
        }
        let ghost at = r.position();
        let ghost data = r.source();
        let b0 = r.read_u8()?;
        let b1 = r.read_u8()?;
        let b2 = r.read_u8()?;
        let b3 = r.read_u8()?;
        let dw_flags = r.read_i32()?;
        let dw_chunk_offset = r.read_i32()?;
        let dw_chunk_length = r.read_i32()?;
        let code: [u8; 2] = [b2, b3];
        let kind = IndexEntryType::from(&code);
        Ok(
            IndexEntry {
                stream_num: decode_stream_number(b0, b1),
                kind,
                dw_flags,
                dw_chunk_offset,
                dw_chunk_length,
            },
        )
    }
}

/// Reads `count` index entries, in file order.
pub fn read_index_entries(r: &mut SubReader, count: usize) -> (res: Result<
    Vec<IndexEntry>,
    AviError,
>)
    ensures
        final(r).same_window(old(r)),
        old(r).has(16 * count) ==> final(r).advanced(old(r), 16 * count) && (res matches Ok(v)
            && v@ == spec_index_entries(old(r).source(), old(r).position(), count as nat)),
        !old(r).has(16 * count) ==> fails(res, ErrorKind::PointerOutOfRange),
{
    if r.remaining() / INDEX_ENTRY_SIZE < count {
        return Err(AviError::PointerOutOfRange);
    }
    let ghost at = r.position();
    let ghost data = r.source();
    let mut entries: Vec<IndexEntry> = Vec::new();
    let mut i: usize = 0;
    while i < count
        invariant
            i <= count,
            r.same_window(old(r)),
            r.source() == data,
            at + 16 * count <= r.limit(),
            r.position() == at + 16 * i,
            entries@ == spec_index_entries(data, at, i as nat),
        decreases count - i,
    {
        let entry = IndexEntry::read(r)?;
        entries.push(entry);
        assert(entries@ =~= spec_index_entries(data, at, (i + 1) as nat));
        i = i + 1;
    }
    Ok(entries)
}

} // verus!
