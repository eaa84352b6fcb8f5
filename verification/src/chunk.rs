//! The chunks of the container's top level, and what each of them holds.

use vstd::prelude::*;
use crate::bytes::{le_i32, spec_text, tag, tag_is, tag_to_string};
use crate::error::{fails, is_failure, is_parse_failure, AviError, ErrorKind};
use crate::header::{spec_avi_header, AviHeader};
use crate::index::{read_index_entries, spec_index_entries, IndexEntry, INDEX_ENTRY_SIZE};
use crate::reader::{parsed, parsed_all, views, SubReader};
use crate::stream::{lemma_list_info_failures, spec_list_info, ListInfoChunk, ListInfoChunkView};

verus! {

/// What a chunk holds.
#[derive(Debug, PartialEq, Eq)]
pub enum ChunkType {
    /// The header list: the main header and the two stream lists.
    Hdrl { avi_header: AviHeader, chunks: Vec<ListInfoChunk> },
    /// An information list. Its contents are not read.
    Info,
    /// The movie data. Its contents are not read here: the index table says
    /// where each sample lies.
    Movi,
    /// The index table.
    Idx1 { index_entries: Vec<IndexEntry> },
    /// Anything else. Its bytes are skipped, not kept.
    Unknown,
}

/// What a [`ChunkType`] holds.
pub enum ChunkTypeView {
    Hdrl { avi_header: AviHeader, chunks: Seq<ListInfoChunkView> },
    Info,
    Movi,
    Idx1 { index_entries: Seq<IndexEntry> },
    Unknown,
}

impl View for ChunkType {
    type V = ChunkTypeView;

    open spec fn view(&self) -> ChunkTypeView {
        match self {
            ChunkType::Hdrl { avi_header, chunks } => ChunkTypeView::Hdrl {
                avi_header: *avi_header,
                chunks: views(chunks@),
            },
            ChunkType::Info => ChunkTypeView::Info,
            ChunkType::Movi => ChunkTypeView::Movi,
            ChunkType::Idx1 { index_entries } => ChunkTypeView::Idx1 {
                index_entries: index_entries@,
            },
            ChunkType::Unknown => ChunkTypeView::Unknown,
        }
    }
}

/// One chunk of the top level.
#[derive(Debug, PartialEq, Eq)]
pub struct Chunk {
    /// Where the chunk begins in the buffer: the position of its tag.
    pub offset: u64,
    pub id: String,
    /// The size the chunk declares for its payload.
    pub size: i32,
    pub kind: ChunkType,
}

/// What a [`Chunk`] holds.
pub struct ChunkView {
    pub offset: u64,
    pub id: Seq<char>,
    pub size: i32,
    pub kind: ChunkTypeView,
}

impl View for Chunk {
    type V = ChunkView;

    open spec fn view(&self) -> ChunkView {
        ChunkView { offset: self.offset, id: self.id@, size: self.size, kind: self.kind@ }
    }
}

/// The list type `hdrl` of the header list.
pub open spec fn hdrl_tag() -> Seq<u8> {
    tag(0x68, 0x64, 0x72, 0x6c)
}

/// The list type `INFO` of an information list.
pub open spec fn info_tag() -> Seq<u8> {
    tag(0x49, 0x4e, 0x46, 0x4f)
}

/// The list type `movi` of the movie data.
pub open spec fn movi_tag() -> Seq<u8> {
    tag(0x6d, 0x6f, 0x76, 0x69)
}

/// The tag `idx1` of the index table.
pub open spec fn idx1_tag() -> Seq<u8> {
    tag(0x69, 0x64, 0x78, 0x31)
}

/// Whether the payload `body .. end` opens with the four bytes of `t`.
pub open spec fn opens_with(data: Seq<u8>, body: int, end: int, t: Seq<u8>) -> bool {
    body + 4 <= end && data.subrange(body, body + 4) == t
}

/// Reading the contents of a header list from `pos` on, in a payload that
/// ends at `end`: the main header, then exactly two stream lists. What is
/// left of the payload after them is skipped.
pub open spec fn spec_header_list(data: Seq<u8>, pos: int, end: int) -> Result<
    ChunkTypeView,
    ErrorKind,
> {
    match spec_avi_header(data, pos, end) {
        Err(k) => Err(k),
        Ok((avi_header, first)) => match spec_list_info(data, first, end) {
            Err(k) => Err(k),
            Ok((video, second)) => match spec_list_info(data, second, end) {
                Err(k) => Err(k),
                Ok((audio, _)) => Ok(
                    ChunkTypeView::Hdrl { avi_header, chunks: seq![video, audio] },
                ),
            },
        },
    }
}

/// What the chunk with the tag `id` and the payload `body .. end` holds.
///
/// The header list, an information list and the movie data are lists: in the
/// file each is a chunk, as a rule tagged `LIST`, whose payload opens with its
/// list type. So the first four bytes of the payload decide, where they are
/// one of `hdrl`, `INFO` and `movi`, whatever the chunk's own tag is. Else a
/// chunk whose own tag is `idx1` is the index table, with one entry for each
/// full sixteen bytes of payload. Every other chunk is unknown, which is no
/// error.
pub open spec fn spec_chunk_type(data: Seq<u8>, id: Seq<u8>, body: int, end: int) -> Result<
    ChunkTypeView,
    ErrorKind,
> {
    if opens_with(data, body, end, hdrl_tag()) {
        spec_header_list(data, body + 4, end)
    } else if opens_with(data, body, end, info_tag()) {
        Ok(ChunkTypeView::Info)
    } else if opens_with(data, body, end, movi_tag()) {
        Ok(ChunkTypeView::Movi)
    } else if id == idx1_tag() {
        Ok(
            ChunkTypeView::Idx1 {
                index_entries: spec_index_entries(data, body, ((end - body) / 16) as nat),
            },
        )
    } else {
        Ok(ChunkTypeView::Unknown)
    }
}

/// Where the chunk that begins at `pos` with the declared size `size` ends:
/// after its eight header bytes, its payload, and one pad byte where the size
/// is odd.
pub open spec fn chunk_end(pos: int, size: int) -> int {
    pos + 8 + size + size % 2
}

/// Reading one chunk at `pos`, in a window that ends at `limit`.
///
/// A chunk opens with a four-byte tag and a signed size. The size must not be
/// negative, and the chunk must end inside the window, its pad byte included:
/// else the chunk is out of range. Then the tag must be text. Then the payload
/// is read as [`spec_chunk_type`] says, and a failure in it is the failure of
/// the chunk.
#[verifier::opaque]
pub open spec fn spec_chunk(data: Seq<u8>, pos: int, limit: int) -> Result<
    (ChunkView, int),
    ErrorKind,
> {
    if pos + 8 > limit {
        Err(ErrorKind::PointerOutOfRange)
    } else {
        let id = data.subrange(pos, pos + 4);
        let size = le_i32(data, pos + 4);
        if size < 0 || chunk_end(pos, size as int) > limit {
            Err(ErrorKind::PointerOutOfRange)
        } else {
            match spec_text(id) {
                Err(k) => Err(k),
                Ok(text) => match spec_chunk_type(data, id, pos + 8, pos + 8 + size) {
                    Err(k) => Err(k),
                    Ok(kind) => Ok(
                        (
                            ChunkView { offset: pos as u64, id: text, size, kind },
                            chunk_end(pos, size as int),
                        ),
                    ),
                },
            }
        }
    }
}

/// Every chunk that is read ends where [`chunk_end`] says, inside the window
/// and at least eight bytes after it began.
pub proof fn lemma_chunk_advances(data: Seq<u8>, pos: int, limit: int)
    ensures
        spec_chunk(data, pos, limit) matches Ok((chunk, next)) ==> pos + 8 <= next <= limit && next
            == chunk_end(pos, chunk.size as int) && chunk.size >= 0,
{
    reveal(spec_chunk);
}

/// Reading chunks from `pos` until the window that ends at `limit` is used
/// up. The first chunk that fails makes the whole sequence fail.
pub open spec fn spec_chunks(data: Seq<u8>, pos: int, limit: int) -> Result<
    Seq<ChunkView>,
    ErrorKind,
>
    decreases limit - pos,
    via chunks_decrease
{
    if pos >= limit {
        Ok(Seq::empty())
    } else {
        match spec_chunk(data, pos, limit) {
            Err(k) => Err(k),
            Ok((chunk, next)) => match spec_chunks(data, next, limit) {
                Err(k) => Err(k),
                Ok(rest) => Ok(seq![chunk] + rest),
            },
        }
    }
}

#[via_fn]
proof fn chunks_decrease(data: Seq<u8>, pos: int, limit: int) {
    lemma_chunk_advances(data, pos, limit);
}

/// Whether reading chunks from `pos` on comes to read a chunk at `at`: every
/// chunk before it is read without failure, and one of them ends at `at`.
pub open spec fn chunk_starts_at(data: Seq<u8>, pos: int, limit: int, at: int) -> bool
    decreases limit - pos,
    via chunk_starts_decrease
{
    if pos >= limit {
        false
    } else if at == pos {
        true
    } else {
        match spec_chunk(data, pos, limit) {
            Err(_) => false,
            Ok((_, next)) => chunk_starts_at(data, next, limit, at),
        }
    }
}

#[via_fn]
proof fn chunk_starts_decrease(data: Seq<u8>, pos: int, limit: int, at: int) {
    lemma_chunk_advances(data, pos, limit);
}

/// A chunk whose declared size places its end beyond the window is out of
/// range, whatever its tag and its payload are. The same holds of a chunk
/// with a negative size, and of one whose header does not fit.
pub proof fn lemma_chunk_out_of_range(data: Seq<u8>, pos: int, limit: int)
    requires
        pos + 8 + le_i32(data, pos + 4) > limit || le_i32(data, pos + 4) < 0,
    ensures
        is_failure(spec_chunk(data, pos, limit), ErrorKind::PointerOutOfRange),
{
    reveal(spec_chunk);
}

/// A chunk with an odd size is followed by exactly one pad byte, one with an
/// even size by none: the next chunk is read from there.
pub proof fn lemma_chunk_padding(data: Seq<u8>, pos: int, limit: int)
    requires
        spec_chunk(data, pos, limit) is Ok,
    ensures
        ({
            let (chunk, next) = spec_chunk(data, pos, limit)->Ok_0;
            let payload_end = pos + 8 + chunk.size;
            &&& chunk.size == le_i32(data, pos + 4)
            &&& chunk.size % 2 == 1 ==> next == payload_end + 1
            &&& chunk.size % 2 == 0 ==> next == payload_end
            &&& spec_chunks(data, pos, limit) matches Ok(all) ==> spec_chunks(data, next, limit)
                matches Ok(rest) && all == seq![chunk] + rest
        }),
{
    reveal(spec_chunk);
}

/// The first chunk that fails decides: where reading comes to a chunk that
/// fails, the whole sequence fails in the same way.
pub proof fn lemma_failing_chunk_fails_all(data: Seq<u8>, pos: int, limit: int, at: int)
    requires
        chunk_starts_at(data, pos, limit, at),
        spec_chunk(data, at, limit) is Err,
    ensures
        is_failure(spec_chunks(data, pos, limit), spec_chunk(data, at, limit)->Err_0),
    decreases limit - pos,
{
    if at != pos {
        lemma_chunk_advances(data, pos, limit);
        let next = spec_chunk(data, pos, limit)->Ok_0.1;
        lemma_failing_chunk_fails_all(data, next, limit, at);
    }
}

/// Reading chunks fails only as out of range, on a tag that is no text, or on
/// a header list without its main header.
pub proof fn lemma_chunks_failures(data: Seq<u8>, pos: int, limit: int)
    ensures
        spec_chunks(data, pos, limit) matches Err(k) ==> is_parse_failure(k) && k
            != ErrorKind::NotRiff,
    decreases limit - pos,
{
    if pos < limit {
        lemma_chunk_advances(data, pos, limit);
        match spec_chunk(data, pos, limit) {
            Ok((_, next)) => {
                lemma_chunks_failures(data, next, limit);
            },
            Err(_) => {
                reveal(spec_chunk);
                let end = pos + 8 + le_i32(data, pos + 4);
                match spec_avi_header(data, pos + 12, end) {
                    Ok((_, first)) => {
                        lemma_list_info_failures(data, first, end);
                        match spec_list_info(data, first, end) {
                            Ok((_, second)) => {
                                lemma_list_info_failures(data, second, end);
                            },
                            Err(_) => {},
                        }
                    },
                    Err(_) => {},
                }
            },
        }
    }
}

impl ChunkType {
    /// Reads what a chunk holds, and moves to the end of the payload. The
    /// reader is cut to the chunk's payload; `id` is the chunk's own tag.
    pub fn read(r: &mut SubReader, id: &[u8; 4]) -> (res: Result<ChunkType, AviError>)
        ensures
            final(r).same_window(old(r)),
            match spec_chunk_type(old(r).source(), id@, old(r).position(), old(r).limit()) {
                Ok(kind) => (res matches Ok(x) && x@ == kind) && final(r).position()
                    == old(r).limit(),
                Err(k) => fails(res, k),
            },
    {
        let list = match r.peek_tag() {
            Some(t) => t,
            None => [0u8, 0u8, 0u8, 0u8],
        };
        let room = r.remaining();
        let end = r.end();
        let kind = if room >= 4 && tag_is(&list, 0x68, 0x64, 0x72, 0x6c) {
            r.skip(4)?;
            let avi_header = AviHeader::read(r)?;
            let video = ListInfoChunk::read(r)?;
            let audio = ListInfoChunk::read(r)?;
            let ghost lists = seq![video@, audio@];
            let mut chunks: Vec<ListInfoChunk> = Vec::new();
            chunks.push(video);
            chunks.push(audio);
            assert(views(chunks@) =~= lists);
            ChunkType::Hdrl { avi_header, chunks }
        } else if room >= 4 && tag_is(&list, 0x49, 0x4e, 0x46, 0x4f) {
            ChunkType::Info
        } else if room >= 4 && tag_is(&list, 0x6d, 0x6f, 0x76, 0x69) {
            ChunkType::Movi
        } else if tag_is(id, 0x69, 0x64, 0x78, 0x31) {
            let index_entries = read_index_entries(r, room / INDEX_ENTRY_SIZE)?;
            ChunkType::Idx1 { index_entries }
        } else {
            ChunkType::Unknown
        };
        r.seek(end)?;
        Ok(kind)
    }
}

impl Chunk {
    /// Reads one chunk and moves past it, its pad byte included.
    pub fn read(r: &mut SubReader) -> (res: Result<Chunk, AviError>)
        ensures
            parsed(
                res,
                *final(r),
                *old(r),
                spec_chunk(old(r).source(), old(r).position(), old(r).limit()),
            ),
    {
        proof {
            reveal(spec_chunk);
        }
        let offset = r.pos() as u64;
        let id_tag = r.read_tag()?;
        let size = r.read_i32()?;
        if size < 0 {
            return Err(AviError::PointerOutOfRange);
        }
        let len = size as usize;
        let pad = len % 2;
        let room = r.remaining();
        if room < len || room - len < pad {
            return Err(AviError::PointerOutOfRange);
        }
        let mut payload = r.take(len)?;
        r.skip(pad)?;
        let id = tag_to_string(&id_tag)?;
        let kind = ChunkType::read(&mut payload, &id_tag)?;
        Ok(Chunk { offset, id, size, kind })
    }
}

/// Reads chunks until the window is used up.
pub fn read_chunks(r: &mut SubReader) -> (res: Result<Vec<Chunk>, AviError>)
    ensures
        parsed_all(
            res,
            *final(r),
            *old(r),
            spec_chunks(old(r).source(), old(r).position(), old(r).limit()),
        ),
{
    let ghost data = r.source();
    let ghost limit = r.limit();
    let from = r.pos();
    let mut chunks: Vec<Chunk> = Vec::new();
    proof {
        match spec_chunks(data, from as int, limit) {
            Ok(rest) => {
                assert(views(chunks@) + rest =~= rest);
            },
            Err(_) => {},
        }
    }
    while r.remaining() > 0
        invariant
            r.same_window(old(r)),
            r.source() == data,
            r.limit() == limit,
            from == old(r).position(),
            r.position() <= limit,
            spec_chunks(data, from as int, limit) == match spec_chunks(data, r.position(), limit) {
                Ok(rest) => Ok::<Seq<ChunkView>, ErrorKind>(views(chunks@) + rest),
                Err(k) => Err(k),
            },
        decreases limit - r.position(),
    {
        let ghost at = r.position();
        proof {
            lemma_chunk_advances(data, at, limit);
        }
        let chunk = Chunk::read(r)?;
        let ghost before = views(chunks@);
        chunks.push(chunk);
        proof {
            assert(views(chunks@) =~= before + seq![chunk@]);
            match spec_chunks(data, r.position(), limit) {
                Ok(rest) => {
                    assert((before + seq![chunk@]) + rest =~= before + (seq![chunk@] + rest));
                },
                Err(_) => {},
            }
        }
    }
    proof {
        assert(views(chunks@) + Seq::<ChunkView>::empty() =~= views(chunks@));
    }
    Ok(chunks)
}

} // verus!
