//! The container as a whole: the RIFF envelope, the chunks in it, and the
//! frames that the index table points at.

use vstd::prelude::*;
use crate::bytes::{has_tag, le_i32, lemma_ascii_text, tag, tag_is, tag_to_string};
use crate::chunk::{
    chunk_starts_at, lemma_chunk_out_of_range, lemma_chunks_failures,
    lemma_failing_chunk_fails_all, read_chunks,
    spec_chunks, Chunk, ChunkType, ChunkTypeView, ChunkView,
};
use crate::error::{fails, is_failure, is_parse_failure, AviError, ErrorKind};
use crate::header::{AviHeader, StreamFormat, StreamFormatView};
use crate::index::IndexEntry;
use crate::reader::{views, SubReader};
use crate::stream::{InfoChunk, InfoChunkView, ListInfoChunk, ListInfoChunkView};

verus! {

/// A parsed container.
#[derive(Debug, PartialEq, Eq)]
pub struct Avi {
    /// The tag of the envelope: always `RIFF`.
    pub id: String,
    /// The size the envelope declares: the form type and all chunks.
    pub size: i32,
    /// The form type: always `AVI `.
    pub kind: String,
    /// The chunks of the top level, in file order.
    pub chunks: Vec<Chunk>,
}

/// What an [`Avi`] holds.
pub struct AviView {
    pub id: Seq<char>,
    pub size: i32,
    pub kind: Seq<char>,
    pub chunks: Seq<ChunkView>,
}

impl View for Avi {
    type V = AviView;

    open spec fn view(&self) -> AviView {
        AviView { id: self.id@, size: self.size, kind: self.kind@, chunks: views(self.chunks@) }
    }
}

/// The bytes of one sample, as they lie in the file.
#[derive(Debug, PartialEq, Eq)]
pub struct Frame(pub Vec<u8>);

impl View for Frame {
    type V = Seq<u8>;

    open spec fn view(&self) -> Seq<u8> {
        self.0@
    }
}

/// The tag `RIFF` that opens the file.
pub open spec fn riff_tag() -> Seq<u8> {
    tag(0x52, 0x49, 0x46, 0x46)
}

/// The form type `AVI `, which stands after the envelope's size.
pub open spec fn avi_tag() -> Seq<u8> {
    tag(0x41, 0x56, 0x49, 0x20)
}

/// How many bytes lie between the start of a sample's record, as the index
/// table gives it, and the sample's first byte.
pub const FRAME_DATA_SKIP: u64 = 16;

/// Reading the envelope and the chunks in it.
///
/// A buffer that does not open with `RIFF` is no RIFF file. One that does, and
/// does not hold `AVI ` in its bytes 8 to 11, is no AVI file. The envelope's
/// size counts the form type and the chunks: it must be at least four, and the
/// envelope must end inside the buffer. The chunks fill the rest of the
/// envelope.
pub open spec fn spec_container(data: Seq<u8>) -> Result<AviView, ErrorKind> {
    if !has_tag(data, 0, riff_tag()) {
        Err(ErrorKind::NotRiff)
    } else if !has_tag(data, 8, avi_tag()) {
        Err(ErrorKind::NotAvi)
    } else {
        let size = le_i32(data, 4);
        if size < 4 || 8 + size > data.len() {
            Err(ErrorKind::PointerOutOfRange)
        } else {
            match spec_chunks(data, 12, 8 + size) {
                Err(k) => Err(k),
                Ok(chunks) => Ok(
                    AviView {
                        id: seq!['R', 'I', 'F', 'F'],
                        size,
                        kind: seq!['A', 'V', 'I', ' '],
                        chunks,
                    },
                ),
            }
        }
    }
}

/// The offset of the first movie data chunk among `chunks[from ..]`, or 0
/// where there is none.
pub open spec fn movi_offset_from(chunks: Seq<ChunkView>, from: int) -> u64
    decreases chunks.len() - from,
{
    if from < 0 || from >= chunks.len() {
        0
    } else if chunks[from].kind is Movi {
        chunks[from].offset
    } else {
        movi_offset_from(chunks, from + 1)
    }
}

/// The entries of the first index table among `chunks[from ..]`.
pub open spec fn index_entries_from(chunks: Seq<ChunkView>, from: int) -> Option<Seq<IndexEntry>>
    decreases chunks.len() - from,
{
    if from < 0 || from >= chunks.len() {
        None
    } else {
        match chunks[from].kind {
            ChunkTypeView::Idx1 { index_entries } => Some(index_entries),
            _ => index_entries_from(chunks, from + 1),
        }
    }
}

/// The main header of the first header list among `chunks[from ..]`.
pub open spec fn avi_header_from(chunks: Seq<ChunkView>, from: int) -> Option<AviHeader>
    decreases chunks.len() - from,
{
    if from < 0 || from >= chunks.len() {
        None
    } else {
        match chunks[from].kind {
            ChunkTypeView::Hdrl { avi_header, .. } => Some(avi_header),
            _ => avi_header_from(chunks, from + 1),
        }
    }
}

/// The first stream format among `records[from ..]`.
pub open spec fn format_in_records(records: Seq<InfoChunkView>, from: int) -> Option<
    StreamFormatView,
>
    decreases records.len() - from,
{
    if from < 0 || from >= records.len() {
        None
    } else {
        match records[from] {
            InfoChunkView::StreamFormat(format) => Some(format),
            _ => format_in_records(records, from + 1),
        }
    }
}

/// The first stream format in the stream lists `lists[from ..]`, taken in
/// order.
pub open spec fn format_in_lists(lists: Seq<ListInfoChunkView>, from: int) -> Option<
    StreamFormatView,
>
    decreases lists.len() - from,
{
    if from < 0 || from >= lists.len() {
        None
    } else {
        match format_in_records(lists[from].header, 0) {
            Some(format) => Some(format),
            None => format_in_lists(lists, from + 1),
        }
    }
}

/// The first stream format under a header list among `chunks[from ..]`.
pub open spec fn format_in_chunks(chunks: Seq<ChunkView>, from: int) -> Option<StreamFormatView>
    decreases chunks.len() - from,
{
    if from < 0 || from >= chunks.len() {
        None
    } else {
        let here = match chunks[from].kind {
            ChunkTypeView::Hdrl { chunks: lists, .. } => format_in_lists(lists, 0),
            _ => None,
        };
        match here {
            Some(format) => Some(format),
            None => format_in_chunks(chunks, from + 1),
        }
    }
}

impl AviView {
    /// The offset of the movie data: that of the first movie data chunk, 0
    /// where the container has none.
    pub open spec fn movi_offset(self) -> u64 {
        movi_offset_from(self.chunks, 0)
    }

    /// The entries of the first index table, if the container has one.
    pub open spec fn index_entries(self) -> Option<Seq<IndexEntry>> {
        index_entries_from(self.chunks, 0)
    }

    /// The main header of the first header list, if the container has one.
    pub open spec fn avi_header(self) -> Option<AviHeader> {
        avi_header_from(self.chunks, 0)
    }

    /// The first stream format under a header list, if there is one.
    pub open spec fn stream_format_vid(self) -> Option<StreamFormatView> {
        format_in_chunks(self.chunks, 0)
    }
}

/// Where the sample of `entry` begins in the buffer: at the entry's offset
/// from the movie data chunk, sixteen bytes further on.
pub open spec fn frame_start(movi_offset: u64, entry: IndexEntry) -> int {
    movi_offset + entry.dw_chunk_offset + 16
}

/// Whether the sample of `entry` lies inside the buffer.
pub open spec fn frame_in_range(data: Seq<u8>, movi_offset: u64, entry: IndexEntry) -> bool {
    &&& 0 <= frame_start(movi_offset, entry)
    &&& 0 <= entry.dw_chunk_length
    &&& frame_start(movi_offset, entry) + entry.dw_chunk_length <= data.len()
}

/// The bytes of the sample of `entry`.
pub open spec fn frame_bytes(data: Seq<u8>, movi_offset: u64, entry: IndexEntry) -> Seq<u8> {
    data.subrange(
        frame_start(movi_offset, entry),
        frame_start(movi_offset, entry) + entry.dw_chunk_length,
    )
}

/// Extracting one frame: its bytes where they lie inside the buffer, else out
/// of range.
pub open spec fn spec_frame(data: Seq<u8>, movi_offset: u64, entry: IndexEntry) -> Result<
    Seq<u8>,
    ErrorKind,
> {
    if frame_in_range(data, movi_offset, entry) {
        Ok(frame_bytes(data, movi_offset, entry))
    } else {
        Err(ErrorKind::PointerOutOfRange)
    }
}

/// Extracting the frames of all `entries`, in their order: one frame for each
/// entry where every sample lies inside the buffer, else out of range.
pub open spec fn spec_frames(data: Seq<u8>, movi_offset: u64, entries: Seq<IndexEntry>) -> Result<
    Seq<Seq<u8>>,
    ErrorKind,
> {
    if forall|i: int|
        0 <= i < entries.len() ==> frame_in_range(data, movi_offset, #[trigger] entries[i]) {
        Ok(Seq::new(entries.len(), |i: int| frame_bytes(data, movi_offset, entries[i])))
    } else {
        Err(ErrorKind::PointerOutOfRange)
    }
}

/// Parsing a whole buffer: the container, then one frame for each entry of its
/// index table. A container without an index table has no frames.
pub open spec fn spec_read_avi(data: Seq<u8>) -> Result<(AviView, Seq<Seq<u8>>), ErrorKind> {
    match spec_container(data) {
        Err(k) => Err(k),
        Ok(avi) => match avi.index_entries() {
            None => Ok((avi, Seq::empty())),
            Some(entries) => match spec_frames(data, avi.movi_offset(), entries) {
                Err(k) => Err(k),
                Ok(frames) => Ok((avi, frames)),
            },
        },
    }
}

/// A parse fails in one of four ways only: as no RIFF file, as no AVI file,
/// as out of range, or on a tag that is no text.
pub proof fn lemma_parse_failures(data: Seq<u8>)
    ensures
        spec_read_avi(data) matches Err(k) ==> is_parse_failure(k),
{
    lemma_chunks_failures(data, 12, 8 + le_i32(data, 4));
}

/// A container whose every index entry points at bytes inside the buffer
/// parses, and gives as many frames as its index table has entries.
pub proof fn lemma_parse_succeeds(data: Seq<u8>)
    requires
        spec_container(data) is Ok,
        spec_container(data)->Ok_0.index_entries() matches Some(entries) ==> forall|i: int|
            0 <= i < entries.len() ==> frame_in_range(
                data,
                spec_container(data)->Ok_0.movi_offset(),
                #[trigger] entries[i],
            ),
    ensures
        spec_read_avi(data) matches Ok((avi, frames)) && avi == spec_container(data)->Ok_0
            && frames.len() == match avi.index_entries() {
            Some(entries) => entries.len(),
            None => 0,
        },
{
}

/// A buffer that does not open with `RIFF` is refused as no RIFF file,
/// whatever else it holds.
pub proof fn lemma_not_riff(data: Seq<u8>)
    requires
        !has_tag(data, 0, riff_tag()),
    ensures
        is_failure(spec_read_avi(data), ErrorKind::NotRiff),
{
}

/// A buffer that opens with `RIFF` and whose form type is not `AVI ` is
/// refused as no AVI file, whatever else it holds.
pub proof fn lemma_not_avi(data: Seq<u8>)
    requires
        has_tag(data, 0, riff_tag()),
        !has_tag(data, 8, avi_tag()),
    ensures
        is_failure(spec_read_avi(data), ErrorKind::NotAvi),
{
}

/// An envelope whose declared size places its end beyond the buffer is out of
/// range.
pub proof fn lemma_envelope_out_of_range(data: Seq<u8>)
    requires
        has_tag(data, 0, riff_tag()),
        has_tag(data, 8, avi_tag()),
        8 + le_i32(data, 4) > data.len(),
    ensures
        is_failure(spec_read_avi(data), ErrorKind::PointerOutOfRange),
{
}

/// A chunk of the top level whose declared size places its end beyond the
/// buffer, or beyond the envelope, makes the parse fail as out of range: the
/// chunks after it are not looked for.
pub proof fn lemma_chunk_beyond_buffer(data: Seq<u8>, at: int)
    requires
        has_tag(data, 0, riff_tag()),
        has_tag(data, 8, avi_tag()),
        4 <= le_i32(data, 4),
        8 + le_i32(data, 4) <= data.len(),
        chunk_starts_at(data, 12, 8 + le_i32(data, 4), at),
        at + 8 + le_i32(data, at + 4) > 8 + le_i32(data, 4),
    ensures
        is_failure(spec_read_avi(data), ErrorKind::PointerOutOfRange),
{
    let limit = 8 + le_i32(data, 4);
    lemma_chunk_out_of_range(data, at, limit);
    lemma_failing_chunk_fails_all(data, 12, limit, at);
}

/// Chunks of which none is an index table hold no index entries.
pub proof fn lemma_no_index_table(chunks: Seq<ChunkView>, from: int)
    requires
        0 <= from,
        forall|i: int| from <= i < chunks.len() ==> !((#[trigger] chunks[i]).kind is Idx1),
    ensures
        index_entries_from(chunks, from) is None,
    decreases chunks.len() - from,
{
    if from < chunks.len() {
        lemma_no_index_table(chunks, from + 1);
    }
}

/// A container without an index table parses, and has no frames.
pub proof fn lemma_no_index_no_frames(data: Seq<u8>)
    requires
        spec_container(data) is Ok,
        forall|i: int|
            0 <= i < spec_container(data)->Ok_0.chunks.len() ==> !((
            #[trigger] spec_container(data)->Ok_0.chunks[i]).kind is Idx1),
    ensures
        spec_read_avi(data) == Ok::<(AviView, Seq<Seq<u8>>), ErrorKind>(
            (spec_container(data)->Ok_0, Seq::empty()),
        ),
{
    lemma_no_index_table(spec_container(data)->Ok_0.chunks, 0);
}

/// A parse that succeeds gives one frame for each entry of the index table,
/// in the table's order: frame `i` holds the bytes that entry `i` points at.
pub proof fn lemma_frames_follow_index(data: Seq<u8>)
    requires
        spec_read_avi(data) is Ok,
    ensures
        ({
            let (avi, frames) = spec_read_avi(data)->Ok_0;
            &&& spec_container(data) == Ok::<AviView, ErrorKind>(avi)
            &&& match avi.index_entries() {
                None => frames.len() == 0,
                Some(entries) => {
                    &&& frames.len() == entries.len()
                    &&& forall|i: int|
                        0 <= i < entries.len() ==> frame_in_range(
                            data,
                            avi.movi_offset(),
                            #[trigger] entries[i],
                        ) && frames[i] == frame_bytes(data, avi.movi_offset(), entries[i])
                },
            }
        }),
{
}

/// One index entry whose sample does not lie inside the buffer makes the
/// whole parse fail as out of range.
pub proof fn lemma_frame_out_of_range(data: Seq<u8>, i: int)
    requires
        spec_container(data) is Ok,
        spec_container(data)->Ok_0.index_entries() is Some,
        0 <= i < spec_container(data)->Ok_0.index_entries()->Some_0.len(),
        !frame_in_range(
            data,
            spec_container(data)->Ok_0.movi_offset(),
            spec_container(data)->Ok_0.index_entries()->Some_0[i],
        ),
    ensures
        is_failure(spec_read_avi(data), ErrorKind::PointerOutOfRange),
{
}

impl Avi {
    /// The entries of the first index table, if the container has one.
    pub fn index_entries(&self) -> (res: Option<&Vec<IndexEntry>>)
        ensures
            match self@.index_entries() {
                Some(entries) => res matches Some(v) && v@ == entries,
                None => res is None,
            },
    {
        let mut i: usize = 0;
        while i < self.chunks.len()
            invariant
                i <= self.chunks.len(),
                self@.index_entries() == index_entries_from(self@.chunks, i as int),
            decreases self.chunks.len() - i,
        {
            match &self.chunks[i].kind {
                ChunkType::Idx1 { index_entries } => {
                    return Some(index_entries);
                },
                _ => {},
            }
            i = i + 1;
        }
        None
    }

    /// The offset of the first movie data chunk, 0 where the container has
    /// none.
    pub fn movi_offset(&self) -> (offset: u64)
        ensures
            offset == self@.movi_offset(),
    {
        let mut i: usize = 0;
        while i < self.chunks.len()
            invariant
                i <= self.chunks.len(),
                self@.movi_offset() == movi_offset_from(self@.chunks, i as int),
            decreases self.chunks.len() - i,
        {
            match &self.chunks[i].kind {
                ChunkType::Movi => {
                    return self.chunks[i].offset;
                },
                _ => {},
            }
            i = i + 1;
        }
        0
    }

    /// The main header of the first header list, if the container has one.
    pub fn avi_header(&self) -> (res: Option<&AviHeader>)
        ensures
            match self@.avi_header() {
                Some(header) => res matches Some(h) && *h == header,
                None => res is None,
            },
    {
        let mut i: usize = 0;
        while i < self.chunks.len()
            invariant
                i <= self.chunks.len(),
                self@.avi_header() == avi_header_from(self@.chunks, i as int),
            decreases self.chunks.len() - i,
        {
            match &self.chunks[i].kind {
                ChunkType::Hdrl { avi_header, .. } => {
                    return Some(avi_header);
                },
                _ => {},
            }
            i = i + 1;
        }
        None
    }

    /// The format of the video stream: the first stream format found under a
    /// header list, going through the chunks, their stream lists and the
    /// records of each in file order.
    pub fn stream_format_vid(&self) -> (res: Option<&StreamFormat>)
        ensures
            match self@.stream_format_vid() {
                Some(format) => res matches Some(f) && f@ == format,
                None => res is None,
            },
    {
        let mut i: usize = 0;
        while i < self.chunks.len()
            invariant
                i <= self.chunks.len(),
                self@.stream_format_vid() == format_in_chunks(self@.chunks, i as int),
            decreases self.chunks.len() - i,
        {
            match &self.chunks[i].kind {
                ChunkType::Hdrl { chunks, .. } => {
                    match first_format_in_lists(chunks) {
                        Some(format) => {
                            return Some(format);
                        },
                        None => {},
                    }
                },
                _ => {},
            }
            i = i + 1;
        }
        None
    }
}

/// The first stream format among the records of one stream list.
pub fn first_format_in_records(records: &Vec<InfoChunk>) -> (res: Option<&StreamFormat>)
    ensures
        match format_in_records(views(records@), 0) {
            Some(format) => res matches Some(f) && f@ == format,
            None => res is None,
        },
{
    let mut i: usize = 0;
    while i < records.len()
        invariant
            i <= records.len(),
            format_in_records(views(records@), 0) == format_in_records(views(records@), i as int),
        decreases records.len() - i,
    {
        match &records[i] {
            InfoChunk::StreamFormat(format) => {
                return Some(format);
            },
            _ => {},
        }
        i = i + 1;
    }
    None
}

/// The first stream format in the given stream lists, taken in order.
pub fn first_format_in_lists(lists: &Vec<ListInfoChunk>) -> (res: Option<&StreamFormat>)
    ensures
        match format_in_lists(views(lists@), 0) {
            Some(format) => res matches Some(f) && f@ == format,
            None => res is None,
        },
{
    let mut i: usize = 0;
    while i < lists.len()
        invariant
            i <= lists.len(),
            format_in_lists(views(lists@), 0) == format_in_lists(views(lists@), i as int),
        decreases lists.len() - i,
    {
        match first_format_in_records(&lists[i].header) {
            Some(format) => {
                return Some(format);
            },
            None => {},
        }
        i = i + 1;
    }
    None
}

/// Extracts the frame that `index_entry` points at.
///
/// The sample begins `index_entry.dw_chunk_offset + 16` bytes after
/// `movi_offset` and holds `index_entry.dw_chunk_length` bytes, which are
/// copied out of `data`. A sample that does not lie inside `data` is out of
/// range.
pub fn read_frame(data: &[u8], index_entry: &IndexEntry, movi_offset: u64) -> (res: Result<
    Frame,
    AviError,
>)
    ensures
        match spec_frame(data@, movi_offset, *index_entry) {
            Ok(bytes) => res matches Ok(frame) && frame@ == bytes,
            Err(k) => fails(res, k),
        },
{
    let start: i128 = movi_offset as i128 + index_entry.dw_chunk_offset as i128
        + FRAME_DATA_SKIP as i128;
    let len = index_entry.dw_chunk_length;
    if start < 0 || len < 0 || start > data.len() as i128 {
        return Err(AviError::PointerOutOfRange);
    }
    let mut reader = SubReader::new(data);
    reader.seek(start as usize)?;
    let bytes = reader.read_bytes(len as usize)?;
    Ok(Frame(bytes))
}

/// Extracts the frames of all `entries`, in their order.
pub fn read_frames(data: &[u8], entries: &Vec<IndexEntry>, movi_offset: u64) -> (res: Result<
    Vec<Frame>,
    AviError,
>)
    ensures
        match spec_frames(data@, movi_offset, entries@) {
            Ok(all) => res matches Ok(frames) && views(frames@) == all,
            Err(k) => fails(res, k),
        },
{
    let mut frames: Vec<Frame> = Vec::new();
    let mut i: usize = 0;
    while i < entries.len()
        invariant
            i <= entries.len(),
            frames.len() == i,
            forall|j: int|
                0 <= j < i ==> frame_in_range(data@, movi_offset, #[trigger] entries@[j]),
            forall|j: int|
                0 <= j < i ==> (#[trigger] frames@[j])@ == frame_bytes(
                    data@,
                    movi_offset,
                    entries@[j],
                ),
        decreases entries.len() - i,
    {
        let frame = read_frame(data, &entries[i], movi_offset)?;
        frames.push(frame);
        i = i + 1;
    }
    assert(views(frames@) =~= Seq::new(
        entries@.len(),
        |j: int| frame_bytes(data@, movi_offset, entries@[j]),
    ));
    Ok(frames)
}

/// Parses a whole AVI file held in memory: the container, and the bytes of
/// every frame that its index table lists, in the table's order.
pub fn read_avi(data: &[u8]) -> (res: Result<(Avi, Vec<Frame>), AviError>)
    ensures
        match spec_read_avi(data@) {
            Ok((avi, frames)) => res matches Ok(parsed) && parsed.0@ == avi && views(parsed.1@)
                == frames,
            Err(k) => fails(res, k),
        },
        !has_tag(data@, 0, riff_tag()) ==> fails(res, ErrorKind::NotRiff),
        has_tag(data@, 0, riff_tag()) && !has_tag(data@, 8, avi_tag()) ==> fails(
            res,
            ErrorKind::NotAvi,
        ),
        res matches Err(e) ==> is_parse_failure(e@),
        res matches Ok(parsed) ==> parsed.1@.len() == match parsed.0@.index_entries() {
            Some(entries) => entries.len(),
            None => 0,
        },
{
    proof {
        lemma_parse_failures(data@);
    }
    let mut reader = SubReader::new(data);
    let id_tag = match reader.read_tag() {
        Ok(t) => t,
        Err(_) => {
            return Err(AviError::NotRiff);
        },
    };
    if !tag_is(&id_tag, 0x52, 0x49, 0x46, 0x46) {
        return Err(AviError::NotRiff);
    }
    let size = match reader.read_i32() {
        Ok(n) => n,
        Err(_) => {
            return Err(AviError::NotAvi);
        },
    };
    let kind_tag = match reader.read_tag() {
        Ok(t) => t,
        Err(_) => {
            return Err(AviError::NotAvi);
        },
    };
    if !tag_is(&kind_tag, 0x41, 0x56, 0x49, 0x20) {
        return Err(AviError::NotAvi);
    }
    if size < 4 {
        return Err(AviError::PointerOutOfRange);
    }
    let mut body = reader.take((size - 4) as usize)?;
    proof {
        lemma_ascii_text(riff_tag());
        lemma_ascii_text(avi_tag());
        assert(crate::bytes::ascii_text(riff_tag()) =~= seq!['R', 'I', 'F', 'F']);
        assert(crate::bytes::ascii_text(avi_tag()) =~= seq!['A', 'V', 'I', ' ']);
    }
    let id = tag_to_string(&id_tag)?;
    let kind = tag_to_string(&kind_tag)?;
    let chunks = read_chunks(&mut body)?;
    let avi = Avi { id, size, kind, chunks };
    let movi_offset = avi.movi_offset();
    let frames = match avi.index_entries() {
        Some(entries) => read_frames(data, entries, movi_offset)?,
        None => Vec::new(),
    };
    proof {
        if avi@.index_entries() is None {
            assert(views(frames@) =~= Seq::<Seq<u8>>::empty());
        }
        assert(views(frames@).len() == frames@.len());
    }
    Ok((avi, frames))
}

} // verus!
