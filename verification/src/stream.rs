//! The stream lists of the header list: each groups the records that describe
//! one stream.

use vstd::prelude::*;
use crate::bytes::{le_i32, le_u32, spec_text, tag, tag_is, tag_to_string};
use crate::error::{fails, AviError, ErrorKind};
use crate::header::{
    spec_stream_format, spec_stream_header, StreamFormat, StreamFormatView, StreamHeader,
    StreamHeaderView,
};
use crate::reader::{parsed, parsed_all, views, SubReader};

verus! {

/// One record of a stream list.
#[derive(Debug, PartialEq, Eq)]
pub enum InfoChunk {
    /// A `strh` record.
    StreamHeader(StreamHeader),
    /// A `strf` record.
    StreamFormat(StreamFormat),
    /// A `strn` record: the bytes of the name, without the NUL that ends it.
    StreamName(Vec<u8>),
    /// Any other record. Its bytes are skipped, not kept.
    Unknown { id: String, size: u32 },
}

/// What an [`InfoChunk`] holds.
pub enum InfoChunkView {
    StreamHeader(StreamHeaderView),
    StreamFormat(StreamFormatView),
    StreamName(Seq<u8>),
    Unknown { id: Seq<char>, size: u32 },
}

impl View for InfoChunk {
    type V = InfoChunkView;

    open spec fn view(&self) -> InfoChunkView {
        match self {
            InfoChunk::StreamHeader(h) => InfoChunkView::StreamHeader(h@),
            InfoChunk::StreamFormat(f) => InfoChunkView::StreamFormat(f@),
            InfoChunk::StreamName(name) => InfoChunkView::StreamName(name@),
            InfoChunk::Unknown { id, size } => InfoChunkView::Unknown {
                id: id@,
                size: *size,
            },
        }
    }
}

/// The description of one stream: a list of records.
#[derive(Debug, PartialEq, Eq)]
pub struct ListInfoChunk {
    pub id: String,
    pub size: i32,
    pub kind: String,
    pub header: Vec<InfoChunk>,
}

/// What a [`ListInfoChunk`] holds.
pub struct ListInfoChunkView {
    pub id: Seq<char>,
    pub size: i32,
    pub kind: Seq<char>,
    pub header: Seq<InfoChunkView>,
}

impl View for ListInfoChunk {
    type V = ListInfoChunkView;

    open spec fn view(&self) -> ListInfoChunkView {
        ListInfoChunkView {
            id: self.id@,
            size: self.size,
            kind: self.kind@,
            header: views(self.header@),
        }
    }
}

/// The tag `strh` of a stream header record.
pub open spec fn strh_tag() -> Seq<u8> {
    tag(0x73, 0x74, 0x72, 0x68)
}

/// The tag `strf` of a stream format record.
pub open spec fn strf_tag() -> Seq<u8> {
    tag(0x73, 0x74, 0x72, 0x66)
}

/// The tag `strn` of a stream name record.
pub open spec fn strn_tag() -> Seq<u8> {
    tag(0x73, 0x74, 0x72, 0x6e)
}

/// The position of the first NUL byte in `from .. to`, or `to` where there is
/// none.
pub open spec fn first_nul(data: Seq<u8>, from: int, to: int) -> int
    decreases to - from,
{
    if from >= to {
        to
    } else if data[from] == 0 {
        from
    } else {
        first_nul(data, from + 1, to)
    }
}

/// Reading a NUL-terminated name in `pos .. limit`: the bytes before the first
/// NUL, and the position after that NUL. A name that does not end inside the
/// window is out of range.
pub open spec fn spec_name(data: Seq<u8>, pos: int, limit: int) -> Result<
    (Seq<u8>, int),
    ErrorKind,
> {
    let nul = first_nul(data, pos, limit);
    if nul < limit {
        Ok((data.subrange(pos, nul), nul + 1))
    } else {
        Err(ErrorKind::PointerOutOfRange)
    }
}

/// Reading one record of a stream list at `pos`, in a window that ends at
/// `limit`.
///
/// A record opens with a four-byte tag and an unsigned size. A `strh` or a
/// `strf` record holds its fixed fields in its first bytes and takes `size`
/// bytes in all; the fields must fit into those. A `strn` record takes
/// `size + 1` bytes, in which the name must end. Any other record takes
/// `size` bytes, which are skipped. Whatever the record, its bytes must lie
/// inside the window.
#[verifier::opaque]
pub open spec fn spec_info_chunk(data: Seq<u8>, pos: int, limit: int) -> Result<
    (InfoChunkView, int),
    ErrorKind,
> {
    if pos + 8 > limit {
        Err(ErrorKind::PointerOutOfRange)
    } else {
        let id = data.subrange(pos, pos + 4);
        let size = le_u32(data, pos + 4);
        let body = pos + 8;
        if id == strh_tag() {
            if body + size > limit {
                Err(ErrorKind::PointerOutOfRange)
            } else {
                match spec_stream_header(data, body, body + size) {
                    Ok((header, _)) => Ok((InfoChunkView::StreamHeader(header), body + size)),
                    Err(k) => Err(k),
                }
            }
        } else if id == strf_tag() {
            if body + size > limit {
                Err(ErrorKind::PointerOutOfRange)
            } else {
                match spec_stream_format(data, body, body + size) {
                    Ok((format, _)) => Ok((InfoChunkView::StreamFormat(format), body + size)),
                    Err(k) => Err(k),
                }
            }
        } else if id == strn_tag() {
            if body + size + 1 > limit {
                Err(ErrorKind::PointerOutOfRange)
            } else {
                match spec_name(data, body, body + size + 1) {
                    Ok((name, _)) => Ok((InfoChunkView::StreamName(name), body + size + 1)),
                    Err(k) => Err(k),
                }
            }
        } else if body + size > limit {
            Err(ErrorKind::PointerOutOfRange)
        } else {
            match spec_text(id) {
                Ok(text) => Ok((InfoChunkView::Unknown { id: text, size }, body + size)),
                Err(k) => Err(k),
            }
        }
    }
}

/// Reading records from `pos` until the window that ends at `limit` is used
/// up. The first record that fails makes the whole list fail.
pub open spec fn spec_info_chunks(data: Seq<u8>, pos: int, limit: int) -> Result<
    Seq<InfoChunkView>,
    ErrorKind,
>
    decreases limit - pos,
    via info_chunks_decrease
{
    if pos >= limit {
        Ok(Seq::empty())
    } else {
        match spec_info_chunk(data, pos, limit) {
            Err(k) => Err(k),
            Ok((record, next)) => match spec_info_chunks(data, next, limit) {
                Err(k) => Err(k),
                Ok(rest) => Ok(seq![record] + rest),
            },
        }
    }
}

#[via_fn]
proof fn info_chunks_decrease(data: Seq<u8>, pos: int, limit: int) {
    lemma_info_chunk_advances(data, pos, limit);
}

/// Every record that is read ends after it began: at least its eight header
/// bytes lie between.
pub proof fn lemma_info_chunk_advances(data: Seq<u8>, pos: int, limit: int)
    ensures
        spec_info_chunk(data, pos, limit) matches Ok((_, next)) ==> pos + 8 <= next <= limit,
{
    reveal(spec_info_chunk);
}

/// Reading a stream list at `pos`, in a window that ends at `limit`.
///
/// The list opens with a tag, a signed size and a second tag, the kind. The
/// size counts the kind and the records; they must lie inside the window.
/// Both tags must be text. The records fill the rest of the list.
#[verifier::opaque]
pub open spec fn spec_list_info(data: Seq<u8>, pos: int, limit: int) -> Result<
    (ListInfoChunkView, int),
    ErrorKind,
> {
    if pos + 12 > limit {
        Err(ErrorKind::PointerOutOfRange)
    } else {
        let size = le_i32(data, pos + 4);
        let end = pos + 8 + size;
        if size < 4 || end > limit {
            Err(ErrorKind::PointerOutOfRange)
        } else {
            match spec_text(data.subrange(pos, pos + 4)) {
                Err(k) => Err(k),
                Ok(id) => match spec_text(data.subrange(pos + 8, pos + 12)) {
                    Err(k) => Err(k),
                    Ok(kind) => match spec_info_chunks(data, pos + 12, end) {
                        Err(k) => Err(k),
                        Ok(header) => Ok((ListInfoChunkView { id, size, kind, header }, end)),
                    },
                },
            }
        }
    }
}

/// Reading a stream list fails only as out of range or on a tag that is no
/// text.
pub proof fn lemma_list_info_failures(data: Seq<u8>, pos: int, limit: int)
    ensures
        spec_list_info(data, pos, limit) matches Err(k) ==> k == ErrorKind::PointerOutOfRange || k
            == ErrorKind::String,
{
    reveal(spec_list_info);
    lemma_info_chunks_failures(data, pos + 12, pos + 8 + le_i32(data, pos + 4));
}

/// Reading the records of a stream list fails only as out of range or on a
/// tag that is no text.
pub proof fn lemma_info_chunks_failures(data: Seq<u8>, pos: int, limit: int)
    ensures
        spec_info_chunks(data, pos, limit) matches Err(k) ==> k == ErrorKind::PointerOutOfRange
            || k == ErrorKind::String,
    decreases limit - pos,
{
    reveal(spec_info_chunk);
    if pos < limit {
        lemma_info_chunk_advances(data, pos, limit);
        match spec_info_chunk(data, pos, limit) {
            Ok((_, next)) => {
                lemma_info_chunks_failures(data, next, limit);
            },
            Err(_) => {},
        }
    }
}

/// A stream name takes one byte more than its declared size: after an odd
/// size, that is the pad byte. The name itself ends inside those bytes.
pub proof fn lemma_stream_name_width(data: Seq<u8>, pos: int, limit: int)
    requires
        0 <= pos,
        limit <= data.len(),
        spec_info_chunk(data, pos, limit) matches Ok((InfoChunkView::StreamName(_), _)),
    ensures
        ({
            let (record, next) = spec_info_chunk(data, pos, limit)->Ok_0;
            &&& next == pos + 8 + le_u32(data, pos + 4) + 1
            &&& record->StreamName_0.len() <= le_u32(data, pos + 4)
        }),
{
    reveal(spec_info_chunk);
    lemma_first_nul_bounds(data, pos + 8, pos + 8 + le_u32(data, pos + 4) + 1);
}

/// The first NUL of a range lies in it or at its end, and no byte before it
/// is NUL.
pub proof fn lemma_first_nul_bounds(data: Seq<u8>, from: int, to: int)
    requires
        from <= to,
    ensures
        from <= first_nul(data, from, to) <= to,
        first_nul(data, from, to) < to ==> data[first_nul(data, from, to)] == 0,
        forall|i: int| from <= i < first_nul(data, from, to) ==> data[i] != 0,
    decreases to - from,
{
    if from < to && data[from] != 0 {
        lemma_first_nul_bounds(data, from + 1, to);
    }
}

/// Reads a name up to and including the NUL that ends it.
pub fn read_name(r: &mut SubReader) -> (res: Result<Vec<u8>, AviError>)
    ensures
        final(r).same_window(old(r)),
        match spec_name(old(r).source(), old(r).position(), old(r).limit()) {
            Ok((name, next)) => (res matches Ok(v) && v@ == name) && final(r).position() == next,
            Err(k) => fails(res, k),
        },
{
    let ghost data = r.source();
    let ghost limit = r.limit();
    let from = r.pos();
    let mut name: Vec<u8> = Vec::new();
    assert(name@ =~= data.subrange(from as int, from as int));
    loop
        invariant
            r.same_window(old(r)),
            r.source() == data,
            r.limit() == limit,
            from == old(r).position(),
            from <= r.position() <= limit <= data.len(),
            name@ == data.subrange(from as int, r.position()),
            first_nul(data, from as int, limit) == first_nul(data, r.position(), limit),
        decreases limit - r.position(),
    {
        let at = r.pos();
        let b = r.read_u8()?;
        if b == 0 {
            return Ok(name);
        }
        name.push(b);
        assert(name@ =~= data.subrange(from as int, at + 1));
    }
}

impl InfoChunk {
    /// Reads one record of a stream list.
    pub fn read(r: &mut SubReader) -> (res: Result<InfoChunk, AviError>)
        ensures
            parsed(
                res,
                *final(r),
                *old(r),
                spec_info_chunk(old(r).source(), old(r).position(), old(r).limit()),
            ),
    {
        proof {
            reveal(spec_info_chunk);
        }
        let id = r.read_tag()?;
        let size = r.read_u32()?;
        let len = size as usize;
        if tag_is(&id, 0x73, 0x74, 0x72, 0x68) {
            let mut body = r.take(len)?;
            let header = StreamHeader::read(&mut body)?;
            Ok(InfoChunk::StreamHeader(header))
        } else if tag_is(&id, 0x73, 0x74, 0x72, 0x66) {
            let mut body = r.take(len)?;
            let format = StreamFormat::read(&mut body)?;
            Ok(InfoChunk::StreamFormat(format))
        } else if tag_is(&id, 0x73, 0x74, 0x72, 0x6e) {
            if r.remaining() <= len {
                return Err(AviError::PointerOutOfRange);
            }
            let mut body = r.take(len + 1)?;
            let name = read_name(&mut body)?;
            Ok(InfoChunk::StreamName(name))
        } else {
            r.skip(len)?;
            let text = tag_to_string(&id)?;
            Ok(InfoChunk::Unknown { id: text, size })
        }
    }
}

/// Reads the records of a stream list until the window is used up.
pub fn read_info_chunks(r: &mut SubReader) -> (res: Result<Vec<InfoChunk>, AviError>)
    ensures
        parsed_all(
            res,
            *final(r),
            *old(r),
            spec_info_chunks(old(r).source(), old(r).position(), old(r).limit()),
        ),
{
    let ghost data = r.source();
    let ghost limit = r.limit();
    let from = r.pos();
    let mut records: Vec<InfoChunk> = Vec::new();
    proof {
        match spec_info_chunks(data, from as int, limit) {
            Ok(rest) => {
                assert(views(records@) + rest =~= rest);
            },
            Err(_) => {},
        }
    }
    while r.remaining() > 0
        invariant
            r.same_window(old(r)),
            r.source() == data,
            r.limit() == limit,
            from == old(r).position(),
            r.position() <= limit,
            spec_info_chunks(data, from as int, limit) == match spec_info_chunks(
                data,
                r.position(),
                limit,
            ) {
                Ok(rest) => Ok::<Seq<InfoChunkView>, ErrorKind>(views(records@) + rest),
                Err(k) => Err(k),
            },
        decreases limit - r.position(),
    {
        let ghost at = r.position();
        proof {
            lemma_info_chunk_advances(data, at, limit);
        }
        let record = InfoChunk::read(r)?;
        let ghost before = views(records@);
        records.push(record);
        proof {
            assert(views(records@) =~= before + seq![record@]);
            match spec_info_chunks(data, r.position(), limit) {
                Ok(rest) => {
                    assert((before + seq![record@]) + rest =~= before + (seq![record@] + rest));
                },
                Err(_) => {},
            }
        }
    }
    proof {
        assert(views(records@) + Seq::<InfoChunkView>::empty() =~= views(records@));
    }
    Ok(records)
}

impl ListInfoChunk {
    /// Reads one stream list.
    pub fn read(r: &mut SubReader) -> (res: Result<ListInfoChunk, AviError>)
        ensures
            parsed(
                res,
                *final(r),
                *old(r),
                spec_list_info(old(r).source(), old(r).position(), old(r).limit()),
            ),
    {
        proof {
            reveal(spec_list_info);
        }
        let id_tag = r.read_tag()?;
        let size = r.read_i32()?;
        let kind_tag = r.read_tag()?;
        if size < 4 {
            return Err(AviError::PointerOutOfRange);
        }
        let mut body = r.take((size - 4) as usize)?;
        let id = tag_to_string(&id_tag)?;
        let kind = tag_to_string(&kind_tag)?;
        let header = read_info_chunks(&mut body)?;
        Ok(ListInfoChunk { id, size, kind, header })
    }
}

} // verus!
