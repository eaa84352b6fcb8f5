use avi_rs::{
    read_avi, read_frame, AviError, ChunkType, ErrorKind, IndexEntry, IndexEntryType, InfoChunk,
};

fn le(v: i32) -> [u8; 4] {
    v.to_le_bytes()
}

/// A chunk: tag, size, payload, and a pad byte where the payload is odd.
fn chunk(id: &[u8; 4], payload: &[u8]) -> Vec<u8> {
    let mut out = Vec::new();
    out.extend_from_slice(id);
    out.extend_from_slice(&le(payload.len() as i32));
    out.extend_from_slice(payload);
    if payload.len() % 2 == 1 {
        out.push(0);
    }
    out
}

/// A `LIST` chunk of the given list type.
fn list(kind: &[u8; 4], body: &[u8]) -> Vec<u8> {
    let mut payload = Vec::new();
    payload.extend_from_slice(kind);
    payload.extend_from_slice(body);
    chunk(b"LIST", &payload)
}

/// A record of a stream list: tag, size, payload, no pad byte.
fn record(id: &[u8; 4], payload: &[u8]) -> Vec<u8> {
    let mut out = Vec::new();
    out.extend_from_slice(id);
    out.extend_from_slice(&(payload.len() as u32).to_le_bytes());
    out.extend_from_slice(payload);
    out
}

fn avih(time_between_frames: i32, frames: i32, width: i32, height: i32) -> Vec<u8> {
    let fields = [
        time_between_frames,
        1000,
        2,
        0x10,
        frames,
        0,
        2,
        4096,
        width,
        height,
        1,
        30,
        0,
        frames,
    ];
    let mut out = Vec::new();
    out.extend_from_slice(b"avih");
    out.extend_from_slice(&56u32.to_le_bytes());
    for f in fields {
        out.extend_from_slice(&le(f));
    }
    out
}

fn strh(data_type: &[u8; 4], handler: &[u8; 4]) -> Vec<u8> {
    let mut payload = Vec::new();
    payload.extend_from_slice(data_type);
    payload.extend_from_slice(handler);
    for f in [1, 2, 3, 4, 5, 6, 7, 8, 9, 10] {
        payload.extend_from_slice(&le(f));
    }
    record(b"strh", &payload)
}

fn strf(width: i32, height: i32, compression: &[u8; 4]) -> Vec<u8> {
    let mut payload = Vec::new();
    payload.extend_from_slice(&le(40));
    payload.extend_from_slice(&le(width));
    payload.extend_from_slice(&le(height));
    payload.extend_from_slice(&1u16.to_le_bytes());
    payload.extend_from_slice(&24u16.to_le_bytes());
    payload.extend_from_slice(compression);
    for f in [width * height * 3, 11, 12, 13, 14] {
        payload.extend_from_slice(&le(f));
    }
    record(b"strf", &payload)
}

/// A `strn` record of the declared size `text.len() + 1`: the text, the NUL
/// that ends it, and the one byte more that such a record takes.
fn strn(text: &[u8]) -> Vec<u8> {
    let mut out = Vec::new();
    out.extend_from_slice(b"strn");
    out.extend_from_slice(&(text.len() as u32 + 1).to_le_bytes());
    out.extend_from_slice(text);
    out.push(0);
    out.push(0xaa);
    out
}

/// A stream list: `LIST`, size, `strl`, records. No pad byte.
fn strl(records: &[Vec<u8>]) -> Vec<u8> {
    let mut body = Vec::new();
    for r in records {
        body.extend_from_slice(r);
    }
    let mut out = Vec::new();
    out.extend_from_slice(b"LIST");
    out.extend_from_slice(&le(body.len() as i32 + 4));
    out.extend_from_slice(b"strl");
    out.extend_from_slice(&body);
    out
}

fn hdrl(header: &[u8], lists: &[Vec<u8>]) -> Vec<u8> {
    let mut body = Vec::new();
    body.extend_from_slice(header);
    for l in lists {
        body.extend_from_slice(l);
    }
    list(b"hdrl", &body)
}

fn riff(chunks: &[Vec<u8>]) -> Vec<u8> {
    let mut body = Vec::new();
    for c in chunks {
        body.extend_from_slice(c);
    }
    let mut out = Vec::new();
    out.extend_from_slice(b"RIFF");
    out.extend_from_slice(&le(body.len() as i32 + 4));
    out.extend_from_slice(b"AVI ");
    out.extend_from_slice(&body);
    out
}

fn index_entry(code: &[u8; 4], flags: i32, offset: i32, length: i32) -> Vec<u8> {
    let mut out = Vec::new();
    out.extend_from_slice(code);
    out.extend_from_slice(&le(flags));
    out.extend_from_slice(&le(offset));
    out.extend_from_slice(&le(length));
    out
}

/// The movie data with the given samples, and for each sample its offset as
/// the index table counts it: from the list type `movi` to the sample's
/// record.
fn movi(samples: &[(&[u8; 4], Vec<u8>)]) -> (Vec<u8>, Vec<i32>) {
    let mut body = Vec::new();
    let mut offsets = Vec::new();
    for (code, bytes) in samples {
        offsets.push(body.len() as i32 + 4);
        body.extend_from_slice(&chunk(code, bytes));
    }
    (list(b"movi", &body), offsets)
}

fn standard_header() -> Vec<u8> {
    hdrl(
        &avih(33333, 3, 320, 240),
        &[
            strl(&[strh(b"vids", b"MJPG"), strf(320, 240, b"MJPG")]),
            strl(&[strh(b"auds", b"\0\0\0\0"), record(b"JUNK", &[1, 2, 3, 4])]),
        ],
    )
}

/// A well-formed file with the given samples and one index entry for each.
fn file_with(samples: &[(&[u8; 4], Vec<u8>)]) -> Vec<u8> {
    let (movie, offsets) = movi(samples);
    let mut table = Vec::new();
    for (i, (code, bytes)) in samples.iter().enumerate() {
        table.extend_from_slice(&index_entry(code, 0x10, offsets[i], bytes.len() as i32));
    }
    riff(&[standard_header(), movie, chunk(b"idx1", &table)])
}

fn kind_of<T: std::fmt::Debug>(res: Result<T, AviError>) -> ErrorKind {
    res.unwrap_err().kind()
}

#[test]
fn empty_buffer_is_not_riff() {
    assert_eq!(kind_of(read_avi(&[])), ErrorKind::NotRiff);
}

#[test]
fn short_buffer_is_not_riff() {
    assert_eq!(kind_of(read_avi(b"RIF")), ErrorKind::NotRiff);
}

#[test]
fn other_tag_is_not_riff() {
    let mut data = file_with(&[(b"00dc", vec![1, 2, 3])]);
    data[0] = b'X';
    assert!(matches!(read_avi(&data), Err(AviError::NotRiff)));
    assert_eq!(kind_of(read_avi(b"RIFXsomething else")), ErrorKind::NotRiff);
    assert_eq!(kind_of(read_avi(b"AVI RIFF")), ErrorKind::NotRiff);
}

#[test]
fn other_form_type_is_not_avi() {
    let mut data = file_with(&[(b"00dc", vec![1, 2, 3])]);
    data[8..12].copy_from_slice(b"WAVE");
    assert!(matches!(read_avi(&data), Err(AviError::NotAvi)));
}

#[test]
fn missing_form_type_is_not_avi() {
    assert_eq!(kind_of(read_avi(b"RIFF")), ErrorKind::NotAvi);
    assert_eq!(kind_of(read_avi(b"RIFF\x04\0\0\0")), ErrorKind::NotAvi);
    assert_eq!(kind_of(read_avi(b"RIFF\x04\0\0\0AVI")), ErrorKind::NotAvi);
}

#[test]
fn bare_envelope_parses() {
    let (avi, frames) = read_avi(b"RIFF\x04\0\0\0AVI ").unwrap();
    assert_eq!(avi.id, "RIFF");
    assert_eq!(avi.size, 4);
    assert_eq!(avi.kind, "AVI ");
    assert!(avi.chunks.is_empty());
    assert!(frames.is_empty());
    assert!(avi.avi_header().is_none());
    assert!(avi.stream_format_vid().is_none());
    assert!(avi.index_entries().is_none());
    assert_eq!(avi.movi_offset(), 0);
}

#[test]
fn envelope_size_below_four_is_out_of_range() {
    assert_eq!(kind_of(read_avi(b"RIFF\x03\0\0\0AVI ")), ErrorKind::PointerOutOfRange);
    assert_eq!(kind_of(read_avi(b"RIFF\xff\xff\xff\xffAVI ")), ErrorKind::PointerOutOfRange);
}

#[test]
fn envelope_beyond_buffer_is_out_of_range() {
    assert_eq!(kind_of(read_avi(b"RIFF\x05\0\0\0AVI ")), ErrorKind::PointerOutOfRange);
    let mut data = file_with(&[(b"00dc", vec![1, 2, 3])]);
    data.pop();
    assert_eq!(kind_of(read_avi(&data)), ErrorKind::PointerOutOfRange);
}

#[test]
fn bytes_after_the_envelope_are_ignored() {
    let mut data = file_with(&[(b"00dc", vec![1, 2, 3])]);
    data.extend_from_slice(b"trailing");
    let (avi, frames) = read_avi(&data).unwrap();
    assert_eq!(avi.chunks.len(), 3);
    assert_eq!(frames.len(), 1);
}

#[test]
fn well_formed_container_gives_one_frame_per_entry() {
    let samples: Vec<(&[u8; 4], Vec<u8>)> = vec![
        (b"00dc", vec![0xff, 0xd8, 1, 2, 3, 0xff, 0xd9]),
        (b"01wb", vec![9, 8, 7, 6]),
        (b"00dc", vec![]),
        (b"00db", vec![42; 33]),
    ];
    let data = file_with(&samples);
    let (avi, frames) = read_avi(&data).unwrap();
    assert_eq!(frames.len(), 4);
    for (i, (_, bytes)) in samples.iter().enumerate() {
        assert_eq!(&frames[i].0, bytes);
    }
    assert_eq!(avi.id, "RIFF");
    assert_eq!(avi.kind, "AVI ");
    assert_eq!(avi.size as usize, data.len() - 8);
    assert_eq!(avi.chunks.len(), 3);
    assert_eq!(avi.chunks[0].offset, 12);
    assert_eq!(avi.chunks[0].id, "LIST");
    assert!(matches!(avi.chunks[0].kind, ChunkType::Hdrl { .. }));
    assert_eq!(avi.chunks[1].id, "LIST");
    assert_eq!(avi.chunks[1].kind, ChunkType::Movi);
    assert_eq!(avi.chunks[2].id, "idx1");
    assert_eq!(avi.chunks[2].size, 64);
    assert_eq!(avi.movi_offset(), avi.chunks[1].offset);
    let entries = avi.index_entries().unwrap();
    assert_eq!(entries.len(), 4);
    assert_eq!(
        entries[1],
        IndexEntry {
            stream_num: 1,
            kind: IndexEntryType::AudioData,
            dw_flags: 0x10,
            dw_chunk_offset: 4 + 8 + 7 + 1,
            dw_chunk_length: 4,
        }
    );
    assert_eq!(entries[0].kind, IndexEntryType::CompressedVideoFrame);
    assert_eq!(entries[3].kind, IndexEntryType::UncompressedVideoFrame);
}

#[test]
fn header_fields_come_out_as_written() {
    let data = file_with(&[(b"00dc", vec![1])]);
    let (avi, _) = read_avi(&data).unwrap();
    let header = avi.avi_header().unwrap();
    assert_eq!(header.size, 56);
    assert_eq!(header.time_between_frames, 33333);
    assert_eq!(header.maxium_data_rate, 1000);
    assert_eq!(header.padding_granularity, 2);
    assert_eq!(header.flags, 0x10);
    assert_eq!(header.total_number_of_frames, 3);
    assert_eq!(header.number_of_initial_frames, 0);
    assert_eq!(header.number_of_streams, 2);
    assert_eq!(header.suggested_buffer_size, 4096);
    assert_eq!(header.width, 320);
    assert_eq!(header.height, 240);
    assert_eq!(header.time_scale, 1);
    assert_eq!(header.data_rate, 30);
    assert_eq!(header.start_time, 0);
    assert_eq!(header.data_length, 3);
}

#[test]
fn time_between_frames_round_trips() {
    let mut header = avih(0, 1, 2, 2);
    header[8..12].copy_from_slice(&[0x35, 0x82, 0x00, 0x00]);
    let data = riff(&[hdrl(&header, &[strl(&[]), strl(&[])])]);
    let (avi, _) = read_avi(&data).unwrap();
    assert_eq!(avi.avi_header().unwrap().time_between_frames, 33333);
    for value in [0, 1, -1, 33333, 41667, i32::MAX, i32::MIN, -33333] {
        let data = riff(&[hdrl(&avih(value, 1, 2, 2), &[strl(&[]), strl(&[])])]);
        let (avi, _) = read_avi(&data).unwrap();
        assert_eq!(avi.avi_header().unwrap().time_between_frames, value);
    }
}

#[test]
fn stream_records_come_out_as_written() {
    let data = file_with(&[(b"00dc", vec![1])]);
    let (avi, _) = read_avi(&data).unwrap();
    let format = avi.stream_format_vid().unwrap();
    assert_eq!(format.header_size, 40);
    assert_eq!(format.image_width, 320);
    assert_eq!(format.image_height, 240);
    assert_eq!(format.number_of_planes, 1);
    assert_eq!(format.bits_per_pixel, 24);
    assert_eq!(format.compression_type, "MJPG");
    assert_eq!(format.image_size_in_bytes, 320 * 240 * 3);
    assert_eq!(format.x_pels_per_meter, 11);
    assert_eq!(format.y_pels_per_meter, 12);
    assert_eq!(format.colors_used, 13);
    assert_eq!(format.colors_important, 14);
    let ChunkType::Hdrl { chunks, .. } = &avi.chunks[0].kind else {
        panic!("the first chunk is the header list");
    };
    assert_eq!(chunks.len(), 2);
    assert_eq!(chunks[0].id, "LIST");
    assert_eq!(chunks[0].kind, "strl");
    assert_eq!(chunks[0].size, 4 + 56 + 48);
    let InfoChunk::StreamHeader(video) = &chunks[0].header[0] else {
        panic!("the first record is the stream header");
    };
    assert_eq!(video.data_type, "vids");
    assert_eq!(video.data_handler, "MJPG");
    assert_eq!(video.flags, 1);
    assert_eq!(video.priority, 2);
    assert_eq!(video.initial_frames, 3);
    assert_eq!(video.time_scale, 4);
    assert_eq!(video.data_rate, 5);
    assert_eq!(video.start_time, 6);
    assert_eq!(video.data_length, 7);
    assert_eq!(video.suggested_buffer_size, 8);
    assert_eq!(video.quality, 9);
    assert_eq!(video.sample_size, 10);
    assert_eq!(
        chunks[1].header[1],
        InfoChunk::Unknown { id: String::from("JUNK"), size: 4 }
    );
}

#[test]
fn video_format_is_the_first_format_in_file_order() {
    let data = riff(&[
        chunk(b"JUNK", &[0; 6]),
        hdrl(
            &avih(1, 1, 1, 1),
            &[
                strl(&[strh(b"auds", b"\0\0\0\0")]),
                strl(&[strn(b"audio"), strf(8, 9, b"h264"), strf(1, 1, b"MJPG")]),
            ],
        ),
        hdrl(&avih(2, 2, 2, 2), &[strl(&[strf(3, 3, b"XVID")]), strl(&[])]),
    ]);
    let (avi, frames) = read_avi(&data).unwrap();
    assert!(frames.is_empty());
    let format = avi.stream_format_vid().unwrap();
    assert_eq!(format.image_width, 8);
    assert_eq!(format.image_height, 9);
    assert_eq!(format.compression_type, "h264");
    assert_eq!(avi.avi_header().unwrap().time_between_frames, 1);
}

#[test]
fn chunk_beyond_buffer_is_out_of_range() {
    let mut last = chunk(b"JUNK", &[0; 8]);
    last[4..8].copy_from_slice(&le(9));
    let data = riff(&[standard_header(), last]);
    assert!(matches!(read_avi(&data), Err(AviError::PointerOutOfRange)));
    let mut first = chunk(b"JUNK", &[0; 8]);
    first[4..8].copy_from_slice(&le(1_000_000));
    let data = riff(&[first, standard_header()]);
    assert_eq!(kind_of(read_avi(&data)), ErrorKind::PointerOutOfRange);
}

#[test]
fn chunk_with_negative_size_is_out_of_range() {
    let mut bad = chunk(b"JUNK", &[0; 8]);
    bad[4..8].copy_from_slice(&le(-2));
    let data = riff(&[bad]);
    assert_eq!(kind_of(read_avi(&data)), ErrorKind::PointerOutOfRange);
}

#[test]
fn truncated_chunk_header_is_out_of_range() {
    let mut data = riff(&[chunk(b"JUNK", &[0; 4])]);
    data.extend_from_slice(b"JUN");
    let size = data.len() as i32 - 8;
    data[4..8].copy_from_slice(&le(size));
    assert_eq!(kind_of(read_avi(&data)), ErrorKind::PointerOutOfRange);
}

#[test]
fn missing_pad_byte_is_out_of_range() {
    let mut data = riff(&[chunk(b"JUNK", &[1, 2, 3])]);
    data.pop();
    let size = data.len() as i32 - 8;
    data[4..8].copy_from_slice(&le(size));
    assert_eq!(kind_of(read_avi(&data)), ErrorKind::PointerOutOfRange);
}

#[test]
fn index_entry_beyond_buffer_is_out_of_range() {
    let (movie, offsets) = movi(&[(b"00dc", vec![1, 2, 3, 4])]);
    let mut table = index_entry(b"00dc", 0, offsets[0], 4);
    table.extend_from_slice(&index_entry(b"00dc", 0, offsets[0], 100_000));
    let data = riff(&[standard_header(), movie.clone(), chunk(b"idx1", &table)]);
    assert!(matches!(read_avi(&data), Err(AviError::PointerOutOfRange)));

    let table = index_entry(b"00dc", 0, i32::MAX, 1);
    let data = riff(&[standard_header(), movie.clone(), chunk(b"idx1", &table)]);
    assert_eq!(kind_of(read_avi(&data)), ErrorKind::PointerOutOfRange);

    let table = index_entry(b"00dc", 0, offsets[0], -1);
    let data = riff(&[standard_header(), movie.clone(), chunk(b"idx1", &table)]);
    assert_eq!(kind_of(read_avi(&data)), ErrorKind::PointerOutOfRange);

    let table = index_entry(b"00dc", 0, -1_000_000, 1);
    let data = riff(&[standard_header(), movie, chunk(b"idx1", &table)]);
    assert_eq!(kind_of(read_avi(&data)), ErrorKind::PointerOutOfRange);
}

#[test]
fn frame_may_end_with_the_buffer() {
    let (movie, _) = movi(&[(b"00dc", vec![1, 2, 3, 4])]);
    let head = riff(&[standard_header(), movie.clone()]);
    let movi_at = (head.len() - movie.len()) as i32;
    let table_at = head.len() as i32;
    let total = table_at + 8 + 16;
    let length = 5;
    let table = index_entry(b"00dc", 0, total - length - 16 - movi_at, length);
    let data = riff(&[standard_header(), movie.clone(), chunk(b"idx1", &table)]);
    assert_eq!(data.len() as i32, total);
    let (_, frames) = read_avi(&data).unwrap();
    assert_eq!(frames[0].0, data[data.len() - 5..].to_vec());
    let table = index_entry(b"00dc", 0, total - length - 16 - movi_at + 1, length);
    let data = riff(&[standard_header(), movie, chunk(b"idx1", &table)]);
    assert_eq!(kind_of(read_avi(&data)), ErrorKind::PointerOutOfRange);
}

#[test]
fn no_index_table_gives_no_frames() {
    let (movie, _) = movi(&[(b"00dc", vec![1, 2, 3, 4])]);
    let data = riff(&[standard_header(), movie]);
    let (avi, frames) = read_avi(&data).unwrap();
    assert!(frames.is_empty());
    assert_eq!(avi.chunks.len(), 2);
    assert!(avi.index_entries().is_none());
    assert!(avi.avi_header().is_some());
}

#[test]
fn no_movie_data_counts_offsets_from_zero() {
    let table = index_entry(b"00dc", 0, -16, 4);
    let data = riff(&[chunk(b"idx1", &table)]);
    let (avi, frames) = read_avi(&data).unwrap();
    assert_eq!(avi.movi_offset(), 0);
    assert_eq!(frames.len(), 1);
    assert_eq!(frames[0].0, b"RIFF".to_vec());
}

#[test]
fn first_movie_data_and_first_index_table_count() {
    let (movie_a, offsets) = movi(&[(b"00dc", vec![1, 1, 1, 1])]);
    let (movie_b, _) = movi(&[(b"00dc", vec![2, 2, 2, 2])]);
    let table_a = index_entry(b"00dc", 0, offsets[0], 4);
    let mut table_b = index_entry(b"00dc", 0, offsets[0], 2);
    table_b.extend_from_slice(&index_entry(b"00dc", 0, offsets[0], 1));
    let data = riff(&[movie_a, movie_b, chunk(b"idx1", &table_a), chunk(b"idx1", &table_b)]);
    let (avi, frames) = read_avi(&data).unwrap();
    assert_eq!(avi.movi_offset(), 12);
    assert_eq!(frames.len(), 1);
    assert_eq!(frames[0].0, vec![1, 1, 1, 1]);
}

#[test]
fn odd_stream_name_is_followed_by_one_pad_byte() {
    let name = strn(b"Cam1");
    assert_eq!(&name[4..8], &5u32.to_le_bytes());
    assert_eq!(name.len(), 8 + 5 + 1);
    let data = riff(&[hdrl(
        &avih(33333, 1, 4, 4),
        &[
            strl(&[strh(b"vids", b"MJPG"), name, strf(4, 4, b"MJPG")]),
            strl(&[]),
        ],
    )]);
    let (avi, _) = read_avi(&data).unwrap();
    let ChunkType::Hdrl { chunks, .. } = &avi.chunks[0].kind else {
        panic!("the first chunk is the header list");
    };
    assert_eq!(chunks[0].header.len(), 3);
    assert_eq!(chunks[0].header[1], InfoChunk::StreamName(b"Cam1".to_vec()));
    assert!(matches!(chunks[0].header[2], InfoChunk::StreamFormat(_)));
    assert_eq!(avi.stream_format_vid().unwrap().image_width, 4);
}

#[test]
fn stream_name_ends_at_its_first_nul() {
    let mut name = record(b"strn", b"ab\0cd\0");
    name.push(0);
    let data = riff(&[hdrl(&avih(1, 1, 1, 1), &[strl(&[name]), strl(&[])])]);
    let (avi, _) = read_avi(&data).unwrap();
    let ChunkType::Hdrl { chunks, .. } = &avi.chunks[0].kind else {
        panic!("the first chunk is the header list");
    };
    assert_eq!(chunks[0].header, vec![InfoChunk::StreamName(b"ab".to_vec())]);
}

#[test]
fn stream_name_without_nul_is_out_of_range() {
    let mut name = record(b"strn", b"abcd");
    name.push(b'e');
    let data = riff(&[hdrl(&avih(1, 1, 1, 1), &[strl(&[name]), strl(&[])])]);
    assert_eq!(kind_of(read_avi(&data)), ErrorKind::PointerOutOfRange);
}

#[test]
fn stream_name_without_its_extra_byte_is_out_of_range() {
    let name = record(b"strn", b"abc\0");
    let data = riff(&[hdrl(&avih(1, 1, 1, 1), &[strl(&[name]), strl(&[])])]);
    assert_eq!(kind_of(read_avi(&data)), ErrorKind::PointerOutOfRange);
}

#[test]
fn odd_chunk_is_followed_by_one_pad_byte() {
    let odd = chunk(b"JUNK", &[7, 7, 7]);
    assert_eq!(odd.len(), 8 + 3 + 1);
    let even = chunk(b"JUNQ", &[7, 7]);
    assert_eq!(even.len(), 8 + 2);
    let table = index_entry(b"07pc", 1, -16, 12);
    let data = riff(&[odd, even, chunk(b"idx1", &table)]);
    let (avi, frames) = read_avi(&data).unwrap();
    assert_eq!(avi.chunks.len(), 3);
    assert_eq!(avi.chunks[0].offset, 12);
    assert_eq!(avi.chunks[0].size, 3);
    assert_eq!(avi.chunks[0].kind, ChunkType::Unknown);
    assert_eq!(avi.chunks[1].offset, 24);
    assert_eq!(avi.chunks[1].id, "JUNQ");
    assert_eq!(avi.chunks[2].offset, 34);
    assert_eq!(avi.chunks[2].id, "idx1");
    assert_eq!(data.len(), 12 + 12 + 10 + 24);
    assert_eq!(frames[0].0, b"RIFF\x32\0\0\0AVI ".to_vec());
}

#[test]
fn chunk_kinds_follow_list_type_and_tag() {
    let data = riff(&[
        list(b"INFO", b"ISFT\x04\0\0\0abc\0"),
        list(b"movi", &[]),
        list(b"rec ", &[1, 2]),
        chunk(b"idx1", &[]),
        chunk(b"idx1", b"movi"),
        chunk(b"hdrl", &[]),
        chunk(b"LIST", b"hdr"),
    ]);
    let (avi, _) = read_avi(&data).unwrap();
    let kinds: Vec<&ChunkType> = avi.chunks.iter().map(|c| &c.kind).collect();
    assert_eq!(kinds[0], &ChunkType::Info);
    assert_eq!(kinds[1], &ChunkType::Movi);
    assert_eq!(kinds[2], &ChunkType::Unknown);
    assert_eq!(kinds[3], &ChunkType::Idx1 { index_entries: vec![] });
    assert_eq!(kinds[4], &ChunkType::Movi);
    assert_eq!(kinds[5], &ChunkType::Unknown);
    assert_eq!(kinds[6], &ChunkType::Unknown);
}

#[test]
fn index_table_holds_one_entry_per_full_sixteen_bytes() {
    let mut table = index_entry(b"00dc", 0, -16, 1);
    table.extend_from_slice(&index_entry(b"01wb", 0, -15, 1));
    table.extend_from_slice(&[1, 2, 3, 4, 5, 6, 7, 8, 9, 10]);
    let data = riff(&[chunk(b"idx1", &table), chunk(b"JUNK", &[])]);
    let (avi, frames) = read_avi(&data).unwrap();
    assert_eq!(avi.chunks.len(), 2);
    assert_eq!(avi.chunks[0].size, 42);
    assert_eq!(avi.index_entries().unwrap().len(), 2);
    assert_eq!(frames.len(), 2);
    assert_eq!(frames[0].0, vec![b'R']);
    assert_eq!(frames[1].0, vec![b'I']);
}

#[test]
fn header_list_without_main_header_is_not_avi() {
    let data = riff(&[list(b"hdrl", &[0; 80])]);
    assert_eq!(kind_of(read_avi(&data)), ErrorKind::NotAvi);
}

#[test]
fn header_list_cut_short_is_out_of_range() {
    let data = riff(&[list(b"hdrl", b"av")]);
    assert_eq!(kind_of(read_avi(&data)), ErrorKind::PointerOutOfRange);
    let data = riff(&[list(b"hdrl", &avih(1, 1, 1, 1)[..60])]);
    assert_eq!(kind_of(read_avi(&data)), ErrorKind::PointerOutOfRange);
    let data = riff(&[hdrl(&avih(1, 1, 1, 1), &[strl(&[])])]);
    assert_eq!(kind_of(read_avi(&data)), ErrorKind::PointerOutOfRange);
}

#[test]
fn header_list_skips_what_follows_its_two_lists() {
    let data = riff(&[
        hdrl(&avih(1, 1, 1, 1), &[strl(&[]), strl(&[]), strl(&[strf(5, 5, b"MJPG")])]),
        chunk(b"JUNK", &[]),
    ]);
    let (avi, _) = read_avi(&data).unwrap();
    assert_eq!(avi.chunks.len(), 2);
    let ChunkType::Hdrl { chunks, .. } = &avi.chunks[0].kind else {
        panic!("the first chunk is the header list");
    };
    assert_eq!(chunks.len(), 2);
    assert!(avi.stream_format_vid().is_none());
}

#[test]
fn stream_list_reaching_past_its_chunk_is_out_of_range() {
    let mut long = strl(&[strh(b"vids", b"MJPG")]);
    let declared = long.len() as i32 - 8 + 2;
    long[4..8].copy_from_slice(&le(declared));
    let data = riff(&[hdrl(&avih(1, 1, 1, 1), &[strl(&[]), long])]);
    assert_eq!(kind_of(read_avi(&data)), ErrorKind::PointerOutOfRange);
    let mut tiny = strl(&[]);
    tiny[4..8].copy_from_slice(&le(3));
    let data = riff(&[hdrl(&avih(1, 1, 1, 1), &[tiny, strl(&[])])]);
    assert_eq!(kind_of(read_avi(&data)), ErrorKind::PointerOutOfRange);
}

#[test]
fn record_shorter_than_its_fields_is_out_of_range() {
    let short_format = record(b"strf", &[0; 18]);
    let data = riff(&[hdrl(&avih(1, 1, 1, 1), &[strl(&[short_format]), strl(&[])])]);
    assert_eq!(kind_of(read_avi(&data)), ErrorKind::PointerOutOfRange);
    let short_header = record(b"strh", &[0x41; 47]);
    let data = riff(&[hdrl(&avih(1, 1, 1, 1), &[strl(&[short_header]), strl(&[])])]);
    assert_eq!(kind_of(read_avi(&data)), ErrorKind::PointerOutOfRange);
}

#[test]
fn record_longer_than_its_fields_is_skipped_to_its_end() {
    let mut long_format = strf(6, 7, b"MJPG");
    long_format.extend_from_slice(&[0xee; 10]);
    long_format[4..8].copy_from_slice(&50u32.to_le_bytes());
    let data = riff(&[hdrl(
        &avih(1, 1, 1, 1),
        &[strl(&[long_format, strh(b"vids", b"MJPG")]), strl(&[])],
    )]);
    let (avi, _) = read_avi(&data).unwrap();
    let ChunkType::Hdrl { chunks, .. } = &avi.chunks[0].kind else {
        panic!("the first chunk is the header list");
    };
    assert_eq!(chunks[0].header.len(), 2);
    assert!(matches!(chunks[0].header[1], InfoChunk::StreamHeader(_)));
    assert_eq!(avi.stream_format_vid().unwrap().image_height, 7);
}

#[test]
fn record_reaching_past_its_list_is_out_of_range() {
    let mut junk = record(b"JUNK", &[0; 4]);
    junk[4..8].copy_from_slice(&5u32.to_le_bytes());
    let data = riff(&[hdrl(&avih(1, 1, 1, 1), &[strl(&[junk]), strl(&[])])]);
    assert_eq!(kind_of(read_avi(&data)), ErrorKind::PointerOutOfRange);
    let mut list = strl(&[]);
    list.extend_from_slice(b"str");
    let declared = list.len() as i32 - 8;
    list[4..8].copy_from_slice(&le(declared));
    let data = riff(&[hdrl(&avih(1, 1, 1, 1), &[list, strl(&[])])]);
    assert_eq!(kind_of(read_avi(&data)), ErrorKind::PointerOutOfRange);
}

#[test]
fn tag_that_is_no_text_is_a_string_error() {
    let data = riff(&[chunk(&[0xff, 0xfe, 0x00, 0x01], &[])]);
    assert!(matches!(read_avi(&data), Err(AviError::String(_))));
    let data = riff(&[hdrl(
        &avih(1, 1, 1, 1),
        &[strl(&[strf(1, 1, &[0xc3, 0x28, 0x41, 0x41])]), strl(&[])],
    )]);
    assert_eq!(kind_of(read_avi(&data)), ErrorKind::String);
    let data = riff(&[hdrl(
        &avih(1, 1, 1, 1),
        &[strl(&[strh(b"vids", &[0x80, 0x80, 0x80, 0x80])]), strl(&[])],
    )]);
    assert_eq!(kind_of(read_avi(&data)), ErrorKind::String);
    let data = riff(&[hdrl(
        &avih(1, 1, 1, 1),
        &[strl(&[record(&[0xf8, 0x41, 0x41, 0x41], &[])]), strl(&[])],
    )]);
    assert_eq!(kind_of(read_avi(&data)), ErrorKind::String);
}

#[test]
fn out_of_range_comes_before_a_tag_that_is_no_text() {
    let mut bad = chunk(&[0xff, 0xff, 0xff, 0xff], &[0; 4]);
    bad[4..8].copy_from_slice(&le(5));
    let data = riff(&[bad]);
    assert_eq!(kind_of(read_avi(&data)), ErrorKind::PointerOutOfRange);
}

#[test]
fn tag_of_other_than_ascii_text_is_kept() {
    let data = riff(&[chunk("né€".as_bytes()[..4].try_into().unwrap(), &[])]);
    assert_eq!(kind_of(read_avi(&data)), ErrorKind::String);
    let data = riff(&[chunk("néé".as_bytes()[1..5].try_into().unwrap(), &[])]);
    let (avi, _) = read_avi(&data).unwrap();
    assert_eq!(avi.chunks[0].id, "éé");
    assert_eq!(avi.chunks[0].id.chars().count(), 2);
}

#[test]
fn read_frame_copies_the_indexed_bytes() {
    let data: Vec<u8> = (0u8..64).collect();
    let entry = IndexEntry {
        stream_num: 0,
        kind: IndexEntryType::CompressedVideoFrame,
        dw_flags: 0,
        dw_chunk_offset: 4,
        dw_chunk_length: 6,
    };
    let frame = read_frame(&data, &entry, 10).unwrap();
    assert_eq!(frame.0, vec![30, 31, 32, 33, 34, 35]);
    let empty = IndexEntry { dw_chunk_offset: 38, dw_chunk_length: 0, ..entry };
    assert_eq!(read_frame(&data, &empty, 10).unwrap().0, Vec::<u8>::new());
    let last = IndexEntry { dw_chunk_offset: 37, dw_chunk_length: 1, ..entry };
    assert_eq!(read_frame(&data, &last, 10).unwrap().0, vec![63]);
    let back = IndexEntry { dw_chunk_offset: -26, dw_chunk_length: 2, ..entry };
    assert_eq!(read_frame(&data, &back, 10).unwrap().0, vec![0, 1]);
}

#[test]
fn read_frame_refuses_what_lies_outside() {
    let data: Vec<u8> = (0u8..64).collect();
    let entry = IndexEntry {
        stream_num: 0,
        kind: IndexEntryType::CompressedVideoFrame,
        dw_flags: 0,
        dw_chunk_offset: 37,
        dw_chunk_length: 2,
    };
    assert_eq!(kind_of(read_frame(&data, &entry, 10)), ErrorKind::PointerOutOfRange);
    let before = IndexEntry { dw_chunk_offset: -27, dw_chunk_length: 1, ..entry };
    assert_eq!(kind_of(read_frame(&data, &before, 10)), ErrorKind::PointerOutOfRange);
    let negative = IndexEntry { dw_chunk_offset: 0, dw_chunk_length: -1, ..entry };
    assert_eq!(kind_of(read_frame(&data, &negative, 10)), ErrorKind::PointerOutOfRange);
    let past = IndexEntry { dw_chunk_offset: 39, dw_chunk_length: 0, ..entry };
    assert_eq!(kind_of(read_frame(&data, &past, 10)), ErrorKind::PointerOutOfRange);
    let far = IndexEntry { dw_chunk_offset: i32::MAX, dw_chunk_length: i32::MAX, ..entry };
    assert_eq!(kind_of(read_frame(&data, &far, u64::MAX)), ErrorKind::PointerOutOfRange);
    assert_eq!(kind_of(read_frame(&[], &entry, 0)), ErrorKind::PointerOutOfRange);
}
