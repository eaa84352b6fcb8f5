use avi_rs::index::{decode_stream_number, read_index_entries};
use avi_rs::reader::SubReader;
use avi_rs::{AviError, IndexEntry, IndexEntryType};

#[test]
fn type_bytes_map_to_their_kind() {
    assert_eq!(IndexEntryType::from(b"db"), IndexEntryType::UncompressedVideoFrame);
    assert_eq!(IndexEntryType::from(b"dc"), IndexEntryType::CompressedVideoFrame);
    assert_eq!(IndexEntryType::from(b"pc"), IndexEntryType::PaletteChange);
    assert_eq!(IndexEntryType::from(b"wb"), IndexEntryType::AudioData);
}

#[test]
fn every_other_pair_of_type_bytes_is_unspecified() {
    let known = [*b"db", *b"dc", *b"pc", *b"wb"];
    for b0 in 0u8..=255 {
        for b1 in 0u8..=255 {
            let pair = [b0, b1];
            let kind = IndexEntryType::from(&pair);
            if known.contains(&pair) {
                assert_ne!(kind, IndexEntryType::Unspecified);
            } else {
                assert_eq!(kind, IndexEntryType::Unspecified);
            }
            assert_ne!(kind, IndexEntryType::VideoData);
        }
    }
    assert_eq!(IndexEntryType::from(b"DB"), IndexEntryType::Unspecified);
    assert_eq!(IndexEntryType::from(b"bd"), IndexEntryType::Unspecified);
    assert_eq!(IndexEntryType::from(b"\0\0"), IndexEntryType::Unspecified);
}

#[test]
fn two_digits_give_their_number() {
    for n in 0u8..100 {
        let text = format!("{:02}", n);
        let digits = text.as_bytes();
        assert_eq!(decode_stream_number(digits[0], digits[1]), n);
    }
    assert_eq!(decode_stream_number(b'0', b'0'), 0);
    assert_eq!(decode_stream_number(b'9', b'9'), 99);
    assert_eq!(decode_stream_number(b'4', b'2'), 42);
}

#[test]
fn bytes_that_are_no_digits_wrap() {
    assert_eq!(decode_stream_number(b'i', b'x'), 130);
    assert_eq!(decode_stream_number(0, 0), 240);
    assert_eq!(decode_stream_number(b'0', b'/'), 255);
    assert_eq!(decode_stream_number(255, 255), 229);
    for b0 in 0u8..=255 {
        for b1 in 0u8..=255 {
            let expected =
                b0.wrapping_sub(b'0').wrapping_mul(10).wrapping_add(b1.wrapping_sub(b'0'));
            assert_eq!(decode_stream_number(b0, b1), expected);
        }
    }
}

#[test]
fn index_entry_is_read_field_by_field() {
    let mut data = b"17wb".to_vec();
    data.extend_from_slice(&0x10i32.to_le_bytes());
    data.extend_from_slice(&(-5i32).to_le_bytes());
    data.extend_from_slice(&123456i32.to_le_bytes());
    data.push(0xee);
    let mut r = SubReader::new(&data);
    let entry = IndexEntry::read(&mut r).unwrap();
    assert_eq!(
        entry,
        IndexEntry {
            stream_num: 17,
            kind: IndexEntryType::AudioData,
            dw_flags: 0x10,
            dw_chunk_offset: -5,
            dw_chunk_length: 123456,
        }
    );
    assert_eq!(r.pos(), 16);
    assert!(matches!(IndexEntry::read(&mut r), Err(AviError::PointerOutOfRange)));
}

#[test]
fn index_entries_keep_file_order() {
    let mut data = vec![0xaa, 0xbb];
    for (i, code) in [b"00dc", b"01wb", b"00pc", b"02db", b"99zz"].iter().enumerate() {
        data.extend_from_slice(*code);
        data.extend_from_slice(&(i as i32).to_le_bytes());
        data.extend_from_slice(&(100 * i as i32).to_le_bytes());
        data.extend_from_slice(&(7 + i as i32).to_le_bytes());
    }
    let mut r = SubReader::new(&data);
    r.skip(2).unwrap();
    let entries = read_index_entries(&mut r, 5).unwrap();
    assert_eq!(r.remaining(), 0);
    assert_eq!(entries.len(), 5);
    let kinds: Vec<IndexEntryType> = entries.iter().map(|e| e.kind).collect();
    assert_eq!(
        kinds,
        vec![
            IndexEntryType::CompressedVideoFrame,
            IndexEntryType::AudioData,
            IndexEntryType::PaletteChange,
            IndexEntryType::UncompressedVideoFrame,
            IndexEntryType::Unspecified,
        ]
    );
    let streams: Vec<u8> = entries.iter().map(|e| e.stream_num).collect();
    assert_eq!(streams, vec![0, 1, 0, 2, 99]);
    for (i, e) in entries.iter().enumerate() {
        assert_eq!(e.dw_flags, i as i32);
        assert_eq!(e.dw_chunk_offset, 100 * i as i32);
        assert_eq!(e.dw_chunk_length, 7 + i as i32);
    }
    let mut r = SubReader::new(&data);
    assert!(matches!(read_index_entries(&mut r, 6), Err(AviError::PointerOutOfRange)));
    assert!(matches!(read_index_entries(&mut r, usize::MAX), Err(AviError::PointerOutOfRange)));
    assert_eq!(read_index_entries(&mut r, 0).unwrap(), vec![]);
}
