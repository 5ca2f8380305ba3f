use avro_schema::error::Error;
use avro_schema::file::{Block, CompressedBlock, Compression};
use avro_schema::read::{
    block_iterator, decompress_block, read_header, read_metadata, BlockStreamingIterator,
    ByteReader, CompressedBlockStreamingIterator,
};
use avro_schema::schema::{Field, Record, Schema};
use avro_schema::write::{compress, write_block, write_metadata, zigzag_encode};

const MARKER: [u8; 16] = [1, 2, 3, 4, 1, 2, 3, 4, 1, 2, 3, 4, 1, 2, 3, 4];

fn block_file(blocks: &[(usize, &[u8])]) -> Vec<u8> {
    let mut file = vec![];
    for (rows, data) in blocks {
        write_block(&mut file, &CompressedBlock::new(*rows, data.to_vec())).unwrap();
    }
    file
}

fn binary(bytes: &[u8]) -> Vec<u8> {
    let mut out = vec![];
    zigzag_encode(bytes.len() as i64, &mut out).unwrap();
    out.extend_from_slice(bytes);
    out
}

fn header(chunks: &[&[(&[u8], &[u8])]]) -> Vec<u8> {
    let mut out = vec![];
    for chunk in chunks {
        zigzag_encode(chunk.len() as i64, &mut out).unwrap();
        for (key, value) in chunk.iter() {
            out.extend(binary(key));
            out.extend(binary(value));
        }
    }
    out.push(0);
    out
}

fn file_with(entries: &[(&[u8], &[u8])]) -> Vec<u8> {
    let mut file = vec![b'O', b'b', b'j', 1];
    file.extend(header(&[entries]));
    file.extend(MARKER);
    file
}

const RECORD: &[u8] = br#"{"type":"record","name":"r","fields":[]}"#;

#[test]
fn a_block_is_written_as_rows_length_payload_marker() {
    let file = block_file(&[(2, &[9, 8, 7])]);
    let mut expected = vec![4, 6, 9, 8, 7];
    expected.extend(MARKER);
    assert_eq!(file, expected);
}

#[test]
fn blocks_are_read_one_by_one() {
    let file = block_file(&[(2, &[9, 8, 7]), (1, &[]), (300, &[5; 200])]);
    let mut blocks = CompressedBlockStreamingIterator::new(ByteReader::new(&file), MARKER, vec![]);
    assert!(blocks.get().is_none());
    blocks.advance().unwrap();
    assert_eq!(blocks.get(), Some(&CompressedBlock::new(2, vec![9, 8, 7])));
    blocks.advance().unwrap();
    assert_eq!(blocks.get(), Some(&CompressedBlock::new(1, vec![])));
    assert_eq!(
        blocks.next().unwrap(),
        Some(&CompressedBlock::new(300, vec![5; 200]))
    );
    blocks.advance().unwrap();
    assert!(blocks.get().is_none());
    blocks.advance().unwrap();
    assert!(blocks.get().is_none());
    let (reader, scratch) = blocks.into_inner();
    assert_eq!(reader.len(), 0);
    assert_eq!(scratch, vec![5; 200]);
}

#[test]
fn another_marker_is_out_of_spec() {
    let mut file = block_file(&[(2, &[9, 8, 7])]);
    let last = file.len() - 1;
    file[last] ^= 1;
    let mut blocks = CompressedBlockStreamingIterator::new(ByteReader::new(&file), MARKER, vec![]);
    assert!(matches!(blocks.advance(), Err(Error::OutOfSpec)));
    let mut other = MARKER;
    other[0] = 0;
    let file = block_file(&[(2, &[9, 8, 7])]);
    let mut blocks = block_iterator(ByteReader::new(&file), None, other);
    assert!(matches!(blocks.advance(), Err(Error::OutOfSpec)));
}

#[test]
fn a_failed_advance_changes_nothing() {
    let mut file = block_file(&[(2, &[9, 8, 7]), (3, &[1])]);
    let last = file.len() - 1;
    file[last] ^= 1;
    let mut blocks = CompressedBlockStreamingIterator::new(ByteReader::new(&file), MARKER, vec![]);
    blocks.advance().unwrap();
    assert!(matches!(blocks.advance(), Err(Error::OutOfSpec)));
    assert_eq!(blocks.get(), Some(&CompressedBlock::new(2, vec![9, 8, 7])));
    assert_eq!(blocks.into_inner().0.len(), 19);
}

#[test]
fn a_block_without_rows_ends_the_blocks() {
    let mut file = block_file(&[(1, &[7])]);
    file.extend([0, 0]);
    file.extend(block_file(&[(1, &[8])]));
    let mut blocks = block_iterator(ByteReader::new(&file), None, MARKER);
    assert_eq!(blocks.next().unwrap(), Some(&Block::new(1, vec![7])));
    assert_eq!(blocks.next().unwrap(), None);
    assert!(blocks.get().is_none());
}

#[test]
fn the_end_of_the_input_ends_the_blocks() {
    let file: Vec<u8> = vec![];
    for compression in [None, Some(Compression::Deflate), Some(Compression::Snappy)] {
        let mut blocks = BlockStreamingIterator::new(ByteReader::new(&file), compression, MARKER);
        assert!(matches!(blocks.advance(), Ok(())));
        assert!(blocks.get().is_none());
        assert_eq!(blocks.next().unwrap(), None);
    }
}

#[test]
fn a_cut_block_is_out_of_spec() {
    let file = block_file(&[(200, &[9, 8, 7])]);
    for len in 1..file.len() {
        let mut blocks = block_iterator(ByteReader::new(&file[..len]), None, MARKER);
        assert!(matches!(blocks.advance(), Err(Error::OutOfSpec)));
    }
    let mut blocks = block_iterator(ByteReader::new(&file), None, MARKER);
    assert!(matches!(blocks.advance(), Ok(())));
}

#[test]
fn a_negative_length_is_out_of_spec() {
    let mut file = vec![];
    zigzag_encode(1, &mut file).unwrap();
    zigzag_encode(-1, &mut file).unwrap();
    file.extend(MARKER);
    let mut blocks = block_iterator(ByteReader::new(&file), None, MARKER);
    assert!(matches!(blocks.advance(), Err(Error::OutOfSpec)));
    let mut file = vec![];
    zigzag_encode(1, &mut file).unwrap();
    zigzag_encode(i64::MAX, &mut file).unwrap();
    file.extend(MARKER);
    let mut blocks = block_iterator(ByteReader::new(&file), None, MARKER);
    assert!(matches!(blocks.advance(), Err(Error::OutOfSpec)));
}

#[test]
fn without_a_codec_the_buffers_change_hands() {
    let mut block = Block::new(3, vec![1, 2, 3]);
    let mut compressed = CompressedBlock::new(9, vec![7; 5]);
    assert!(matches!(compress(&mut block, &mut compressed, None), Ok(true)));
    assert_eq!(compressed, CompressedBlock::new(3, vec![1, 2, 3]));
    assert_eq!(block, Block::new(3, vec![7; 5]));
    let mut decompressed = Block::new(0, vec![4]);
    assert!(matches!(
        decompress_block(&mut compressed, &mut decompressed, None),
        Ok(true)
    ));
    assert_eq!(decompressed, Block::new(3, vec![1, 2, 3]));
    assert_eq!(compressed, CompressedBlock::new(3, vec![4]));
}

#[test]
fn deflate_compresses_and_gives_the_data_back() {
    let data = vec![42u8; 1000];
    let mut block = Block::new(10, data.clone());
    let mut compressed = CompressedBlock::new(0, vec![1, 2, 3]);
    assert!(matches!(
        compress(&mut block, &mut compressed, Some(Compression::Deflate)),
        Ok(false)
    ));
    assert_eq!(block, Block::new(10, data.clone()));
    assert_eq!(compressed.number_of_rows, 10);
    assert!(compressed.data.len() < 100);
    let payload = compressed.data.clone();
    let mut decompressed = Block::new(0, vec![9; 7]);
    assert!(matches!(
        decompress_block(&mut compressed, &mut decompressed, Some(Compression::Deflate)),
        Ok(false)
    ));
    assert_eq!(decompressed, Block::new(10, data));
    assert_eq!(compressed.data, payload);
}

#[test]
fn a_stored_deflate_stream_is_read() {
    let mut compressed = CompressedBlock::new(1, vec![0x01, 0x03, 0x00, 0xfc, 0xff, b'a', b'b', b'c']);
    let mut decompressed = Block::new(0, vec![]);
    assert!(matches!(
        decompress_block(&mut compressed, &mut decompressed, Some(Compression::Deflate)),
        Ok(false)
    ));
    assert_eq!(decompressed, Block::new(1, b"abc".to_vec()));
}

#[test]
fn bytes_that_are_no_deflate_stream_are_out_of_spec() {
    let mut compressed = CompressedBlock::new(1, vec![0xff, 0xff, 0xff]);
    let mut decompressed = Block::new(0, vec![]);
    assert!(matches!(
        decompress_block(&mut compressed, &mut decompressed, Some(Compression::Deflate)),
        Err(Error::OutOfSpec)
    ));
    let mut compressed = CompressedBlock::new(1, vec![]);
    assert!(matches!(
        decompress_block(&mut compressed, &mut decompressed, Some(Compression::Deflate)),
        Err(Error::OutOfSpec)
    ));
}

#[test]
fn snappy_appends_the_checksum_of_the_data() {
    let mut block = Block::new(1, b"123456789".to_vec());
    let mut compressed = CompressedBlock::new(0, vec![5; 3]);
    assert!(matches!(
        compress(&mut block, &mut compressed, Some(Compression::Snappy)),
        Ok(false)
    ));
    assert_eq!(block, Block::new(1, b"123456789".to_vec()));
    let mut expected = vec![9, 8 << 2];
    expected.extend(b"123456789");
    expected.extend([0xcb, 0xf4, 0x39, 0x26]);
    assert_eq!(compressed, CompressedBlock::new(1, expected));
    let mut decompressed = Block::new(0, vec![1; 20]);
    assert!(matches!(
        decompress_block(&mut compressed, &mut decompressed, Some(Compression::Snappy)),
        Ok(false)
    ));
    assert_eq!(decompressed, Block::new(1, b"123456789".to_vec()));
}

#[test]
fn snappy_compresses_and_gives_the_data_back() {
    let data: Vec<u8> = (0..5000u32).map(|i| (i % 7) as u8).collect();
    let mut block = Block::new(2, data.clone());
    let mut compressed = CompressedBlock::default();
    assert!(matches!(
        compress(&mut block, &mut compressed, Some(Compression::Snappy)),
        Ok(false)
    ));
    assert!(compressed.data.len() < 1000);
    let mut decompressed = Block::default();
    assert!(matches!(
        decompress_block(&mut compressed, &mut decompressed, Some(Compression::Snappy)),
        Ok(false)
    ));
    assert_eq!(decompressed, Block::new(2, data));
}

#[test]
fn another_checksum_is_out_of_spec() {
    let mut block = Block::new(1, b"123456789".to_vec());
    let mut compressed = CompressedBlock::default();
    compress(&mut block, &mut compressed, Some(Compression::Snappy)).unwrap();
    let last = compressed.data.len() - 1;
    compressed.data[last] ^= 1;
    let mut decompressed = Block::default();
    assert!(matches!(
        decompress_block(&mut compressed, &mut decompressed, Some(Compression::Snappy)),
        Err(Error::OutOfSpec)
    ));
}

#[test]
fn a_snappy_payload_that_is_too_short_or_wrong_is_out_of_spec() {
    let mut decompressed = Block::default();
    for payload in [vec![], vec![1, 2, 3], vec![0, 0, 0, 0], vec![9, 8 << 2, b'1', 0, 0, 0, 0]] {
        let mut compressed = CompressedBlock::new(1, payload);
        assert!(matches!(
            decompress_block(&mut compressed, &mut decompressed, Some(Compression::Snappy)),
            Err(Error::OutOfSpec)
        ));
    }
}

#[test]
fn blocks_are_decompressed_one_by_one() {
    for compression in [None, Some(Compression::Deflate), Some(Compression::Snappy)] {
        let mut file = vec![];
        let datas: Vec<Vec<u8>> = vec![vec![1, 2, 3], vec![], vec![7; 300], vec![4, 5]];
        for (i, data) in datas.iter().enumerate() {
            let mut block = Block::new(i + 1, data.clone());
            let mut compressed = CompressedBlock::default();
            compress(&mut block, &mut compressed, compression).unwrap();
            write_block(&mut file, &compressed).unwrap();
        }
        let mut blocks = BlockStreamingIterator::new(ByteReader::new(&file), compression, MARKER);
        for (i, data) in datas.iter().enumerate() {
            assert_eq!(blocks.next().unwrap(), Some(&Block::new(i + 1, data.clone())));
        }
        assert_eq!(blocks.next().unwrap(), None);
        assert_eq!(blocks.into_inner().len(), 0);
    }
}

#[test]
fn a_payload_that_does_not_decode_is_out_of_spec() {
    let file = block_file(&[(1, &[0xff, 0xff, 0xff, 0xff, 0xff])]);
    for compression in [Some(Compression::Deflate), Some(Compression::Snappy)] {
        let mut blocks = block_iterator(ByteReader::new(&file), compression, MARKER);
        assert!(matches!(blocks.advance(), Err(Error::OutOfSpec)));
    }
}

#[test]
fn the_header_is_written_byte_by_byte() {
    let mut file = vec![9];
    write_metadata(&mut file, Record::new("r", vec![]), Some(Compression::Deflate)).unwrap();
    let mut expected = vec![9, b'O', b'b', b'j', 1, 4];
    expected.extend(binary(b"avro.schema"));
    expected.extend(binary(RECORD));
    expected.extend(binary(b"avro.codec"));
    expected.extend(binary(b"deflate"));
    expected.push(0);
    expected.extend(MARKER);
    assert_eq!(file, expected);
    let mut file = vec![];
    write_metadata(&mut file, Record::new("r", vec![]), None).unwrap();
    assert_eq!(file, file_with(&[(b"avro.schema", RECORD)]));
    let mut file = vec![];
    write_metadata(&mut file, Record::new("r", vec![]), Some(Compression::Snappy)).unwrap();
    assert_eq!(
        file,
        file_with(&[(b"avro.schema", RECORD), (b"avro.codec", b"snappy")])
    );
}

#[test]
fn the_header_is_read_back() {
    let record = Record::new(
        "r",
        vec![Field::new("a", Schema::Union(vec![Schema::Null, Schema::Long(None)]))],
    );
    for compression in [None, Some(Compression::Deflate), Some(Compression::Snappy)] {
        let mut file = vec![];
        write_metadata(&mut file, record.clone(), compression).unwrap();
        file.extend([1, 2, 3]);
        let mut reader = ByteReader::new(&file);
        let metadata = read_metadata(&mut reader).unwrap();
        assert_eq!(metadata.record, record);
        assert_eq!(metadata.compression, compression);
        assert_eq!(metadata.marker, MARKER);
        assert_eq!(reader.remaining(), &[1, 2, 3]);
    }
}

#[test]
fn a_header_in_chunks_is_read() {
    let bytes = header(&[
        &[(b"a", b"1"), (b"avro.codec", b"snappy")],
        &[(b"avro.schema", RECORD)],
        &[(b"a", b"2"), (b"avro.codec", b"deflate")],
    ]);
    let mut reader = ByteReader::new(&bytes);
    let entries = read_header(&mut reader).unwrap();
    assert_eq!(reader.len(), 0);
    assert_eq!(
        entries,
        vec![
            ("a".to_string(), b"1".to_vec()),
            ("avro.codec".to_string(), b"snappy".to_vec()),
            ("avro.schema".to_string(), RECORD.to_vec()),
            ("a".to_string(), b"2".to_vec()),
            ("avro.codec".to_string(), b"deflate".to_vec()),
        ]
    );
    let mut file = vec![b'O', b'b', b'j', 1];
    file.extend(bytes);
    file.extend(MARKER);
    let metadata = read_metadata(&mut ByteReader::new(&file)).unwrap();
    assert_eq!(metadata.compression, Some(Compression::Deflate));
    assert_eq!(metadata.record, Record::new("r", vec![]));
}

#[test]
fn an_empty_header_is_read() {
    let mut reader = ByteReader::new(&[0, 5]);
    assert_eq!(read_header(&mut reader).unwrap(), vec![]);
    assert_eq!(reader.remaining(), &[5]);
}

#[test]
fn a_header_that_is_cut_or_wrong_is_out_of_spec() {
    let bytes = header(&[&[(b"avro.schema", RECORD)]]);
    for len in 0..bytes.len() {
        let mut reader = ByteReader::new(&bytes[..len]);
        assert!(matches!(read_header(&mut reader), Err(Error::OutOfSpec)));
        assert_eq!(reader.len(), len);
    }
    let mut negative = vec![];
    zigzag_encode(-1, &mut negative).unwrap();
    negative.extend(binary(b"a"));
    negative.extend(binary(b"b"));
    negative.push(0);
    assert!(matches!(
        read_header(&mut ByteReader::new(&negative)),
        Err(Error::OutOfSpec)
    ));
    let bytes = header(&[&[(&[0xff, 0xfe], b"1")]]);
    assert!(matches!(
        read_header(&mut ByteReader::new(&bytes)),
        Err(Error::OutOfSpec)
    ));
    let bytes = header(&[&[("\u{e9}".as_bytes(), &[0xff])]]);
    assert_eq!(
        read_header(&mut ByteReader::new(&bytes)).unwrap(),
        vec![("\u{e9}".to_string(), vec![0xff])]
    );
}

#[test]
fn a_file_that_does_not_start_as_one_is_out_of_spec() {
    let good = file_with(&[(b"avro.schema", RECORD)]);
    assert!(read_metadata(&mut ByteReader::new(&good)).is_ok());
    for len in 0..good.len() {
        let mut reader = ByteReader::new(&good[..len]);
        assert!(matches!(read_metadata(&mut reader), Err(Error::OutOfSpec)));
        assert_eq!(reader.len(), len);
    }
    for at in 0..4 {
        let mut bad = good.clone();
        bad[at] ^= 0x20;
        assert!(matches!(
            read_metadata(&mut ByteReader::new(&bad)),
            Err(Error::OutOfSpec)
        ));
    }
}

#[test]
fn the_schema_of_a_file_must_be_a_record() {
    for schema in [&br#""int""#[..], br#"["null"]"#, b"{", br#"{"type":"enum","name":"e","symbols":[]}"#] {
        let file = file_with(&[(b"avro.schema", schema)]);
        assert!(matches!(
            read_metadata(&mut ByteReader::new(&file)),
            Err(Error::OutOfSpec)
        ));
    }
    let file = file_with(&[(b"avro.codec", b"deflate")]);
    assert!(matches!(
        read_metadata(&mut ByteReader::new(&file)),
        Err(Error::OutOfSpec)
    ));
}

#[test]
fn a_codec_that_is_not_known_is_none() {
    for (name, compression) in [
        (&b"null"[..], None),
        (b"", None),
        (b"Snappy", None),
        (b"deflate ", None),
        (b"zstandard", None),
        (b"snappy", Some(Compression::Snappy)),
        (b"deflate", Some(Compression::Deflate)),
    ] {
        let file = file_with(&[(b"avro.schema", RECORD), (b"avro.codec", name)]);
        let metadata = read_metadata(&mut ByteReader::new(&file)).unwrap();
        assert_eq!(metadata.compression, compression);
    }
}

#[test]
fn errors_are_named() {
    assert_eq!(Error::OutOfSpec.to_string(), "OutOfSpec");
    assert_eq!(Error::RequiresCompression.to_string(), "RequiresCompression");
    assert!(matches!(
        Error::from(avro_schema::read::DecodeError::EndOfFile),
        Error::OutOfSpec
    ));
    assert!(matches!(
        Error::from(std::io::Error::from(std::io::ErrorKind::UnexpectedEof)),
        Error::OutOfSpec
    ));
}

#[test]
fn the_buffer_of_the_iterator_can_be_set() {
    let file = block_file(&[(2, &[9, 8, 7])]);
    let mut blocks = CompressedBlockStreamingIterator::new(ByteReader::new(&file), MARKER, vec![1]);
    blocks.buffer().number_of_rows = 5;
    assert_eq!(blocks.get(), Some(&CompressedBlock::new(5, vec![1])));
    blocks.advance().unwrap();
    assert_eq!(blocks.get(), Some(&CompressedBlock::new(2, vec![9, 8, 7])));
}
