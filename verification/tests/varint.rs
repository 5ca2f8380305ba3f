use avro_schema::read::{zigzag_i64, ByteReader, DecodeError};
use avro_schema::write::zigzag_encode;

fn encode(n: i64) -> Vec<u8> {
    let mut out = vec![];
    zigzag_encode(n, &mut out).unwrap();
    out
}

fn decode(bytes: &[u8]) -> Result<(i64, usize), DecodeError> {
    let mut reader = ByteReader::new(bytes);
    let n = zigzag_i64(&mut reader)?;
    Ok((n, bytes.len() - reader.len()))
}

#[test]
fn encodes_small_numbers_in_one_byte() {
    assert_eq!(encode(0), vec![0]);
    assert_eq!(encode(-1), vec![1]);
    assert_eq!(encode(1), vec![2]);
    assert_eq!(encode(-2), vec![3]);
    assert_eq!(encode(63), vec![126]);
    assert_eq!(encode(-64), vec![127]);
}

#[test]
fn encodes_larger_numbers_low_group_first() {
    assert_eq!(encode(64), vec![0x80, 0x01]);
    assert_eq!(encode(-65), vec![0x81, 0x01]);
    assert_eq!(encode(150), vec![0xac, 0x02]);
    assert_eq!(encode(8192), vec![0x80, 0x80, 0x01]);
}

#[test]
fn encodes_the_extremes_in_ten_bytes() {
    assert_eq!(
        encode(i64::MAX),
        vec![0xfe, 0xff, 0xff, 0xff, 0xff, 0xff, 0xff, 0xff, 0xff, 0x01]
    );
    assert_eq!(
        encode(i64::MIN),
        vec![0xff, 0xff, 0xff, 0xff, 0xff, 0xff, 0xff, 0xff, 0xff, 0x01]
    );
}

#[test]
fn decode_undoes_encode() {
    let mut samples = vec![0, -1, 1, i64::MIN, i64::MAX, i64::MIN + 1, i64::MAX - 1];
    for shift in 0..63 {
        samples.push(1i64 << shift);
        samples.push(-(1i64 << shift));
        samples.push((1i64 << shift) - 1);
    }
    for n in samples {
        let bytes = encode(n);
        assert!(bytes.len() >= 1 && bytes.len() <= 10);
        assert_eq!(decode(&bytes), Ok((n, bytes.len())));
    }
}

#[test]
fn decode_leaves_what_follows() {
    let mut bytes = encode(300);
    bytes.extend([7, 8, 9]);
    let mut reader = ByteReader::new(&bytes);
    assert_eq!(zigzag_i64(&mut reader), Ok(300));
    assert_eq!(reader.remaining(), &[7, 8, 9]);
}

#[test]
fn decode_of_nothing_is_end_of_file() {
    assert_eq!(decode(&[]), Err(DecodeError::EndOfFile));
}

#[test]
fn decode_of_a_cut_integer_is_out_of_spec() {
    assert_eq!(decode(&[0x80]), Err(DecodeError::OutOfSpec));
    assert_eq!(decode(&[0xff, 0xff]), Err(DecodeError::OutOfSpec));
}

#[test]
fn decode_of_too_many_bytes_is_out_of_spec() {
    assert_eq!(decode(&[0x80; 10]), Err(DecodeError::OutOfSpec));
    assert_eq!(decode(&[0x80; 11]), Err(DecodeError::OutOfSpec));
    let mut bytes = vec![0x80; 10];
    bytes.push(0);
    assert_eq!(decode(&bytes), Err(DecodeError::OutOfSpec));
}

#[test]
fn decode_takes_ten_bytes_at_most() {
    let mut bytes = vec![0x80; 9];
    bytes.push(0x01);
    bytes.push(0x55);
    assert_eq!(decode(&bytes), Ok((1i64 << 62, 10)));
}

#[test]
fn a_failed_decode_takes_nothing() {
    let bytes = [0x80, 0x80];
    let mut reader = ByteReader::new(&bytes);
    assert_eq!(zigzag_i64(&mut reader), Err(DecodeError::OutOfSpec));
    assert_eq!(reader.len(), 2);
}
