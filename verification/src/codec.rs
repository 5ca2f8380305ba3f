//! The block codecs: raw deflate, raw Snappy and the CRC-32 checksum. The
//! work is done by the crates `libflate`, `snap` and `crc`; what is said of
//! them here is taken on trust.
use std::io::{Read, Write};
use vstd::prelude::*;

verus! {

/// The bytes that the raw deflate decoder of `libflate` reads out of
/// `input`; nothing where it reports an error.
pub uninterp spec fn inflated(input: Seq<u8>) -> Option<Seq<u8>>;

/// The bytes that the raw deflate encoder of `libflate`, with its default
/// options, writes for `input`.
pub uninterp spec fn deflated(input: Seq<u8>) -> Seq<u8>;

/// The bytes that the raw Snappy decoder of `snap` writes for `input` when
/// it is given room enough; nothing where it reports another error.
pub uninterp spec fn snappy_decoded(input: Seq<u8>) -> Option<Seq<u8>>;

/// The bytes that the raw Snappy encoder of `snap` writes for `input` when
/// it is given room enough.
pub uninterp spec fn snappy_encoded(input: Seq<u8>) -> Seq<u8>;

/// The CRC-32/ISO-HDLC checksum of `bytes`, as `crc` computes it.
pub uninterp spec fn crc32_iso_hdlc(bytes: Seq<u8>) -> u32;

/// The largest input that `snap` compresses.
pub const SNAPPY_MAX_INPUT: u64 = 0xFFFF_FFFF;

/// The room that `snap` asks for to compress `len` bytes: 0 where the input
/// is too large.
pub open spec fn snappy_max_len(len: usize) -> usize {
    if len > SNAPPY_MAX_INPUT || 32 + len + len / 6 > SNAPPY_MAX_INPUT {
        0
    } else {
        (32 + len + len / 6) as usize
    }
}

/// Runs `libflate::deflate::Decoder` over all of `input` and appends what
/// it reads to `output`. The contract names the bytes appended and says
/// that the call fails exactly where the decoder reports an error.
#[verifier::external_body]
pub(crate) fn inflate(input: &[u8], output: &mut Vec<u8>) -> (done: bool)
    ensures
        done ==> inflated(input@) == Some(final(output)@.skip(old(output)@.len() as int)),
        done ==> final(output)@.take(old(output)@.len() as int) == old(output)@,
        done ==> final(output)@.len() >= old(output)@.len(),
        !done ==> inflated(input@) is None,
{
    libflate::deflate::Decoder::new(input).read_to_end(output).is_ok()
}

/// Runs `libflate::deflate::Encoder` over all of `input` and appends what
/// it writes to `output`. The contract names the bytes appended; writing to
/// a vector does not fail.
#[verifier::external_body]
pub(crate) fn deflate(input: &[u8], output: &mut Vec<u8>)
    ensures
        final(output)@ == old(output)@ + deflated(input@),
{
    let mut encoder = libflate::deflate::Encoder::new(output);
    let _ = encoder.write_all(input);
    let _ = encoder.finish();
}

/// Calls `snap::raw::decompress_len`. The contract says that the decoder
/// fails where no length is given, and that what it writes has the length
/// given.
#[verifier::external_body]
pub(crate) fn snappy_decompress_len(input: &[u8]) -> (len: Option<usize>)
    ensures
        len is None ==> snappy_decoded(input@) is None,
        len is Some && snappy_decoded(input@) is Some ==> snappy_decoded(input@)->Some_0.len()
            == len->Some_0,
{
    snap::raw::decompress_len(input).ok()
}

/// Calls `snap::raw::Decoder::decompress`. The contract says that on
/// success the front of `output` holds the decoded bytes and their number
/// is returned, and that the call fails only where the input is invalid or
/// `output` is too short for them.
#[verifier::external_body]
pub(crate) fn snappy_decompress(input: &[u8], output: &mut Vec<u8>) -> (written: Option<usize>)
    ensures
        final(output)@.len() == old(output)@.len(),
        match written {
            Some(n) => n <= final(output)@.len() && snappy_decoded(input@) == Some(
                final(output)@.take(n as int),
            ),
            None => snappy_decoded(input@) is Some ==> old(output)@.len() < snappy_decoded(
                input@,
            )->Some_0.len(),
        },
{
    snap::raw::Decoder::new().decompress(input, output).ok()
}

/// Calls `snap::raw::max_compress_len`, which computes what the contract
/// says.
#[verifier::external_body]
pub(crate) fn snappy_max_compress_len(len: usize) -> (max: usize)
    ensures
        max == snappy_max_len(len),
{
    snap::raw::max_compress_len(len)
}

/// Calls `snap::raw::Encoder::compress`. The contract says that the call
/// fails exactly where the input is too large or `output` is shorter than
/// the room asked for, and that on success the front of `output` holds the
/// encoded bytes and their number is returned.
#[verifier::external_body]
pub(crate) fn snappy_compress(input: &[u8], output: &mut Vec<u8>) -> (written: Option<usize>)
    ensures
        final(output)@.len() == old(output)@.len(),
        match written {
            Some(n) => n <= final(output)@.len() && final(output)@.take(n as int)
                == snappy_encoded(input@) && snappy_max_len(input@.len() as usize) != 0
                && old(output)@.len() >= snappy_max_len(input@.len() as usize),
            None => snappy_max_len(input@.len() as usize) == 0 || old(output)@.len()
                < snappy_max_len(input@.len() as usize),
        },
{
    snap::raw::Encoder::new().compress(input, output).ok()
}

/// Computes the CRC-32/ISO-HDLC checksum with `crc::Crc::checksum`. The
/// contract names the result.
#[verifier::external_body]
pub(crate) fn crc32(bytes: &[u8]) -> (sum: u32)
    ensures
        sum == crc32_iso_hdlc(bytes@),
{
    crc::Crc::<u32>::new(&crc::CRC_32_ISO_HDLC).checksum(bytes)
}

/// The four bytes of `value`, the most significant first.
pub open spec fn be_bytes(value: u32) -> Seq<u8> {
    seq![
        (value / 0x100_0000) as u8,
        (value / 0x1_0000 % 0x100) as u8,
        (value / 0x100 % 0x100) as u8,
        (value % 0x100) as u8,
    ]
}

/// The number whose four bytes, the most significant first, are `bytes`.
pub open spec fn be_value(bytes: Seq<u8>) -> u32 {
    (bytes[0] * 0x100_0000 + bytes[1] * 0x1_0000 + bytes[2] * 0x100 + bytes[3]) as u32
}

/// The number is read back from its four bytes.
pub proof fn lemma_be_value_of_bytes(value: u32)
    ensures
        be_value(be_bytes(value)) == value,
{
}

/// Appends the four bytes of `value`, the most significant first.
pub fn put_be_bytes(value: u32, output: &mut Vec<u8>)
    ensures
        final(output)@ == old(output)@ + be_bytes(value),
{
    let b0 = (value >> 24) as u8;
    let b1 = #[verifier::truncate] ((value >> 16) as u8);
    let b2 = #[verifier::truncate] ((value >> 8) as u8);
    let b3 = #[verifier::truncate] (value as u8);
    assert(b0 == (value / 0x100_0000) as u8 && b1 == (value / 0x1_0000 % 0x100) as u8 && b2 == (
    value / 0x100 % 0x100) as u8 && b3 == (value % 0x100) as u8) by (bit_vector)
        requires
            b0 == (value >> 24) as u8,
            b1 == (value >> 16) as u8,
            b2 == (value >> 8) as u8,
            b3 == value as u8,
    ;
    output.push(b0);
    output.push(b1);
    output.push(b2);
    output.push(b3);
    assert(output@ =~= old(output)@ + be_bytes(value));
}

/// The number whose four bytes, the most significant first, are given.
pub fn get_be_value(b0: u8, b1: u8, b2: u8, b3: u8) -> (value: u32)
    ensures
        value == be_value(seq![b0, b1, b2, b3]),
{
    let value = ((b0 as u32) << 24) | ((b1 as u32) << 16) | ((b2 as u32) << 8) | (b3 as u32);
    assert(value == (b0 * 0x100_0000 + b1 * 0x1_0000 + b2 * 0x100 + b3) as u32) by (bit_vector)
        requires
            value == ((b0 as u32) << 24) | ((b1 as u32) << 16) | ((b2 as u32) << 8) | (b3 as u32),
    ;
    value
}

} // verus!
