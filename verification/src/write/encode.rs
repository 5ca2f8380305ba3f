//! Functions used to encode Avro physical types.
use crate::error::Error;
use crate::varint::{varint, zigzag, zigzag_bytes};
use vstd::prelude::*;

verus! {

/// Appends the zigzag encoding of a signed integer to `writer`.
pub fn zigzag_encode(n: i64, writer: &mut Vec<u8>) -> (result: Result<(), Error>)
    ensures
        result is Ok,
        final(writer)@ == old(writer)@ + zigzag_bytes(n),
{
    let z = ((n << 1) ^ (n >> 63)) as u64;
    assert(z == zigzag(n)) by (bit_vector)
        requires
            z == ((n << 1) ^ (n >> 63)) as u64,
    ;
    varint_encode(z, writer)
}

/// Appends the groups of seven bits of `z`, low-order group first.
fn varint_encode(z: u64, writer: &mut Vec<u8>) -> (result: Result<(), Error>)
    ensures
        result is Ok,
        final(writer)@ == old(writer)@ + varint(z),
{
    let mut rest = z;
    loop
        invariant
            writer@ + varint(rest) == old(writer)@ + varint(z),
        decreases rest,
    {
        if rest <= 0x7F {
            let byte = #[verifier::truncate] ((rest & 0x7F) as u8);
            assert(byte == rest as u8) by (bit_vector)
                requires
                    rest <= 0x7F,
                    byte == (rest & 0x7F) as u8,
            ;
            writer.push(byte);
            assert(writer@ =~= old(writer)@ + varint(z));
            return Ok(());
        } else {
            let byte = #[verifier::truncate] ((0x80 | (rest & 0x7F)) as u8);
            assert(byte == (128 + rest % 128) as u8 && rest >> 7 == rest / 128 && rest >> 7 < rest)
                by (bit_vector)
                requires
                    rest > 0x7F,
                    byte == (0x80 | (rest & 0x7F)) as u8,
            ;
            let ghost before = writer@;
            writer.push(byte);
            assert(writer@ + varint((rest >> 7) as u64) =~= before + varint(rest));
            rest >>= 7;
        }
    }
}

/// Bytes with their length before them.
pub open spec fn binary_bytes(bytes: Seq<u8>) -> Seq<u8> {
    zigzag_bytes(bytes.len() as i64) + bytes
}

/// Appends `bytes` to `writer`, their length before them.
pub fn write_binary(bytes: &[u8], writer: &mut Vec<u8>) -> (result: Result<(), Error>)
    ensures
        result is Ok,
        final(writer)@ == old(writer)@ + binary_bytes(bytes@),
{
    zigzag_encode(#[verifier::truncate] (bytes.len() as i64), writer)?;
    write_all(writer, bytes);
    assert(writer@ =~= old(writer)@ + binary_bytes(bytes@));
    Ok(())
}

/// Appends `bytes` to `writer`.
pub fn write_all(writer: &mut Vec<u8>, bytes: &[u8])
    ensures
        final(writer)@ == old(writer)@ + bytes@,
{
    let mut i: usize = 0;
    while i < bytes.len()
        invariant
            i <= bytes@.len(),
            writer@ == old(writer)@ + bytes@.take(i as int),
        decreases bytes@.len() - i,
    {
        writer.push(bytes[i]);
        assert(writer@ =~= old(writer)@ + bytes@.take(i + 1));
        i += 1;
    }
    assert(bytes@.take(bytes@.len() as int) =~= bytes@);
}

} // verus!
