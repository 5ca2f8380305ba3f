//! The zigzag variable-length integer encoding, as a mathematical model.
use vstd::prelude::*;

verus! {

/// Why a variable-length integer could not be decoded.
#[derive(Debug, Clone, Copy, PartialEq, Eq, Structural)]
pub enum DecodeError {
    /// The bytes are not a variable-length integer.
    OutOfSpec,
    /// The input ended before the first byte of the integer.
    EndOfFile,
}

/// The unsigned number that stands for `n`: non-negative numbers map to the
/// even numbers, negative ones to the odd numbers.
pub open spec fn zigzag(n: i64) -> u64 {
    if n >= 0 {
        (2 * n) as u64
    } else {
        (-2 * n - 1) as u64
    }
}

/// The signed number that `z` stands for.
pub open spec fn unzigzag(z: u64) -> i64 {
    if z % 2 == 0 {
        (z / 2) as i64
    } else {
        (-(z / 2) - 1) as i64
    }
}

/// The bytes of `z`, seven bits each, low-order group first; every byte but
/// the last has its high bit set.
pub open spec fn varint(z: u64) -> Seq<u8>
    decreases z,
{
    if z < 128 {
        seq![z as u8]
    } else {
        seq![(128 + z % 128) as u8] + varint(z / 128)
    }
}

/// The encoding of a signed 64-bit integer.
pub open spec fn zigzag_bytes(n: i64) -> Seq<u8> {
    varint(zigzag(n))
}

/// Decoding of the unsigned integer in progress: `j` bytes of `bytes` have
/// been taken and their groups gathered in `acc`. The result is the value
/// and the total number of bytes taken.
pub open spec fn decode_variable_from(bytes: Seq<u8>, j: nat, acc: u64) -> Result<
    (u64, nat),
    DecodeError,
>
    decreases bytes.len() - j,
{
    if j > 9 {
        Err(DecodeError::OutOfSpec)
    } else if j >= bytes.len() {
        if j == 0 {
            Err(DecodeError::EndOfFile)
        } else {
            Err(DecodeError::OutOfSpec)
        }
    } else {
        let byte = bytes[j as int];
        let next = acc | (((byte & 0x7f) as u64) << ((7 * j) as u64));
        if byte & 0x80 == 0 {
            Ok((next, j + 1))
        } else {
            decode_variable_from(bytes, j + 1, next)
        }
    }
}

/// The unsigned integer at the front of `bytes` and the number of bytes that
/// it takes. The end of input before the first byte is `EndOfFile`; the end
/// of input further on, or a tenth byte that asks for another, is
/// `OutOfSpec`.
pub open spec fn decode_variable(bytes: Seq<u8>) -> Result<(u64, nat), DecodeError> {
    decode_variable_from(bytes, 0, 0)
}

/// The signed integer at the front of `bytes` and the number of bytes that
/// it takes.
pub open spec fn decode_zigzag(bytes: Seq<u8>) -> Result<(i64, nat), DecodeError> {
    match decode_variable(bytes) {
        Ok((z, len)) => Ok((unzigzag(z), len)),
        Err(e) => Err(e),
    }
}

/// `unzigzag` undoes `zigzag`.
pub proof fn lemma_unzigzag_zigzag(n: i64)
    ensures
        unzigzag(zigzag(n)) == n,
{
}

/// An encoding has between one and ten bytes.
pub proof fn lemma_varint_len(z: u64)
    ensures
        1 <= varint(z).len() <= 10,
{
    assert(u64::MAX >> 0u64 == u64::MAX) by (bit_vector);
    lemma_varint_len_bound(z, 0);
}

/// A number below `2^(64 - 7k)` has at most `10 - k` bytes.
proof fn lemma_varint_len_bound(z: u64, k: nat)
    requires
        k <= 9,
        z <= u64::MAX >> ((7 * k) as u64),
    ensures
        1 <= varint(z).len() <= 10 - k,
    decreases z,
{
    if z >= 128 {
        let s: u64 = (7 * k) as u64;
        assert(k < 9) by {
            if k == 9 {
                assert(u64::MAX >> 63u64 == 1) by (bit_vector);
            }
        }
        assert((z / 128) <= u64::MAX >> ((s + 7) as u64)) by (bit_vector)
            requires
                z <= u64::MAX >> s,
                s <= 56,
        ;
        lemma_varint_len_bound(z / 128, k + 1);
    }
}

/// Decoding in progress, at the start of an encoding that fits in what is
/// left of the 64 bits, gives the gathered groups and the encoded number.
proof fn lemma_decode_varint_from(head: Seq<u8>, z: u64, rest: Seq<u8>, acc: u64)
    requires
        head.len() <= 9,
        z <= u64::MAX >> ((7 * head.len()) as u64),
    ensures
        decode_variable_from(head + varint(z) + rest, head.len(), acc) == Ok::<
            (u64, nat),
            DecodeError,
        >((acc | (z << ((7 * head.len()) as u64)), head.len() + varint(z).len())),
    decreases z,
{
    let j = head.len();
    let s: u64 = (7 * j) as u64;
    let bytes = head + varint(z) + rest;
    lemma_varint_len_bound(z, j);
    assert(bytes[j as int] == varint(z)[0]);
    let byte = bytes[j as int];
    if z < 128 {
        assert(byte == z as u8);
        assert(byte & 0x80 == 0 && ((byte & 0x7f) as u64) == z) by (bit_vector)
            requires
                z < 128,
                byte == z as u8,
        ;
    } else {
        let low: u8 = (128 + z % 128) as u8;
        assert(byte == low);
        assert(j < 9) by {
            if j == 9 {
                assert(u64::MAX >> 63u64 == 1) by (bit_vector);
            }
        }
        assert(byte & 0x80 != 0 && (z / 128) <= u64::MAX >> ((s + 7) as u64) && (acc | (((byte
            & 0x7f) as u64) << s)) | ((z / 128) << ((s + 7) as u64)) == acc | (z << s))
            by (bit_vector)
            requires
                byte == (128 + z % 128) as u8,
                z <= u64::MAX >> s,
                s <= 56,
        ;
        let head2 = head.push(low);
        assert(head2 + varint(z / 128) + rest =~= bytes);
        lemma_decode_varint_from(head2, z / 128, rest, acc | (((byte & 0x7f) as u64) << s));
    }
}

/// Decoding what was encoded gives the number back, whatever follows it, and
/// an encoding never has more than ten bytes.
pub proof fn lemma_decode_encode(n: i64, rest: Seq<u8>)
    ensures
        zigzag_bytes(n).len() <= 10,
        decode_zigzag(zigzag_bytes(n) + rest) == Ok::<(i64, nat), DecodeError>(
            (n, zigzag_bytes(n).len()),
        ),
{
    let z = zigzag(n);
    lemma_varint_len(z);
    assert(u64::MAX >> 0u64 == u64::MAX) by (bit_vector);
    lemma_decode_varint_from(Seq::<u8>::empty(), z, rest, 0);
    assert(Seq::<u8>::empty() + varint(z) + rest =~= varint(z) + rest);
    assert(0u64 | (z << 0u64) == z) by (bit_vector);
    lemma_unzigzag_zigzag(n);
}

/// A decoded integer takes at least one byte and at most ten, all of them
/// within the input.
pub proof fn lemma_decode_takes_bytes(bytes: Seq<u8>)
    requires
        decode_zigzag(bytes) is Ok,
    ensures
        1 <= decode_zigzag(bytes)->Ok_0.1 <= 10,
        decode_zigzag(bytes)->Ok_0.1 <= bytes.len(),
{
    lemma_decode_from_takes_bytes(bytes, 0, 0);
}

/// Decoding in progress takes at least one byte more, and ten at most in
/// all.
proof fn lemma_decode_from_takes_bytes(bytes: Seq<u8>, j: nat, acc: u64)
    requires
        decode_variable_from(bytes, j, acc) is Ok,
    ensures
        j < decode_variable_from(bytes, j, acc)->Ok_0.1 <= 10,
        decode_variable_from(bytes, j, acc)->Ok_0.1 <= bytes.len(),
    decreases bytes.len() - j,
{
    if j <= 9 && j < bytes.len() {
        let byte = bytes[j as int];
        let next = acc | (((byte & 0x7f) as u64) << ((7 * j) as u64));
        if byte & 0x80 != 0 {
            lemma_decode_from_takes_bytes(bytes, j + 1, next);
        }
    }
}

/// Decoding in progress reports the end of the input only before the first
/// byte, and there only where there is no input.
pub proof fn lemma_decode_from_error(bytes: Seq<u8>, j: nat, acc: u64)
    ensures
        decode_variable_from(bytes, j, acc) == Err::<(u64, nat), DecodeError>(
            DecodeError::EndOfFile,
        ) <==> j == 0 && bytes.len() == 0,
    decreases bytes.len() - j,
{
    if j <= 9 && j < bytes.len() {
        let byte = bytes[j as int];
        let next = acc | (((byte & 0x7f) as u64) << ((7 * j) as u64));
        if byte & 0x80 != 0 {
            lemma_decode_from_error(bytes, j + 1, next);
        }
    }
}

/// Decoding in progress, at the start of an encoding of which only the
/// first `k` bytes are there, runs out of input within the integer.
proof fn lemma_decode_cut_from(head: Seq<u8>, z: u64, k: nat, acc: u64)
    requires
        head.len() <= 9,
        z <= u64::MAX >> ((7 * head.len()) as u64),
        k < varint(z).len(),
        head.len() + k >= 1,
    ensures
        decode_variable_from(head + varint(z).take(k as int), head.len(), acc) == Err::<
            (u64, nat),
            DecodeError,
        >(DecodeError::OutOfSpec),
    decreases z,
{
    let j = head.len();
    let s: u64 = (7 * j) as u64;
    let bytes = head + varint(z).take(k as int);
    if k > 0 {
        let low: u8 = (128 + z % 128) as u8;
        assert(bytes[j as int] == varint(z)[0]);
        let byte = bytes[j as int];
        assert(j < 9) by {
            if j == 9 {
                assert(u64::MAX >> 63u64 == 1) by (bit_vector);
            }
        }
        assert(byte & 0x80 != 0 && (z / 128) <= u64::MAX >> ((s + 7) as u64)) by (bit_vector)
            requires
                byte == (128 + z % 128) as u8,
                z <= u64::MAX >> s,
                s <= 56,
        ;
        let head2 = head.push(low);
        assert(head2 + varint(z / 128).take(k - 1) =~= bytes);
        lemma_decode_cut_from(head2, z / 128, (k - 1) as nat, acc | (((byte & 0x7f) as u64) << s));
    } else {
        assert(bytes =~= head);
    }
}

/// Of an encoding that is cut short, but not to nothing, no integer is
/// decoded: the input is out of spec.
pub proof fn lemma_decode_cut(n: i64, k: nat)
    requires
        0 < k < zigzag_bytes(n).len(),
    ensures
        decode_zigzag(zigzag_bytes(n).take(k as int)) == Err::<(i64, nat), DecodeError>(
            DecodeError::OutOfSpec,
        ),
{
    let z = zigzag(n);
    assert(u64::MAX >> 0u64 == u64::MAX) by (bit_vector);
    lemma_decode_cut_from(Seq::<u8>::empty(), z, k, 0);
    assert(Seq::<u8>::empty() + varint(z).take(k as int) =~= varint(z).take(k as int));
}

} // verus!
