//! Reading the compressed blocks of a file.
use crate::error::Error;
use crate::file::CompressedBlock;
use crate::read::decode::zigzag_i64;
use crate::read::reader::{took, ByteReader};
use crate::varint::{decode_zigzag, lemma_decode_takes_bytes, DecodeError};
use vstd::prelude::*;

verus! {

/// What stands at the front of the blocks of a file.
pub enum ParsedBlock {
    /// No block: the input ends here, or the block has no rows. `taken` is
    /// the number of bytes of the two integers of such a block.
    End { taken: nat },
    /// A block with its number of rows and its payload; `taken` is the
    /// number of bytes of the whole block, sync marker included.
    Block { rows: usize, payload: Seq<u8>, taken: nat },
    /// Bytes that are no block of this file.
    OutOfSpec,
}

/// What stands at the front of `bytes`, in a file with the sync marker
/// `marker`. A block is the number of rows, the number of bytes of the
/// payload, the payload and the marker. Input that ends before the first
/// byte is the end of the blocks, and so is a block without rows; input
/// that ends later, a negative size and another marker are out of spec.
pub open spec fn parsed_block(bytes: Seq<u8>, marker: Seq<u8>) -> ParsedBlock {
    match parsed_size(bytes) {
        None => ParsedBlock::OutOfSpec,
        Some((rows, size, start)) => if rows == 0 {
            ParsedBlock::End { taken: start }
        } else if size < 0 || start + size + 16 > bytes.len() {
            ParsedBlock::OutOfSpec
        } else if bytes.subrange(start + size, start + size + 16) != marker {
            ParsedBlock::OutOfSpec
        } else {
            ParsedBlock::Block {
                rows,
                payload: bytes.subrange(start as int, start + size),
                taken: (start + size + 16) as nat,
            }
        },
    }
}

/// Whether two slices hold the same bytes.
pub fn same_bytes(a: &[u8], b: &[u8]) -> (same: bool)
    ensures
        same == (a@ == b@),
{
    if a.len() != b.len() {
        return false;
    }
    let mut i: usize = 0;
    while i < a.len()
        invariant
            a@.len() == b@.len(),
            i <= a@.len(),
            forall|k: int| 0 <= k < i ==> a@[k] == b@[k],
        decreases a@.len() - i,
    {
        if a[i] != b[i] {
            return false;
        }
        i += 1;
    }
    assert(a@ =~= b@);
    true
}

/// Overwrites `buffer` with `bytes`, in the room that it has.
pub fn fill(buffer: &mut Vec<u8>, bytes: &[u8])
    ensures
        final(buffer)@ == bytes@,
{
    buffer.clear();
    let mut i: usize = 0;
    while i < bytes.len()
        invariant
            i <= bytes@.len(),
            buffer@ == bytes@.take(i as int),
        decreases bytes@.len() - i,
    {
        buffer.push(bytes[i]);
        assert(buffer@ =~= bytes@.take(i + 1));
        i += 1;
    }
    assert(bytes@.take(bytes@.len() as int) =~= bytes@);
}

/// The two integers that a block starts with, and the number of their
/// bytes: the number of rows and the number of bytes of the payload. Both
/// are 0 where the input ends before the first byte.
pub open spec fn parsed_size(bytes: Seq<u8>) -> Option<(usize, i64, nat)> {
    match decode_zigzag(bytes) {
        Err(DecodeError::EndOfFile) => Some((0usize, 0i64, 0nat)),
        Err(DecodeError::OutOfSpec) => None,
        Ok((rows, first)) => if first > bytes.len() {
            None
        } else {
            match decode_zigzag(bytes.skip(first as int)) {
                Err(_) => None,
                Ok((size, second)) => Some((rows as usize, size, first + second)),
            }
        },
    }
}

/// Reads the number of rows and the number of bytes of the next block;
/// both are 0 where the input ends before the first byte. On failure
/// nothing is taken.
fn read_size(reader: &mut ByteReader) -> (sizes: Result<(usize, i64), Error>)
    ensures
        match parsed_size(old(reader)@) {
            Some((rows, size, taken)) => {
                &&& sizes == Ok::<(usize, i64), Error>((rows, size))
                &&& took(old(reader)@, taken, final(reader)@)
            },
            None => {
                &&& sizes == Err::<(usize, i64), Error>(Error::OutOfSpec)
                &&& final(reader)@ == old(reader)@
            },
        },
{
    let mut cursor = *reader;
    let rows = match zigzag_i64(&mut cursor) {
        Ok(a) => a,
        Err(error) => match error {
            DecodeError::EndOfFile => {
                assert(old(reader)@.skip(0) =~= old(reader)@);
                return Ok((0, 0));
            },
            DecodeError::OutOfSpec => {
                return Err(Error::OutOfSpec);
            },
        },
    };
    let bytes = match zigzag_i64(&mut cursor) {
        Ok(a) => a,
        Err(_) => {
            return Err(Error::OutOfSpec);
        },
    };
    proof {
        let all = old(reader)@;
        let first = decode_zigzag(all)->Ok_0.1;
        let second = decode_zigzag(all.skip(first as int))->Ok_0.1;
        assert(all.skip(first as int).skip(second as int) =~= all.skip((first + second) as int));
    }
    *reader = cursor;
    Ok((#[verifier::truncate] (rows as usize), bytes))
}

/// What reading a block does to the block and the input, and how it ends.
/// At the end of the blocks the block is given 0 rows and its data is left
/// as it was; a block that is read is taken from the input with its marker;
/// where the bytes are out of spec nothing is taken and the block is left
/// as it was.
pub open spec fn reads_block(
    input: Seq<u8>,
    marker: Seq<u8>,
    before: CompressedBlock,
    done: Result<(), Error>,
    after: CompressedBlock,
    rest: Seq<u8>,
) -> bool {
    match parsed_block(input, marker) {
        ParsedBlock::End { taken } => {
            &&& done is Ok
            &&& after.number_of_rows == 0
            &&& after.data == before.data
            &&& took(input, taken, rest)
        },
        ParsedBlock::Block { rows, payload, taken } => {
            &&& done is Ok
            &&& after.number_of_rows == rows
            &&& after.data@ == payload
            &&& took(input, taken, rest)
        },
        ParsedBlock::OutOfSpec => {
            &&& done == Err::<(), Error>(Error::OutOfSpec)
            &&& after == before
            &&& rest == input
        },
    }
}

/// Reads a [`CompressedBlock`] from the `reader`.
pub fn read_block(reader: &mut ByteReader, block: &mut CompressedBlock, marker: [u8; 16]) -> (done:
    Result<(), Error>)
    ensures
        reads_block(old(reader)@, marker@, *old(block), done, *final(block), final(reader)@),
{
    let mut cursor = *reader;
    let ghost all = old(reader)@;
    let (rows, bytes) = read_size(&mut cursor)?;
    if rows == 0 {
        block.number_of_rows = rows;
        *reader = cursor;
        return Ok(());
    }
    proof {
        lemma_decode_takes_bytes(all);
    }
    if bytes < 0 || bytes as u64 > cursor.len() as u64 {
        return Err(Error::OutOfSpec);
    }
    let ghost start = (all.len() - cursor@.len()) as nat;
    let payload = match cursor.read_exact(bytes as usize) {
        Some(payload) => payload,
        None => {
            return Err(Error::OutOfSpec);
        },
    };
    let block_marker = match cursor.read_exact(16) {
        Some(block_marker) => block_marker,
        None => {
            return Err(Error::OutOfSpec);
        },
    };
    proof {
        assert(all.skip(start as int).take(bytes as int) =~= all.subrange(
            start as int,
            start + bytes,
        ));
        assert(all.skip(start as int).skip(bytes as int).take(16) =~= all.subrange(
            start + bytes,
            start + bytes + 16,
        ));
        assert(all.skip(start as int).skip(bytes as int).skip(16) =~= all.skip(
            start + bytes + 16,
        ));
    }
    if !same_bytes(block_marker, marker.as_slice()) {
        return Err(Error::OutOfSpec);
    }
    block.number_of_rows = rows;
    fill(&mut block.data, payload);
    *reader = cursor;
    Ok(())
}

/// An iterator of the [`CompressedBlock`]s of a file: `advance` reads the
/// next block, `get` shows it.
pub struct CompressedBlockStreamingIterator<'a> {
    buf: CompressedBlock,
    reader: ByteReader<'a>,
    marker: [u8; 16],
}

impl<'a> CompressedBlockStreamingIterator<'a> {
    /// The input that is left to read.
    pub closed spec fn input(&self) -> Seq<u8> {
        self.reader@
    }

    /// The block that was read last, or the scratch buffer.
    pub closed spec fn block(&self) -> CompressedBlock {
        self.buf
    }

    /// The sync marker of the file.
    pub closed spec fn marker(&self) -> Seq<u8> {
        self.marker@
    }

    /// Creates a new [`CompressedBlockStreamingIterator`].
    pub fn new(reader: ByteReader<'a>, marker: [u8; 16], scratch: Vec<u8>) -> (iterator: Self)
        ensures
            iterator.input() == reader@,
            iterator.marker() == marker@,
            iterator.block().number_of_rows == 0,
            iterator.block().data == scratch,
    {
        Self { reader, marker, buf: CompressedBlock::new(0, scratch) }
    }

    /// The buffer of [`CompressedBlockStreamingIterator`].
    pub fn buffer(&mut self) -> (buffer: &mut CompressedBlock)
        ensures
            *buffer == old(self).block(),
            final(self).block() == *final(buffer),
            final(self).input() == old(self).input(),
            final(self).marker() == old(self).marker(),
    {
        &mut self.buf
    }

    /// Deconstructs itself
    pub fn into_inner(self) -> (parts: (ByteReader<'a>, Vec<u8>))
        ensures
            parts.0@ == self.input(),
            parts.1 == self.block().data,
    {
        (self.reader, self.buf.data)
    }

    /// Reads the next block.
    pub fn advance(&mut self) -> (done: Result<(), Error>)
        ensures
            final(self).marker() == old(self).marker(),
            reads_block(
                old(self).input(),
                old(self).marker(),
                old(self).block(),
                done,
                final(self).block(),
                final(self).input(),
            ),
    {
        read_block(&mut self.reader, &mut self.buf, self.marker)
    }

    /// Reads the next block and shows it, if it has rows.
    pub fn next(&mut self) -> (current: Result<Option<&CompressedBlock>, Error>)
        ensures
            final(self).marker() == old(self).marker(),
            reads_block(
                old(self).input(),
                old(self).marker(),
                old(self).block(),
                match current {
                    Ok(_) => Ok(()),
                    Err(e) => Err(e),
                },
                final(self).block(),
                final(self).input(),
            ),
            match current {
                Ok(Some(block)) => *block == final(self).block() && block.number_of_rows > 0,
                Ok(None) => final(self).block().number_of_rows == 0,
                Err(_) => true,
            },
    {
        self.advance()?;
        Ok(self.get())
    }

    /// The current block, if it has rows.
    pub fn get(&self) -> (current: Option<&CompressedBlock>)
        ensures
            match current {
                Some(block) => *block == self.block() && block.number_of_rows > 0,
                None => self.block().number_of_rows == 0,
            },
    {
        if self.buf.number_of_rows > 0 {
            Some(&self.buf)
        } else {
            None
        }
    }
}

} // verus!
