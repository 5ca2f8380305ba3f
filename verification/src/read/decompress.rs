//! Decompression of a block, and the iterator of decompressed blocks.
use crate::codec::{
    be_value, crc32, crc32_iso_hdlc, get_be_value, inflate, inflated, snappy_decoded,
    snappy_decompress, snappy_decompress_len,
};
use crate::error::Error;
use crate::file::{Block, CompressedBlock, Compression};
use crate::read::block::{parsed_block, CompressedBlockStreamingIterator, ParsedBlock};
use crate::read::reader::{took, ByteReader};
use vstd::prelude::*;
use vstd::slice::slice_subrange;

verus! {

/// What a Snappy payload holds: its last four bytes are the checksum, most
/// significant byte first, of what the bytes before them decode to. There
/// is nothing where the payload has no room for a checksum, where the bytes
/// do not decode, or where the checksum is another.
pub open spec fn decoded_snappy(payload: Seq<u8>) -> Option<Seq<u8>> {
    if payload.len() < 4 {
        None
    } else {
        match snappy_decoded(payload.take(payload.len() - 4)) {
            Some(data) => if crc32_iso_hdlc(data) == be_value(payload.skip(payload.len() - 4)) {
                Some(data)
            } else {
                None
            },
            None => None,
        }
    }
}

/// The data of a block with the payload `payload`, under a codec: the
/// payload itself without one, else what it decodes to.
pub open spec fn decoded_block(payload: Seq<u8>, compression: Option<Compression>) -> Option<
    Seq<u8>,
> {
    match compression {
        None => Some(payload),
        Some(Compression::Deflate) => inflated(payload),
        Some(Compression::Snappy) => decoded_snappy(payload),
    }
}

/// Decompresses a [`CompressedBlock`] into [`Block`]. Returns whether the
/// buffers were swapped: without a codec the payload changes hands and the
/// compressed block gets the other buffer; with one it is left as it is.
/// A payload that does not decode, or whose checksum is wrong, is out of
/// spec.
pub fn decompress_block(
    block: &mut CompressedBlock,
    decompressed: &mut Block,
    compression: Option<Compression>,
) -> (swapped: Result<bool, Error>)
    ensures
        final(block).number_of_rows == old(block).number_of_rows,
        final(decompressed).number_of_rows == old(block).number_of_rows,
        match decoded_block(old(block).data@, compression) {
            Some(data) => {
                &&& swapped == Ok::<bool, Error>(compression is None)
                &&& final(decompressed).data@ == data
            },
            None => swapped == Err::<bool, Error>(Error::OutOfSpec),
        },
        compression is None ==> {
            &&& final(block).data == old(decompressed).data
            &&& final(decompressed).data == old(block).data
        },
        compression is Some ==> final(block).data == old(block).data,
{
    decompressed.number_of_rows = block.number_of_rows;
    match compression {
        None => {
            std::mem::swap(&mut block.data, &mut decompressed.data);
            Ok(true)
        },
        Some(Compression::Deflate) => {
            decompressed.data.clear();
            if !inflate(block.data.as_slice(), &mut decompressed.data) {
                return Err(Error::OutOfSpec);
            }
            assert(decompressed.data@ =~= decompressed.data@.skip(0));
            Ok(false)
        },
        Some(Compression::Snappy) => {
            let payload = block.data.as_slice();
            let total = payload.len();
            if total < 4 {
                return Err(Error::OutOfSpec);
            }
            let crc = slice_subrange(payload, total - 4, total);
            let body = slice_subrange(payload, 0, total - 4);
            let len = match snappy_decompress_len(body) {
                Some(len) => len,
                None => {
                    return Err(Error::OutOfSpec);
                },
            };
            decompressed.data.clear();
            decompressed.data.resize(len, 0);
            let written = match snappy_decompress(body, &mut decompressed.data) {
                Some(n) => n,
                None => {
                    return Err(Error::OutOfSpec);
                },
            };
            assert(decompressed.data@.take(written as int) =~= decompressed.data@);
            let expected_crc = get_be_value(crc[0], crc[1], crc[2], crc[3]);
            assert(seq![crc@[0], crc@[1], crc@[2], crc@[3]] =~= block.data@.skip(total - 4));
            let actual_crc = crc32(decompressed.data.as_slice());
            if expected_crc != actual_crc {
                return Err(Error::OutOfSpec);
            }
            Ok(false)
        },
    }
}

/// What reading and decompressing a block does to the current block and
/// the input, and how it ends. At the end of the blocks the current block
/// has 0 rows; a block that is read is taken from the input and its payload
/// decompressed; bytes that are no block of the file and a payload that does
/// not decompress are out of spec.
pub open spec fn reads_decoded_block(
    input: Seq<u8>,
    marker: Seq<u8>,
    compression: Option<Compression>,
    done: Result<(), Error>,
    after: Block,
    rest: Seq<u8>,
) -> bool {
    match parsed_block(input, marker) {
        ParsedBlock::End { taken } => {
            &&& done is Ok
            &&& after.number_of_rows == 0
            &&& took(input, taken, rest)
        },
        ParsedBlock::Block { rows, payload, taken } => match decoded_block(payload, compression) {
            Some(data) => {
                &&& done is Ok
                &&& after.number_of_rows == rows
                &&& after.data@ == data
                &&& took(input, taken, rest)
            },
            None => done == Err::<(), Error>(Error::OutOfSpec),
        },
        ParsedBlock::OutOfSpec => done == Err::<(), Error>(Error::OutOfSpec),
    }
}

/// An iterator of the decompressed [`Block`]s of a file: `advance` reads
/// and decompresses the next block, `get` shows it.
pub struct BlockStreamingIterator<'a> {
    blocks: CompressedBlockStreamingIterator<'a>,
    compression: Option<Compression>,
    buf: Block,
    was_swapped: bool,
}

/// Returns an iterator of the [`Block`]s that `reader` holds.
pub fn block_iterator<'a>(
    reader: ByteReader<'a>,
    compression: Option<Compression>,
    marker: [u8; 16],
) -> (iterator: BlockStreamingIterator<'a>)
    ensures
        iterator.input() == reader@,
        iterator.compression() == compression,
        iterator.marker() == marker@,
        iterator.block().number_of_rows == 0,
{
    BlockStreamingIterator::new(reader, compression, marker)
}

impl<'a> BlockStreamingIterator<'a> {
    /// The input that is left to read.
    pub closed spec fn input(&self) -> Seq<u8> {
        self.blocks.input()
    }

    /// The block that was decompressed last, or the scratch buffer.
    pub closed spec fn block(&self) -> Block {
        self.buf
    }

    /// The sync marker of the file.
    pub closed spec fn marker(&self) -> Seq<u8> {
        self.blocks.marker()
    }

    /// The codec of the file.
    pub closed spec fn compression(&self) -> Option<Compression> {
        self.compression
    }

    /// Returns a new [`BlockStreamingIterator`].
    pub fn new(
        reader: ByteReader<'a>,
        compression: Option<Compression>,
        marker: [u8; 16],
    ) -> (iterator: Self)
        ensures
            iterator.input() == reader@,
            iterator.compression() == compression,
            iterator.marker() == marker@,
            iterator.block().number_of_rows == 0,
    {
        Self {
            blocks: CompressedBlockStreamingIterator::new(reader, marker, Vec::new()),
            compression,
            buf: Block::new(0, Vec::new()),
            was_swapped: false,
        }
    }

    /// Deconstructs itself into its internal reader
    pub fn into_inner(self) -> (reader: ByteReader<'a>)
        ensures
            reader@ == self.input(),
    {
        self.blocks.into_inner().0
    }

    /// Reads and decompresses the next block.
    pub fn advance(&mut self) -> (done: Result<(), Error>)
        ensures
            final(self).marker() == old(self).marker(),
            final(self).compression() == old(self).compression(),
            reads_decoded_block(
                old(self).input(),
                old(self).marker(),
                old(self).compression(),
                done,
                final(self).block(),
                final(self).input(),
            ),
    {
        if self.was_swapped {
            let inner = self.blocks.buffer();
            std::mem::swap(&mut inner.data, &mut self.buf.data);
            self.was_swapped = false;
        }
        self.blocks.advance()?;
        if self.blocks.get().is_none() {
            self.buf.number_of_rows = 0;
            return Ok(());
        }
        self.was_swapped = decompress_block(self.blocks.buffer(), &mut self.buf, self.compression)?;
        Ok(())
    }

    /// Reads and decompresses the next block and shows it, if it has rows.
    pub fn next(&mut self) -> (current: Result<Option<&Block>, Error>)
        ensures
            final(self).marker() == old(self).marker(),
            final(self).compression() == old(self).compression(),
            reads_decoded_block(
                old(self).input(),
                old(self).marker(),
                old(self).compression(),
                match current {
                    Ok(_) => Ok(()),
                    Err(e) => Err(e),
                },
                final(self).block(),
                final(self).input(),
            ),
            match current {
                Ok(Some(block)) => *block == final(self).block() && block.number_of_rows > 0,
                Ok(None) => final(self).block().number_of_rows == 0,
                Err(_) => true,
            },
    {
        self.advance()?;
        Ok(self.get())
    }

    /// The current block, if it has rows.
    pub fn get(&self) -> (current: Option<&Block>)
        ensures
            match current {
                Some(block) => *block == self.block() && block.number_of_rows > 0,
                None => self.block().number_of_rows == 0,
            },
    {
        if self.buf.number_of_rows > 0 {
            Some(&self.buf)
        } else {
            None
        }
    }
}

} // verus!
