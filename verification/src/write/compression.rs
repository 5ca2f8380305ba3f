//! Compression of a block.
use crate::codec::{
    be_bytes, crc32, crc32_iso_hdlc, deflate, deflated, put_be_bytes, snappy_compress,
    snappy_encoded, snappy_max_compress_len, snappy_max_len,
};
use crate::error::Error;
use crate::file::{Block, CompressedBlock, Compression};
use vstd::prelude::*;

verus! {

/// The payload of a block that holds `data`, under a codec: the data itself
/// without one, its raw deflate stream, or its raw Snappy stream followed
/// by the checksum of the data, most significant byte first. There is none
/// where the data is too large for Snappy.
pub open spec fn encoded_block(data: Seq<u8>, compression: Option<Compression>) -> Option<Seq<u8>> {
    match compression {
        None => Some(data),
        Some(Compression::Deflate) => Some(deflated(data)),
        Some(Compression::Snappy) => if snappy_max_len(data.len() as usize) == 0 {
            None
        } else {
            Some(snappy_encoded(data) + be_bytes(crc32_iso_hdlc(data)))
        },
    }
}

/// Compresses a [`Block`] to a [`CompressedBlock`]. Returns whether the
/// buffers were swapped: without a codec the data changes hands and the
/// block gets the other buffer; with one the block is left as it is.
pub fn compress(
    block: &mut Block,
    compressed: &mut CompressedBlock,
    compression: Option<Compression>,
) -> (swapped: Result<bool, Error>)
    ensures
        final(block).number_of_rows == old(block).number_of_rows,
        final(compressed).number_of_rows == old(block).number_of_rows,
        match encoded_block(old(block).data@, compression) {
            Some(payload) => {
                &&& swapped == Ok::<bool, Error>(compression is None)
                &&& final(compressed).data@ == payload
            },
            None => swapped == Err::<bool, Error>(Error::OutOfSpec),
        },
        compression is None ==> {
            &&& final(block).data == old(compressed).data
            &&& final(compressed).data == old(block).data
        },
        compression is Some ==> final(block).data == old(block).data,
{
    compressed.number_of_rows = block.number_of_rows;
    match compression {
        None => {
            std::mem::swap(&mut block.data, &mut compressed.data);
            Ok(true)
        },
        Some(Compression::Deflate) => {
            compressed.data.clear();
            deflate(block.data.as_slice(), &mut compressed.data);
            assert(compressed.data@ =~= deflated(block.data@));
            Ok(false)
        },
        Some(Compression::Snappy) => {
            compressed.data.clear();
            let required_len = snappy_max_compress_len(block.data.len());
            compressed.data.resize(required_len, 0);
            let compressed_bytes = match snappy_compress(
                block.data.as_slice(),
                &mut compressed.data,
            ) {
                Some(n) => n,
                None => {
                    return Err(Error::OutOfSpec);
                },
            };
            compressed.data.truncate(compressed_bytes);
            put_be_bytes(crc32(block.data.as_slice()), &mut compressed.data);
            Ok(false)
        },
    }
}

} // verus!
