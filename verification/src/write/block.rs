//! Writing a block.
use crate::error::Error;
use crate::file::CompressedBlock;
use crate::varint::zigzag_bytes;
use crate::write::encode::{binary_bytes, write_all, write_binary, zigzag_encode};
use crate::write::file::SYNC_NUMBER;
use vstd::prelude::*;

verus! {

/// The bytes of a block: the number of rows, the payload with its length
/// before it, and the sync marker.
pub open spec fn block_bytes(rows: usize, payload: Seq<u8>, marker: Seq<u8>) -> Seq<u8> {
    zigzag_bytes(rows as i64) + binary_bytes(payload) + marker
}

/// Writes a [`CompressedBlock`] to `writer`
pub fn write_block(writer: &mut Vec<u8>, block: &CompressedBlock) -> (result: Result<(), Error>)
    ensures
        result is Ok,
        final(writer)@ == old(writer)@ + block_bytes(
            block.number_of_rows,
            block.data@,
            SYNC_NUMBER@,
        ),
{
    zigzag_encode(#[verifier::truncate] (block.number_of_rows as i64), writer)?;
    write_binary(block.data.as_slice(), writer)?;
    write_all(writer, SYNC_NUMBER.as_slice());
    assert(writer@ =~= old(writer)@ + block_bytes(block.number_of_rows, block.data@, SYNC_NUMBER@));
    Ok(())
}

} // verus!
