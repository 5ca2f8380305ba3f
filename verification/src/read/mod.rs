//! Functions to read and decompress files' metadata and blocks.
use crate::error::Error;
use crate::file::{Compression, FileMetadata};
use crate::read::block::same_bytes;
use crate::read::decode::{deserialize_header, parsed_file_schema, parsed_header, read_file_marker};
use crate::schema::{RecordView, Schema, SchemaView};
use crate::write::file::AVRO_MAGIC;
use vstd::prelude::*;

pub mod block;
pub mod decode;
pub mod decompress;
pub mod reader;

pub use block::{read_block, CompressedBlockStreamingIterator};
pub use decode::{read_header, zigzag_i64};
pub use decompress::{block_iterator, decompress_block, BlockStreamingIterator};
pub use reader::{took, ByteReader};

pub use crate::varint::DecodeError;

verus! {

/// What the header of a file holds, and the number of its bytes.
pub struct ParsedMetadata {
    pub record: RecordView,
    pub compression: Option<Compression>,
    pub marker: Seq<u8>,
    pub taken: nat,
}

/// The header at the front of `bytes`: the magic bytes, the metadata map,
/// whose schema must be a record, and the 16 bytes of the sync marker.
/// There is none where any of these is missing or wrong.
pub open spec fn parsed_metadata(bytes: Seq<u8>) -> Option<ParsedMetadata> {
    if bytes.len() < 4 || bytes.take(4) != AVRO_MAGIC@ {
        None
    } else {
        match parsed_header(bytes.skip(4)) {
            Some((entries, taken)) => match parsed_file_schema(entries) {
                Some((SchemaView::Record(record), compression)) => if 4 + taken + 16
                    > bytes.len() {
                    None
                } else {
                    Some(
                        ParsedMetadata {
                            record,
                            compression,
                            marker: bytes.subrange((4 + taken) as int, (4 + taken + 16) as int),
                            taken: (4 + taken + 16) as nat,
                        },
                    )
                },
                _ => None,
            },
            None => None,
        }
    }
}

/// Reads the metadata from `reader` into [`FileMetadata`]. Where the bytes
/// are no header of an Avro file the error is `OutOfSpec` and nothing is
/// taken.
pub fn read_metadata(reader: &mut ByteReader) -> (metadata: Result<FileMetadata, Error>)
    ensures
        match parsed_metadata(old(reader)@) {
            Some(parsed) => {
                &&& metadata is Ok
                &&& metadata->Ok_0.record@ == parsed.record
                &&& metadata->Ok_0.compression == parsed.compression
                &&& metadata->Ok_0.marker@ == parsed.marker
                &&& took(old(reader)@, parsed.taken, final(reader)@)
            },
            None => {
                &&& metadata == Err::<FileMetadata, Error>(Error::OutOfSpec)
                &&& final(reader)@ == old(reader)@
            },
        },
{
    let mut cursor = *reader;
    let ghost all = old(reader)@;
    let magic_number = match cursor.read_exact(4) {
        Some(magic_number) => magic_number,
        None => {
            return Err(Error::OutOfSpec);
        },
    };
    if !same_bytes(magic_number, AVRO_MAGIC.as_slice()) {
        return Err(Error::OutOfSpec);
    }
    let header = read_header(&mut cursor)?;
    let (schema, compression) = deserialize_header(&header)?;
    let ghost taken = parsed_header(all.skip(4))->Some_0.1;
    let marker = read_file_marker(&mut cursor)?;
    proof {
        assert(all.skip(4).skip(taken as int).take(16) =~= all.subrange(
            (4 + taken) as int,
            (4 + taken + 16) as int,
        ));
        assert(all.skip(4).skip(taken as int).skip(16) =~= all.skip((4 + taken + 16) as int));
    }
    let record = if let Schema::Record(record) = schema {
        record
    } else {
        return Err(Error::OutOfSpec);
    };
    *reader = cursor;
    Ok(FileMetadata { record, compression, marker })
}

} // verus!
