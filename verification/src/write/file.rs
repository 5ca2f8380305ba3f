//! Writing the header of a file.
use crate::error::Error;
use crate::file::Compression;
use crate::read::decode::header_view;
use crate::schema::{Record, RecordView, Schema, SchemaView};
use crate::schema::text::{schema_text, to_string};
use crate::varint::zigzag_bytes;
use crate::write::encode::{binary_bytes, write_all, write_binary, zigzag_encode};
use vstd::prelude::*;
use vstd::slice::slice_to_vec;
use vstd::utf8::encode_utf8;

verus! {

/// The sync marker that is written: the same for every file.
pub const SYNC_NUMBER: [u8; 16] = [1, 2, 3, 4, 1, 2, 3, 4, 1, 2, 3, 4, 1, 2, 3, 4];

/// The four bytes that a file starts with: `O`, `b`, `j` and 1.
pub const AVRO_MAGIC: [u8; 4] = [0x4f, 0x62, 0x6a, 1];

/// The value of the metadata key `avro.codec` for a codec.
pub open spec fn codec_name(compression: Compression) -> Seq<char> {
    match compression {
        Compression::Snappy => "snappy"@,
        Compression::Deflate => "deflate"@,
    }
}

/// The entries of the metadata of a file: the JSON text of its schema under
/// `avro.schema` and, with a codec, its name under `avro.codec`.
pub open spec fn header_entries(schema: SchemaView, compression: Option<Compression>) -> Seq<
    (Seq<char>, Seq<u8>),
> {
    let first = seq![("avro.schema"@, encode_utf8(schema_text(schema)))];
    match compression {
        Some(c) => first.push(("avro.codec"@, encode_utf8(codec_name(c)))),
        None => first,
    }
}

/// The bytes of the first `n` entries: of each the key and the value, both
/// with their length before them.
pub open spec fn entries_bytes(entries: Seq<(Seq<char>, Seq<u8>)>, n: nat) -> Seq<u8>
    decreases n,
{
    if n == 0 || n > entries.len() {
        Seq::empty()
    } else {
        entries_bytes(entries, (n - 1) as nat) + binary_bytes(encode_utf8(entries[n - 1].0))
            + binary_bytes(entries[n - 1].1)
    }
}

/// The bytes of a metadata map that is written as one chunk: the number of
/// entries, the entries, and the count 0 that ends the map.
pub open spec fn header_bytes(entries: Seq<(Seq<char>, Seq<u8>)>) -> Seq<u8> {
    zigzag_bytes(entries.len() as i64) + entries_bytes(entries, entries.len()) + seq![0u8]
}

/// The bytes of the header of a file: the magic bytes, the metadata and the
/// sync marker.
pub open spec fn metadata_bytes(record: RecordView, compression: Option<Compression>) -> Seq<u8> {
    AVRO_MAGIC@ + header_bytes(header_entries(SchemaView::Record(record), compression))
        + SYNC_NUMBER@
}

/// Serializes a [`Schema`] and optional [`Compression`] into the entries of
/// an Avro header.
pub fn serialize_header(schema: &Schema, compression: Option<Compression>) -> (header: Result<
    Vec<(String, Vec<u8>)>,
    Error,
>)
    ensures
        header is Ok,
        header_view(header->Ok_0) == header_entries(schema@, compression),
{
    let text = to_string(schema);
    let mut header: Vec<(String, Vec<u8>)> = Vec::new();
    header.push(("avro.schema".to_owned(), slice_to_vec(text.as_str().as_bytes())));
    if let Some(compression) = compression {
        let value = match compression {
            Compression::Snappy => slice_to_vec("snappy".as_bytes()),
            Compression::Deflate => slice_to_vec("deflate".as_bytes()),
        };
        header.push(("avro.codec".to_owned(), value));
    }
    assert(header_view(header) =~= header_entries(schema@, compression));
    Ok(header)
}

/// Writes Avro's metadata to `writer`.
pub fn write_metadata(
    writer: &mut Vec<u8>,
    record: Record,
    compression: Option<Compression>,
) -> (result: Result<(), Error>)
    ensures
        result is Ok,
        final(writer)@ == old(writer)@ + metadata_bytes(record@, compression),
{
    write_all(writer, AVRO_MAGIC.as_slice());
    let schema = Schema::Record(record);
    write_schema(writer, &schema, compression)?;
    write_all(writer, SYNC_NUMBER.as_slice());
    assert(writer@ =~= old(writer)@ + metadata_bytes(record@, compression));
    Ok(())
}

/// Writes the metadata map of a file to `writer`.
pub fn write_schema(
    writer: &mut Vec<u8>,
    schema: &Schema,
    compression: Option<Compression>,
) -> (result: Result<(), Error>)
    ensures
        result is Ok,
        final(writer)@ == old(writer)@ + header_bytes(header_entries(schema@, compression)),
{
    let header = serialize_header(schema, compression)?;
    let ghost entries = header_view(header);
    zigzag_encode(#[verifier::truncate] (header.len() as i64), writer)?;
    let ghost start = writer@;
    let mut i: usize = 0;
    assert(start + entries_bytes(entries, 0) =~= start);
    while i < header.len()
        invariant
            i <= header@.len(),
            entries == header_view(header),
            writer@ == start + entries_bytes(entries, i as nat),
        decreases header@.len() - i,
    {
        let ghost before = writer@;
        write_binary(header[i].0.as_str().as_bytes(), writer)?;
        write_binary(header[i].1.as_slice(), writer)?;
        assert(writer@ =~= start + entries_bytes(entries, (i + 1) as nat));
        i += 1;
    }
    writer.push(0);
    assert(writer@ =~= old(writer)@ + header_bytes(entries));
    Ok(())
}

} // verus!
