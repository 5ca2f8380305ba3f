//! What holds of writing a file and reading it back.
use crate::codec::{
    be_bytes, be_value, crc32_iso_hdlc, deflated, inflated, lemma_be_value_of_bytes, snappy_decoded,
    snappy_encoded,
};
use crate::file::Compression;
use crate::read::{parsed_metadata, ParsedMetadata};
use crate::read::block::{parsed_block, ParsedBlock};
use crate::read::decode::{
    codec_of, parsed_binary, parsed_chunk, parsed_entries, parsed_entry, parsed_header, HeaderEntry,
};
use crate::read::decompress::decoded_block;
use crate::schema::{RecordView, SchemaView};
use crate::schema::de::SchemaError;
use crate::schema::json::{get, index_of_last, JsonView};
use crate::schema::laws::lemma_parse_serialize;
use crate::schema::se::schema_json;
use crate::schema::text::{json_of_text, schema_of_text, schema_text, text_of_json};
use crate::varint::{
    decode_zigzag, lemma_decode_cut, lemma_decode_encode, lemma_decode_from_error,
    lemma_varint_len, zigzag,
    zigzag_bytes, DecodeError,
};
use crate::write::block::block_bytes;
use crate::write::compression::encoded_block;
use crate::write::encode::binary_bytes;
use crate::write::file::{
    entries_bytes, header_bytes, header_entries, metadata_bytes, AVRO_MAGIC, SYNC_NUMBER,
};
use vstd::prelude::*;
use vstd::utf8::{encode_utf8, encode_utf8_decode_utf8, encode_utf8_valid_utf8};

verus! {

/// A number of rows is the same after it was written and read: as a signed
/// 64-bit integer and back.
pub proof fn lemma_rows_round_trip(rows: usize)
    ensures
        (rows as i64) as usize == rows,
{
    assert((rows as i64) as usize == rows) by (bit_vector);
}

/// Reading a block that was written gives the block back, whatever follows
/// it: its rows, its payload, and the number of its bytes. A block without
/// rows is left out, because it stands for the end of the blocks.
pub proof fn lemma_read_written_block(
    rows: usize,
    payload: Seq<u8>,
    marker: Seq<u8>,
    rest: Seq<u8>,
)
    requires
        rows != 0,
        payload.len() <= i64::MAX,
        marker.len() == 16,
    ensures
        parsed_block(block_bytes(rows, payload, marker) + rest, marker) == (ParsedBlock::Block {
            rows,
            payload,
            taken: block_bytes(rows, payload, marker).len(),
        }),
{
    let bytes = block_bytes(rows, payload, marker) + rest;
    let first = zigzag_bytes(rows as i64);
    let second = zigzag_bytes(payload.len() as i64);
    lemma_rows_round_trip(rows);
    lemma_decode_encode(rows as i64, second + payload + marker + rest);
    assert(bytes =~= first + (second + payload + marker + rest));
    assert(bytes.skip(first.len() as int) =~= second + (payload + marker + rest));
    lemma_decode_encode(payload.len() as i64, payload + marker + rest);
    let start: int = (first.len() + second.len()) as int;
    assert(bytes.subrange(start, start + payload.len()) =~= payload);
    assert(bytes.subrange(start + payload.len(), start + payload.len() + 16) =~= marker);
    assert(block_bytes(rows, payload, marker).len() == start + payload.len() + 16);
}

/// Whether the codec gives `data` back after it compressed it. This is what
/// the crates that do the work are for; nothing here shows it.
pub open spec fn codec_inverts(data: Seq<u8>, compression: Option<Compression>) -> bool {
    match compression {
        None => true,
        Some(Compression::Deflate) => inflated(deflated(data)) == Some(data),
        Some(Compression::Snappy) => snappy_decoded(snappy_encoded(data)) == Some(data),
    }
}

/// Decompressing the payload that a block was compressed to gives the data
/// back: always without a codec, and with a codec where the codec inverts
/// itself on the data.
pub proof fn lemma_decode_encoded_block(data: Seq<u8>, compression: Option<Compression>)
    requires
        encoded_block(data, compression) is Some,
        codec_inverts(data, compression),
    ensures
        decoded_block(encoded_block(data, compression)->Some_0, compression) == Some(data),
{
    if compression == Some(Compression::Snappy) {
        let body = snappy_encoded(data);
        let sum = be_bytes(crc32_iso_hdlc(data));
        let payload = body + sum;
        lemma_be_value_of_bytes(crc32_iso_hdlc(data));
        assert(payload.take(payload.len() - 4) =~= body);
        assert(payload.skip(payload.len() - 4) =~= sum);
    }
}

/// A payload in Snappy whose checksum is not that of what it decodes to
/// holds nothing.
pub proof fn lemma_snappy_checksum_mismatch(payload: Seq<u8>)
    requires
        payload.len() >= 4,
        snappy_decoded(payload.take(payload.len() - 4)) is Some,
        crc32_iso_hdlc(snappy_decoded(payload.take(payload.len() - 4))->Some_0) != be_value(
            payload.skip(payload.len() - 4),
        ),
    ensures
        decoded_block(payload, Some(Compression::Snappy)) is None,
{
}

/// Bytes after a payload that are not the sync marker of the file make the
/// block out of spec.
pub proof fn lemma_marker_mismatch(
    rows: usize,
    payload: Seq<u8>,
    written: Seq<u8>,
    marker: Seq<u8>,
    rest: Seq<u8>,
)
    requires
        rows != 0,
        payload.len() <= i64::MAX,
        written.len() == 16,
        written != marker,
    ensures
        parsed_block(block_bytes(rows, payload, written) + rest, marker) == ParsedBlock::OutOfSpec,
{
    let bytes = block_bytes(rows, payload, written) + rest;
    let first = zigzag_bytes(rows as i64);
    let second = zigzag_bytes(payload.len() as i64);
    lemma_rows_round_trip(rows);
    lemma_decode_encode(rows as i64, second + payload + written + rest);
    assert(bytes =~= first + (second + payload + written + rest));
    assert(bytes.skip(first.len() as int) =~= second + (payload + written + rest));
    lemma_decode_encode(payload.len() as i64, payload + written + rest);
    let start: int = (first.len() + second.len()) as int;
    assert(bytes.subrange(start + payload.len(), start + payload.len() + 16) =~= written);
}

/// A block that is written without rows ends the blocks when it is read,
/// whatever its payload is said to be and whatever follows.
pub proof fn lemma_block_without_rows(size: i64, rest: Seq<u8>, marker: Seq<u8>)
    ensures
        parsed_block(zigzag_bytes(0) + zigzag_bytes(size) + rest, marker) == (ParsedBlock::End {
            taken: zigzag_bytes(0).len() + zigzag_bytes(size).len(),
        }),
{
    let bytes = zigzag_bytes(0) + zigzag_bytes(size) + rest;
    lemma_decode_encode(0, zigzag_bytes(size) + rest);
    assert(bytes =~= zigzag_bytes(0) + (zigzag_bytes(size) + rest));
    assert(bytes.skip(zigzag_bytes(0).len() as int) =~= zigzag_bytes(size) + rest);
    lemma_decode_encode(size, rest);
}

/// A block that was written and is cut short, but not to nothing, is out of
/// spec, wherever it is cut.
pub proof fn lemma_cut_block(rows: usize, payload: Seq<u8>, marker: Seq<u8>, k: nat)
    requires
        rows != 0,
        payload.len() <= i64::MAX,
        marker.len() == 16,
        0 < k < block_bytes(rows, payload, marker).len(),
    ensures
        parsed_block(block_bytes(rows, payload, marker).take(k as int), marker)
            == ParsedBlock::OutOfSpec,
{
    let first = zigzag_bytes(rows as i64);
    let second = zigzag_bytes(payload.len() as i64);
    let bytes = block_bytes(rows, payload, marker).take(k as int);
    lemma_rows_round_trip(rows);
    if k < first.len() {
        assert(bytes =~= first.take(k as int));
        lemma_decode_cut(rows as i64, k);
    } else {
        let tail = (second + payload + marker).take(k - first.len());
        assert(bytes =~= first + tail);
        lemma_decode_encode(rows as i64, tail);
        assert(bytes.skip(first.len() as int) =~= tail);
        if k < first.len() + second.len() {
            assert(tail =~= second.take(k - first.len()));
            if k > first.len() {
                lemma_decode_cut(payload.len() as i64, (k - first.len()) as nat);
            }
        } else {
            let rest = (payload + marker).take(k - first.len() - second.len());
            assert(tail =~= second + rest);
            lemma_decode_encode(payload.len() as i64, rest);
        }
    }
}

/// Where the input ends before the first byte of a block the blocks end;
/// where it ends later within the number of rows the input is out of spec.
pub proof fn lemma_truncated_block(bytes: Seq<u8>, marker: Seq<u8>)
    ensures
        bytes.len() == 0 ==> parsed_block(bytes, marker) == (ParsedBlock::End { taken: 0 }),
        bytes.len() > 0 && decode_zigzag(bytes) is Err ==> parsed_block(bytes, marker)
            == ParsedBlock::OutOfSpec,
{
    if bytes.len() > 0 && decode_zigzag(bytes) is Err {
        lemma_end_of_file_only_at_start(bytes);
    }
}

/// Decoding reports the end of the input only where there is no input.
pub proof fn lemma_end_of_file_only_at_start(bytes: Seq<u8>)
    ensures
        decode_zigzag(bytes) == Err::<(i64, nat), DecodeError>(DecodeError::EndOfFile)
            <==> bytes.len() == 0,
{
    lemma_decode_from_error(bytes, 0, 0);
}

/// Length-prefixed bytes that were written are read back, whatever follows
/// them.
pub proof fn lemma_read_written_binary(bytes: Seq<u8>, rest: Seq<u8>)
    requires
        bytes.len() <= i64::MAX,
    ensures
        parsed_binary(binary_bytes(bytes) + rest) == Some((bytes, binary_bytes(bytes).len())),
{
    let prefix = zigzag_bytes(bytes.len() as i64);
    lemma_decode_encode(bytes.len() as i64, bytes + rest);
    assert(binary_bytes(bytes) + rest =~= prefix + (bytes + rest));
    assert((binary_bytes(bytes) + rest).subrange(
        prefix.len() as int,
        (prefix.len() + bytes.len()) as int,
    ) =~= bytes);
}

/// The bytes of an entry of the metadata: the key in UTF-8 and the value,
/// both with their length before them.
pub open spec fn entry_bytes(entry: HeaderEntry) -> Seq<u8> {
    binary_bytes(encode_utf8(entry.0)) + binary_bytes(entry.1)
}

/// Whether key and value of an entry are short enough for their lengths to
/// be written.
pub open spec fn entry_fits(entry: HeaderEntry) -> bool {
    encode_utf8(entry.0).len() <= i64::MAX && entry.1.len() <= i64::MAX
}

/// An entry of the metadata that was written is read back, whatever
/// follows it.
pub proof fn lemma_read_written_entry(entry: HeaderEntry, rest: Seq<u8>)
    requires
        entry_fits(entry),
    ensures
        parsed_entry(entry_bytes(entry) + rest) == Some((entry, entry_bytes(entry).len())),
{
    let key = encode_utf8(entry.0);
    let bytes = entry_bytes(entry) + rest;
    encode_utf8_valid_utf8(entry.0);
    encode_utf8_decode_utf8(entry.0);
    lemma_read_written_binary(key, binary_bytes(entry.1) + rest);
    assert(bytes =~= binary_bytes(key) + (binary_bytes(entry.1) + rest));
    assert(bytes.skip(binary_bytes(key).len() as int) =~= binary_bytes(entry.1) + rest);
    lemma_read_written_binary(entry.1, rest);
}

/// The first `n` entries that were written are read back, whatever follows
/// them.
pub proof fn lemma_read_written_entries(entries: Seq<HeaderEntry>, n: nat, rest: Seq<u8>)
    requires
        n <= entries.len(),
        forall|i: int| 0 <= i < entries.len() ==> entry_fits(#[trigger] entries[i]),
    ensures
        parsed_entries(entries_bytes(entries, n) + rest, n) == Some(
            (entries.take(n as int), entries_bytes(entries, n).len()),
        ),
    decreases n,
{
    if n == 0 {
        assert(entries.take(0) =~= Seq::empty());
    } else {
        let front = entries_bytes(entries, (n - 1) as nat);
        let entry = entries[n - 1];
        let bytes = entries_bytes(entries, n) + rest;
        assert(entries_bytes(entries, n) =~= front + entry_bytes(entry));
        assert(bytes =~= front + (entry_bytes(entry) + rest));
        lemma_read_written_entries(entries, (n - 1) as nat, entry_bytes(entry) + rest);
        assert(bytes.skip(front.len() as int) =~= entry_bytes(entry) + rest);
        lemma_read_written_entry(entry, rest);
        assert(entries.take(n as int) =~= entries.take(n - 1).push(entry));
    }
}

/// Every entry that is written takes at least two bytes.
pub proof fn lemma_read_written_entries_len(entries: Seq<HeaderEntry>, n: nat)
    requires
        n <= entries.len(),
    ensures
        entries_bytes(entries, n).len() >= 2 * n,
    decreases n,
{
    if n > 0 {
        lemma_read_written_entries_len(entries, (n - 1) as nat);
        lemma_varint_len(zigzag(encode_utf8(entries[n - 1].0).len() as i64));
        lemma_varint_len(zigzag(entries[n - 1].1.len() as i64));
    }
}

/// A metadata map that was written as one chunk is read back, whatever
/// follows it.
pub proof fn lemma_read_written_header(entries: Seq<HeaderEntry>, rest: Seq<u8>)
    requires
        0 < entries.len() <= i64::MAX,
        forall|i: int| 0 <= i < entries.len() ==> entry_fits(#[trigger] entries[i]),
    ensures
        parsed_header(header_bytes(entries) + rest) == Some(
            (entries, header_bytes(entries).len()),
        ),
{
    let count = zigzag_bytes(entries.len() as i64);
    let body = entries_bytes(entries, entries.len());
    let end = seq![0u8];
    let bytes = header_bytes(entries) + rest;
    lemma_decode_encode(entries.len() as i64, body + end + rest);
    assert(bytes =~= count + (body + end + rest));
    assert(bytes.skip(count.len() as int) =~= body + (end + rest));
    lemma_read_written_entries(entries, entries.len(), end + rest);
    assert(entries.take(entries.len() as int) =~= entries);
    assert(parsed_chunk(bytes) == Some((entries, (count.len() + body.len()) as nat, false)));
    let tail = bytes.skip((count.len() + body.len()) as int);
    assert(tail =~= end + rest);
    assert(zigzag_bytes(0) =~= end);
    lemma_decode_encode(0, rest);
    assert(parsed_chunk(tail) == Some((Seq::<HeaderEntry>::empty(), 1nat, true)));
    assert(parsed_header(tail) == Some((Seq::<HeaderEntry>::empty(), 1nat)));
    assert(entries + Seq::<HeaderEntry>::empty() =~= entries);
    lemma_read_written_entries_len(entries, entries.len());
    assert(header_bytes(entries).len() == count.len() + body.len() + 1);
}

/// The metadata that is written gives its schema text under `avro.schema`
/// and names its codec under `avro.codec`.
pub proof fn lemma_header_entries_lookup(schema: SchemaView, compression: Option<Compression>)
    ensures
        get(header_entries(schema, compression), "avro.schema"@) == Some(
            encode_utf8(schema_text(schema)),
        ),
        codec_of(get(header_entries(schema, compression), "avro.codec"@)) == compression,
{
    reveal_strlit("avro.schema");
    reveal_strlit("avro.codec");
    reveal_strlit("snappy");
    reveal_strlit("deflate");
    assert("avro.schema"@.len() == 11 && "avro.codec"@.len() == 10);
    assert("snappy"@.len() == 6 && "deflate"@.len() == 7);
    encode_utf8_decode_utf8("snappy"@);
    encode_utf8_decode_utf8("deflate"@);
    reveal_with_fuel(index_of_last, 3);
}

/// Whether `serde_json` reads a JSON value back from the text that it wrote
/// for it. This is what the crate is for; nothing here shows it.
pub open spec fn json_reads_back(json: JsonView) -> bool {
    json_of_text(encode_utf8(text_of_json(json))) == Some(json)
}

/// Where `serde_json` reads the JSON form of a schema back from its text,
/// the text describes the schema.
pub proof fn lemma_text_round_trip(schema: SchemaView)
    requires
        json_reads_back(schema_json(schema)),
    ensures
        schema_of_text(encode_utf8(schema_text(schema))) == Ok::<SchemaView, SchemaError>(schema),
{
    lemma_parse_serialize(schema);
}

/// Reading the header that was written for a record and a codec gives both
/// back, with the sync marker that is written and the number of bytes of
/// the header, whatever follows it; this where `serde_json` reads the JSON
/// form of the record back from its text.
pub proof fn lemma_read_written_metadata(
    record: RecordView,
    compression: Option<Compression>,
    rest: Seq<u8>,
)
    requires
        json_reads_back(schema_json(SchemaView::Record(record))),
        encode_utf8(schema_text(SchemaView::Record(record))).len() <= i64::MAX,
    ensures
        parsed_metadata(metadata_bytes(record, compression) + rest) == Some(
            ParsedMetadata {
                record,
                compression,
                marker: SYNC_NUMBER@,
                taken: metadata_bytes(record, compression).len(),
            },
        ),
{
    let schema = SchemaView::Record(record);
    let entries = header_entries(schema, compression);
    let header = header_bytes(entries);
    let bytes = metadata_bytes(record, compression) + rest;
    assert(AVRO_MAGIC@.len() == 4 && SYNC_NUMBER@.len() == 16);
    reveal_strlit("avro.schema");
    reveal_strlit("avro.codec");
    reveal_strlit("snappy");
    reveal_strlit("deflate");
    lemma_ascii_len("avro.schema"@);
    lemma_ascii_len("avro.codec"@);
    lemma_ascii_len("snappy"@);
    lemma_ascii_len("deflate"@);
    assert forall|i: int| 0 <= i < entries.len() implies entry_fits(#[trigger] entries[i]) by {}
    assert(bytes =~= AVRO_MAGIC@ + (header + (SYNC_NUMBER@ + rest)));
    assert(bytes.take(4) =~= AVRO_MAGIC@);
    assert(bytes.skip(4) =~= header + (SYNC_NUMBER@ + rest));
    lemma_read_written_header(entries, SYNC_NUMBER@ + rest);
    lemma_header_entries_lookup(schema, compression);
    lemma_text_round_trip(schema);
    assert(bytes.subrange((4 + header.len()) as int, (4 + header.len() + 16) as int)
        =~= SYNC_NUMBER@);
}

/// Reading a file that was written gives back what was written: the
/// header gives the record, the codec and the sync marker, the bytes after
/// it give the block, and the payload of the block gives the data. This
/// holds for a block with rows, where `serde_json` reads the JSON form of
/// the record back from its text and the codec inverts itself on the data.
pub proof fn lemma_read_written_file(
    record: RecordView,
    compression: Option<Compression>,
    rows: usize,
    data: Seq<u8>,
    rest: Seq<u8>,
)
    requires
        rows != 0,
        json_reads_back(schema_json(SchemaView::Record(record))),
        encode_utf8(schema_text(SchemaView::Record(record))).len() <= i64::MAX,
        encoded_block(data, compression) is Some,
        encoded_block(data, compression)->Some_0.len() <= i64::MAX,
        codec_inverts(data, compression),
    ensures
        ({
            let header = metadata_bytes(record, compression);
            let payload = encoded_block(data, compression)->Some_0;
            let block = block_bytes(rows, payload, SYNC_NUMBER@);
            let file = header + block + rest;
            &&& parsed_metadata(file) == Some(
                ParsedMetadata {
                    record,
                    compression,
                    marker: SYNC_NUMBER@,
                    taken: header.len(),
                },
            )
            &&& parsed_block(file.skip(header.len() as int), SYNC_NUMBER@) == (ParsedBlock::Block {
                rows,
                payload,
                taken: block.len(),
            })
            &&& decoded_block(payload, compression) == Some(data)
        }),
{
    let header = metadata_bytes(record, compression);
    let payload = encoded_block(data, compression)->Some_0;
    let block = block_bytes(rows, payload, SYNC_NUMBER@);
    let file = header + block + rest;
    assert(SYNC_NUMBER@.len() == 16);
    assert(file =~= header + (block + rest));
    lemma_read_written_metadata(record, compression, block + rest);
    assert(file.skip(header.len() as int) =~= block + rest);
    lemma_read_written_block(rows, payload, SYNC_NUMBER@, rest);
    lemma_decode_encoded_block(data, compression);
}

/// Characters below 128 take one byte each in UTF-8.
proof fn lemma_ascii_len(text: Seq<char>)
    requires
        vstd::utf8::is_ascii_chars(text),
    ensures
        encode_utf8(text).len() == text.len(),
{
    vstd::utf8::is_ascii_chars_encode_utf8(text);
}

} // verus!
