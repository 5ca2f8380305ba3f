//! Functions that decode the parts of a file's header.
use crate::error::Error;
use crate::file::Compression;
use crate::read::block::same_bytes;
use crate::read::reader::{took, ByteReader};
use crate::schema::{Schema, SchemaView};
use crate::schema::json::{get, index_of_last, str_eq};
use crate::schema::text::{from_slice, schema_of_text};
use crate::varint::{
    decode_variable, decode_variable_from, decode_zigzag, lemma_decode_takes_bytes, unzigzag,
    DecodeError,
};
use vstd::prelude::*;
use vstd::slice::slice_to_vec;
use vstd::utf8::{decode_utf8, encode_utf8, valid_utf8};

verus! {

/// Reads a zigzag-encoded signed integer. On failure nothing is taken.
pub fn zigzag_i64(reader: &mut ByteReader) -> (result: Result<i64, DecodeError>)
    ensures
        match decode_zigzag(old(reader)@) {
            Ok((n, len)) => {
                &&& result == Ok::<i64, DecodeError>(n)
                &&& took(old(reader)@, len, final(reader)@)
            },
            Err(e) => {
                &&& result == Err::<i64, DecodeError>(e)
                &&& final(reader)@ == old(reader)@
            },
        },
{
    let z = decode_variable_exec(reader)?;
    let n = if z & 0x1 == 0 {
        (z >> 1) as i64
    } else {
        !(z >> 1) as i64
    };
    assert(n == unzigzag(z)) by (bit_vector)
        requires
            n == if z & 0x1 == 0 {
                (z >> 1) as i64
            } else {
                !(z >> 1) as i64
            },
    ;
    Ok(n)
}

/// Reads the unsigned integer of up to ten bytes. On failure nothing is
/// taken.
fn decode_variable_exec(reader: &mut ByteReader) -> (result: Result<u64, DecodeError>)
    ensures
        match decode_variable(old(reader)@) {
            Ok((z, len)) => {
                &&& result == Ok::<u64, DecodeError>(z)
                &&& took(old(reader)@, len, final(reader)@)
            },
            Err(e) => {
                &&& result == Err::<u64, DecodeError>(e)
                &&& final(reader)@ == old(reader)@
            },
        },
{
    let bytes = reader.remaining();
    let mut acc: u64 = 0;
    let mut j: usize = 0;
    loop
        invariant
            bytes@ == reader@,
            reader@ == old(reader)@,
            j <= 10,
            j <= bytes@.len(),
            decode_variable(bytes@) == decode_variable_from(bytes@, j as nat, acc),
        decreases 11 - j,
    {
        if j > 9 {
            return Err(DecodeError::OutOfSpec);
        }
        if j >= bytes.len() {
            if j == 0 {
                return Err(DecodeError::EndOfFile);
            }
            return Err(DecodeError::OutOfSpec);
        }
        let byte = bytes[j];
        let shift: u64 = 7 * (j as u64);
        acc = acc | (((byte & 0x7F) as u64) << shift);
        j += 1;
        if (byte >> 7) == 0 {
            assert(byte & 0x80 == 0) by (bit_vector)
                requires
                    (byte >> 7) == 0,
            ;
            let _ = reader.read_exact(j);
            return Ok(acc);
        }
        assert(byte & 0x80 != 0) by (bit_vector)
            requires
                (byte >> 7) != 0,
        ;
    }
}

/// The length-prefixed bytes at the front of `bytes` and the number of bytes
/// that they take, prefix included. There are none where the prefix is no
/// integer, is negative, or is more than what follows it.
pub open spec fn parsed_binary(bytes: Seq<u8>) -> Option<(Seq<u8>, nat)> {
    match decode_zigzag(bytes) {
        Ok((len, prefix)) => if 0 <= len && prefix + len <= bytes.len() {
            Some((bytes.subrange(prefix as int, prefix + len), (prefix + len) as nat))
        } else {
            None
        },
        Err(_) => None,
    }
}

/// An entry of a file's metadata: a key and the bytes under it.
pub type HeaderEntry = (Seq<char>, Seq<u8>);

/// The entry at the front of `bytes` and the number of bytes that it takes:
/// a key, length-prefixed and in UTF-8, and a length-prefixed value.
pub open spec fn parsed_entry(bytes: Seq<u8>) -> Option<(HeaderEntry, nat)> {
    match parsed_binary(bytes) {
        Some((key, taken)) => if valid_utf8(key) {
            match parsed_binary(bytes.skip(taken as int)) {
                Some((value, more)) => Some(((decode_utf8(key), value), taken + more)),
                None => None,
            }
        } else {
            None
        },
        None => None,
    }
}

/// The first `count` entries at the front of `bytes` and the number of
/// bytes that they take.
pub open spec fn parsed_entries(bytes: Seq<u8>, count: nat) -> Option<(Seq<HeaderEntry>, nat)>
    decreases count,
{
    if count == 0 {
        Some((Seq::empty(), 0))
    } else {
        match parsed_entries(bytes, (count - 1) as nat) {
            Some((front, taken)) => if taken > bytes.len() {
                None
            } else {
                match parsed_entry(bytes.skip(taken as int)) {
                    Some((entry, more)) => Some((front.push(entry), taken + more)),
                    None => None,
                }
            },
            None => None,
        }
    }
}

/// Once an entry cannot be read, no longer list of entries can.
pub proof fn lemma_parsed_entries_none(bytes: Seq<u8>, k: nat, m: nat)
    requires
        k <= m,
        parsed_entries(bytes, k) is None,
    ensures
        parsed_entries(bytes, m) is None,
    decreases m,
{
    if k < m {
        lemma_parsed_entries_none(bytes, k, (m - 1) as nat);
    }
}

/// The chunk of the metadata map at the front of `bytes`: its entries, the
/// number of bytes that it takes, and whether it is the last one. A chunk
/// is a count and that many entries; the last chunk is a count of 0.
pub open spec fn parsed_chunk(bytes: Seq<u8>) -> Option<(Seq<HeaderEntry>, nat, bool)> {
    match decode_zigzag(bytes) {
        Ok((count, prefix)) => if count == 0 {
            Some((Seq::empty(), prefix, true))
        } else if count < 0 || prefix > bytes.len() {
            None
        } else {
            match parsed_entries(bytes.skip(prefix as int), count as nat) {
                Some((entries, taken)) => Some((entries, prefix + taken, false)),
                None => None,
            }
        },
        Err(_) => None,
    }
}

/// The metadata map at the front of `bytes` and the number of bytes that it
/// takes: the entries of its chunks, up to the last chunk, in the order in
/// which they are read.
pub open spec fn parsed_header(bytes: Seq<u8>) -> Option<(Seq<HeaderEntry>, nat)>
    decreases bytes.len(),
{
    match parsed_chunk(bytes) {
        Some((entries, taken, last)) => if last {
            Some((entries, taken))
        } else if taken == 0 || taken > bytes.len() {
            None
        } else {
            match parsed_header(bytes.skip(taken as int)) {
                Some((more, rest)) => Some((entries + more, taken + rest)),
                None => None,
            }
        },
        None => None,
    }
}

/// The model of the entries of a file's metadata.
pub open spec fn header_view(header: Vec<(String, Vec<u8>)>) -> Seq<HeaderEntry> {
    Seq::new(header@.len(), |i: int| (header@[i].0@, header@[i].1@))
}

/// Calls `String::from_utf8`. The contract says what the documentation of
/// std says: the bytes become a string exactly where they are UTF-8; an
/// error becomes `None`.
#[verifier::external_body]
fn string_from_utf8(bytes: Vec<u8>) -> (text: Option<String>)
    ensures
        match text {
            Some(t) => valid_utf8(bytes@) && t@ == decode_utf8(bytes@),
            None => !valid_utf8(bytes@),
        },
{
    String::from_utf8(bytes).ok()
}

/// Reads length-prefixed bytes. On failure nothing is taken.
pub fn read_binary(reader: &mut ByteReader) -> (bytes: Result<Vec<u8>, Error>)
    ensures
        match parsed_binary(old(reader)@) {
            Some((value, taken)) => {
                &&& bytes is Ok
                &&& bytes->Ok_0@ == value
                &&& took(old(reader)@, taken, final(reader)@)
            },
            None => {
                &&& bytes == Err::<Vec<u8>, Error>(Error::OutOfSpec)
                &&& final(reader)@ == old(reader)@
            },
        },
{
    let mut cursor = *reader;
    let len = match zigzag_i64(&mut cursor) {
        Ok(len) => len,
        Err(_) => {
            return Err(Error::OutOfSpec);
        },
    };
    if len < 0 || len as u64 > cursor.len() as u64 {
        return Err(Error::OutOfSpec);
    }
    match cursor.read_exact(len as usize) {
        Some(value) => {
            let buf = slice_to_vec(value);
            proof {
                let all = old(reader)@;
                let prefix = decode_zigzag(all)->Ok_0.1;
                assert(all.skip(prefix as int).take(len as int) =~= all.subrange(
                    prefix as int,
                    prefix + len,
                ));
                assert(all.skip(prefix as int).skip(len as int) =~= all.skip(prefix + len));
            }
            *reader = cursor;
            Ok(buf)
        },
        None => Err(Error::OutOfSpec),
    }
}

/// Reads one entry of the metadata. On failure nothing is taken.
fn read_entry(reader: &mut ByteReader) -> (entry: Result<(String, Vec<u8>), Error>)
    ensures
        match parsed_entry(old(reader)@) {
            Some((e, taken)) => {
                &&& entry is Ok
                &&& entry->Ok_0.0@ == e.0
                &&& entry->Ok_0.1@ == e.1
                &&& took(old(reader)@, taken, final(reader)@)
            },
            None => {
                &&& entry == Err::<(String, Vec<u8>), Error>(Error::OutOfSpec)
                &&& final(reader)@ == old(reader)@
            },
        },
{
    let mut cursor = *reader;
    let key = read_binary(&mut cursor)?;
    let key = match string_from_utf8(key) {
        Some(key) => key,
        None => {
            return Err(Error::OutOfSpec);
        },
    };
    let value = read_binary(&mut cursor)?;
    proof {
        let all = old(reader)@;
        let taken = parsed_binary(all)->Some_0.1;
        let more = parsed_binary(all.skip(taken as int))->Some_0.1;
        assert(all.skip(taken as int).skip(more as int) =~= all.skip((taken + more) as int));
    }
    *reader = cursor;
    Ok((key, value))
}

/// Reads `count` entries of the metadata and appends them to `items`. On
/// failure nothing is taken.
fn read_entries(reader: &mut ByteReader, count: i64, items: &mut Vec<(String, Vec<u8>)>) -> (done:
    Result<(), Error>)
    requires
        count >= 0,
    ensures
        match parsed_entries(old(reader)@, count as nat) {
            Some((entries, taken)) => {
                &&& done is Ok
                &&& header_view(*final(items)) == header_view(*old(items)) + entries
                &&& took(old(reader)@, taken, final(reader)@)
            },
            None => {
                &&& done == Err::<(), Error>(Error::OutOfSpec)
                &&& final(reader)@ == old(reader)@
            },
        },
{
    let mut cursor = *reader;
    let ghost all = old(reader)@;
    let ghost before = header_view(*items);
    let ghost mut taken: nat = 0;
    let mut i: i64 = 0;
    assert(all.skip(0) =~= all);
    assert(before + Seq::<HeaderEntry>::empty() =~= before);
    while i < count
        invariant
            0 <= i <= count,
            reader@ == all,
            taken <= all.len(),
            cursor@ == all.skip(taken as int),
            parsed_entries(all, i as nat) is Some,
            parsed_entries(all, i as nat)->Some_0.1 == taken,
            header_view(*items) == before + parsed_entries(all, i as nat)->Some_0.0,
        decreases count - i,
    {
        let ghost so_far = parsed_entries(all, i as nat)->Some_0.0;
        let (key, value) = match read_entry(&mut cursor) {
            Ok(entry) => entry,
            Err(_) => {
                proof {
                    lemma_parsed_entries_none(all, (i + 1) as nat, count as nat);
                }
                return Err(Error::OutOfSpec);
            },
        };
        let ghost old_items = header_view(*items);
        items.push((key, value));
        proof {
            let step = parsed_entry(all.skip(taken as int))->Some_0.1;
            let entry = parsed_entry(all.skip(taken as int))->Some_0.0;
            assert(header_view(*items) =~= old_items.push(entry));
            assert(old_items.push(entry) =~= before + so_far.push(entry));
            assert(all.skip(taken as int).skip(step as int) =~= all.skip((taken + step) as int));
            taken = taken + step;
        }
        i += 1;
    }
    *reader = cursor;
    Ok(())
}

/// Reads one chunk of the metadata map and appends its entries to `items`;
/// says whether it was the last one. On failure nothing is taken.
fn read_chunk(reader: &mut ByteReader, items: &mut Vec<(String, Vec<u8>)>) -> (last: Result<
    bool,
    Error,
>)
    ensures
        match parsed_chunk(old(reader)@) {
            Some((entries, taken, end)) => {
                &&& last == Ok::<bool, Error>(end)
                &&& header_view(*final(items)) == header_view(*old(items)) + entries
                &&& 0 < taken
                &&& took(old(reader)@, taken, final(reader)@)
            },
            None => {
                &&& last == Err::<bool, Error>(Error::OutOfSpec)
                &&& final(reader)@ == old(reader)@
            },
        },
{
    let mut cursor = *reader;
    let ghost all = old(reader)@;
    let count = match zigzag_i64(&mut cursor) {
        Ok(count) => count,
        Err(_) => {
            return Err(Error::OutOfSpec);
        },
    };
    let ghost prefix = decode_zigzag(all)->Ok_0.1;
    proof {
        lemma_decode_takes_bytes(all);
    }
    if count == 0 {
        assert(header_view(*items) + Seq::<HeaderEntry>::empty() =~= header_view(*items));
        *reader = cursor;
        return Ok(true);
    }
    if count < 0 {
        return Err(Error::OutOfSpec);
    }
    match read_entries(&mut cursor, count, items) {
        Ok(()) => {},
        Err(_) => {
            return Err(Error::OutOfSpec);
        },
    }
    proof {
        let taken = parsed_entries(all.skip(prefix as int), count as nat)->Some_0.1;
        assert(all.skip(prefix as int).skip(taken as int) =~= all.skip((prefix + taken) as int));
    }
    *reader = cursor;
    Ok(false)
}

/// Reads the metadata map of a file: the entries in the order in which they
/// are written. On failure nothing is taken.
pub fn read_header(reader: &mut ByteReader) -> (header: Result<Vec<(String, Vec<u8>)>, Error>)
    ensures
        match parsed_header(old(reader)@) {
            Some((entries, taken)) => {
                &&& header is Ok
                &&& header_view(header->Ok_0) == entries
                &&& took(old(reader)@, taken, final(reader)@)
            },
            None => {
                &&& header == Err::<Vec<(String, Vec<u8>)>, Error>(Error::OutOfSpec)
                &&& final(reader)@ == old(reader)@
            },
        },
{
    let mut cursor = *reader;
    let mut items: Vec<(String, Vec<u8>)> = Vec::new();
    let ghost all = old(reader)@;
    let ghost mut done: nat = 0;
    proof {
        assert(header_view(items) =~= Seq::empty());
        assert(all.skip(0) =~= all);
        if parsed_header(all) is Some {
            assert(header_view(items) + parsed_header(all)->Some_0.0 =~= parsed_header(
                all,
            )->Some_0.0);
        }
    }
    loop
        invariant
            reader@ == all,
            all == old(reader)@,
            done <= all.len(),
            cursor@ == all.skip(done as int),
            parsed_header(cursor@) is None ==> parsed_header(all) is None,
            parsed_header(cursor@) is Some ==> parsed_header(all) == Some(
                (
                    header_view(items) + parsed_header(cursor@)->Some_0.0,
                    done + parsed_header(cursor@)->Some_0.1,
                ),
            ),
        decreases cursor@.len(),
    {
        let ghost chunk = cursor@;
        let ghost read = header_view(items);
        let last = match read_chunk(&mut cursor, &mut items) {
            Ok(last) => last,
            Err(_) => {
                return Err(Error::OutOfSpec);
            },
        };
        let ghost taken = parsed_chunk(chunk)->Some_0.1;
        let ghost entries = parsed_chunk(chunk)->Some_0.0;
        proof {
            assert(all.skip(done as int).skip(taken as int) =~= all.skip((done + taken) as int));
        }
        if last {
            *reader = cursor;
            return Ok(items);
        }
        proof {
            let rest = parsed_header(cursor@);
            if rest is Some {
                assert(read + (entries + rest->Some_0.0) =~= (read + entries) + rest->Some_0.0);
            }
            done = done + taken;
        }
    }
}

/// Reads the sync marker of a file. On failure nothing is taken.
pub fn read_file_marker(reader: &mut ByteReader) -> (marker: Result<[u8; 16], Error>)
    ensures
        match marker {
            Ok(m) => {
                &&& m@ == old(reader)@.take(16)
                &&& took(old(reader)@, 16, final(reader)@)
            },
            Err(e) => {
                &&& e == Error::OutOfSpec
                &&& old(reader)@.len() < 16
                &&& final(reader)@ == old(reader)@
            },
        },
{
    match reader.read_exact(16) {
        Some(bytes) => {
            let mut marker = [0u8;16];
            let mut i: usize = 0;
            while i < 16
                invariant
                    i <= 16,
                    bytes@.len() == 16,
                    forall|k: int| 0 <= k < i ==> marker@[k] == bytes@[k],
                decreases 16 - i,
            {
                marker[i] = bytes[i];
                i += 1;
            }
            assert(marker@ =~= bytes@);
            Ok(marker)
        },
        None => Err(Error::OutOfSpec),
    }
}

/// The codec that the value of the metadata key `avro.codec` names:
/// `snappy` or `deflate`. Any other value names none, and so does the
/// absence of the key.
pub open spec fn codec_of(value: Option<Seq<u8>>) -> Option<Compression> {
    match value {
        Some(name) => if name == encode_utf8("snappy"@) {
            Some(Compression::Snappy)
        } else if name == encode_utf8("deflate"@) {
            Some(Compression::Deflate)
        } else {
            None
        },
        None => None,
    }
}

/// The schema and the codec that the metadata of a file gives: the schema
/// that the JSON text under `avro.schema` describes, and the codec that the
/// value under `avro.codec` names. There are none where the schema is
/// absent or its text describes no schema.
pub open spec fn parsed_file_schema(entries: Seq<HeaderEntry>) -> Option<
    (SchemaView, Option<Compression>),
> {
    match get(entries, "avro.schema"@) {
        Some(text) => match schema_of_text(text) {
            Ok(schema) => Some((schema, codec_of(get(entries, "avro.codec"@)))),
            Err(_) => None,
        },
        None => None,
    }
}

/// The bytes that count for `key`, if there are any: those of the last
/// entry with this key.
fn header_get<'a>(header: &'a Vec<(String, Vec<u8>)>, key: &str) -> (value: Option<&'a Vec<u8>>)
    ensures
        match value {
            Some(v) => get(header_view(*header), key@) == Some(v@),
            None => get(header_view(*header), key@) is None,
        },
{
    let ghost view = header_view(*header);
    let mut n: usize = header.len();
    while n > 0
        invariant
            n <= header@.len(),
            view == header_view(*header),
            index_of_last(view, key@, view.len()) == index_of_last(view, key@, n as nat),
        decreases n,
    {
        if str_eq(header[n - 1].0.as_str(), key) {
            return Some(&header[n - 1].1);
        }
        n -= 1;
    }
    None
}

/// Deserializes the Avro header into an Avro [`Schema`] and optional
/// [`Compression`].
pub fn deserialize_header(header: &Vec<(String, Vec<u8>)>) -> (parts: Result<
    (Schema, Option<Compression>),
    Error,
>)
    ensures
        match parsed_file_schema(header_view(*header)) {
            Some((schema, compression)) => {
                &&& parts is Ok
                &&& parts->Ok_0.0@ == schema
                &&& parts->Ok_0.1 == compression
            },
            None => parts == Err::<(Schema, Option<Compression>), Error>(Error::OutOfSpec),
        },
{
    let schema = match header_get(header, "avro.schema") {
        Some(bytes) => match from_slice(bytes.as_slice()) {
            Ok(schema) => schema,
            Err(_) => {
                return Err(Error::OutOfSpec);
            },
        },
        None => {
            return Err(Error::OutOfSpec);
        },
    };
    let compression = match header_get(header, "avro.codec") {
        Some(bytes) => {
            if same_bytes(bytes.as_slice(), "snappy".as_bytes()) {
                Some(Compression::Snappy)
            } else if same_bytes(bytes.as_slice(), "deflate".as_bytes()) {
                Some(Compression::Deflate)
            } else {
                None
            }
        },
        None => None,
    };
    Ok((schema, compression))
}

} // verus!
