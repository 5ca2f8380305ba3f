use avro_schema::error::Error;
use avro_schema::file::{Block, CompressedBlock, Compression};
use avro_schema::read::{read_metadata, BlockStreamingIterator, ByteReader};
use avro_schema::schema::{Field, Record, Schema};
use avro_schema::write::{compress, write_block, write_metadata};

fn read_avro(data: &[u8]) -> Result<Vec<f32>, Error> {
    let mut reader = ByteReader::new(data);
    let metadata = read_metadata(&mut reader)?;

    let mut blocks = BlockStreamingIterator::new(reader, metadata.compression, metadata.marker);

    let mut values = vec![];
    while let Some(block) = blocks.next()? {
        let _fields = &metadata.record.fields;
        let length = block.number_of_rows;
        let mut block: &[u8] = block.data.as_ref();
        for _ in 0..length {
            let (item, remaining) = block.split_at(4);
            block = remaining;
            let value = f32::from_le_bytes(item.try_into().unwrap());
            values.push(value)
        }
    }

    Ok(values)
}

fn write_avro(compression: Option<Compression>, array: &[f32]) -> Result<Vec<u8>, Error> {
    let mut file = vec![];

    let record = Record::new("", vec![Field::new("value", Schema::Float)]);

    write_metadata(&mut file, record, compression)?;

    let mut data: Vec<u8> = vec![];
    for item in array.iter() {
        let bytes = item.to_le_bytes();
        data.extend(bytes);
    }
    let mut block = Block::new(array.len(), data);

    let mut compressed_block = CompressedBlock::default();
    let _ = compress(&mut block, &mut compressed_block, compression)?;

    write_block(&mut file, &compressed_block)?;

    Ok(file)
}

#[test]
fn round_trip() -> Result<(), Error> {
    let values = vec![0.1, 0.2];
    let file = write_avro(None, &values)?;
    let read = read_avro(&file)?;
    assert_eq!(read, values);
    Ok(())
}

#[test]
fn round_trip_deflate() -> Result<(), Error> {
    let values = vec![0.1, 0.2];
    let file = write_avro(Some(Compression::Deflate), &values)?;
    let read = read_avro(&file)?;
    assert_eq!(read, values);
    Ok(())
}

#[test]
fn round_trip_snappy() -> Result<(), Error> {
    let values = vec![0.1, 0.2];
    let file = write_avro(Some(Compression::Snappy), &values)?;
    let read = read_avro(&file)?;
    assert_eq!(read, values);
    Ok(())
}
