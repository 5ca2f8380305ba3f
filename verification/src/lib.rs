//! A codec for the Avro Object Container File format.
//!
//! - [`schema`] holds the model of Avro schemas and their JSON form: a
//!   schema is written as a JSON value and read back from one, and the JSON
//!   text itself is left to `serde_json`.
//! - [`varint`] is the zigzag variable-length integer encoding.
//! - [`read`] reads the header of a file and its blocks from bytes in
//!   memory, and decompresses blocks; [`write`] writes them.
//! - [`codec`] holds the calls into `libflate`, `snap` and `crc`.
//! - [`laws`] and [`schema::laws`] state what holds of writing and reading
//!   back.
//!
//! Every function has a contract over a model of the bytes and values that
//! it works on, and is verified against it with Verus. What is said of
//! other crates is taken on trust and kept apart in small functions.
pub mod codec;
pub mod error;
pub mod file;
pub mod laws;
pub mod read;
pub mod schema;
pub mod varint;
pub mod write;
