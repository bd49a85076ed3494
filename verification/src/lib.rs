//! A verified decoder for comma-separated daily epidemiological report rows.
//!
//! The crate turns a header-bearing delimited-text stream into typed records:
//! named columns are mapped to fields by a fixed schema, count columns are
//! read as optional unsigned integers (an empty cell means "not reported"),
//! and the `Last_Update` column is read with a dedicated timestamp codec for
//! the pattern `YYYY-MM-DD HH:MM:SS`.

pub mod counts;
pub mod decode;
pub mod records;
pub mod timestamp;
