//! The record schema: the recognized columns, the decoded record, and the
//! errors that decoding can report.

use vstd::prelude::*;
use crate::timestamp::Timestamp;

verus! {

/// The recognized columns. `Province_State`, `Country_Region`, `Last_Update`
/// and `Combined_Key` are required; the four count columns may be missing
/// from the header, in which case their fields are absent in every row.
#[derive(Clone, Copy, Debug, PartialEq, Eq, Structural)]
pub enum Column {
    ProvinceState,
    CountryRegion,
    LastUpdate,
    Confirmed,
    Deaths,
    Recovered,
    Active,
    CombinedKey,
}

/// The header name of a recognized column.
pub open spec fn column_name(c: Column) -> Seq<char> {
    match c {
        Column::ProvinceState => "Province_State"@,
        Column::CountryRegion => "Country_Region"@,
        Column::LastUpdate => "Last_Update"@,
        Column::Confirmed => "Confirmed"@,
        Column::Deaths => "Deaths"@,
        Column::Recovered => "Recovered"@,
        Column::Active => "Active"@,
        Column::CombinedKey => "Combined_Key"@,
    }
}

/// Everything that can go wrong while decoding a stream of rows.
///
/// `Malformed` carries the text-level parser's message; `row` is the index
/// of the offending row in the input, the header being row 0.
#[derive(Clone, Debug, PartialEq, Eq)]
pub enum DecodeError {
    /// The delimited text itself is malformed (bad quoting, a row with the
    /// wrong number of fields, bytes that are not text).
    Malformed(String),
    /// A required column is missing from the header.
    MissingColumn(Column),
    /// A recognized column occurs more than once in the header.
    DuplicateColumn(Column),
    /// A data row has too few fields for the resolved schema.
    RowFieldCount { row: usize },
    /// A count cell is non-empty and not a 64-bit non-negative integer.
    BadCount { row: usize, column: Column },
    /// A `Last_Update` cell does not match the timestamp pattern.
    BadTimestamp { row: usize },
}

/// A schema error: the header cannot be mapped to the record's fields.
pub open spec fn is_schema_error(e: DecodeError) -> bool {
    match e {
        DecodeError::MissingColumn(_) => true,
        DecodeError::DuplicateColumn(_) => true,
        _ => false,
    }
}

/// Where each recognized column stands in a header row: an index per
/// required column, an optional index per count column.
#[derive(Clone, Copy, Debug, PartialEq, Eq)]
pub struct Schema {
    pub province_state: usize,
    pub country_region: usize,
    pub last_update: usize,
    pub confirmed: Option<usize>,
    pub deaths: Option<usize>,
    pub recovered: Option<usize>,
    pub active: Option<usize>,
    pub combined_key: usize,
}

/// One fully decoded data row. A count field of `None` means the cell was
/// empty or its column missing: "not reported", distinct from zero.
#[derive(Clone, Debug, PartialEq, Eq)]
pub struct Record {
    pub province_state: String,
    pub country_region: String,
    pub last_update: Timestamp,
    pub confirmed: Option<u64>,
    pub deaths: Option<u64>,
    pub recovered: Option<u64>,
    pub active: Option<u64>,
    pub combined_key: String,
}

/// The mathematical value of a record: its text fields as character
/// sequences, the rest as plain values.
pub ghost struct RecordV {
    pub province_state: Seq<char>,
    pub country_region: Seq<char>,
    pub last_update: Timestamp,
    pub confirmed: Option<u64>,
    pub deaths: Option<u64>,
    pub recovered: Option<u64>,
    pub active: Option<u64>,
    pub combined_key: Seq<char>,
}

impl View for Record {
    type V = RecordV;

    open spec fn view(&self) -> RecordV {
        RecordV {
            province_state: self.province_state@,
            country_region: self.country_region@,
            last_update: self.last_update,
            confirmed: self.confirmed,
            deaths: self.deaths,
            recovered: self.recovered,
            active: self.active,
            combined_key: self.combined_key@,
        }
    }
}

impl DeepView for Record {
    type V = RecordV;

    open spec fn deep_view(&self) -> RecordV {
        self@
    }
}

} // verus!
