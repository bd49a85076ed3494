use covid_records::decode::{decode_csv, decode_row, decode_rows, resolve_header};
use covid_records::records::{Column, DecodeError, Record};
use covid_records::timestamp::Timestamp;

fn ts(year: u16, month: u8, day: u8, hour: u8, minute: u8, second: u8) -> Timestamp {
    Timestamp { year, month, day, hour, minute, second }
}

fn row(cells: &[&str]) -> Vec<String> {
    cells.iter().map(|c| c.to_string()).collect()
}

const HEADER: &[&str] = &[
    "Province_State",
    "Country_Region",
    "Last_Update",
    "Confirmed",
    "Deaths",
    "Recovered",
    "Active",
    "Combined_Key",
];

#[test]
fn decodes_the_two_row_example() {
    let input = "Province_State,Country_Region,Last_Update,Confirmed,Deaths,Recovered,Active,Combined_Key\n\
                 Hubei,China,2021-01-05 00:00:00,100,2,50,48,\"Hubei, China\"\n\
                 ,Italy,2021-01-05 00:00:00,,,, ,\"Italy\"\n";
    let out = decode_csv(input.as_bytes());
    assert_eq!(
        out.records,
        vec![Record {
            province_state: "Hubei".to_string(),
            country_region: "China".to_string(),
            last_update: ts(2021, 1, 5, 0, 0, 0),
            confirmed: Some(100),
            deaths: Some(2),
            recovered: Some(50),
            active: Some(48),
            combined_key: "Hubei, China".to_string(),
        }]
    );
    // The second data row's `Active` cell is whitespace-only: under this
    // crate's policy that is an error, not an absent value.
    assert_eq!(out.error, Some(DecodeError::BadCount { row: 2, column: Column::Active }));
}

#[test]
fn second_row_counts_are_absent_when_cells_are_empty() {
    let input = "Province_State,Country_Region,Last_Update,Confirmed,Deaths,Recovered,Active,Combined_Key\n\
                 ,Italy,2021-01-05 00:00:00,,,,,Italy\n";
    let out = decode_csv(input.as_bytes());
    assert_eq!(out.error, None);
    assert_eq!(out.records.len(), 1);
    let rec = &out.records[0];
    assert_eq!(rec.province_state, "");
    assert_eq!(rec.country_region, "Italy");
    assert_eq!(rec.confirmed, None);
    assert_eq!(rec.deaths, None);
    assert_eq!(rec.recovered, None);
    assert_eq!(rec.active, None);
    assert_eq!(rec.combined_key, "Italy");
}

#[test]
fn missing_last_update_is_a_schema_error_before_any_row() {
    let input = "Province_State,Country_Region,Confirmed,Deaths,Recovered,Active,Combined_Key\n\
                 Hubei,China,100,2,50,48,\"Hubei, China\"\n";
    let out = decode_csv(input.as_bytes());
    assert_eq!(out.records, vec![]);
    assert_eq!(out.error, Some(DecodeError::MissingColumn(Column::LastUpdate)));
}

#[test]
fn missing_required_text_column_is_a_schema_error() {
    let header = row(&["Country_Region", "Last_Update", "Combined_Key"]);
    assert_eq!(
        resolve_header(&header),
        Err(DecodeError::MissingColumn(Column::ProvinceState))
    );
}

#[test]
fn duplicate_recognized_column_is_a_schema_error() {
    let header = row(&[
        "Province_State",
        "Country_Region",
        "Last_Update",
        "Last_Update",
        "Combined_Key",
    ]);
    assert_eq!(
        resolve_header(&header),
        Err(DecodeError::DuplicateColumn(Column::LastUpdate))
    );
}

#[test]
fn unrecognized_columns_are_ignored() {
    let input = "FIPS,Province_State,Country_Region,Last_Update,Confirmed,Deaths,Recovered,Active,Combined_Key,Incident_Rate\n\
                 84001,Hubei,China,2021-01-05 00:00:00,1,2,3,4,\"Hubei, China\",9.5\n";
    let out = decode_csv(input.as_bytes());
    assert_eq!(out.error, None);
    assert_eq!(out.records.len(), 1);
    assert_eq!(out.records[0].province_state, "Hubei");
    assert_eq!(out.records[0].confirmed, Some(1));
    assert_eq!(out.records[0].active, Some(4));
}

#[test]
fn missing_count_column_means_absent_in_every_row() {
    let input = "Province_State,Country_Region,Last_Update,Deaths,Recovered,Active,Combined_Key\n\
                 Hubei,China,2021-01-05 00:00:00,2,50,48,\"Hubei, China\"\n";
    let out = decode_csv(input.as_bytes());
    assert_eq!(out.error, None);
    assert_eq!(out.records.len(), 1);
    assert_eq!(out.records[0].confirmed, None);
    assert_eq!(out.records[0].deaths, Some(2));
}

#[test]
fn widest_count_survives_a_full_decode() {
    let input = "Province_State,Country_Region,Last_Update,Confirmed,Deaths,Recovered,Active,Combined_Key\n\
                 X,Y,2021-01-05 00:00:00,18446744073709551615,,,,Z\n";
    let out = decode_csv(input.as_bytes());
    assert_eq!(out.error, None);
    assert_eq!(out.records[0].confirmed, Some(u64::MAX));
}

#[test]
fn bad_timestamp_is_a_format_error_tagged_with_its_row() {
    let input = "Province_State,Country_Region,Last_Update,Confirmed,Deaths,Recovered,Active,Combined_Key\n\
                 A,B,2021-01-05 00:00:00,,,,,K\n\
                 C,D,2021-13-01 00:00:00,,,,,K\n";
    let out = decode_csv(input.as_bytes());
    assert_eq!(out.records.len(), 1);
    assert_eq!(out.records[0].country_region, "B");
    assert_eq!(out.error, Some(DecodeError::BadTimestamp { row: 2 }));
}

#[test]
fn rows_before_a_malformed_row_are_kept() {
    // The third line has the wrong number of fields, which the text-level
    // parser rejects; the rows before it still decode.
    let input = "Province_State,Country_Region,Last_Update,Confirmed,Deaths,Recovered,Active,Combined_Key\n\
                 A,B,2021-01-05 00:00:00,,,,,K\n\
                 only,two\n";
    let out = decode_csv(input.as_bytes());
    assert_eq!(out.records.len(), 1);
    assert!(matches!(out.error, Some(DecodeError::Malformed(_))));
}

#[test]
fn bytes_that_are_not_text_are_malformed() {
    let mut input = b"Province_State,Country_Region,Last_Update,Confirmed,Deaths,Recovered,Active,Combined_Key\n".to_vec();
    input.extend_from_slice(b"A,B,2021-01-05 00:00:00,,,,,\xff\xfe\n");
    let out = decode_csv(&input);
    assert_eq!(out.records, vec![]);
    assert!(matches!(out.error, Some(DecodeError::Malformed(_))));
}

#[test]
fn empty_input_decodes_to_nothing() {
    let out = decode_csv(b"");
    assert_eq!(out.records, vec![]);
    assert_eq!(out.error, None);
}

#[test]
fn header_only_input_decodes_to_nothing() {
    let out = decode_csv(
        b"Province_State,Country_Region,Last_Update,Confirmed,Deaths,Recovered,Active,Combined_Key\n",
    );
    assert_eq!(out.records, vec![]);
    assert_eq!(out.error, None);
}

#[test]
fn decode_rows_reports_a_short_row() {
    let rows = vec![row(HEADER), row(&["A", "B", "2021-01-05 00:00:00", "1"])];
    let out = decode_rows(&rows);
    assert_eq!(out.records, vec![]);
    assert_eq!(out.error, Some(DecodeError::RowFieldCount { row: 1 }));
}

#[test]
fn decode_row_reads_cells_through_the_schema() {
    let header = row(HEADER);
    let schema = resolve_header(&header).unwrap();
    let rec = decode_row(
        &schema,
        &row(&["Hubei", "China", "2021-01-05 00:00:00", "100", "2", "50", "48", "Hubei, China"]),
        1,
    )
    .unwrap();
    assert_eq!(rec.last_update, ts(2021, 1, 5, 0, 0, 0));
    assert_eq!(rec.confirmed, Some(100));
    let err = decode_row(
        &schema,
        &row(&["Hubei", "China", "2021-01-05 00:00:00", "x", "2", "50", "48", "Hubei, China"]),
        3,
    )
    .unwrap_err();
    assert_eq!(err, DecodeError::BadCount { row: 3, column: Column::Confirmed });
}

#[test]
fn timestamp_is_checked_before_the_count_cells() {
    let input = "Province_State,Country_Region,Last_Update,Confirmed,Deaths,Recovered,Active,Combined_Key\n\
                 A,B,not a timestamp,also not a count,,,,K\n";
    let out = decode_csv(input.as_bytes());
    assert_eq!(out.error, Some(DecodeError::BadTimestamp { row: 1 }));
}

#[test]
fn header_columns_are_checked_in_field_order() {
    let header = row(&["Country_Region", "Combined_Key"]);
    assert_eq!(
        resolve_header(&header),
        Err(DecodeError::MissingColumn(Column::ProvinceState))
    );
}

#[test]
fn duplicate_count_column_is_a_schema_error_too() {
    let input = "Province_State,Country_Region,Last_Update,Confirmed,Confirmed,Combined_Key\n\
                 A,B,2021-01-05 00:00:00,1,2,K\n";
    let out = decode_csv(input.as_bytes());
    assert_eq!(out.records, vec![]);
    assert_eq!(out.error, Some(DecodeError::DuplicateColumn(Column::Confirmed)));
}

#[test]
fn crlf_line_endings_decode_too() {
    let input = "Province_State,Country_Region,Last_Update,Confirmed,Deaths,Recovered,Active,Combined_Key\r\n\
                 Hubei,China,2021-01-05 00:00:00,100,2,50,48,\"Hubei, China\"\r\n";
    let out = decode_csv(input.as_bytes());
    assert_eq!(out.error, None);
    assert_eq!(out.records.len(), 1);
    assert_eq!(out.records[0].combined_key, "Hubei, China");
}
