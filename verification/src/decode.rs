//! The tabular decoder: resolving a header row against the schema and
//! decoding data rows into records.

use vstd::prelude::*;
use vstd::assert_by_contradiction;
use vstd::string::StringExecFns;
use crate::records::{Column, DecodeError, Record, RecordV, Schema, column_name, is_schema_error};
use crate::timestamp::{
    decode_timestamp,
    lemma_timestamp_round_trip,
    spec_encode_timestamp,
    spec_parse_timestamp,
};
use crate::counts::{parse_count, spec_parse_count};

verus! {

/// Column `name` stands at index `i` of the header.
pub open spec fn found_at(header: Seq<Seq<char>>, name: Seq<char>, i: int) -> bool {
    0 <= i < header.len() && header[i] == name
}

/// Column `name` occurs somewhere in the header.
pub open spec fn occurs(header: Seq<Seq<char>>, name: Seq<char>) -> bool {
    exists|i: int| found_at(header, name, i)
}

/// Column `name` occurs at least twice in the header.
pub open spec fn occurs_twice(header: Seq<Seq<char>>, name: Seq<char>) -> bool {
    exists|i: int, j: int|
        i < j && #[trigger] found_at(header, name, i) && #[trigger] found_at(header, name, j)
}

/// The first index at or after `i` where `name` stands, if any.
pub open spec fn find_from(header: Seq<Seq<char>>, name: Seq<char>, i: int) -> Option<int>
    decreases header.len() - i,
{
    if i < 0 || i >= header.len() {
        None
    } else if header[i] == name {
        Some(i)
    } else {
        find_from(header, name, i + 1)
    }
}

/// The outcome of looking a column name up in the header.
#[derive(Clone, Copy, Debug, PartialEq, Eq, Structural)]
pub enum ColFind {
    /// The name is not in the header.
    Missing,
    /// The name stands exactly once, at this index.
    At(usize),
    /// The name stands more than once.
    Twice,
}

/// What looking `name` up in the header returns.
pub open spec fn spec_find(header: Seq<Seq<char>>, name: Seq<char>) -> ColFind {
    if occurs_twice(header, name) {
        ColFind::Twice
    } else {
        match find_from(header, name, 0) {
            Option::None => ColFind::Missing,
            Option::Some(i) => ColFind::At(i as usize),
        }
    }
}

proof fn lemma_find_from_none(header: Seq<Seq<char>>, name: Seq<char>, i: int)
    requires
        0 <= i <= header.len(),
        forall|j: int| #![trigger header[j]] i <= j < header.len() ==> header[j] != name,
    ensures
        find_from(header, name, i) is None,
    decreases header.len() - i,
{
    if i < header.len() {
        lemma_find_from_none(header, name, i + 1);
    }
}

proof fn lemma_find_from_found(header: Seq<Seq<char>>, name: Seq<char>, i: int, k: int)
    requires
        0 <= i <= k < header.len(),
        header[k] == name,
        forall|j: int| #![trigger header[j]] i <= j < k ==> header[j] != name,
    ensures
        find_from(header, name, i) == Some(k),
    decreases k - i,
{
    if i < k {
        lemma_find_from_found(header, name, i + 1, k);
    }
}

/// Scans the header for `name`: missing, found once (where), or found twice.
fn find_col(header: &Vec<String>, name: &str) -> (r: ColFind)
    ensures
        r == spec_find(header.deep_view(), name@),
{
    let ghost hv = header.deep_view();
    let name_s = String::from_str(name);
    let mut found: Option<usize> = None;
    let mut i: usize = 0;
    while i < header.len()
        invariant
            i <= header.len(),
            hv == header.deep_view(),
            hv.len() == header@.len(),
            name_s@ == name@,
            forall|j: int| 0 <= j < hv.len() ==> #[trigger] hv[j] == header@[j]@,
            match found {
                Option::None => forall|j: int| #![trigger hv[j]] 0 <= j < i ==> hv[j] != name@,
                Option::Some(k) => k < i && hv[k as int] == name@ && forall|j: int|
                    #![trigger hv[j]]
                    0 <= j < i && j != k ==> hv[j] != name@,
            },
        decreases header.len() - i,
    {
        let cell: &String = &header[i];
        if cell.eq(&name_s) {
            match found {
                Option::None => {
                    found = Some(i);
                },
                Option::Some(k) => {
                    proof {
                        assert(found_at(hv, name@, k as int));
                        assert(found_at(hv, name@, i as int));
                    }
                    return ColFind::Twice;
                },
            }
        }
        i = i + 1;
    }
    proof {
        assert_by_contradiction!(!occurs_twice(hv, name@), {
            let (a, b) = choose|a: int, b: int|
                a < b && #[trigger] found_at(hv, name@, a) && #[trigger] found_at(hv, name@, b);
        });
    }
    match found {
        Option::None => {
            proof {
                lemma_find_from_none(hv, name@, 0);
            }
            ColFind::Missing
        },
        Option::Some(k) => {
            proof {
                lemma_find_from_found(hv, name@, 0, k as int);
            }
            ColFind::At(k)
        },
    }
}

/// What resolving the header returns for a required column.
pub open spec fn req_col(header: Seq<Seq<char>>, c: Column) -> Result<usize, DecodeError> {
    match spec_find(header, column_name(c)) {
        ColFind::Twice => Err(DecodeError::DuplicateColumn(c)),
        ColFind::Missing => Err(DecodeError::MissingColumn(c)),
        ColFind::At(i) => Ok(i),
    }
}

/// What resolving the header returns for a count column, which may be
/// missing but may not be duplicated.
pub open spec fn opt_col(header: Seq<Seq<char>>, c: Column) -> Result<
    Option<usize>,
    DecodeError,
> {
    match spec_find(header, column_name(c)) {
        ColFind::Twice => Err(DecodeError::DuplicateColumn(c)),
        ColFind::Missing => Ok(None),
        ColFind::At(i) => Ok(Some(i)),
    }
}

/// What resolving a header row returns: the schema when every required
/// column stands exactly once and no recognized column twice, else the
/// schema error of the first offending column, the columns being checked in
/// the record's field order.
pub open spec fn spec_resolve_header(header: Seq<Seq<char>>) -> Result<Schema, DecodeError> {
    match req_col(header, Column::ProvinceState) {
        Err(e) => Err(e),
        Ok(ps) => match req_col(header, Column::CountryRegion) {
            Err(e) => Err(e),
            Ok(cr) => match req_col(header, Column::LastUpdate) {
                Err(e) => Err(e),
                Ok(lu) => match opt_col(header, Column::Confirmed) {
                    Err(e) => Err(e),
                    Ok(cf) => match opt_col(header, Column::Deaths) {
                        Err(e) => Err(e),
                        Ok(de) => match opt_col(header, Column::Recovered) {
                            Err(e) => Err(e),
                            Ok(re) => match opt_col(header, Column::Active) {
                                Err(e) => Err(e),
                                Ok(ac) => match req_col(header, Column::CombinedKey) {
                                    Err(e) => Err(e),
                                    Ok(ck) => Ok(
                                        Schema {
                                            province_state: ps,
                                            country_region: cr,
                                            last_update: lu,
                                            confirmed: cf,
                                            deaths: de,
                                            recovered: re,
                                            active: ac,
                                            combined_key: ck,
                                        },
                                    ),
                                },
                            },
                        },
                    },
                },
            },
        },
    }
}

/// Maps the header row to the record's fields by column name. Unrecognized
/// columns are ignored; a missing required column or a duplicated
/// recognized column is a schema error.
pub fn resolve_header(header: &Vec<String>) -> (r: Result<Schema, DecodeError>)
    ensures
        r == spec_resolve_header(header.deep_view()),
{
    let ps = match find_col(header, "Province_State") {
        ColFind::Twice => {
            return Err(DecodeError::DuplicateColumn(Column::ProvinceState));
        },
        ColFind::Missing => {
            return Err(DecodeError::MissingColumn(Column::ProvinceState));
        },
        ColFind::At(i) => i,
    };
    let cr = match find_col(header, "Country_Region") {
        ColFind::Twice => {
            return Err(DecodeError::DuplicateColumn(Column::CountryRegion));
        },
        ColFind::Missing => {
            return Err(DecodeError::MissingColumn(Column::CountryRegion));
        },
        ColFind::At(i) => i,
    };
    let lu = match find_col(header, "Last_Update") {
        ColFind::Twice => {
            return Err(DecodeError::DuplicateColumn(Column::LastUpdate));
        },
        ColFind::Missing => {
            return Err(DecodeError::MissingColumn(Column::LastUpdate));
        },
        ColFind::At(i) => i,
    };
    let cf = match find_col(header, "Confirmed") {
        ColFind::Twice => {
            return Err(DecodeError::DuplicateColumn(Column::Confirmed));
        },
        ColFind::Missing => None,
        ColFind::At(i) => Some(i),
    };
    let de = match find_col(header, "Deaths") {
        ColFind::Twice => {
            return Err(DecodeError::DuplicateColumn(Column::Deaths));
        },
        ColFind::Missing => None,
        ColFind::At(i) => Some(i),
    };
    let re = match find_col(header, "Recovered") {
        ColFind::Twice => {
            return Err(DecodeError::DuplicateColumn(Column::Recovered));
        },
        ColFind::Missing => None,
        ColFind::At(i) => Some(i),
    };
    let ac = match find_col(header, "Active") {
        ColFind::Twice => {
            return Err(DecodeError::DuplicateColumn(Column::Active));
        },
        ColFind::Missing => None,
        ColFind::At(i) => Some(i),
    };
    let ck = match find_col(header, "Combined_Key") {
        ColFind::Twice => {
            return Err(DecodeError::DuplicateColumn(Column::CombinedKey));
        },
        ColFind::Missing => {
            return Err(DecodeError::MissingColumn(Column::CombinedKey));
        },
        ColFind::At(i) => i,
    };
    Ok(
        Schema {
            province_state: ps,
            country_region: cr,
            last_update: lu,
            confirmed: cf,
            deaths: de,
            recovered: re,
            active: ac,
            combined_key: ck,
        },
    )
}

/// Every index of the schema falls inside a row of `n` fields.
pub open spec fn cols_in_range(sch: Schema, n: int) -> bool {
    &&& sch.province_state < n
    &&& sch.country_region < n
    &&& sch.last_update < n
    &&& sch.combined_key < n
    &&& (sch.confirmed matches Some(i) ==> i < n)
    &&& (sch.deaths matches Some(i) ==> i < n)
    &&& (sch.recovered matches Some(i) ==> i < n)
    &&& (sch.active matches Some(i) ==> i < n)
}

/// What a count column contributes to a row: absent when the column is not
/// in the header, else whatever its cell reads as.
pub open spec fn spec_count_col(idx: Option<usize>, row: Seq<Seq<char>>) -> Result<
    Option<u64>,
    crate::counts::CountError,
> {
    match idx {
        Option::None => Ok(None),
        Option::Some(i) => spec_parse_count(row[i as int]),
    }
}

/// What decoding one data row returns: the record read off the schema's
/// cells, or the row's first error, the cells being checked in this order:
/// the timestamp, then the four count columns.
pub open spec fn spec_decode_row(sch: Schema, row: Seq<Seq<char>>, rowi: usize) -> Result<
    RecordV,
    DecodeError,
> {
    if !cols_in_range(sch, row.len() as int) {
        Err(DecodeError::RowFieldCount { row: rowi })
    } else {
        match spec_parse_timestamp(row[sch.last_update as int]) {
            Err(_) => Err(DecodeError::BadTimestamp { row: rowi }),
            Ok(ts) => match spec_count_col(sch.confirmed, row) {
                Err(_) => Err(DecodeError::BadCount { row: rowi, column: Column::Confirmed }),
                Ok(cf) => match spec_count_col(sch.deaths, row) {
                    Err(_) => Err(DecodeError::BadCount { row: rowi, column: Column::Deaths }),
                    Ok(de) => match spec_count_col(sch.recovered, row) {
                        Err(_) => Err(
                            DecodeError::BadCount { row: rowi, column: Column::Recovered },
                        ),
                        Ok(re) => match spec_count_col(sch.active, row) {
                            Err(_) => Err(
                                DecodeError::BadCount { row: rowi, column: Column::Active },
                            ),
                            Ok(ac) => Ok(
                                RecordV {
                                    province_state: row[sch.province_state as int],
                                    country_region: row[sch.country_region as int],
                                    last_update: ts,
                                    confirmed: cf,
                                    deaths: de,
                                    recovered: re,
                                    active: ac,
                                    combined_key: row[sch.combined_key as int],
                                },
                            ),
                        },
                    },
                },
            },
        }
    }
}

/// Reads a count column's cell of one row, if the column is present.
fn count_col(idx: Option<usize>, row: &Vec<String>) -> (r: Result<
    Option<u64>,
    crate::counts::CountError,
>)
    requires
        idx matches Some(i) ==> i < row@.len(),
    ensures
        r == spec_count_col(idx, row.deep_view()),
{
    match idx {
        Option::None => Ok(None),
        Option::Some(i) => {
            assert(row.deep_view()[i as int] == row@[i as int]@);
            parse_count(row[i].as_str())
        },
    }
}

/// Decodes one data row against a resolved schema. `rowi` is the row's
/// index in the input, used only to tag an error.
pub fn decode_row(sch: &Schema, row: &Vec<String>, rowi: usize) -> (r: Result<Record, DecodeError>)
    ensures
        match r {
            Ok(rec) => spec_decode_row(*sch, row.deep_view(), rowi) == Ok::<RecordV, DecodeError>(
                rec.deep_view(),
            ),
            Err(e) => spec_decode_row(*sch, row.deep_view(), rowi) == Err::<RecordV, DecodeError>(
                e,
            ),
        },
{
    let ghost rv = row.deep_view();
    assert(forall|j: int| 0 <= j < rv.len() ==> #[trigger] rv[j] == row@[j]@);
    let n = row.len();
    let in_range = sch.province_state < n && sch.country_region < n && sch.last_update < n
        && sch.combined_key < n && (match sch.confirmed {
        Option::None => true,
        Option::Some(i) => i < n,
    }) && (match sch.deaths {
        Option::None => true,
        Option::Some(i) => i < n,
    }) && (match sch.recovered {
        Option::None => true,
        Option::Some(i) => i < n,
    }) && (match sch.active {
        Option::None => true,
        Option::Some(i) => i < n,
    });
    if !in_range {
        return Err(DecodeError::RowFieldCount { row: rowi });
    }
    let ts = match decode_timestamp(row[sch.last_update].as_str()) {
        Ok(t) => t,
        Err(_) => {
            return Err(DecodeError::BadTimestamp { row: rowi });
        },
    };
    let cf = match count_col(sch.confirmed, row) {
        Ok(v) => v,
        Err(_) => {
            return Err(DecodeError::BadCount { row: rowi, column: Column::Confirmed });
        },
    };
    let de = match count_col(sch.deaths, row) {
        Ok(v) => v,
        Err(_) => {
            return Err(DecodeError::BadCount { row: rowi, column: Column::Deaths });
        },
    };
    let re = match count_col(sch.recovered, row) {
        Ok(v) => v,
        Err(_) => {
            return Err(DecodeError::BadCount { row: rowi, column: Column::Recovered });
        },
    };
    let ac = match count_col(sch.active, row) {
        Ok(v) => v,
        Err(_) => {
            return Err(DecodeError::BadCount { row: rowi, column: Column::Active });
        },
    };
    Ok(
        Record {
            province_state: row[sch.province_state].clone(),
            country_region: row[sch.country_region].clone(),
            last_update: ts,
            confirmed: cf,
            deaths: de,
            recovered: re,
            active: ac,
            combined_key: row[sch.combined_key].clone(),
        },
    )
}

/// What the records and error of a decoded stream are: the data rows are
/// read in input order from index `i` on; the records before the first
/// failing row are kept, and its error ends the stream.
pub open spec fn spec_decode_data(sch: Schema, rows: Seq<Seq<Seq<char>>>, i: int) -> (
    Seq<RecordV>,
    Option<DecodeError>,
)
    decreases rows.len() - i,
{
    if i >= rows.len() {
        (Seq::empty(), None)
    } else {
        match spec_decode_row(sch, rows[i], i as usize) {
            Err(e) => (Seq::empty(), Some(e)),
            Ok(rv) => {
                let rest = spec_decode_data(sch, rows, i + 1);
                (seq![rv] + rest.0, rest.1)
            },
        }
    }
}

/// What decoding a whole stream of rows returns: nothing for an empty
/// stream; a header error before any data row; else the data rows' records
/// up to the first failing row, with its error.
pub open spec fn spec_decode_rows(rows: Seq<Seq<Seq<char>>>) -> (Seq<RecordV>, Option<DecodeError>) {
    if rows.len() == 0 {
        (Seq::empty(), None)
    } else {
        match spec_resolve_header(rows[0]) {
            Err(e) => (Seq::empty(), Some(e)),
            Ok(sch) => spec_decode_data(sch, rows, 1),
        }
    }
}

/// What decoding a stream hands back: every record decoded before the
/// first error, in input order, and that error if there was one.
#[derive(Clone, Debug, PartialEq, Eq)]
pub struct DecodeOutcome {
    pub records: Vec<Record>,
    pub error: Option<DecodeError>,
}

/// Decodes a stream of already-split rows, the first row being the header.
/// An input without any row decodes to nothing. A header error comes
/// before any data row is processed.
pub fn decode_rows(rows: &Vec<Vec<String>>) -> (r: DecodeOutcome)
    ensures
        r.records.deep_view() == spec_decode_rows(rows.deep_view()).0,
        r.error == spec_decode_rows(rows.deep_view()).1,
{
    let ghost rsv = rows.deep_view();
    assert(forall|j: int| 0 <= j < rsv.len() ==> #[trigger] rsv[j] == rows@[j].deep_view());
    if rows.len() == 0 {
        let out = DecodeOutcome { records: Vec::new(), error: None };
        assert(out.records.deep_view() =~= spec_decode_rows(rsv).0);
        return out;
    }
    let sch = match resolve_header(&rows[0]) {
        Err(e) => {
            let out = DecodeOutcome { records: Vec::new(), error: Some(e) };
            assert(out.records.deep_view() =~= spec_decode_rows(rsv).0);
            return out;
        },
        Ok(s) => s,
    };
    let mut records: Vec<Record> = Vec::new();
    let mut i: usize = 1;
    assert(records.deep_view() =~= Seq::<RecordV>::empty());
    while i < rows.len()
        invariant
            1 <= i <= rows@.len(),
            rsv == rows.deep_view(),
            rsv.len() == rows@.len(),
            forall|j: int| 0 <= j < rsv.len() ==> #[trigger] rsv[j] == rows@[j].deep_view(),
            rsv.len() > 0,
            spec_resolve_header(rsv[0]) == Ok::<Schema, DecodeError>(sch),
            spec_decode_data(sch, rsv, 1).0 == records.deep_view() + spec_decode_data(
                sch,
                rsv,
                i as int,
            ).0,
            spec_decode_data(sch, rsv, 1).1 == spec_decode_data(sch, rsv, i as int).1,
        decreases rows@.len() - i,
    {
        match decode_row(&sch, &rows[i], i) {
            Err(e) => {
                proof {
                    assert(spec_decode_data(sch, rsv, i as int) == (
                        Seq::<RecordV>::empty(),
                        Some(e),
                    ));
                    assert(records.deep_view() + Seq::<RecordV>::empty() =~= records.deep_view());
                }
                return DecodeOutcome { records, error: Some(e) };
            },
            Ok(rec) => {
                let ghost prev = records.deep_view();
                records.push(rec);
                proof {
                    assert(records.deep_view() =~= prev + seq![rec.deep_view()]);
                    let rest = spec_decode_data(sch, rsv, i as int + 1);
                    assert(spec_decode_data(sch, rsv, i as int) == (
                        seq![rec.deep_view()] + rest.0,
                        rest.1,
                    ));
                    assert((prev + seq![rec.deep_view()]) + rest.0 =~= prev + (seq![
                        rec.deep_view(),
                    ] + rest.0));
                }
                i = i + 1;
            },
        }
    }
    proof {
        assert(spec_decode_data(sch, rsv, i as int) == (
            Seq::<RecordV>::empty(),
            None::<DecodeError>,
        ));
        assert(records.deep_view() + Seq::<RecordV>::empty() =~= records.deep_view());
    }
    DecodeOutcome { records, error: None }
}

/// What the text-level parser makes of the raw input: the rows (header
/// included) before its first complaint, each split into its fields, and
/// whether it complained at all.
pub uninterp spec fn csv_rows(input: Seq<u8>) -> (Seq<Seq<Seq<char>>>, bool);

/// Relies on csv::Reader (comma delimiter, double-quote escaping, equal
/// field counts enforced, no header special-casing): hands back the records
/// before the first malformed one, and the parser's message if one was
/// malformed. The outcome depends on the input bytes alone.
#[verifier::external_body]
fn read_csv(input: &[u8]) -> (r: (Vec<Vec<String>>, Option<String>))
    ensures
        r.0.deep_view() == csv_rows(input@).0,
        (r.1 is Some) == csv_rows(input@).1,
{
    let mut rdr = csv::ReaderBuilder::new().has_headers(false).from_reader(input);
    let mut rows: Vec<Vec<String>> = Vec::new();
    for rec in rdr.records() {
        match rec {
            Ok(fields) => rows.push(fields.iter().map(|f| f.to_string()).collect()),
            Err(e) => return (rows, Some(format!("{}", e))),
        }
    }
    (rows, None)
}

/// Decodes a whole delimited-text input, the first row being the header.
/// The outcome holds every record decoded before the first error, in input
/// order, and that error, if any; a text-level error is reported only where
/// no earlier row already failed to decode.
pub fn decode_csv(input: &[u8]) -> (r: DecodeOutcome)
    ensures
        ({
            let parsed = csv_rows(input@);
            let dec = spec_decode_rows(parsed.0);
            &&& r.records.deep_view() == dec.0
            &&& (dec.1 is Some ==> r.error == dec.1)
            &&& (dec.1 is None && parsed.1 ==> r.error matches Some(DecodeError::Malformed(_)))
            &&& (dec.1 is None && !parsed.1 ==> r.error is None)
        }),
{
    let (rows, complaint) = read_csv(input);
    let mut out = decode_rows(&rows);
    if out.error.is_none() {
        if let Some(msg) = complaint {
            out.error = Some(DecodeError::Malformed(msg));
        }
    }
    out
}

/// For every data row that decodes to a record, re-encoding the record's
/// timestamp reproduces the row's `Last_Update` cell exactly (round trip at
/// one-second resolution).
pub proof fn lemma_row_timestamp_round_trip(sch: Schema, row: Seq<Seq<char>>, rowi: usize)
    requires
        spec_decode_row(sch, row, rowi) is Ok,
    ensures
        match spec_decode_row(sch, row, rowi) {
            Ok(rv) => spec_encode_timestamp(rv.last_update) == row[sch.last_update as int],
            Err(_) => false,
        },
{
    lemma_timestamp_round_trip(row[sch.last_update as int]);
}

/// A header without the `Last_Update` column makes the whole stream decode
/// to a schema error and no record at all: the error comes before any data
/// row is processed.
pub proof fn lemma_missing_last_update_is_schema_error(rows: Seq<Seq<Seq<char>>>)
    requires
        rows.len() > 0,
        !occurs(rows[0], column_name(Column::LastUpdate)),
    ensures
        spec_decode_rows(rows).0 == Seq::<RecordV>::empty(),
        match spec_decode_rows(rows).1 {
            Option::Some(e) => is_schema_error(e),
            Option::None => false,
        },
{
    let h = rows[0];
    let name = column_name(Column::LastUpdate);
    assert(forall|j: int| #![trigger h[j]] 0 <= j < h.len() ==> h[j] != name) by {
        assert forall|j: int| 0 <= j < h.len() implies #[trigger] h[j] != name by {
            assert(!found_at(h, name, j));
        }
    }
    lemma_find_from_none(h, name, 0);
    assert_by_contradiction!(!occurs_twice(h, name), {
        let (a, b) = choose|a: int, b: int|
            a < b && #[trigger] found_at(h, name, a) && #[trigger] found_at(h, name, b);
    });
    assert(req_col(h, Column::LastUpdate) == Err::<usize, DecodeError>(
        DecodeError::MissingColumn(Column::LastUpdate),
    ));
    assert(spec_decode_rows(rows).0 =~= Seq::<RecordV>::empty());
}

} // verus!
