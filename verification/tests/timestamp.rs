use covid_records::timestamp::{decode_timestamp, encode_timestamp, FormatError, Timestamp};
use chrono::{Datelike, Timelike};

fn ts(year: u16, month: u8, day: u8, hour: u8, minute: u8, second: u8) -> Timestamp {
    Timestamp { year, month, day, hour, minute, second }
}

fn encode_to_string(t: &Timestamp) -> String {
    encode_timestamp(t).into_iter().collect()
}

#[test]
fn decodes_the_reference_instant() {
    assert_eq!(decode_timestamp("2021-01-05 00:00:00"), Ok(ts(2021, 1, 5, 0, 0, 0)));
}

#[test]
fn rejects_invalid_month() {
    assert_eq!(decode_timestamp("2021-13-01 00:00:00"), Err(FormatError));
    assert_eq!(decode_timestamp("2021-00-01 00:00:00"), Err(FormatError));
}

#[test]
fn decodes_an_ordinary_instant() {
    assert_eq!(decode_timestamp("1999-12-31 23:59:59"), Ok(ts(1999, 12, 31, 23, 59, 59)));
}

#[test]
fn agrees_with_a_calendar_library() {
    let texts = ["2021-01-05 00:00:00", "2020-02-29 13:07:42", "0001-01-01 00:00:01"];
    for text in texts {
        let ours = decode_timestamp(text).unwrap();
        let theirs =
            chrono::NaiveDateTime::parse_from_str(text, "%Y-%m-%d %H:%M:%S").unwrap();
        assert_eq!(ours.year as i32, theirs.year());
        assert_eq!(ours.month as u32, theirs.month());
        assert_eq!(ours.day as u32, theirs.day());
        assert_eq!(ours.hour as u32, theirs.hour());
        assert_eq!(ours.minute as u32, theirs.minute());
        assert_eq!(ours.second as u32, theirs.second());
    }
}

#[test]
fn round_trips_decoded_text() {
    for text in [
        "2021-01-05 00:00:00",
        "2020-02-29 23:59:59",
        "0000-01-01 00:00:00",
        "9999-12-31 12:30:45",
    ] {
        let t = decode_timestamp(text).unwrap();
        assert_eq!(encode_to_string(&t), text);
    }
}

#[test]
fn encodes_with_zero_padding() {
    assert_eq!(encode_to_string(&ts(2021, 1, 5, 0, 0, 0)), "2021-01-05 00:00:00");
    assert_eq!(encode_to_string(&ts(33, 11, 30, 7, 8, 9)), "0033-11-30 07:08:09");
}

#[test]
fn respects_leap_years() {
    assert!(decode_timestamp("2020-02-29 00:00:00").is_ok());
    assert_eq!(decode_timestamp("2021-02-29 00:00:00"), Err(FormatError));
    assert!(decode_timestamp("2000-02-29 00:00:00").is_ok());
    assert_eq!(decode_timestamp("1900-02-29 00:00:00"), Err(FormatError));
    assert_eq!(decode_timestamp("2020-02-30 00:00:00"), Err(FormatError));
}

#[test]
fn respects_month_lengths() {
    assert!(decode_timestamp("2021-04-30 00:00:00").is_ok());
    assert_eq!(decode_timestamp("2021-04-31 00:00:00"), Err(FormatError));
    assert!(decode_timestamp("2021-12-31 00:00:00").is_ok());
    assert_eq!(decode_timestamp("2021-06-00 00:00:00"), Err(FormatError));
}

#[test]
fn rejects_out_of_range_time_components() {
    assert_eq!(decode_timestamp("2021-01-05 24:00:00"), Err(FormatError));
    assert_eq!(decode_timestamp("2021-01-05 00:60:00"), Err(FormatError));
    assert_eq!(decode_timestamp("2021-01-05 00:00:60"), Err(FormatError));
}

#[test]
fn rejects_wrong_shape() {
    assert_eq!(decode_timestamp(""), Err(FormatError));
    assert_eq!(decode_timestamp("2021-01-05"), Err(FormatError));
    assert_eq!(decode_timestamp("2021-01-05 00:00:00.0"), Err(FormatError));
    assert_eq!(decode_timestamp("2021-01-05T00:00:00"), Err(FormatError));
    assert_eq!(decode_timestamp("2021/01/05 00:00:00"), Err(FormatError));
    assert_eq!(decode_timestamp("21-01-05 00:00:00"), Err(FormatError));
    assert_eq!(decode_timestamp(" 2021-01-05 00:00:00"), Err(FormatError));
    assert_eq!(decode_timestamp("2021-01-05 00:00:0x"), Err(FormatError));
}
