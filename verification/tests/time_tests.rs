use theca::errors::Error;
use theca::item::{Item, Status};
use theca::lineformat::LineFormat;
use theca::utils::{
    current_timestamp, local_offset_of, localize_at, localize_last_touched_string, offset_or_utc,
    parse_last_touched, timestamp_at,
};

#[test]
fn parse_last_touched_gives_the_moment() {
    assert_eq!(parse_last_touched("2016-01-08 15:31:14 -0800"), Ok(1452295874));
    assert_eq!(parse_last_touched("2016-07-08 15:31:14 -0800"), Ok(1468020674));
    assert_eq!(parse_last_touched("1970-01-01 00:00:00 +0000"), Ok(0));
    assert_eq!(parse_last_touched("1970-01-01 01:00:00 +0100"), Ok(0));
    assert_eq!(parse_last_touched("1970-01-01 0:00:07 +0000"), Ok(7));
}

#[test]
fn parse_last_touched_refuses_what_is_no_time() {
    for text in ["", "yesterday", "2016-13-08 15:31:14 -0800", "2016-01-08 15:31:14", "2016-01-08"] {
        assert_eq!(parse_last_touched(text), Err(Error::InvalidTimestamp(text.to_string())));
    }
}

#[test]
fn parse_last_touched_refuses_a_signed_year() {
    for text in ["+2016-01-08 15:31:14 -0800", "-0001-01-08 15:31:14 -0800", "+100000-12-31 23:59:59 -0100"] {
        assert_eq!(parse_last_touched(text), Err(Error::InvalidTimestamp(text.to_string())));
    }
}

#[test]
fn localize_at_moves_the_time_to_the_offset() {
    let stored = "2016-01-08 15:31:14 -0800";
    assert_eq!(localize_at(stored, -5 * 3600), Ok("2016-01-08 18:31:14".to_string()));
    assert_eq!(localize_at(stored, 0), Ok("2016-01-08 23:31:14".to_string()));
    assert_eq!(localize_at(stored, 3600), Ok("2016-01-09 0:31:14".to_string()));
    assert_eq!(localize_at(stored, -8 * 3600), Ok("2016-01-08 15:31:14".to_string()));
}

#[test]
fn localize_at_refuses_an_offset_of_a_day() {
    let stored = "2016-01-08 15:31:14 -0800";
    assert!(matches!(localize_at(stored, 86_400), Err(Error::InvalidArgument(_))));
    assert!(matches!(localize_at(stored, -86_400), Err(Error::InvalidArgument(_))));
    assert!(localize_at(stored, 86_399).is_ok());
    assert!(localize_at(stored, -86_399).is_ok());
    assert_eq!(localize_at("never", 0), Err(Error::InvalidTimestamp("never".to_string())));
}

#[test]
fn the_local_zone_is_some_zone() {
    let stored = "2016-01-08 15:31:14 -0800";
    let offset = local_offset_of(stored).unwrap();
    assert!(-86_400 < offset && offset < 86_400);
    assert_eq!(localize_last_touched_string(stored), localize_at(stored, offset));
    assert_eq!(local_offset_of("never"), Err(Error::InvalidTimestamp("never".to_string())));
    assert_eq!(
        localize_last_touched_string("never"),
        Err(Error::InvalidTimestamp("never".to_string()))
    );
}

#[test]
fn timestamp_at_writes_the_stored_form() {
    assert_eq!(timestamp_at(1452295874, -8 * 3600), Some("2016-01-08 15:31:14 -0800".to_string()));
    assert_eq!(timestamp_at(1452295874, 0), Some("2016-01-08 23:31:14 +0000".to_string()));
    assert_eq!(timestamp_at(0, 5 * 3600 + 1800), Some("1970-01-01 5:30:00 +0530".to_string()));
    assert_eq!(timestamp_at(1_000_000_000_000, 0).map(|t| parse_last_touched(&t).is_ok()), Some(false));
}

#[test]
fn timestamp_at_can_be_read_again() {
    for (unix, offset) in [(0, 0), (1452295874, -18_000), (1468020674, 7200), (253_402_300_799, 0)] {
        let stored = timestamp_at(unix, offset).unwrap();
        assert_eq!(parse_last_touched(&stored), Ok(unix));
    }
    // a year of five digits is written with a sign, and is not read again
    let late = timestamp_at(253_402_300_799, 86_399).unwrap();
    assert_eq!(late, "+10000-01-01 23:59:58 +2359");
    assert_eq!(parse_last_touched(&late), Err(Error::InvalidTimestamp(late.clone())));
}

#[test]
fn timestamp_at_refuses_what_is_out_of_reach() {
    assert_eq!(timestamp_at(1_000_000_000_001, 0), None);
    assert_eq!(timestamp_at(-1_000_000_000_001, 0), None);
    assert_eq!(timestamp_at(i64::MAX, 0), None);
    assert_eq!(timestamp_at(0, 86_400), None);
    assert_eq!(timestamp_at(0, -86_400), None);
    assert!(timestamp_at(-1_000_000_000_000, -86_399).is_some());
}

#[test]
fn an_offset_of_a_day_counts_as_utc() {
    assert_eq!(offset_or_utc(0), 0);
    assert_eq!(offset_or_utc(3600), 3600);
    assert_eq!(offset_or_utc(-18_000), -18_000);
    assert_eq!(offset_or_utc(86_399), 86_399);
    assert_eq!(offset_or_utc(-86_399), -86_399);
    assert_eq!(offset_or_utc(86_400), 0);
    assert_eq!(offset_or_utc(-86_400), 0);
    assert_eq!(offset_or_utc(i32::MAX), 0);
    assert_eq!(offset_or_utc(i32::MIN), 0);
}

#[test]
fn current_timestamp_can_be_read_again() {
    let now = current_timestamp().expect("the clock is within reach");
    let unix = parse_last_touched(&now).expect("a timestamp that was just made");
    // after 2020 and before 2200
    assert!(unix > 1_577_836_800 && unix < 7_258_118_400);
}

#[test]
fn write_shows_the_local_time() {
    let item = Item {
        id: 3,
        title: "title".into(),
        status: Status::Urgent,
        body: "".into(),
        last_touched: "2016-01-08 15:31:14 -0800".into(),
    };
    let format = LineFormat::new(&[item.clone()], false, false, 0).unwrap();
    let offset = local_offset_of(&item.last_touched).unwrap();
    let mut local: Vec<u8> = b"before ".to_vec();
    item.write(&mut local, &format, false).unwrap();
    let mut fixed: Vec<u8> = b"before ".to_vec();
    item.write_at_offset(&mut fixed, &format, false, offset).unwrap();
    assert_eq!(local, fixed);
    assert!(String::from_utf8(local).unwrap().starts_with("before 3   title  Urgent   2016-01-0"));
}

#[test]
fn write_fails_without_a_time_and_writes_nothing() {
    let item = Item {
        id: 3,
        title: "title".into(),
        status: Status::Urgent,
        body: "".into(),
        last_touched: "once".into(),
    };
    let format = LineFormat::new(&[item.clone()], false, false, 0).unwrap();
    let mut out: Vec<u8> = b"kept".to_vec();
    assert_eq!(item.write(&mut out, &format, false), Err(Error::InvalidTimestamp("once".to_string())));
    assert_eq!(
        item.write_at_offset(&mut out, &format, false, 0),
        Err(Error::InvalidTimestamp("once".to_string()))
    );
    assert!(matches!(
        item.write_at_offset(&mut out, &format, false, 90_000),
        Err(Error::InvalidArgument(_))
    ));
    assert_eq!(out, b"kept".to_vec());
}

#[test]
fn write_shows_the_lines_of_a_body() {
    let item = Item {
        id: 12,
        title: "t".into(),
        status: Status::Blank,
        body: "one\r\ntwo\n\nfour\n".into(),
        last_touched: "2016-01-08 15:31:14 -0800".into(),
    };
    let format = LineFormat::new(&[item.clone()], true, true, 0).unwrap();
    let mut out: Vec<u8> = Vec::new();
    item.write_at_offset(&mut out, &format, true, 0).unwrap();
    assert_eq!(String::from_utf8(out).unwrap(), "12 t 2016-01-08\n\tone\n\ttwo\n\t\n\tfour\n");
    let mut item = item;
    item.body = "ends in a return\r".into();
    let mut out: Vec<u8> = Vec::new();
    item.write_at_offset(&mut out, &format, true, 0).unwrap();
    assert_eq!(String::from_utf8(out).unwrap(), "12 t 2016-01-08\n\tends in a return\r\n");
}

#[test]
fn write_marks_a_body_in_a_narrow_column() {
    let item = Item {
        id: 1,
        title: "a title of some length".into(),
        status: Status::Started,
        body: "body".into(),
        last_touched: "2016-01-08 15:31:14 -0800".into(),
    };
    let format = LineFormat { colsep: 1, id_width: 1, title_width: 12, status_width: 1, touched_width: 10 };
    let mut out: Vec<u8> = Vec::new();
    item.write_at_offset(&mut out, &format, false, 0).unwrap();
    assert_eq!(String::from_utf8(out).unwrap(), "1 a tit... (+) S 2016-01-08\n");
    // a column narrower than the marker leaves the title no room
    let format = LineFormat { colsep: 1, id_width: 1, title_width: 2, status_width: 0, touched_width: 10 };
    let mut out: Vec<u8> = Vec::new();
    item.write_at_offset(&mut out, &format, false, 0).unwrap();
    assert_eq!(String::from_utf8(out).unwrap(), "1 a title of some length (+) 2016-01-08\n");
}
