use webcrawler::time::{FIRST_SECOND, LAST_SECOND, Timestamp};

fn text(secs: i64, nanos: u32) -> String {
    Timestamp::new(secs, nanos).unwrap().to_text()
}

#[test]
fn text_has_the_digits_it_needs() {
    assert_eq!(text(0, 0), "1970-01-01T00:00:00Z");
    assert_eq!(text(1_700_000_000, 0), "2023-11-14T22:13:20Z");
    assert_eq!(text(1_700_000_000, 120_000_000), "2023-11-14T22:13:20.120Z");
    assert_eq!(text(1_700_000_000, 120_450_000), "2023-11-14T22:13:20.120450Z");
    assert_eq!(text(1_700_000_000, 120_450_007), "2023-11-14T22:13:20.120450007Z");
    assert_eq!(text(-1, 999_999_999), "1969-12-31T23:59:59.999999999Z");
}

#[test]
fn text_is_that_of_the_date_library() {
    for (secs, nanos) in [(0i64, 1u32), (951_782_400, 0), (4_102_444_799, 1_000), (-62_135_596_800, 7)] {
        let at = chrono::DateTime::from_timestamp(secs, nanos).unwrap();
        let quoted = serde_json::to_string(&at).unwrap();
        assert_eq!(format!("\"{}\"", text(secs, nanos)), quoted);
    }
}

#[test]
fn text_is_read_back() {
    let instants = [
        (0, 0),
        (1_700_000_000, 120_450_007),
        (-1, 999_999_999),
        (59, 1_000_000_000),
        (-1, 1_999_999_999),
        (FIRST_SECOND, 0),
        (FIRST_SECOND, 1),
        (FIRST_SECOND + 59, 1_500_000_000),
        (LAST_SECOND, 0),
        (LAST_SECOND, 999_999_999),
        (LAST_SECOND, 1_999_999_999),
    ];
    for (secs, nanos) in instants {
        let at = Timestamp::new(secs, nanos).unwrap();
        assert!(Timestamp::from_text(&at.to_text()) == Some(at), "{} {}", secs, nanos);
    }
}

#[test]
fn every_second_near_the_bounds_is_read_back() {
    for i in 0..2000i64 {
        for secs in [FIRST_SECOND + i * 3_601, LAST_SECOND - i * 3_601, i * 86_399_999 - 62_200_000_000] {
            let at = Timestamp::new(secs, 10).unwrap();
            assert!(Timestamp::from_text(&at.to_text()) == Some(at), "{}", secs);
        }
    }
}

#[test]
fn leap_second_text() {
    assert_eq!(text(1_483_228_799, 1_500_000_000), "2016-12-31T23:59:60.500Z");
}

#[test]
fn no_instant_out_of_range() {
    assert!(Timestamp::new(FIRST_SECOND - 1, 0).is_none());
    assert!(Timestamp::new(LAST_SECOND + 1, 0).is_none());
    assert!(Timestamp::new(i64::MIN, 0).is_none());
    assert!(Timestamp::new(i64::MAX, 0).is_none());
    assert!(Timestamp::new(0, 1_000_000_000).is_none());
    assert!(Timestamp::new(58, 1_999_999_999).is_none());
    assert!(Timestamp::new(59, 2_000_000_000).is_none());
    assert!(Timestamp::new(0, u32::MAX).is_none());
}

#[test]
fn range_is_that_of_the_date_library() {
    let in_range = |secs: i64, nanos: u32| chrono::DateTime::from_timestamp(secs, nanos).is_some();
    for secs in [FIRST_SECOND - 1, FIRST_SECOND, LAST_SECOND, LAST_SECOND + 1, -1, 0, 59, 60, -61] {
        for nanos in [0u32, 999_999_999, 1_000_000_000, 1_999_999_999, 2_000_000_000] {
            assert_eq!(Timestamp::new(secs, nanos).is_some(), in_range(secs, nanos), "{} {}", secs, nanos);
        }
    }
}

#[test]
fn other_offsets_are_read_as_utc() {
    let at = Timestamp::from_text("2023-11-14T23:13:20+01:00").unwrap();
    assert_eq!(at.to_text(), "2023-11-14T22:13:20Z");
    let at = Timestamp::from_text("2023-11-14 22:13:20.5 -00:30").unwrap();
    assert_eq!(at.to_text(), "2023-11-14T22:43:20.500Z");
}

#[test]
fn other_texts_give_no_instant() {
    for text in ["", "yesterday", "2023-11-14", "2023-11-14T22:13:20", "2023-13-14T22:13:20Z", "1700000000"] {
        assert!(Timestamp::from_text(text).is_none(), "{}", text);
    }
}

#[test]
fn now_is_now() {
    let before = chrono::Utc::now();
    let now = Timestamp::now();
    let after = chrono::Utc::now();
    let now: chrono::DateTime<chrono::Utc> = now.to_text().parse().unwrap();
    assert!(before <= now && now <= after);
}
