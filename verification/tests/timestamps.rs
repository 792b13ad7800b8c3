use service_notes::timestamp::Timestamp;

#[test]
fn epoch_renders_as_the_time_crate_shows_it() {
    assert_eq!(
        Timestamp { nanos: 0 }.to_text(),
        Some("1970-01-01 0:00:00.0 +00:00:00".to_string())
    );
}

#[test]
fn instant_renders_with_its_fraction() {
    let nanos = 1_546_300_800_000_000_000i128 + 13 * 3_600_000_000_000 + 123_456_000;
    assert_eq!(
        Timestamp { nanos }.to_text(),
        Some("2019-01-01 13:00:00.123456 +00:00:00".to_string())
    );
}

#[test]
fn instant_before_the_epoch_renders() {
    assert_eq!(
        Timestamp { nanos: -1_000_000_000 }.to_text(),
        Some("1969-12-31 23:59:59.0 +00:00:00".to_string())
    );
}

#[test]
fn instant_renders_as_the_time_crate_does() {
    for nanos in [0i128, 1, -1, 946_684_800_000_000_000, 253_402_300_799_999_999_999] {
        let theirs = time::OffsetDateTime::from_unix_timestamp_nanos(nanos).unwrap().to_string();
        assert_eq!(Timestamp { nanos }.to_text(), Some(theirs));
    }
}

#[test]
fn instant_out_of_range_has_no_text() {
    assert_eq!(Timestamp { nanos: i128::MAX }.to_text(), None);
    assert_eq!(Timestamp { nanos: i128::MIN }.to_text(), None);
}
