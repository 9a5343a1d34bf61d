use shuntlited::clock::{now_rfc3339, reading_text, seconds_since_epoch, signed_timestamp, unix_now_secs};

#[test]
fn seconds_before_epoch_read_as_zero() {
    assert_eq!(seconds_since_epoch((false, 1700, 5)), 1700);
    assert_eq!(seconds_since_epoch((true, 1700, 5)), 0);
    assert!(unix_now_secs() > 1_600_000_000);
}

#[test]
fn signed_timestamps_as_chrono_counts_them() {
    assert_eq!(signed_timestamp((false, 10, 5)), Some((10, 5)));
    assert_eq!(signed_timestamp((true, 10, 0)), Some((-10, 0)));
    assert_eq!(signed_timestamp((true, 10, 250_000_000)), Some((-11, 750_000_000)));
    assert_eq!(signed_timestamp((false, u64::MAX, 0)), None);
}

#[test]
fn rfc3339_texts() {
    assert_eq!(reading_text((false, 1_431_648_000, 0)), "2015-05-15T00:00:00+00:00");
    assert_eq!(reading_text((true, 1, 0)), "1969-12-31T23:59:59+00:00");
    assert_eq!(reading_text((false, u64::MAX, 0)), "1970-01-01T00:00:00+00:00");
    let now = now_rfc3339();
    assert!(chrono::DateTime::parse_from_rfc3339(&now).is_ok());
}
