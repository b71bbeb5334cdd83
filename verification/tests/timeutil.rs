use bmkg_edge::timeutil::{days_from_civil, iso_to_epoch_ms};

#[test]
fn epoch_itself() {
    assert_eq!(iso_to_epoch_ms("1970-01-01T00:00:00Z"), Some(0));
}

#[test]
fn a_bmkg_slot() {
    // 2026-09-16T04:00:00Z
    assert_eq!(
        iso_to_epoch_ms("2026-09-16T04:00:00Z"),
        Some(1_789_531_200_000)
    );
}

#[test]
fn space_separated_form() {
    assert_eq!(
        iso_to_epoch_ms("2026-09-16 04:00:00"),
        iso_to_epoch_ms("2026-09-16T04:00:00Z")
    );
}

#[test]
fn offsets_are_applied() {
    // 11:00 in WIB is 04:00 UTC.
    assert_eq!(
        iso_to_epoch_ms("2026-09-16T11:00:00+07:00"),
        iso_to_epoch_ms("2026-09-16T04:00:00Z")
    );
}

#[test]
fn leap_day() {
    assert_eq!(
        iso_to_epoch_ms("2024-02-29T00:00:00Z"),
        Some(1_709_164_800_000)
    );
}

#[test]
fn garbage_is_rejected() {
    assert!(iso_to_epoch_ms("not a date").is_none());
    assert!(iso_to_epoch_ms("2026-13-01T00:00:00Z").is_none());
}

#[test]
fn days_follow_on_across_years_and_leap_years() {
    let day = 86_400_000;
    for (a, b) in [
        ("1969-12-31T00:00:00Z", "1970-01-01T00:00:00Z"),
        ("1999-12-31T00:00:00Z", "2000-01-01T00:00:00Z"),
        ("2000-02-28T00:00:00Z", "2000-02-29T00:00:00Z"),
        ("2000-02-29T00:00:00Z", "2000-03-01T00:00:00Z"),
        ("1900-02-28T00:00:00Z", "1900-03-01T00:00:00Z"),
        ("0000-12-31T00:00:00Z", "0001-01-01T00:00:00Z"),
        ("-001-12-31T00:00:00Z", "0000-01-01T00:00:00Z"),
        ("2026-04-30T00:00:00Z", "2026-05-01T00:00:00Z"),
    ] {
        assert_eq!(
            iso_to_epoch_ms(a).unwrap() + day,
            iso_to_epoch_ms(b).unwrap(),
            "{a}"
        );
    }
    assert_eq!(
        iso_to_epoch_ms("0000-03-01T00:00:00Z"),
        Some(-719_468 * 86_400_000)
    );
}

#[test]
fn clock_fields_count() {
    assert_eq!(
        iso_to_epoch_ms("1970-01-02T03:04:05"),
        Some(((24 + 3) * 3600 + 4 * 60 + 5) * 1000)
    );
    // A day that the month does not have runs on into the next month.
    assert_eq!(
        iso_to_epoch_ms("2026-02-31T00:00:00Z"),
        iso_to_epoch_ms("2026-03-03T00:00:00Z")
    );
}

#[test]
fn offset_forms() {
    let utc = iso_to_epoch_ms("2026-09-16T04:00:00").unwrap();
    assert_eq!(iso_to_epoch_ms("2026-09-16T01:00:00-0300"), Some(utc));
    assert_eq!(iso_to_epoch_ms("2026-09-16T04:00:00+00:00"), Some(utc));
    assert_eq!(iso_to_epoch_ms("2026-09-16T09:30:00 +05:30 "), Some(utc));
    // Fewer than four digits are no offset, nor is anything without a sign.
    assert_eq!(iso_to_epoch_ms("2026-09-16T04:00:00+07"), Some(utc));
    assert_eq!(iso_to_epoch_ms("2026-09-16T04:00:00.123Z"), Some(utc));
}

#[test]
fn shapes_that_are_no_timestamp() {
    for bad in [
        "",
        "2026-09-16T04:00:0",
        "2026-09-16T04:00:xx",
        "2026-00-16T04:00:00",
        "2026-09-00T04:00:00",
        "2026-09-32T04:00:00",
        "20é6-09-16T04:00:00",
        "2026é09-16T04:00:00",
        "2026-09-16é04:00:00Z",
    ] {
        assert_eq!(iso_to_epoch_ms(bad), None, "{bad}");
    }
    assert_eq!(
        iso_to_epoch_ms("2026/09/16x04.00.00"),
        iso_to_epoch_ms("2026-09-16T04:00:00")
    );
}

#[test]
fn days_are_counted_from_the_epoch() {
    assert_eq!(days_from_civil(1970, 1, 1), 0);
    assert_eq!(days_from_civil(1969, 12, 31), -1);
    assert_eq!(days_from_civil(2000, 3, 1), 11_017);
    assert_eq!(days_from_civil(0, 3, 1), -719_468);
    for (y, m, d) in [(1970, 1, 1), (2024, 2, 29), (1900, 2, 28), (-5, 12, 31), (9_999, 6, 15)] {
        assert_eq!(
            days_from_civil(y + 400, m, d),
            days_from_civil(y, m, d) + 146_097
        );
    }
    assert_eq!(
        days_from_civil(400_000_000_000, 1, 1),
        days_from_civil(0, 1, 1) + 1_000_000_000 * 146_097
    );
}
