use rpm_builder::changelog::{changelog_entry, parse_changelog, ChangelogEntry};
use rpm_builder::error::ErrorKind;

#[test]
fn date_becomes_midnight_utc() {
    assert_eq!(
        parse_changelog("jane:fix bug:2024-03-15"),
        Ok(ChangelogEntry {
            author: "jane".to_string(),
            content: "fix bug".to_string(),
            timestamp: 1_710_460_800,
        })
    );
}

#[test]
fn dates_round_the_epoch() {
    assert_eq!(parse_changelog("a:b:1970-01-01").unwrap().timestamp, 0);
    assert_eq!(parse_changelog("a:b:1970-01-02").unwrap().timestamp, 86_400);
    assert_eq!(parse_changelog("a:b:1969-12-31").unwrap().timestamp, -86_400);
    assert_eq!(parse_changelog("a:b:2024-02-29").unwrap().timestamp, 1_709_164_800);
}

#[test]
fn timestamps_hold_no_time_of_day() {
    for date in ["2024-03-15", "1999-12-31", "1600-02-29", "2038-01-19", "0001-01-01"] {
        let entry = parse_changelog(&format!("a:b:{}", date)).unwrap();
        assert_eq!(entry.timestamp % 86_400, 0, "{}", date);
    }
}

#[test]
fn author_and_content_are_kept_as_written() {
    let entry = parse_changelog(" Jane D\u{f6}e <jane@example.org> : fixed; it works :2024-03-15")
        .unwrap();
    assert_eq!(entry.author, " Jane D\u{f6}e <jane@example.org> ");
    assert_eq!(entry.content, " fixed; it works ");
    let empty = parse_changelog("::2024-03-15").unwrap();
    assert_eq!(empty.author, "");
    assert_eq!(empty.content, "");
}

#[test]
fn wrong_number_of_parts_is_rejected() {
    for raw in ["", "jane", "jane:fix bug", "jane:fix:bug:2024-03-15", ":::", "a:b:c:d:e"] {
        let e = parse_changelog(raw).unwrap_err();
        assert_eq!(e.kind, ErrorKind::InvalidChangelogEntry, "{:?}", raw);
        assert_eq!(
            e.cause,
            format!(
                "invalid file argument:{} it needs to be of the form <author>:<content>:<yyyy-mm-dd>",
                raw
            )
        );
    }
}

#[test]
fn month_and_day_out_of_range_is_an_invalid_date() {
    let e = parse_changelog("jane:fix bug:2024-13-40").unwrap_err();
    assert_eq!(e.kind, ErrorKind::InvalidDate);
    assert_eq!(
        e.cause,
        "error while parsing date time: input is out of range, invalid date argument:2024-13-40 \
         it needs to be of the form <yyyy-mm-dd>"
    );
    assert_eq!(e.message(), e.cause);
    assert!(e.cause.contains("2024-13-40"));
    assert!(e.cause.contains("<yyyy-mm-dd>"));
    assert!(e.cause.contains("input is out of range"));
}

#[test]
fn unreadable_dates_are_invalid_dates() {
    for (date, detail) in [
        ("", "premature end of input"),
        ("yesterday", "input contains invalid characters"),
        ("2024-03", "premature end of input"),
        ("2024-03-15T10", "trailing input"),
        ("2023-02-29", "input is out of range"),
        ("2024-00-10", "input is out of range"),
        ("15.03.2024", "input contains invalid characters"),
    ] {
        let e = parse_changelog(&format!("jane:fix bug:{}", date)).unwrap_err();
        assert_eq!(e.kind, ErrorKind::InvalidDate, "{:?}", date);
        assert_eq!(
            e.cause,
            format!(
                "error while parsing date time: {}, invalid date argument:{} it needs to be of \
                 the form <yyyy-mm-dd>",
                detail, date
            ),
            "{:?}",
            date
        );
    }
}

#[test]
fn entry_from_date_fields() {
    assert_eq!(
        changelog_entry("jane".to_string(), "fix".to_string(), "2024-03-15", Ok((2024, 3, 15))),
        Ok(ChangelogEntry {
            author: "jane".to_string(),
            content: "fix".to_string(),
            timestamp: 1_710_460_800,
        })
    );
    assert_eq!(
        changelog_entry("jane".to_string(), "fix".to_string(), "1970-01-01", Ok((1970, 1, 1)))
            .unwrap()
            .timestamp,
        0
    );
}

#[test]
fn entry_from_fields_that_are_no_date() {
    for fields in [(2023, 2, 29), (2024, 13, 40), (2024, 0, 1), (2024, 1, 0), (2024, 6, 31)] {
        let e = changelog_entry("jane".to_string(), "fix".to_string(), "a date", Ok(fields))
            .unwrap_err();
        assert_eq!(e.kind, ErrorKind::InvalidDate);
        assert_eq!(
            e.cause,
            "error while parsing date time: no such day in the calendar, invalid date \
             argument:a date it needs to be of the form <yyyy-mm-dd>"
        );
    }
}

#[test]
fn entry_from_a_failed_reading() {
    let e = changelog_entry(
        "jane".to_string(),
        "fix".to_string(),
        "2024-03-15T10",
        Err("trailing input".to_string()),
    )
    .unwrap_err();
    assert_eq!(e.kind, ErrorKind::InvalidDate);
    assert_eq!(
        e.cause,
        "error while parsing date time: trailing input, invalid date argument:2024-03-15T10 it \
         needs to be of the form <yyyy-mm-dd>"
    );
    let e = changelog_entry(String::new(), String::new(), "", Err(String::new())).unwrap_err();
    assert_eq!(
        e.cause,
        "error while parsing date time: , invalid date argument: it needs to be of the form \
         <yyyy-mm-dd>"
    );
}
