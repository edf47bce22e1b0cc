use burndown::clock::{local_timestamp, seconds_between, Timestamp};
use burndown::record::{parse_line, record_from_parts, render_line, ReportError, ReportLine};
use burndown::text::{chars_of, is_blank_char, line_end, next_field};

fn line_chars(s: &str) -> Vec<char> {
    s.chars().collect()
}

fn stamp(secs: i64) -> Timestamp {
    Timestamp { secs, nanos: 0 }
}

#[test]
fn reads_open_and_closed_counts() {
    let line = ReportLine::from_str("2024-01-01T00:00:00 5 0").unwrap();
    assert_eq!(line.open, 5);
    assert_eq!(line.closed, 0);
    let line = ReportLine::from_str("2024-01-01T00:10:00 3 2").unwrap();
    assert_eq!(line.open, 3);
    assert_eq!(line.closed, 2);
}

#[test]
fn line_without_third_field_is_malformed() {
    assert_eq!(ReportLine::from_str("2024-01-01T00:00:00 5"), Err(ReportError::MalformedLine));
}

#[test]
fn count_of_300_is_invalid() {
    assert_eq!(ReportLine::from_str("2024-01-01T00:00:00 300 0"), Err(ReportError::InvalidCount));
    assert_eq!(ReportLine::from_str("2024-01-01T00:00:00 0 300"), Err(ReportError::InvalidCount));
}

#[test]
fn empty_and_blank_lines_are_malformed() {
    assert_eq!(ReportLine::from_str(""), Err(ReportError::MalformedLine));
    assert_eq!(ReportLine::from_str("   "), Err(ReportError::MalformedLine));
    assert_eq!(ReportLine::from_str("\t\r"), Err(ReportError::MalformedLine));
    assert_eq!(ReportLine::from_str("2024-01-01T00:00:00"), Err(ReportError::MalformedLine));
}

#[test]
fn too_few_fields_come_before_a_bad_date() {
    assert_eq!(ReportLine::from_str("yesterday"), Err(ReportError::MalformedLine));
    assert_eq!(ReportLine::from_str("yesterday 5"), Err(ReportError::MalformedLine));
}

#[test]
fn bad_date_is_invalid_timestamp() {
    assert_eq!(ReportLine::from_str("yesterday 5 0"), Err(ReportError::InvalidTimestamp));
    assert_eq!(ReportLine::from_str("2024-13-01T00:00:00 5 0"), Err(ReportError::InvalidTimestamp));
    assert_eq!(ReportLine::from_str("2024-01-01 5 0"), Err(ReportError::InvalidTimestamp));
    assert_eq!(ReportLine::from_str("2024-01-01T25:00:00 5 0"), Err(ReportError::InvalidTimestamp));
}

#[test]
fn bad_date_comes_before_a_bad_count() {
    assert_eq!(ReportLine::from_str("yesterday 300 x"), Err(ReportError::InvalidTimestamp));
}

#[test]
fn counts_that_are_no_numbers_are_invalid() {
    for bad in ["x", "-1", "1.5", "256", "+", "5a", "0x10", "--", "1e2", "٣"] {
        let first = format!("2024-01-01T00:00:00 {} 0", bad);
        assert_eq!(ReportLine::from_str(&first), Err(ReportError::InvalidCount), "{}", bad);
        let second = format!("2024-01-01T00:00:00 0 {}", bad);
        assert_eq!(ReportLine::from_str(&second), Err(ReportError::InvalidCount), "{}", bad);
    }
}

#[test]
fn counts_at_both_ends_of_the_range() {
    let line = ReportLine::from_str("2024-01-01T00:00:00 0 255").unwrap();
    assert_eq!((line.open, line.closed), (0, 255));
    let line = ReportLine::from_str("2024-01-01T00:00:00 255 0").unwrap();
    assert_eq!((line.open, line.closed), (255, 0));
}

#[test]
fn plus_sign_and_leading_zeros_are_read() {
    let line = ReportLine::from_str("2024-01-01T00:00:00 +5 007").unwrap();
    assert_eq!((line.open, line.closed), (5, 7));
    let line = ReportLine::from_str("2024-01-01T00:00:00 0000000000000000000000255 +000").unwrap();
    assert_eq!((line.open, line.closed), (255, 0));
    assert_eq!(
        ReportLine::from_str("2024-01-01T00:00:00 0000000000000000000000256 0"),
        Err(ReportError::InvalidCount)
    );
}

#[test]
fn further_fields_are_passed_over() {
    let plain = ReportLine::from_str("2024-01-01T00:00:00 5 1").unwrap();
    let more = ReportLine::from_str("2024-01-01T00:00:00 5 1 9 nine 300").unwrap();
    assert_eq!(plain, more);
}

#[test]
fn blanks_around_fields_count_for_nothing() {
    let plain = ReportLine::from_str("2024-01-01T00:00:00 5 1").unwrap();
    let wide = ReportLine::from_str("  \t2024-01-01T00:00:00   5\t\t1 \r").unwrap();
    assert_eq!(plain, wide);
}

#[test]
fn fraction_of_a_second_is_kept() {
    let whole = ReportLine::from_str("2024-01-01T00:00:00 5 1").unwrap();
    let half = ReportLine::from_str("2024-01-01T00:00:00.5 5 1").unwrap();
    assert_eq!(half.date.secs, whole.date.secs);
    assert_eq!(whole.date.nanos, 0);
    assert_eq!(half.date.nanos, 500_000_000);
}

#[test]
fn dates_resolve_to_points_in_time() {
    let a = ReportLine::from_str("2024-01-01T00:00:00 5 0").unwrap();
    let b = ReportLine::from_str("2024-01-01T00:10:00 5 0").unwrap();
    let c = ReportLine::from_str("2024-01-02T00:00:00 5 0").unwrap();
    assert_eq!(b.date.secs - a.date.secs, 600);
    assert_eq!(c.date.secs - a.date.secs, 86_400);
    assert_eq!(seconds_between(&a.date, &b.date), 600);
    assert_eq!(seconds_between(&b.date, &a.date), -600);
}

#[test]
fn same_line_reads_the_same_twice() {
    let a = ReportLine::from_str("2024-03-05T12:34:56 7 8");
    let b = ReportLine::from_str("2024-03-05T12:34:56 7 8");
    assert!(a.is_ok());
    assert_eq!(a, b);
}

#[test]
fn parse_line_agrees_with_from_str() {
    for text in ["2024-01-01T00:00:00 5 0", "", "x 1 2", "2024-01-01T00:00:00 1 256", "a b"] {
        assert_eq!(parse_line(&line_chars(text)), ReportLine::from_str(text), "{}", text);
    }
}

#[test]
fn local_timestamp_of_text_that_is_no_date() {
    assert_eq!(local_timestamp(&line_chars("soon")), None);
    assert_eq!(local_timestamp(&line_chars("")), None);
    assert_eq!(local_timestamp(&line_chars("2024-02-30T00:00:00")), None);
    assert!(local_timestamp(&line_chars("2024-02-29T00:00:00")).is_some());
}

#[test]
fn local_timestamp_lies_within_a_day_of_the_reading() {
    let t = local_timestamp(&line_chars("1970-01-02T00:00:00")).unwrap();
    assert!(0 < t.secs && t.secs < 172_800);
    assert_eq!(t.nanos, 0);
    let t = local_timestamp(&line_chars("2024-01-01T00:00:00")).unwrap();
    assert!(1_704_067_200 - 86_400 < t.secs && t.secs < 1_704_067_200 + 86_400);
    assert_eq!(t.nanos, 0);
}

#[test]
fn local_timestamp_keeps_the_fraction_of_a_second() {
    let whole = local_timestamp(&line_chars("2024-01-01T12:00:00")).unwrap();
    let part = local_timestamp(&line_chars("2024-01-01T12:00:00.25")).unwrap();
    assert_eq!(part.secs, whole.secs);
    assert_eq!(part.nanos, 250_000_000);
    let nano = local_timestamp(&line_chars("2024-01-01T12:00:00.000000001")).unwrap();
    assert_eq!(nano.nanos, 1);
}

#[test]
fn local_timestamp_moves_with_the_reading() {
    let a = local_timestamp(&line_chars("2024-01-01T12:00:00")).unwrap();
    let b = local_timestamp(&line_chars("2024-01-01T12:00:01")).unwrap();
    let c = local_timestamp(&line_chars("2024-01-04T12:00:00")).unwrap();
    assert_eq!(b.secs - a.secs, 1);
    assert!(c.secs - a.secs > 86_400);
}

#[test]
fn reading_taken_in_a_leap_second_is_read() {
    let before = ReportLine::from_str("2024-06-30T23:59:59 5 1").unwrap();
    let leap = ReportLine::from_str("2024-06-30T23:59:60 5 1").unwrap();
    assert_eq!(leap.date.secs, before.date.secs);
    assert_eq!(leap.date.nanos, 1_000_000_000);
    assert_eq!(seconds_between(&before.date, &leap.date), 1);
}

#[test]
fn record_from_parts_takes_each_way_out() {
    let date = Some(stamp(1_700_000_000));
    assert_eq!(
        record_from_parts(date, &line_chars("12"), &line_chars("34")),
        Ok(ReportLine { date: stamp(1_700_000_000), open: 12, closed: 34 })
    );
    assert_eq!(
        record_from_parts(None, &line_chars("12"), &line_chars("34")),
        Err(ReportError::InvalidTimestamp)
    );
    assert_eq!(
        record_from_parts(None, &line_chars("x"), &line_chars("y")),
        Err(ReportError::InvalidTimestamp)
    );
    assert_eq!(
        record_from_parts(date, &line_chars("x"), &line_chars("34")),
        Err(ReportError::InvalidCount)
    );
    assert_eq!(
        record_from_parts(date, &line_chars("12"), &line_chars("")),
        Err(ReportError::InvalidCount)
    );
}

#[test]
fn written_counts_read_back() {
    let date = line_chars("2024-01-01T00:00:00");
    for open in 0..=255u8 {
        for closed in [0u8, 1, 9, 10, 99, 100, 199, 200, 254, 255] {
            let text = render_line(&date, open, closed);
            let line = parse_line(&text).unwrap();
            assert_eq!((line.open, line.closed), (open, closed));
            let swapped = parse_line(&render_line(&date, closed, open)).unwrap();
            assert_eq!((swapped.open, swapped.closed), (closed, open));
        }
    }
}

#[test]
fn render_line_writes_three_fields() {
    let text: String = render_line(&line_chars("2024-01-01T00:00:00"), 5, 0).into_iter().collect();
    assert_eq!(text, "2024-01-01T00:00:00 5 0");
    let text: String = render_line(&line_chars("d"), 255, 100).into_iter().collect();
    assert_eq!(text, "d 255 100");
    let text: String = render_line(&line_chars(""), 10, 9).into_iter().collect();
    assert_eq!(text, " 10 9");
}

#[test]
fn every_error_has_its_message() {
    assert_eq!(ReportError::IoError.message(), "the report file could not be read");
    assert_eq!(ReportError::MalformedLine.message(), "a line has fewer than three fields");
    assert_eq!(
        ReportError::InvalidTimestamp.message(),
        "a date and time cannot be read or has no single place in the local zone"
    );
    assert_eq!(ReportError::InvalidCount.message(), "a count is not a number from 0 to 255");
    assert_eq!(ReportError::EmptyReport.message(), "the report has no lines");
}

#[test]
fn blank_characters() {
    for c in [' ', '\t', '\n', '\x0b', '\x0c', '\r'] {
        assert!(is_blank_char(c));
    }
    for c in ['a', '0', '-', '\0', '\u{a0}', '\u{2003}', '_'] {
        assert!(!is_blank_char(c));
    }
}

#[test]
fn chars_of_keeps_every_character() {
    assert_eq!(chars_of(""), Vec::<char>::new());
    assert_eq!(chars_of("a b"), vec!['a', ' ', 'b']);
    assert_eq!(chars_of("é\n☃"), vec!['é', '\n', '☃']);
}

#[test]
fn next_field_finds_each_field_in_turn() {
    let s = line_chars("  ab  c d ");
    assert_eq!(next_field(&s, 0), Some((2, 4)));
    assert_eq!(next_field(&s, 2), Some((2, 4)));
    assert_eq!(next_field(&s, 3), Some((3, 4)));
    assert_eq!(next_field(&s, 4), Some((6, 7)));
    assert_eq!(next_field(&s, 7), Some((8, 9)));
    assert_eq!(next_field(&s, 9), None);
    assert_eq!(next_field(&s, 10), None);
    assert_eq!(next_field(&line_chars(""), 0), None);
    assert_eq!(next_field(&line_chars("abc"), 0), Some((0, 3)));
}

#[test]
fn line_end_stops_at_the_line_feed() {
    let s = line_chars("ab\n\ncd");
    assert_eq!(line_end(&s, 0), 2);
    assert_eq!(line_end(&s, 2), 2);
    assert_eq!(line_end(&s, 3), 3);
    assert_eq!(line_end(&s, 4), 6);
    assert_eq!(line_end(&s, 6), 6);
    assert_eq!(line_end(&line_chars(""), 0), 0);
}
