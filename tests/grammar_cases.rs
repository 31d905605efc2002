use dtinfer::parser::{day, month, parse_date, parse_time, separator, time_part, timezone, year};
use dtinfer::{infer_best, parse_sample_date, DateTimeError, DateTimePart};

fn chars(text: &str) -> Vec<char> {
    text.chars().collect()
}

#[test]
fn other_four_digit_years() {
    assert_eq!(infer_best("0000"), Some("%Y".to_owned()));
    assert_eq!(infer_best("1999"), Some("%Y".to_owned()));
}

#[test]
fn separator_echoed_verbatim() {
    assert_eq!(infer_best("2020/10"), Some("%Y/%m".to_owned()));
    assert_eq!(infer_best("1987.05.23"), Some("%Y.%m.%d".to_owned()));
}

#[test]
fn multi_character_and_non_ascii_separators() {
    assert_eq!(infer_best("2020 -- 10"), Some("%Y -- %m".to_owned()));
    assert_eq!(
        infer_best("2020年10月09日"),
        Some("%Y年%m月%d日".to_owned())
    );
}

#[test]
fn single_digit_month_and_day() {
    assert_eq!(infer_best("2020-1-9"), Some("%Y-%m-%d".to_owned()));
}

#[test]
fn too_short_or_empty_is_absent() {
    assert_eq!(infer_best(""), None);
    assert_eq!(infer_best("202"), None);
    assert_eq!(infer_best("20a0-10-09"), None);
}

#[test]
fn month_thirteen_is_not_a_month() {
    // "13" is no month, so the same digits are read as a day.
    assert_eq!(infer_best("2020-13"), Some("%Y-%d".to_owned()));
}

#[test]
fn day_thirty_two_is_not_a_day() {
    assert_eq!(infer_best("2020-10-32"), Some("%Y-%m-".to_owned()));
}

#[test]
fn hour_twenty_five_drops_the_time() {
    assert_eq!(infer_best("2020-10-09 25:00"), Some("%Y-%m-%d ".to_owned()));
}

#[test]
fn hour_twenty_four_is_accepted() {
    assert_eq!(infer_best("2020-10-09 24:00"), Some("%Y-%m-%d %H:%M".to_owned()));
}

#[test]
fn minutes_and_seconds_are_not_range_checked() {
    assert_eq!(
        infer_best("2020-10-09 12:99:99"),
        Some("%Y-%m-%d %H:%M:%S".to_owned())
    );
}

#[test]
fn rendering_twice_gives_the_same_text() {
    let (_, pattern) = parse_sample_date("2020-10-09 15:24:50+00:00").unwrap();
    let first = pattern.as_str();
    let second = pattern.as_str();
    assert_eq!(first, second);
    assert_eq!(first, "%Y-%m-%d %H:%M:%S%z");
}

#[test]
fn sample_leftover_text() {
    let (rest, pattern) = parse_sample_date("2020-10-09 15:24:50 UTC").unwrap();
    assert_eq!(rest, " UTC");
    assert_eq!(pattern.as_str(), "%Y-%m-%d %H:%M:%S");
    let (rest, pattern) = parse_sample_date("2020-10-09 25:00").unwrap();
    assert_eq!(rest, " 25:00");
    assert_eq!(pattern.as_str(), "%Y-%m-%d ");
}

#[test]
fn sample_without_year_fails() {
    assert_eq!(parse_sample_date("x2020").err(), Some(DateTimeError::NoMatch(0)));
}

#[test]
fn year_recognizer() {
    let s = chars("a2020b");
    assert_eq!(year(&s, 1), Ok(5));
    assert_eq!(year(&s, 0), Err(DateTimeError::NoMatch(0)));
    assert_eq!(year(&s, 2), Err(DateTimeError::NoMatch(2)));
}

#[test]
fn month_recognizer_errors() {
    let s = chars("-13-7x");
    assert_eq!(month(&s, 1), Err(DateTimeError::NotMonth));
    assert_eq!(month(&s, 0), Err(DateTimeError::NoMatch(0)));
    assert_eq!(month(&s, 4), Ok(5));
    assert_eq!(month(&s, 2), Ok(3));
}

#[test]
fn day_recognizer_errors() {
    let s = chars("32/31");
    assert_eq!(day(&s, 0), Err(DateTimeError::NotDay));
    assert_eq!(day(&s, 2), Err(DateTimeError::NoMatch(2)));
    assert_eq!(day(&s, 3), Ok(5));
}

#[test]
fn time_part_recognizer() {
    let s = chars("07:5");
    assert_eq!(time_part(&s, 0), Ok((2, 7)));
    assert_eq!(time_part(&s, 3), Err(DateTimeError::NoMatch(3)));
}

#[test]
fn timezone_recognizer() {
    let s = chars("+05:30-01:00");
    assert_eq!(timezone(&s, 0), Ok(6));
    assert_eq!(timezone(&s, 6), Err(DateTimeError::NoMatch(6)));
}

#[test]
fn separator_recognizer() {
    let text = "12 - 34";
    let s = chars(text);
    match separator(text, &s, 2) {
        Ok((end, DateTimePart::Separator(t))) => {
            assert_eq!(end, 5);
            assert_eq!(t, " - ");
        }
        _ => panic!("expected a separator"),
    }
    assert!(matches!(separator(text, &s, 0), Err(DateTimeError::NotSeparator)));
}

#[test]
fn time_rule_errors() {
    let text = "25:00 x";
    let s = chars(text);
    assert!(matches!(parse_time(text, &s, 0), Err(DateTimeError::NotTimePart)));
    assert!(matches!(parse_time(text, &s, 5), Err(DateTimeError::NoMatch(5))));
    let (end, pattern) = parse_time(text, &s, 3).unwrap();
    assert_eq!(end, 7);
    assert_eq!(pattern.as_str(), "%H x");
}

#[test]
fn date_rule_stops_after_the_date() {
    let text = "2020-10-09T15";
    let s = chars(text);
    let (end, pattern) = parse_date(text, &s, 0).unwrap();
    assert_eq!(end, 10);
    assert_eq!(pattern.as_str(), "%Y-%m-%d");
    assert!(matches!(parse_date(text, &s, 1), Err(DateTimeError::NoMatch(1))));
}

#[test]
fn part_texts() {
    assert_eq!(DateTimePart::Year.as_str(), "%Y");
    assert_eq!(DateTimePart::Month.as_str(), "%m");
    assert_eq!(DateTimePart::Day.as_str(), "%d");
    assert_eq!(DateTimePart::Hour.as_str(), "%H");
    assert_eq!(DateTimePart::Minute.as_str(), "%M");
    assert_eq!(DateTimePart::Second.as_str(), "%S");
    assert_eq!(DateTimePart::Timezone.as_str(), "%z");
    assert_eq!(DateTimePart::Separator("T".to_owned()).as_str(), "T");
}
