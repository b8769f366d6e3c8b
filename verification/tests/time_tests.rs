use timetable::{expand_time, format_hour, parse_hour};

fn keys(time: &str) -> Vec<String> {
    expand_time(time)
}

#[test]
fn range_expands_to_every_hour() {
    assert_eq!(keys("9-11"), vec!["9:00", "10:00", "11:00"]);
}

#[test]
fn single_hour_gets_minutes() {
    assert_eq!(keys("9"), vec!["9:00"]);
}

#[test]
fn time_with_colon_is_kept() {
    assert_eq!(keys("09:30"), vec!["09:30"]);
}

#[test]
fn reversed_range_is_empty() {
    assert_eq!(keys("11-9"), Vec::<String>::new());
}

#[test]
fn range_of_one_hour() {
    assert_eq!(keys("12-12"), vec!["12:00"]);
}

#[test]
fn range_over_all_hours() {
    let all = keys("0-255");
    assert_eq!(all.len(), 256);
    for (hour, key) in all.iter().enumerate() {
        assert_eq!(key, &format!("{}:00", hour));
    }
}

#[test]
fn range_keeps_no_leading_zeros() {
    assert_eq!(keys("08-010"), vec!["8:00", "9:00", "10:00"]);
}

#[test]
fn range_takes_a_plus_sign() {
    assert_eq!(keys("+9-+10"), vec!["9:00", "10:00"]);
}

#[test]
fn broken_ranges_are_skipped() {
    for time in [
        "-", "9-", "-9", "9-10-11", "9--10", "--", "a-b", "9-b", "a-9", "9:00-10:00", "9 -10",
        "9- 10", "256-300", "9-256", "-9-", "9-10-", "1.5-2",
    ] {
        assert_eq!(keys(time), Vec::<String>::new(), "{:?}", time);
    }
}

#[test]
fn text_without_hyphen_or_colon_gets_minutes() {
    assert_eq!(keys(""), vec![":00"]);
    assert_eq!(keys("noon"), vec!["noon:00"]);
    assert_eq!(keys("300"), vec!["300:00"]);
    assert_eq!(keys("09"), vec!["09:00"]);
    assert_eq!(keys("ä"), vec!["ä:00"]);
}

#[test]
fn text_with_colon_is_kept_as_it_is() {
    for time in [":", "9:00", "9:", ":30", "a:b:c", "25:99"] {
        assert_eq!(keys(time), vec![time], "{:?}", time);
    }
}

#[test]
fn hours_parse_as_the_standard_library_parses_them() {
    let mut texts: Vec<String> = Vec::new();
    for n in 0..1200u32 {
        texts.push(n.to_string());
        texts.push(format!("+{}", n));
        texts.push(format!("0{}", n));
        texts.push(format!("000000000000000000000000{}", n));
        texts.push(format!("{} ", n));
        texts.push(format!(" {}", n));
        texts.push(format!("-{}", n));
        texts.push(format!("{}a", n));
    }
    for text in [
        "", "+", "-", "++1", "+-1", "1+", "٣", "１", "1_0", "0x10", "1e2", "1.0", "²", "4294967296",
        "18446744073709551616", "99999999999999999999999999999999999999999999", "+0", "+255",
        "+256", "\u{0}", "1\u{0}",
    ] {
        texts.push(text.to_string());
    }
    for text in texts {
        assert_eq!(parse_hour(&text), text.parse::<u8>().ok(), "{:?}", text);
    }
}

#[test]
fn hours_parse_to_exact_values() {
    assert_eq!(parse_hour("0"), Some(0));
    assert_eq!(parse_hour("9"), Some(9));
    assert_eq!(parse_hour("+17"), Some(17));
    assert_eq!(parse_hour("255"), Some(255));
    assert_eq!(parse_hour("256"), None);
    assert_eq!(parse_hour(""), None);
    assert_eq!(parse_hour("+"), None);
    assert_eq!(parse_hour("9:00"), None);
}

#[test]
fn hours_format_as_the_standard_library_formats_them() {
    for hour in 0..=255u8 {
        assert_eq!(format_hour(hour), format!("{}:00", hour));
    }
}

#[test]
fn hours_format_to_exact_keys() {
    assert_eq!(format_hour(0), "0:00");
    assert_eq!(format_hour(8), "8:00");
    assert_eq!(format_hour(20), "20:00");
    assert_eq!(format_hour(100), "100:00");
    assert_eq!(format_hour(255), "255:00");
}
