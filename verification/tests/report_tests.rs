use website_status_checker::model::Outcome;
use website_status_checker::report::{render_line, render_report, u64_dec};

fn outcome(target: &str, status: Result<u16, &str>, elapsed_ms: u64, observed_at: u64) -> Outcome {
    Outcome {
        target: target.to_string(),
        status: status.map_err(|e| e.to_string()),
        elapsed_ms,
        observed_at,
    }
}

#[test]
fn decimal_rendering() {
    assert_eq!(u64_dec(0), "0");
    assert_eq!(u64_dec(7), "7");
    assert_eq!(u64_dec(10), "10");
    assert_eq!(u64_dec(200), "200");
    assert_eq!(u64_dec(18446744073709551615), "18446744073709551615");
}

#[test]
fn report_text_is_exact() {
    let outcomes = vec![
        outcome("http://a", Ok(200), 5, 1_700_000_000),
        outcome("http://b", Err("timeout"), 10, 1_700_000_001),
    ];
    let text = render_report(&outcomes);
    let expected = "[\n  { \"url\": \"http://a\", \"status\": 200, \"time_ms\": 5, \"timestamp\": 1700000000 },\n  { \"url\": \"http://b\", \"status\": \"timeout\", \"time_ms\": 10, \"timestamp\": 1700000001 }\n]\n";
    assert_eq!(text, expected);
}

#[test]
fn report_round_trips_through_a_generic_parser() {
    // A success's status parses back as a number, a failure's as a string.
    let outcomes = vec![
        outcome("http://a", Ok(200), 5, 1_700_000_000),
        outcome("http://b", Err("timeout"), 10, 1_700_000_001),
    ];
    let text = render_report(&outcomes);
    let value: serde_json::Value = serde_json::from_str(&text).expect("report must parse");
    let records = value.as_array().expect("report is a list");
    assert_eq!(records.len(), 2);
    assert_eq!(records[0]["url"].as_str(), Some("http://a"));
    assert_eq!(records[0]["status"].as_i64(), Some(200));
    assert_eq!(records[0]["time_ms"].as_i64(), Some(5));
    assert_eq!(records[0]["timestamp"].as_i64(), Some(1_700_000_000));
    assert_eq!(records[1]["url"].as_str(), Some("http://b"));
    assert_eq!(records[1]["status"].as_str(), Some("timeout"));
    assert_eq!(records[1]["time_ms"].as_i64(), Some(10));
    assert_eq!(records[1]["timestamp"].as_i64(), Some(1_700_000_001));
}

#[test]
fn special_characters_round_trip() {
    // Quotes, backslashes and control characters in a target or a failure
    // reason are escaped, so the report parses back to the original text.
    let outcomes = vec![
        outcome("http://a/\"q\"\\z", Ok(200), 1, 2),
        outcome("http://b", Err("bad \"quote\" \\ and\nnewline\ttab"), 3, 4),
    ];
    let text = render_report(&outcomes);
    let value: serde_json::Value = serde_json::from_str(&text).expect("escaped report must parse");
    let records = value.as_array().expect("report is a list");
    assert_eq!(records[0]["url"].as_str(), Some("http://a/\"q\"\\z"));
    assert_eq!(records[0]["status"].as_i64(), Some(200));
    assert_eq!(records[1]["status"].as_str(), Some("bad \"quote\" \\ and\nnewline\ttab"));
}

#[test]
fn escaped_text_is_exact() {
    let outcomes = vec![outcome("u", Err("a\"b\\c\nd"), 0, 0)];
    let text = render_report(&outcomes);
    let expected = "[\n  { \"url\": \"u\", \"status\": \"a\\\"b\\\\c\\u000ad\", \"time_ms\": 0, \"timestamp\": 0 }\n]\n";
    assert_eq!(text, expected);
}

#[test]
fn empty_report() {
    let text = render_report(&Vec::new());
    assert_eq!(text, "[\n\n]\n");
    let value: serde_json::Value = serde_json::from_str(&text).expect("report must parse");
    assert_eq!(value.as_array().map(|a| a.len()), Some(0));
}

#[test]
fn console_lines() {
    let ok = outcome("http://a", Ok(404), 17, 1_700_000_000);
    assert_eq!(render_line(&ok), "[404] http://a - 17ms");
    let err = outcome("http://b", Err("dns failure"), 3, 1_700_000_000);
    assert_eq!(render_line(&err), "[ERR] http://b - dns failure");
}
