use website_status_checker::options::{default_worker_count, parse_opts, parse_u64};

fn args(list: &[&str]) -> Vec<String> {
    list.iter().map(|s| s.to_string()).collect()
}

#[test]
fn parse_u64_accepts_plain_and_signed_digits() {
    assert_eq!(parse_u64("0"), Some(0));
    assert_eq!(parse_u64("42"), Some(42));
    assert_eq!(parse_u64("+42"), Some(42));
    assert_eq!(parse_u64("18446744073709551615"), Some(u64::MAX));
}

#[test]
fn parse_u64_rejects_bad_input() {
    assert_eq!(parse_u64(""), None);
    assert_eq!(parse_u64("+"), None);
    assert_eq!(parse_u64("abc"), None);
    assert_eq!(parse_u64("4 2"), None);
    assert_eq!(parse_u64("-1"), None);
    assert_eq!(parse_u64("18446744073709551616"), None);
}

#[test]
fn flags_and_targets_parse() {
    let a = args(&["--workers", "8", "http://x", "--timeout", "10", "--retries", "2"]);
    let opts = parse_opts(&a, 4).expect("well-formed arguments");
    assert_eq!(opts.workers, 8);
    assert_eq!(opts.timeout_secs, 10);
    assert_eq!(opts.retries, 2);
    assert!(opts.file.is_none());
    assert_eq!(opts.urls, vec!["http://x".to_string()]);
    assert!(!opts.wants_usage());
}

#[test]
fn defaults_hold_without_flags() {
    let a = args(&["http://x", "http://y"]);
    let opts = parse_opts(&a, 4).expect("well-formed arguments");
    assert_eq!(opts.workers, 4);
    assert_eq!(opts.timeout_secs, 5);
    assert_eq!(opts.retries, 0);
    assert_eq!(opts.urls.len(), 2);
}

#[test]
fn bad_number_keeps_the_default() {
    let a = args(&["--workers", "abc", "http://x"]);
    let opts = parse_opts(&a, 4).expect("well-formed arguments");
    assert_eq!(opts.workers, 4);
}

#[test]
fn file_flag_takes_the_next_argument() {
    let a = args(&["--file", "list.txt"]);
    let opts = parse_opts(&a, 4).expect("well-formed arguments");
    assert_eq!(opts.file, Some("list.txt".to_string()));
    assert!(opts.urls.is_empty());
    assert!(!opts.wants_usage());
}

#[test]
fn numeric_flag_without_value_fails() {
    assert!(parse_opts(&args(&["http://x", "--workers"]), 4).is_none());
    assert!(parse_opts(&args(&["--timeout"]), 4).is_none());
    assert!(parse_opts(&args(&["--retries"]), 4).is_none());
}

#[test]
fn trailing_file_flag_clears_the_file() {
    let opts = parse_opts(&args(&["http://x", "--file"]), 4).expect("parses without a panic");
    assert!(opts.file.is_none());
    assert_eq!(opts.urls, vec!["http://x".to_string()]);
    // A later trailing --file overrides an earlier value, as assigning the
    // missing next argument does.
    let opts = parse_opts(&args(&["--file", "list.txt", "--file"]), 4).expect("parses");
    assert!(opts.file.is_none());
    assert!(opts.wants_usage());
}

#[test]
fn no_work_at_all_wants_usage() {
    let opts = parse_opts(&args(&[]), 4).expect("well-formed arguments");
    assert!(opts.wants_usage());
}

#[test]
fn worker_count_falls_back_to_four() {
    assert_eq!(default_worker_count(Some(12)), 12);
    assert_eq!(default_worker_count(None), 4);
}
