use website_status_checker::loader::{filter_targets, trim};

#[test]
fn trim_removes_edges_only() {
    assert_eq!(trim("  http://a  "), "http://a");
    assert_eq!(trim("a b"), "a b");
    assert_eq!(trim("\t x \r"), "x");
    assert_eq!(trim("   "), "");
    assert_eq!(trim(""), "");
}

#[test]
fn blank_and_comment_lines_are_dropped() {
    let data = "# heading\n\n  http://x  \r\nhttp://y\n   # indented comment\n";
    let got = filter_targets(data, &Vec::new());
    assert_eq!(got, vec!["http://x".to_string(), "http://y".to_string()]);
}

#[test]
fn final_line_without_newline_is_kept() {
    let got = filter_targets("http://x\nhttp://y", &Vec::new());
    assert_eq!(got, vec!["http://x".to_string(), "http://y".to_string()]);
}

#[test]
fn direct_targets_follow_the_file_targets() {
    let extra = vec!["http://cli".to_string()];
    let got = filter_targets("http://file\n", &extra);
    assert_eq!(got, vec!["http://file".to_string(), "http://cli".to_string()]);
}

#[test]
fn empty_input_gives_no_targets() {
    assert!(filter_targets("", &Vec::new()).is_empty());
    let extra = vec!["http://only".to_string()];
    assert_eq!(filter_targets("", &extra), extra);
}
