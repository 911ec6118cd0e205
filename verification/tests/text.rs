use voice2text::text::{utf8_head, utf8_tail};
use voice2text::text::{
    contains, lines, parse_u64, parse_usize, sort_texts, starts_with, trim, trim_start_matches,
};
use voice2text::transcribe::{
    batch_result, file_error, file_outcome, lost_worker, progress_status, worker_count,
};

#[test]
fn text_basics() {
    assert_eq!(trim("\u{3000} a b \n"), "a b");
    assert_eq!(lines("a\r\nb\n\nc"), vec!["a", "b", "", "c"]);
    assert_eq!(lines("x\n"), vec!["x"]);
    assert_eq!(lines("tail\r"), vec!["tail\r"]);
    assert!(starts_with("Version: 1", "Version:"));
    assert!(contains("hello apple", "apple"));
    assert!(!contains("app", "apple"));
    assert_eq!(trim_start_matches("abab c", "ab"), " c");
    assert_eq!(sort_texts(vec!["b".to_string(), "B".to_string(), "a".to_string(), "中".to_string()]), vec!["B", "a", "b", "中"]);
}

#[test]
fn numbers() {
    assert_eq!(parse_u64("+12"), Some(12));
    assert_eq!(parse_u64("18446744073709551615"), Some(u64::MAX));
    assert_eq!(parse_u64("18446744073709551616"), None);
    assert_eq!(parse_u64("1a"), None);
    assert_eq!(parse_u64(""), None);
    assert_eq!(parse_u64("+"), None);
    assert_eq!(parse_u64("-1"), None);
    assert_eq!(parse_usize("007"), Some(7));
}

#[test]
fn batch_bookkeeping() {
    assert_eq!(worker_count(0), 1);
    assert_eq!(worker_count(3), 3);
    let ok = file_outcome("/a.m4a", Ok(("/out/voice2text".to_string(), 12)));
    assert!(ok.ok && ok.segments_count == 12 && ok.error.is_none());
    let bad = file_outcome("/b.m4a", Err("boom".to_string()));
    assert!(!bad.ok && bad.error == Some("boom".to_string()) && bad.output_dir.is_none());
    let e = file_error("/c.m4a", "x".to_string());
    assert_eq!(e.path, "/c.m4a");
    assert_eq!(lost_worker("panic".to_string()).path, "");
    assert_eq!(progress_status(true), "done");
    assert_eq!(progress_status(false), "error");
    let r = batch_result(vec![bad, ok]);
    assert_eq!(r.output_dir, None);
    let r2 = batch_result(vec![file_outcome("/a", Ok(("/d".to_string(), 1)))]);
    assert_eq!(r2.output_dir, Some("/d".to_string()));
    assert_eq!(batch_result(vec![]).output_dir, None);
}

#[test]
fn utf8_cuts_keep_whole_characters() {
    assert_eq!(utf8_head("abc", 2), "ab");
    assert_eq!(utf8_head("中文字", 7), "中文");
    assert_eq!(utf8_head("中文字", 9), "中文字");
    assert_eq!(utf8_head("a中", 2), "a");
    assert_eq!(utf8_tail("中文字", 7), "文字");
    assert_eq!(utf8_tail("xyz", 0), "");
    assert_eq!(utf8_tail("ab🎉", 5), "b🎉");
    let long = "错误".repeat(200);
    assert!(utf8_head(&long, 300).len() <= 300);
    assert_eq!(utf8_head(&long, 300).len(), 300);
    assert_eq!(utf8_tail(&long, 500).len(), 498);
}
