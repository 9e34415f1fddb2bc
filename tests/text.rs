use cleam::clock::{format_date, format_seconds, parse_datetime_to_ms, to_iso_form};
use cleam::events::{download_file_name, last_segment_of};
use cleam::export::{export_jsonl, parse_jsonl};
use cleam::model::LogEvent;
use cleam::levels::{level_keyword, line_severity, Severity};
use cleam::text::{
    contains, contains_folded, find, json_line_parts, one_line_summary, split_key_value, trim_start,
    truncate_chars,
};

#[test]
fn truncate_keeps_short_text() {
    assert_eq!(truncate_chars("hello", 5), "hello");
    assert_eq!(truncate_chars("", 0), "");
}

#[test]
fn truncate_cuts_by_characters() {
    assert_eq!(truncate_chars("hello world", 5), "hello…");
    assert_eq!(truncate_chars("日本語テキスト", 3), "日本語…");
    assert_eq!(truncate_chars("ab", 0), "…");
}

#[test]
fn split_key_value_reads_key_and_value() {
    assert_eq!(split_key_value("\"level\": \"info\""), Some(("level", "\"info\"")));
    assert_eq!(split_key_value("\"n\":   42"), Some(("n", "42")));
    assert_eq!(split_key_value("\"a\\\"b\": true"), Some(("a\\\"b", "true")));
}

#[test]
fn split_key_value_refuses_other_lines() {
    assert_eq!(split_key_value("42"), None);
    assert_eq!(split_key_value("\"just a string\""), None);
    assert_eq!(split_key_value("\"unterminated"), None);
    assert_eq!(split_key_value(""), None);
}

#[test]
fn trim_start_drops_unicode_space() {
    assert_eq!(trim_start(" \t\u{3000}x y"), "x y");
    assert_eq!(trim_start("   "), "");
}

#[test]
fn contains_finds_runs() {
    assert!(contains("prod-a", "prod"));
    assert!(contains("abc", ""));
    assert!(!contains("staging", "prod"));
    assert!(!contains("pr", "prod"));
}

#[test]
fn contains_folded_ignores_case_of_text() {
    assert!(contains_folded("PROD-Api", "prod-a"));
    assert!(!contains_folded("Staging", "prod"));
}

#[test]
fn iso_form_turns_first_space() {
    assert_eq!(to_iso_form("2024-01-01 12:00:00"), "2024-01-01T12:00:00");
    assert_eq!(to_iso_form("a b c"), "aTb c");
    assert_eq!(to_iso_form("nospace"), "nospace");
}

#[test]
fn parse_datetime_reads_utc() {
    assert_eq!(parse_datetime_to_ms("2024-01-01 12:00:00"), Some(1_704_110_400_000));
    assert_eq!(parse_datetime_to_ms("1970-01-01 00:00:00"), Some(0));
    assert_eq!(parse_datetime_to_ms("not-a-date"), None);
    assert_eq!(parse_datetime_to_ms("2024-13-01 00:00:00"), None);
}

#[test]
fn format_seconds_writes_utc() {
    assert_eq!(format_seconds(0), "1970-01-01 00:00:00");
    assert_eq!(format_seconds(1_704_110_400_999), "2024-01-01 12:00:00");
    assert_eq!(format_date(1_704_110_400_000), "2024-01-01");
}

#[test]
fn last_segment_of_group_names() {
    assert_eq!(last_segment_of("/aws/lambda/my-func"), "my-func");
    assert_eq!(last_segment_of("a//b/"), "b");
    assert_eq!(last_segment_of("plain"), "plain");
    assert_eq!(last_segment_of(""), "unknown");
    assert_eq!(last_segment_of("///"), "unknown");
}

#[test]
fn download_name_joins_segment_and_date() {
    assert_eq!(
        download_file_name("/aws/lambda/my-func", "2024-05-06"),
        "my-func-2024-05-06.jsonl"
    );
}

fn event(ts: i64, msg: &str) -> LogEvent {
    LogEvent { timestamp: ts, message: msg.to_string() }
}

#[test]
fn export_of_no_events_is_empty() {
    assert_eq!(export_jsonl(&vec![]), "");
}

#[test]
fn export_writes_one_object_per_line() {
    let out = export_jsonl(&vec![event(5, "hi"), event(-12, "a\"b")]);
    assert_eq!(
        out,
        "{\"timestamp\":5,\"message\":\"hi\"}\n{\"timestamp\":-12,\"message\":\"a\\\"b\"}\n"
    );
}

#[test]
fn export_escapes_control_characters() {
    let out = export_jsonl(&vec![event(0, "x\ny\t\u{1}\\")]);
    assert_eq!(out, "{\"timestamp\":0,\"message\":\"x\\ny\\t\\u0001\\\\\"}\n");
}

#[test]
fn export_round_trip_through_json() {
    let events = vec![
        event(1_700_000_000_000, "plain"),
        event(i64::MIN, "line one\nline two"),
        event(i64::MAX, "quote \" backslash \\ tab \t bell \u{7} é 日本"),
        event(0, ""),
    ];
    let out = export_jsonl(&events);
    let lines: Vec<&str> = out.lines().collect();
    assert_eq!(lines.len(), events.len());
    for (line, e) in lines.iter().zip(events.iter()) {
        let v: serde_json::Value = serde_json::from_str(line).unwrap();
        assert_eq!(v.get("timestamp").and_then(|t| t.as_i64()), Some(e.timestamp));
        assert_eq!(v.get("message").and_then(|m| m.as_str()), Some(e.message.as_str()));
    }
}

#[test]
fn level_keyword_splits_at_first_listed_keyword() {
    assert_eq!(
        level_keyword("2024 error: disk WARN"),
        Some(("2024 ", "error", ": disk WARN", Severity::Error))
    );
    assert_eq!(level_keyword("a Warning b"), Some(("a ", "Warning", " b", Severity::Warning)));
    assert_eq!(level_keyword("critical then error"), Some(("", "critical", " then error", Severity::Error)));
    assert_eq!(level_keyword("info"), Some(("", "info", "", Severity::Info)));
    assert_eq!(level_keyword("nothing here"), None);
}

#[test]
fn line_severity_follows_level_words() {
    assert_eq!(line_severity("Fatal crash"), Some(Severity::Error));
    assert_eq!(line_severity("a warning"), Some(Severity::Warning));
    assert_eq!(line_severity("debug x"), Some(Severity::Debug));
    assert_eq!(line_severity("trace"), Some(Severity::Trace));
    assert_eq!(line_severity("info only"), None);
}

#[test]
fn find_gives_first_occurrence() {
    assert_eq!(find("abcabc", "bc"), Some(1));
    assert_eq!(find("日本語の本", "本"), Some(1));
    assert_eq!(find("abc", "x"), None);
    assert_eq!(find("abc", ""), Some(0));
}

#[test]
fn export_reads_back_through_own_reader() {
    let events = vec![
        event(-1, "a\nb \"q\" \\ \u{1f} \u{8} \u{c} \r é"),
        event(i64::MIN, ""),
        event(i64::MAX, "x"),
    ];
    let back = parse_jsonl(&export_jsonl(&events)).unwrap();
    assert_eq!(back.len(), events.len());
    for (a, b) in back.iter().zip(events.iter()) {
        assert_eq!(a.timestamp, b.timestamp);
        assert_eq!(a.message, b.message);
    }
}

#[test]
fn reader_refuses_malformed_lines() {
    assert_eq!(parse_jsonl("").map(|v| v.len()), Some(0));
    assert!(parse_jsonl("{\"timestamp\":1,\"message\":\"x\"}").is_none());
    assert!(parse_jsonl("{\"timestamp\":1,\"message\":\"x\"}\nnot json\n").is_none());
    assert!(parse_jsonl("{\"timestamp\":99999999999999999999,\"message\":\"x\"}\n").is_none());
    assert!(parse_jsonl("{\"timestamp\":1,\"message\":\"x\\q\"}\n").is_none());
    let one = parse_jsonl("{\"timestamp\":-7,\"message\":\"\\u0041\\/\"}\n");
    assert!(one.is_none());
    let ok = parse_jsonl("{\"timestamp\":-7,\"message\":\"\\u0007\\/\"}\n").unwrap();
    assert_eq!(ok[0].timestamp, -7);
    assert_eq!(ok[0].message, "\u{7}/");
}

#[test]
fn json_line_parts_cut_indent_and_comma() {
    assert_eq!(json_line_parts("    \"a\": 1,"), ("    ", "\"a\": 1", true));
    assert_eq!(json_line_parts("  }"), ("  ", "}", false));
    assert_eq!(json_line_parts(""), ("", "", false));
    assert_eq!(json_line_parts(","), ("", "", true));
}

#[test]
fn one_line_summary_joins_trimmed_lines() {
    assert_eq!(one_line_summary("  a\tb \n\n  c\r\n"), "a b c");
    assert_eq!(one_line_summary(""), "");
    assert_eq!(one_line_summary("\n \t\n"), "");
    assert_eq!(one_line_summary("single"), "single");
    assert_eq!(one_line_summary("x\u{3000}\ny"), "x y");
}
