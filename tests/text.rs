use speedy::record::{RecordError, Section};
use speedy::run_file::{parse_line, parse_record_lines, record_to_text};
use speedy::time_text::{format_delta, format_time, millis_to_min_sec_mil, min_sec_mil_to_millis};

#[test]
fn format_exact_values() {
    assert_eq!(format_time(125000), "2:05");
    assert_eq!(format_delta(-5000), "(-0:05)");
    assert_eq!(format_delta(65000), "(+1:05)");
}

#[test]
fn format_truncates_and_does_not_pad_minutes() {
    assert_eq!(format_time(0), "0:00");
    assert_eq!(format_time(59999), "0:59");
    assert_eq!(format_time(3600000), "60:00");
    assert_eq!(format_time(4294967295), "71582:47");
    assert_eq!(format_delta(0), "(+0:00)");
    assert_eq!(format_delta(-999), "(-0:00)");
    assert_eq!(format_delta(-61000), "(-1:01)");
}

#[test]
fn minutes_seconds_millis() {
    assert_eq!(min_sec_mil_to_millis(20, 1, 212), 1201212);
    assert_eq!(millis_to_min_sec_mil(1201212), (20, 1, 212));
    assert_eq!(millis_to_min_sec_mil(999), (0, 0, 999));
}

#[test]
fn parse_section_lines() {
    let s = parse_line("escape01: 20m01.212s").unwrap();
    assert_eq!(s.name, "escape01");
    assert_eq!(s.time, 1201212);
    let s = parse_line("a: b: 0m00.005s").unwrap();
    assert_eq!(s.name, "a: b");
    assert_eq!(s.time, 5);
    let s = parse_line(": 1m00.000s").unwrap();
    assert_eq!(s.name, "");
    assert_eq!(s.time, 60000);
}

#[test]
fn reject_bad_section_lines() {
    assert!(parse_line("").is_none());
    assert!(parse_line("a: m01.212s").is_none());
    assert!(parse_line("a: 1m1.212s").is_none());
    assert!(parse_line("a: 1m01.21s").is_none());
    assert!(parse_line("a:1m01.212s").is_none());
    assert!(parse_line("a: 1m01.212").is_none());
    assert!(parse_line("a: 1m01,212s").is_none());
    assert!(parse_line("a: 71583m00.000s").is_none());
    assert_eq!(parse_line("a: 71582m47.295s").unwrap().time, 4294967295);
}

#[test]
fn parse_record_reports_first_bad_line() {
    let lines = vec!["A: 0m10.000s".to_string(), "B 0m22.000s".to_string(), "oops".to_string()];
    assert_eq!(parse_record_lines(&lines).err(), Some(RecordError::InvalidLine(1)));
    let lines = vec!["A: 0m10.000s".to_string(), "B: 0m22.000s".to_string()];
    let r = parse_record_lines(&lines).unwrap();
    assert_eq!(r.len(), 2);
    assert_eq!(r[1].name, "B");
    assert_eq!(r[1].time, 22000);
}

#[test]
fn record_text_round_trip() {
    let rec = vec![
        Section { name: "escape01".to_string(), time: 1201212 },
        Section { name: "B".to_string(), time: 5 },
    ];
    let text = record_to_text(&rec);
    assert_eq!(text, "escape01: 20m01.212s\nB: 0m00.005s\n");
    let lines: Vec<String> = text.lines().map(|l| l.to_string()).collect();
    let back = parse_record_lines(&lines).unwrap();
    assert_eq!(back[0].name, "escape01");
    assert_eq!(back[0].time, 1201212);
    assert_eq!(back[1].time, 5);
}
