use clef_reader::aggregate::collect_events;
use clef_reader::lines::count_content_lines;
use clef_reader::lines::select_page;
use clef_reader::model::LogError;
use clef_reader::pager::load_all;
use clef_reader::pager::load_page;
use clef_reader::pager::open_file;
use clef_reader::scan::summarize;
use clef_reader::text::is_blank_line;
use clef_reader::text::str_less;

fn numbered_lines(n: usize) -> Vec<String> {
    let mut v = Vec::new();
    for i in 0..n {
        v.push(format!(
            r#"{{"@t":"2024-01-15T10:30:{:02}.000Z","@mt":"Event {{N}}","N":{},"@l":"Information"}}"#,
            i % 60,
            i
        ));
    }
    v
}

#[test]
fn pages_of_twelve_hundred_lines() {
    let lines = numbered_lines(1200);
    assert_eq!(load_page(&lines, 0, 500).len(), 500);
    assert_eq!(load_page(&lines, 1, 500).len(), 500);
    assert_eq!(load_page(&lines, 2, 500).len(), 200);
    assert_eq!(load_page(&lines, 3, 500).len(), 0);
}

#[test]
fn page_boundaries_ignore_blank_lines() {
    let mut lines = Vec::new();
    for (i, l) in numbered_lines(5).into_iter().enumerate() {
        lines.push(l);
        if i % 2 == 0 {
            lines.push("   ".to_string());
            lines.push(String::new());
        }
    }
    let p0 = load_page(&lines, 0, 2);
    let p1 = load_page(&lines, 1, 2);
    let p2 = load_page(&lines, 2, 2);
    assert_eq!(p0.len(), 2);
    assert_eq!(p1.len(), 2);
    assert_eq!(p2.len(), 1);
    assert_eq!(p1[0].properties.as_ref().unwrap()["N"], serde_json::Value::from(2));
}

#[test]
fn total_count_ignores_sample_size() {
    let mut lines = numbered_lines(7);
    lines.insert(3, "\t ".to_string());
    lines.push("not json at all".to_string());
    for sample in [0usize, 1, 3, 10000] {
        let info = summarize("f.clef".to_string(), &lines, sample);
        assert_eq!(info.total_count, 8);
    }
}

#[test]
fn page_past_the_end_is_empty() {
    let lines = numbered_lines(10);
    assert_eq!(load_page(&lines, 2, 5).len(), 0);
    assert_eq!(load_page(&lines, 3, 5).len(), 0);
    assert_eq!(load_page(&lines, usize::MAX, 5).len(), 0);
    assert_eq!(load_page(&lines, usize::MAX, usize::MAX).len(), 0);
    assert_eq!(load_page(&Vec::new(), 0, 500).len(), 0);
}

#[test]
fn pages_concatenate_to_whole_file() {
    let mut lines = numbered_lines(23);
    lines.insert(5, "{broken".to_string());
    lines.insert(9, "".to_string());
    lines.insert(17, r#"{"@t":5}"#.to_string());
    let all = load_all(&lines);
    assert_eq!(all.len(), 23);
    let mut joined = Vec::new();
    let mut page = 0;
    loop {
        let p = load_page(&lines, page, 4);
        if p.is_empty() && page * 4 >= count_content_lines(&lines) {
            break;
        }
        joined.extend(p);
        page += 1;
    }
    assert_eq!(joined, all);
}

#[test]
fn strict_decoding_fails_at_first_bad_line() {
    let lines = vec![
        r#"{"@mt":"ok","@l":"Debug"}"#.to_string(),
        "garbage".to_string(),
        "more garbage".to_string(),
    ];
    match collect_events(&lines, false) {
        Err(LogError::DecodeFailure { line, detail }) => {
            assert_eq!(line, 1);
            assert!(!detail.is_empty());
        }
        other => panic!("unexpected {:?}", other),
    }
    let batch = collect_events(&lines, true).unwrap();
    assert_eq!(batch.entries.len(), 1);
    assert_eq!(batch.entries[0].line, lines[0]);
    assert_eq!(batch.levels, vec!["Debug".to_string()]);
}

#[test]
fn strict_decoding_of_good_lines_succeeds() {
    let lines = numbered_lines(3);
    let batch = collect_events(&lines, false).unwrap();
    assert_eq!(batch.entries.len(), 3);
    assert_eq!(batch.entries[2].event.template, "Event {N}");
}

#[test]
fn levels_are_sorted_and_distinct() {
    let lines = vec![
        r#"{"@mt":"a","@l":"Warning"}"#.to_string(),
        r#"{"@mt":"b","@l":"Error"}"#.to_string(),
        r#"{"@mt":"c"}"#.to_string(),
        r#"{"@mt":"d","@l":"Warning"}"#.to_string(),
        r#"{"@mt":"e","@l":"Debug"}"#.to_string(),
    ];
    let info = summarize("x".to_string(), &lines, 5000);
    assert_eq!(
        info.log_levels,
        vec!["Debug".to_string(), "Error".to_string(), "Warning".to_string()]
    );
    assert_eq!(info.path, "x");
}

#[test]
fn levels_come_from_the_sample_only() {
    let lines = vec![
        r#"{"@mt":"a","@l":"Warning"}"#.to_string(),
        r#"{"@mt":"b","@l":"Error"}"#.to_string(),
    ];
    let info = summarize("x".to_string(), &lines, 1);
    assert_eq!(info.log_levels, vec!["Warning".to_string()]);
    assert_eq!(info.total_count, 2);
}

#[test]
fn date_range_is_least_and_greatest_timestamp() {
    let lines = vec![
        r#"{"@t":"2024-03-01T00:00:00Z","@mt":"a"}"#.to_string(),
        r#"{"@t":"2023-12-31T23:59:59Z","@mt":"b"}"#.to_string(),
        r#"{"@mt":"no time"}"#.to_string(),
        r#"{"@t":"2024-05-06T07:08:09Z","@mt":"c"}"#.to_string(),
        r#"{"@t":"2024-01-01T00:00:00Z","@mt":"d"}"#.to_string(),
    ];
    let info = summarize("x".to_string(), &lines, 5000);
    assert_eq!(
        info.date_range,
        Some(("2023-12-31T23:59:59Z".to_string(), "2024-05-06T07:08:09Z".to_string()))
    );
}

#[test]
fn date_range_absent_without_timestamps() {
    let lines = vec![r#"{"@mt":"a"}"#.to_string()];
    let info = summarize("x".to_string(), &lines, 5000);
    assert_eq!(info.date_range, None);
    let empty = summarize("e".to_string(), &Vec::new(), 5000);
    assert_eq!(empty.total_count, 0);
    assert!(empty.log_levels.is_empty());
    assert_eq!(empty.date_range, None);
}

#[test]
fn open_file_gives_summary_and_first_page() {
    let lines = numbered_lines(12);
    let (info, first) = open_file("p".to_string(), &lines, 5000, 5);
    assert_eq!(info.total_count, 12);
    assert_eq!(info.log_levels, vec!["Information".to_string()]);
    assert_eq!(first, load_page(&lines, 0, 5));
    assert_eq!(first.len(), 5);
}

#[test]
fn select_page_skips_and_takes_content_lines() {
    let lines: Vec<String> = vec!["a", " ", "b", "c", "", "d", "e"]
        .into_iter()
        .map(|s| s.to_string())
        .collect();
    assert_eq!(select_page(&lines, 1, 2), vec!["c".to_string(), "d".to_string()]);
    assert_eq!(select_page(&lines, 2, 2), vec!["e".to_string()]);
    assert_eq!(select_page(&lines, 0, 0), Vec::<String>::new());
    assert_eq!(count_content_lines(&lines), 5);
}

#[test]
fn blank_lines_are_white_space_only() {
    assert!(is_blank_line(""));
    assert!(is_blank_line(" \t\r\n\u{a0}\u{3000}"));
    assert!(!is_blank_line(" x "));
    assert!(!is_blank_line("\u{200b}"));
}

#[test]
fn text_order_is_by_code_point() {
    assert!(str_less("Debug", "Error"));
    assert!(str_less("Err", "Error"));
    assert!(!str_less("Error", "Error"));
    assert!(!str_less("b", "a"));
    assert!(str_less("", "a"));
    assert!(str_less("Z", "a"));
}
