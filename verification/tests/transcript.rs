use chat_manager::text::split_lines;
use chat_manager::timestamp::{latest, parse_timestamp, Timestamp};
use chat_manager::transcript::{
    extract_text_from_content, extract_timestamp, extract_title, is_warmup_only, Content, Entry,
    Message, Segment,
};

fn segment_of(value: &serde_json::Value) -> Segment {
    let field = |key: &str| {
        value
            .as_object()
            .and_then(|object| object.get(key))
            .and_then(|v| v.as_str())
            .map(|s| s.to_string())
    };
    Segment { kind: field("type"), text: field("text") }
}

fn content_of(value: &serde_json::Value) -> Option<Content> {
    match value {
        serde_json::Value::Null => None,
        serde_json::Value::String(text) => Some(Content::Text(text.clone())),
        serde_json::Value::Array(items) => {
            Some(Content::Segments(items.iter().map(segment_of).collect()))
        }
        _ => Some(Content::Other),
    }
}

fn optional_string(value: Option<&serde_json::Value>) -> Result<Option<String>, ()> {
    match value {
        None | Some(serde_json::Value::Null) => Ok(None),
        Some(serde_json::Value::String(text)) => Ok(Some(text.clone())),
        Some(_) => Err(()),
    }
}

fn entry_of(line: &str) -> Option<Entry> {
    let value: serde_json::Value = serde_json::from_str(line).ok()?;
    let object = value.as_object()?;
    let message = match object.get("message") {
        None | Some(serde_json::Value::Null) => None,
        Some(serde_json::Value::Object(fields)) => {
            Some(Message { content: fields.get("content").and_then(content_of) })
        }
        Some(_) => return None,
    };
    Some(Entry {
        entry_type: optional_string(object.get("type")).ok()?,
        message,
        timestamp: optional_string(object.get("timestamp")).ok()?,
        session_id: optional_string(object.get("sessionId")).ok()?,
    })
}

fn entries_of(content: &str) -> Vec<Option<Entry>> {
    split_lines(content).iter().map(|line| entry_of(line)).collect()
}

fn user_says(text: &str) -> Option<Entry> {
    Some(Entry {
        entry_type: Some("user".to_string()),
        message: Some(Message { content: Some(Content::Text(text.to_string())) }),
        timestamp: None,
        session_id: None,
    })
}

fn stamped(text: &str) -> Option<Entry> {
    Some(Entry {
        entry_type: None,
        message: None,
        timestamp: Some(text.to_string()),
        session_id: None,
    })
}

#[test]
fn warmup_line_gives_no_title() {
    let lines = entries_of("{\"type\":\"user\",\"message\":{\"content\":\"Warmup\"}}");
    assert_eq!(lines.len(), 1);
    assert!(lines[0].is_some());
    assert!(is_warmup_only(&lines));
    assert_eq!(extract_title(&lines), None);
}

#[test]
fn short_text_is_title_unchanged() {
    let text = "Please refactor the parser module for clarity";
    assert!(text.chars().count() <= 50);
    let lines = vec![user_says(text)];
    assert_eq!(extract_title(&lines), Some(text.to_string()));
    assert!(!is_warmup_only(&lines));
}

#[test]
fn long_text_is_cut_to_fifty_characters() {
    let text = "0123456789".repeat(6);
    assert_eq!(text.chars().count(), 60);
    let lines = vec![user_says(&text)];
    let expected = format!("{}...", "0123456789".repeat(5));
    assert_eq!(extract_title(&lines), Some(expected));
}

#[test]
fn text_of_exactly_fifty_characters_is_not_cut() {
    let text = "abcde".repeat(10);
    let lines = vec![user_says(&text)];
    assert_eq!(extract_title(&lines), Some(text));
}

#[test]
fn text_of_fifty_one_characters_is_cut() {
    let text = format!("{}x", "abcde".repeat(10));
    let lines = vec![user_says(&text)];
    assert_eq!(extract_title(&lines), Some(format!("{}...", "abcde".repeat(10))));
}

#[test]
fn title_counts_characters_not_bytes() {
    let text = "é".repeat(51);
    let lines = vec![user_says(&text)];
    assert_eq!(extract_title(&lines), Some(format!("{}...", "é".repeat(50))));
}

#[test]
fn title_comes_from_first_qualifying_line() {
    let lines = vec![
        None,
        user_says("Warmup"),
        user_says("<ide_opened_file>notes.txt</ide_opened_file>"),
        user_says("   "),
        user_says("first real question"),
        user_says("second real question"),
    ];
    assert_eq!(extract_title(&lines), Some("first real question".to_string()));
    assert!(!is_warmup_only(&lines));
}

#[test]
fn records_by_others_offer_no_title() {
    let mut assistant = user_says("an answer").unwrap();
    assistant.entry_type = Some("assistant".to_string());
    let mut untyped = user_says("no type").unwrap();
    untyped.entry_type = None;
    let lines = vec![Some(assistant), Some(untyped)];
    assert_eq!(extract_title(&lines), None);
    assert!(is_warmup_only(&lines));
}

#[test]
fn empty_transcript_is_warmup_only() {
    let lines: Vec<Option<Entry>> = Vec::new();
    assert!(is_warmup_only(&lines));
    assert_eq!(extract_title(&lines), None);
    assert_eq!(extract_timestamp(&lines), None);
}

#[test]
fn title_and_warmup_agree() {
    let samples = vec![
        vec![],
        vec![None],
        vec![user_says("Warmup")],
        vec![user_says("Warmup "), user_says("hello")],
        vec![user_says("Warmup and more")],
        vec![user_says("\t")],
    ];
    for lines in samples {
        assert_eq!(extract_title(&lines).is_none(), is_warmup_only(&lines));
    }
}

#[test]
fn warmup_with_more_text_qualifies() {
    let lines = vec![user_says("Warmup and more")];
    assert_eq!(extract_title(&lines), Some("Warmup and more".to_string()));
}

#[test]
fn text_is_first_line_trimmed_with_tabs_as_spaces() {
    let content = Content::Text("  \tfix\tthe bug \r\nsecond line\n".to_string());
    assert_eq!(extract_text_from_content(&content), "fix the bug");
}

#[test]
fn text_of_content_that_starts_with_a_line_end_is_empty() {
    let content = Content::Text("\nsecond line".to_string());
    assert_eq!(extract_text_from_content(&content), "");
}

#[test]
fn text_comes_from_first_usable_segment() {
    let content = Content::Segments(vec![
        Segment { kind: None, text: None },
        Segment { kind: Some("image".to_string()), text: Some("not this".to_string()) },
        Segment { kind: Some("text".to_string()), text: None },
        Segment { kind: Some("text".to_string()), text: Some("<ide_selection>x".to_string()) },
        Segment { kind: Some("text".to_string()), text: Some(" this one ".to_string()) },
        Segment { kind: Some("text".to_string()), text: Some("not that".to_string()) },
    ]);
    assert_eq!(extract_text_from_content(&content), "this one");
}

#[test]
fn text_of_other_content_is_empty() {
    assert_eq!(extract_text_from_content(&Content::Other), "");
    assert_eq!(extract_text_from_content(&Content::Segments(Vec::new())), "");
}

#[test]
fn segments_are_read_from_json() {
    let line = "{\"type\":\"user\",\"message\":{\"content\":[{\"type\":\"text\",\"text\":\"<ide_opened_file>a</ide_opened_file>\"},{\"type\":\"text\",\"text\":\"explain this\"}]}}";
    let lines = entries_of(line);
    assert_eq!(extract_title(&lines), Some("explain this".to_string()));
}

#[test]
fn unreadable_lines_are_passed_over() {
    let content = "not json\n{\"type\":\"user\",\"message\":{\"content\":\"hello\"}}\n{broken";
    let lines = entries_of(content);
    assert_eq!(lines.len(), 3);
    assert!(lines[0].is_none());
    assert!(lines[2].is_none());
    assert_eq!(extract_title(&lines), Some("hello".to_string()));
}

#[test]
fn timestamp_is_that_of_the_last_line_that_has_one() {
    let lines = vec![
        stamped("2024-03-02T10:00:00Z"),
        stamped("2024-03-01T09:30:00.250Z"),
        stamped("not a time"),
        None,
        user_says("hello"),
    ];
    assert_eq!(
        extract_timestamp(&lines),
        Some(Timestamp { secs: 1709285400, nanos: 250_000_000 })
    );
}

#[test]
fn timestamp_is_absent_where_none_can_be_read() {
    let lines = vec![stamped("yesterday"), user_says("hello"), None];
    assert_eq!(extract_timestamp(&lines), None);
}

#[test]
fn timestamps_are_read_as_utc() {
    assert_eq!(
        parse_timestamp("2015-05-15T00:00:00Z"),
        Some(Timestamp { secs: 1431648000, nanos: 0 })
    );
    assert_eq!(
        parse_timestamp("2015-05-15T02:00:00+02:00"),
        Some(Timestamp { secs: 1431648000, nanos: 0 })
    );
    assert_eq!(
        parse_timestamp("2015-05-15 00:00:00.5Z"),
        Some(Timestamp { secs: 1431648000, nanos: 500_000_000 })
    );
    assert_eq!(parse_timestamp("2015-05-15"), None);
    assert_eq!(parse_timestamp(""), None);
}

#[test]
fn latest_keeps_the_last_reading() {
    let early = Timestamp { secs: 10, nanos: 0 };
    let late = Timestamp { secs: 20, nanos: 0 };
    assert_eq!(latest(&vec![Some(late), None, Some(early), None]), Some(early));
    assert_eq!(latest(&vec![None, None]), None);
    assert_eq!(latest(&Vec::new()), None);
}

#[test]
fn later_than_compares_seconds_then_nanoseconds() {
    let a = Timestamp { secs: 5, nanos: 1 };
    let b = Timestamp { secs: 5, nanos: 0 };
    let c = Timestamp { secs: -1, nanos: 999_999_999 };
    assert!(a.later_than(&b));
    assert!(!b.later_than(&a));
    assert!(!a.later_than(&a));
    assert!(b.later_than(&c));
    assert!(!c.later_than(&b));
}
