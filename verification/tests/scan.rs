use chat_manager::conversation::{get_display_title, get_row_title, count_active, Conversation};
use chat_manager::ranking::{sort_ranked, Ranked};
use chat_manager::scan::{describe, is_active_at, scan_conversations, TranscriptFile, Workspace};
use chat_manager::timestamp::Timestamp;
use chat_manager::transcript::{Content, Entry, Message};

fn at(secs: i64) -> Timestamp {
    Timestamp { secs, nanos: 0 }
}

fn now() -> Timestamp {
    at(1_700_000_000)
}

fn user_line(text: &str, stamp: Option<&str>) -> Option<Entry> {
    Some(Entry {
        entry_type: Some("user".to_string()),
        message: Some(Message { content: Some(Content::Text(text.to_string())) }),
        timestamp: stamp.map(|s| s.to_string()),
        session_id: None,
    })
}

fn file(folder: &str, name: &str, size: u64, lines: Vec<Option<Entry>>) -> TranscriptFile {
    TranscriptFile {
        name: name.to_string(),
        path: format!("{}/{}", folder, name),
        size,
        modified: Some(at(1_600_000_000)),
        sidecar: None,
        lines,
    }
}

fn record(path: &str, title: Option<&str>, stamp: Option<Timestamp>, empty: bool) -> Conversation {
    Conversation {
        path: path.to_string(),
        session_id: "s".to_string(),
        workspace_folder: "/root/ws".to_string(),
        workspace_path: "ws".to_string(),
        is_empty: empty,
        is_active: false,
        title: title.map(|t| t.to_string()),
        timestamp: stamp,
        folder_path: None,
    }
}

fn paths(list: &[Conversation]) -> Vec<String> {
    list.iter().map(|c| c.path.clone()).collect()
}

#[test]
fn empty_file_has_neither_title_nor_timestamp() {
    let lines = vec![user_line("never read", Some("2024-01-01T00:00:00Z"))];
    let made = describe("/root/ws", "ws", &file("/root/ws", "abc.jsonl", 0, lines), now()).unwrap();
    assert!(made.is_empty);
    assert_eq!(made.title, None);
    assert_eq!(made.timestamp, None);
    assert_eq!(made.session_id, "abc");
    assert_eq!(made.path, "/root/ws/abc.jsonl");
    assert_eq!(made.workspace_folder, "/root/ws");
    assert_eq!(made.workspace_path, "ws");
    assert_eq!(made.folder_path, None);
}

#[test]
fn empty_agent_file_gets_no_warmup_label() {
    let made = describe("/r", "r", &file("/r", "agent-1.jsonl", 0, Vec::new()), now()).unwrap();
    assert!(made.is_empty);
    assert_eq!(made.title, None);
}

#[test]
fn file_with_content_is_described_by_its_lines() {
    let lines = vec![user_line("hello there", Some("2024-03-01T09:30:00Z"))];
    let mut found = file("/root/ws", "abc.jsonl", 120, lines);
    found.sidecar = Some("/root/ws/abc".to_string());
    let made = describe("/root/ws", "ws", &found, now()).unwrap();
    assert!(!made.is_empty);
    assert_eq!(made.title, Some("hello there".to_string()));
    assert_eq!(made.timestamp, Some(at(1709285400)));
    assert_eq!(made.folder_path, Some("/root/ws/abc".to_string()));
}

#[test]
fn file_with_content_but_no_records_is_not_empty() {
    let made = describe("/r", "r", &file("/r", "abc.jsonl", 5, vec![None]), now()).unwrap();
    assert!(!made.is_empty);
    assert_eq!(made.title, None);
    assert_eq!(made.timestamp, None);
}

#[test]
fn warmup_label_goes_to_agents_only() {
    let warmup = vec![user_line("Warmup", None)];
    let agent = describe("/r", "r", &file("/r", "agent-1.jsonl", 50, warmup.clone()), now()).unwrap();
    assert_eq!(agent.title, Some("[Warmup]".to_string()));
    let main = describe("/r", "r", &file("/r", "abc.jsonl", 50, warmup), now()).unwrap();
    assert_eq!(main.title, None);
    let busy = vec![user_line("do the work", None)];
    let working = describe("/r", "r", &file("/r", "agent-2.jsonl", 50, busy), now()).unwrap();
    assert_eq!(working.title, Some("do the work".to_string()));
}

#[test]
fn other_files_are_not_described() {
    assert!(describe("/r", "r", &file("/r", "notes.txt", 5, Vec::new()), now()).is_none());
    assert!(describe("/r", "r", &file("/r", ".jsonl", 5, Vec::new()), now()).is_none());
}

#[test]
fn activity_is_a_window_of_five_minutes() {
    let now = Timestamp { secs: 1000, nanos: 500 };
    assert!(is_active_at(Some(Timestamp { secs: 1000, nanos: 500 }), now));
    assert!(is_active_at(Some(Timestamp { secs: 701, nanos: 0 }), now));
    assert!(is_active_at(Some(Timestamp { secs: 700, nanos: 501 }), now));
    assert!(!is_active_at(Some(Timestamp { secs: 700, nanos: 500 }), now));
    assert!(!is_active_at(Some(Timestamp { secs: 700, nanos: 0 }), now));
    assert!(!is_active_at(Some(Timestamp { secs: 1000, nanos: 501 }), now));
    assert!(!is_active_at(Some(Timestamp { secs: 1001, nanos: 0 }), now));
    assert!(!is_active_at(None, now));
    assert!(!is_active_at(Some(Timestamp { secs: i64::MIN, nanos: 0 }), Timestamp { secs: i64::MAX, nanos: 0 }));
    assert!(!is_active_at(Some(Timestamp { secs: i64::MAX, nanos: 0 }), Timestamp { secs: i64::MIN, nanos: 0 }));
}

#[test]
fn describe_flags_recent_files_as_active() {
    let mut recent = file("/r", "abc.jsonl", 0, Vec::new());
    recent.modified = Some(at(1_700_000_000 - 299));
    assert!(describe("/r", "r", &recent, now()).unwrap().is_active);
    recent.modified = Some(at(1_700_000_000 - 300));
    assert!(!describe("/r", "r", &recent, now()).unwrap().is_active);
    recent.modified = None;
    assert!(!describe("/r", "r", &recent, now()).unwrap().is_active);
}

#[test]
fn titled_before_untitled_before_empty() {
    let sorted = sort_ranked(vec![
        record("/r/e", None, None, true),
        record("/r/u", None, Some(at(900)), false),
        record("/r/t", Some("title"), Some(at(1)), false),
        record("/r/n", Some("[No title]"), Some(at(950)), false),
        record("/r/t0", Some("old title"), None, false),
    ]);
    assert_eq!(paths(&sorted), vec!["/r/t", "/r/t0", "/r/n", "/r/u", "/r/e"]);
}

#[test]
fn later_timestamp_first_and_any_timestamp_before_none() {
    let sorted = sort_ranked(vec![
        record("/r/none", Some("t"), None, false),
        record("/r/old", Some("t"), Some(at(10)), false),
        record("/r/new", Some("t"), Some(at(20)), false),
        record("/r/newer", Some("t"), Some(Timestamp { secs: 20, nanos: 1 }), false),
    ]);
    assert_eq!(paths(&sorted), vec!["/r/newer", "/r/new", "/r/old", "/r/none"]);
}

#[test]
fn paths_break_ties_between_records_without_timestamp() {
    let sorted = sort_ranked(vec![
        record("/r/ws-sub/b.jsonl", None, None, true),
        record("/r/ws/c.jsonl", None, None, true),
        record("/r/ws/a.jsonl", None, None, true),
        record("/r/ws", None, None, true),
    ]);
    assert_eq!(
        paths(&sorted),
        vec!["/r/ws", "/r/ws/a.jsonl", "/r/ws/c.jsonl", "/r/ws-sub/b.jsonl"]
    );
}

#[test]
fn path_order_is_the_order_of_the_standard_library() {
    let names = ["/r/ws-sub/b", "/r/ws/c", "/r/ws/a", "/r/ws", "/r/w", "/r/ws.x/a", "/r/ws!/a"];
    let sorted = sort_ranked(names.iter().map(|p| record(p, None, None, true)).collect());
    let mut expected: Vec<std::path::PathBuf> = names.iter().map(std::path::PathBuf::from).collect();
    expected.sort();
    let expected: Vec<String> = expected.iter().map(|p| p.to_str().unwrap().to_string()).collect();
    assert_eq!(paths(&sorted), expected);
}

#[test]
fn equal_timestamps_keep_the_given_order() {
    let first = sort_ranked(vec![
        record("/r/b", Some("t"), Some(at(5)), false),
        record("/r/a", Some("t"), Some(at(5)), false),
    ]);
    assert_eq!(paths(&first), vec!["/r/b", "/r/a"]);
    let second = sort_ranked(vec![
        record("/r/a", Some("t"), Some(at(5)), false),
        record("/r/b", Some("t"), Some(at(5)), false),
    ]);
    assert_eq!(paths(&second), vec!["/r/a", "/r/b"]);
}

#[test]
fn order_does_not_depend_on_the_listing_where_nothing_is_tied() {
    let make = || {
        vec![
            record("/r/1", Some("t"), Some(at(30)), false),
            record("/r/2", Some("t"), Some(at(10)), false),
            record("/r/3", None, Some(at(20)), false),
            record("/r/4", None, None, false),
            record("/r/5", None, None, true),
            record("/r/6", None, None, true),
        ]
    };
    let forwards = sort_ranked(make());
    let mut turned = make();
    turned.reverse();
    let backwards = sort_ranked(turned);
    let mut mixed = make();
    mixed.swap(0, 4);
    mixed.swap(1, 3);
    assert_eq!(forwards, backwards);
    assert_eq!(forwards, sort_ranked(mixed));
    assert_eq!(paths(&forwards), vec!["/r/1", "/r/2", "/r/3", "/r/4", "/r/5", "/r/6"]);
}

#[test]
fn comes_before_is_strict() {
    let a = record("/r/a", Some("t"), Some(at(5)), false);
    let b = record("/r/b", Some("t"), Some(at(5)), false);
    let c = record("/r/c", Some("t"), Some(at(6)), false);
    assert!(!a.comes_before(&a));
    assert!(!a.comes_before(&b));
    assert!(!b.comes_before(&a));
    assert!(c.comes_before(&a));
    assert!(!a.comes_before(&c));
    assert_eq!(a.tier(), 0);
    assert_eq!(record("/r/a", Some("[No title]"), None, false).tier(), 1);
    assert_eq!(record("/r/a", None, None, false).tier(), 1);
    assert_eq!(record("/r/a", Some("t"), None, true).tier(), 2);
}

fn sample_listing() -> Vec<Workspace> {
    let first = "/root/-home-me-app";
    let second = "/root/-home-me-lib";
    vec![
        Workspace {
            folder: first.to_string(),
            name: "-home-me-app".to_string(),
            files: vec![
                file(first, "empty.jsonl", 0, Vec::new()),
                file(first, "old.jsonl", 10, vec![user_line("old chat", Some("2024-01-01T00:00:00Z"))]),
                file(first, "agent-w.jsonl", 10, vec![user_line("Warmup", Some("2024-01-03T00:00:00Z"))]),
                file(first, "notes.txt", 10, Vec::new()),
                file(first, "new.jsonl", 10, vec![user_line("new chat", Some("2024-01-02T00:00:00Z"))]),
            ],
        },
        Workspace {
            folder: second.to_string(),
            name: "-home-me-lib".to_string(),
            files: vec![
                file(second, "quiet.jsonl", 10, vec![None]),
                file(second, "newest.jsonl", 10, vec![user_line("newest chat", Some("2024-02-01T00:00:00Z"))]),
            ],
        },
    ]
}

#[test]
fn scan_lists_transcripts_in_order() {
    let found = scan_conversations(&sample_listing(), None, false, now());
    let ids: Vec<&str> = found.iter().map(|c| c.session_id.as_str()).collect();
    assert_eq!(ids, vec!["newest", "new", "old", "quiet", "empty"]);
    assert_eq!(found[0].workspace_path, "/home/me/lib");
    assert_eq!(found[0].workspace_folder, "/root/-home-me-lib");
    assert_eq!(found[1].workspace_path, "/home/me/app");
    assert_eq!(found[1].path, "/root/-home-me-app/new.jsonl");
}

#[test]
fn scan_includes_agents_on_request() {
    let found = scan_conversations(&sample_listing(), None, true, now());
    let ids: Vec<&str> = found.iter().map(|c| c.session_id.as_str()).collect();
    assert_eq!(ids, vec!["newest", "agent-w", "new", "old", "quiet", "empty"]);
    assert_eq!(found[1].title, Some("[Warmup]".to_string()));
}

#[test]
fn scan_applies_the_workspace_filter() {
    let by_path = scan_conversations(&sample_listing(), Some("me/lib"), false, now());
    assert_eq!(by_path.len(), 2);
    assert!(by_path.iter().all(|c| c.workspace_path == "/home/me/lib"));
    let by_name = scan_conversations(&sample_listing(), Some("-me-app"), false, now());
    assert_eq!(by_name.len(), 3);
    assert!(scan_conversations(&sample_listing(), Some("nowhere"), true, now()).is_empty());
    assert!(scan_conversations(&Vec::new(), None, true, now()).is_empty());
}

#[test]
fn scan_gives_the_same_list_for_the_same_listing() {
    let once = scan_conversations(&sample_listing(), None, true, now());
    let again = scan_conversations(&sample_listing(), None, true, now());
    assert_eq!(once, again);
    let mut turned = sample_listing();
    turned.reverse();
    for workspace in turned.iter_mut() {
        workspace.files.reverse();
    }
    assert_eq!(once, scan_conversations(&turned, None, true, now()));
}

#[test]
fn scanned_records_of_empty_files_hold_nothing() {
    for conv in scan_conversations(&sample_listing(), None, true, now()) {
        if conv.is_empty {
            assert_eq!(conv.title, None);
            assert_eq!(conv.timestamp, None);
        }
    }
}

#[test]
fn display_title_has_labels_for_the_untitled() {
    assert_eq!(get_display_title(&record("/r/a", Some("hello"), None, false)), "hello");
    assert_eq!(get_display_title(&record("/r/a", None, None, false)), "[No title]");
    assert_eq!(get_display_title(&record("/r/a", None, None, true)), "[Empty]");
    assert_eq!(get_display_title(&record("/r/a", Some("hidden"), None, true)), "[Empty]");
}

#[test]
fn row_title_is_marked_and_cut() {
    let mut conv = record("/r/a", Some("hello"), None, false);
    assert_eq!(get_row_title(&conv), "hello");
    conv.is_active = true;
    assert_eq!(get_row_title(&conv), "*hello");
    let long = "x".repeat(50);
    conv.title = Some(long);
    assert_eq!(get_row_title(&conv), format!("*{}", "x".repeat(47)));
    conv.is_active = false;
    assert_eq!(get_row_title(&conv), "x".repeat(48));
}

#[test]
fn active_records_are_counted() {
    let mut list = vec![record("/r/a", None, None, false), record("/r/b", None, None, false)];
    assert_eq!(count_active(&list), 0);
    list[1].is_active = true;
    assert_eq!(count_active(&list), 1);
    assert_eq!(count_active(&Vec::new()), 0);
}

#[test]
fn sorting_a_sorted_list_changes_nothing() {
    let once = sort_ranked(vec![
        record("/r/b", Some("t"), Some(at(5)), false),
        record("/r/a", Some("t"), Some(at(5)), false),
        record("/r/c", None, None, false),
        record("/r/d", Some("t"), Some(at(9)), false),
    ]);
    assert_eq!(paths(&once), vec!["/r/d", "/r/b", "/r/a", "/r/c"]);
    let twice = sort_ranked(once.clone());
    assert_eq!(once, twice);
}
