use chat_manager::conversation::Conversation;
use chat_manager::frame::{confirmation, render, row_style, ConfirmItem, Footer, Row, RowStyle};
use chat_manager::selector::{Key, Selector};
use chat_manager::timestamp::Timestamp;

fn record(n: usize, active: bool) -> Conversation {
    Conversation {
        path: format!("/root/ws/{}.jsonl", n),
        session_id: n.to_string(),
        workspace_folder: "/root/ws".to_string(),
        workspace_path: "/home/me/project".to_string(),
        is_empty: false,
        is_active: active,
        title: Some(format!("chat {}", n)),
        timestamp: Some(Timestamp { secs: n as i64, nanos: 0 }),
        folder_path: None,
    }
}

fn list() -> Vec<Conversation> {
    (0..6).map(|n| record(n, n == 1 || n == 4)).collect()
}

#[test]
fn style_goes_by_cursor_then_selection_then_activity() {
    assert_eq!(row_style(true, true, true), RowStyle::CursorOnActive);
    assert_eq!(row_style(true, false, true), RowStyle::CursorOnActive);
    assert_eq!(row_style(true, true, false), RowStyle::Cursor);
    assert_eq!(row_style(true, false, false), RowStyle::Cursor);
    assert_eq!(row_style(false, true, true), RowStyle::Selected);
    assert_eq!(row_style(false, true, false), RowStyle::Selected);
    assert_eq!(row_style(false, false, true), RowStyle::Active);
    assert_eq!(row_style(false, false, false), RowStyle::Plain);
}

#[test]
fn frame_shows_the_window() {
    let list = list();
    let mut selector = Selector::new(list.len()).unwrap();
    selector.handle_key(Key::Char(' '), 3);
    selector.handle_key(Key::ArrowDown, 3);
    selector.handle_key(Key::ArrowDown, 3);
    selector.scroll_to_cursor(3);
    let frame = render(&list, &selector, 3);
    assert_eq!(frame.total, 6);
    assert_eq!(frame.selected, 1);
    assert_eq!(frame.active, 2);
    assert_eq!(frame.first_shown, 2);
    assert_eq!(frame.last_shown, 4);
    assert_eq!(frame.footer, Footer::DeletePrompt(1));
    assert_eq!(
        frame.rows,
        vec![
            Row {
                index: 1,
                checked: false,
                style: RowStyle::Active,
                timestamp: Some(Timestamp { secs: 1, nanos: 0 }),
                title: "*chat 1".to_string(),
                project: "project".to_string(),
            },
            Row {
                index: 2,
                checked: false,
                style: RowStyle::Plain,
                timestamp: Some(Timestamp { secs: 2, nanos: 0 }),
                title: "chat 2".to_string(),
                project: "project".to_string(),
            },
            Row {
                index: 3,
                checked: false,
                style: RowStyle::Cursor,
                timestamp: Some(Timestamp { secs: 3, nanos: 0 }),
                title: "chat 3".to_string(),
                project: "project".to_string(),
            },
        ]
    );
}

#[test]
fn frame_of_a_short_list_ends_with_the_list() {
    let list = list();
    let selector = Selector::new(list.len()).unwrap();
    let frame = render(&list, &selector, 20);
    assert_eq!(frame.first_shown, 1);
    assert_eq!(frame.last_shown, 6);
    assert_eq!(frame.rows.len(), 6);
    assert_eq!(frame.rows[0].style, RowStyle::Cursor);
    assert_eq!(frame.rows[1].style, RowStyle::Active);
    assert_eq!(frame.footer, Footer::Keys);
    assert_eq!(frame.selected, 0);
}

#[test]
fn frame_marks_selected_rows() {
    let list = list();
    let mut selector = Selector::new(list.len()).unwrap();
    selector.handle_key(Key::Char('a'), 3);
    let frame = render(&list, &selector, 3);
    assert_eq!(frame.footer, Footer::DeletePrompt(6));
    assert!(frame.rows.iter().all(|row| row.checked));
    assert_eq!(frame.rows[0].style, RowStyle::Cursor);
    assert_eq!(frame.rows[1].style, RowStyle::Selected);
    assert_eq!(frame.rows[2].style, RowStyle::Selected);
}

#[test]
fn confirmation_lists_the_selection() {
    let list = list();
    let mut selector = Selector::new(list.len()).unwrap();
    for key in [Key::ArrowDown, Key::Char(' '), Key::Char(' '), Key::Enter] {
        selector.handle_key(key, 3);
    }
    let screen = confirmation(&list, &selector);
    assert_eq!(screen.active, 1);
    assert_eq!(
        screen.items,
        vec![
            ConfirmItem {
                title: "chat 1".to_string(),
                active: true,
                workspace_path: "/home/me/project".to_string(),
            },
            ConfirmItem {
                title: "chat 2".to_string(),
                active: false,
                workspace_path: "/home/me/project".to_string(),
            },
        ]
    );
}

#[test]
fn confirmation_without_active_records_warns_of_nothing() {
    let list = list();
    let mut selector = Selector::new(list.len()).unwrap();
    selector.handle_key(Key::Char(' '), 3);
    let screen = confirmation(&list, &selector);
    assert_eq!(screen.active, 0);
    assert_eq!(screen.items.len(), 1);
    assert_eq!(screen.items[0].title, "chat 0");
}
