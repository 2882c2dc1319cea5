//! What the picker shows: the frame of the list, row by row, and the
//! confirmation that precedes a deletion. Colours and the terminal are the
//! caller's business; what stands in which row, and in which style, is
//! decided here.

use crate::conversation::{
    active_among, count_active, display_title, get_display_title, get_row_title, row_title,
    Conversation, Record,
};
use crate::flags::count_set;
use crate::ranking::views;
use crate::selector::{window_end, Selector, SelectorState};
use crate::text::last_segment;
use crate::timestamp::Timestamp;
use crate::workspace::{get_short_workspace, separator};
use vstd::prelude::*;

verus! {

/// How a row is drawn.
#[derive(Clone, Copy, Debug, PartialEq, Eq, Structural)]
pub enum RowStyle {
    /// The cursor stands on an active record.
    CursorOnActive,
    /// The cursor stands on the record.
    Cursor,
    /// The record is selected.
    Selected,
    /// The record is active.
    Active,
    /// None of these.
    Plain,
}

/// One row of the list.
#[derive(Clone, Debug, PartialEq, Eq)]
pub struct Row {
    /// The position of the record in the list.
    pub index: usize,
    /// Whether the record's box is checked.
    pub checked: bool,
    /// How the row is drawn.
    pub style: RowStyle,
    /// The time of the record's last event.
    pub timestamp: Option<Timestamp>,
    /// The title column.
    pub title: String,
    /// The last component of the record's workspace path.
    pub project: String,
}

/// The line below the list.
#[derive(Clone, Copy, Debug, PartialEq, Eq, Structural)]
pub enum Footer {
    /// Asks whether the selected records, so many, are to be deleted.
    DeletePrompt(usize),
    /// Lists the keys.
    Keys,
}

/// One frame of the list.
#[derive(Clone, Debug, PartialEq, Eq)]
pub struct Frame {
    /// Number of records in the list.
    pub total: usize,
    /// Number of selected records.
    pub selected: usize,
    /// Number of active records.
    pub active: usize,
    /// The first record shown, counted from 1.
    pub first_shown: usize,
    /// The last record shown, counted from 1.
    pub last_shown: usize,
    /// The rows shown, from the top.
    pub rows: Vec<Row>,
    /// The line below the list.
    pub footer: Footer,
}

/// One record on the confirmation screen.
#[derive(Clone, Debug, PartialEq, Eq)]
pub struct ConfirmItem {
    /// The record's display title.
    pub title: String,
    /// Whether the record is flagged active.
    pub active: bool,
    /// The record's workspace path.
    pub workspace_path: String,
}

/// The confirmation screen.
#[derive(Clone, Debug, PartialEq, Eq)]
pub struct Confirmation {
    /// The selected records, in list order.
    pub items: Vec<ConfirmItem>,
    /// How many of them are flagged active. More than none calls for a
    /// warning.
    pub active: usize,
}

/// The mathematical value of a [`Row`].
pub ghost struct RowView {
    pub index: int,
    pub checked: bool,
    pub style: RowStyle,
    pub timestamp: Option<Timestamp>,
    pub title: Seq<char>,
    pub project: Seq<char>,
}

impl View for Row {
    type V = RowView;

    open spec fn view(&self) -> RowView {
        RowView {
            index: self.index as int,
            checked: self.checked,
            style: self.style,
            timestamp: self.timestamp,
            title: self.title@,
            project: self.project@,
        }
    }
}

/// The mathematical value of a [`ConfirmItem`].
pub ghost struct ConfirmItemView {
    pub title: Seq<char>,
    pub active: bool,
    pub workspace_path: Seq<char>,
}

impl View for ConfirmItem {
    type V = ConfirmItemView;

    open spec fn view(&self) -> ConfirmItemView {
        ConfirmItemView {
            title: self.title@,
            active: self.active,
            workspace_path: self.workspace_path@,
        }
    }
}

/// The style of a row: the cursor tells first, then the selection, then
/// the activity.
pub open spec fn style_of(at_cursor: bool, selected: bool, active: bool) -> RowStyle {
    if at_cursor {
        if active {
            RowStyle::CursorOnActive
        } else {
            RowStyle::Cursor
        }
    } else if selected {
        RowStyle::Selected
    } else if active {
        RowStyle::Active
    } else {
        RowStyle::Plain
    }
}

/// The row of the record at `index`.
pub open spec fn row_at(list: Seq<Record>, st: SelectorState, index: int) -> RowView {
    RowView {
        index,
        checked: st.flags[index],
        style: style_of(index == st.cursor, st.flags[index], list[index].is_active),
        timestamp: list[index].timestamp,
        title: row_title(list[index]),
        project: last_segment(list[index].workspace_path, separator()),
    }
}

/// The rows that a window of `rows` rows shows: those of the records from
/// the viewport start up to the window's end.
pub open spec fn shown_rows(list: Seq<Record>, st: SelectorState, rows: int) -> Seq<RowView> {
    Seq::new(
        (window_end(st, rows) - st.viewport_start) as nat,
        |k: int| row_at(list, st, st.viewport_start + k),
    )
}

/// The line below the list: the delete prompt as soon as something is
/// selected.
pub open spec fn footer_of(flags: Seq<bool>) -> Footer {
    if count_set(flags) > 0 {
        Footer::DeletePrompt(count_set(flags) as usize)
    } else {
        Footer::Keys
    }
}

/// What the confirmation screen says of a record.
pub open spec fn item_of(record: Record) -> ConfirmItemView {
    ConfirmItemView {
        title: display_title(record),
        active: record.is_active,
        workspace_path: record.workspace_path,
    }
}

/// The confirmation items of the selected records among the first `n`.
pub open spec fn items_below(list: Seq<Record>, flags: Seq<bool>, n: int) -> Seq<ConfirmItemView>
    decreases n,
{
    if n <= 0 {
        Seq::empty()
    } else if flags[n - 1] {
        items_below(list, flags, n - 1).push(item_of(list[n - 1]))
    } else {
        items_below(list, flags, n - 1)
    }
}

/// Number of records among the first `n` that are selected and flagged
/// active.
pub open spec fn active_selected_below(list: Seq<Record>, flags: Seq<bool>, n: int) -> nat
    decreases n,
{
    if n <= 0 {
        0
    } else {
        active_selected_below(list, flags, n - 1) + if flags[n - 1] && list[n - 1].is_active {
            1nat
        } else {
            0nat
        }
    }
}

/// The style of a row.
pub fn row_style(at_cursor: bool, selected: bool, active: bool) -> (style: RowStyle)
    ensures
        style == style_of(at_cursor, selected, active),
{
    if at_cursor {
        if active {
            RowStyle::CursorOnActive
        } else {
            RowStyle::Cursor
        }
    } else if selected {
        RowStyle::Selected
    } else if active {
        RowStyle::Active
    } else {
        RowStyle::Plain
    }
}

/// The frame that a window of `rows` rows shows of the list: the counts
/// of the header, one row per record from the viewport start to the end of
/// the window, and the footer.
pub fn render(list: &Vec<Conversation>, selector: &Selector, rows: usize) -> (frame: Frame)
    requires
        selector.wf(),
        list.len() == selector@.flags.len(),
    ensures
        frame.total == list.len(),
        frame.selected == count_set(selector@.flags),
        frame.active == active_among(list@, list@.len() as int),
        frame.first_shown == selector@.viewport_start + 1,
        frame.last_shown == window_end(selector@, rows as int),
        views(frame.rows@) == shown_rows(views(list@), selector@, rows as int),
        frame.footer == footer_of(selector@.flags),
{
    let end = selector.viewport_end(rows);
    let selected = selector.selected_count();
    let mut shown: Vec<Row> = Vec::new();
    let mut i: usize = selector.viewport_start;
    while i < end
        invariant
            selector.viewport_start <= i <= end <= list.len(),
            list.len() == selector@.flags.len(),
            shown.len() == i - selector.viewport_start,
            forall|k: int|
                0 <= k < shown.len() ==> (#[trigger] shown@[k])@ == row_at(
                    views(list@),
                    selector@,
                    selector@.viewport_start + k,
                ),
        decreases end - i,
    {
        let conv = &list[i];
        let checked = selector.selected[i];
        let row = Row {
            index: i,
            checked,
            style: row_style(i == selector.cursor, checked, conv.is_active),
            timestamp: conv.timestamp,
            title: get_row_title(conv),
            project: get_short_workspace(conv.workspace_path.as_str()),
        };
        shown.push(row);
        i += 1;
    }
    assert(views(shown@) =~= shown_rows(views(list@), selector@, rows as int));
    Frame {
        total: list.len(),
        selected,
        active: count_active(list),
        first_shown: selector.viewport_start + 1,
        last_shown: end,
        rows: shown,
        footer: if selected > 0 {
            Footer::DeletePrompt(selected)
        } else {
            Footer::Keys
        },
    }
}

/// The confirmation screen: every selected record in list order, and how
/// many of them are flagged active.
pub fn confirmation(list: &Vec<Conversation>, selector: &Selector) -> (screen: Confirmation)
    requires
        list.len() == selector@.flags.len(),
    ensures
        views(screen.items@) == items_below(views(list@), selector@.flags, list@.len() as int),
        screen.active == active_selected_below(
            views(list@),
            selector@.flags,
            list@.len() as int,
        ),
{
    let mut items: Vec<ConfirmItem> = Vec::new();
    let mut active: usize = 0;
    let mut i: usize = 0;
    assert(views(items@) =~= Seq::<ConfirmItemView>::empty());
    while i < list.len()
        invariant
            i <= list.len(),
            list.len() == selector@.flags.len(),
            active <= i,
            views(items@) == items_below(views(list@), selector@.flags, i as int),
            active == active_selected_below(views(list@), selector@.flags, i as int),
        decreases list.len() - i,
    {
        let conv = &list[i];
        if selector.selected[i] {
            let item = ConfirmItem {
                title: get_display_title(conv),
                active: conv.is_active,
                workspace_path: conv.workspace_path.clone(),
            };
            assert(views(items@.push(item)) =~= views(items@).push(item@));
            items.push(item);
            if conv.is_active {
                active += 1;
            }
        }
        i += 1;
    }
    Confirmation { items, active }
}

/// A frame shows the cursor's row whenever the window holds the cursor,
/// and shows it in a cursor style; no other row is shown in one.
pub proof fn lemma_cursor_row_is_shown(list: Seq<Record>, st: SelectorState, rows: int)
    requires
        list.len() == st.flags.len(),
        0 <= st.viewport_start <= st.cursor < st.flags.len(),
        st.cursor < st.viewport_start + rows,
    ensures
        st.cursor - st.viewport_start < shown_rows(list, st, rows).len(),
        shown_rows(list, st, rows)[st.cursor - st.viewport_start].index == st.cursor,
        forall|k: int|
            0 <= k < shown_rows(list, st, rows).len() ==> ((#[trigger] shown_rows(
                list,
                st,
                rows,
            )[k]).style == RowStyle::Cursor || shown_rows(list, st, rows)[k].style
                == RowStyle::CursorOnActive <==> k == st.cursor - st.viewport_start),
{
}

/// The footer prompts for a deletion exactly when something is selected.
pub proof fn lemma_footer(flags: Seq<bool>)
    ensures
        footer_of(flags) == Footer::Keys <==> count_set(flags) == 0,
{
}

} // verus!
