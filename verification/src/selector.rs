//! The interactive picker as a state machine: a cursor, one selection flag
//! per listed record, a sliding viewport and a two-stage delete flow.
//!
//! The terminal itself is not modelled. A caller reads a key, hands it to
//! [`Selector::handle_key`], and draws whatever the new state calls for.

use crate::flags::{
    all_flags, chosen, count_flags, count_set, fill, indices_of, lemma_count_set_uniform,
};
use vstd::prelude::*;

verus! {

/// A key press, as far as the picker tells keys apart.
#[derive(Clone, Copy, Debug, PartialEq, Eq, Structural)]
pub enum Key {
    ArrowUp,
    ArrowDown,
    PageUp,
    PageDown,
    Enter,
    Escape,
    Char(char),
    Other,
}

/// Where the picker stands in its delete flow.
#[derive(Clone, Copy, Debug, PartialEq, Eq, Structural)]
pub enum Phase {
    /// The list is shown and keys move the cursor or change the selection.
    Browsing,
    /// The selection is shown once more, waiting for confirm or cancel.
    ConfirmingDelete,
    /// The deletion was confirmed; the selected records are to be deleted.
    Finished,
    /// The user left the picker; nothing is selected and nothing is deleted.
    Quit,
}

/// The mathematical state of a [`Selector`].
pub ghost struct SelectorState {
    pub cursor: int,
    pub flags: Seq<bool>,
    pub viewport_start: int,
    pub phase: Phase,
}

/// Lines above the list: one more when some record is flagged active.
pub open spec fn header_lines(any_active: bool) -> int {
    if any_active {
        8
    } else {
        7
    }
}

/// Lines below the list.
pub open spec fn footer_lines() -> int {
    3
}

/// Rows available to the list on a terminal of the given height, never
/// fewer than three.
pub open spec fn viewport_rows(term_height: int, any_active: bool) -> int {
    let free = term_height - (header_lines(any_active) + footer_lines());
    if free < 3 {
        3
    } else {
        free
    }
}

/// A state the picker can be in: a non-empty list, the cursor and the
/// viewport start inside it, a confirmation or a deletion only over a
/// selection, and no selection left after quitting.
pub open spec fn valid(st: SelectorState) -> bool {
    &&& st.flags.len() > 0
    &&& 0 <= st.cursor < st.flags.len()
    &&& 0 <= st.viewport_start < st.flags.len()
    &&& st.phase == Phase::ConfirmingDelete || st.phase == Phase::Finished ==> count_set(st.flags)
        > 0
    &&& st.phase == Phase::Quit ==> count_set(st.flags) == 0
}

/// The state after quitting: the selection is dropped.
pub open spec fn after_quit(st: SelectorState) -> SelectorState {
    SelectorState { flags: all_flags(st.flags.len(), false), phase: Phase::Quit, ..st }
}

/// The cursor moved by `delta` rows and held inside the list.
pub open spec fn clamped(st: SelectorState, delta: int) -> int {
    let target = st.cursor + delta;
    if target < 0 {
        0
    } else if target > st.flags.len() - 1 {
        st.flags.len() - 1
    } else {
        target
    }
}

/// The state after one key while browsing. `page` is the viewport height.
pub open spec fn after_browse_key(st: SelectorState, key: Key, page: int) -> SelectorState {
    match key {
        Key::ArrowUp => SelectorState { cursor: clamped(st, -1), ..st },
        Key::ArrowDown => SelectorState { cursor: clamped(st, 1), ..st },
        Key::PageUp => SelectorState { cursor: clamped(st, -page), ..st },
        Key::PageDown => SelectorState { cursor: clamped(st, page), ..st },
        Key::Enter => if count_set(st.flags) > 0 {
            SelectorState { phase: Phase::ConfirmingDelete, ..st }
        } else {
            st
        },
        Key::Escape => after_quit(st),
        Key::Char(c) => if c == 'k' {
            SelectorState { cursor: clamped(st, -1), ..st }
        } else if c == 'j' {
            SelectorState { cursor: clamped(st, 1), ..st }
        } else if c == ' ' {
            SelectorState {
                cursor: clamped(st, 1),
                flags: st.flags.update(st.cursor, !st.flags[st.cursor]),
                ..st
            }
        } else if c == 'a' {
            SelectorState { flags: all_flags(st.flags.len(), true), ..st }
        } else if c == 'n' {
            SelectorState { flags: all_flags(st.flags.len(), false), ..st }
        } else if c == 'q' {
            after_quit(st)
        } else {
            st
        },
        Key::Other => st,
    }
}

/// The state after one key on the confirmation screen: Enter confirms,
/// Escape clears the selection and goes back, anything else is ignored.
pub open spec fn after_confirm_key(st: SelectorState, key: Key) -> SelectorState {
    match key {
        Key::Enter => SelectorState { phase: Phase::Finished, ..st },
        Key::Escape => SelectorState {
            flags: all_flags(st.flags.len(), false),
            phase: Phase::Browsing,
            ..st
        },
        _ => st,
    }
}

/// The state after one key. `Finished` and `Quit` are final.
pub open spec fn after_key(st: SelectorState, key: Key, page: int) -> SelectorState {
    match st.phase {
        Phase::Browsing => after_browse_key(st, key, page),
        Phase::ConfirmingDelete => after_confirm_key(st, key),
        Phase::Finished => st,
        Phase::Quit => st,
    }
}

/// The viewport start that keeps the cursor visible in a window of `rows`
/// rows while moving the window as little as possible.
pub open spec fn scrolled_start(st: SelectorState, rows: int) -> int {
    if st.cursor < st.viewport_start {
        st.cursor
    } else if st.cursor >= st.viewport_start + rows {
        st.cursor - rows + 1
    } else {
        st.viewport_start
    }
}

/// One past the last visible row.
pub open spec fn window_end(st: SelectorState, rows: int) -> int {
    if st.viewport_start + rows < st.flags.len() {
        st.viewport_start + rows
    } else {
        st.flags.len() as int
    }
}

/// The picker: cursor, selection flags, viewport start and phase.
pub struct Selector {
    pub cursor: usize,
    pub selected: Vec<bool>,
    pub viewport_start: usize,
    pub phase: Phase,
}

impl View for Selector {
    type V = SelectorState;

    open spec fn view(&self) -> SelectorState {
        SelectorState {
            cursor: self.cursor as int,
            flags: self.selected@,
            viewport_start: self.viewport_start as int,
            phase: self.phase,
        }
    }
}

/// Rows available to the list on a terminal of the given height.
pub fn viewport_size(term_height: usize, any_active: bool) -> (rows: usize)
    ensures
        rows == viewport_rows(term_height as int, any_active),
        rows >= 3,
{
    let reserved: usize = if any_active {
        11
    } else {
        10
    };
    if term_height < reserved + 3 {
        3
    } else {
        term_height - reserved
    }
}

impl Selector {
    /// Both the picker and its state are well formed.
    pub open spec fn wf(&self) -> bool {
        valid(self@)
    }

    /// Whether the picker is well formed. One made by [`Selector::new`] and
    /// changed only through its methods always is.
    pub fn is_valid(&self) -> (ok: bool)
        ensures
            ok == self.wf(),
    {
        let count = count_flags(&self.selected);
        self.selected.len() > 0 && self.cursor < self.selected.len() && self.viewport_start
            < self.selected.len() && match self.phase {
            Phase::Browsing => true,
            Phase::ConfirmingDelete => count > 0,
            Phase::Finished => count > 0,
            Phase::Quit => count == 0,
        }
    }

    /// A picker over `count` records: nothing selected, the cursor on the
    /// first record. There is no picker over an empty list.
    pub fn new(count: usize) -> (made: Option<Selector>)
        ensures
            count == 0 <==> made is None,
            made matches Some(s) ==> {
                &&& s.wf()
                &&& s@.cursor == 0
                &&& s@.viewport_start == 0
                &&& s@.phase == Phase::Browsing
                &&& s@.flags == all_flags(count as nat, false)
            },
    {
        if count == 0 {
            return None;
        }
        let mut selected: Vec<bool> = Vec::new();
        let mut i: usize = 0;
        while i < count
            invariant
                i <= count,
                selected@ =~= all_flags(i as nat, false),
            decreases count - i,
        {
            selected.push(false);
            i += 1;
        }
        proof {
            lemma_count_set_uniform(count as nat);
        }
        Some(Selector { cursor: 0, selected, viewport_start: 0, phase: Phase::Browsing })
    }

    /// Number of records in the list.
    pub fn len(&self) -> (n: usize)
        ensures
            n == self@.flags.len(),
    {
        self.selected.len()
    }

    /// Whether the record at `index` is selected; `false` outside the list.
    pub fn is_selected(&self, index: usize) -> (b: bool)
        ensures
            b == (index < self@.flags.len() && self@.flags[index as int]),
    {
        index < self.selected.len() && self.selected[index]
    }

    /// Number of selected records.
    pub fn selected_count(&self) -> (n: usize)
        ensures
            n == count_set(self@.flags),
    {
        count_flags(&self.selected)
    }

    /// The selected positions in ascending order.
    pub fn selected_indices(&self) -> (picked: Vec<usize>)
        ensures
            picked@ == chosen(self@.flags),
    {
        indices_of(&self.selected)
    }

    /// Moves the viewport so that a window of `rows` rows shows the cursor:
    /// back to the cursor when it stands above the window, forward just far
    /// enough when it stands below, and not at all otherwise.
    pub fn scroll_to_cursor(&mut self, rows: usize)
        requires
            old(self).wf(),
            rows > 0,
        ensures
            final(self)@ == (SelectorState {
                viewport_start: scrolled_start(old(self)@, rows as int),
                ..old(self)@
            }),
            final(self).wf(),
            final(self)@.viewport_start <= final(self)@.cursor < final(self)@.viewport_start
                + rows,
    {
        if self.cursor < self.viewport_start {
            self.viewport_start = self.cursor;
        } else if self.cursor - self.viewport_start >= rows {
            self.viewport_start = self.cursor - rows + 1;
        }
    }

    /// One past the last row that a window of `rows` rows shows.
    pub fn viewport_end(&self, rows: usize) -> (end: usize)
        requires
            self.wf(),
        ensures
            end == window_end(self@, rows as int),
            self@.viewport_start <= end <= self@.flags.len(),
    {
        let room: usize = self.selected.len() - self.viewport_start;
        if rows < room {
            self.viewport_start + rows
        } else {
            self.selected.len()
        }
    }

    /// Moves the cursor by `delta` rows down (`down` set) or up, held
    /// inside the list.
    fn move_cursor(&mut self, delta: usize, down: bool)
        requires
            old(self)@.cursor < old(self)@.flags.len(),
        ensures
            final(self)@ == (SelectorState {
                cursor: clamped(
                    old(self)@,
                    if down {
                        delta as int
                    } else {
                        -(delta as int)
                    },
                ),
                ..old(self)@
            }),
    {
        if down {
            let room: usize = self.selected.len() - 1 - self.cursor;
            if delta < room {
                self.cursor = self.cursor + delta;
            } else {
                self.cursor = self.selected.len() - 1;
            }
        } else if delta < self.cursor {
            self.cursor = self.cursor - delta;
        } else {
            self.cursor = 0;
        }
    }

    /// Leaves the picker and drops the selection.
    fn quit(&mut self)
        ensures
            final(self)@ == after_quit(old(self)@),
    {
        fill(&mut self.selected, false);
        self.phase = Phase::Quit;
    }

    /// Handles one key while browsing.
    fn browse(&mut self, key: Key, rows: usize)
        requires
            old(self).wf(),
            old(self)@.phase == Phase::Browsing,
        ensures
            final(self)@ == after_browse_key(old(self)@, key, rows as int),
    {
        match key {
            Key::ArrowUp => self.move_cursor(1, false),
            Key::ArrowDown => self.move_cursor(1, true),
            Key::PageUp => self.move_cursor(rows, false),
            Key::PageDown => self.move_cursor(rows, true),
            Key::Enter => {
                if self.selected_count() > 0 {
                    self.phase = Phase::ConfirmingDelete;
                }
            },
            Key::Escape => self.quit(),
            Key::Char(c) => {
                if c == 'k' {
                    self.move_cursor(1, false);
                } else if c == 'j' {
                    self.move_cursor(1, true);
                } else if c == ' ' {
                    let flipped = !self.selected[self.cursor];
                    self.selected.set(self.cursor, flipped);
                    self.move_cursor(1, true);
                } else if c == 'a' {
                    fill(&mut self.selected, true);
                } else if c == 'n' {
                    fill(&mut self.selected, false);
                } else if c == 'q' {
                    self.quit();
                }
            },
            Key::Other => {},
        }
    }

    /// Handles one key: the state moves as [`after_key`] says and stays
    /// well formed. `rows` is the height of the viewport, which page keys
    /// move the cursor by.
    pub fn handle_key(&mut self, key: Key, rows: usize)
        requires
            old(self).wf(),
        ensures
            final(self)@ == after_key(old(self)@, key, rows as int),
            final(self).wf(),
    {
        proof {
            lemma_after_key_valid(self@, key, rows as int);
        }
        match self.phase {
            Phase::Browsing => self.browse(key, rows),
            Phase::ConfirmingDelete => {
                match key {
                    Key::Enter => {
                        self.phase = Phase::Finished;
                    },
                    Key::Escape => {
                        fill(&mut self.selected, false);
                        self.phase = Phase::Browsing;
                    },
                    _ => {},
                }
            },
            Phase::Finished => {},
            Phase::Quit => {},
        }
    }
}

/// The picker never leaves its valid states: the cursor and the viewport
/// start stay inside the list, and the confirmation screen is reached only
/// with something selected.
pub proof fn lemma_after_key_valid(st: SelectorState, key: Key, page: int)
    requires
        valid(st),
        page >= 0,
    ensures
        valid(after_key(st, key, page)),
        after_key(st, key, page).flags.len() == st.flags.len(),
{
    lemma_count_set_uniform(st.flags.len());
}

/// Quitting drops the selection, whatever was selected.
pub proof fn lemma_quit_drops_selection(st: SelectorState, key: Key, page: int)
    requires
        st.phase == Phase::Browsing,
        key == Key::Escape || key == Key::Char('q'),
    ensures
        after_key(st, key, page).phase == Phase::Quit,
        count_set(after_key(st, key, page).flags) == 0,
{
    lemma_count_set_uniform(st.flags.len());
}

/// Pressing the delete key with nothing selected changes nothing: the
/// picker goes on browsing and no confirmation is asked for.
pub proof fn lemma_enter_needs_selection(st: SelectorState, page: int)
    requires
        st.phase == Phase::Browsing,
        count_set(st.flags) == 0,
    ensures
        after_key(st, Key::Enter, page) == st,
{
}

/// The confirmation screen is entered from browsing by the delete key
/// alone, and only when at least one record is selected.
pub proof fn lemma_confirmation_entry(st: SelectorState, key: Key, page: int)
    requires
        st.phase == Phase::Browsing,
    ensures
        after_key(st, key, page).phase == Phase::ConfirmingDelete <==> key == Key::Enter
            && count_set(st.flags) > 0,
{
}

/// Cancelling a confirmation clears every flag and leaves cursor and
/// viewport where they were.
pub proof fn lemma_cancel_clears_selection(st: SelectorState, page: int)
    requires
        st.phase == Phase::ConfirmingDelete,
    ensures
        count_set(after_key(st, Key::Escape, page).flags) == 0,
        after_key(st, Key::Escape, page).phase == Phase::Browsing,
        after_key(st, Key::Escape, page).cursor == st.cursor,
        after_key(st, Key::Escape, page).viewport_start == st.viewport_start,
{
    lemma_count_set_uniform(st.flags.len());
}

} // verus!
