//! The record that a scan makes of one transcript file, how records are
//! labelled, and the order in which they are listed.

use crate::lexical::{comes_before, lemma_lex_strict_weak, lemma_lex_total, path_before};
use crate::ranking::{is_sorted, Ranked};
use crate::text::{chars_of, str_equals, string_between, string_of};
use crate::timestamp::{is_later, Timestamp};
use vstd::prelude::*;
use vstd::string::StringExecFns;

verus! {

/// One transcript file as a scan found it.
#[derive(Clone, Debug, PartialEq, Eq)]
pub struct Conversation {
    /// Where the transcript file lies.
    pub path: String,
    /// The file's base name, by which agent transcripts refer to it.
    pub session_id: String,
    /// The folder that holds the file and its siblings.
    pub workspace_folder: String,
    /// The path that the folder's name stands for. For display only.
    pub workspace_path: String,
    /// Whether the file held no bytes when it was scanned.
    pub is_empty: bool,
    /// Whether the file was modified shortly before the scan.
    pub is_active: bool,
    /// A short summary of the content, or the warmup label.
    pub title: Option<String>,
    /// The time of the last event in the file.
    pub timestamp: Option<Timestamp>,
    /// The sidecar folder, where there is one.
    pub folder_path: Option<String>,
}

/// The mathematical value of a [`Conversation`].
pub ghost struct Record {
    pub path: Seq<char>,
    pub session_id: Seq<char>,
    pub workspace_folder: Seq<char>,
    pub workspace_path: Seq<char>,
    pub is_empty: bool,
    pub is_active: bool,
    pub title: Option<Seq<char>>,
    pub timestamp: Option<Timestamp>,
    pub folder_path: Option<Seq<char>>,
}

/// The view of an optional string.
pub open spec fn optional_view(text: Option<String>) -> Option<Seq<char>> {
    match text {
        Some(t) => Some(t@),
        None => None,
    }
}

impl View for Conversation {
    type V = Record;

    open spec fn view(&self) -> Record {
        Record {
            path: self.path@,
            session_id: self.session_id@,
            workspace_folder: self.workspace_folder@,
            workspace_path: self.workspace_path@,
            is_empty: self.is_empty,
            is_active: self.is_active,
            title: optional_view(self.title),
            timestamp: self.timestamp,
            folder_path: optional_view(self.folder_path),
        }
    }
}

/// The label of an empty transcript.
pub open spec fn empty_label() -> Seq<char> {
    "[Empty]"@
}

/// The label of a transcript without a title.
pub open spec fn untitled_label() -> Seq<char> {
    "[No title]"@
}

/// The title given to an agent transcript that is warmup-only.
pub open spec fn warmup_label() -> Seq<char> {
    "[Warmup]"@
}

/// The mark in front of the title of an active transcript.
pub open spec fn active_mark() -> Seq<char> {
    "*"@
}

/// A list row shows this many characters of a title.
pub open spec fn row_title_width() -> int {
    48
}

/// A record of an empty file has neither title nor timestamp.
pub open spec fn well_formed(record: Record) -> bool {
    record.is_empty ==> record.title is None && record.timestamp is None
}

/// The title under which a record is shown.
pub open spec fn display_title(record: Record) -> Seq<char> {
    if record.is_empty {
        empty_label()
    } else {
        match record.title {
            Some(title) => title,
            None => untitled_label(),
        }
    }
}

/// The title column of a list row: the display title, marked where the
/// record is active, cut to the column's width.
pub open spec fn row_title(record: Record) -> Seq<char> {
    let marked = if record.is_active {
        active_mark() + display_title(record)
    } else {
        display_title(record)
    };
    if marked.len() > row_title_width() {
        marked.take(row_title_width())
    } else {
        marked
    }
}

/// Whether a record carries a real title: it is not empty and its title
/// is there and is not the label of the untitled.
pub open spec fn has_title(record: Record) -> bool {
    &&& !record.is_empty
    &&& record.title matches Some(title)
    &&& title != untitled_label()
}

/// The tier of a record in the listing: 0 with a real title, 1 without,
/// 2 for an empty file.
pub open spec fn tier(record: Record) -> int {
    if record.is_empty {
        2
    } else if has_title(record) {
        0
    } else {
        1
    }
}

/// Whether `a` is listed strictly before `b`. A lower tier comes first.
/// Within a tier a record with a timestamp comes before one without, a
/// later timestamp before an earlier one, and of two records without a
/// timestamp the one whose path comes first. Records of one tier with
/// equal timestamps are tied.
pub open spec fn listed_before(a: Record, b: Record) -> bool {
    tier(a) < tier(b) || (tier(a) == tier(b) && match (a.timestamp, b.timestamp) {
        (Some(mine), Some(other)) => is_later(mine, other),
        (Some(_), None) => true,
        (None, Some(_)) => false,
        (None, None) => path_before(a.path, b.path),
    })
}

impl Conversation {
    /// The tier of this record in the listing.
    pub fn tier(&self) -> (t: u8)
        ensures
            t == tier(self@),
    {
        if self.is_empty {
            2
        } else {
            match &self.title {
                Some(title) => if str_equals(title.as_str(), "[No title]") {
                    1
                } else {
                    0
                },
                None => 1,
            }
        }
    }
}

impl Ranked for Conversation {
    open spec fn before(a: Record, b: Record) -> bool {
        listed_before(a, b)
    }

    fn comes_before(&self, other: &Self) -> (first: bool) {
        let mine = self.tier();
        let theirs = other.tier();
        if mine != theirs {
            return mine < theirs;
        }
        match (&self.timestamp, &other.timestamp) {
            (Some(a), Some(b)) => a.later_than(b),
            (Some(_), None) => true,
            (None, Some(_)) => false,
            (None, None) => {
                let a = chars_of(self.path.as_str());
                let b = chars_of(other.path.as_str());
                comes_before(&a, &b, true)
            },
        }
    }

    proof fn lemma_strict_weak(a: Record, b: Record, c: Record) {
        lemma_lex_strict_weak(a.path, a.path, a.path, true);
        lemma_lex_strict_weak(a.path, b.path, c.path, true);
    }
}

/// The title under which a record is shown: the label of the empty for an
/// empty file, else its title, else the label of the untitled.
pub fn get_display_title(conv: &Conversation) -> (title: String)
    ensures
        title@ == display_title(conv@),
{
    if conv.is_empty {
        String::from_str("[Empty]")
    } else {
        match &conv.title {
            Some(title) => title.clone(),
            None => String::from_str("[No title]"),
        }
    }
}

/// The title column of a list row for a record.
pub fn get_row_title(conv: &Conversation) -> (title: String)
    ensures
        title@ == row_title(conv@),
{
    let shown = get_display_title(conv);
    let marked = if conv.is_active {
        String::from_str("*").concat(shown.as_str())
    } else {
        shown
    };
    let chars = chars_of(marked.as_str());
    if chars.len() > 48 {
        let cut = string_between(&chars, 0, 48);
        assert(chars@.subrange(0, 48) =~= chars@.take(48));
        cut
    } else {
        string_of(&chars)
    }
}

/// Number of records among the first `n` that are flagged active.
pub open spec fn active_among(list: Seq<Conversation>, n: int) -> nat
    decreases n,
{
    if n <= 0 {
        0
    } else {
        active_among(list, n - 1) + if list[n - 1].is_active {
            1nat
        } else {
            0nat
        }
    }
}

/// Number of records that are flagged active.
pub fn count_active(list: &Vec<Conversation>) -> (n: usize)
    ensures
        n == active_among(list@, list@.len() as int),
{
    let mut n: usize = 0;
    let mut i: usize = 0;
    while i < list.len()
        invariant
            i <= list.len(),
            n <= i,
            n == active_among(list@, i as int),
        decreases list.len() - i,
    {
        if list[i].is_active {
            n += 1;
        }
        i += 1;
    }
    n
}

/// The tier decides first: a record with a real title is listed before
/// any record without one, and a record of a file with content before any
/// record of an empty file, whatever their timestamps.
pub proof fn lemma_tier_comes_first(a: Record, b: Record)
    ensures
        tier(a) < tier(b) ==> listed_before(a, b) && !listed_before(b, a),
        has_title(a) && !has_title(b) ==> listed_before(a, b),
        !a.is_empty && b.is_empty ==> listed_before(a, b),
{
}

/// Within a tier the timestamp decides: the later one comes first, and any
/// timestamp comes before none.
pub proof fn lemma_timestamp_comes_next(a: Record, b: Record)
    requires
        tier(a) == tier(b),
    ensures
        a.timestamp is Some && b.timestamp is Some && is_later(a.timestamp->0, b.timestamp->0)
            ==> listed_before(a, b) && !listed_before(b, a),
        a.timestamp is Some && b.timestamp is None ==> listed_before(a, b) && !listed_before(
            b,
            a,
        ),
{
}

/// Two records without timestamps in one tier are tied only if their
/// paths are the same.
pub proof fn lemma_path_breaks_ties(a: Record, b: Record)
    requires
        tier(a) == tier(b),
        a.timestamp is None,
        b.timestamp is None,
        a.path != b.path,
    ensures
        listed_before(a, b) || listed_before(b, a),
{
    lemma_lex_total(a.path, b.path, true);
}

/// What a sorted list looks like: records with a real title stand before
/// records without, and these before the records of empty files; within a
/// tier the records with a timestamp stand before those without, and no
/// record stands behind one with an earlier timestamp.
pub proof fn lemma_sorted_listing(list: Seq<Record>)
    requires
        is_sorted::<Conversation>(list),
    ensures
        forall|i: int, j: int|
            #![trigger list[i], list[j]]
            0 <= i < j < list.len() ==> tier(list[i]) <= tier(list[j]),
        forall|i: int, j: int|
            #![trigger list[i], list[j]]
            0 <= i < j < list.len() && tier(list[i]) == tier(list[j]) && list[j].timestamp is Some
                ==> list[i].timestamp is Some && !is_later(
                list[j].timestamp->0,
                list[i].timestamp->0,
            ),
{
    assert forall|i: int, j: int|
        #![trigger list[i], list[j]]
        0 <= i < j < list.len() implies tier(list[i]) <= tier(list[j]) by {
        assert(!Conversation::before(list[j], list[i]));
    }
    assert forall|i: int, j: int|
        #![trigger list[i], list[j]]
        0 <= i < j < list.len() && tier(list[i]) == tier(list[j])
            && list[j].timestamp is Some implies list[i].timestamp is Some && !is_later(
        list[j].timestamp->0,
        list[i].timestamp->0,
    ) by {
        assert(!Conversation::before(list[j], list[i]));
    }
}

} // verus!
