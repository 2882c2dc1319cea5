//! What a transcript says about itself: a title, the time of its last
//! event, and whether it holds nothing but cache-priming traffic.
//!
//! A transcript is a list of lines. A line that could not be read as a
//! record is `None`; it counts for nothing and stops nothing.

use crate::text::{
    begins_with, chars_of, first_line, first_line_of, replace_char, replaced, same_text, shorten,
    shortened, str_begins_with, str_equals, string_of, trim, trimmed,
};
use crate::timestamp::{last_present, latest, parse_timestamp, parsed_instant, Timestamp};
use vstd::prelude::*;

verus! {

/// One segment of a message whose content is a list. `kind` and `text` hold
/// the segment's `type` and `text` fields where these are strings, and are
/// `None` otherwise, as for a segment that is no object at all.
#[derive(Clone, Debug, PartialEq, Eq)]
pub struct Segment {
    pub kind: Option<String>,
    pub text: Option<String>,
}

/// The content of a message: a plain string, a list of segments, or any
/// other value.
#[derive(Clone, Debug, PartialEq, Eq)]
pub enum Content {
    Text(String),
    Segments(Vec<Segment>),
    Other,
}

/// The message payload of a record.
#[derive(Clone, Debug, PartialEq, Eq)]
pub struct Message {
    pub content: Option<Content>,
}

/// One record of a transcript. Every field is optional.
#[derive(Clone, Debug, PartialEq, Eq)]
pub struct Entry {
    pub entry_type: Option<String>,
    pub message: Option<Message>,
    pub timestamp: Option<String>,
    pub session_id: Option<String>,
}

/// Text that the editor injects begins with this.
pub open spec fn injected_prefix() -> Seq<char> {
    "<ide_"@
}

/// The text of a cache-priming message.
pub open spec fn warmup_text() -> Seq<char> {
    "Warmup"@
}

/// Titles are cut to this many characters.
pub open spec fn title_limit() -> int {
    50
}

/// A segment that can give a message its text: tagged `text`, with a text
/// that the editor did not inject.
pub open spec fn is_usable_segment(segment: Segment) -> bool {
    &&& segment.kind matches Some(kind)
    &&& kind@ == "text"@
    &&& segment.text matches Some(text)
    &&& !injected_prefix().is_prefix_of(text@)
}

/// The text of the first usable segment, empty if there is none.
pub open spec fn segments_text(segments: Seq<Segment>) -> Seq<char>
    decreases segments.len(),
{
    if segments.len() == 0 {
        Seq::empty()
    } else if is_usable_segment(segments[0]) {
        segments[0].text->0@
    } else {
        segments_text(segments.drop_first())
    }
}

/// The text of a content value before it is cleaned up.
pub open spec fn raw_text(content: Content) -> Seq<char> {
    match content {
        Content::Text(text) => text@,
        Content::Segments(segments) => segments_text(segments@),
        Content::Other => Seq::empty(),
    }
}

/// The text of a content value: the first line of its raw text, trimmed,
/// with each tab turned into a space.
pub open spec fn content_text(content: Content) -> Seq<char> {
    replaced(trimmed(first_line(raw_text(content))), '\t', ' ')
}

/// A text that can serve as a title: not empty, not the cache-priming
/// text, not injected by the editor.
pub open spec fn qualifies(text: Seq<char>) -> bool {
    &&& text.len() > 0
    &&& text != warmup_text()
    &&& !injected_prefix().is_prefix_of(text)
}

/// Whether a record was written by the user.
pub open spec fn is_user(entry: Entry) -> bool {
    entry.entry_type matches Some(kind) && kind@ == "user"@
}

/// The qualifying text that a line offers: that of a user record with a
/// message whose content has one.
pub open spec fn offered_text(line: Option<Entry>) -> Option<Seq<char>> {
    match line {
        Some(entry) => if is_user(entry) && entry.message is Some
            && entry.message->0.content is Some && qualifies(
            content_text(entry.message->0.content->0),
        ) {
            Some(content_text(entry.message->0.content->0))
        } else {
            None
        },
        None => None,
    }
}

/// The title of a transcript: the first offered text in line order, cut to
/// the title limit.
pub open spec fn title_of(lines: Seq<Option<Entry>>) -> Option<Seq<char>>
    decreases lines.len(),
{
    if lines.len() == 0 {
        None
    } else if offered_text(lines[0]) is Some {
        Some(shortened(offered_text(lines[0])->0, title_limit()))
    } else {
        title_of(lines.drop_first())
    }
}

/// A transcript in which no line offers a text.
pub open spec fn warmup_only(lines: Seq<Option<Entry>>) -> bool {
    forall|i: int| 0 <= i < lines.len() ==> (#[trigger] offered_text(lines[i])) is None
}

/// The point in time that a line carries, if it carries one that can be
/// read.
pub open spec fn line_stamp(line: Option<Entry>) -> Option<Timestamp> {
    match line {
        Some(entry) => match entry.timestamp {
            Some(text) => parsed_instant(text@),
            None => None,
        },
        None => None,
    }
}

/// The readings of all lines, in line order.
pub open spec fn line_stamps(lines: Seq<Option<Entry>>) -> Seq<Option<Timestamp>> {
    lines.map_values(|line: Option<Entry>| line_stamp(line))
}

/// The raw text of a list of segments.
fn first_usable_text(segments: &Vec<Segment>) -> (raw: Vec<char>)
    ensures
        raw@ == segments_text(segments@),
{
    let mut i: usize = 0;
    assert(segments@.skip(0) =~= segments@);
    while i < segments.len()
        invariant
            i <= segments.len(),
            segments_text(segments@) == segments_text(segments@.skip(i as int)),
        decreases segments.len() - i,
    {
        let segment = &segments[i];
        assert(segments@.skip(i as int)[0] == segments@[i as int]);
        assert(segments@.skip(i as int).drop_first() =~= segments@.skip(i + 1));
        match (&segment.kind, &segment.text) {
            (Some(kind), Some(text)) => {
                if str_equals(kind.as_str(), "text") && !str_begins_with(text.as_str(), "<ide_") {
                    return chars_of(text.as_str());
                }
            },
            _ => {},
        }
        i += 1;
    }
    Vec::new()
}

/// The text of a content value, cleaned up, as characters.
fn content_chars(content: &Content) -> (clean: Vec<char>)
    ensures
        clean@ == content_text(*content),
{
    let raw: Vec<char> = match content {
        Content::Text(text) => chars_of(text.as_str()),
        Content::Segments(segments) => first_usable_text(segments),
        Content::Other => Vec::new(),
    };
    let line = first_line_of(&raw);
    let kept = trim(&line);
    replace_char(&kept, '\t', ' ')
}

/// The text of a content value: of a string the string, of a list the text
/// of its first usable segment, of anything else nothing; then only the
/// first line of it, trimmed, with tabs turned into spaces.
pub fn extract_text_from_content(content: &Content) -> (text: String)
    ensures
        text@ == content_text(*content),
{
    let clean = content_chars(content);
    string_of(&clean)
}

/// Whether a text can serve as a title.
pub fn is_qualifying_text(text: &Vec<char>) -> (good: bool)
    ensures
        good == qualifies(text@),
{
    if text.len() == 0 {
        return false;
    }
    let warmup = chars_of("Warmup");
    if same_text(text, &warmup) {
        return false;
    }
    let injected = chars_of("<ide_");
    !begins_with(text, &injected)
}

/// The qualifying text that a line offers.
fn offered(line: &Option<Entry>) -> (text: Option<Vec<char>>)
    ensures
        text is Some <==> offered_text(*line) is Some,
        text matches Some(found) ==> found@ == offered_text(*line)->0,
{
    match line {
        Some(entry) => {
            let by_user = match &entry.entry_type {
                Some(kind) => str_equals(kind.as_str(), "user"),
                None => false,
            };
            if !by_user {
                return None;
            }
            match &entry.message {
                Some(message) => match &message.content {
                    Some(content) => {
                        let clean = content_chars(content);
                        if is_qualifying_text(&clean) {
                            Some(clean)
                        } else {
                            None
                        }
                    },
                    None => None,
                },
                None => None,
            }
        },
        None => None,
    }
}

/// The title of a transcript: the text of the first line, in file order,
/// that is a user record with a qualifying text, cut to 50 characters with
/// three dots after the cut. `None` exactly when no line offers a text.
pub fn extract_title(lines: &Vec<Option<Entry>>) -> (title: Option<String>)
    ensures
        title is Some <==> title_of(lines@) is Some,
        title matches Some(found) ==> found@ == title_of(lines@)->0,
{
    let mut i: usize = 0;
    assert(lines@.skip(0) =~= lines@);
    while i < lines.len()
        invariant
            i <= lines.len(),
            title_of(lines@) == title_of(lines@.skip(i as int)),
        decreases lines.len() - i,
    {
        assert(lines@.skip(i as int)[0] == lines@[i as int]);
        assert(lines@.skip(i as int).drop_first() =~= lines@.skip(i + 1));
        match offered(&lines[i]) {
            Some(text) => {
                return Some(shorten(&text, 50));
            },
            None => {},
        }
        i += 1;
    }
    None
}

/// Whether a transcript holds nothing that can serve as a title: no line
/// at all is a user record with a qualifying text.
pub fn is_warmup_only(lines: &Vec<Option<Entry>>) -> (warmup: bool)
    ensures
        warmup == warmup_only(lines@),
{
    let mut i: usize = 0;
    while i < lines.len()
        invariant
            i <= lines.len(),
            forall|j: int| 0 <= j < i ==> (#[trigger] offered_text(lines@[j])) is None,
        decreases lines.len() - i,
    {
        if offered(&lines[i]).is_some() {
            return false;
        }
        i += 1;
    }
    true
}

/// The time of the last event of a transcript: of all lines whose
/// timestamp can be read, the reading of the last one in file order, not
/// the latest in time.
pub fn extract_timestamp(lines: &Vec<Option<Entry>>) -> (stamp: Option<Timestamp>)
    ensures
        stamp == last_present(line_stamps(lines@)),
{
    let mut stamps: Vec<Option<Timestamp>> = Vec::new();
    let mut i: usize = 0;
    while i < lines.len()
        invariant
            i <= lines.len(),
            stamps@ =~= line_stamps(lines@.take(i as int)),
        decreases lines.len() - i,
    {
        let reading = match &lines[i] {
            Some(entry) => match &entry.timestamp {
                Some(text) => parse_timestamp(text.as_str()),
                None => None,
            },
            None => None,
        };
        stamps.push(reading);
        i += 1;
    }
    assert(lines@.take(lines@.len() as int) =~= lines@);
    latest(&stamps)
}

/// A transcript has a title exactly when it is not warmup-only: the two
/// go by the same test of what a line offers.
pub proof fn lemma_title_iff_not_warmup_only(lines: Seq<Option<Entry>>)
    ensures
        title_of(lines) is None <==> warmup_only(lines),
    decreases lines.len(),
{
    if lines.len() > 0 {
        let rest = lines.drop_first();
        lemma_title_iff_not_warmup_only(rest);
        if offered_text(lines[0]) is None {
            if warmup_only(rest) {
                assert forall|i: int| 0 <= i < lines.len() implies (#[trigger] offered_text(
                    lines[i],
                )) is None by {
                    if i > 0 {
                        assert(lines[i] == rest[i - 1]);
                    }
                }
            } else {
                let j = choose|j: int| 0 <= j < rest.len() && !((#[trigger] offered_text(
                    rest[j],
                )) is None);
                assert(lines[j + 1] == rest[j]);
            }
        }
    }
}

/// The title comes from the first line that offers a text: every line
/// before it offers none, and the title is that text cut to the limit.
pub proof fn lemma_title_from_first_offer(lines: Seq<Option<Entry>>, first: int)
    requires
        0 <= first < lines.len(),
        offered_text(lines[first]) is Some,
        forall|j: int| 0 <= j < first ==> (#[trigger] offered_text(lines[j])) is None,
    ensures
        title_of(lines) == Some(shortened(offered_text(lines[first])->0, title_limit())),
    decreases first,
{
    if first > 0 {
        let rest = lines.drop_first();
        assert(offered_text(lines[0]) is None);
        assert forall|j: int| 0 <= j < first - 1 implies (#[trigger] offered_text(
            rest[j],
        )) is None by {
            assert(rest[j] == lines[j + 1]);
        }
        assert(rest[first - 1] == lines[first]);
        lemma_title_from_first_offer(rest, first - 1);
    }
}

/// A title is never empty and never longer than the limit and the three
/// dots that mark a cut.
pub proof fn lemma_title_length(lines: Seq<Option<Entry>>)
    requires
        title_of(lines) is Some,
    ensures
        0 < title_of(lines)->0.len() <= title_limit() + 3,
    decreases lines.len(),
{
    reveal_strlit("...");
    if offered_text(lines[0]) is None {
        lemma_title_length(lines.drop_first());
    }
}

} // verus!
