//! Workspace folders: their encoded names, the paths these stand for, and
//! a summary of what each folder holds.

use crate::lexical::{comes_before, lemma_lex_strict_weak, text_before};
use crate::names::{is_agent, is_agent_file, transcript_stem, transcript_stem_of};
use crate::ranking::{sort_ranked, stable_sorted, views, Ranked};
use crate::text::{
    chars_of, contains, contains_text, last_segment, replace_char, replaced, string_between,
    string_of, tail_start_of,
};
use vstd::prelude::*;

verus! {

/// The character that stands for a path separator in a folder name.
pub open spec fn delimiter() -> char {
    '-'
}

/// The path separator.
pub open spec fn separator() -> char {
    '/'
}

/// The path that an encoded folder name stands for: every delimiter is
/// read as a separator, the first one of a name that begins with it as the
/// root.
pub open spec fn decoded(name: Seq<char>) -> Seq<char> {
    replaced(name, delimiter(), separator())
}

/// The folder name that a path is stored under: every separator is
/// written as a delimiter.
pub open spec fn encoded(path: Seq<char>) -> Seq<char> {
    replaced(path, separator(), delimiter())
}

/// Whether a workspace passes the filter: always without one, else when
/// its folder name or its decoded path holds the filter text.
pub open spec fn workspace_included(name: Seq<char>, filter: Option<Seq<char>>) -> bool {
    match filter {
        Some(wanted) => contains_text(decoded(name), wanted) || contains_text(name, wanted),
        None => true,
    }
}

/// The view of an optional text.
pub open spec fn optional_text(text: Option<&str>) -> Option<Seq<char>> {
    match text {
        Some(t) => Some(t@),
        None => None,
    }
}

/// Number of names among the first `n` that are transcript names.
pub open spec fn transcripts_among(names: Seq<String>, n: int) -> nat
    decreases n,
{
    if n <= 0 {
        0
    } else {
        transcripts_among(names, n - 1) + if transcript_stem(names[n - 1]@) is Some {
            1nat
        } else {
            0nat
        }
    }
}

/// Number of names among the first `n` that are agent transcript names.
pub open spec fn agents_among(names: Seq<String>, n: int) -> nat
    decreases n,
{
    if n <= 0 {
        0
    } else {
        agents_among(names, n - 1) + if is_agent_file(names[n - 1]@) {
            1nat
        } else {
            0nat
        }
    }
}

/// The path that an encoded workspace folder name stands for. The decoding
/// is a best effort: a delimiter that was part of a folder's own name comes
/// back as a separator.
pub fn decode_workspace_name(name: &str) -> (path: String)
    ensures
        path@ == decoded(name@),
{
    let chars = chars_of(name);
    let turned = replace_char(&chars, '-', '/');
    string_of(&turned)
}

/// The last component of a workspace path: what follows its last
/// separator, or all of it where it has none.
pub fn get_short_workspace(path: &str) -> (short: String)
    ensures
        short@ == last_segment(path@, separator()),
{
    let chars = chars_of(path);
    let start = tail_start_of(&chars, '/');
    string_between(&chars, start, chars.len())
}

/// Whether a workspace passes the filter. The test is case-sensitive.
pub fn workspace_matches(name: &str, filter: Option<&str>) -> (included: bool)
    ensures
        included == workspace_included(name@, optional_text(filter)),
{
    match filter {
        Some(wanted) => {
            let name_chars = chars_of(name);
            let path_chars = replace_char(&name_chars, '-', '/');
            let wanted_chars = chars_of(wanted);
            contains(&path_chars, &wanted_chars) || contains(&name_chars, &wanted_chars)
        },
        None => true,
    }
}

/// What a workspace folder holds.
#[derive(Clone, Debug, PartialEq, Eq)]
pub struct WorkspaceSummary {
    /// The folder's encoded name.
    pub name: String,
    /// The path that the name stands for.
    pub path: String,
    /// Number of transcripts in the folder, agents included.
    pub total: usize,
    /// Number of agent transcripts among them.
    pub agents: usize,
}

/// The mathematical value of a [`WorkspaceSummary`].
pub ghost struct SummaryView {
    pub name: Seq<char>,
    pub path: Seq<char>,
    pub total: nat,
    pub agents: nat,
}

impl View for WorkspaceSummary {
    type V = SummaryView;

    open spec fn view(&self) -> SummaryView {
        SummaryView {
            name: self.name@,
            path: self.path@,
            total: self.total as nat,
            agents: self.agents as nat,
        }
    }
}

impl Ranked for WorkspaceSummary {
    /// Summaries are listed by decoded path, character by character.
    open spec fn before(a: SummaryView, b: SummaryView) -> bool {
        text_before(a.path, b.path)
    }

    fn comes_before(&self, other: &Self) -> (first: bool) {
        let mine = chars_of(self.path.as_str());
        let theirs = chars_of(other.path.as_str());
        comes_before(&mine, &theirs, false)
    }

    proof fn lemma_strict_weak(a: SummaryView, b: SummaryView, c: SummaryView) {
        lemma_lex_strict_weak(a.path, b.path, c.path, false);
    }
}

impl WorkspaceSummary {
    /// Number of transcripts that are not agents.
    pub fn chats(&self) -> (n: usize)
        requires
            self.agents <= self.total,
        ensures
            n == self.total - self.agents,
    {
        self.total - self.agents
    }
}

/// Counts the transcripts among the files of a workspace folder.
pub fn summarize_workspace(name: &str, file_names: &Vec<String>) -> (summary: WorkspaceSummary)
    ensures
        summary.name@ == name@,
        summary.path@ == decoded(name@),
        summary.total == transcripts_among(file_names@, file_names@.len() as int),
        summary.agents == agents_among(file_names@, file_names@.len() as int),
        summary.agents <= summary.total,
{
    let mut total: usize = 0;
    let mut agents: usize = 0;
    let mut i: usize = 0;
    while i < file_names.len()
        invariant
            i <= file_names.len(),
            agents <= total <= i,
            total == transcripts_among(file_names@, i as int),
            agents == agents_among(file_names@, i as int),
        decreases file_names.len() - i,
    {
        match transcript_stem_of(file_names[i].as_str()) {
            Some(stem) => {
                total += 1;
                if is_agent(stem.as_str()) {
                    agents += 1;
                }
            },
            None => {},
        }
        i += 1;
    }
    let chars = chars_of(name);
    WorkspaceSummary { name: string_of(&chars), path: decode_workspace_name(name), total, agents }
}

/// The summaries in the order in which they are listed: by decoded path,
/// summaries of one path in the order given.
pub fn sort_workspaces(list: Vec<WorkspaceSummary>) -> (out: Vec<WorkspaceSummary>)
    ensures
        views(out@) == stable_sorted::<WorkspaceSummary>(views(list@)),
        out@.to_multiset() == list@.to_multiset(),
{
    sort_ranked(list)
}

/// A path without delimiters of its own comes back from its folder name
/// unchanged.
pub proof fn lemma_encode_then_decode(path: Seq<char>)
    requires
        !path.contains(delimiter()),
    ensures
        decoded(encoded(path)) == path,
{
    assert forall|i: int| 0 <= i < path.len() implies decoded(encoded(path))[i] == path[i] by {
        assert(path.contains(path[i]));
    }
    assert(decoded(encoded(path)) =~= path);
}

/// A folder name, which holds no separator, is the encoding of the path it
/// decodes to.
pub proof fn lemma_decode_then_encode(name: Seq<char>)
    requires
        !name.contains(separator()),
    ensures
        encoded(decoded(name)) == name,
{
    assert forall|i: int| 0 <= i < name.len() implies encoded(decoded(name))[i] == name[i] by {
        assert(name.contains(name[i]));
    }
    assert(encoded(decoded(name)) =~= name);
}

} // verus!
