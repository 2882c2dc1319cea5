//! How transcript files are named: the extension that marks a transcript,
//! the session id in front of it, and the prefix that marks an agent.

use crate::text::{begins_with, chars_of, string_between};
use vstd::prelude::*;

verus! {

/// A transcript's file name ends with this.
pub open spec fn transcript_suffix() -> Seq<char> {
    ".jsonl"@
}

/// The base name of an agent transcript begins with this.
pub open spec fn agent_prefix() -> Seq<char> {
    "agent-"@
}

/// The session id in a file name: what stands in front of the transcript
/// extension, for a name that has that extension and something in front of
/// it. Other names belong to no transcript.
pub open spec fn transcript_stem(file_name: Seq<char>) -> Option<Seq<char>> {
    if file_name.len() > transcript_suffix().len() && transcript_suffix().is_suffix_of(
        file_name,
    ) {
        Some(file_name.take(file_name.len() - transcript_suffix().len()))
    } else {
        None
    }
}

/// Whether a session id is that of an agent transcript.
pub open spec fn is_agent_name(stem: Seq<char>) -> bool {
    agent_prefix().is_prefix_of(stem)
}

/// Whether a file name is that of an agent transcript.
pub open spec fn is_agent_file(file_name: Seq<char>) -> bool {
    transcript_stem(file_name) matches Some(stem) && is_agent_name(stem)
}

/// The session id in a file name, `None` for a name that belongs to no
/// transcript.
pub fn transcript_stem_of(file_name: &str) -> (stem: Option<String>)
    ensures
        stem is Some <==> transcript_stem(file_name@) is Some,
        stem matches Some(found) ==> found@ == transcript_stem(file_name@)->0,
{
    let name = chars_of(file_name);
    let suffix = chars_of(".jsonl");
    if name.len() <= suffix.len() {
        return None;
    }
    let cut: usize = name.len() - suffix.len();
    let mut i: usize = 0;
    while i < suffix.len()
        invariant
            i <= suffix.len(),
            cut + suffix.len() == name.len(),
            name@ == file_name@,
            suffix@ == transcript_suffix(),
            forall|j: int| 0 <= j < i ==> name@[cut + j] == suffix@[j],
        decreases suffix.len() - i,
    {
        if name[cut + i] != suffix[i] {
            assert(name@.subrange(cut as int, name@.len() as int)[i as int] != suffix@[i as int]);
            return None;
        }
        i += 1;
    }
    assert(name@.subrange(cut as int, name@.len() as int) =~= suffix@);
    Some(string_between(&name, 0, cut))
}

/// Whether a session id is that of an agent transcript.
pub fn is_agent(stem: &str) -> (agent: bool)
    ensures
        agent == is_agent_name(stem@),
{
    let name = chars_of(stem);
    let prefix = chars_of("agent-");
    begins_with(&name, &prefix)
}

} // verus!
