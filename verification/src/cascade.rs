//! What goes with a conversation when it is deleted.
//!
//! An agent transcript names the session that started it on its first
//! line; the session's own transcript knows nothing of its agents. So the
//! agents of a conversation are found by going through its siblings.
//! Deleting the files is left to the caller, in this order: the transcript
//! itself and then its sidecar folder, where a failure ends the deletion,
//! and then the agents, where a failure is passed over.

use crate::conversation::{Conversation, Record};
use crate::flags::{
    chosen, chosen_below, count_flags, count_set, indices_of, lemma_all_set, lemma_chosen_below,
    lemma_count_set_bound, lemma_nothing_chosen, lemma_nothing_set,
};
use crate::names::{is_agent, is_agent_file, is_agent_name, transcript_stem_of};
use crate::text::str_equals;
use crate::transcript::Entry;
use vstd::prelude::*;

verus! {

/// A file beside the conversation that is deleted.
#[derive(Clone, Debug, PartialEq, Eq)]
pub struct Sibling {
    /// The file's name inside the workspace folder, extension included.
    pub name: String,
    /// The record on the file's first line: `None` where the file could
    /// not be read, has no line, or its first line is no record.
    pub first_line: Option<Entry>,
}

/// Why a deletion ended early.
#[derive(Clone, Copy, Debug, PartialEq, Eq, Structural)]
pub enum Failure {
    /// The transcript file could not be removed.
    Transcript,
    /// The sidecar folder could not be removed.
    Sidecar,
}

/// What a deletion does next.
#[derive(Clone, Copy, Debug, PartialEq, Eq, Structural)]
pub enum Step {
    /// Remove the transcript file.
    RemoveTranscript,
    /// Remove the sidecar folder, if it is still there.
    RemoveSidecar,
    /// Go through the siblings and remove the agents among them.
    RemoveAgents,
    /// Nothing is left to do.
    Finished,
    /// The deletion ended early.
    Failed(Failure),
}

/// Whether siblings are looked at when the conversation with this session
/// id is deleted: only for a conversation that is no agent itself.
pub open spec fn scans_siblings(session_id: Seq<char>) -> bool {
    !is_agent_name(session_id)
}

/// What follows the removal of transcript and sidecar: the agents, for a
/// conversation that is no agent itself.
pub open spec fn step_after_sidecar(record: Record) -> Step {
    if scans_siblings(record.session_id) {
        Step::RemoveAgents
    } else {
        Step::Finished
    }
}

/// The step that follows `step`, which succeeded or not. A failure to
/// remove the transcript or the sidecar folder ends the deletion; whatever
/// happens to the agents does not. A sidecar folder that is no longer
/// there counts as removed.
pub open spec fn step_after(record: Record, step: Step, succeeded: bool) -> Step {
    match step {
        Step::RemoveTranscript => if !succeeded {
            Step::Failed(Failure::Transcript)
        } else if record.folder_path is Some {
            Step::RemoveSidecar
        } else {
            step_after_sidecar(record)
        },
        Step::RemoveSidecar => if !succeeded {
            Step::Failed(Failure::Sidecar)
        } else {
            step_after_sidecar(record)
        },
        Step::RemoveAgents => Step::Finished,
        Step::Finished => Step::Finished,
        Step::Failed(failure) => Step::Failed(failure),
    }
}

/// Whether a first line names the session.
pub open spec fn names_session(first_line: Option<Entry>, session_id: Seq<char>) -> bool {
    &&& first_line matches Some(entry)
    &&& entry.session_id matches Some(named)
    &&& named@ == session_id
}

/// Whether a sibling goes with the conversation: it is an agent
/// transcript whose first line names the conversation's session.
pub open spec fn goes_with(sibling: Sibling, session_id: Seq<char>) -> bool {
    is_agent_file(sibling.name@) && names_session(sibling.first_line, session_id)
}

/// For each sibling, whether it is deleted with the conversation.
pub open spec fn cascade_flags(session_id: Seq<char>, siblings: Seq<Sibling>) -> Seq<bool> {
    Seq::new(
        siblings.len(),
        |i: int| scans_siblings(session_id) && goes_with(siblings[i], session_id),
    )
}

/// The positions of the siblings that are deleted with the conversation,
/// in ascending order.
pub open spec fn cascade_targets(session_id: Seq<char>, siblings: Seq<Sibling>) -> Seq<usize> {
    chosen(cascade_flags(session_id, siblings))
}

/// Number of files gone after a deletion: the transcript itself and every
/// agent whose removal succeeded.
pub open spec fn files_removed(outcomes: Seq<bool>) -> nat {
    1 + count_set(outcomes)
}

/// The step with which every deletion begins.
pub fn first_step() -> (step: Step)
    ensures
        step == Step::RemoveTranscript,
{
    Step::RemoveTranscript
}

/// The step that follows `step` in the deletion of `conv`, given whether
/// `step` succeeded.
pub fn next_step(conv: &Conversation, step: Step, succeeded: bool) -> (next: Step)
    ensures
        next == step_after(conv@, step, succeeded),
{
    match step {
        Step::RemoveTranscript => {
            if !succeeded {
                Step::Failed(Failure::Transcript)
            } else if conv.folder_path.is_some() {
                Step::RemoveSidecar
            } else if needs_sibling_scan(conv) {
                Step::RemoveAgents
            } else {
                Step::Finished
            }
        },
        Step::RemoveSidecar => {
            if !succeeded {
                Step::Failed(Failure::Sidecar)
            } else if needs_sibling_scan(conv) {
                Step::RemoveAgents
            } else {
                Step::Finished
            }
        },
        Step::RemoveAgents => Step::Finished,
        Step::Finished => Step::Finished,
        Step::Failed(failure) => Step::Failed(failure),
    }
}

/// Whether the siblings of a conversation are looked at when it is
/// deleted.
pub fn needs_sibling_scan(conv: &Conversation) -> (needed: bool)
    ensures
        needed == scans_siblings(conv@.session_id),
{
    !is_agent(conv.session_id.as_str())
}

/// Whether a file name is that of an agent transcript.
pub fn is_agent_transcript(file_name: &str) -> (agent: bool)
    ensures
        agent == is_agent_file(file_name@),
{
    match transcript_stem_of(file_name) {
        Some(stem) => is_agent(stem.as_str()),
        None => false,
    }
}

/// Whether the first line of a file names the session.
pub fn refers_to(first_line: &Option<Entry>, session_id: &str) -> (named: bool)
    ensures
        named == names_session(*first_line, session_id@),
{
    match first_line {
        Some(entry) => match &entry.session_id {
            Some(named) => str_equals(named.as_str(), session_id),
            None => false,
        },
        None => false,
    }
}

/// The siblings that are deleted with a conversation, by position in
/// ascending order. A conversation that is an agent itself takes no
/// sibling with it. Any other takes every agent transcript whose first
/// line names its session, and no other file.
pub fn plan_cascade(conv: &Conversation, siblings: &Vec<Sibling>) -> (targets: Vec<usize>)
    ensures
        targets@ == cascade_targets(conv@.session_id, siblings@),
        !scans_siblings(conv@.session_id) ==> targets@.len() == 0,
{
    let scan = needs_sibling_scan(conv);
    let mut flags: Vec<bool> = Vec::new();
    let mut i: usize = 0;
    while i < siblings.len()
        invariant
            i <= siblings.len(),
            scan == scans_siblings(conv@.session_id),
            flags@ =~= cascade_flags(conv@.session_id, siblings@.take(i as int)),
        decreases siblings.len() - i,
    {
        let sibling = &siblings[i];
        let taken = scan && is_agent_transcript(sibling.name.as_str()) && refers_to(
            &sibling.first_line,
            conv.session_id.as_str(),
        );
        flags.push(taken);
        i += 1;
    }
    proof {
        assert(siblings@.take(siblings@.len() as int) =~= siblings@);
        if !scans_siblings(conv@.session_id) {
            lemma_agent_takes_nothing(conv@.session_id, siblings@);
        }
    }
    indices_of(&flags)
}

/// Number of files gone after a deletion whose agents were removed with
/// the given outcomes, one per planned agent, `true` for a success.
pub fn count_removed(outcomes: &Vec<bool>) -> (removed: usize)
    requires
        outcomes.len() < usize::MAX,
    ensures
        removed == files_removed(outcomes@),
{
    proof {
        lemma_count_set_bound(outcomes@);
    }
    1 + count_flags(outcomes)
}

/// Deleting an agent conversation takes no sibling with it.
pub proof fn lemma_agent_takes_nothing(session_id: Seq<char>, siblings: Seq<Sibling>)
    requires
        !scans_siblings(session_id),
    ensures
        cascade_targets(session_id, siblings).len() == 0,
        count_set(cascade_flags(session_id, siblings)) == 0,
{
    let flags = cascade_flags(session_id, siblings);
    lemma_nothing_set(flags);
    lemma_nothing_chosen(flags, flags.len() as int);
}

/// The deletion of an agent conversation never comes to the step that
/// goes through the siblings, and no deletion comes to it after a failure.
pub proof fn lemma_agent_never_scans(record: Record, step: Step, succeeded: bool)
    requires
        step != Step::RemoveAgents,
    ensures
        !scans_siblings(record.session_id) ==> step_after(record, step, succeeded)
            != Step::RemoveAgents,
        !succeeded ==> step_after(record, step, succeeded) != Step::RemoveAgents,
        step is Failed ==> step_after(record, step, succeeded) == step,
{
}

/// Deleting a conversation that is no agent plans the removal of exactly
/// those siblings that are agent transcripts naming its session. Where
/// each removal succeeds, one file more than there are such agents is
/// gone.
pub proof fn lemma_cascade_removes_all_agents(
    session_id: Seq<char>,
    siblings: Seq<Sibling>,
    outcomes: Seq<bool>,
)
    requires
        scans_siblings(session_id),
        siblings.len() <= usize::MAX,
        outcomes.len() == cascade_targets(session_id, siblings).len(),
        forall|k: int| 0 <= k < outcomes.len() ==> outcomes[k],
    ensures
        forall|i: int|
            0 <= i < siblings.len() ==> (goes_with(siblings[i], session_id)
                <==> cascade_targets(session_id, siblings).contains(i as usize)),
        cascade_targets(session_id, siblings).len() == count_set(
            cascade_flags(session_id, siblings),
        ),
        files_removed(outcomes) == 1 + count_set(cascade_flags(session_id, siblings)),
{
    let flags = cascade_flags(session_id, siblings);
    let targets = cascade_targets(session_id, siblings);
    lemma_chosen_below(flags, flags.len() as int);
    assert(flags.take(flags.len() as int) =~= flags);
    lemma_all_set(outcomes);
    assert forall|i: int| 0 <= i < siblings.len() implies (goes_with(siblings[i], session_id)
        <==> targets.contains(i as usize)) by {
        assert(flags[i] == goes_with(siblings[i], session_id));
        if targets.contains(i as usize) {
            let k = choose|k: int| 0 <= k < targets.len() && targets[k] == i as usize;
            assert(flags[targets[k] as int]);
        }
        if flags[i] {
            assert(chosen_below(flags, flags.len() as int).contains(i as usize));
        }
    }
}

} // verus!
