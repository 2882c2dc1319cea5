//! Cleaning up in bulk: which records a cleanup takes, what is left after
//! it, and how a run of deletions is summed up.

use crate::conversation::{empty_label, warmup_label, Conversation, Record};
use crate::flags::{chosen, count_flags, count_set, indices_of};
use crate::ranking::views;
use crate::text::str_equals;
use vstd::prelude::*;
use vstd::string::StringExecFns;

verus! {

/// Whether a record is a warmup agent: its title is the warmup label.
pub open spec fn is_warmup(record: Record) -> bool {
    record.title == Some(warmup_label())
}

/// Whether a cleanup takes a record: an empty one where `empty` is set, a
/// warmup agent where `warmup` is set.
pub open spec fn is_taken(record: Record, empty: bool, warmup: bool) -> bool {
    (empty && record.is_empty) || (warmup && is_warmup(record))
}

/// For each record, whether the cleanup takes it.
pub open spec fn taken_flags(list: Seq<Record>, empty: bool, warmup: bool) -> Seq<bool> {
    Seq::new(list.len(), |i: int| is_taken(list[i], empty, warmup))
}

/// The records among the first `n` that the cleanup leaves, in order.
pub open spec fn left_over(list: Seq<Record>, n: int, empty: bool, warmup: bool) -> Seq<Record>
    decreases n,
{
    if n <= 0 {
        Seq::empty()
    } else if is_taken(list[n - 1], empty, warmup) {
        left_over(list, n - 1, empty, warmup)
    } else {
        left_over(list, n - 1, empty, warmup).push(list[n - 1])
    }
}

/// The label under which a cleanup lists a record.
pub open spec fn cleanup_label(record: Record) -> Seq<char> {
    if record.is_empty {
        empty_label()
    } else {
        warmup_label()
    }
}

/// How a run of deletions ended.
#[derive(Clone, Copy, Debug, PartialEq, Eq, Structural)]
pub enum Outcome {
    /// Nothing failed.
    Success,
    /// Some deletions failed and some succeeded.
    PartialFailure,
    /// Every deletion failed.
    AllFailed,
}

/// The running sums of a run of deletions.
#[derive(Clone, Copy, Debug, PartialEq, Eq, Structural)]
pub struct Tally {
    /// Conversations deleted.
    pub deleted: usize,
    /// Files removed with them, agents included.
    pub files: usize,
    /// Conversations whose deletion failed.
    pub errors: usize,
}

/// The sums after one more conversation was deleted, `files` files with
/// it.
pub open spec fn after_success(tally: Tally, files: usize) -> Tally {
    Tally {
        deleted: (tally.deleted + 1) as usize,
        files: (tally.files + files) as usize,
        errors: tally.errors,
    }
}

/// The sums after one more deletion failed.
pub open spec fn after_failure(tally: Tally) -> Tally {
    Tally { errors: (tally.errors + 1) as usize, ..tally }
}

/// How a run with these sums ended.
pub open spec fn outcome_of(tally: Tally) -> Outcome {
    if tally.errors == 0 {
        Outcome::Success
    } else if tally.deleted == 0 {
        Outcome::AllFailed
    } else {
        Outcome::PartialFailure
    }
}

/// Whether a record is a warmup agent.
pub fn is_warmup_agent(conv: &Conversation) -> (warmup: bool)
    ensures
        warmup == is_warmup(conv@),
{
    match &conv.title {
        Some(title) => str_equals(title.as_str(), "[Warmup]"),
        None => false,
    }
}

/// Whether a cleanup takes a record.
pub fn takes(conv: &Conversation, empty: bool, warmup: bool) -> (taken: bool)
    ensures
        taken == is_taken(conv@, empty, warmup),
{
    (empty && conv.is_empty) || (warmup && is_warmup_agent(conv))
}

/// For each record, whether the cleanup takes it.
fn flags_of(list: &Vec<Conversation>, empty: bool, warmup: bool) -> (flags: Vec<bool>)
    ensures
        flags@ == taken_flags(views(list@), empty, warmup),
{
    let mut flags: Vec<bool> = Vec::new();
    let mut i: usize = 0;
    while i < list.len()
        invariant
            i <= list.len(),
            flags.len() == i,
            forall|j: int| 0 <= j < i ==> flags@[j] == is_taken(list@[j]@, empty, warmup),
        decreases list.len() - i,
    {
        flags.push(takes(&list[i], empty, warmup));
        i += 1;
    }
    assert(flags@ =~= taken_flags(views(list@), empty, warmup));
    flags
}

/// Number of records that a cleanup takes.
pub fn count_taken(list: &Vec<Conversation>, empty: bool, warmup: bool) -> (n: usize)
    ensures
        n == count_set(taken_flags(views(list@), empty, warmup)),
{
    let flags = flags_of(list, empty, warmup);
    count_flags(&flags)
}

/// The positions of the records that a cleanup takes, in ascending order.
pub fn taken_indices(list: &Vec<Conversation>, empty: bool, warmup: bool) -> (picked: Vec<usize>)
    ensures
        picked@ == chosen(taken_flags(views(list@), empty, warmup)),
{
    let flags = flags_of(list, empty, warmup);
    indices_of(&flags)
}

/// The list without the records that a cleanup takes, the others in their
/// order. Records go whether or not their files could be deleted.
pub fn without_taken(list: Vec<Conversation>, empty: bool, warmup: bool) -> (rest: Vec<
    Conversation,
>)
    ensures
        views(rest@) == left_over(views(list@), list@.len() as int, empty, warmup),
{
    let ghost whole = views(list@);
    let mut list = list;
    let total: usize = list.len();
    // Records are moved out from the back, so what is kept comes out in
    // reverse and is turned round afterwards.
    let mut backwards: Vec<Conversation> = Vec::new();
    while list.len() > 0
        invariant
            list.len() <= total == whole.len(),
            views(list@) =~= whole.take(list.len() as int),
            left_over(whole, total as int, empty, warmup) =~= left_over(
                whole,
                list.len() as int,
                empty,
                warmup,
            ) + views(backwards@).reverse(),
        decreases list.len(),
    {
        let ghost before = views(list@);
        let ghost reversed = views(backwards@).reverse();
        let conv = list.pop().unwrap();
        proof {
            assert(before[before.len() - 1] == conv@);
            assert(whole[list.len() as int] == conv@);
        }
        if !takes(&conv, empty, warmup) {
            proof {
                assert(views(backwards@.push(conv)).reverse() =~= seq![conv@] + reversed);
                assert(left_over(whole, list.len() as int, empty, warmup).push(conv@) + reversed
                    =~= left_over(whole, list.len() as int, empty, warmup) + (seq![conv@]
                    + reversed));
            }
            backwards.push(conv);
        }
    }
    let mut kept: Vec<Conversation> = Vec::new();
    proof {
        assert(left_over(whole, 0, empty, warmup) + views(backwards@).reverse() =~= views(
            backwards@,
        ).reverse());
    }
    while backwards.len() > 0
        invariant
            views(kept@) + views(backwards@).reverse() =~= left_over(
                whole,
                total as int,
                empty,
                warmup,
            ),
        decreases backwards.len(),
    {
        let ghost before = views(backwards@);
        let ghost done = views(kept@);
        let conv = backwards.pop().unwrap();
        proof {
            assert(before.reverse() =~= seq![conv@] + views(backwards@).reverse());
            assert(views(kept@.push(conv)) =~= done.push(conv@));
            assert(done.push(conv@) + views(backwards@).reverse() =~= done + before.reverse());
        }
        kept.push(conv);
    }
    proof {
        assert(views(kept@) + views(backwards@).reverse() =~= views(kept@));
    }
    kept
}

/// The label under which a cleanup lists a record: that of the empty for
/// an empty file, that of a warmup agent for any other.
pub fn get_cleanup_label(conv: &Conversation) -> (label: String)
    ensures
        label@ == cleanup_label(conv@),
{
    if conv.is_empty {
        String::from_str("[Empty]")
    } else {
        String::from_str("[Warmup]")
    }
}

impl Tally {
    /// The sums before anything was deleted.
    pub fn new() -> (tally: Tally)
        ensures
            tally == (Tally { deleted: 0, files: 0, errors: 0 }),
    {
        Tally { deleted: 0, files: 0, errors: 0 }
    }

    /// Counts one deleted conversation and the files removed with it.
    pub fn record_success(&mut self, files: usize)
        requires
            old(self).deleted < usize::MAX,
            old(self).files + files <= usize::MAX,
        ensures
            *final(self) == after_success(*old(self), files),
    {
        self.deleted = self.deleted + 1;
        self.files = self.files + files;
    }

    /// Counts one failed deletion. The run goes on after it.
    pub fn record_failure(&mut self)
        requires
            old(self).errors < usize::MAX,
        ensures
            *final(self) == after_failure(*old(self)),
    {
        self.errors = self.errors + 1;
    }

    /// How the run ended: a success without failures, else a partial
    /// failure where something was deleted, else a failure.
    pub fn outcome(&self) -> (how: Outcome)
        ensures
            how == outcome_of(*self),
    {
        if self.errors == 0 {
            Outcome::Success
        } else if self.deleted == 0 {
            Outcome::AllFailed
        } else {
            Outcome::PartialFailure
        }
    }

    /// Whether the run is to be reported as failed to whoever started
    /// the program: whenever a deletion failed.
    pub fn failed(&self) -> (bad: bool)
        ensures
            bad == (outcome_of(*self) != Outcome::Success),
    {
        self.errors > 0
    }
}

/// What a cleanup leaves holds nothing that it takes, and every record
/// that it does not take.
pub proof fn lemma_left_over(list: Seq<Record>, n: int, empty: bool, warmup: bool)
    requires
        0 <= n <= list.len(),
    ensures
        forall|k: int|
            0 <= k < left_over(list, n, empty, warmup).len() ==> !is_taken(
                #[trigger] left_over(list, n, empty, warmup)[k],
                empty,
                warmup,
            ),
        forall|i: int|
            0 <= i < n && !is_taken(list[i], empty, warmup) ==> left_over(
                list,
                n,
                empty,
                warmup,
            ).contains(#[trigger] list[i]),
        left_over(list, n, empty, warmup).len() + count_set(
            taken_flags(list, empty, warmup).take(n),
        ) == n,
    decreases n,
{
    if n > 0 {
        lemma_left_over(list, n - 1, empty, warmup);
        let before = left_over(list, n - 1, empty, warmup);
        let now = left_over(list, n, empty, warmup);
        let flags = taken_flags(list, empty, warmup);
        assert(flags.take(n).drop_last() =~= flags.take(n - 1));
        assert forall|i: int| 0 <= i < n && !is_taken(list[i], empty, warmup) implies now.contains(
            #[trigger] list[i],
        ) by {
            if i < n - 1 {
                let k = choose|k: int| 0 <= k < before.len() && before[k] == list[i];
                assert(now[k] == list[i]);
            } else {
                assert(now[now.len() - 1] == list[i]);
            }
        }
    }
}

} // verus!
