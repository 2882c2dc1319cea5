//! Lists of flags: how many are set, which ones, and setting them all.

use vstd::prelude::*;

verus! {

/// Number of flags that are set.
pub open spec fn count_set(flags: Seq<bool>) -> nat
    decreases flags.len(),
{
    if flags.len() == 0 {
        0
    } else {
        count_set(flags.drop_last()) + if flags.last() {
            1nat
        } else {
            0nat
        }
    }
}

/// Positions below `n` whose flag is set, in ascending order.
pub open spec fn chosen_below(flags: Seq<bool>, n: int) -> Seq<usize>
    decreases n,
{
    if n <= 0 {
        Seq::empty()
    } else if flags[n - 1] {
        chosen_below(flags, n - 1).push((n - 1) as usize)
    } else {
        chosen_below(flags, n - 1)
    }
}

/// Positions whose flag is set, in ascending order.
pub open spec fn chosen(flags: Seq<bool>) -> Seq<usize> {
    chosen_below(flags, flags.len() as int)
}

/// Every flag of the list set to `value`.
pub open spec fn all_flags(len: nat, value: bool) -> Seq<bool> {
    Seq::new(len, |i: int| value)
}

/// Sets every flag of `flags` to `value`.
pub fn fill(flags: &mut Vec<bool>, value: bool)
    ensures
        final(flags)@ == all_flags(old(flags)@.len(), value),
{
    let mut i: usize = 0;
    while i < flags.len()
        invariant
            i <= flags.len(),
            flags.len() == old(flags).len(),
            forall|j: int| 0 <= j < i ==> flags@[j] == value,
        decreases flags.len() - i,
    {
        flags.set(i, value);
        i += 1;
    }
    assert(flags@ =~= all_flags(old(flags)@.len(), value));
}

/// Number of flags that are set.
pub fn count_flags(flags: &Vec<bool>) -> (n: usize)
    ensures
        n == count_set(flags@),
{
    let mut n: usize = 0;
    let mut i: usize = 0;
    while i < flags.len()
        invariant
            i <= flags.len(),
            n <= i,
            n == count_set(flags@.take(i as int)),
        decreases flags.len() - i,
    {
        if flags[i] {
            n += 1;
        }
        i += 1;
        assert(flags@.take(i as int).drop_last() =~= flags@.take(i - 1));
    }
    assert(flags@.take(flags@.len() as int) =~= flags@);
    n
}

/// The positions whose flag is set, in ascending order.
pub fn indices_of(flags: &Vec<bool>) -> (picked: Vec<usize>)
    ensures
        picked@ == chosen(flags@),
{
    let mut picked: Vec<usize> = Vec::new();
    let mut i: usize = 0;
    while i < flags.len()
        invariant
            i <= flags.len(),
            picked@ == chosen_below(flags@, i as int),
        decreases flags.len() - i,
    {
        if flags[i] {
            picked.push(i);
        }
        i += 1;
    }
    picked
}

/// A list of equal flags has all of them set or none.
pub proof fn lemma_count_set_uniform(len: nat)
    ensures
        count_set(all_flags(len, false)) == 0,
        count_set(all_flags(len, true)) == len,
    decreases len,
{
    if len > 0 {
        lemma_count_set_uniform((len - 1) as nat);
        assert(all_flags(len, false).drop_last() =~= all_flags((len - 1) as nat, false));
        assert(all_flags(len, true).drop_last() =~= all_flags((len - 1) as nat, true));
    }
}

/// What [`chosen`] holds: exactly the selected positions, each once, in
/// ascending order, as many as [`count_set`] counts.
pub proof fn lemma_chosen_below(flags: Seq<bool>, n: int)
    requires
        0 <= n <= flags.len() <= usize::MAX,
    ensures
        chosen_below(flags, n).len() == count_set(flags.take(n)),
        forall|k: int|
            0 <= k < chosen_below(flags, n).len() ==> 0 <= #[trigger] chosen_below(flags, n)[k] < n
                && flags[chosen_below(flags, n)[k] as int],
        forall|j: int, k: int|
            0 <= j < k < chosen_below(flags, n).len() ==> chosen_below(flags, n)[j]
                < chosen_below(flags, n)[k],
        forall|i: int|
            0 <= i < n && flags[i] ==> chosen_below(flags, n).contains(i as usize),
    decreases n,
{
    if n > 0 {
        lemma_chosen_below(flags, n - 1);
        assert(flags.take(n).drop_last() =~= flags.take(n - 1));
        let before = chosen_below(flags, n - 1);
        let now = chosen_below(flags, n);
        assert forall|i: int| 0 <= i < n && flags[i] implies now.contains(i as usize) by {
            if i < n - 1 {
                let k = choose|k: int| 0 <= k < before.len() && before[k] == i as usize;
                assert(now[k] == i as usize);
            } else {
                assert(now[now.len() - 1] == i as usize);
            }
        }
    }
}

/// No more flags are set than there are.
pub proof fn lemma_count_set_bound(flags: Seq<bool>)
    ensures
        count_set(flags) <= flags.len(),
    decreases flags.len(),
{
    if flags.len() > 0 {
        lemma_count_set_bound(flags.drop_last());
    }
}

/// Where no flag is set, none is counted.
pub proof fn lemma_nothing_set(flags: Seq<bool>)
    requires
        forall|i: int| 0 <= i < flags.len() ==> !flags[i],
    ensures
        count_set(flags) == 0,
    decreases flags.len(),
{
    if flags.len() > 0 {
        lemma_nothing_set(flags.drop_last());
    }
}

/// Where no flag is set, no position is chosen.
pub proof fn lemma_nothing_chosen(flags: Seq<bool>, n: int)
    requires
        0 <= n <= flags.len(),
        forall|i: int| 0 <= i < flags.len() ==> !flags[i],
    ensures
        chosen_below(flags, n).len() == 0,
    decreases n,
{
    if n > 0 {
        lemma_nothing_chosen(flags, n - 1);
    }
}

/// Where every flag is set, all are counted.
pub proof fn lemma_all_set(flags: Seq<bool>)
    requires
        forall|i: int| 0 <= i < flags.len() ==> flags[i],
    ensures
        count_set(flags) == flags.len(),
    decreases flags.len(),
{
    if flags.len() > 0 {
        lemma_all_set(flags.drop_last());
    }
}

} // verus!
