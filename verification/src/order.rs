//! Putting histogram entries in order of their counts.

use vstd::prelude::*;
use vstd::seq_lib::{to_multiset_contains, to_multiset_insert, to_multiset_remove};
use crate::histogram::{ascending_by_count, Entry};

verus! {

/// The test whether an entry has the count `count`.
pub open spec fn has_count(count: usize) -> spec_fn(Entry) -> bool {
    |entry: Entry| entry.1 == count
}

/// The entries of `entries` that have the count `count`, in their order.
pub open spec fn with_count(entries: Seq<Entry>, count: usize) -> Seq<Entry> {
    entries.filter(has_count(count))
}

/// Moving one entry towards the front, past entries of other counts only,
/// leaves the entries of each count in their order.
proof fn lemma_move_keeps_order(before: Seq<Entry>, from: int, to: int, count: usize)
    requires
        0 <= to <= from < before.len(),
        forall|j: int| to <= j < from ==> (#[trigger] before[j]).1 != before[from].1,
    ensures
        with_count(before.remove(from).insert(to, before[from]), count) == with_count(
            before,
            count,
        ),
{
    let test = has_count(count);
    let moved = before[from];
    let head = before.subrange(0, to);
    let passed = before.subrange(to, from);
    let tail = before.subrange(from + 1, before.len() as int);
    let one = Seq::<Entry>::empty().push(moved);
    let after = before.remove(from).insert(to, moved);
    assert(before =~= ((head + passed) + one) + tail);
    assert(after =~= ((head + one) + passed) + tail);
    Seq::filter_distributes_over_add((head + passed) + one, tail, test);
    Seq::filter_distributes_over_add(head + passed, one, test);
    Seq::filter_distributes_over_add(head, passed, test);
    Seq::filter_distributes_over_add((head + one) + passed, tail, test);
    Seq::filter_distributes_over_add(head + one, passed, test);
    Seq::filter_distributes_over_add(head, one, test);
    Seq::<Entry>::empty().lemma_filter_push(moved, test);
    assert(Seq::<Entry>::empty().filter(test) =~= Seq::<Entry>::empty()) by {
        Seq::<Entry>::empty().lemma_filter_len(test);
    }
    if moved.1 == count {
        assert(passed.all(|entry: Entry| !test(entry)));
        passed.lemma_all_neg_filter_empty(test);
        assert(passed.filter(test) =~= Seq::<Entry>::empty());
        assert(after.filter(test) =~= before.filter(test));
    } else {
        assert(one.filter(test) =~= Seq::<Entry>::empty());
        assert(after.filter(test) =~= before.filter(test));
    }
}

/// Sorts `entries` by count, smallest first. Entries with equal counts keep
/// their order.
pub fn sort_by_count(entries: &mut Vec<Entry>)
    ensures
        ascending_by_count(final(entries)@),
        final(entries)@.to_multiset() == old(entries)@.to_multiset(),
        forall|count: usize|
            #[trigger] with_count(final(entries)@, count) == with_count(old(entries)@, count),
{
    let len: usize = entries.len();
    let mut sorted: usize = 0;
    while sorted < len
        invariant
            sorted <= len,
            len == entries@.len(),
            entries@.to_multiset() == old(entries)@.to_multiset(),
            forall|count: usize|
                #[trigger] with_count(entries@, count) == with_count(old(entries)@, count),
            ascending_by_count(entries@.take(sorted as int)),
        decreases len - sorted,
    {
        let count: usize = entries[sorted].1;
        let mut slot: usize = sorted;
        while slot > 0 && entries[slot - 1].1 > count
            invariant
                slot <= sorted < len,
                len == entries@.len(),
                count == entries@[sorted as int].1,
                forall|j: int| slot <= j < sorted ==> (#[trigger] entries@[j]).1 > count,
            decreases slot,
        {
            slot -= 1;
        }
        let ghost before = entries@;
        let taken: Entry = entries.remove(sorted);
        entries.insert(slot, taken);
        proof {
            let after = entries@;
            assert(before[sorted as int] == taken);
            assert(before.contains(taken));
            assert forall|count: usize| #[trigger]
                with_count(after, count) == with_count(old(entries)@, count) by {
                lemma_move_keeps_order(before, sorted as int, slot as int, count);
            }
            let lifted = before.remove(sorted as int);
            assert(after == lifted.insert(slot as int, taken));
            assert(after.to_multiset() =~= before.to_multiset()) by {
                broadcast use vstd::multiset::group_multiset_axioms;

                to_multiset_contains(before, taken);
                to_multiset_remove(before, sorted as int);
                to_multiset_insert(lifted, slot as int, taken);
            }
            assert forall|i: int, j: int| 0 <= i <= j < sorted + 1 implies (#[trigger] after.take(
                sorted + 1,
            )[i]).1 <= (#[trigger] after.take(sorted + 1)[j]).1 by {
                let low = if i < slot {
                    before.take(sorted as int)[i]
                } else if i == slot {
                    taken
                } else {
                    before.take(sorted as int)[i - 1]
                };
                let high = if j < slot {
                    before.take(sorted as int)[j]
                } else if j == slot {
                    taken
                } else {
                    before.take(sorted as int)[j - 1]
                };
                assert(after[i] == low);
                assert(after[j] == high);
                if slot > 0 {
                    assert(before.take(sorted as int)[slot - 1].1 <= taken.1);
                }
            }
        }
        sorted += 1;
    }
    proof {
        assert(entries@.take(len as int) =~= entries@);
    }
}

/// Reverses the order of `entries`.
pub fn reverse(entries: &mut Vec<Entry>)
    ensures
        final(entries)@ == old(entries)@.reverse(),
{
    let len: usize = entries.len();
    let mut low: usize = 0;
    while low < len / 2
        invariant
            len == entries@.len(),
            len == old(entries)@.len(),
            low <= len / 2,
            forall|i: int|
                0 <= i < low ==> {
                    &&& #[trigger] entries@[i] == old(entries)@[len - 1 - i]
                    &&& entries@[len - 1 - i] == old(entries)@[i]
                },
            forall|i: int| low <= i < len - low ==> #[trigger] entries@[i] == old(entries)@[i],
        decreases len - low,
    {
        let high: usize = len - 1 - low;
        let first: Entry = entries[low];
        let second: Entry = entries[high];
        entries.set(low, second);
        entries.set(high, first);
        low += 1;
    }
    proof {
        let reversed = old(entries)@.reverse();
        assert forall|i: int| 0 <= i < len implies entries@[i] == reversed[i] by {
            if len - low <= i {
                let mirror = len - 1 - i;
                assert(entries@[mirror] == old(entries)@[len - 1 - mirror]);
            }
        }
        assert(entries@ =~= reversed);
    }
}

} // verus!
