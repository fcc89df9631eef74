//! What an opcode histogram is: the mathematical model of the analysis, and
//! the laws that follow from it.

use vstd::prelude::*;
use crate::opcode::Opcode;

verus! {

/// One line of a histogram: an opcode and how often it was executed.
pub type Entry = (Opcode, usize);

/// How many positions of `ops` hold `op`.
pub open spec fn occurrences(ops: Seq<Opcode>, op: Opcode) -> nat
    decreases ops.len(),
{
    if ops.len() == 0 {
        0
    } else {
        occurrences(ops.drop_last(), op) + if ops.last() == op {
            1nat
        } else {
            0nat
        }
    }
}

/// The sum of the counts of `entries`.
pub open spec fn total_count(entries: Seq<Entry>) -> nat
    decreases entries.len(),
{
    if entries.len() == 0 {
        0
    } else {
        total_count(entries.drop_last()) + entries.last().1 as nat
    }
}

/// `entries` is a histogram of `ops`: no opcode has two entries, every entry
/// holds the exact, positive number of occurrences of its opcode, and every
/// opcode that occurs has an entry.
pub open spec fn is_histogram(entries: Seq<Entry>, ops: Seq<Opcode>) -> bool {
    &&& forall|i: int, j: int|
        0 <= i < j < entries.len() ==> (#[trigger] entries[i]).0 != (#[trigger] entries[j]).0
    &&& forall|i: int|
        0 <= i < entries.len() ==> {
            &&& (#[trigger] entries[i]).1 > 0
            &&& entries[i].1 == occurrences(ops, entries[i].0)
        }
    &&& forall|op: Opcode|
        (#[trigger] occurrences(ops, op)) > 0 ==> exists|i: int|
            0 <= i < entries.len() && (#[trigger] entries[i]).0 == op
}

/// The counts never decrease from one entry to a later one.
pub open spec fn ascending_by_count(entries: Seq<Entry>) -> bool {
    forall|i: int, j: int|
        0 <= i <= j < entries.len() ==> (#[trigger] entries[i]).1 <= (#[trigger] entries[j]).1
}

/// The counts never increase from one entry to a later one.
pub open spec fn descending_by_count(entries: Seq<Entry>) -> bool {
    forall|i: int, j: int|
        0 <= i <= j < entries.len() ==> (#[trigger] entries[i]).1 >= (#[trigger] entries[j]).1
}

/// An opcode occurs at most as often as the sequence is long.
pub proof fn lemma_occurrences_bound(ops: Seq<Opcode>, op: Opcode)
    ensures
        occurrences(ops, op) <= ops.len(),
    decreases ops.len(),
{
    if ops.len() > 0 {
        lemma_occurrences_bound(ops.drop_last(), op);
    }
}

/// Appending one opcode raises the occurrences of that opcode by one and
/// leaves those of every other opcode as they were.
pub proof fn lemma_occurrences_push(ops: Seq<Opcode>, last: Opcode, op: Opcode)
    ensures
        occurrences(ops.push(last), op) == occurrences(ops, op) + if last == op {
            1nat
        } else {
            0nat
        },
{
    assert(ops.push(last).drop_last() =~= ops);
}

/// `ops` without the positions that hold `op`.
spec fn without(ops: Seq<Opcode>, op: Opcode) -> Seq<Opcode>
    decreases ops.len(),
{
    if ops.len() == 0 {
        ops
    } else if ops.last() == op {
        without(ops.drop_last(), op)
    } else {
        without(ops.drop_last(), op).push(ops.last())
    }
}

proof fn lemma_without(ops: Seq<Opcode>, op: Opcode)
    ensures
        without(ops, op).len() + occurrences(ops, op) == ops.len(),
        occurrences(without(ops, op), op) == 0,
        forall|other: Opcode|
            other != op ==> #[trigger] occurrences(without(ops, op), other) == occurrences(
                ops,
                other,
            ),
    decreases ops.len(),
{
    if ops.len() > 0 {
        let shorter = ops.drop_last();
        lemma_without(shorter, op);
        if ops.last() != op {
            lemma_occurrences_push(without(shorter, op), ops.last(), op);
            assert forall|other: Opcode| other != op implies #[trigger] occurrences(
                without(ops, op),
                other,
            ) == occurrences(ops, other) by {
                lemma_occurrences_push(without(shorter, op), ops.last(), other);
            }
        }
    }
}

/// The counts of a histogram add up to the length of the sequence that it
/// describes.
pub proof fn lemma_histogram_total(entries: Seq<Entry>, ops: Seq<Opcode>)
    requires
        is_histogram(entries, ops),
    ensures
        total_count(entries) == ops.len(),
    decreases entries.len(),
{
    if entries.len() == 0 {
        if ops.len() > 0 {
            assert(occurrences(ops, ops.last()) > 0);
        }
    } else {
        let last = entries.last();
        let shorter = entries.drop_last();
        let rest = without(ops, last.0);
        lemma_without(ops, last.0);
        assert(is_histogram(shorter, rest)) by {
            assert forall|i: int| 0 <= i < shorter.len() implies {
                &&& (#[trigger] shorter[i]).1 > 0
                &&& shorter[i].1 == occurrences(rest, shorter[i].0)
            } by {
                assert(entries[i].0 != entries[entries.len() - 1].0);
            }
            assert forall|op: Opcode| (#[trigger] occurrences(rest, op)) > 0 implies exists|i: int|
                0 <= i < shorter.len() && (#[trigger] shorter[i]).0 == op by {
                assert(op != last.0);
                assert(occurrences(ops, op) > 0);
                let i = choose|i: int| 0 <= i < entries.len() && (#[trigger] entries[i]).0 == op;
                assert(shorter[i].0 == op);
            }
        }
        lemma_histogram_total(shorter, rest);
    }
}

/// The histogram of an empty sequence has no entry.
pub proof fn lemma_histogram_of_nothing(entries: Seq<Entry>, ops: Seq<Opcode>)
    requires
        is_histogram(entries, ops),
        ops.len() == 0,
    ensures
        entries.len() == 0,
{
    if entries.len() > 0 {
        assert(entries[0].1 > 0);
    }
}

/// No entry occurs twice in a histogram.
pub proof fn lemma_histogram_no_duplicates(entries: Seq<Entry>, ops: Seq<Opcode>)
    requires
        is_histogram(entries, ops),
    ensures
        entries.no_duplicates(),
{
    assert forall|i: int, j: int|
        0 <= i < entries.len() && 0 <= j < entries.len() && i != j implies entries[i]
        != entries[j] by {
        if i < j {
            assert(entries[i].0 != entries[j].0);
        } else {
            assert(entries[j].0 != entries[i].0);
        }
    }
}

/// A rearrangement of a histogram is a histogram of the same sequence.
pub proof fn lemma_histogram_permutation(before: Seq<Entry>, after: Seq<Entry>, ops: Seq<Opcode>)
    requires
        is_histogram(before, ops),
        before.to_multiset() == after.to_multiset(),
    ensures
        is_histogram(after, ops),
{
    broadcast use vstd::seq_lib::group_to_multiset_ensures;

    lemma_histogram_no_duplicates(before, ops);
    before.lemma_multiset_has_no_duplicates();
    after.lemma_multiset_has_no_duplicates_conv();
    assert forall|i: int| 0 <= i < after.len() implies {
        &&& (#[trigger] after[i]).1 > 0
        &&& after[i].1 == occurrences(ops, after[i].0)
    } by {
        assert(after.contains(after[i]));
        assert(before.to_multiset().count(after[i]) > 0);
        assert(before.contains(after[i]));
    }
    assert forall|i: int, j: int| 0 <= i < j < after.len() implies (#[trigger] after[i]).0 != (
    #[trigger] after[j]).0 by {
        assert(after[i] != after[j]);
    }
    assert forall|op: Opcode| (#[trigger] occurrences(ops, op)) > 0 implies exists|i: int|
        0 <= i < after.len() && (#[trigger] after[i]).0 == op by {
        let i = choose|i: int| 0 <= i < before.len() && (#[trigger] before[i]).0 == op;
        assert(before.contains(before[i]));
        assert(after.to_multiset().count(before[i]) > 0);
        assert(after.contains(before[i]));
        let j = choose|j: int| 0 <= j < after.len() && after[j] == before[i];
        assert(after[j].0 == op);
    }
}

/// An entry of one histogram of a sequence is an entry of every histogram of
/// that sequence.
proof fn lemma_histogram_shares_entries(
    first: Seq<Entry>,
    second: Seq<Entry>,
    ops: Seq<Opcode>,
    entry: Entry,
)
    requires
        is_histogram(first, ops),
        is_histogram(second, ops),
        first.contains(entry),
    ensures
        second.contains(entry),
{
    let i = choose|i: int| 0 <= i < first.len() && first[i] == entry;
    assert(first[i].1 > 0);
    assert(occurrences(ops, entry.0) > 0);
    let j = choose|j: int| 0 <= j < second.len() && (#[trigger] second[j]).0 == entry.0;
    assert(second[j] == entry);
}

/// A sequence has one histogram only, up to the order of the entries.
pub proof fn lemma_histogram_unique(first: Seq<Entry>, second: Seq<Entry>, ops: Seq<Opcode>)
    requires
        is_histogram(first, ops),
        is_histogram(second, ops),
    ensures
        first.to_multiset() == second.to_multiset(),
{
    broadcast use vstd::seq_lib::group_to_multiset_ensures;

    lemma_histogram_no_duplicates(first, ops);
    lemma_histogram_no_duplicates(second, ops);
    first.lemma_multiset_has_no_duplicates();
    second.lemma_multiset_has_no_duplicates();
    assert forall|entry: Entry|
        first.to_multiset().count(entry) == second.to_multiset().count(entry) by {
        if first.contains(entry) {
            lemma_histogram_shares_entries(first, second, ops, entry);
        }
        if second.contains(entry) {
            lemma_histogram_shares_entries(second, first, ops, entry);
        }
        assert(first.to_multiset().contains(entry) <==> first.to_multiset().count(entry) > 0);
        assert(second.to_multiset().contains(entry) <==> second.to_multiset().count(entry) > 0);
    }
    assert(first.to_multiset() =~= second.to_multiset());
}

/// Reading an ascending sequence backwards gives a descending one.
pub proof fn lemma_reverse_ascending(entries: Seq<Entry>)
    requires
        ascending_by_count(entries),
    ensures
        descending_by_count(entries.reverse()),
{
    let reversed = entries.reverse();
    assert forall|i: int, j: int| 0 <= i <= j < reversed.len() implies (#[trigger] reversed[i]).1
        >= (#[trigger] reversed[j]).1 by {
        assert(reversed[i] == entries[entries.len() - 1 - i]);
        assert(reversed[j] == entries[entries.len() - 1 - j]);
    }
}

} // verus!
