//! Counting the opcodes of a trace in a hash map keyed by opcode code, and
//! listing what the map holds.

use std::collections::HashMap;
use vstd::prelude::*;
use vstd::std_specs::iter::IteratorSpec;
use crate::histogram::{
    is_histogram, lemma_occurrences_bound, lemma_occurrences_push, occurrences, Entry,
};
use crate::opcode::{lemma_code_injective, Opcode};
use crate::trace::{opcodes, TraceRow};

verus! {

/// `counts` is the tally of `ops`: under the code of each opcode that occurs
/// in `ops` it holds the number of occurrences, and it has no other key.
pub open spec fn is_tally(counts: Map<u64, usize>, ops: Seq<Opcode>) -> bool {
    &&& forall|k: u64| #[trigger]
        counts.contains_key(k) ==> exists|op: Opcode| (#[trigger] op.code_spec()) == k
    &&& forall|op: Opcode|
        counts.contains_key(#[trigger] op.code_spec()) <==> occurrences(ops, op) > 0
    &&& forall|op: Opcode|
        counts.contains_key(#[trigger] op.code_spec()) ==> counts[op.code_spec()] == occurrences(
            ops,
            op,
        )
}

/// Counts how often each opcode is executed in `rows`.
pub fn tally(rows: &Vec<TraceRow>) -> (counts: HashMap<u64, usize>)
    ensures
        is_tally(counts@, opcodes(rows@)),
{
    broadcast use vstd::std_specs::hash::group_hash_axioms;

    let ghost ops = opcodes(rows@);
    let mut counts = HashMap::<u64, usize>::new();
    for row in it: rows.iter()
        invariant
            ops == opcodes(rows@),
            it.seq().len() == rows@.len(),
            forall|i: int| 0 <= i < rows@.len() ==> *it.seq()[i] == rows@[i],
            is_tally(counts@, ops.take(it.index())),
    {
        let op: Opcode = row.instruction.opcode;
        let k: u64 = op.code();
        proof {
            let seen = ops.take(it.index());
            assert(ops.take(it.index() + 1) =~= seen.push(op));
            lemma_occurrences_bound(seen, op);
            assert(seen.len() < rows.len());
            assert forall|other: Opcode|
                occurrences(seen.push(op), other) == occurrences(seen, other) + if other == op {
                    1nat
                } else {
                    0nat
                } by {
                lemma_occurrences_push(seen, op, other);
            }
            assert forall|other: Opcode| (#[trigger] other.code_spec()) == k implies other == op by {
                lemma_code_injective(other, op);
            }
        }
        if let Some(count) = counts.get(&k) {
            let raised: usize = *count + 1;
            counts.insert(k, raised);
        } else {
            counts.insert(k, 1);
        }
    }
    proof {
        assert(ops.take(rows@.len() as int) =~= ops);
    }
    counts
}

/// `entries` lists `counts`: each entry is an opcode whose code is a key of
/// `counts`, with the value under that key; no opcode has two entries, and
/// every opcode whose code is a key has one.
pub open spec fn lists_tally(entries: Seq<Entry>, counts: Map<u64, usize>) -> bool {
    &&& forall|i: int, j: int|
        0 <= i < j < entries.len() ==> (#[trigger] entries[i]).0 != (#[trigger] entries[j]).0
    &&& forall|i: int|
        0 <= i < entries.len() ==> {
            &&& counts.contains_key((#[trigger] entries[i]).0.code_spec())
            &&& counts[entries[i].0.code_spec()] == entries[i].1
        }
    &&& forall|op: Opcode|
        counts.contains_key(#[trigger] op.code_spec()) ==> exists|i: int|
            0 <= i < entries.len() && (#[trigger] entries[i]).0 == op
}

/// Lists the opcodes of a tally with their counts, in the order in which the
/// map hands its keys out.
pub fn entries_of(counts: &HashMap<u64, usize>) -> (entries: Vec<Entry>)
    ensures
        lists_tally(entries@, counts@),
{
    broadcast use vstd::std_specs::hash::group_hash_axioms;

    let mut entries: Vec<Entry> = Vec::new();
    let ghost mut origin: Seq<int> = Seq::empty();
    for pair in it: counts.iter()
        invariant
            it.seq() == counts.iter().remaining(),
            it.seq().no_duplicates(),
            origin.len() == entries@.len(),
            forall|j: int|
                #![trigger entries@[j]]
                #![trigger origin[j]]
                0 <= j < entries@.len() ==> {
                    &&& 0 <= origin[j] < it.index()
                    &&& entries@[j].0.code_spec() == *it.seq()[origin[j]].0
                    &&& entries@[j].1 == *it.seq()[origin[j]].1
                },
            forall|i: int, j: int|
                0 <= i < j < entries@.len() ==> (#[trigger] entries@[i]).0 != (
                #[trigger] entries@[j]).0,
            forall|i: int, op: Opcode|
                0 <= i < it.index() && (#[trigger] op.code_spec()) == *(#[trigger] it.seq()[i]).0
                    ==> exists|j: int| 0 <= j < entries@.len() && (#[trigger] entries@[j]).0 == op,
    {
        let (k, v) = pair;
        let found = Opcode::from_code(*k);
        let ghost listed = entries@;
        proof {
            let seq = it.seq();
            let at = it.index();
            assert(seq[at] == pair);
            assert forall|i: int| 0 <= i < at implies *(#[trigger] seq[i]).0 != *k by {
                if *seq[i].0 == *k {
                    assert(counts@[*seq[i].0] == *seq[i].1);
                    assert(counts@[*seq[at].0] == *seq[at].1);
                    assert(seq[i] == seq[at]);
                }
            }
            assert forall|op: Opcode| (#[trigger] op.code_spec()) == *k implies found == Some(
                op,
            ) by {
                lemma_code_injective(op, found->0);
            }
        }
        if let Some(op) = found {
            proof {
                origin = origin.push(it.index());
            }
            entries.push((op, *v));
        }
        proof {
            let seq = it.seq();
            let at = it.index();
            assert forall|i: int, op: Opcode|
                0 <= i <= at && (#[trigger] op.code_spec()) == *(#[trigger] seq[i]).0 implies exists|
                j: int,
            |
                0 <= j < entries@.len() && (#[trigger] entries@[j]).0 == op by {
                if i < at {
                    let j = choose|j: int| 0 <= j < listed.len() && (#[trigger] listed[j]).0 == op;
                    assert(entries@[j] == listed[j]);
                } else {
                    assert(entries@[entries@.len() - 1].0 == op);
                }
            }
        }
    }
    proof {
        let seq = counts.iter().remaining();
        assert forall|op: Opcode| counts@.contains_key(#[trigger] op.code_spec()) implies exists|
            j: int,
        |
            0 <= j < entries@.len() && (#[trigger] entries@[j]).0 == op by {
            let k = op.code_spec();
            assert(seq.contains((&k, &counts@[k])));
            let i = choose|i: int| 0 <= i < seq.len() && seq[i] == (&k, &counts@[k]);
            assert(op.code_spec() == *seq[i].0);
        }
    }
    entries
}

/// The list of a tally of `ops` is a histogram of `ops`.
pub proof fn lemma_listed_tally_is_histogram(
    entries: Seq<Entry>,
    counts: Map<u64, usize>,
    ops: Seq<Opcode>,
)
    requires
        is_tally(counts, ops),
        lists_tally(entries, counts),
    ensures
        is_histogram(entries, ops),
{
    assert forall|op: Opcode| (#[trigger] occurrences(ops, op)) > 0 implies exists|i: int|
        0 <= i < entries.len() && (#[trigger] entries[i]).0 == op by {
        assert(counts.contains_key(op.code_spec()));
    }
}

} // verus!
