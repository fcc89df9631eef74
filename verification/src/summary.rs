//! The summary of one program execution, and what can be asked of it.

use vstd::prelude::*;
use crate::histogram::{
    descending_by_count, is_histogram, lemma_histogram_of_nothing, lemma_histogram_permutation,
    lemma_histogram_total, lemma_reverse_ascending, total_count, Entry,
};
use crate::opcode::Opcode;
use crate::order::{reverse, sort_by_count};
use crate::tally::{entries_of, lemma_listed_tally_is_histogram, tally};
use crate::trace::{
    opcodes, BytecodeRow, Instruction, IoDevice, MemoryOpGroup, TraceRow,
};

verus! {

/// Everything that is kept of one program execution.
///
/// The bytecode trace, the instruction trace and the memory trace are expected
/// to have one element per step; nothing here checks that they do.
#[derive(Clone, Debug, PartialEq, Eq)]
pub struct ProgramSummary {
    /// The executed steps, in order of execution.
    pub raw_trace: Vec<TraceRow>,
    /// The decoded instructions of the program image.
    pub bytecode: Vec<Instruction>,
    /// The initial memory contents, as pairs of address and byte.
    pub memory_init: Vec<(u64, u8)>,
    /// The I/O device as execution left it.
    pub io_device: IoDevice,
    /// One bytecode lookup row per step.
    pub bytecode_trace: Vec<BytecodeRow>,
    /// The decoded instruction of each step; `None` for a padding step.
    pub instruction_trace: Vec<Option<Instruction>>,
    /// The memory operations of each step.
    pub memory_trace: Vec<MemoryOpGroup>,
    /// The circuit flags of the steps.
    pub circuit_flags: Vec<bool>,
}

impl ProgramSummary {
    /// The opcodes that were executed, in order of execution.
    pub open spec fn executed(&self) -> Seq<Opcode> {
        opcodes(self.raw_trace@)
    }

    /// The bytecode trace, the instruction trace and the memory trace have
    /// one element for each step, so that they are equally long.
    ///
    /// A summary is expected to be like this; no function requires it.
    pub open spec fn steps_agree(&self) -> bool {
        &&& self.bytecode_trace@.len() == self.memory_trace@.len()
        &&& self.instruction_trace@.len() == self.memory_trace@.len()
    }

    /// The number of steps: the length of the memory trace, whatever the
    /// lengths of the other sequences are. Where the per-step traces agree,
    /// it is the length of each of them.
    pub fn trace_len(&self) -> (len: usize)
        ensures
            len == self.memory_trace@.len(),
            self.steps_agree() ==> len == self.bytecode_trace@.len() && len
                == self.instruction_trace@.len(),
    {
        self.memory_trace.len()
    }

    /// The histogram of the executed opcodes, most frequent first.
    ///
    /// Each executed opcode has exactly one entry, which holds the number of
    /// steps that executed it. Entries with equal counts come in no
    /// particular order.
    pub fn analyze(&self) -> (counts: Vec<Entry>)
        ensures
            is_histogram(counts@, self.executed()),
            descending_by_count(counts@),
            forall|i: int|
                0 <= i && i + 1 < counts@.len() ==> (#[trigger] counts@[i]).1 >= counts@[i + 1].1,
            total_count(counts@) == self.raw_trace@.len(),
            self.raw_trace@.len() == 0 ==> counts@.len() == 0,
    {
        let table = tally(&self.raw_trace);
        let mut counts = entries_of(&table);
        let ghost listed = counts@;
        sort_by_count(&mut counts);
        let ghost sorted = counts@;
        reverse(&mut counts);
        proof {
            lemma_listed_tally_is_histogram(listed, table@, self.executed());
            sorted.lemma_reverse_to_multiset();
            lemma_histogram_permutation(listed, counts@, self.executed());
            lemma_reverse_ascending(sorted);
            lemma_histogram_total(counts@, self.executed());
            if self.raw_trace@.len() == 0 {
                lemma_histogram_of_nothing(counts@, self.executed());
            }
        }
        counts
    }
}

} // verus!
