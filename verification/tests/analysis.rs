use std::collections::HashMap;

use trace_summary::histogram::Entry;
use trace_summary::opcode::{Opcode, OPCODE_COUNT};
use trace_summary::order::{reverse, sort_by_count};
use trace_summary::summary::ProgramSummary;
use trace_summary::tally::{entries_of, tally};
use trace_summary::trace::{
    BytecodeRow, Instruction, IoDevice, MemoryOp, MemoryOpGroup, MemoryState, RegisterState,
    TraceRow, MEMORY_OPS_PER_INSTRUCTION,
};

fn instruction(address: u64, opcode: Opcode) -> Instruction {
    Instruction { address, opcode, rs1: Some(1), rs2: Some(2), rd: Some(3), imm: None }
}

fn row(opcode: Opcode) -> TraceRow {
    TraceRow {
        instruction: instruction(0x8000_0000, opcode),
        register_state: RegisterState { rs1_val: Some(7), rs2_val: Some(9), rd_post_val: Some(16) },
        memory_state: None,
    }
}

fn rows(opcodes: &[Opcode]) -> Vec<TraceRow> {
    opcodes.iter().map(|op| row(*op)).collect()
}

fn group() -> MemoryOpGroup {
    [MemoryOp::Read(1, 7), MemoryOp::Read(2, 9), MemoryOp::Write(3, 16)]
}

fn summary(raw_trace: Vec<TraceRow>, steps: usize) -> ProgramSummary {
    ProgramSummary {
        raw_trace,
        bytecode: Vec::new(),
        memory_init: Vec::new(),
        io_device: IoDevice { inputs: Vec::new(), outputs: Vec::new(), panic: false },
        bytecode_trace: Vec::new(),
        instruction_trace: Vec::new(),
        memory_trace: vec![group(); steps],
        circuit_flags: Vec::new(),
    }
}

fn count_of(entries: &[Entry], opcode: Opcode) -> Option<usize> {
    let found: Vec<usize> =
        entries.iter().filter(|entry| entry.0 == opcode).map(|entry| entry.1).collect();
    assert!(found.len() <= 1);
    found.first().copied()
}

#[test]
fn analyze_of_empty_trace_is_empty() {
    let summary = summary(Vec::new(), 0);
    assert_eq!(summary.analyze(), Vec::new());
}

#[test]
fn analyze_of_empty_trace_ignores_other_fields() {
    let mut summary = summary(Vec::new(), 4);
    summary.bytecode = vec![instruction(0, Opcode::Add), instruction(4, Opcode::Sub)];
    summary.instruction_trace = vec![Some(instruction(0, Opcode::Add)), None];
    assert!(summary.analyze().is_empty());
}

#[test]
fn analyze_two_of_one_and_one_of_another() {
    let summary = summary(rows(&[Opcode::Add, Opcode::Add, Opcode::Sub]), 3);
    assert_eq!(summary.analyze(), vec![(Opcode::Add, 2), (Opcode::Sub, 1)]);
}

#[test]
fn analyze_does_not_depend_on_the_position_of_the_rarer_opcode() {
    let summary = summary(rows(&[Opcode::Sub, Opcode::Add, Opcode::Add]), 3);
    assert_eq!(summary.analyze(), vec![(Opcode::Add, 2), (Opcode::Sub, 1)]);
}

#[test]
fn analyze_single_row() {
    let summary = summary(rows(&[Opcode::Lw]), 1);
    assert_eq!(summary.analyze(), vec![(Opcode::Lw, 1)]);
}

#[test]
fn analyze_orders_three_distinct_counts() {
    let trace = rows(&[
        Opcode::Lw,
        Opcode::Addi,
        Opcode::Addi,
        Opcode::Beq,
        Opcode::Addi,
        Opcode::Lw,
    ]);
    let summary = summary(trace, 6);
    assert_eq!(summary.analyze(), vec![(Opcode::Addi, 3), (Opcode::Lw, 2), (Opcode::Beq, 1)]);
}

#[test]
fn analyze_counts_add_up_to_trace_length() {
    let trace = rows(&[
        Opcode::Lui,
        Opcode::Addi,
        Opcode::Sw,
        Opcode::Lw,
        Opcode::Addi,
        Opcode::Bne,
        Opcode::Addi,
        Opcode::Jal,
        Opcode::Sw,
        Opcode::Ecall,
        Opcode::Mul,
    ]);
    let summary = summary(trace, 11);
    let counts = summary.analyze();
    let total: usize = counts.iter().map(|entry| entry.1).sum();
    assert_eq!(total, 11);
    assert_eq!(total, summary.raw_trace.len());
}

#[test]
fn analyze_is_sorted_by_count_in_non_increasing_order() {
    let trace = rows(&[
        Opcode::Lui,
        Opcode::Addi,
        Opcode::Sw,
        Opcode::Lw,
        Opcode::Addi,
        Opcode::Bne,
        Opcode::Addi,
        Opcode::Jal,
        Opcode::Sw,
        Opcode::Ecall,
        Opcode::Mul,
    ]);
    let counts = summary(trace, 11).analyze();
    for pair in counts.windows(2) {
        assert!(pair[0].1 >= pair[1].1);
    }
    assert_eq!(counts[0], (Opcode::Addi, 3));
    assert_eq!(counts[1], (Opcode::Sw, 2));
}

#[test]
fn analyze_has_one_entry_for_each_executed_opcode() {
    let trace = rows(&[
        Opcode::Xor,
        Opcode::Or,
        Opcode::Xor,
        Opcode::And,
        Opcode::Or,
        Opcode::Xor,
        Opcode::Divu,
    ]);
    let counts = summary(trace, 7).analyze();
    assert_eq!(counts.len(), 4);
    assert_eq!(count_of(&counts, Opcode::Xor), Some(3));
    assert_eq!(count_of(&counts, Opcode::Or), Some(2));
    assert_eq!(count_of(&counts, Opcode::And), Some(1));
    assert_eq!(count_of(&counts, Opcode::Divu), Some(1));
    assert_eq!(count_of(&counts, Opcode::Add), None);
}

#[test]
fn analyze_with_equal_counts_lists_both_in_either_order() {
    let counts = summary(rows(&[Opcode::Sb, Opcode::Lb, Opcode::Lb, Opcode::Sb]), 4).analyze();
    let one = vec![(Opcode::Sb, 2), (Opcode::Lb, 2)];
    let other = vec![(Opcode::Lb, 2), (Opcode::Sb, 2)];
    assert!(counts == one || counts == other);
}

#[test]
fn analyze_can_be_repeated() {
    let summary = summary(rows(&[Opcode::Rem, Opcode::Rem, Opcode::Rem, Opcode::Fence]), 4);
    let first = summary.analyze();
    let second = summary.analyze();
    assert_eq!(first, vec![(Opcode::Rem, 3), (Opcode::Fence, 1)]);
    assert_eq!(first, second);
}

#[test]
fn analyze_reads_the_opcode_of_the_row_only() {
    let mut first = row(Opcode::Sw);
    first.memory_state = Some(MemoryState::Write { address: 64, pre_value: 0, post_value: 5 });
    let mut second = row(Opcode::Sw);
    second.instruction.address = 0x8000_0004;
    second.instruction.imm = Some(12);
    second.memory_state = Some(MemoryState::Read { address: 64, value: 5 });
    let counts = summary(vec![first, second], 2).analyze();
    assert_eq!(counts, vec![(Opcode::Sw, 2)]);
}

#[test]
fn analyze_counts_every_opcode_of_the_instruction_set() {
    let mut trace = Vec::new();
    for code in 0..OPCODE_COUNT {
        let opcode = Opcode::from_code(code).unwrap();
        for _ in 0..=code {
            trace.push(row(opcode));
        }
    }
    let steps = trace.len();
    let counts = summary(trace, steps).analyze();
    assert_eq!(counts.len() as u64, OPCODE_COUNT);
    for (position, entry) in counts.iter().enumerate() {
        let code = OPCODE_COUNT - 1 - position as u64;
        assert_eq!(entry.0.code(), code);
        assert_eq!(entry.1 as u64, code + 1);
    }
}

#[test]
fn trace_len_of_ten_groups_is_ten() {
    let summary = summary(Vec::new(), 10);
    assert_eq!(MEMORY_OPS_PER_INSTRUCTION, 3);
    assert_eq!(summary.memory_trace[0].len(), 3);
    assert_eq!(summary.trace_len(), 10);
}

#[test]
fn trace_len_of_empty_summary_is_zero() {
    assert_eq!(summary(Vec::new(), 0).trace_len(), 0);
}

#[test]
fn trace_len_is_the_memory_trace_length_whatever_the_other_lengths() {
    let mut summary = summary(rows(&[Opcode::Add, Opcode::Sub]), 5);
    summary.bytecode = vec![instruction(0, Opcode::Add)];
    summary.memory_init = vec![(0x1000, 1), (0x1001, 2), (0x1000, 3)];
    summary.io_device.inputs = vec![1, 2, 3, 4];
    summary.bytecode_trace =
        vec![BytecodeRow { address: 0, bitflags: 1, rd: 3, rs1: 1, rs2: 2, imm: 0 }; 7];
    summary.instruction_trace = vec![None; 9];
    summary.circuit_flags = vec![true, false, true];
    assert_eq!(summary.trace_len(), 5);
    assert_eq!(summary.trace_len(), summary.memory_trace.len());
    assert_eq!(summary.raw_trace.len(), 2);
}

#[test]
fn summary_clone_is_equal_to_its_source() {
    let source = summary(rows(&[Opcode::Auipc, Opcode::Jalr]), 2);
    let copy = source.clone();
    assert_eq!(copy, source);
    assert_eq!(copy.analyze().len(), 2);
    assert_eq!(copy.trace_len(), 2);
}

#[test]
fn opcode_codes_count_from_zero() {
    assert_eq!(Opcode::Add.code(), 0);
    assert_eq!(Opcode::Sub.code(), 1);
    assert_eq!(Opcode::Addi.code(), 10);
    assert_eq!(Opcode::Lb.code(), 19);
    assert_eq!(Opcode::Sb.code(), 24);
    assert_eq!(Opcode::Beq.code(), 27);
    assert_eq!(Opcode::Jal.code(), 33);
    assert_eq!(Opcode::Ecall.code(), 37);
    assert_eq!(Opcode::Mul.code(), 40);
    assert_eq!(Opcode::Remu.code(), 47);
    assert_eq!(Opcode::Unimpl.code(), 48);
    assert_eq!(OPCODE_COUNT, 49);
}

#[test]
fn opcode_from_code_inverts_code() {
    for code in 0..OPCODE_COUNT {
        let opcode = Opcode::from_code(code).unwrap();
        assert_eq!(opcode.code(), code);
    }
    assert_eq!(Opcode::from_code(5), Some(Opcode::Sll));
    assert_eq!(Opcode::from_code(48), Some(Opcode::Unimpl));
}

#[test]
fn opcode_from_code_rejects_what_is_no_code() {
    assert_eq!(Opcode::from_code(OPCODE_COUNT), None);
    assert_eq!(Opcode::from_code(1000), None);
    assert_eq!(Opcode::from_code(u64::MAX), None);
}

#[test]
fn tally_counts_by_opcode_code() {
    let table = tally(&rows(&[Opcode::Sub, Opcode::Add, Opcode::Sub, Opcode::Unimpl]));
    let mut expected = HashMap::new();
    expected.insert(1u64, 2usize);
    expected.insert(0u64, 1usize);
    expected.insert(48u64, 1usize);
    assert_eq!(table, expected);
}

#[test]
fn tally_of_nothing_is_empty() {
    assert!(tally(&Vec::new()).is_empty());
}

#[test]
fn entries_of_lists_each_key_once() {
    let mut table = HashMap::new();
    table.insert(Opcode::Slt.code(), 4usize);
    table.insert(Opcode::Bge.code(), 9usize);
    table.insert(Opcode::Mulh.code(), 1usize);
    let mut entries = entries_of(&table);
    entries.sort_by_key(|entry| entry.0.code());
    assert_eq!(entries, vec![(Opcode::Slt, 4), (Opcode::Bge, 9), (Opcode::Mulh, 1)]);
}

#[test]
fn entries_of_passes_over_keys_that_are_no_codes() {
    let mut table = HashMap::new();
    table.insert(OPCODE_COUNT, 3usize);
    table.insert(Opcode::Ori.code(), 2usize);
    assert_eq!(entries_of(&table), vec![(Opcode::Ori, 2)]);
}

#[test]
fn sort_by_count_puts_small_counts_first() {
    let mut entries = vec![(Opcode::Add, 5), (Opcode::Sub, 1), (Opcode::Xor, 3), (Opcode::Or, 2)];
    sort_by_count(&mut entries);
    assert_eq!(
        entries,
        vec![(Opcode::Sub, 1), (Opcode::Or, 2), (Opcode::Xor, 3), (Opcode::Add, 5)]
    );
}

#[test]
fn sort_by_count_keeps_the_order_of_equal_counts() {
    let mut entries = vec![
        (Opcode::Add, 2),
        (Opcode::Sub, 1),
        (Opcode::Xor, 2),
        (Opcode::Or, 1),
        (Opcode::And, 2),
    ];
    sort_by_count(&mut entries);
    assert_eq!(
        entries,
        vec![
            (Opcode::Sub, 1),
            (Opcode::Or, 1),
            (Opcode::Add, 2),
            (Opcode::Xor, 2),
            (Opcode::And, 2),
        ]
    );
}

#[test]
fn sort_by_count_of_nothing_and_of_one() {
    let mut none: Vec<Entry> = Vec::new();
    sort_by_count(&mut none);
    assert!(none.is_empty());
    let mut one = vec![(Opcode::Lhu, 8)];
    sort_by_count(&mut one);
    assert_eq!(one, vec![(Opcode::Lhu, 8)]);
}

#[test]
fn reverse_turns_the_order_round() {
    let mut odd = vec![(Opcode::Add, 1), (Opcode::Sub, 2), (Opcode::Xor, 3)];
    reverse(&mut odd);
    assert_eq!(odd, vec![(Opcode::Xor, 3), (Opcode::Sub, 2), (Opcode::Add, 1)]);
    let mut even = vec![(Opcode::Add, 1), (Opcode::Sub, 2), (Opcode::Xor, 3), (Opcode::Or, 4)];
    reverse(&mut even);
    assert_eq!(
        even,
        vec![(Opcode::Or, 4), (Opcode::Xor, 3), (Opcode::Sub, 2), (Opcode::Add, 1)]
    );
    let mut none: Vec<Entry> = Vec::new();
    reverse(&mut none);
    assert!(none.is_empty());
}
