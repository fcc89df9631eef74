//! The records that a program summary is made of: decoded instructions,
//! per-step trace rows, memory operations and the I/O device snapshot.

use vstd::prelude::*;
use crate::opcode::Opcode;

verus! {

/// Number of memory operations that one executed instruction issues.
pub const MEMORY_OPS_PER_INSTRUCTION: usize = 3;

/// One decoded instruction of the program image.
#[derive(Clone, Copy, Debug, PartialEq, Eq)]
pub struct Instruction {
    /// Address of the instruction in the program image.
    pub address: u64,
    /// What the instruction does.
    pub opcode: Opcode,
    /// First source register, if the instruction has one.
    pub rs1: Option<u64>,
    /// Second source register, if the instruction has one.
    pub rs2: Option<u64>,
    /// Destination register, if the instruction has one.
    pub rd: Option<u64>,
    /// Immediate operand, if the instruction has one.
    pub imm: Option<u32>,
}

/// Register values seen by one executed step.
#[derive(Clone, Copy, Debug, PartialEq, Eq)]
pub struct RegisterState {
    /// Value read from the first source register.
    pub rs1_val: Option<u64>,
    /// Value read from the second source register.
    pub rs2_val: Option<u64>,
    /// Value left in the destination register.
    pub rd_post_val: Option<u64>,
}

/// The memory access of one executed step.
#[derive(Clone, Copy, Debug, PartialEq, Eq)]
pub enum MemoryState {
    /// A load of `value` from `address`.
    Read { address: u64, value: u64 },
    /// A store to `address` that replaced `pre_value` by `post_value`.
    Write { address: u64, pre_value: u64, post_value: u64 },
}

/// One executed step: the instruction and what it read and wrote.
#[derive(Clone, Copy, Debug, PartialEq, Eq)]
pub struct TraceRow {
    /// The instruction that was executed.
    pub instruction: Instruction,
    /// The register values of the step.
    pub register_state: RegisterState,
    /// The memory access of the step, if it made one.
    pub memory_state: Option<MemoryState>,
}

/// One memory operation, as address and value.
#[derive(Clone, Copy, Debug, PartialEq, Eq)]
pub enum MemoryOp {
    /// A read of the value at the address.
    Read(u64, u64),
    /// A write of the value to the address.
    Write(u64, u64),
}

/// The memory operations of one executed step.
pub type MemoryOpGroup = [MemoryOp; MEMORY_OPS_PER_INSTRUCTION];

/// One row of the bytecode lookup trace.
#[derive(Clone, Copy, Debug, PartialEq, Eq)]
pub struct BytecodeRow {
    /// Address of the instruction that the step looked up.
    pub address: u64,
    /// Packed opcode and circuit flags of the instruction.
    pub bitflags: u64,
    /// Destination register index.
    pub rd: u64,
    /// First source register index.
    pub rs1: u64,
    /// Second source register index.
    pub rs2: u64,
    /// Immediate operand.
    pub imm: u64,
}

/// State of the program's I/O device when execution ended.
#[derive(Clone, Debug, PartialEq, Eq)]
pub struct IoDevice {
    /// Bytes that the program was given.
    pub inputs: Vec<u8>,
    /// Bytes that the program produced.
    pub outputs: Vec<u8>,
    /// Whether the program ended in a panic.
    pub panic: bool,
}

/// The opcodes of a sequence of trace rows, in order.
pub open spec fn opcodes(rows: Seq<TraceRow>) -> Seq<Opcode> {
    rows.map_values(|row: TraceRow| row.instruction.opcode)
}

} // verus!
