//! Opcodes of the RV32IM instruction set, each with a numeric code.

use vstd::prelude::*;

verus! {

/// The operation kind of one instruction.
#[derive(Clone, Copy, Debug, PartialEq, Eq, Hash, Structural)]
pub enum Opcode {
    // Register-register arithmetic and logic.
    Add,
    Sub,
    Xor,
    Or,
    And,
    Sll,
    Srl,
    Sra,
    Slt,
    Sltu,
    // Register-immediate arithmetic and logic.
    Addi,
    Xori,
    Ori,
    Andi,
    Slli,
    Srli,
    Srai,
    Slti,
    Sltiu,
    // Loads.
    Lb,
    Lh,
    Lw,
    Lbu,
    Lhu,
    // Stores.
    Sb,
    Sh,
    Sw,
    // Conditional branches.
    Beq,
    Bne,
    Blt,
    Bge,
    Bltu,
    Bgeu,
    // Jumps and upper-immediate instructions.
    Jal,
    Jalr,
    Lui,
    Auipc,
    // System instructions.
    Ecall,
    Ebreak,
    Fence,
    // Multiplication and division.
    Mul,
    Mulh,
    Mulhsu,
    Mulhu,
    Div,
    Divu,
    Rem,
    Remu,
    // An instruction word that decodes to nothing known.
    Unimpl,
}

/// Number of opcodes; the codes are the integers below it.
pub const OPCODE_COUNT: u64 = 49;

impl Opcode {
    /// The numeric code of the opcode: its position in the declaration,
    /// counted from zero.
    pub open spec fn code_spec(self) -> u64 {
        match self {
            Opcode::Add => 0,
            Opcode::Sub => 1,
            Opcode::Xor => 2,
            Opcode::Or => 3,
            Opcode::And => 4,
            Opcode::Sll => 5,
            Opcode::Srl => 6,
            Opcode::Sra => 7,
            Opcode::Slt => 8,
            Opcode::Sltu => 9,
            Opcode::Addi => 10,
            Opcode::Xori => 11,
            Opcode::Ori => 12,
            Opcode::Andi => 13,
            Opcode::Slli => 14,
            Opcode::Srli => 15,
            Opcode::Srai => 16,
            Opcode::Slti => 17,
            Opcode::Sltiu => 18,
            Opcode::Lb => 19,
            Opcode::Lh => 20,
            Opcode::Lw => 21,
            Opcode::Lbu => 22,
            Opcode::Lhu => 23,
            Opcode::Sb => 24,
            Opcode::Sh => 25,
            Opcode::Sw => 26,
            Opcode::Beq => 27,
            Opcode::Bne => 28,
            Opcode::Blt => 29,
            Opcode::Bge => 30,
            Opcode::Bltu => 31,
            Opcode::Bgeu => 32,
            Opcode::Jal => 33,
            Opcode::Jalr => 34,
            Opcode::Lui => 35,
            Opcode::Auipc => 36,
            Opcode::Ecall => 37,
            Opcode::Ebreak => 38,
            Opcode::Fence => 39,
            Opcode::Mul => 40,
            Opcode::Mulh => 41,
            Opcode::Mulhsu => 42,
            Opcode::Mulhu => 43,
            Opcode::Div => 44,
            Opcode::Divu => 45,
            Opcode::Rem => 46,
            Opcode::Remu => 47,
            Opcode::Unimpl => 48,
        }
    }

    /// Computes the numeric code of the opcode.
    #[verifier::when_used_as_spec(code_spec)]
    pub fn code(self) -> (k: u64)
        ensures
            k == self.code_spec(),
            k < OPCODE_COUNT,
    {
        match self {
            Opcode::Add => 0,
            Opcode::Sub => 1,
            Opcode::Xor => 2,
            Opcode::Or => 3,
            Opcode::And => 4,
            Opcode::Sll => 5,
            Opcode::Srl => 6,
            Opcode::Sra => 7,
            Opcode::Slt => 8,
            Opcode::Sltu => 9,
            Opcode::Addi => 10,
            Opcode::Xori => 11,
            Opcode::Ori => 12,
            Opcode::Andi => 13,
            Opcode::Slli => 14,
            Opcode::Srli => 15,
            Opcode::Srai => 16,
            Opcode::Slti => 17,
            Opcode::Sltiu => 18,
            Opcode::Lb => 19,
            Opcode::Lh => 20,
            Opcode::Lw => 21,
            Opcode::Lbu => 22,
            Opcode::Lhu => 23,
            Opcode::Sb => 24,
            Opcode::Sh => 25,
            Opcode::Sw => 26,
            Opcode::Beq => 27,
            Opcode::Bne => 28,
            Opcode::Blt => 29,
            Opcode::Bge => 30,
            Opcode::Bltu => 31,
            Opcode::Bgeu => 32,
            Opcode::Jal => 33,
            Opcode::Jalr => 34,
            Opcode::Lui => 35,
            Opcode::Auipc => 36,
            Opcode::Ecall => 37,
            Opcode::Ebreak => 38,
            Opcode::Fence => 39,
            Opcode::Mul => 40,
            Opcode::Mulh => 41,
            Opcode::Mulhsu => 42,
            Opcode::Mulhu => 43,
            Opcode::Div => 44,
            Opcode::Divu => 45,
            Opcode::Rem => 46,
            Opcode::Remu => 47,
            Opcode::Unimpl => 48,
        }
    }

    /// The opcode with code `k`, if there is one.
    pub fn from_code(k: u64) -> (found: Option<Opcode>)
        ensures
            match found {
                Some(op) => op.code_spec() == k,
                None => forall|op: Opcode| op.code_spec() != k,
            },
            found is Some <==> k < OPCODE_COUNT,
    {
        match k {
            0 => Some(Opcode::Add),
            1 => Some(Opcode::Sub),
            2 => Some(Opcode::Xor),
            3 => Some(Opcode::Or),
            4 => Some(Opcode::And),
            5 => Some(Opcode::Sll),
            6 => Some(Opcode::Srl),
            7 => Some(Opcode::Sra),
            8 => Some(Opcode::Slt),
            9 => Some(Opcode::Sltu),
            10 => Some(Opcode::Addi),
            11 => Some(Opcode::Xori),
            12 => Some(Opcode::Ori),
            13 => Some(Opcode::Andi),
            14 => Some(Opcode::Slli),
            15 => Some(Opcode::Srli),
            16 => Some(Opcode::Srai),
            17 => Some(Opcode::Slti),
            18 => Some(Opcode::Sltiu),
            19 => Some(Opcode::Lb),
            20 => Some(Opcode::Lh),
            21 => Some(Opcode::Lw),
            22 => Some(Opcode::Lbu),
            23 => Some(Opcode::Lhu),
            24 => Some(Opcode::Sb),
            25 => Some(Opcode::Sh),
            26 => Some(Opcode::Sw),
            27 => Some(Opcode::Beq),
            28 => Some(Opcode::Bne),
            29 => Some(Opcode::Blt),
            30 => Some(Opcode::Bge),
            31 => Some(Opcode::Bltu),
            32 => Some(Opcode::Bgeu),
            33 => Some(Opcode::Jal),
            34 => Some(Opcode::Jalr),
            35 => Some(Opcode::Lui),
            36 => Some(Opcode::Auipc),
            37 => Some(Opcode::Ecall),
            38 => Some(Opcode::Ebreak),
            39 => Some(Opcode::Fence),
            40 => Some(Opcode::Mul),
            41 => Some(Opcode::Mulh),
            42 => Some(Opcode::Mulhsu),
            43 => Some(Opcode::Mulhu),
            44 => Some(Opcode::Div),
            45 => Some(Opcode::Divu),
            46 => Some(Opcode::Rem),
            47 => Some(Opcode::Remu),
            48 => Some(Opcode::Unimpl),
            _ => None,
        }
    }
}

/// Different opcodes have different codes, and every code is below
/// `OPCODE_COUNT`.
pub proof fn lemma_code_injective(a: Opcode, b: Opcode)
    ensures
        a.code_spec() == b.code_spec() ==> a == b,
        a.code_spec() < OPCODE_COUNT,
{
}

} // verus!
