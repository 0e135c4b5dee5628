//! Redcode data model: addresses, opcodes, modifiers, addressing modes,
//! and the instruction record stored in every core cell.

use vstd::prelude::*;

verus! {

/// An address into the core; always interpreted modulo the core's size.
pub type Address = u32;

/// The closed ICWS-94 opcode set.
#[derive(Clone, Copy, Debug, PartialEq, Eq, Structural)]
pub enum Opcode {
    /// Terminate the executing process.
    DAT,
    /// Move from A to B.
    MOV,
    /// Add A to B, store result in B.
    ADD,
    /// Subtract A from B, store result in B.
    SUB,
    /// Multiply A by B, store result in B.
    MUL,
    /// Divide B by A, store result in B if A is nonzero, else terminate.
    DIV,
    /// Divide B by A, store remainder in B if A is nonzero, else terminate.
    MOD,
    /// Transfer execution to A.
    JMP,
    /// Transfer execution to A if B is zero.
    JMZ,
    /// Transfer execution to A if B is nonzero.
    JMN,
    /// Decrement B; if B is nonzero, transfer execution to A.
    DJN,
    /// Same as SEQ.
    CMP,
    /// Skip the next instruction if A is less than B.
    SLT,
    /// Split off a second process to A.
    SPL,
    /// Skip the next instruction if A is equal to B.
    SEQ,
    /// Skip the next instruction if A is not equal to B.
    SNE,
    /// No operation.
    NOP,
    /// Load a P-space cell selected by A into the core cell selected by B.
    LDP,
    /// Store the A-value into the P-space cell selected by B.
    STP,
}

impl Default for Opcode {
    fn default() -> (r: Self)
        ensures
            r == Opcode::DAT,
    {
        Opcode::DAT
    }
}

/// Selects which field or fields of the A- and B-instructions an opcode
/// operates on.
#[derive(Clone, Copy, Debug, PartialEq, Eq, Structural)]
pub enum Modifier {
    A,
    B,
    AB,
    BA,
    F,
    X,
    I,
}

impl Default for Modifier {
    fn default() -> (r: Self)
        ensures
            r == Modifier::A,
    {
        Modifier::A
    }
}

/// Addressing mode of one operand.
#[derive(Clone, Copy, Debug, PartialEq, Eq, Structural)]
pub enum Mode {
    /// `#` — the operand is the literal number field itself.
    IMMEDIATE,
    /// `$` — the number is an offset relative to the program counter.
    DIRECT,
    /// `@` — the B-field of the cell the direct pointer reaches is added
    /// before a second fold.
    INDIRECT,
    /// `<` — as INDIRECT, but the intermediate cell's B-field is
    /// decremented before the dereference.
    PREDECREMENT,
    /// `>` — as INDIRECT, but the intermediate cell's B-field is
    /// incremented after the owning instruction completes.
    POSTINCREMENT,
}

impl Default for Mode {
    fn default() -> (r: Self)
        ensures
            r == Mode::IMMEDIATE,
    {
        Mode::IMMEDIATE
    }
}

/// One core cell: an opcode, a modifier, and two operand descriptors.
/// Copied by value; the core never hands out references into cells.
#[derive(Clone, Copy, Debug, PartialEq, Eq, Structural)]
pub struct Instruction {
    pub opcode: Opcode,
    pub modifier: Modifier,
    pub a_mode: Mode,
    pub a_number: Address,
    pub b_mode: Mode,
    pub b_number: Address,
}

/// The dead, idempotent cell an empty core is filled with:
/// `DAT.F` with immediate zero operands.
pub open spec fn default_cell() -> Instruction {
    Instruction {
        opcode: Opcode::DAT,
        modifier: Modifier::F,
        a_mode: Mode::IMMEDIATE,
        a_number: 0,
        b_mode: Mode::IMMEDIATE,
        b_number: 0,
    }
}

impl Default for Instruction {
    fn default() -> (r: Self)
        ensures
            r == default_cell(),
    {
        Instruction {
            opcode: Opcode::DAT,
            modifier: Modifier::F,
            a_mode: Mode::IMMEDIATE,
            a_number: 0,
            b_mode: Mode::IMMEDIATE,
            b_number: 0,
        }
    }
}

impl Instruction {
    /// Entropy injection point for randomized core fills: the builder draws
    /// one instruction per cell from here, in address order. This source
    /// yields the default cell, which keeps every build reproducible; a
    /// loader that wants a genuinely randomized core writes its own cells.
    pub fn random() -> (r: Self)
        ensures
            r == default_cell(),
    {
        Instruction::default()
    }
}

/// A competing program's identity; it owns one task queue in the match.
#[derive(Clone, Copy, Debug, PartialEq, Eq, Structural)]
pub struct Warrior(pub u32);

impl Default for Warrior {
    fn default() -> (r: Self)
        ensures
            r == Warrior(0),
    {
        Warrior(0)
    }
}

} // verus!
