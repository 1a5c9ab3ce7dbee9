//! The intermediate representation that the code generator consumes.
//!
//! An instruction is an operation tag with two optional operand slots. The
//! tag decides which slots must be present and what each one means: a
//! physical register index, a label id, or a literal.

use vstd::prelude::*;

use crate::target::{Target, REGS_N};

verus! {

/// The operation of an instruction.
#[allow(clippy::upper_case_acronyms)]
#[derive(Clone, Debug)]
pub enum IROp {
    /// Load the literal `rhs` into register `lhs`.
    Imm,
    /// Copy register `rhs` to register `lhs`.
    Mov,
    /// Return the value of register `lhs`.
    Return,
    /// Write the character in register `lhs` at the position in `rhs`.
    Outchar,
    /// Read a character into register `lhs`.
    Inchar,
    /// Call the named function and leave its result in register `lhs`:
    /// callee, argument count, argument registers as the allocator saw them.
    Call(String, usize, Vec<usize>),
    /// Define the local label with id `lhs`.
    Label,
    /// Load the address of the named label into register `lhs`.
    LabelAddr(String),
    /// Negate register `lhs`.
    Neg,
    /// `lhs = lhs == rhs`.
    EQ,
    /// `lhs = lhs != rhs`.
    NE,
    /// `lhs = lhs < rhs`.
    LT,
    /// `lhs = lhs <= rhs`.
    LE,
    /// `lhs = lhs & rhs`.
    AND,
    /// `lhs = lhs | rhs`.
    OR,
    /// `lhs = lhs ^ rhs`.
    XOR,
    /// `lhs = lhs << rhs`.
    SHL,
    /// `lhs = lhs >> rhs`.
    SHR,
    /// `lhs = lhs % rhs`.
    Mod,
    /// Jump to the local label with id `lhs`.
    Jmp,
    /// Jump to the local label with id `rhs` if register `lhs` is not zero.
    If,
    /// Jump to the local label with id `rhs` if register `lhs` is zero.
    Unless,
    /// Load into register `lhs` from the address in register `rhs`; the
    /// payload is the access size.
    Load(u8),
    /// Store register `rhs` at the address in register `lhs`; the payload is
    /// the access size.
    Store(u8),
    /// Store argument register `rhs` in the parameter slot `lhs` of the
    /// frame; the payload is the access size.
    StoreArg(u8),
    /// `lhs = lhs + rhs`.
    Add,
    /// `lhs = lhs + literal rhs`.
    AddImm,
    /// `lhs = lhs - rhs`.
    Sub,
    /// `lhs = lhs - literal rhs`.
    SubImm,
    /// Load into register `lhs` the address of the local at frame offset
    /// `rhs`.
    Bprel,
    /// `lhs = lhs * rhs`.
    Mul,
    /// `lhs = lhs * literal rhs`.
    MulImm,
    /// `lhs = lhs / rhs`.
    Div,
    /// Do nothing.
    Nop,
    /// The value in `lhs` is dead; kept as a placeholder.
    Kill,
}

/// One instruction: a tag and two operand slots.
#[derive(Clone, Debug)]
pub struct IR {
    pub op: IROp,
    pub lhs: Option<usize>,
    pub rhs: Option<usize>,
}

/// A function: its name, its instructions in execution order, and the
/// number of word slots that its locals occupy.
#[derive(Clone, Debug)]
pub struct Function {
    pub name: String,
    pub ir: Vec<IR>,
    pub stacksize: usize,
}

/// What an operand slot means under a given tag.
#[derive(Clone, Copy, Debug, PartialEq, Eq, Structural)]
pub enum Slot {
    /// The tag does not read the slot.
    Unused,
    /// A physical register index, below [`REGS_N`].
    Register,
    /// A label id, a literal, a slot number or an offset: any value.
    Value,
}

/// The four comparisons.
#[allow(clippy::upper_case_acronyms)]
#[derive(Clone, Copy, Debug, PartialEq, Eq, Structural)]
pub enum CMPS {
    EQ,
    NE,
    LT,
    LE,
}

/// The value in an operand slot that is present.
pub open spec fn operand(slot: Option<usize>) -> nat {
    slot->0 as nat
}

/// Whether `slot` holds what its role asks for.
pub open spec fn slot_ok(role: Slot, slot: Option<usize>) -> bool {
    match role {
        Slot::Unused => true,
        Slot::Register => slot is Some && slot->0 < REGS_N,
        Slot::Value => slot is Some,
    }
}

impl IROp {
    /// What the tag reads in the left slot.
    pub open spec fn lhs_role(self) -> Slot {
        match self {
            IROp::Nop | IROp::Kill => Slot::Unused,
            IROp::Label | IROp::Jmp | IROp::StoreArg(_) => Slot::Value,
            _ => Slot::Register,
        }
    }

    /// What the tag reads in the right slot.
    pub open spec fn rhs_role(self) -> Slot {
        match self {
            IROp::Mov
            | IROp::Outchar
            | IROp::EQ
            | IROp::NE
            | IROp::LT
            | IROp::LE
            | IROp::AND
            | IROp::OR
            | IROp::XOR
            | IROp::SHL
            | IROp::SHR
            | IROp::Mod
            | IROp::Load(_)
            | IROp::Store(_)
            | IROp::StoreArg(_)
            | IROp::Add
            | IROp::Sub
            | IROp::Mul
            | IROp::Div => Slot::Register,
            IROp::Imm
            | IROp::If
            | IROp::Unless
            | IROp::AddImm
            | IROp::SubImm
            | IROp::Bprel
            | IROp::MulImm => Slot::Value,
            _ => Slot::Unused,
        }
    }

    /// Whether the tag adds or subtracts a literal.
    pub open spec fn is_add_sub_imm(self) -> bool {
        self is AddImm || self is SubImm
    }

    /// Exec form of [`IROp::lhs_role`].
    pub fn lhs_slot(&self) -> (r: Slot)
        ensures
            r == self.lhs_role(),
    {
        match self {
            IROp::Nop | IROp::Kill => Slot::Unused,
            IROp::Label | IROp::Jmp | IROp::StoreArg(_) => Slot::Value,
            _ => Slot::Register,
        }
    }

    /// Exec form of [`IROp::rhs_role`].
    pub fn rhs_slot(&self) -> (r: Slot)
        ensures
            r == self.rhs_role(),
    {
        match self {
            IROp::Mov
            | IROp::Outchar
            | IROp::EQ
            | IROp::NE
            | IROp::LT
            | IROp::LE
            | IROp::AND
            | IROp::OR
            | IROp::XOR
            | IROp::SHL
            | IROp::SHR
            | IROp::Mod
            | IROp::Load(_)
            | IROp::Store(_)
            | IROp::StoreArg(_)
            | IROp::Add
            | IROp::Sub
            | IROp::Mul
            | IROp::Div => Slot::Register,
            IROp::Imm
            | IROp::If
            | IROp::Unless
            | IROp::AddImm
            | IROp::SubImm
            | IROp::Bprel
            | IROp::MulImm => Slot::Value,
            _ => Slot::Unused,
        }
    }
}

/// Exec form of [`slot_ok`].
pub fn check_slot(role: Slot, slot: Option<usize>) -> (b: bool)
    ensures
        b == slot_ok(role, slot),
{
    match role {
        Slot::Unused => true,
        Slot::Register => match slot {
            Some(r) => r < REGS_N,
            None => false,
        },
        Slot::Value => slot.is_some(),
    }
}

impl IR {
    /// Whether the instruction can be lowered for `t`: every slot that the
    /// tag reads is present, every register operand names a physical
    /// register, and where an add or subtract of a literal greater than one
    /// borrows the register after its destination, that register exists.
    pub open spec fn well_formed(self, t: Target) -> bool {
        &&& slot_ok(self.op.lhs_role(), self.lhs)
        &&& slot_ok(self.op.rhs_role(), self.rhs)
        &&& (self.op.is_add_sub_imm() && t.imm_in_next_reg() && self.rhs->0 > 1)
            ==> self.lhs->0 + 1 < REGS_N
    }

    /// Decides [`IR::well_formed`].
    pub fn check(&self, t: Target) -> (b: bool)
        ensures
            b == self.well_formed(t),
    {
        if !check_slot(self.op.lhs_slot(), self.lhs) {
            return false;
        }
        if !check_slot(self.op.rhs_slot(), self.rhs) {
            return false;
        }
        match (&self.op, self.lhs, self.rhs) {
            (IROp::AddImm, Some(l), Some(r)) | (IROp::SubImm, Some(l), Some(r)) => {
                !(t.puts_imm_in_next_reg() && r > 1) || l < REGS_N - 1
            },
            _ => true,
        }
    }
}

impl Function {
    /// Whether every instruction of the function is well formed for `t`.
    pub open spec fn well_formed(self, t: Target) -> bool {
        forall|i: int| 0 <= i < self.ir@.len() ==> (#[trigger] self.ir@[i]).well_formed(t)
    }

    /// Whether `i` is the index of the first instruction that is not well
    /// formed for `t`.
    pub open spec fn first_malformed_at(self, t: Target, i: int) -> bool {
        &&& 0 <= i < self.ir@.len()
        &&& !self.ir@[i].well_formed(t)
        &&& forall|j: int| 0 <= j < i ==> (#[trigger] self.ir@[j]).well_formed(t)
    }

    /// The index of the first instruction that is not well formed for `t`,
    /// or `None` where the function is well formed.
    pub fn first_malformed(&self, t: Target) -> (r: Option<usize>)
        ensures
            r is None <==> self.well_formed(t),
            r is Some ==> self.first_malformed_at(t, r->0 as int),
    {
        let mut i: usize = 0;
        while i < self.ir.len()
            invariant
                i <= self.ir@.len(),
                forall|j: int| 0 <= j < i ==> (#[trigger] self.ir@[j]).well_formed(t),
            decreases self.ir@.len() - i,
        {
            if !self.ir[i].check(t) {
                return Some(i);
            }
            i += 1;
        }
        None
    }
}

} // verus!
