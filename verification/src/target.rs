//! The target descriptor: the facts that tell one machine from another.
//!
//! The lowering algorithm never names a register or chooses a convention
//! itself; it asks the descriptor. Two machines are described: a small
//! load/store machine whose frame base is the register `r0`, and a register
//! machine whose frame base is the frame pointer `rbp`, which it can address
//! in an operand.
//!
//! Besides the names, a machine has its conventions: how a frame is built
//! and dropped, in which register a return value crosses a call, and how the
//! address of a frame slot is computed. Neither machine has loads or stores
//! that differ by access size, so the size that a load or store carries does
//! not show in the text.

use vstd::prelude::*;
use vstd::string::*;

use crate::text::{
    decimal, emit1, emit2, emit3, imm, imm_decimal, ins1, ins2, ins3, push_decimal, text,
};

verus! {

/// The number of physical registers that instruction operands may name.
pub const REGS_N: usize = 7;

/// The machine that code is generated for.
#[derive(Clone, Copy, Debug, PartialEq, Eq, Structural)]
pub enum Target {
    /// Load/store machine: frame base `r0`, stack pointer `sp`,
    /// scratch and return-value register `r7`, 16-bit unsigned words.
    Icmc,
    /// Register machine: frame pointer `rbp`, stack pointer `sp`, scratch
    /// and return-value register `r0`, 32-bit signed words.
    X86,
}

/// `v` reduced to an unsigned 16-bit word, as a numeral.
pub open spec fn word16(v: nat) -> Seq<char> {
    decimal(v % 0x1_0000)
}

/// `v` reduced to 32 bits and read as a two's-complement number, as a
/// numeral with a leading `-` where it is negative.
pub open spec fn word32(v: nat) -> Seq<char> {
    let low = v % 0x1_0000_0000;
    if low < 0x8000_0000 {
        decimal(low)
    } else {
        "-"@ + decimal((0x1_0000_0000 - low) as nat)
    }
}

impl Target {
    /// The name of the physical register with index `i`.
    pub open spec fn reg(self, i: nat) -> Seq<char> {
        if i == 0 {
            "r1"@
        } else if i == 1 {
            "r2"@
        } else if i == 2 {
            "r3"@
        } else if i == 3 {
            "r4"@
        } else if i == 4 {
            "r5"@
        } else if i == 5 {
            "r6"@
        } else {
            "r7"@
        }
    }

    /// The scratch register in which immediates are materialised.
    pub open spec fn scratch(self) -> Seq<char> {
        match self {
            Target::Icmc => "r7"@,
            Target::X86 => "r0"@,
        }
    }

    /// The register in which a return value crosses a call boundary.
    pub open spec fn return_reg(self) -> Seq<char> {
        match self {
            Target::Icmc => "r7"@,
            Target::X86 => "r0"@,
        }
    }

    /// Whether the immediate of an add or subtract is materialised in the
    /// register that follows the destination rather than in the scratch
    /// register.
    pub open spec fn imm_in_next_reg(self) -> bool {
        self == Target::Icmc
    }

    /// A literal truncated or reinterpreted to the native word, as it is
    /// written in an immediate operand.
    pub open spec fn word(self, v: nat) -> Seq<char> {
        match self {
            Target::Icmc => word16(v),
            Target::X86 => word32(v),
        }
    }

    /// The register that holds the base of the current frame.
    pub open spec fn frame_base(self) -> Seq<char> {
        match self {
            Target::Icmc => "r0"@,
            Target::X86 => "rbp"@,
        }
    }

    /// The register that points to the top of the stack.
    pub open spec fn stack_pointer(self) -> Seq<char> {
        "sp"@
    }

    /// The pseudo-register that holds the flags of the last compare.
    pub open spec fn flags(self) -> Seq<char> {
        "fr"@
    }

    /// The operand that addresses the frame slot `n` words below the frame
    /// base, on a machine that can address memory in an operand.
    pub open spec fn frame_slot(self, n: nat) -> Seq<char> {
        "["@ + self.frame_base() + "-"@ + decimal(n) + "]"@
    }

    /// The operand that gives a constant shift amount.
    pub open spec fn shift_amount(self, k: nat) -> Seq<char> {
        match self {
            Target::Icmc => imm(decimal(k)),
            Target::X86 => decimal(k),
        }
    }

    /// Exec form of [`Target::reg`].
    pub fn reg_name(&self, i: usize) -> (s: &'static str)
        requires
            i < REGS_N,
        ensures
            s@ == self.reg(i as nat),
    {
        if i == 0 {
            "r1"
        } else if i == 1 {
            "r2"
        } else if i == 2 {
            "r3"
        } else if i == 3 {
            "r4"
        } else if i == 4 {
            "r5"
        } else if i == 5 {
            "r6"
        } else {
            "r7"
        }
    }

    /// Exec form of [`Target::scratch`].
    pub fn scratch_name(&self) -> (s: &'static str)
        ensures
            s@ == self.scratch(),
    {
        match self {
            Target::Icmc => "r7",
            Target::X86 => "r0",
        }
    }

    /// Exec form of [`Target::return_reg`].
    pub fn return_reg_name(&self) -> (s: &'static str)
        ensures
            s@ == self.return_reg(),
    {
        match self {
            Target::Icmc => "r7",
            Target::X86 => "r0",
        }
    }

    /// Exec form of [`Target::frame_base`].
    pub fn frame_base_name(&self) -> (s: &'static str)
        ensures
            s@ == self.frame_base(),
    {
        match self {
            Target::Icmc => "r0",
            Target::X86 => "rbp",
        }
    }

    /// Exec form of [`Target::stack_pointer`].
    pub fn stack_pointer_name(&self) -> (s: &'static str)
        ensures
            s@ == self.stack_pointer(),
    {
        "sp"
    }

    /// Exec form of [`Target::flags`].
    pub fn flags_name(&self) -> (s: &'static str)
        ensures
            s@ == self.flags(),
    {
        "fr"
    }

    /// Exec form of [`Target::frame_slot`].
    pub fn frame_slot_operand(&self, n: usize) -> (s: String)
        ensures
            s@ == self.frame_slot(n as nat),
    {
        let mut s = String::new();
        s.append("[");
        s.append(self.frame_base_name());
        s.append("-");
        push_decimal(&mut s, n as u128);
        s.append("]");
        assert(s@ =~= self.frame_slot(n as nat));
        s
    }

    /// Exec form of [`Target::shift_amount`].
    pub fn shift_amount_operand(&self, k: u32) -> (s: String)
        ensures
            s@ == self.shift_amount(k as nat),
    {
        let mut s = String::new();
        match self {
            Target::Icmc => {
                s.append("#");
            },
            Target::X86 => {},
        }
        push_decimal(&mut s, k as u128);
        assert(s@ =~= self.shift_amount(k as nat));
        s
    }

    /// The immediate operand that holds the literal `v` as a native word.
    pub fn word_operand(&self, v: usize) -> (s: String)
        ensures
            s@ == imm(self.word(v as nat)),
    {
        let mut s = String::new();
        s.append("#");
        match self {
            Target::Icmc => {
                push_decimal(&mut s, (v % 0x1_0000) as u128);
            },
            Target::X86 => {
                let low: u128 = (v as u128) % 0x1_0000_0000;
                if low < 0x8000_0000 {
                    push_decimal(&mut s, low);
                } else {
                    s.append("-");
                    push_decimal(&mut s, 0x1_0000_0000 - low);
                }
            },
        }
        assert(s@ =~= imm(self.word(v as nat)));
        s
    }

    /// Exec form of [`Target::imm_in_next_reg`].
    pub fn puts_imm_in_next_reg(&self) -> (b: bool)
        ensures
            b == self.imm_in_next_reg(),
    {
        match self {
            Target::Icmc => true,
            Target::X86 => false,
        }
    }
}

/// The line that complements the register named `reg` bit by bit.
pub open spec fn complement_line(t: Target, reg: Seq<char>) -> Seq<char> {
    match t {
        Target::Icmc => ins2("not"@, reg, reg),
        Target::X86 => ins1("not"@, reg),
    }
}

/// Negation of the register named `reg`.
pub open spec fn negate_lines(t: Target, reg: Seq<char>) -> Seq<Seq<char>> {
    match t {
        Target::Icmc => seq![complement_line(t, reg), ins1("inc"@, reg)],
        Target::X86 => seq![complement_line(t, reg)],
    }
}

/// The store of the register named `src` into parameter slot `slot` of the
/// frame, at the address frame base minus `slot`.
pub open spec fn store_arg_lines(t: Target, slot: nat, src: Seq<char>) -> Seq<Seq<char>> {
    match t {
        Target::Icmc => seq![
            ins2("loadn"@, t.scratch(), imm(decimal(slot))),
            ins3("sub"@, t.scratch(), t.frame_base(), t.scratch()),
            ins2("storei"@, t.scratch(), src),
        ],
        Target::X86 => seq![ins2("mov"@, t.frame_slot(slot), src)],
    }
}

/// The address frame base minus `offset`, placed in the register named
/// `dst`.
pub open spec fn frame_address_lines(t: Target, dst: Seq<char>, offset: nat) -> Seq<Seq<char>> {
    match t {
        Target::Icmc => seq![
            ins2("loadn"@, dst, imm(decimal(offset))),
            ins3("sub"@, dst, t.frame_base(), dst),
        ],
        Target::X86 => seq![ins2("lea"@, dst, t.frame_slot(offset))],
    }
}

/// The register that holds the literal of an add or subtract whose
/// destination is register `l`.
pub open spec fn imm_holder(t: Target, l: nat) -> Seq<char> {
    if t.imm_in_next_reg() {
        t.reg(l + 1)
    } else {
        t.scratch()
    }
}

/// Emits [`complement_line`].
pub(crate) fn complement(
    out: &mut String,
    t: Target,
    reg: &str,
    Ghost(base): Ghost<Seq<char>>,
    done: &mut Ghost<Seq<Seq<char>>>,
)
    requires
        old(out)@ == base + text(old(done)@),
    ensures
        final(out)@ == base + text(final(done)@),
        final(done)@ == old(done)@.push(complement_line(t, reg@)),
{
    match t {
        Target::Icmc => emit2(out, "not", reg, reg, Ghost(base), done),
        Target::X86 => emit1(out, "not", reg, Ghost(base), done),
    }
}

/// Emits [`store_arg_lines`].
pub(crate) fn store_arg(
    out: &mut String,
    t: Target,
    slot: usize,
    src: &str,
    Ghost(base): Ghost<Seq<char>>,
    done: &mut Ghost<Seq<Seq<char>>>,
)
    requires
        old(out)@ == base + text(old(done)@),
    ensures
        final(out)@ == base + text(final(done)@),
        final(done)@ == old(done)@ + store_arg_lines(t, slot as nat, src@),
{
    match t {
        Target::Icmc => {
            let s = t.scratch_name();
            emit2(out, "loadn", s, imm_decimal(slot as u128).as_str(), Ghost(base), done);
            emit3(out, "sub", s, t.frame_base_name(), s, Ghost(base), done);
            emit2(out, "storei", s, src, Ghost(base), done);
        },
        Target::X86 => {
            emit2(out, "mov", t.frame_slot_operand(slot).as_str(), src, Ghost(base), done);
        },
    }
    assert(done@ =~= old(done)@ + store_arg_lines(t, slot as nat, src@));
}

/// Emits [`frame_address_lines`].
pub(crate) fn frame_address(
    out: &mut String,
    t: Target,
    dst: &str,
    offset: usize,
    Ghost(base): Ghost<Seq<char>>,
    done: &mut Ghost<Seq<Seq<char>>>,
)
    requires
        old(out)@ == base + text(old(done)@),
    ensures
        final(out)@ == base + text(final(done)@),
        final(done)@ == old(done)@ + frame_address_lines(t, dst@, offset as nat),
{
    match t {
        Target::Icmc => {
            emit2(out, "loadn", dst, imm_decimal(offset as u128).as_str(), Ghost(base), done);
            emit3(out, "sub", dst, t.frame_base_name(), dst, Ghost(base), done);
        },
        Target::X86 => {
            emit2(out, "lea", dst, t.frame_slot_operand(offset).as_str(), Ghost(base), done);
        },
    }
    assert(done@ =~= old(done)@ + frame_address_lines(t, dst@, offset as nat));
}

/// Emits [`negate_lines`].
pub(crate) fn negate(
    out: &mut String,
    t: Target,
    reg: &str,
    Ghost(base): Ghost<Seq<char>>,
    done: &mut Ghost<Seq<Seq<char>>>,
)
    requires
        old(out)@ == base + text(old(done)@),
    ensures
        final(out)@ == base + text(final(done)@),
        final(done)@ == old(done)@ + negate_lines(t, reg@),
{
    complement(out, t, reg, Ghost(base), done);
    match t {
        Target::Icmc => emit1(out, "inc", reg, Ghost(base), done),
        Target::X86 => {},
    }
    assert(done@ =~= old(done)@ + negate_lines(t, reg@));
}

/// The lines that build a frame of `stacksize` word slots: the caller's
/// frame base is saved, the frame base is set to the stack pointer, and the
/// stack pointer is lowered by `stacksize + 1` words, the one more for the
/// saved frame base. Nothing where there are no locals.
pub open spec fn frame_enter_lines(t: Target, stacksize: nat) -> Seq<Seq<char>> {
    if stacksize > 0 {
        seq![
            ins1("push"@, t.frame_base()),
            ins2("mov"@, t.frame_base(), t.stack_pointer()),
            ins2("loadn"@, t.scratch(), imm(decimal(stacksize + 1))),
            ins3("sub"@, t.scratch(), t.frame_base(), t.scratch()),
            ins2("mov"@, t.stack_pointer(), t.scratch()),
        ]
    } else {
        Seq::empty()
    }
}

/// The lines that drop the frame again: the stack pointer is restored from
/// the frame base, and the caller's frame base is restored. Nothing where
/// there are no locals.
pub open spec fn frame_leave_lines(t: Target, stacksize: nat) -> Seq<Seq<char>> {
    if stacksize > 0 {
        seq![ins2("mov"@, t.stack_pointer(), t.frame_base()), ins1("pop"@, t.frame_base())]
    } else {
        Seq::empty()
    }
}

/// Emits [`frame_enter_lines`].
pub(crate) fn frame_enter(
    out: &mut String,
    t: Target,
    stacksize: usize,
    Ghost(base): Ghost<Seq<char>>,
    done: &mut Ghost<Seq<Seq<char>>>,
)
    requires
        old(out)@ == base + text(old(done)@),
    ensures
        final(out)@ == base + text(final(done)@),
        final(done)@ == old(done)@ + frame_enter_lines(t, stacksize as nat),
{
    if stacksize > 0 {
        let fb = t.frame_base_name();
        let s = t.scratch_name();
        emit1(out, "push", fb, Ghost(base), done);
        emit2(out, "mov", fb, t.stack_pointer_name(), Ghost(base), done);
        emit2(out, "loadn", s, imm_decimal(stacksize as u128 + 1).as_str(), Ghost(base), done);
        emit3(out, "sub", s, fb, s, Ghost(base), done);
        emit2(out, "mov", t.stack_pointer_name(), s, Ghost(base), done);
    }
    assert(done@ =~= old(done)@ + frame_enter_lines(t, stacksize as nat));
}

/// Emits [`frame_leave_lines`].
pub(crate) fn frame_leave(
    out: &mut String,
    t: Target,
    stacksize: usize,
    Ghost(base): Ghost<Seq<char>>,
    done: &mut Ghost<Seq<Seq<char>>>,
)
    requires
        old(out)@ == base + text(old(done)@),
    ensures
        final(out)@ == base + text(final(done)@),
        final(done)@ == old(done)@ + frame_leave_lines(t, stacksize as nat),
{
    if stacksize > 0 {
        let fb = t.frame_base_name();
        emit2(out, "mov", t.stack_pointer_name(), fb, Ghost(base), done);
        emit1(out, "pop", fb, Ghost(base), done);
    }
    assert(done@ =~= old(done)@ + frame_leave_lines(t, stacksize as nat));
}

} // verus!
