//! The lowering algorithm: from instructions to assembly lines.
//!
//! What is emitted is stated as a sequence of lines, each a sequence of
//! characters without its newline; the text written to the output is
//! [`text`] of those lines. The algorithm is the same for every target and
//! takes the facts of the machine from the [`Target`].

use vstd::arithmetic::power2::*;
use vstd::prelude::*;
use vstd::string::*;

use crate::ir::{operand, slot_ok, Function, IROp, Slot, CMPS, IR};
use crate::target::{
    complement, complement_line, frame_address, frame_address_lines, frame_enter,
    frame_enter_lines, frame_leave, frame_leave_lines, imm_holder, negate, negate_lines,
    store_arg, store_arg_lines, Target, REGS_N,
};
use crate::text::{
    decimal, emit0, emit1, emit2, emit3, emit_label, epilogue_label, epilogue_label_name, imm,
    imm_decimal, ins0, ins1, ins2, ins3, label_def, local_label, local_label_name, text,
};

verus! {

/// The bits of the flags word that a comparison keeps.
pub open spec fn compare_mask(c: CMPS) -> nat {
    match c {
        CMPS::EQ => 0b100,
        CMPS::NE => 0b100,
        CMPS::LT => 0b10,
        CMPS::LE => 0b110,
    }
}

/// A comparison of registers `l` and `r`: compare, capture the flags in
/// `l`, complement them for not-equal, and mask them to a boolean.
pub open spec fn compare_lines(t: Target, c: CMPS, l: nat, r: nat) -> Seq<Seq<char>> {
    let capture = seq![
        ins2("cmp"@, t.reg(l), t.reg(r)),
        ins1("push"@, t.flags()),
        ins1("pop"@, t.reg(l)),
    ];
    let flip = if c == CMPS::NE {
        seq![complement_line(t, t.reg(l))]
    } else {
        Seq::empty()
    };
    let mask = seq![
        ins2("loadn"@, t.scratch(), imm(decimal(compare_mask(c)))),
        ins3("and"@, t.reg(l), t.reg(l), t.scratch()),
    ];
    capture + flip + mask
}

/// The pushes that save registers `lo` up to, not including, `hi`, in
/// ascending order.
pub open spec fn saves(t: Target, lo: nat, hi: nat) -> Seq<Seq<char>> {
    Seq::new(
        if hi > lo { (hi - lo) as nat } else { 0 },
        |k: int| ins1("push"@, t.reg((lo + k) as nat)),
    )
}

/// The pops that restore registers `lo` up to, not including, `hi`, in
/// descending order.
pub open spec fn restores(t: Target, lo: nat, hi: nat) -> Seq<Seq<char>> {
    Seq::new(
        if hi > lo { (hi - lo) as nat } else { 0 },
        |k: int| ins1("pop"@, t.reg((hi - 1 - k) as nat)),
    )
}

/// A call of `name` with `nargs` arguments whose result goes to register
/// `dst`: the registers from `nargs` up to `dst` are live across the call and
/// are saved before it and restored after the result has been copied.
pub open spec fn call_lines(t: Target, name: Seq<char>, nargs: nat, dst: nat) -> Seq<Seq<char>> {
    saves(t, nargs, dst) + seq![ins1("call"@, name), ins2("mov"@, t.reg(dst), t.return_reg())]
        + restores(t, nargs, dst)
}

/// An add or subtract (mnemonic `wide`) of the literal `v` to register `l`:
/// nothing for zero, the one-step instruction `narrow` for one, and
/// otherwise the literal materialised and the register form.
pub open spec fn add_sub_imm_lines(
    t: Target,
    wide: Seq<char>,
    narrow: Seq<char>,
    l: nat,
    v: nat,
) -> Seq<Seq<char>> {
    if v == 0 {
        Seq::empty()
    } else if v == 1 {
        seq![ins1(narrow, t.reg(l))]
    } else {
        seq![
            ins2("loadn"@, imm_holder(t, l), imm(t.word(v))),
            ins3(wide, t.reg(l), t.reg(l), imm_holder(t, l)),
        ]
    }
}

/// The shift that multiplies by `v`: the exponent `k` where `v` is the power
/// of two `2^k` and below 256, and `None` otherwise.
pub open spec fn strength_shift(v: nat) -> Option<nat> {
    if v < 256 && exists|k: nat| pow2(k) == v {
        Some(choose|k: nat| pow2(k) == v)
    } else {
        None
    }
}

/// A multiplication of register `l` by the literal `v`: a left shift where
/// [`strength_shift`] gives one, and otherwise the literal materialised in
/// the scratch register and a general multiply.
pub open spec fn mul_imm_lines(t: Target, l: nat, v: nat) -> Seq<Seq<char>> {
    match strength_shift(v) {
        Some(k) => seq![ins2("shiftl0"@, t.reg(l), t.shift_amount(k))],
        None => seq![
            ins2("loadn"@, t.scratch(), imm(t.word(v))),
            ins3("mul"@, t.reg(l), t.reg(l), t.scratch()),
        ],
    }
}

/// The lines that one instruction lowers to. `ret` is the name of the
/// epilogue label of the function that holds the instruction.
pub open spec fn instr_lines(t: Target, ir: IR, ret: Seq<char>) -> Seq<Seq<char>> {
    let l = operand(ir.lhs);
    let r = operand(ir.rhs);
    match ir.op {
        IROp::Imm => seq![ins2("loadn"@, t.reg(l), imm(t.word(r)))],
        IROp::Mov => seq![ins2("mov"@, t.reg(l), t.reg(r))],
        IROp::Return => seq![ins2("mov"@, t.return_reg(), t.reg(l)), ins1("jmp"@, ret)],
        IROp::Outchar => seq![ins2("outchar"@, t.reg(l), t.reg(r))],
        IROp::Inchar => seq![ins1("inchar"@, t.reg(l))],
        IROp::Call(name, nargs, _) => call_lines(t, name@, nargs as nat, l),
        IROp::Label => seq![label_def(local_label(l))],
        IROp::LabelAddr(name) => seq![ins2("loadn"@, t.reg(l), imm(name@))],
        IROp::Neg => negate_lines(t, t.reg(l)),
        IROp::EQ => compare_lines(t, CMPS::EQ, l, r),
        IROp::NE => compare_lines(t, CMPS::NE, l, r),
        IROp::LT => compare_lines(t, CMPS::LT, l, r),
        IROp::LE => compare_lines(t, CMPS::LE, l, r),
        IROp::AND => seq![ins3("and"@, t.reg(l), t.reg(l), t.reg(r))],
        IROp::OR => seq![ins3("or"@, t.reg(l), t.reg(l), t.reg(r))],
        IROp::XOR => seq![ins3("xor"@, t.reg(l), t.reg(l), t.reg(r))],
        IROp::SHL => seq![ins2("shiftl0"@, t.reg(l), t.reg(r))],
        IROp::SHR => seq![ins2("shiftr0"@, t.reg(l), t.reg(r))],
        IROp::Mod => seq![ins3("mod"@, t.reg(l), t.reg(l), t.reg(r))],
        IROp::Jmp => seq![ins1("jmp"@, local_label(l))],
        IROp::If => seq![ins1("jnz"@, local_label(r))],
        IROp::Unless => seq![ins1("jz"@, local_label(r))],
        IROp::Load(_) => seq![ins2("loadi"@, t.reg(l), t.reg(r))],
        IROp::Store(_) => seq![ins2("storei"@, t.reg(l), t.reg(r))],
        IROp::StoreArg(_) => store_arg_lines(t, l, t.reg(r)),
        IROp::Add => seq![ins3("add"@, t.reg(l), t.reg(l), t.reg(r))],
        IROp::AddImm => add_sub_imm_lines(t, "add"@, "inc"@, l, r),
        IROp::Sub => seq![ins3("sub"@, t.reg(l), t.reg(l), t.reg(r))],
        IROp::SubImm => add_sub_imm_lines(t, "sub"@, "dec"@, l, r),
        IROp::Bprel => frame_address_lines(t, t.reg(l), r),
        IROp::Mul => seq![ins3("mul"@, t.reg(l), t.reg(l), t.reg(r))],
        IROp::MulImm => mul_imm_lines(t, l, r),
        IROp::Div => seq![ins3("div"@, t.reg(l), t.reg(l), t.reg(r))],
        IROp::Nop | IROp::Kill => Seq::empty(),
    }
}

/// Powers of two with different exponents differ.
pub proof fn lemma_pow2_injective(a: nat, b: nat)
    requires
        pow2(a) == pow2(b),
    ensures
        a == b,
{
    if a < b {
        lemma_pow2_strictly_increases(a, b);
    } else if b < a {
        lemma_pow2_strictly_increases(b, a);
    }
}

/// Decides [`strength_shift`].
pub fn shift_for(v: usize) -> (r: Option<u32>)
    ensures
        r is Some <==> strength_shift(v as nat) is Some,
        r is Some ==> r->0 as nat == strength_shift(v as nat)->0,
{
    let mut k: u32 = 0;
    let mut p: usize = 1;
    proof {
        lemma2_to64();
    }
    while k < 8
        invariant
            k <= 8,
            p == pow2(k as nat),
            p <= 256,
            forall|j: nat| j < k ==> pow2(j) != v,
        decreases 8 - k,
    {
        proof {
            lemma2_to64();
            lemma_pow2_strictly_increases(k as nat, 8);
        }
        if p == v {
            proof {
                assert(pow2(k as nat) == v as nat);
                let chosen = choose|j: nat| pow2(j) == v as nat;
                lemma_pow2_injective(chosen, k as nat);
            }
            return Some(k);
        }
        proof {
            lemma_pow2_unfold((k + 1) as nat);
        }
        p = p * 2;
        k = k + 1;
    }
    proof {
        lemma2_to64();
        assert forall|j: nat| pow2(j) == v as nat implies v >= 256 by {
            if j > 8 {
                lemma_pow2_strictly_increases(8, j);
            }
        }
    }
    None
}

/// Emits [`compare_lines`].
pub(crate) fn compare(
    out: &mut String,
    t: Target,
    c: CMPS,
    l: usize,
    r: usize,
    Ghost(base): Ghost<Seq<char>>,
    done: &mut Ghost<Seq<Seq<char>>>,
)
    requires
        l < REGS_N,
        r < REGS_N,
        old(out)@ == base + text(old(done)@),
    ensures
        final(out)@ == base + text(final(done)@),
        final(done)@ == old(done)@ + compare_lines(t, c, l as nat, r as nat),
{
    emit2(out, "cmp", t.reg_name(l), t.reg_name(r), Ghost(base), done);
    emit1(out, "push", t.flags_name(), Ghost(base), done);
    emit1(out, "pop", t.reg_name(l), Ghost(base), done);
    let mask: u128 = match c {
        CMPS::EQ => 0b100,
        CMPS::NE => {
            complement(out, t, t.reg_name(l), Ghost(base), done);
            0b100
        },
        CMPS::LT => 0b10,
        CMPS::LE => 0b110,
    };
    emit2(out, "loadn", t.scratch_name(), imm_decimal(mask).as_str(), Ghost(base), done);
    emit3(out, "and", t.reg_name(l), t.reg_name(l), t.scratch_name(), Ghost(base), done);
    assert(done@ =~= old(done)@ + compare_lines(t, c, l as nat, r as nat));
}

/// Emits [`call_lines`].
pub(crate) fn call(
    out: &mut String,
    t: Target,
    name: &str,
    nargs: usize,
    dst: usize,
    Ghost(base): Ghost<Seq<char>>,
    done: &mut Ghost<Seq<Seq<char>>>,
)
    requires
        dst < REGS_N,
        old(out)@ == base + text(old(done)@),
    ensures
        final(out)@ == base + text(final(done)@),
        final(done)@ == old(done)@ + call_lines(t, name@, nargs as nat, dst as nat),
{
    let ghost start = done@;
    let mut i: usize = nargs;
    while i < dst
        invariant
            dst < REGS_N,
            nargs <= i,
            nargs <= dst ==> i <= dst,
            nargs > dst ==> i == nargs,
            out@ == base + text(done@),
            done@ == start + saves(t, nargs as nat, i as nat),
        decreases dst - i,
    {
        emit1(out, "push", t.reg_name(i), Ghost(base), done);
        i = i + 1;
        assert(done@ =~= start + saves(t, nargs as nat, i as nat));
    }
    assert(saves(t, nargs as nat, i as nat) =~= saves(t, nargs as nat, dst as nat));
    emit1(out, "call", name, Ghost(base), done);
    emit2(out, "mov", t.reg_name(dst), t.return_reg_name(), Ghost(base), done);
    let ghost middle = done@;
    let mut j: usize = dst;
    while j > nargs
        invariant
            dst < REGS_N,
            j <= dst,
            nargs <= dst ==> nargs <= j,
            nargs > dst ==> j == dst,
            out@ == base + text(done@),
            done@ == middle + restores(t, j as nat, dst as nat),
        decreases j,
    {
        j = j - 1;
        emit1(out, "pop", t.reg_name(j), Ghost(base), done);
        assert(done@ =~= middle + restores(t, j as nat, dst as nat));
    }
    assert(restores(t, j as nat, dst as nat) =~= restores(t, nargs as nat, dst as nat));
    assert(done@ =~= start + call_lines(t, name@, nargs as nat, dst as nat));
}

/// Emits [`add_sub_imm_lines`].
pub(crate) fn add_sub_imm(
    out: &mut String,
    t: Target,
    wide: &str,
    narrow: &str,
    l: usize,
    v: usize,
    Ghost(base): Ghost<Seq<char>>,
    done: &mut Ghost<Seq<Seq<char>>>,
)
    requires
        l < REGS_N,
        t.imm_in_next_reg() && v > 1 ==> l + 1 < REGS_N,
        old(out)@ == base + text(old(done)@),
    ensures
        final(out)@ == base + text(final(done)@),
        final(done)@ == old(done)@ + add_sub_imm_lines(t, wide@, narrow@, l as nat, v as nat),
{
    if v == 0 {
    } else if v == 1 {
        emit1(out, narrow, t.reg_name(l), Ghost(base), done);
    } else {
        let holder = if t.puts_imm_in_next_reg() {
            t.reg_name(l + 1)
        } else {
            t.scratch_name()
        };
        emit2(out, "loadn", holder, t.word_operand(v).as_str(), Ghost(base), done);
        emit3(out, wide, t.reg_name(l), t.reg_name(l), holder, Ghost(base), done);
    }
    assert(done@ =~= old(done)@ + add_sub_imm_lines(t, wide@, narrow@, l as nat, v as nat));
}

/// Emits [`mul_imm_lines`].
pub(crate) fn mul_imm(
    out: &mut String,
    t: Target,
    l: usize,
    v: usize,
    Ghost(base): Ghost<Seq<char>>,
    done: &mut Ghost<Seq<Seq<char>>>,
)
    requires
        l < REGS_N,
        old(out)@ == base + text(old(done)@),
    ensures
        final(out)@ == base + text(final(done)@),
        final(done)@ == old(done)@ + mul_imm_lines(t, l as nat, v as nat),
{
    match shift_for(v) {
        Some(k) => {
            let amount = t.shift_amount_operand(k);
            emit2(out, "shiftl0", t.reg_name(l), amount.as_str(), Ghost(base), done);
        },
        None => {
            emit2(out, "loadn", t.scratch_name(), t.word_operand(v).as_str(), Ghost(base), done);
            emit3(out, "mul", t.reg_name(l), t.reg_name(l), t.scratch_name(), Ghost(base), done);
        },
    }
    assert(done@ =~= old(done)@ + mul_imm_lines(t, l as nat, v as nat));
}

/// Lowers one instruction after the lines in `done`.
pub(crate) fn lower_into(
    out: &mut String,
    t: Target,
    ir: &IR,
    ret: &str,
    Ghost(base): Ghost<Seq<char>>,
    done: &mut Ghost<Seq<Seq<char>>>,
)
    requires
        ir.well_formed(t),
        old(out)@ == base + text(old(done)@),
    ensures
        final(out)@ == base + text(final(done)@),
        final(done)@ == old(done)@ + instr_lines(t, *ir, ret@),
{
    let l = match ir.lhs {
        Some(v) => v,
        None => 0,
    };
    let r = match ir.rhs {
        Some(v) => v,
        None => 0,
    };
    match &ir.op {
        IROp::Imm => {
            emit2(out, "loadn", t.reg_name(l), t.word_operand(r).as_str(), Ghost(base), done);
        },
        IROp::Mov => emit2(out, "mov", t.reg_name(l), t.reg_name(r), Ghost(base), done),
        IROp::Return => {
            emit2(out, "mov", t.return_reg_name(), t.reg_name(l), Ghost(base), done);
            emit1(out, "jmp", ret, Ghost(base), done);
        },
        IROp::Outchar => emit2(out, "outchar", t.reg_name(l), t.reg_name(r), Ghost(base), done),
        IROp::Inchar => emit1(out, "inchar", t.reg_name(l), Ghost(base), done),
        IROp::Call(name, nargs, _) => call(out, t, name.as_str(), *nargs, l, Ghost(base), done),
        IROp::Label => emit_label(out, local_label_name(l).as_str(), Ghost(base), done),
        IROp::LabelAddr(name) => {
            let mut address = String::new();
            address.append("#");
            address.append(name.as_str());
            assert(address@ =~= imm(name@));
            emit2(out, "loadn", t.reg_name(l), address.as_str(), Ghost(base), done);
        },
        IROp::Neg => negate(out, t, t.reg_name(l), Ghost(base), done),
        IROp::EQ => compare(out, t, CMPS::EQ, l, r, Ghost(base), done),
        IROp::NE => compare(out, t, CMPS::NE, l, r, Ghost(base), done),
        IROp::LT => compare(out, t, CMPS::LT, l, r, Ghost(base), done),
        IROp::LE => compare(out, t, CMPS::LE, l, r, Ghost(base), done),
        IROp::AND => {
            emit3(out, "and", t.reg_name(l), t.reg_name(l), t.reg_name(r), Ghost(base), done);
        },
        IROp::OR => {
            emit3(out, "or", t.reg_name(l), t.reg_name(l), t.reg_name(r), Ghost(base), done);
        },
        IROp::XOR => {
            emit3(out, "xor", t.reg_name(l), t.reg_name(l), t.reg_name(r), Ghost(base), done);
        },
        IROp::SHL => emit2(out, "shiftl0", t.reg_name(l), t.reg_name(r), Ghost(base), done),
        IROp::SHR => emit2(out, "shiftr0", t.reg_name(l), t.reg_name(r), Ghost(base), done),
        IROp::Mod => {
            emit3(out, "mod", t.reg_name(l), t.reg_name(l), t.reg_name(r), Ghost(base), done);
        },
        IROp::Jmp => emit1(out, "jmp", local_label_name(l).as_str(), Ghost(base), done),
        IROp::If => emit1(out, "jnz", local_label_name(r).as_str(), Ghost(base), done),
        IROp::Unless => emit1(out, "jz", local_label_name(r).as_str(), Ghost(base), done),
        IROp::Load(_) => emit2(out, "loadi", t.reg_name(l), t.reg_name(r), Ghost(base), done),
        IROp::Store(_) => emit2(out, "storei", t.reg_name(l), t.reg_name(r), Ghost(base), done),
        IROp::StoreArg(_) => store_arg(out, t, l, t.reg_name(r), Ghost(base), done),
        IROp::Add => {
            emit3(out, "add", t.reg_name(l), t.reg_name(l), t.reg_name(r), Ghost(base), done);
        },
        IROp::AddImm => add_sub_imm(out, t, "add", "inc", l, r, Ghost(base), done),
        IROp::Sub => {
            emit3(out, "sub", t.reg_name(l), t.reg_name(l), t.reg_name(r), Ghost(base), done);
        },
        IROp::SubImm => add_sub_imm(out, t, "sub", "dec", l, r, Ghost(base), done),
        IROp::Bprel => frame_address(out, t, t.reg_name(l), r, Ghost(base), done),
        IROp::Mul => {
            emit3(out, "mul", t.reg_name(l), t.reg_name(l), t.reg_name(r), Ghost(base), done);
        },
        IROp::MulImm => mul_imm(out, t, l, r, Ghost(base), done),
        IROp::Div => {
            emit3(out, "div", t.reg_name(l), t.reg_name(l), t.reg_name(r), Ghost(base), done);
        },
        IROp::Nop | IROp::Kill => {},
    }
    assert(done@ =~= old(done)@ + instr_lines(t, *ir, ret@));
}

/// Lowers one instruction of a function whose epilogue label is `ret`, and
/// appends its text to `output`.
pub fn lower(output: &mut String, target: Target, ir: &IR, ret: &str)
    requires
        ir.well_formed(target),
    ensures
        final(output)@ == old(output)@ + text(instr_lines(target, *ir, ret@)),
{
    let ghost base = output@;
    let mut done: Ghost<Seq<Seq<char>>> = Ghost(Seq::empty());
    assert(output@ =~= base + text(done@));
    lower_into(output, target, ir, ret, Ghost(base), &mut done);
    assert(done@ =~= instr_lines(target, *ir, ret@));
}

/// Lowers the comparison `cmp` of the registers in the two slots of `ir`,
/// whatever the tag of `ir`, and appends its text to `output`: the flags of
/// the compare are captured in the left register and masked to a boolean.
pub fn emit_cmp(output: &mut String, target: Target, ir: &IR, cmp: CMPS)
    requires
        slot_ok(Slot::Register, ir.lhs),
        slot_ok(Slot::Register, ir.rhs),
    ensures
        final(output)@ == old(output)@ + text(
            compare_lines(target, cmp, operand(ir.lhs), operand(ir.rhs)),
        ),
{
    let ghost base = output@;
    let mut done: Ghost<Seq<Seq<char>>> = Ghost(Seq::empty());
    assert(output@ =~= base + text(done@));
    match (ir.lhs, ir.rhs) {
        (Some(l), Some(r)) => compare(output, target, cmp, l, r, Ghost(base), &mut done),
        _ => {},
    }
    assert(done@ =~= compare_lines(target, cmp, operand(ir.lhs), operand(ir.rhs)));
}

/// The lines of a sequence of instructions, in order.
pub open spec fn body_lines(t: Target, irs: Seq<IR>, ret: Seq<char>) -> Seq<Seq<char>>
    decreases irs.len(),
{
    if irs.len() == 0 {
        Seq::empty()
    } else {
        body_lines(t, irs.drop_last(), ret) + instr_lines(t, irs.last(), ret)
    }
}

/// The lines of a function whose epilogue label has the number `label`: its
/// name as a label, the frame built, the body, the epilogue label, the frame
/// dropped, and the return.
pub open spec fn function_lines(t: Target, f: Function, label: nat) -> Seq<Seq<char>> {
    seq![label_def(f.name@)] + frame_enter_lines(t, f.stacksize as nat) + body_lines(
        t,
        f.ir@,
        epilogue_label(label),
    ) + seq![label_def(epilogue_label(label))] + frame_leave_lines(t, f.stacksize as nat)
        + seq![ins0("rts"@)]
}

/// What one compilation carries from function to function: the machine, and
/// the number of the next epilogue label. Every function takes a fresh
/// number, and the numbers only grow, so that no two epilogue labels of one
/// compilation collide.
#[derive(Debug)]
pub struct Context {
    target: Target,
    next_label: usize,
}

impl Context {
    /// The machine that code is generated for.
    pub closed spec fn spec_target(&self) -> Target {
        self.target
    }

    /// The number that the next epilogue label takes.
    pub closed spec fn spec_next_label(&self) -> usize {
        self.next_label
    }

    /// The context of a new compilation for `target`: labels count from
    /// zero.
    pub fn new(target: Target) -> (ctx: Self)
        ensures
            ctx.target() == target,
            ctx.next_label() == 0,
    {
        Context { target, next_label: 0 }
    }

    /// The machine that code is generated for.
    #[verifier::when_used_as_spec(spec_target)]
    pub fn target(&self) -> (t: Target)
        ensures
            t == self.target(),
    {
        self.target
    }

    /// The number that the next epilogue label takes.
    #[verifier::when_used_as_spec(spec_next_label)]
    pub fn next_label(&self) -> (n: usize)
        ensures
            n == self.next_label(),
    {
        self.next_label
    }

    /// Takes the next epilogue label number.
    pub fn fresh_label(&mut self) -> (n: usize)
        requires
            old(self).next_label() < usize::MAX,
        ensures
            n == old(self).next_label(),
            final(self).next_label() == n + 1,
            final(self).target() == old(self).target(),
    {
        let n = self.next_label;
        self.next_label = n + 1;
        n
    }
}

/// Lowers the function `f` after the lines in `done`, with the epilogue
/// label number `label`.
pub(crate) fn gen_into(
    out: &mut String,
    t: Target,
    f: &Function,
    label: usize,
    Ghost(base): Ghost<Seq<char>>,
    done: &mut Ghost<Seq<Seq<char>>>,
)
    requires
        f.well_formed(t),
        old(out)@ == base + text(old(done)@),
    ensures
        final(out)@ == base + text(final(done)@),
        final(done)@ == old(done)@ + function_lines(t, *f, label as nat),
{
    let ret = epilogue_label_name(label);
    emit_label(out, f.name.as_str(), Ghost(base), done);
    frame_enter(out, t, f.stacksize, Ghost(base), done);
    let ghost head = done@;
    let mut i: usize = 0;
    while i < f.ir.len()
        invariant
            i <= f.ir@.len(),
            f.well_formed(t),
            ret@ == epilogue_label(label as nat),
            out@ == base + text(done@),
            done@ == head + body_lines(t, f.ir@.take(i as int), ret@),
        decreases f.ir@.len() - i,
    {
        lower_into(out, t, &f.ir[i], ret.as_str(), Ghost(base), done);
        proof {
            let next = f.ir@.take(i + 1);
            assert(next.drop_last() =~= f.ir@.take(i as int));
            assert(next.last() == f.ir@[i as int]);
            assert(done@ =~= head + body_lines(t, next, ret@));
        }
        i = i + 1;
    }
    assert(f.ir@.take(i as int) =~= f.ir@);
    emit_label(out, ret.as_str(), Ghost(base), done);
    frame_leave(out, t, f.stacksize, Ghost(base), done);
    emit0(out, "rts", Ghost(base), done);
    assert(done@ =~= old(done)@ + function_lines(t, *f, label as nat));
}

/// Lowers the function `f` and appends its text to `output`. The epilogue
/// label takes the next number of `ctx`, which every `Return` of the function
/// jumps to.
pub fn gen(output: &mut String, f: &Function, ctx: &mut Context)
    requires
        f.well_formed(old(ctx).target()),
        old(ctx).next_label() < usize::MAX,
    ensures
        final(ctx).target() == old(ctx).target(),
        final(ctx).next_label() == old(ctx).next_label() + 1,
        final(output)@ == old(output)@ + text(
            function_lines(old(ctx).target(), *f, old(ctx).next_label() as nat),
        ),
{
    let ghost base = output@;
    let mut done: Ghost<Seq<Seq<char>>> = Ghost(Seq::empty());
    assert(output@ =~= base + text(done@));
    let t = ctx.target();
    let label = ctx.fresh_label();
    gen_into(output, t, f, label, Ghost(base), &mut done);
    assert(done@ =~= function_lines(t, *f, label as nat));
}

} // verus!
