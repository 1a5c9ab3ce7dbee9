//! What holds of the generated code, whatever the input.

use vstd::arithmetic::power2::*;
use vstd::prelude::*;

use crate::codegen::{
    body_lines, call_lines, function_lines, instr_lines, lemma_pow2_injective, restores, saves,
    strength_shift,
};
use crate::ir::{operand, Function, IROp, IR};
use crate::program::{
    data_lines, entry_lines, functions_lines, functions_ok, global_lines, globals_ok,
    is_first_fault, lowered, storage_directive, string_directive, GenError,
};
use crate::target::{frame_enter_lines, frame_leave_lines, Target};
use crate::text::{
    decimal, epilogue_label, imm, ins0, ins1, ins2, ins3, is_digit, label_def,
    lemma_decimal_digits, lemma_decimal_injective, lemma_same_prefix, local_label, text,
};
use crate::{Scope, Var};

verus! {

/// A program has at most one first fault.
pub proof fn lemma_first_fault_unique(
    t: Target,
    fns: Seq<Function>,
    globals: Seq<Var>,
    a: GenError,
    b: GenError,
)
    requires
        is_first_fault(t, fns, globals, a),
        is_first_fault(t, fns, globals, b),
    ensures
        a == b,
{
    match (a, b) {
        (
            GenError::Malformed { function: f1, index: i1 },
            GenError::Malformed { function: f2, index: i2 },
        ) => {
            if f1 < f2 {
                assert(fns.take(f2 as int)[f1 as int].well_formed(t));
            } else if f2 < f1 {
                assert(fns.take(f1 as int)[f2 as int].well_formed(t));
            }
            assert(i1 == i2);
        },
        (GenError::NotGlobal { variable: v1 }, GenError::NotGlobal { variable: v2 }) => {
            if v1 < v2 {
                assert(globals.take(v2 as int)[v1 as int].scope is Global);
            } else if v2 < v1 {
                assert(globals.take(v1 as int)[v2 as int].scope is Global);
            }
        },
        (GenError::Malformed { function, index }, GenError::NotGlobal { .. }) => {
            assert(fns[function as int].well_formed(t));
        },
        (GenError::NotGlobal { .. }, GenError::Malformed { function, index }) => {
            assert(fns[function as int].well_formed(t));
        },
    }
}

/// Lowering is deterministic: two runs on the same functions and variables,
/// onto outputs that hold the same text, return the same result and leave
/// the same text.
pub proof fn lemma_lowering_deterministic(
    t: Target,
    fns: Seq<Function>,
    globals: Seq<Var>,
    before: Seq<char>,
    r1: Result<(), GenError>,
    after1: Seq<char>,
    r2: Result<(), GenError>,
    after2: Seq<char>,
)
    requires
        lowered(t, fns, globals, before, r1, after1),
        lowered(t, fns, globals, before, r2, after2),
    ensures
        r1 == r2,
        after1 == after2,
{
    match (r1, r2) {
        (Err(a), Err(b)) => {
            lemma_first_fault_unique(t, fns, globals, a, b);
        },
        (Err(a), Ok(_)) => {
            lemma_fault_excludes_success(t, fns, globals, a);
        },
        (Ok(_), Err(b)) => {
            lemma_fault_excludes_success(t, fns, globals, b);
        },
        (Ok(x), Ok(y)) => {
            assert(x == y);
        },
    }
}

/// A program with a first fault has a function that is not well formed or
/// a variable that is not a global.
pub proof fn lemma_fault_excludes_success(
    t: Target,
    fns: Seq<Function>,
    globals: Seq<Var>,
    e: GenError,
)
    requires
        is_first_fault(t, fns, globals, e),
    ensures
        !(functions_ok(t, fns) && globals_ok(globals)),
{
    match e {
        GenError::Malformed { function, index } => {
            if functions_ok(t, fns) {
                assert(fns[function as int].well_formed(t));
            }
        },
        GenError::NotGlobal { variable } => {
            if globals_ok(globals) {
                assert(globals[variable as int].scope is Global);
            }
        },
    }
}

/// Epilogue labels with different numbers have different names: the
/// functions of one compilation, each lowered under a number of its own, have
/// epilogue labels that differ pairwise.
pub proof fn lemma_epilogue_labels_distinct(i: nat, j: nat)
    requires
        i != j,
    ensures
        epilogue_label(i) != epilogue_label(j),
{
    if epilogue_label(i) == epilogue_label(j) {
        lemma_same_prefix("Lend"@, decimal(i), decimal(j));
        lemma_decimal_injective(i, j);
    }
}

/// In a program the function at index `i` has the epilogue label with the
/// number `first + i`: the lines of the functions up to and including it end
/// with its own lines under that number.
pub proof fn lemma_function_takes_own_label(t: Target, fns: Seq<Function>, first: nat, i: int)
    requires
        0 <= i < fns.len(),
    ensures
        functions_lines(t, fns.take(i + 1), first) == functions_lines(t, fns.take(i), first)
            + function_lines(t, fns[i], (first + i) as nat),
{
    assert(fns.take(i + 1).drop_last() =~= fns.take(i));
    assert(fns.take(i + 1).last() == fns[i]);
}

/// No epilogue label has the name of a local label.
pub proof fn lemma_epilogue_label_is_not_local(n: nat, id: nat)
    ensures
        epilogue_label(n) != local_label(id),
{
    reveal_strlit("Lend");
    reveal_strlit("L");
    lemma_decimal_digits(id);
    assert(epilogue_label(n)[1] == 'e');
    assert(local_label(id)[1] == decimal(id)[0]);
    assert(is_digit(decimal(id)[0]));
}

/// Adding or subtracting the literal zero emits no line, and so no text.
pub proof fn lemma_zero_immediate_emits_nothing(t: Target, ir: IR, ret: Seq<char>)
    requires
        ir.op is AddImm || ir.op is SubImm,
        ir.rhs == Some(0usize),
    ensures
        instr_lines(t, ir, ret) == Seq::<Seq<char>>::empty(),
        text(instr_lines(t, ir, ret)) == Seq::<char>::empty(),
{
}

/// The shift that replaces a multiplication by `2^k`, below 256, is `k`.
pub proof fn lemma_strength_shift_of_power(k: nat)
    requires
        pow2(k) < 256,
    ensures
        strength_shift(pow2(k)) == Some(k),
{
    let chosen = choose|j: nat| pow2(j) == pow2(k);
    lemma_pow2_injective(chosen, k);
}

/// Multiplying by a literal `2^k` below 256 emits one shift by `k` and no
/// multiply.
pub proof fn lemma_multiply_by_power_of_two_shifts(t: Target, ir: IR, ret: Seq<char>, k: nat)
    requires
        ir.op is MulImm,
        operand(ir.rhs) == pow2(k),
        pow2(k) < 256,
    ensures
        instr_lines(t, ir, ret) == seq![
            ins2("shiftl0"@, t.reg(operand(ir.lhs)), t.shift_amount(k)),
        ],
{
    lemma_strength_shift_of_power(k);
}

/// Multiplying by a literal that is no power of two, or is 256 or more,
/// emits the literal materialised in the scratch register and a general
/// multiply.
pub proof fn lemma_multiply_otherwise_is_general(t: Target, ir: IR, ret: Seq<char>)
    requires
        ir.op is MulImm,
        operand(ir.rhs) >= 256 || forall|k: nat| pow2(k) != operand(ir.rhs),
    ensures
        instr_lines(t, ir, ret) == seq![
            ins2("loadn"@, t.scratch(), imm(t.word(operand(ir.rhs)))),
            ins3("mul"@, t.reg(operand(ir.lhs)), t.reg(operand(ir.lhs)), t.scratch()),
        ],
{
}

/// A call with `a` arguments and destination `d`, `a` not above `d`, saves
/// the registers from `a` up to `d` in ascending order, calls, copies the
/// return value to `d`, and restores the same registers in descending order.
pub proof fn lemma_call_saves_and_restores(t: Target, ir: IR, ret: Seq<char>)
    requires
        ir.op is Call,
        ir.op->Call_1 <= operand(ir.lhs),
    ensures
        ({
            let lines = instr_lines(t, ir, ret);
            let a = ir.op->Call_1 as int;
            let d = operand(ir.lhs) as int;
            let n = d - a;
            &&& lines.len() == 2 * n + 2
            &&& forall|i: int| 0 <= i < n ==> lines[i] == ins1("push"@, t.reg((a + i) as nat))
            &&& lines[n] == ins1("call"@, ir.op->Call_0@)
            &&& lines[n + 1] == ins2("mov"@, t.reg(d as nat), t.return_reg())
            &&& forall|i: int|
                n + 2 <= i < 2 * n + 2 ==> lines[i] == ins1(
                    "pop"@,
                    t.reg((d - 1 - (i - n - 2)) as nat),
                )
        }),
{
    assert(instr_lines(t, ir, ret) == call_lines(
        t,
        ir.op->Call_0@,
        ir.op->Call_1 as nat,
        operand(ir.lhs),
    ));
}

/// A variable that is only declared here emits no line of the data section.
pub proof fn lemma_extern_global_emits_nothing(v: Var)
    requires
        v.scope matches Scope::Global(_, _, is_extern) && is_extern,
    ensures
        global_lines(v) == Seq::<Seq<char>>::empty(),
{
}

/// Adding a variable that is only declared here leaves the data section as
/// it was.
pub proof fn lemma_extern_global_adds_nothing(vars: Seq<Var>, v: Var)
    requires
        v.scope matches Scope::Global(_, _, is_extern) && is_extern,
    ensures
        data_lines(vars.push(v)) == data_lines(vars),
{
    assert(vars.push(v).drop_last() =~= vars);
    assert(data_lines(vars) + global_lines(v) =~= data_lines(vars));
}

/// On every machine a defined global with an initialiser emits exactly one
/// line, the directive that holds the initialiser between quotes under the
/// name of the global, and no storage reservation.
pub proof fn lemma_initialised_global_emits_string(v: Var)
    requires
        v.scope matches Scope::Global(data, _, is_extern) && !is_extern && data@.len() > 0,
    ensures
        global_lines(v) == seq![string_directive(v.name@, v.scope->Global_0@)],
        string_directive(v.name@, v.scope->Global_0@) == v.name@ + " : string \""@
            + v.scope->Global_0@ + "\""@,
{
}

/// On every machine a defined global without an initialiser emits exactly
/// one line, the directive that reserves its length.
pub proof fn lemma_uninitialised_global_reserves_storage(v: Var)
    requires
        v.scope matches Scope::Global(data, _, is_extern) && !is_extern && data@.len() == 0,
    ensures
        global_lines(v) == seq![storage_directive(v.name@, v.scope->Global_1 as nat)],
        storage_directive(v.name@, v.scope->Global_1 as nat) == v.name@ + " : var #"@ + decimal(
            v.scope->Global_1 as nat,
        ),
{
}

/// A function without locals emits no line that saves or restores a frame:
/// its label, its body, its epilogue label, and the return.
pub proof fn lemma_no_frame_without_locals(t: Target, f: Function, label: nat)
    requires
        f.stacksize == 0,
    ensures
        function_lines(t, f, label) == seq![label_def(f.name@)] + body_lines(
            t,
            f.ir@,
            epilogue_label(label),
        ) + seq![label_def(epilogue_label(label)), ins0("rts"@)],
{
    assert(function_lines(t, f, label) =~= seq![label_def(f.name@)] + body_lines(
        t,
        f.ir@,
        epilogue_label(label),
    ) + seq![label_def(epilogue_label(label)), ins0("rts"@)]);
}

/// A function with locals emits, on every machine, one frame save before
/// its body and one frame restore after its epilogue label: the save begins
/// with the push of the frame base, directly after the function's label, and
/// the restore ends with its pop, directly before the return.
pub proof fn lemma_frame_brackets_body(t: Target, f: Function, label: nat)
    requires
        f.stacksize > 0,
    ensures
        ({
            let lines = function_lines(t, f, label);
            let body = body_lines(t, f.ir@, epilogue_label(label));
            let n = body.len() as int;
            &&& frame_enter_lines(t, f.stacksize as nat).len() == 5
            &&& frame_leave_lines(t, f.stacksize as nat).len() == 2
            &&& lines.len() == n + 10
            &&& lines[0] == label_def(f.name@)
            &&& lines.subrange(1, 6) == frame_enter_lines(t, f.stacksize as nat)
            &&& lines[1] == ins1("push"@, t.frame_base())
            &&& lines.subrange(6, 6 + n) == body
            &&& lines[6 + n] == label_def(epilogue_label(label))
            &&& lines.subrange(7 + n, 9 + n) == frame_leave_lines(
                t,
                f.stacksize as nat,
            )
            &&& lines[8 + n] == ins1("pop"@, t.frame_base())
            &&& lines[9 + n] == ins0("rts"@)
        }),
{
    let lines = function_lines(t, f, label);
    let body = body_lines(t, f.ir@, epilogue_label(label));
    let n = body.len() as int;
    assert(lines.subrange(1, 6) =~= frame_enter_lines(t, f.stacksize as nat));
    assert(lines.subrange(6, 6 + n) =~= body);
    assert(lines.subrange(7 + n, 9 + n) =~= frame_leave_lines(
        t,
        f.stacksize as nat,
    ));
}

/// Whether `line` begins with a tab.
pub open spec fn indented(line: Seq<char>) -> bool {
    line.len() > 0 && line[0] == '\t'
}

/// Whether every line of `lines` begins with a tab.
pub open spec fn all_indented(lines: Seq<Seq<char>>) -> bool {
    forall|i: int| 0 <= i < lines.len() ==> indented(#[trigger] lines[i])
}

/// Every shape of an instruction line begins with a tab.
pub proof fn lemma_shapes_are_indented()
    ensures
        forall|m: Seq<char>| indented(#[trigger] ins0(m)),
        forall|m: Seq<char>, a: Seq<char>| indented(#[trigger] ins1(m, a)),
        forall|m: Seq<char>, a: Seq<char>, b: Seq<char>| indented(#[trigger] ins2(m, a, b)),
        forall|m: Seq<char>, a: Seq<char>, b: Seq<char>, c: Seq<char>|
            indented(#[trigger] ins3(m, a, b, c)),
{
    reveal_strlit("\t");
}

/// The entry stub is indented: its call and its halt are instructions.
pub proof fn lemma_entry_stub_is_indented()
    ensures
        all_indented(entry_lines()),
{
    lemma_shapes_are_indented();
}

/// Lines that are indented stay so when they are put one after the other.
pub proof fn lemma_all_indented_concat(a: Seq<Seq<char>>, b: Seq<Seq<char>>)
    requires
        all_indented(a),
        all_indented(b),
    ensures
        all_indented(a + b),
{
    assert forall|i: int| 0 <= i < (a + b).len() implies indented(#[trigger] (a + b)[i]) by {
        if i < a.len() {
            assert((a + b)[i] == a[i]);
        } else {
            assert((a + b)[i] == b[i - a.len()]);
        }
    }
}

/// Instructions that lower to a fixed line or two are indented.
proof fn lemma_plain_instructions_are_indented(t: Target, ir: IR, ret: Seq<char>)
    ensures
        (ir.op is Imm || ir.op is Mov || ir.op is Outchar || ir.op is Inchar || ir.op is LabelAddr
            || ir.op is AND || ir.op is OR || ir.op is XOR || ir.op is SHL || ir.op is SHR
            || ir.op is Mod || ir.op is Jmp || ir.op is If || ir.op is Unless || ir.op is Load
            || ir.op is Store || ir.op is Add || ir.op is Sub || ir.op is Mul || ir.op is Div
            || ir.op is Nop || ir.op is Kill || ir.op is Return) ==> all_indented(
            instr_lines(t, ir, ret),
        ),
{
    lemma_shapes_are_indented();
}

/// The idioms of the machine are indented.
proof fn lemma_idioms_are_indented(t: Target, ir: IR, ret: Seq<char>)
    ensures
        (ir.op is Neg || ir.op is StoreArg || ir.op is Bprel) ==> all_indented(
            instr_lines(t, ir, ret),
        ),
{
    lemma_shapes_are_indented();
}

/// Arithmetic with a literal is indented.
proof fn lemma_literal_arithmetic_is_indented(t: Target, ir: IR, ret: Seq<char>)
    ensures
        (ir.op is AddImm || ir.op is SubImm || ir.op is MulImm) ==> all_indented(
            instr_lines(t, ir, ret),
        ),
{
    lemma_shapes_are_indented();
}

/// Comparisons are indented.
proof fn lemma_comparisons_are_indented(t: Target, ir: IR, ret: Seq<char>)
    ensures
        (ir.op is EQ || ir.op is NE || ir.op is LT || ir.op is LE) ==> all_indented(
            instr_lines(t, ir, ret),
        ),
{
    lemma_shapes_are_indented();
}

/// Calls are indented.
proof fn lemma_calls_are_indented(t: Target, ir: IR, ret: Seq<char>)
    ensures
        ir.op is Call ==> all_indented(instr_lines(t, ir, ret)),
{
    lemma_shapes_are_indented();
    let l = operand(ir.lhs);
    match ir.op {
        IROp::Call(name, nargs, _) => {
            let before = saves(t, nargs as nat, l);
            let middle = seq![ins1("call"@, name@), ins2("mov"@, t.reg(l), t.return_reg())];
            let after = restores(t, nargs as nat, l);
            lemma_all_indented_concat(before, middle);
            lemma_all_indented_concat(before + middle, after);
        },
        _ => {},
    }
}

/// A local label is defined at the margin.
proof fn lemma_local_label_is_at_the_margin(id: nat)
    ensures
        !indented(label_def(local_label(id))),
{
    reveal_strlit("\t");
    reveal_strlit("L");
    assert(local_label(id)[0] == 'L');
}

/// Instructions are indented and labels are not: every line that an
/// instruction other than a label definition lowers to begins with a tab,
/// and a label definition lowers to the one line that names the local label
/// at the margin.
pub proof fn lemma_instructions_are_indented(t: Target, ir: IR, ret: Seq<char>)
    ensures
        !(ir.op is Label) ==> all_indented(instr_lines(t, ir, ret)),
        ir.op is Label ==> instr_lines(t, ir, ret) == seq![
            label_def(local_label(operand(ir.lhs))),
        ],
        !indented(label_def(local_label(operand(ir.lhs)))),
{
    lemma_plain_instructions_are_indented(t, ir, ret);
    lemma_idioms_are_indented(t, ir, ret);
    lemma_literal_arithmetic_is_indented(t, ir, ret);
    lemma_comparisons_are_indented(t, ir, ret);
    lemma_calls_are_indented(t, ir, ret);
    lemma_local_label_is_at_the_margin(operand(ir.lhs));
}

/// The line that saves the caller's frame base.
pub open spec fn frame_save(t: Target) -> Seq<char> {
    ins1("push"@, t.frame_base())
}

/// The line that restores the caller's frame base.
pub open spec fn frame_restore(t: Target) -> Seq<char> {
    ins1("pop"@, t.frame_base())
}

/// Whether none of `lines` saves or restores the frame base.
pub open spec fn leaves_frame_alone(t: Target, lines: Seq<Seq<char>>) -> bool {
    forall|i: int|
        0 <= i < lines.len() ==> #[trigger] lines[i] != frame_save(t) && lines[i] != frame_restore(
            t,
        )
}

/// The save and the restore of the frame base begin with a tab and a `p`.
proof fn lemma_frame_lines_begin_with_p(t: Target)
    ensures
        frame_save(t)[0] == '\t',
        frame_save(t)[1] == 'p',
        frame_restore(t)[0] == '\t',
        frame_restore(t)[1] == 'p',
{
    reveal_strlit("\t");
    reveal_strlit("push");
    reveal_strlit("pop");
}

/// No push or pop of a physical register or of the flags is the save or the
/// restore of the frame base.
proof fn lemma_registers_are_not_the_frame_base(t: Target, i: nat)
    ensures
        ins1("push"@, t.reg(i)) != frame_save(t),
        ins1("push"@, t.reg(i)) != frame_restore(t),
        ins1("pop"@, t.reg(i)) != frame_save(t),
        ins1("pop"@, t.reg(i)) != frame_restore(t),
        ins1("push"@, t.flags()) != frame_save(t),
        ins1("push"@, t.flags()) != frame_restore(t),
{
    reveal_strlit("\t");
    reveal_strlit(" ");
    reveal_strlit("push");
    reveal_strlit("pop");
    reveal_strlit("r0");
    reveal_strlit("rbp");
    reveal_strlit("fr");
    reveal_strlit("r1");
    reveal_strlit("r2");
    reveal_strlit("r3");
    reveal_strlit("r4");
    reveal_strlit("r5");
    reveal_strlit("r6");
    reveal_strlit("r7");
    let fb = t.frame_base();
    let r = t.reg(i);
    assert(fb[1] == '0' || fb[1] == 'b');
    assert(r[1] != '0' && r[1] != 'b');
    assert(ins1("push"@, r)[7] == r[1]);
    assert(ins1("push"@, fb)[7] == fb[1]);
    assert(ins1("pop"@, r)[6] == r[1]);
    assert(ins1("pop"@, fb)[6] == fb[1]);
    assert(ins1("push"@, r)[2] == 'u');
    assert(ins1("pop"@, r)[2] == 'o');
    assert(ins1("push"@, fb)[2] == 'u');
    assert(ins1("pop"@, fb)[2] == 'o');
    assert(ins1("push"@, t.flags())[6] == 'f');
    assert(ins1("push"@, fb)[6] == 'r');
    assert(ins1("push"@, t.flags())[2] == 'u');
}

/// Whether `line` does not begin with a tab and a `p`, as every push and
/// pop does.
pub open spec fn no_stack_line(line: Seq<char>) -> bool {
    line.len() < 2 || line[0] != '\t' || line[1] != 'p'
}

/// Whether no line of `lines` begins with a tab and a `p`.
pub open spec fn no_stack_lines(lines: Seq<Seq<char>>) -> bool {
    forall|i: int| 0 <= i < lines.len() ==> no_stack_line(#[trigger] lines[i])
}

/// Lines without a push or pop leave the frame alone.
proof fn lemma_no_stack_lines_leave_frame_alone(t: Target, lines: Seq<Seq<char>>)
    requires
        no_stack_lines(lines),
    ensures
        leaves_frame_alone(t, lines),
{
    lemma_frame_lines_begin_with_p(t);
    assert forall|i: int| 0 <= i < lines.len() implies #[trigger] lines[i] != frame_save(t)
        && lines[i] != frame_restore(t) by {
        assert(no_stack_line(lines[i]));
        reveal_strlit("\t");
        reveal_strlit("push");
        reveal_strlit("pop");
    }
}

/// A line whose mnemonic does not begin with `p` is no push or pop.
proof fn lemma_mnemonic_decides()
    ensures
        forall|m: Seq<char>| m.len() > 0 && m[0] != 'p' ==> no_stack_line(#[trigger] ins0(m)),
        forall|m: Seq<char>, a: Seq<char>|
            m.len() > 0 && m[0] != 'p' ==> no_stack_line(#[trigger] ins1(m, a)),
        forall|m: Seq<char>, a: Seq<char>, b: Seq<char>|
            m.len() > 0 && m[0] != 'p' ==> no_stack_line(#[trigger] ins2(m, a, b)),
        forall|m: Seq<char>, a: Seq<char>, b: Seq<char>, c: Seq<char>|
            m.len() > 0 && m[0] != 'p' ==> no_stack_line(#[trigger] ins3(m, a, b, c)),
{
    reveal_strlit("\t");
}

/// Loads, moves, character input and output, returns and labels hold no
/// push or pop.
proof fn lemma_moves_hold_no_stack_line(t: Target, ir: IR, ret: Seq<char>)
    ensures
        (ir.op is Imm || ir.op is Mov || ir.op is Outchar || ir.op is Inchar || ir.op is LabelAddr
            || ir.op is Nop || ir.op is Kill || ir.op is Return || ir.op is Label)
            ==> no_stack_lines(instr_lines(t, ir, ret)),
{
    lemma_mnemonic_decides();
    reveal_strlit("L");
    reveal_strlit("loadn");
    reveal_strlit("mov");
    reveal_strlit("jmp");
    reveal_strlit("outchar");
    reveal_strlit("inchar");
}

/// Arithmetic on two registers holds no push or pop.
proof fn lemma_arithmetic_holds_no_stack_line(t: Target, ir: IR, ret: Seq<char>)
    ensures
        (ir.op is AND || ir.op is OR || ir.op is XOR || ir.op is SHL || ir.op is SHR
            || ir.op is Mod || ir.op is Add || ir.op is Sub || ir.op is Mul || ir.op is Div)
            ==> no_stack_lines(instr_lines(t, ir, ret)),
{
    lemma_mnemonic_decides();
    reveal_strlit("and");
    reveal_strlit("or");
    reveal_strlit("xor");
    reveal_strlit("shiftl0");
    reveal_strlit("shiftr0");
    reveal_strlit("mod");
    reveal_strlit("add");
    reveal_strlit("sub");
    reveal_strlit("mul");
    reveal_strlit("div");
}

/// Jumps, loads and stores hold no push or pop.
proof fn lemma_jumps_hold_no_stack_line(t: Target, ir: IR, ret: Seq<char>)
    ensures
        (ir.op is Jmp || ir.op is If || ir.op is Unless || ir.op is Load || ir.op is Store)
            ==> no_stack_lines(instr_lines(t, ir, ret)),
{
    lemma_mnemonic_decides();
    reveal_strlit("jmp");
    reveal_strlit("jnz");
    reveal_strlit("jz");
    reveal_strlit("loadi");
    reveal_strlit("storei");
}

/// The idioms of the machine, and arithmetic with a literal, hold no push
/// or pop.
proof fn lemma_idioms_hold_no_stack_line(t: Target, ir: IR, ret: Seq<char>)
    ensures
        (ir.op is Neg || ir.op is StoreArg || ir.op is Bprel || ir.op is AddImm || ir.op is SubImm
            || ir.op is MulImm) ==> no_stack_lines(instr_lines(t, ir, ret)),
{
    reveal_strlit("\t");
    reveal_strlit("not");
    reveal_strlit("inc");
    reveal_strlit("dec");
    reveal_strlit("loadn");
    reveal_strlit("sub");
    reveal_strlit("add");
    reveal_strlit("storei");
    reveal_strlit("mov");
    reveal_strlit("lea");
    reveal_strlit("shiftl0");
    reveal_strlit("mul");
}

/// Comparisons leave the frame alone.
proof fn lemma_comparisons_leave_frame_alone(t: Target, ir: IR, ret: Seq<char>)
    ensures
        (ir.op is EQ || ir.op is NE || ir.op is LT || ir.op is LE) ==> leaves_frame_alone(
            t,
            instr_lines(t, ir, ret),
        ),
{
    lemma_frame_lines_begin_with_p(t);
    lemma_registers_are_not_the_frame_base(t, operand(ir.lhs));
    reveal_strlit("\t");
    reveal_strlit("cmp");
    reveal_strlit("not");
    reveal_strlit("loadn");
    reveal_strlit("and");
}

/// Calls leave the frame alone.
proof fn lemma_calls_leave_frame_alone(t: Target, ir: IR, ret: Seq<char>)
    ensures
        ir.op is Call ==> leaves_frame_alone(t, instr_lines(t, ir, ret)),
{
    lemma_frame_lines_begin_with_p(t);
    let l = operand(ir.lhs);
    match ir.op {
        IROp::Call(name, nargs, _) => {
            let before = saves(t, nargs as nat, l);
            let middle = seq![ins1("call"@, name@), ins2("mov"@, t.reg(l), t.return_reg())];
            let after = restores(t, nargs as nat, l);
            assert(leaves_frame_alone(t, before)) by {
                assert forall|i: int| 0 <= i < before.len() implies #[trigger] before[i]
                    != frame_save(t) && before[i] != frame_restore(t) by {
                    lemma_registers_are_not_the_frame_base(t, (nargs + i) as nat);
                }
            }
            assert(leaves_frame_alone(t, after)) by {
                assert forall|i: int| 0 <= i < after.len() implies #[trigger] after[i]
                    != frame_save(t) && after[i] != frame_restore(t) by {
                    lemma_registers_are_not_the_frame_base(t, (l - 1 - i) as nat);
                }
            }
            assert(leaves_frame_alone(t, middle)) by {
                reveal_strlit("\t");
                reveal_strlit("call");
                reveal_strlit("mov");
            }
            lemma_leaves_frame_alone_concat(t, before, middle);
            lemma_leaves_frame_alone_concat(t, before + middle, after);
        },
        _ => {},
    }
}

/// Lines that leave the frame alone still do when they are put one after
/// the other.
pub proof fn lemma_leaves_frame_alone_concat(t: Target, a: Seq<Seq<char>>, b: Seq<Seq<char>>)
    requires
        leaves_frame_alone(t, a),
        leaves_frame_alone(t, b),
    ensures
        leaves_frame_alone(t, a + b),
{
    assert forall|i: int| 0 <= i < (a + b).len() implies #[trigger] (a + b)[i] != frame_save(t)
        && (a + b)[i] != frame_restore(t) by {
        if i < a.len() {
            assert((a + b)[i] == a[i]);
        } else {
            assert((a + b)[i] == b[i - a.len()]);
        }
    }
}

/// No instruction lowers to a line that saves or restores the frame base.
pub proof fn lemma_instruction_leaves_frame_alone(t: Target, ir: IR, ret: Seq<char>)
    ensures
        leaves_frame_alone(t, instr_lines(t, ir, ret)),
{
    lemma_moves_hold_no_stack_line(t, ir, ret);
    lemma_arithmetic_holds_no_stack_line(t, ir, ret);
    lemma_jumps_hold_no_stack_line(t, ir, ret);
    lemma_idioms_hold_no_stack_line(t, ir, ret);
    lemma_comparisons_leave_frame_alone(t, ir, ret);
    lemma_calls_leave_frame_alone(t, ir, ret);
    if !(ir.op is EQ || ir.op is NE || ir.op is LT || ir.op is LE || ir.op is Call) {
        lemma_no_stack_lines_leave_frame_alone(t, instr_lines(t, ir, ret));
    }
}

/// No line of a function's body saves or restores the frame base.
pub proof fn lemma_body_leaves_frame_alone(t: Target, irs: Seq<IR>, ret: Seq<char>)
    ensures
        leaves_frame_alone(t, body_lines(t, irs, ret)),
    decreases irs.len(),
{
    if irs.len() > 0 {
        lemma_body_leaves_frame_alone(t, irs.drop_last(), ret);
        lemma_instruction_leaves_frame_alone(t, irs.last(), ret);
        lemma_leaves_frame_alone_concat(
            t,
            body_lines(t, irs.drop_last(), ret),
            instr_lines(t, irs.last(), ret),
        );
    }
}

/// A line that is no push or pop is no save or restore of the frame base.
proof fn lemma_no_stack_line_is_no_frame_line(t: Target, line: Seq<char>)
    requires
        no_stack_line(line),
    ensures
        line != frame_save(t),
        line != frame_restore(t),
{
    reveal_strlit("\t");
    reveal_strlit("push");
    reveal_strlit("pop");
    assert(frame_save(t).len() >= 2 && frame_save(t)[0] == '\t' && frame_save(t)[1] == 'p');
    assert(frame_restore(t).len() >= 2 && frame_restore(t)[0] == '\t' && frame_restore(t)[1]
        == 'p');
}

/// The lines of the frame other than the save and the restore of the frame
/// base, the labels of a function, and its return are no save or restore of
/// the frame base; and the save is not the restore.
proof fn lemma_frame_lines_differ(t: Target, name: Seq<char>, label: nat, stacksize: nat)
    requires
        stacksize > 0,
    ensures
        frame_save(t) != frame_restore(t),
        frame_enter_lines(t, stacksize)[0] == frame_save(t),
        frame_leave_lines(t, stacksize)[1] == frame_restore(t),
        no_stack_line(frame_enter_lines(t, stacksize)[1]),
        no_stack_line(frame_enter_lines(t, stacksize)[2]),
        no_stack_line(frame_enter_lines(t, stacksize)[3]),
        no_stack_line(frame_enter_lines(t, stacksize)[4]),
        no_stack_line(frame_leave_lines(t, stacksize)[0]),
        no_stack_line(label_def(epilogue_label(label))),
        no_stack_line(ins0("rts"@)),
        label_def(name) != frame_save(t),
        label_def(name) != frame_restore(t),
{
    lemma_mnemonic_decides();
    reveal_strlit("\t");
    reveal_strlit(" ");
    reveal_strlit(":");
    reveal_strlit("push");
    reveal_strlit("pop");
    reveal_strlit("mov");
    reveal_strlit("loadn");
    reveal_strlit("sub");
    reveal_strlit("rts");
    reveal_strlit("Lend");
    reveal_strlit("r0");
    reveal_strlit("rbp");
    assert(frame_save(t)[2] == 'u');
    assert(frame_restore(t)[2] == 'o');
    assert(epilogue_label(label)[0] == 'L');
    assert(label_def(name).last() == ':');
    assert(frame_save(t).last() == t.frame_base().last());
    assert(frame_restore(t).last() == t.frame_base().last());
    assert(t.frame_base().last() == '0' || t.frame_base().last() == 'p');
}

/// In a function with locals exactly one line saves the frame base, the one
/// directly after the function's label, and exactly one line restores it, the
/// one directly before the return. In a function without locals no line does
/// either.
pub proof fn lemma_frame_saved_and_restored_once(t: Target, f: Function, label: nat)
    ensures
        ({
            let lines = function_lines(t, f, label);
            let n = body_lines(t, f.ir@, epilogue_label(label)).len() as int;
            &&& f.stacksize > 0 ==> forall|i: int|
                0 <= i < lines.len() ==> ((#[trigger] lines[i] == frame_save(t)) <==> i == 1) && ((
                lines[i] == frame_restore(t)) <==> i == 8 + n)
            &&& f.stacksize == 0 ==> leaves_frame_alone(t, lines)
        }),
{
    let lines = function_lines(t, f, label);
    let body = body_lines(t, f.ir@, epilogue_label(label));
    let n = body.len() as int;
    lemma_body_leaves_frame_alone(t, f.ir@, epilogue_label(label));
    lemma_frame_lines_begin_with_p(t);
    if f.stacksize > 0 {
        lemma_frame_lines_differ(t, f.name@, label, f.stacksize as nat);
        lemma_frame_brackets_body(t, f, label);
        let enter = frame_enter_lines(t, f.stacksize as nat);
        let leave = frame_leave_lines(t, f.stacksize as nat);
        assert forall|i: int| 0 <= i < lines.len() implies ((#[trigger] lines[i] == frame_save(t))
            <==> i == 1) && ((lines[i] == frame_restore(t)) <==> i == 8 + n) by {
            if i == 0 {
                assert(lines[i] == label_def(f.name@));
            } else if i == 1 {
                assert(lines[i] == frame_save(t));
            } else if i < 6 {
                assert(lines[i] == lines.subrange(1, 6)[i - 1]);
                assert(lines[i] == enter[i - 1]);
                lemma_no_stack_line_is_no_frame_line(t, enter[i - 1]);
            } else if i < 6 + n {
                assert(lines[i] == lines.subrange(6, 6 + n)[i - 6]);
                assert(lines[i] == body[i - 6]);
            } else if i == 6 + n {
                lemma_no_stack_line_is_no_frame_line(t, label_def(epilogue_label(label)));
            } else if i == 7 + n {
                assert(lines[i] == lines.subrange(7 + n, 9 + n)[0]);
                assert(lines[i] == leave[0]);
                lemma_no_stack_line_is_no_frame_line(t, leave[0]);
            } else if i == 8 + n {
                assert(lines[i] == frame_restore(t));
            } else {
                assert(lines[i] == ins0("rts"@));
                lemma_no_stack_line_is_no_frame_line(t, ins0("rts"@));
            }
        }
    } else {
        lemma_no_frame_without_locals(t, f, label);
        let head = seq![label_def(f.name@)];
        let tail = seq![label_def(epilogue_label(label)), ins0("rts"@)];
        lemma_frame_lines_differ(t, f.name@, label, 1);
        lemma_no_stack_line_is_no_frame_line(t, label_def(epilogue_label(label)));
        lemma_no_stack_line_is_no_frame_line(t, ins0("rts"@));
        assert(leaves_frame_alone(t, head));
        assert(leaves_frame_alone(t, tail));
        lemma_leaves_frame_alone_concat(t, head, body);
        lemma_leaves_frame_alone_concat(t, head + body, tail);
    }
}

/// Whether `line` is an instruction line, which begins with a tab, or the
/// definition of a local label.
pub open spec fn instruction_or_local_label(line: Seq<char>) -> bool {
    indented(line) || exists|id: nat| line == label_def(local_label(id))
}

/// Whether every line of `lines` is an instruction line or the definition of
/// a local label.
pub open spec fn instructions_and_local_labels(lines: Seq<Seq<char>>) -> bool {
    forall|i: int| 0 <= i < lines.len() ==> instruction_or_local_label(#[trigger] lines[i])
}

/// Every line of a function's body is an instruction line or the definition
/// of a local label.
pub proof fn lemma_body_is_instructions_and_local_labels(t: Target, irs: Seq<IR>, ret: Seq<char>)
    ensures
        instructions_and_local_labels(body_lines(t, irs, ret)),
    decreases irs.len(),
{
    if irs.len() > 0 {
        let before = body_lines(t, irs.drop_last(), ret);
        let last = instr_lines(t, irs.last(), ret);
        lemma_body_is_instructions_and_local_labels(t, irs.drop_last(), ret);
        lemma_instructions_are_indented(t, irs.last(), ret);
        assert forall|i: int| 0 <= i < (before + last).len() implies instruction_or_local_label(
            #[trigger] (before + last)[i],
        ) by {
            if i < before.len() {
                assert((before + last)[i] == before[i]);
            } else {
                assert((before + last)[i] == last[i - before.len()]);
                if irs.last().op is Label {
                    assert(last[i - before.len()] == label_def(
                        local_label(operand(irs.last().lhs)),
                    ));
                } else {
                    assert(indented(last[i - before.len()]));
                }
            }
        }
    }
}

/// A function is written as its own label, then lines that are each an
/// instruction line, the definition of a local label, or the definition of
/// the function's epilogue label.
pub proof fn lemma_function_is_labels_and_instructions(t: Target, f: Function, label: nat)
    ensures
        ({
            let lines = function_lines(t, f, label);
            &&& lines.len() >= 3
            &&& lines[0] == label_def(f.name@)
            &&& forall|i: int|
                1 <= i < lines.len() ==> instruction_or_local_label(#[trigger] lines[i])
                    || lines[i] == label_def(epilogue_label(label))
        }),
{
    let lines = function_lines(t, f, label);
    let enter = frame_enter_lines(t, f.stacksize as nat);
    let leave = frame_leave_lines(t, f.stacksize as nat);
    let body = body_lines(t, f.ir@, epilogue_label(label));
    let head = seq![label_def(f.name@)] + enter + body;
    let tail = seq![label_def(epilogue_label(label))] + leave + seq![ins0("rts"@)];
    lemma_body_is_instructions_and_local_labels(t, f.ir@, epilogue_label(label));
    lemma_shapes_are_indented();
    assert(all_indented(enter));
    assert(all_indented(leave));
    assert(lines =~= head + tail);
    assert forall|i: int| 1 <= i < lines.len() implies instruction_or_local_label(
        #[trigger] lines[i],
    ) || lines[i] == label_def(epilogue_label(label)) by {
        if i < 1 + enter.len() {
            assert(lines[i] == enter[i - 1]);
        } else if i < head.len() {
            assert(lines[i] == body[i - 1 - enter.len()]);
        } else if i == head.len() {
            assert(lines[i] == label_def(epilogue_label(label)));
        } else if i < head.len() + 1 + leave.len() {
            assert(lines[i] == leave[i - head.len() - 1]);
        } else {
            assert(lines[i] == ins0("rts"@));
        }
    }
}

} // verus!
