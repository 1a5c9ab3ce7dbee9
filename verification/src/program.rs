//! Program-level emission: the entry stub, every function in input order,
//! and the data section.
//!
//! The whole input is checked before the first line is written. Where an
//! instruction lacks an operand that its tag reads, or a local variable
//! stands among the globals, nothing is written and the fault is returned
//! with the place where it was found, for the caller to abort with.

use vstd::prelude::*;
use vstd::string::*;

use crate::codegen::{function_lines, gen_into, Context};
use crate::ir::Function;
use crate::target::Target;
use crate::text::{decimal, emit, emit0, emit1, ins0, ins1, push_decimal, text};
use crate::{Scope, Var};

verus! {

/// Why a program cannot be lowered.
#[derive(Clone, Copy, Debug, PartialEq, Eq, Structural)]
pub enum GenError {
    /// The instruction at `index` of the function at `function` lacks an
    /// operand that its tag reads, or names a register that does not exist.
    Malformed { function: usize, index: usize },
    /// The variable at `variable` of the globals is a local.
    NotGlobal { variable: usize },
}

/// The entry stub: a call of `main`, then a halt.
pub open spec fn entry_lines() -> Seq<Seq<char>> {
    seq![ins1("call"@, "main"@), ins0("halt"@)]
}

/// The directive that reserves `len` zeroed words under `name`.
pub open spec fn storage_directive(name: Seq<char>, len: nat) -> Seq<char> {
    name + " : var #"@ + decimal(len)
}

/// The directive that defines the string constant `data` under `name`.
pub open spec fn string_directive(name: Seq<char>, data: Seq<char>) -> Seq<char> {
    name + " : string \""@ + data + "\""@
}

/// The lines of one variable in the data section, the same on every
/// machine: none for one that is only declared here, the one string constant
/// for one with an initialiser, the one storage reservation for one without.
pub open spec fn global_lines(v: Var) -> Seq<Seq<char>> {
    match v.scope {
        Scope::Global(data, len, is_extern) => {
            if is_extern {
                Seq::empty()
            } else if data@.len() > 0 {
                seq![string_directive(v.name@, data@)]
            } else {
                seq![storage_directive(v.name@, len as nat)]
            }
        },
        Scope::Local(_) => Seq::empty(),
    }
}

/// The data section: the lines of every variable, in input order.
pub open spec fn data_lines(vars: Seq<Var>) -> Seq<Seq<char>>
    decreases vars.len(),
{
    if vars.len() == 0 {
        Seq::empty()
    } else {
        data_lines(vars.drop_last()) + global_lines(vars.last())
    }
}

/// The lines of every function, in input order; the function at index `i`
/// has the epilogue label number `first + i`.
pub open spec fn functions_lines(t: Target, fns: Seq<Function>, first: nat) -> Seq<Seq<char>>
    decreases fns.len(),
{
    if fns.len() == 0 {
        Seq::empty()
    } else {
        functions_lines(t, fns.drop_last(), first) + function_lines(
            t,
            fns.last(),
            (first + fns.len() - 1) as nat,
        )
    }
}

/// The lines of a whole program.
pub open spec fn program_lines(t: Target, fns: Seq<Function>, globals: Seq<Var>) -> Seq<Seq<char>> {
    entry_lines() + functions_lines(t, fns, 0) + data_lines(globals)
}

/// Whether every function is well formed for `t`.
pub open spec fn functions_ok(t: Target, fns: Seq<Function>) -> bool {
    forall|i: int| 0 <= i < fns.len() ==> (#[trigger] fns[i]).well_formed(t)
}

/// Whether every variable is a global.
pub open spec fn globals_ok(globals: Seq<Var>) -> bool {
    forall|i: int| 0 <= i < globals.len() ==> (#[trigger] globals[i]).scope is Global
}

/// Whether `e` is the first fault of the program: the first instruction, of
/// the first function that has one, that is not well formed; or, where all
/// functions are well formed, the first variable that is a local.
pub open spec fn is_first_fault(
    t: Target,
    fns: Seq<Function>,
    globals: Seq<Var>,
    e: GenError,
) -> bool {
    match e {
        GenError::Malformed { function, index } => {
            &&& function < fns.len()
            &&& functions_ok(t, fns.take(function as int))
            &&& fns[function as int].first_malformed_at(t, index as int)
        },
        GenError::NotGlobal { variable } => {
            &&& functions_ok(t, fns)
            &&& variable < globals.len()
            &&& globals_ok(globals.take(variable as int))
            &&& globals[variable as int].scope is Local
        },
    }
}

/// What one run of the code generator does to an output that held
/// `before`: with `Ok`, every function is well formed and every variable a
/// global, and the output has grown by the text of the program; with `Err`,
/// the error is the first fault and the output is as it was.
pub open spec fn lowered(
    t: Target,
    fns: Seq<Function>,
    globals: Seq<Var>,
    before: Seq<char>,
    r: Result<(), GenError>,
    after: Seq<char>,
) -> bool {
    match r {
        Ok(_) => {
            &&& functions_ok(t, fns)
            &&& globals_ok(globals)
            &&& after == before + text(program_lines(t, fns, globals))
        },
        Err(e) => is_first_fault(t, fns, globals, e) && after == before,
    }
}

/// The first fault of the program, if it has one.
pub fn find_fault(target: Target, globals: &Vec<Var>, fns: &Vec<Function>) -> (r: Option<GenError>)
    ensures
        r is None <==> functions_ok(target, fns@) && globals_ok(globals@),
        r is Some ==> is_first_fault(target, fns@, globals@, r->0),
{
    let mut i: usize = 0;
    while i < fns.len()
        invariant
            i <= fns@.len(),
            functions_ok(target, fns@.take(i as int)),
        decreases fns@.len() - i,
    {
        match fns[i].first_malformed(target) {
            Some(index) => {
                assert(!fns@[i as int].ir@[index as int].well_formed(target));
                return Some(GenError::Malformed { function: i, index });
            },
            None => {},
        }
        assert forall|j: int| 0 <= j < i + 1 implies (#[trigger] fns@.take(i + 1)[j]).well_formed(
            target,
        ) by {
            if j < i {
                assert(fns@.take(i as int)[j].well_formed(target));
            }
        }
        i = i + 1;
    }
    assert(fns@.take(i as int) =~= fns@);
    let mut k: usize = 0;
    while k < globals.len()
        invariant
            k <= globals@.len(),
            functions_ok(target, fns@),
            globals_ok(globals@.take(k as int)),
        decreases globals@.len() - k,
    {
        match &globals[k].scope {
            Scope::Local(_) => {
                return Some(GenError::NotGlobal { variable: k });
            },
            Scope::Global(_, _, _) => {},
        }
        assert forall|j: int| 0 <= j < k + 1 implies (#[trigger] globals@.take(
            k + 1,
        )[j]).scope is Global by {
            if j < k {
                assert(globals@.take(k as int)[j].scope is Global);
            }
        }
        k = k + 1;
    }
    assert(globals@.take(k as int) =~= globals@);
    None
}

/// Emits [`storage_directive`].
pub(crate) fn storage(
    out: &mut String,
    name: &str,
    len: usize,
    Ghost(base): Ghost<Seq<char>>,
    done: &mut Ghost<Seq<Seq<char>>>,
)
    requires
        old(out)@ == base + text(old(done)@),
    ensures
        final(out)@ == base + text(final(done)@),
        final(done)@ == old(done)@.push(storage_directive(name@, len as nat)),
{
    let mut line = String::new();
    line.append(name);
    line.append(" : var #");
    push_decimal(&mut line, len as u128);
    assert(line@ =~= storage_directive(name@, len as nat));
    emit(out, line.as_str(), Ghost(base), done);
}

/// Emits [`string_directive`].
pub(crate) fn string_constant(
    out: &mut String,
    name: &str,
    data: &str,
    Ghost(base): Ghost<Seq<char>>,
    done: &mut Ghost<Seq<Seq<char>>>,
)
    requires
        old(out)@ == base + text(old(done)@),
    ensures
        final(out)@ == base + text(final(done)@),
        final(done)@ == old(done)@.push(string_directive(name@, data@)),
{
    let mut line = String::new();
    line.append(name);
    line.append(" : string \"");
    line.append(data);
    line.append("\"");
    assert(line@ =~= string_directive(name@, data@));
    emit(out, line.as_str(), Ghost(base), done);
}

/// Emits [`global_lines`].
pub(crate) fn global_into(
    out: &mut String,
    v: &Var,
    Ghost(base): Ghost<Seq<char>>,
    done: &mut Ghost<Seq<Seq<char>>>,
)
    requires
        old(out)@ == base + text(old(done)@),
    ensures
        final(out)@ == base + text(final(done)@),
        final(done)@ == old(done)@ + global_lines(*v),
{
    match &v.scope {
        Scope::Global(data, len, is_extern) => {
            if *is_extern {
            } else if !data.as_str().is_empty() {
                string_constant(out, v.name.as_str(), data.as_str(), Ghost(base), done);
            } else {
                storage(out, v.name.as_str(), *len, Ghost(base), done);
            }
        },
        Scope::Local(_) => {},
    }
    assert(done@ =~= old(done)@ + global_lines(*v));
}

/// Lowers a whole program for `target` and appends its text to `output`:
/// the entry stub, the functions in input order, each with an epilogue label
/// number of its own, counted from zero, and the data section.
pub fn program(output: &mut String, target: Target, globals: &Vec<Var>, fns: &Vec<Function>) -> (r:
    Result<(), GenError>)
    ensures
        r is Ok <==> functions_ok(target, fns@) && globals_ok(globals@),
        r is Ok ==> final(output)@ == old(output)@ + text(program_lines(target, fns@, globals@)),
        r is Err ==> final(output)@ == old(output)@,
        r is Err ==> is_first_fault(target, fns@, globals@, r->Err_0),
        lowered(target, fns@, globals@, old(output)@, r, final(output)@),
{
    match find_fault(target, globals, fns) {
        Some(e) => {
            return Err(e);
        },
        None => {},
    }
    let ghost base = output@;
    let mut done: Ghost<Seq<Seq<char>>> = Ghost(Seq::empty());
    assert(output@ =~= base + text(done@));
    emit1(output, "call", "main", Ghost(base), &mut done);
    emit0(output, "halt", Ghost(base), &mut done);
    assert(done@ =~= entry_lines());
    let mut ctx = Context::new(target);
    let mut i: usize = 0;
    while i < fns.len()
        invariant
            i <= fns@.len(),
            functions_ok(target, fns@),
            ctx.target() == target,
            ctx.next_label() == i,
            output@ == base + text(done@),
            done@ == entry_lines() + functions_lines(target, fns@.take(i as int), 0),
        decreases fns@.len() - i,
    {
        let label = ctx.fresh_label();
        gen_into(output, target, &fns[i], label, Ghost(base), &mut done);
        proof {
            let next = fns@.take(i + 1);
            assert(next.drop_last() =~= fns@.take(i as int));
            assert(next.last() == fns@[i as int]);
            assert(done@ =~= entry_lines() + functions_lines(target, next, 0));
        }
        i = i + 1;
    }
    assert(fns@.take(i as int) =~= fns@);
    let ghost code = done@;
    let mut k: usize = 0;
    while k < globals.len()
        invariant
            k <= globals@.len(),
            output@ == base + text(done@),
            done@ == code + data_lines(globals@.take(k as int)),
        decreases globals@.len() - k,
    {
        global_into(output, &globals[k], Ghost(base), &mut done);
        proof {
            let next = globals@.take(k + 1);
            assert(next.drop_last() =~= globals@.take(k as int));
            assert(next.last() == globals@[k as int]);
            assert(done@ =~= code + data_lines(next));
        }
        k = k + 1;
    }
    assert(globals@.take(k as int) =~= globals@);
    assert(done@ =~= program_lines(target, fns@, globals@));
    Ok(())
}

} // verus!
