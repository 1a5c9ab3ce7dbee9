//! Code generation for the register machine.

use vstd::prelude::*;

use crate::ir::Function;
use crate::program::{
    functions_ok, globals_ok, is_first_fault, lowered, program, program_lines, GenError,
};
use crate::target::Target;
use crate::text::text;
use crate::Var;

verus! {

/// Lowers the program for the register machine and appends its assembly
/// text to `output`. Nothing is written where the program has a fault.
pub fn gen_x86(output: &mut String, globals: Vec<Var>, fns: Vec<Function>) -> (r: Result<
    (),
    GenError,
>)
    ensures
        r is Ok <==> functions_ok(Target::X86, fns@) && globals_ok(globals@),
        r is Ok ==> final(output)@ == old(output)@ + text(
            program_lines(Target::X86, fns@, globals@),
        ),
        r is Err ==> final(output)@ == old(output)@,
        r is Err ==> is_first_fault(Target::X86, fns@, globals@, r->Err_0),
        lowered(Target::X86, fns@, globals@, old(output)@, r, final(output)@),
{
    program(output, Target::X86, &globals, &fns)
}

} // verus!
