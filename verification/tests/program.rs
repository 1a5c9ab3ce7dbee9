use icmc_cc::gen_asm::gen_asm;
use icmc_cc::gen_x86::gen_x86;
use icmc_cc::ir::{check_slot, Function, IROp, Slot, IR};
use icmc_cc::program::{find_fault, program, GenError};
use icmc_cc::target::Target;
use icmc_cc::{Scope, Type, Var};

fn ins(op: IROp, lhs: Option<usize>, rhs: Option<usize>) -> IR {
    IR { op, lhs, rhs }
}

fn func(name: &str, ir: Vec<IR>, stacksize: usize) -> Function {
    Function {
        name: name.to_string(),
        ir,
        stacksize,
    }
}

fn global(name: &str, data: &str, len: usize, is_extern: bool) -> Var {
    Var::new_global(
        Box::new(Type::default()),
        name.to_string(),
        data.to_string(),
        len,
        is_extern,
    )
}

fn local(name: &str, offset: usize) -> Var {
    Var::new(
        Box::new(Type::default()),
        name.to_string(),
        Scope::Local(offset),
    )
}

fn main_and_add() -> Vec<Function> {
    vec![
        func(
            "main",
            vec![
                ins(IROp::Imm, Some(0), Some(3)),
                ins(IROp::Imm, Some(1), Some(4)),
                ins(IROp::Call("add".to_string(), 2, vec![0, 1]), Some(3), None),
                ins(IROp::Return, Some(3), None),
            ],
            0,
        ),
        func(
            "add",
            vec![
                ins(IROp::StoreArg(1), Some(1), Some(0)),
                ins(IROp::StoreArg(1), Some(2), Some(1)),
                ins(IROp::Bprel, Some(0), Some(1)),
                ins(IROp::Load(1), Some(0), Some(0)),
                ins(IROp::Bprel, Some(1), Some(2)),
                ins(IROp::Load(1), Some(1), Some(1)),
                ins(IROp::Add, Some(0), Some(1)),
                ins(IROp::Return, Some(0), None),
            ],
            2,
        ),
    ]
}

const MAIN_AND_ADD: &str = "\tcall main\n\thalt\n\
main:\n\
\tloadn r1, #3\n\
\tloadn r2, #4\n\
\tpush r3\n\
\tcall add\n\
\tmov r4, r7\n\
\tpop r3\n\
\tmov r7, r4\n\
\tjmp Lend0\n\
Lend0:\n\
\trts\n\
add:\n\
\tpush r0\n\
\tmov r0, sp\n\
\tloadn r7, #3\n\
\tsub r7, r0, r7\n\
\tmov sp, r7\n\
\tloadn r7, #1\n\
\tsub r7, r0, r7\n\
\tstorei r7, r1\n\
\tloadn r7, #2\n\
\tsub r7, r0, r7\n\
\tstorei r7, r2\n\
\tloadn r1, #1\n\
\tsub r1, r0, r1\n\
\tloadi r1, r1\n\
\tloadn r2, #2\n\
\tsub r2, r0, r2\n\
\tloadi r2, r2\n\
\tadd r1, r1, r2\n\
\tmov r7, r1\n\
\tjmp Lend1\n\
Lend1:\n\
\tmov sp, r0\n\
\tpop r0\n\
\trts\n";

#[test]
fn main_calls_add_end_to_end() {
    let mut out = String::new();
    let r = gen_asm(&mut out, vec![], main_and_add());
    assert_eq!(r, Ok(()));
    assert_eq!(out, MAIN_AND_ADD);
}

#[test]
fn main_calls_add_on_the_register_machine() {
    let mut out = String::new();
    let r = gen_x86(&mut out, vec![], main_and_add());
    assert_eq!(r, Ok(()));
    assert_eq!(
        out,
        "\tcall main\n\thalt\n\
         main:\n\
         \tloadn r1, #3\n\
         \tloadn r2, #4\n\
         \tpush r3\n\
         \tcall add\n\
         \tmov r4, r0\n\
         \tpop r3\n\
         \tmov r0, r4\n\
         \tjmp Lend0\n\
         Lend0:\n\
         \trts\n\
         add:\n\
         \tpush rbp\n\
         \tmov rbp, sp\n\
         \tloadn r0, #3\n\
         \tsub r0, rbp, r0\n\
         \tmov sp, r0\n\
         \tmov [rbp-1], r1\n\
         \tmov [rbp-2], r2\n\
         \tlea r1, [rbp-1]\n\
         \tloadi r1, r1\n\
         \tlea r2, [rbp-2]\n\
         \tloadi r2, r2\n\
         \tadd r1, r1, r2\n\
         \tmov r0, r1\n\
         \tjmp Lend1\n\
         Lend1:\n\
         \tmov sp, rbp\n\
         \tpop rbp\n\
         \trts\n"
    );
}

#[test]
fn lowering_twice_gives_the_same_text() {
    let globals = || vec![global("g", "abc", 4, false), global("h", "", 2, false)];
    let mut first = String::new();
    let mut second = String::new();
    assert_eq!(gen_asm(&mut first, globals(), main_and_add()), Ok(()));
    assert_eq!(gen_asm(&mut second, globals(), main_and_add()), Ok(()));
    assert_eq!(first, second);
    assert!(first.ends_with("g : string \"abc\"\nh : var #2\n"));
}

#[test]
fn empty_program_is_the_entry_stub() {
    let mut out = String::new();
    assert_eq!(gen_asm(&mut out, vec![], vec![]), Ok(()));
    assert_eq!(out, "\tcall main\n\thalt\n");
    let mut out = String::new();
    assert_eq!(gen_x86(&mut out, vec![], vec![]), Ok(()));
    assert_eq!(out, "\tcall main\n\thalt\n");
}

#[test]
fn output_is_appended_to_the_sink() {
    let mut out = String::from("; header\n");
    assert_eq!(gen_asm(&mut out, vec![], vec![]), Ok(()));
    assert_eq!(out, "; header\n\tcall main\n\thalt\n");
}

#[test]
fn epilogue_labels_are_distinct_across_functions() {
    let body = || {
        vec![
            ins(IROp::Label, Some(1), None),
            ins(IROp::Jmp, Some(1), None),
            ins(IROp::Return, Some(0), None),
        ]
    };
    let fns = (0..12).map(|i| func(&format!("f{}", i), body(), 0)).collect::<Vec<_>>();
    let mut out = String::new();
    assert_eq!(gen_asm(&mut out, vec![], fns), Ok(()));
    for i in 0..12 {
        let label = format!("\nLend{}:\n", i);
        assert_eq!(out.matches(&label).count(), 1);
        let jump = format!("\tjmp Lend{}\n", i);
        assert_eq!(out.matches(&jump).count(), 1);
    }
    assert_eq!(out.matches("\nL1:\n").count(), 12);
    assert!(!out.contains("Lend12"));
}

#[test]
fn extern_global_emits_nothing() {
    let mut out = String::new();
    let globals = vec![global("e", "", 4, true), global("s", "abc", 4, true)];
    assert_eq!(gen_asm(&mut out, globals, vec![]), Ok(()));
    assert_eq!(out, "\tcall main\n\thalt\n");
}

#[test]
fn initialised_global_emits_a_string() {
    let mut out = String::new();
    assert_eq!(
        gen_asm(&mut out, vec![global("g", "abc", 4, false)], vec![]),
        Ok(())
    );
    assert_eq!(out, "\tcall main\n\thalt\ng : string \"abc\"\n");
}

#[test]
fn uninitialised_global_reserves_storage() {
    let mut out = String::new();
    assert_eq!(
        gen_asm(&mut out, vec![global("g", "", 4, false)], vec![]),
        Ok(())
    );
    assert_eq!(out, "\tcall main\n\thalt\ng : var #4\n");
}

#[test]
fn globals_keep_their_order() {
    let mut out = String::new();
    let globals = vec![
        global("a", "", 1, false),
        global("skipped", "x", 1, true),
        global("b", "hello world", 12, false),
        global("c", "", 0, false),
    ];
    assert_eq!(gen_asm(&mut out, globals, vec![]), Ok(()));
    assert_eq!(
        out,
        "\tcall main\n\thalt\na : var #1\nb : string \"hello world\"\nc : var #0\n"
    );
}

#[test]
fn globals_are_the_same_on_the_register_machine() {
    let mut out = String::new();
    let globals = vec![
        global("g", "abc", 3, false),
        global("e", "abc", 4, true),
        global("z", "", 9, false),
    ];
    assert_eq!(gen_x86(&mut out, globals, vec![]), Ok(()));
    assert_eq!(
        out,
        "\tcall main\n\thalt\ng : string \"abc\"\nz : var #9\n"
    );
    assert!(!out.contains("g : var"));
}

#[test]
fn frame_is_built_once_on_the_register_machine() {
    let mut out = String::new();
    assert_eq!(
        gen_x86(&mut out, vec![], vec![func("f", vec![], 2)]),
        Ok(())
    );
    assert_eq!(
        out,
        "\tcall main\n\thalt\n\
         f:\n\
         \tpush rbp\n\
         \tmov rbp, sp\n\
         \tloadn r0, #3\n\
         \tsub r0, rbp, r0\n\
         \tmov sp, r0\n\
         Lend0:\n\
         \tmov sp, rbp\n\
         \tpop rbp\n\
         \trts\n"
    );
    assert_eq!(out.matches("\tpush rbp\n").count(), 1);
    assert_eq!(out.matches("\tpop rbp\n").count(), 1);
}

#[test]
fn no_frame_without_locals_on_either_machine() {
    let mut out = String::new();
    assert_eq!(
        gen_x86(&mut out, vec![], vec![func("f", vec![], 0)]),
        Ok(())
    );
    assert_eq!(out, "\tcall main\n\thalt\nf:\nLend0:\n\trts\n");
    let mut out = String::new();
    assert_eq!(
        gen_asm(&mut out, vec![], vec![func("f", vec![], 0)]),
        Ok(())
    );
    assert_eq!(out, "\tcall main\n\thalt\nf:\nLend0:\n\trts\n");
}

#[test]
fn functions_come_before_globals() {
    let mut out = String::new();
    let fns = vec![func("main", vec![], 0)];
    assert_eq!(
        gen_asm(&mut out, vec![global("g", "", 1, false)], fns),
        Ok(())
    );
    assert_eq!(out, "\tcall main\n\thalt\nmain:\nLend0:\n\trts\ng : var #1\n");
}

#[test]
fn absent_operand_is_found_with_its_place() {
    let fns = vec![
        func("ok", vec![ins(IROp::Nop, None, None)], 0),
        func(
            "bad",
            vec![
                ins(IROp::Imm, Some(0), Some(1)),
                ins(IROp::Mov, Some(0), None),
                ins(IROp::Mov, None, None),
            ],
            0,
        ),
        func("worse", vec![ins(IROp::Return, None, None)], 0),
    ];
    let mut out = String::from("kept");
    let r = gen_asm(&mut out, vec![], fns);
    assert_eq!(
        r,
        Err(GenError::Malformed {
            function: 1,
            index: 1
        })
    );
    assert_eq!(out, "kept");
}

#[test]
fn register_out_of_range_is_a_fault() {
    let fns = vec![func("f", vec![ins(IROp::Mov, Some(0), Some(7))], 0)];
    let mut out = String::new();
    assert_eq!(
        gen_asm(&mut out, vec![], fns),
        Err(GenError::Malformed {
            function: 0,
            index: 0
        })
    );
    assert_eq!(out, "");
    let fns = vec![func("f", vec![ins(IROp::Return, Some(7), None)], 0)];
    assert_eq!(
        gen_x86(&mut out, vec![], fns),
        Err(GenError::Malformed {
            function: 0,
            index: 0
        })
    );
    assert_eq!(out, "");
}

#[test]
fn literal_needs_the_next_register_only_where_it_is_borrowed() {
    let fns = || vec![func("f", vec![ins(IROp::AddImm, Some(6), Some(5))], 0)];
    let mut out = String::new();
    assert_eq!(
        gen_asm(&mut out, vec![], fns()),
        Err(GenError::Malformed {
            function: 0,
            index: 0
        })
    );
    assert_eq!(gen_x86(&mut out, vec![], fns()), Ok(()));
    assert_eq!(
        out,
        "\tcall main\n\thalt\nf:\n\tloadn r0, #5\n\tadd r7, r7, r0\nLend0:\n\trts\n"
    );
    let small = vec![func(
        "f",
        vec![
            ins(IROp::AddImm, Some(6), Some(1)),
            ins(IROp::SubImm, Some(6), Some(0)),
        ],
        0,
    )];
    let mut out = String::new();
    assert_eq!(gen_asm(&mut out, vec![], small), Ok(()));
    assert_eq!(out, "\tcall main\n\thalt\nf:\n\tinc r7\nLend0:\n\trts\n");
}

#[test]
fn local_among_the_globals_is_a_fault() {
    let globals = vec![
        global("g", "", 1, false),
        local("x", 2),
        local("y", 3),
    ];
    let mut out = String::from("kept");
    assert_eq!(
        gen_asm(&mut out, globals, main_and_add()),
        Err(GenError::NotGlobal { variable: 1 })
    );
    assert_eq!(out, "kept");
}

#[test]
fn malformed_function_comes_before_a_local() {
    let fns = vec![func("f", vec![ins(IROp::Jmp, None, None)], 0)];
    let mut out = String::new();
    assert_eq!(
        gen_asm(&mut out, vec![local("x", 0)], fns),
        Err(GenError::Malformed {
            function: 0,
            index: 0
        })
    );
}

#[test]
fn find_fault_agrees_with_program() {
    let fns = main_and_add();
    let globals = vec![global("g", "", 1, false)];
    assert_eq!(find_fault(Target::Icmc, &globals, &fns), None);
    let mut out = String::new();
    assert_eq!(program(&mut out, Target::Icmc, &globals, &fns), Ok(()));
    assert!(out.starts_with(MAIN_AND_ADD));
    assert!(out.ends_with("g : var #1\n"));
    let locals = vec![local("x", 0)];
    assert_eq!(
        find_fault(Target::Icmc, &locals, &fns),
        Some(GenError::NotGlobal { variable: 0 })
    );
}

#[test]
fn first_malformed_finds_the_first() {
    let f = func(
        "f",
        vec![
            ins(IROp::Kill, None, None),
            ins(IROp::Label, Some(100), None),
            ins(IROp::If, Some(0), None),
            ins(IROp::Unless, None, Some(1)),
        ],
        0,
    );
    assert_eq!(f.first_malformed(Target::Icmc), Some(2));
    assert_eq!(f.first_malformed(Target::X86), Some(2));
    let g = func("g", vec![ins(IROp::StoreArg(1), Some(100), Some(6))], 0);
    assert_eq!(g.first_malformed(Target::Icmc), None);
    assert_eq!(func("h", vec![], 0).first_malformed(Target::Icmc), None);
}

#[test]
fn check_asks_for_what_the_tag_reads() {
    assert!(ins(IROp::Nop, None, None).check(Target::Icmc));
    assert!(ins(IROp::Imm, Some(6), Some(1_000_000)).check(Target::Icmc));
    assert!(!ins(IROp::Imm, Some(7), Some(1)).check(Target::Icmc));
    assert!(!ins(IROp::Imm, Some(0), None).check(Target::Icmc));
    assert!(ins(IROp::Call("f".to_string(), 9, vec![]), Some(0), None).check(Target::Icmc));
    assert!(!ins(IROp::Call("f".to_string(), 0, vec![]), None, None).check(Target::Icmc));
    assert!(ins(IROp::LabelAddr("l".to_string()), Some(0), None).check(Target::X86));
    assert!(!ins(IROp::EQ, Some(0), None).check(Target::Icmc));
    assert!(!ins(IROp::LE, Some(0), Some(7)).check(Target::Icmc));
    assert!(ins(IROp::Bprel, Some(0), Some(70000)).check(Target::Icmc));
    assert!(!ins(IROp::StoreArg(1), None, Some(0)).check(Target::Icmc));
    assert!(!ins(IROp::StoreArg(1), Some(0), Some(7)).check(Target::Icmc));
    assert!(ins(IROp::SubImm, Some(5), Some(9)).check(Target::Icmc));
    assert!(!ins(IROp::SubImm, Some(6), Some(2)).check(Target::Icmc));
    assert!(ins(IROp::SubImm, Some(6), Some(2)).check(Target::X86));
    assert_eq!(IROp::Jmp.lhs_slot(), Slot::Value);
    assert_eq!(IROp::Jmp.rhs_slot(), Slot::Unused);
    assert_eq!(IROp::If.lhs_slot(), Slot::Register);
    assert_eq!(IROp::If.rhs_slot(), Slot::Value);
    assert_eq!(IROp::Kill.lhs_slot(), Slot::Unused);
    assert!(check_slot(Slot::Unused, None));
    assert!(check_slot(Slot::Register, Some(6)));
    assert!(!check_slot(Slot::Register, Some(7)));
    assert!(check_slot(Slot::Value, Some(usize::MAX)));
    assert!(!check_slot(Slot::Value, None));
}

#[test]
fn instructions_are_indented_and_labels_are_not() {
    let mut out = String::new();
    assert_eq!(
        gen_asm(&mut out, vec![global("g", "", 1, false)], main_and_add()),
        Ok(())
    );
    assert!(out.starts_with("\tcall main\n\thalt\n"));
    assert!(out.ends_with('\n'));
    let lines: Vec<&str> = out.lines().collect();
    assert_eq!(lines[lines.len() - 1], "g : var #1");
    for line in &lines[..lines.len() - 1] {
        assert_ne!(line.starts_with('\t'), line.ends_with(':'));
    }
}
