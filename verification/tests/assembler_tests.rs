use mips_assembler::{
    build_functions, generate_instructions, write_program, Error, FunctionSymbol, Instruction,
    IrFunction, IrOp, MarsServiceNumber, Module, Register,
};

fn function(name: &str, body: Vec<IrOp>) -> IrFunction {
    IrFunction {
        symbol: FunctionSymbol {
            module_name: "demo".to_string(),
            module_version: vec![1, 0],
            symbol: name.to_string(),
        },
        body,
    }
}

fn leaf(name: &str, value: i32) -> IrFunction {
    function(name, vec![IrOp::ConstI(value), IrOp::Ret(0)])
}

#[test]
fn registers_render_canonically() {
    assert_eq!(Register::Zero.fmt(), "$zero");
    assert_eq!(Register::V0.fmt(), "$v0");
    assert_eq!(Register::A0.fmt(), "$a0");
    assert_eq!(Register::T7.fmt(), "$t7");
    assert_eq!(Register::S3.fmt(), "$s3");
    assert_eq!(Register::SP.fmt(), "$sp");
    assert_eq!(Register::RA.fmt(), "$ra");
}

#[test]
fn li_renders_with_hexadecimal_immediate() {
    assert_eq!(Instruction::Li(Register::V0, 10).fmt(), "li $v0,0XA");
}

#[test]
fn move_renders_both_registers() {
    assert_eq!(Instruction::Move(Register::A0, Register::V0).fmt(), "move $a0,$v0");
}

#[test]
fn zero_and_negative_immediates_render_as_32_bits() {
    assert_eq!(Instruction::Li(Register::V0, 0).fmt(), "li $v0,0X0");
    assert_eq!(Instruction::Li(Register::V0, -1).fmt(), "li $v0,0XFFFFFFFF");
}

#[test]
fn remaining_instructions_render_canonically() {
    assert_eq!(Instruction::La(Register::A0, "msg".to_string()).fmt(), "la $a0,msg");
    assert_eq!(Instruction::Syscall.fmt(), "syscall");
    assert_eq!(
        Instruction::Add(Register::S2, Register::S0, Register::S1).fmt(),
        "add $s2,$s0,$s1"
    );
    assert_eq!(
        Instruction::Addiu(Register::SP, Register::SP, 8).fmt(),
        "addiu $sp,$sp,0X8"
    );
    assert_eq!(
        Instruction::Sw(Register::RA, 4, Register::SP).fmt(),
        "sw $ra,0X4($sp)"
    );
    assert_eq!(
        Instruction::Lw(Register::RA, 4, Register::SP).fmt(),
        "lw $ra,0X4($sp)"
    );
    assert_eq!(Instruction::Jal("f_1_g".to_string()).fmt(), "jal f_1_g");
    assert_eq!(Instruction::Jr(Register::RA).fmt(), "jr $ra");
}

#[test]
fn mars_service_numbers() {
    assert_eq!(MarsServiceNumber::PrintInteger.number(), 1);
    assert_eq!(MarsServiceNumber::PrintString.number(), 4);
    assert_eq!(MarsServiceNumber::Exit.number(), 10);
}

#[test]
fn missing_entry_point_fails_without_output() {
    let module = Module { functions: vec![leaf("main", 3)], entry_point: None };
    let result = write_program(&module);
    assert!(matches!(result, Err(Error::MissingEntryPointFunction)));
}

#[test]
fn discovery_visits_diamond_once() {
    // 0 calls 1 and 2; both call 3.
    let module = Module {
        functions: vec![
            function("top", vec![IrOp::Nop, IrOp::Call(1), IrOp::Call(2), IrOp::Ret(1)]),
            function("left", vec![IrOp::Call(3), IrOp::Ret(0)]),
            function("right", vec![IrOp::Call(3), IrOp::Ret(0)]),
            leaf("bottom", 5),
        ],
        entry_point: Some(0),
    };
    let table = build_functions(&module).expect("diamond should assemble");
    assert_eq!(table.len(), 4);
    assert!(table.iter().all(|entry| entry.is_some()));
}

#[test]
fn discovery_handles_cycles() {
    let module = Module {
        functions: vec![
            function("ping", vec![IrOp::Call(1), IrOp::Ret(0)]),
            function("pong", vec![IrOp::Call(0), IrOp::Ret(0)]),
        ],
        entry_point: Some(0),
    };
    let table = build_functions(&module).expect("cycle should assemble");
    assert_eq!(table.len(), 2);
    assert!(table.iter().all(|entry| entry.is_some()));
}

#[test]
fn discovery_handles_self_recursion() {
    let module = Module {
        functions: vec![function("loopy", vec![IrOp::Call(0), IrOp::Ret(0)])],
        entry_point: Some(0),
    };
    let table = build_functions(&module).expect("self recursion should assemble");
    assert_eq!(table.len(), 1);
    assert!(table[0].is_some());
}

#[test]
fn discovery_skips_unreachable_functions() {
    let module = Module {
        functions: vec![leaf("main", 1), leaf("orphan", 2)],
        entry_point: Some(0),
    };
    let table = build_functions(&module).expect("should assemble");
    assert!(table[0].is_some());
    assert!(table[1].is_none());
}

#[test]
fn translator_surfaces_callees_in_order() {
    let module = Module {
        functions: vec![
            function("top", vec![IrOp::Call(2), IrOp::Call(1), IrOp::Ret(0)]),
            leaf("a", 1),
            leaf("b", 2),
        ],
        entry_point: Some(0),
    };
    let mut pending = vec![9usize];
    let instructions = generate_instructions(&module, 0, &mut pending).expect("supported body");
    assert_eq!(pending, vec![9, 2, 1]);
    assert!(!instructions.is_empty());
}

#[test]
fn empty_body_is_unsupported() {
    let module = Module { functions: vec![function("main", vec![])], entry_point: Some(0) };
    assert!(matches!(write_program(&module), Err(Error::UnsupportedOperation)));
}

#[test]
fn body_without_final_ret_is_unsupported() {
    let module = Module {
        functions: vec![function("main", vec![IrOp::ConstI(1)])],
        entry_point: Some(0),
    };
    assert!(matches!(write_program(&module), Err(Error::UnsupportedOperation)));
}

#[test]
fn undefined_temporary_is_unsupported() {
    let module = Module {
        functions: vec![function("main", vec![IrOp::Add(0, 1), IrOp::Ret(0)])],
        entry_point: Some(0),
    };
    assert!(matches!(write_program(&module), Err(Error::UnsupportedOperation)));
}

#[test]
fn undefined_call_target_is_unsupported() {
    let module = Module {
        functions: vec![function("main", vec![IrOp::Call(7), IrOp::Ret(0)])],
        entry_point: Some(0),
    };
    assert!(matches!(write_program(&module), Err(Error::UnsupportedOperation)));
}

#[test]
fn more_than_eight_temporaries_is_unsupported() {
    let mut body = vec![IrOp::ConstI(0); 9];
    body.push(IrOp::Ret(0));
    let module = Module { functions: vec![function("main", body)], entry_point: Some(0) };
    assert!(matches!(write_program(&module), Err(Error::UnsupportedOperation)));
}

#[test]
fn unreachable_unsupported_body_does_not_fail_the_run() {
    let module = Module {
        functions: vec![leaf("main", 1), function("broken", vec![])],
        entry_point: Some(0),
    };
    assert!(write_program(&module).is_ok());
}

#[test]
fn emits_expected_program_text() {
    let module = Module {
        functions: vec![function("main!", vec![IrOp::ConstI(10), IrOp::Ret(0)])],
        entry_point: Some(0),
    };
    let text = write_program(&module).expect("should assemble");
    let expected = "\
.data
exit_code_message: .asciiz \"Exited with code \"
.text
main:
move $s0,$v0
li $v0,0X4
la $a0,exit_code_message
syscall
li $v0,0X1
move $a0,$s0
syscall
li $v0,0XA
syscall
demo_1_0_mainu33:
addiu $sp,$sp,0XFFFFFFF8
sw $ra,0X4($sp)
sw $s0,0X0($sp)
li $s0,0XA
move $v0,$s0
lw $s0,0X0($sp)
lw $ra,0X4($sp)
addiu $sp,$sp,0X8
jr $ra
";
    assert_eq!(text, expected);
}

#[test]
fn emitted_text_has_one_main_and_nine_trampoline_lines() {
    let module = Module {
        functions: vec![
            function("top", vec![IrOp::Call(1), IrOp::Ret(0)]),
            leaf("bottom", 3),
        ],
        entry_point: Some(0),
    };
    let text = write_program(&module).expect("should assemble");
    let lines: Vec<&str> = text.lines().collect();
    let main_positions: Vec<usize> = lines
        .iter()
        .enumerate()
        .filter(|(_, line)| **line == "main:")
        .map(|(idx, _)| idx)
        .collect();
    assert_eq!(main_positions.len(), 1);
    let main_at = main_positions[0];
    let label_lines: Vec<usize> = lines
        .iter()
        .enumerate()
        .filter(|(idx, line)| *idx > main_at && line.ends_with(':'))
        .map(|(idx, _)| idx)
        .collect();
    // exactly nine trampoline instruction lines before the first function label
    assert_eq!(label_lines[0] - main_at - 1, 9);
    // exactly one label per table entry (both functions are reachable)
    assert_eq!(label_lines.len(), 2);
}

#[test]
fn entry_returning_constant_prints_message_then_value() {
    let module = Module {
        functions: vec![function("main", vec![IrOp::ConstI(7), IrOp::Ret(0)])],
        entry_point: Some(0),
    };
    let text = write_program(&module).expect("should assemble");
    // the data section declares the fixed exit-report message
    assert!(text.contains("exit_code_message: .asciiz \"Exited with code \""));
    // the trampoline prints the message, then the saved return value, then exits
    let trampoline = "move $s0,$v0\nli $v0,0X4\nla $a0,exit_code_message\nsyscall\nli $v0,0X1\nmove $a0,$s0\nsyscall\nli $v0,0XA\nsyscall\n";
    assert!(text.contains(trampoline));
    // the entry point loads the constant it returns
    assert!(text.contains("li $s0,0X7"));
}

#[test]
fn assembly_is_deterministic() {
    let module = Module {
        functions: vec![
            function("top", vec![IrOp::Call(1), IrOp::Ret(0)]),
            leaf("bottom", 3),
        ],
        entry_point: Some(0),
    };
    let first = write_program(&module).expect("should assemble");
    let second = write_program(&module).expect("should assemble");
    assert_eq!(first, second);
}

#[test]
fn call_lowering_retrieves_result_and_preserves_frame() {
    let module = Module {
        functions: vec![
            function(
                "sum",
                vec![IrOp::Call(1), IrOp::Call(1), IrOp::Add(0, 1), IrOp::Ret(2)],
            ),
            leaf("five", 5),
        ],
        entry_point: Some(0),
    };
    let mut pending = Vec::new();
    let instructions = generate_instructions(&module, 0, &mut pending).expect("supported body");
    let rendered: Vec<String> = instructions.iter().map(|i| i.fmt()).collect();
    let expected = vec![
        "addiu $sp,$sp,0XFFFFFFF0".to_string(),
        "sw $ra,0XC($sp)".to_string(),
        "sw $s0,0X0($sp)".to_string(),
        "sw $s1,0X4($sp)".to_string(),
        "sw $s2,0X8($sp)".to_string(),
        "jal demo_1_0_five".to_string(),
        "move $s0,$v0".to_string(),
        "jal demo_1_0_five".to_string(),
        "move $s1,$v0".to_string(),
        "add $s2,$s0,$s1".to_string(),
        "move $v0,$s2".to_string(),
        "lw $s0,0X0($sp)".to_string(),
        "lw $s1,0X4($sp)".to_string(),
        "lw $s2,0X8($sp)".to_string(),
        "lw $ra,0XC($sp)".to_string(),
        "addiu $sp,$sp,0X10".to_string(),
        "jr $ra".to_string(),
    ];
    assert_eq!(rendered, expected);
    assert_eq!(pending, vec![1, 1]);
}

#[test]
fn table_entries_carry_mangled_labels() {
    let module = Module {
        functions: vec![function("start", vec![IrOp::Call(1), IrOp::Ret(0)]), leaf("end!", 2)],
        entry_point: Some(0),
    };
    let table = build_functions(&module).expect("should assemble");
    assert_eq!(table[0].as_ref().unwrap().label, "demo_1_0_start");
    assert_eq!(table[1].as_ref().unwrap().label, "demo_1_0_endu33");
}

#[test]
fn error_messages_describe_the_failure() {
    assert_eq!(
        Error::MissingEntryPointFunction.message(),
        "the entry point function was not defined"
    );
    assert_eq!(Error::UnsupportedOperation.message(), "an operation has no defined lowering");
}
