use c_compiler::instruction::{Instruction, JumpKind, Opcode};
use c_compiler::registers::Reg;
use c_compiler::render::{
    jump_str, label_name, mnemonic_str, register_str, render, render_all,
};

fn line(instruction: Instruction<String>) -> String {
    render(&instruction)
}

#[test]
fn label_names() {
    assert_eq!(label_name(0), ".L0");
    assert_eq!(label_name(1), ".L1");
    assert_eq!(label_name(12), ".L12");
    assert_eq!(label_name(u32::MAX), ".L4294967295");
}

#[test]
fn register_names() {
    let all = [
        (Reg::Rax, "rax"),
        (Reg::Rbx, "rbx"),
        (Reg::Rdx, "rdx"),
        (Reg::Rbp, "rbp"),
        (Reg::Rsp, "rsp"),
        (Reg::R10, "r10"),
        (Reg::R11, "r11"),
        (Reg::R12, "r12"),
        (Reg::R13, "r13"),
        (Reg::R14, "r14"),
        (Reg::R15, "r15"),
    ];
    for (reg, name) in all {
        assert_eq!(register_str(reg), name);
    }
}

#[test]
fn mnemonics() {
    assert_eq!(mnemonic_str(Opcode::Add), "add");
    assert_eq!(mnemonic_str(Opcode::Sub), "sub");
    assert_eq!(mnemonic_str(Opcode::Imul), "imul");
    assert_eq!(mnemonic_str(Opcode::Idiv), "idiv");
    assert_eq!(mnemonic_str(Opcode::And), "and");
    assert_eq!(mnemonic_str(Opcode::Or), "or");
    assert_eq!(mnemonic_str(Opcode::Compare), "cmp");
    assert_eq!(jump_str(JumpKind::Always), "jmp");
    assert_eq!(jump_str(JumpKind::Equal), "je");
    assert_eq!(jump_str(JumpKind::NotEqual), "jne");
    assert_eq!(jump_str(JumpKind::Less), "jl");
    assert_eq!(jump_str(JumpKind::LessEqual), "jle");
    assert_eq!(jump_str(JumpKind::Greater), "jg");
    assert_eq!(jump_str(JumpKind::GreaterEqual), "jge");
}

#[test]
fn every_instruction_has_its_line() {
    assert_eq!(line(Instruction::Global("main".to_string())), "global main");
    assert_eq!(line(Instruction::FunctionLabel("main".to_string())), "main:");
    assert_eq!(line(Instruction::Label(3)), ".L3:");
    assert_eq!(line(Instruction::Push(Reg::Rbp)), "\tpush rbp");
    assert_eq!(line(Instruction::Pop(Reg::R15)), "\tpop r15");
    assert_eq!(line(Instruction::PushZero), "\tpush 0");
    assert_eq!(line(Instruction::Move { dst: Reg::Rbp, src: Reg::Rsp }), "\tmov rbp, rsp");
    assert_eq!(
        line(Instruction::MoveConstant { dst: Reg::R10, value: "42".to_string() }),
        "\tmov qword r10, 42"
    );
    assert_eq!(line(Instruction::MoveNumber { dst: Reg::Rdx, value: 0 }), "\tmov rdx, 0");
    assert_eq!(line(Instruction::MoveNumber { dst: Reg::Rbx, value: 255 }), "\tmov rbx, 255");
    assert_eq!(
        line(Instruction::Load { dst: Reg::Rbx, offset: 8, above: false }),
        "\tmov rbx, [rbp-8]"
    );
    assert_eq!(
        line(Instruction::Load { dst: Reg::Rbx, offset: 16, above: true }),
        "\tmov rbx, [rbp+16]"
    );
    assert_eq!(
        line(Instruction::Load { dst: Reg::Rbx, offset: -16, above: false }),
        "\tmov rbx, [rbp+16]"
    );
    assert_eq!(
        line(Instruction::Load { dst: Reg::Rbx, offset: -16, above: true }),
        "\tmov rbx, [rbp-16]"
    );
    assert_eq!(
        line(Instruction::Load { dst: Reg::Rbx, offset: 0, above: false }),
        "\tmov rbx, [rbp-0]"
    );
    assert_eq!(
        line(Instruction::Store { offset: 24, above: false, src: Reg::R11 }),
        "\tmov qword [rbp-24], r11"
    );
    assert_eq!(
        line(Instruction::Store { offset: 24, above: true, src: Reg::R11 }),
        "\tmov qword [rbp+24], r11"
    );
    assert_eq!(
        line(Instruction::Store { offset: i32::MIN, above: false, src: Reg::R11 }),
        "\tmov qword [rbp+2147483648], r11"
    );
    assert_eq!(line(Instruction::Reserve(0)), "\tsub rsp, 0");
    assert_eq!(line(Instruction::Reserve(160)), "\tsub rsp, 160");
    assert_eq!(
        line(Instruction::Binary { op: Opcode::Add, dst: Reg::Rbx, src: Reg::R10 }),
        "\tadd rbx, r10"
    );
    assert_eq!(
        line(Instruction::Binary { op: Opcode::Sub, dst: Reg::R12, src: Reg::R13 }),
        "\tsub r12, r13"
    );
    assert_eq!(line(Instruction::Unary { op: Opcode::Imul, src: Reg::R10 }), "\timul r10");
    assert_eq!(line(Instruction::Unary { op: Opcode::Idiv, src: Reg::R14 }), "\tidiv r14");
    assert_eq!(line(Instruction::Flip(Reg::Rbx)), "\txor rbx, 1");
    assert_eq!(
        line(Instruction::Compare { left: Reg::Rbx, right: Reg::R10 }),
        "\tcmp rbx, r10"
    );
    assert_eq!(line(Instruction::CompareNumber { left: Reg::Rbx, value: 1 }), "\tcmp rbx, 1");
    assert_eq!(line(Instruction::Jump { kind: JumpKind::Always, label: 9 }), "\tjmp .L9");
    assert_eq!(line(Instruction::Jump { kind: JumpKind::Equal, label: 10 }), "\tje .L10");
    assert_eq!(line(Instruction::Jump { kind: JumpKind::NotEqual, label: 11 }), "\tjne .L11");
    assert_eq!(line(Instruction::Jump { kind: JumpKind::LessEqual, label: 2 }), "\tjle .L2");
    assert_eq!(line(Instruction::Call("helper".to_string())), "\tcall helper");
    assert_eq!(line(Instruction::Return), "\tret");
}

#[test]
fn code_is_rendered_line_by_line() {
    let code = vec![
        Instruction::FunctionLabel("f".to_string()),
        Instruction::Push(Reg::Rbp),
        Instruction::Return,
    ];
    assert_eq!(render_all(&code), vec!["f:", "\tpush rbp", "\tret"]);
    assert!(render_all(&Vec::new()).is_empty());
}
