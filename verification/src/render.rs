//! The text of the emitted code: one line for each instruction or label.

use vstd::prelude::*;
use vstd::string::StringExecFns;
use crate::instruction::{Instruction, InstructionModel, JumpKind, Opcode};
use crate::registers::Reg;
use crate::text::{
    numeral, numeral32, numeral8, offset_numeral, push_numeral, push_numeral32, push_numeral8,
    push_offset,
};
use crate::views::{views, lemma_views_push};

verus! {

/// The name of a register.
pub open spec fn register_text(reg: Reg) -> Seq<char> {
    match reg {
        Reg::Rax => "rax"@,
        Reg::Rbx => "rbx"@,
        Reg::Rdx => "rdx"@,
        Reg::Rbp => "rbp"@,
        Reg::Rsp => "rsp"@,
        Reg::R10 => "r10"@,
        Reg::R11 => "r11"@,
        Reg::R12 => "r12"@,
        Reg::R13 => "r13"@,
        Reg::R14 => "r14"@,
        Reg::R15 => "r15"@,
    }
}

/// The name of a register.
pub fn register_str(reg: Reg) -> (name: &'static str)
    ensures
        name@ == register_text(reg),
{
    match reg {
        Reg::Rax => "rax",
        Reg::Rbx => "rbx",
        Reg::Rdx => "rdx",
        Reg::Rbp => "rbp",
        Reg::Rsp => "rsp",
        Reg::R10 => "r10",
        Reg::R11 => "r11",
        Reg::R12 => "r12",
        Reg::R13 => "r13",
        Reg::R14 => "r14",
        Reg::R15 => "r15",
    }
}

/// The mnemonic of an operation.
pub open spec fn mnemonic(op: Opcode) -> Seq<char> {
    match op {
        Opcode::Add => "add"@,
        Opcode::Sub => "sub"@,
        Opcode::Imul => "imul"@,
        Opcode::Idiv => "idiv"@,
        Opcode::And => "and"@,
        Opcode::Or => "or"@,
        Opcode::Compare => "cmp"@,
    }
}

/// The mnemonic of an operation.
pub fn mnemonic_str(op: Opcode) -> (name: &'static str)
    ensures
        name@ == mnemonic(op),
{
    match op {
        Opcode::Add => "add",
        Opcode::Sub => "sub",
        Opcode::Imul => "imul",
        Opcode::Idiv => "idiv",
        Opcode::And => "and",
        Opcode::Or => "or",
        Opcode::Compare => "cmp",
    }
}

/// The mnemonic of a jump.
pub open spec fn jump_text(kind: JumpKind) -> Seq<char> {
    match kind {
        JumpKind::Always => "jmp"@,
        JumpKind::Equal => "je"@,
        JumpKind::NotEqual => "jne"@,
        JumpKind::Less => "jl"@,
        JumpKind::LessEqual => "jle"@,
        JumpKind::Greater => "jg"@,
        JumpKind::GreaterEqual => "jge"@,
    }
}

/// The mnemonic of a jump.
pub fn jump_str(kind: JumpKind) -> (name: &'static str)
    ensures
        name@ == jump_text(kind),
{
    match kind {
        JumpKind::Always => "jmp",
        JumpKind::Equal => "je",
        JumpKind::NotEqual => "jne",
        JumpKind::Less => "jl",
        JumpKind::LessEqual => "jle",
        JumpKind::Greater => "jg",
        JumpKind::GreaterEqual => "jge",
    }
}

/// The name of the local label `index`: `.L` and the decimal numeral.
pub open spec fn label_text(index: u32) -> Seq<char> {
    ".L"@ + numeral32(index)
}

/// The name of the local label `index`.
pub fn label_name(index: u32) -> (name: String)
    ensures
        name@ == label_text(index),
{
    let mut name = String::new();
    name.append(".L");
    push_numeral32(&mut name, index);
    assert(name@ =~= label_text(index));
    name
}

/// Whether a slot lies above the frame pointer: one that is counted upwards
/// by a distance that is not negative, or downwards by a negative one.
pub open spec fn rises(offset: i32, above: bool) -> bool {
    above != (offset < 0)
}

/// The stack slot `offset` bytes from the frame pointer, counted upwards
/// where `above` is set and downwards else: the frame pointer, a sign, and
/// the distance.
pub open spec fn slot_text(offset: i32, above: bool) -> Seq<char> {
    if rises(offset, above) {
        "[rbp+"@ + offset_numeral(offset) + "]"@
    } else {
        "[rbp-"@ + offset_numeral(offset) + "]"@
    }
}

fn push_slot(line: &mut String, offset: i32, above: bool)
    ensures
        final(line)@ == old(line)@ + slot_text(offset, above),
{
    if above != (offset < 0) {
        line.append("[rbp+");
    } else {
        line.append("[rbp-");
    }
    push_offset(line, offset);
    line.append("]");
    assert(line@ =~= old(line)@ + slot_text(offset, above));
}

/// The line of one instruction.
pub open spec fn rendered(instruction: InstructionModel) -> Seq<char> {
    match instruction {
        Instruction::Global(name) => "global "@ + name,
        Instruction::FunctionLabel(name) => name + ":"@,
        Instruction::Label(label) => label_text(label) + ":"@,
        Instruction::Push(reg) => "\tpush "@ + register_text(reg),
        Instruction::Pop(reg) => "\tpop "@ + register_text(reg),
        Instruction::PushZero => "\tpush 0"@,
        Instruction::Move { dst, src } => "\tmov "@ + register_text(dst) + ", "@ + register_text(
            src,
        ),
        Instruction::MoveConstant { dst, value } => "\tmov qword "@ + register_text(dst) + ", "@
            + value,
        Instruction::MoveNumber { dst, value } => "\tmov "@ + register_text(dst) + ", "@
            + numeral8(value),
        Instruction::Load { dst, offset, above } => "\tmov "@ + register_text(dst) + ", "@
            + slot_text(offset, above),
        Instruction::Store { offset, above, src } => "\tmov qword "@ + slot_text(offset, above)
            + ", "@ + register_text(src),
        Instruction::Reserve(bytes) => "\tsub rsp, "@ + numeral(bytes),
        Instruction::Binary { op, dst, src } => "\t"@ + mnemonic(op) + " "@ + register_text(dst)
            + ", "@ + register_text(src),
        Instruction::Unary { op, src } => "\t"@ + mnemonic(op) + " "@ + register_text(src),
        Instruction::Flip(reg) => "\txor "@ + register_text(reg) + ", 1"@,
        Instruction::Compare { left, right } => "\tcmp "@ + register_text(left) + ", "@
            + register_text(right),
        Instruction::CompareNumber { left, value } => "\tcmp "@ + register_text(left) + ", "@
            + numeral8(value),
        Instruction::Jump { kind, label } => "\t"@ + jump_text(kind) + " "@ + label_text(label),
        Instruction::Call(name) => "\tcall "@ + name,
        Instruction::Return => "\tret"@,
    }
}

fn two_operands(head: &str, first: &str, second: &str) -> (line: String)
    ensures
        line@ == head@ + first@ + ", "@ + second@,
{
    let mut line = String::new();
    line.append(head);
    line.append(first);
    line.append(", ");
    line.append(second);
    assert(line@ =~= head@ + first@ + ", "@ + second@);
    line
}

fn one_operand(head: &str, operand: &str) -> (line: String)
    ensures
        line@ == head@ + operand@,
{
    let mut line = String::new();
    line.append(head);
    line.append(operand);
    assert(line@ =~= head@ + operand@);
    line
}

fn operation(op: Opcode) -> (line: String)
    ensures
        line@ == "\t"@ + mnemonic(op) + " "@,
{
    let mut line = String::new();
    line.append("\t");
    line.append(mnemonic_str(op));
    line.append(" ");
    assert(line@ =~= "\t"@ + mnemonic(op) + " "@);
    line
}

fn render_label(label: u32) -> (line: String)
    ensures
        line@ == rendered(Instruction::Label(label)),
{
    let mut line = label_name(label);
    line.append(":");
    line
}

fn render_plain(text: &str) -> (line: String)
    ensures
        line@ == text@,
{
    let mut line = String::new();
    line.append(text);
    assert(line@ =~= text@);
    line
}

fn render_move_number(dst: Reg, value: u8) -> (line: String)
    ensures
        line@ == rendered(Instruction::MoveNumber { dst, value }),
{
    let mut line = one_operand("\tmov ", register_str(dst));
    line.append(", ");
    push_numeral8(&mut line, value);
    line
}

fn render_load(dst: Reg, offset: i32, above: bool) -> (line: String)
    ensures
        line@ == rendered(Instruction::Load { dst, offset, above }),
{
    let mut line = one_operand("\tmov ", register_str(dst));
    line.append(", ");
    push_slot(&mut line, offset, above);
    line
}

fn render_store(offset: i32, above: bool, src: Reg) -> (line: String)
    ensures
        line@ == rendered(Instruction::Store { offset, above, src }),
{
    let mut line = String::new();
    line.append("\tmov qword ");
    push_slot(&mut line, offset, above);
    line.append(", ");
    line.append(register_str(src));
    assert(line@ =~= "\tmov qword "@ + slot_text(offset, above) + ", "@ + register_text(src));
    line
}

fn render_reserve(bytes: u64) -> (line: String)
    ensures
        line@ == rendered(Instruction::Reserve(bytes)),
{
    let mut line = String::new();
    line.append("\tsub rsp, ");
    push_numeral(&mut line, bytes);
    assert(line@ =~= "\tsub rsp, "@ + numeral(bytes));
    line
}

fn render_binary(op: Opcode, dst: Reg, src: Reg) -> (line: String)
    ensures
        line@ == rendered(Instruction::Binary { op, dst, src }),
{
    let mut line = operation(op);
    line.append(register_str(dst));
    line.append(", ");
    line.append(register_str(src));
    line
}

fn render_unary(op: Opcode, src: Reg) -> (line: String)
    ensures
        line@ == rendered(Instruction::Unary { op, src }),
{
    let mut line = operation(op);
    line.append(register_str(src));
    line
}

fn render_flip(reg: Reg) -> (line: String)
    ensures
        line@ == rendered(Instruction::Flip(reg)),
{
    let mut line = one_operand("\txor ", register_str(reg));
    line.append(", 1");
    line
}

fn render_compare_number(left: Reg, value: u8) -> (line: String)
    ensures
        line@ == rendered(Instruction::CompareNumber { left, value }),
{
    let mut line = one_operand("\tcmp ", register_str(left));
    line.append(", ");
    push_numeral8(&mut line, value);
    line
}

fn render_jump(kind: JumpKind, label: u32) -> (line: String)
    ensures
        line@ == rendered(Instruction::Jump { kind, label }),
{
    let mut line = String::new();
    line.append("\t");
    line.append(jump_str(kind));
    line.append(" ");
    let name = label_name(label);
    line.append(name.as_str());
    assert(line@ =~= "\t"@ + jump_text(kind) + " "@ + label_text(label));
    line
}

/// Renders one instruction as its line.
pub fn render(instruction: &Instruction<String>) -> (line: String)
    ensures
        line@ == rendered(instruction@),
{
    match instruction {
        Instruction::Global(name) => one_operand("global ", name.as_str()),
        Instruction::FunctionLabel(name) => one_operand(name.as_str(), ":"),
        Instruction::Label(label) => render_label(*label),
        Instruction::Push(reg) => one_operand("\tpush ", register_str(*reg)),
        Instruction::Pop(reg) => one_operand("\tpop ", register_str(*reg)),
        Instruction::PushZero => render_plain("\tpush 0"),
        Instruction::Move { dst, src } => two_operands(
            "\tmov ",
            register_str(*dst),
            register_str(*src),
        ),
        Instruction::MoveConstant { dst, value } => two_operands(
            "\tmov qword ",
            register_str(*dst),
            value.as_str(),
        ),
        Instruction::MoveNumber { dst, value } => render_move_number(*dst, *value),
        Instruction::Load { dst, offset, above } => render_load(*dst, *offset, *above),
        Instruction::Store { offset, above, src } => render_store(*offset, *above, *src),
        Instruction::Reserve(bytes) => render_reserve(*bytes),
        Instruction::Binary { op, dst, src } => render_binary(*op, *dst, *src),
        Instruction::Unary { op, src } => render_unary(*op, *src),
        Instruction::Flip(reg) => render_flip(*reg),
        Instruction::Compare { left, right } => two_operands(
            "\tcmp ",
            register_str(*left),
            register_str(*right),
        ),
        Instruction::CompareNumber { left, value } => render_compare_number(*left, *value),
        Instruction::Jump { kind, label } => render_jump(*kind, *label),
        Instruction::Call(name) => one_operand("\tcall ", name.as_str()),
        Instruction::Return => render_plain("\tret"),
    }
}

/// The lines of a piece of code, one for each instruction, in order.
pub open spec fn rendered_all(code: Seq<InstructionModel>) -> Seq<Seq<char>> {
    Seq::new(code.len(), |i: int| rendered(code[i]))
}

/// Renders a piece of code as its lines.
pub fn render_all(code: &Vec<Instruction<String>>) -> (lines: Vec<String>)
    ensures
        views(lines@) == rendered_all(views(code@)),
{
    let mut lines: Vec<String> = Vec::new();
    let mut i: usize = 0;
    assert(views(lines@) =~= rendered_all(views(code@)).take(0));
    while i < code.len()
        invariant
            0 <= i <= code@.len(),
            views(lines@) == rendered_all(views(code@)).take(i as int),
        decreases code@.len() - i,
    {
        let line = render(&code[i]);
        proof {
            lemma_views_push(lines@, line);
            assert(views(code@)[i as int] == code@[i as int]@);
            assert(rendered_all(views(code@)).take(i as int).push(line@) =~= rendered_all(
                views(code@),
            ).take(i as int + 1));
        }
        lines.push(line);
        i = i + 1;
    }
    assert(rendered_all(views(code@)).take(i as int) =~= rendered_all(views(code@)));
    lines
}

} // verus!
