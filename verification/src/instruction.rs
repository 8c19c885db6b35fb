//! The instructions that the code generator emits.

use vstd::prelude::*;
use crate::registers::Reg;
use crate::text::text_is;

verus! {

/// The operations that an operator of the source language maps to.
#[derive(PartialEq, Eq, Structural, Clone, Copy, Debug)]
pub enum Opcode {
    Add,
    Sub,
    Imul,
    Idiv,
    And,
    Or,
    Compare,
}

/// The conditions of a jump.
#[derive(PartialEq, Eq, Structural, Clone, Copy, Debug)]
pub enum JumpKind {
    Always,
    Equal,
    NotEqual,
    Less,
    LessEqual,
    Greater,
    GreaterEqual,
}

/// One instruction or label, over the type `T` of the texts it carries: the
/// names of functions and the constants of the source.
#[derive(Clone, Debug)]
pub enum Instruction<T> {
    /// Exports the function of this name.
    Global(T),
    /// The entry of the function of this name.
    FunctionLabel(T),
    /// The definition of a local label.
    Label(u32),
    Push(Reg),
    Pop(Reg),
    /// Pushes a zero word.
    PushZero,
    Move { dst: Reg, src: Reg },
    /// Loads a constant of the source into a register.
    MoveConstant { dst: Reg, value: T },
    /// Loads a small number into a register.
    MoveNumber { dst: Reg, value: u8 },
    /// Loads the stack slot `offset` bytes from the frame pointer: above it
    /// where `above` is set, below it else.
    Load { dst: Reg, offset: i32, above: bool },
    /// Stores into the stack slot `offset` bytes from the frame pointer:
    /// above it where `above` is set, below it else.
    Store { offset: i32, above: bool, src: Reg },
    /// Reserves this many bytes of stack.
    Reserve(u64),
    Binary { op: Opcode, dst: Reg, src: Reg },
    /// An operation on the accumulator `rax` and `src`.
    Unary { op: Opcode, src: Reg },
    /// Inverts a truth value: exclusive or with one.
    Flip(Reg),
    Compare { left: Reg, right: Reg },
    CompareNumber { left: Reg, value: u8 },
    Jump { kind: JumpKind, label: u32 },
    Call(T),
    Return,
}

/// The mathematical value of an instruction.
pub type InstructionModel = Instruction<Seq<char>>;

impl View for Instruction<String> {
    type V = InstructionModel;

    open spec fn view(&self) -> InstructionModel {
        match *self {
            Instruction::Global(name) => Instruction::Global(name@),
            Instruction::FunctionLabel(name) => Instruction::FunctionLabel(name@),
            Instruction::Label(label) => Instruction::Label(label),
            Instruction::Push(reg) => Instruction::Push(reg),
            Instruction::Pop(reg) => Instruction::Pop(reg),
            Instruction::PushZero => Instruction::PushZero,
            Instruction::Move { dst, src } => Instruction::Move { dst, src },
            Instruction::MoveConstant { dst, value } => Instruction::MoveConstant {
                dst,
                value: value@,
            },
            Instruction::MoveNumber { dst, value } => Instruction::MoveNumber { dst, value },
            Instruction::Load { dst, offset, above } => Instruction::Load { dst, offset, above },
            Instruction::Store { offset, above, src } => Instruction::Store {
                offset,
                above,
                src,
            },
            Instruction::Reserve(bytes) => Instruction::Reserve(bytes),
            Instruction::Binary { op, dst, src } => Instruction::Binary { op, dst, src },
            Instruction::Unary { op, src } => Instruction::Unary { op, src },
            Instruction::Flip(reg) => Instruction::Flip(reg),
            Instruction::Compare { left, right } => Instruction::Compare { left, right },
            Instruction::CompareNumber { left, value } => Instruction::CompareNumber {
                left,
                value,
            },
            Instruction::Jump { kind, label } => Instruction::Jump { kind, label },
            Instruction::Call(name) => Instruction::Call(name@),
            Instruction::Return => Instruction::Return,
        }
    }
}

/// The operation that the operator `text` maps to.
pub open spec fn operator_code(text: Seq<char>) -> Option<Opcode> {
    if text == "+"@ {
        Some(Opcode::Add)
    } else if text == "-"@ {
        Some(Opcode::Sub)
    } else if text == "*"@ {
        Some(Opcode::Imul)
    } else if text == "/"@ {
        Some(Opcode::Idiv)
    } else if text == "&&"@ {
        Some(Opcode::And)
    } else if text == "||"@ {
        Some(Opcode::Or)
    } else if text == "=="@ {
        Some(Opcode::Compare)
    } else if text == "!="@ {
        Some(Opcode::Compare)
    } else {
        None
    }
}

/// The operation that `operator` maps to; `None` for a text that is no
/// arithmetic, logical or equality operator.
pub fn to_operator(operator: &str) -> (op: Option<Opcode>)
    ensures
        op == operator_code(operator@),
{
    if text_is(operator, "+") {
        Some(Opcode::Add)
    } else if text_is(operator, "-") {
        Some(Opcode::Sub)
    } else if text_is(operator, "*") {
        Some(Opcode::Imul)
    } else if text_is(operator, "/") {
        Some(Opcode::Idiv)
    } else if text_is(operator, "&&") {
        Some(Opcode::And)
    } else if text_is(operator, "||") {
        Some(Opcode::Or)
    } else if text_is(operator, "==") {
        Some(Opcode::Compare)
    } else if text_is(operator, "!=") {
        Some(Opcode::Compare)
    } else {
        None
    }
}

/// The jump that is taken where the relation `text` holds.
pub open spec fn relation_jump(text: Seq<char>) -> Option<JumpKind> {
    if text == "<"@ {
        Some(JumpKind::Less)
    } else if text == "<="@ {
        Some(JumpKind::LessEqual)
    } else if text == ">"@ {
        Some(JumpKind::Greater)
    } else if text == ">="@ {
        Some(JumpKind::GreaterEqual)
    } else {
        None
    }
}

/// The jump that is taken where the relation `operator` holds; `None` for a
/// text that is no relational operator.
pub fn jump_command(operator: &str) -> (kind: Option<JumpKind>)
    ensures
        kind == relation_jump(operator@),
{
    if text_is(operator, "<") {
        Some(JumpKind::Less)
    } else if text_is(operator, "<=") {
        Some(JumpKind::LessEqual)
    } else if text_is(operator, ">") {
        Some(JumpKind::Greater)
    } else if text_is(operator, ">=") {
        Some(JumpKind::GreaterEqual)
    } else {
        None
    }
}

/// Whether `instruction` defines the local label `label`.
pub open spec fn defines(instruction: InstructionModel, label: u32) -> bool {
    instruction == Instruction::<Seq<char>>::Label(label)
}

/// Whether `instruction` is a jump to the local label `label`.
pub open spec fn refers(instruction: InstructionModel, label: u32) -> bool {
    match instruction {
        Instruction::Jump { kind, label: target } => target == label,
        _ => false,
    }
}

/// How often `code` defines the local label `label`.
pub open spec fn definitions(code: Seq<InstructionModel>, label: u32) -> nat
    decreases code.len(),
{
    if code.len() == 0 {
        0
    } else {
        definitions(code.drop_last(), label) + if defines(code.last(), label) {
            1nat
        } else {
            0nat
        }
    }
}

/// How often `code` jumps to the local label `label`.
pub open spec fn references(code: Seq<InstructionModel>, label: u32) -> nat
    decreases code.len(),
{
    if code.len() == 0 {
        0
    } else {
        references(code.drop_last(), label) + if refers(code.last(), label) {
            1nat
        } else {
            0nat
        }
    }
}

/// One where `condition` holds, zero where it does not.
pub open spec fn one_if(condition: bool) -> nat {
    if condition {
        1
    } else {
        0
    }
}

/// One more instruction counts for the labels it defines and refers to.
pub proof fn lemma_counts_push(code: Seq<InstructionModel>, instruction: InstructionModel)
    ensures
        forall|l: u32| #[trigger]
            definitions(code.push(instruction), l) == definitions(code, l) + one_if(
                defines(instruction, l),
            ),
        forall|l: u32| #[trigger]
            references(code.push(instruction), l) == references(code, l) + one_if(
                refers(instruction, l),
            ),
{
    assert(code.push(instruction).drop_last() =~= code);
}

/// The counts of a label in two pieces of code add up.
pub proof fn lemma_counts_concat(a: Seq<InstructionModel>, b: Seq<InstructionModel>)
    ensures
        forall|l: u32| #[trigger] definitions(a + b, l) == definitions(a, l) + definitions(b, l),
        forall|l: u32| #[trigger] references(a + b, l) == references(a, l) + references(b, l),
    decreases b.len(),
{
    if b.len() == 0 {
        assert(a + b =~= a);
    } else {
        lemma_counts_concat(a, b.drop_last());
        assert((a + b).drop_last() =~= a + b.drop_last());
        assert((a + b).last() == b.last());
        assert forall|l: u32| #[trigger]
            definitions(a + b, l) == definitions(a, l) + definitions(b, l) by {
            assert(definitions(a + b.drop_last(), l) == definitions(a, l) + definitions(
                b.drop_last(),
                l,
            ));
        }
        assert forall|l: u32| #[trigger]
            references(a + b, l) == references(a, l) + references(b, l) by {
            assert(references(a + b.drop_last(), l) == references(a, l) + references(
                b.drop_last(),
                l,
            ));
        }
    }
}

} // verus!
