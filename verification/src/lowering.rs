//! What the code generator emits, as a function of the syntax tree.
//!
//! Lowering is a walk over the tree in post-order that threads one state:
//! the code emitted so far, the scope tree, the register pool and the label
//! counter. An expression leaves its value in a register of the pool and
//! hands the register's index to its parent; a statement hands nothing on.

use vstd::prelude::*;
use crate::instruction::{
    Instruction, InstructionModel, JumpKind, Opcode, definitions, operator_code, references,
    relation_jump,
};
use crate::registers::{PoolModel, Reg, after_alloc, after_free, allocated, pool_register};
use crate::symbol_table::{
    BindingModel, ScopeTreeModel, advance_in, lookup_in, next_child_in, set_register_in,
};
use crate::syntax::{NodeModel, NodeType, text_of};
use crate::token::identifier_text;

verus! {

/// Why code generation fails.
#[derive(PartialEq, Eq, Structural, Clone, Copy, Debug)]
pub enum CodegenError {
    /// Every register of the pool is taken.
    OutOfRegisters,
    /// The label counter cannot count further.
    OutOfLabels,
    /// A node lacks a child or an attribute that its type calls for, or a
    /// child yields a register where none is due, or none where one is.
    MalformedTree,
    /// A name is not declared in the frame it is used in, nor around it.
    UnknownIdentifier,
    /// An expression tail carries a text that is no operator of its level.
    UnknownOperator,
    /// A block has no frame left among the children of its enclosing frame.
    ScopeMismatch,
    /// The locals of a function take more bytes than can be counted.
    FrameTooLarge,
}

/// The state that lowering threads through the tree.
pub struct GenState {
    pub code: Seq<InstructionModel>,
    pub scopes: ScopeTreeModel,
    pub pool: PoolModel,
    pub labels: u32,
}

/// What lowering a node yields: the state behind it and the register that
/// holds the node's value, if it has one.
pub type Lowered = Result<(GenState, Option<u32>), CodegenError>;

/// What lowering a statement-like part yields: the state behind it.
pub type Progress = Result<GenState, CodegenError>;

/// The discipline of the local labels in a state: no label is defined twice,
/// and a label that the counter has not reached yet is neither defined nor
/// the target of a jump.
pub open spec fn labels_wf(st: GenState) -> bool {
    &&& forall|l: u32| #[trigger] definitions(st.code, l) <= 1
    &&& forall|l: u32| l > st.labels ==> #[trigger] definitions(st.code, l) == 0
    &&& forall|l: u32| l > st.labels ==> #[trigger] references(st.code, l) == 0
}

/// What a piece of generated code leaves alone: it defines no label that
/// existed before it, and it jumps to no label that existed before it but,
/// where it is given one, its exit label `exit`.
pub open spec fn label_frame(before: GenState, after: GenState, exit: Option<u32>) -> bool {
    &&& before.labels <= after.labels
    &&& forall|l: u32|
        l <= before.labels ==> #[trigger] definitions(after.code, l) == definitions(before.code, l)
    &&& forall|l: u32|
        l <= before.labels && exit != Some(l) ==> #[trigger] references(after.code, l)
            == references(before.code, l)
}

/// Two states agree on the label counter and on how often their code defines
/// and jumps to every label.
pub open spec fn same_labels(before: GenState, after: GenState) -> bool {
    &&& before.labels == after.labels
    &&& forall|l: u32| #[trigger] definitions(after.code, l) == definitions(before.code, l)
    &&& forall|l: u32| #[trigger] references(after.code, l) == references(before.code, l)
}

/// Whether an exit label, where one is given, has been created.
pub open spec fn exit_known(st: GenState, exit: Option<u32>) -> bool {
    match exit {
        Some(l) => l <= st.labels,
        None => true,
    }
}

/// The most locals whose bytes can still be counted.
pub const MAX_LOCALS: u64 = 2305843009213693951;

/// The state after `instruction` has been emitted.
pub open spec fn emitted(st: GenState, instruction: InstructionModel) -> GenState {
    GenState { code: st.code.push(instruction), ..st }
}

/// The state after `block` has been emitted.
pub open spec fn emitted_all(st: GenState, block: Seq<InstructionModel>) -> GenState {
    GenState { code: st.code + block, ..st }
}

/// Takes the first free register of the pool.
pub open spec fn taken(st: GenState) -> Result<(GenState, u32), CodegenError> {
    match allocated(st.pool) {
        Some(r) => Ok((GenState { pool: after_alloc(st.pool, 0), ..st }, r)),
        None => Err(CodegenError::OutOfRegisters),
    }
}

/// The state after the register `r` has been given back.
pub open spec fn released(st: GenState, r: u32) -> GenState {
    GenState { pool: after_free(st.pool, r as nat), ..st }
}

/// The state after the register of a finished child, if it yielded one, has
/// been given back.
pub open spec fn settled(st: GenState, r: Option<u32>) -> GenState {
    match r {
        Some(i) => released(st, i),
        None => st,
    }
}

/// Creates the next label: the counter moves on by one and its new value is
/// the label.
pub open spec fn labelled(st: GenState) -> Result<(GenState, u32), CodegenError> {
    if st.labels == u32::MAX {
        Err(CodegenError::OutOfLabels)
    } else {
        Ok((GenState { labels: (st.labels + 1) as u32, ..st }, (st.labels + 1) as u32))
    }
}

/// Leaves the child frame of `frame` that was visited last: the walk over
/// the children of `frame` moves on by one.
pub open spec fn left_child(st: GenState, frame: nat) -> Progress {
    if next_child_in(st.scopes, frame) is Some {
        Ok(GenState { scopes: advance_in(st.scopes, frame), ..st })
    } else {
        Err(CodegenError::ScopeMismatch)
    }
}

/// The state after `register` has been recorded for `name`.
pub open spec fn recorded(st: GenState, frame: nat, name: Seq<char>, register: u32) -> GenState {
    GenState { scopes: set_register_in(st.scopes, frame, name, register as i32), ..st }
}

/// The entry of a function: its label, the new frame, `bytes` bytes for the
/// locals, and the callee-saved registers pushed.
pub open spec fn prologue(name: Seq<char>, bytes: u64) -> Seq<InstructionModel> {
    seq![
        Instruction::FunctionLabel(name),
        Instruction::Push(Reg::Rbp),
        Instruction::Move { dst: Reg::Rbp, src: Reg::Rsp },
        Instruction::Reserve(bytes),
        Instruction::Push(Reg::Rbx),
        Instruction::Push(Reg::R12),
        Instruction::Push(Reg::R13),
        Instruction::Push(Reg::R14),
        Instruction::Push(Reg::R15),
    ]
}

/// The exit of a function: the callee-saved registers popped in reverse, the
/// frame undone, and the return.
pub open spec fn epilogue() -> Seq<InstructionModel> {
    seq![
        Instruction::Pop(Reg::R15),
        Instruction::Pop(Reg::R14),
        Instruction::Pop(Reg::R13),
        Instruction::Pop(Reg::R12),
        Instruction::Pop(Reg::Rbx),
        Instruction::Move { dst: Reg::Rsp, src: Reg::Rbp },
        Instruction::Pop(Reg::Rbp),
        Instruction::Return,
    ]
}

/// The value that decides `||` and `&&` early: one for `||`, zero for `&&`.
pub open spec fn short_circuit_value(op: Seq<char>) -> u8 {
    if op == "||"@ {
        1
    } else {
        0
    }
}

/// The code of `acc || r` or `acc && r`, with the result in `acc`: where
/// either operand has the deciding value, the result is that value, else the
/// other one.
///
/// The left operand is compared with the deciding value, and where they are
/// equal control goes to `decided`, which sets the result to that value. Else
/// the right operand is compared in the same way; the result is set to the
/// other value, which leaves the outcome of the comparison alone, and where
/// the right operand differs from the deciding value control goes to `done`
/// with that result. Where it does not differ, control falls into `decided`.
/// So each of the two labels is the target of one jump.
pub open spec fn short_circuit_block(
    op: Seq<char>,
    acc: Reg,
    r: Reg,
    decided: u32,
    done: u32,
) -> Seq<InstructionModel> {
    let early = short_circuit_value(op);
    seq![
        Instruction::CompareNumber { left: acc, value: early },
        Instruction::Jump { kind: JumpKind::Equal, label: decided },
        Instruction::CompareNumber { left: r, value: early },
        Instruction::MoveNumber { dst: acc, value: (1 - early) as u8 },
        Instruction::Jump { kind: JumpKind::NotEqual, label: done },
        Instruction::Label(decided),
        Instruction::MoveNumber { dst: acc, value: early },
        Instruction::Label(done),
    ]
}

/// The value of `acc != r` or `acc == r` where the operands are equal.
pub open spec fn equal_value(op: Seq<char>) -> u8 {
    if op == "!="@ {
        0
    } else {
        1
    }
}

/// The code of `acc == r` or `acc != r`, with the result, `0` or `1`, in
/// `acc`.
pub open spec fn equality_block(
    op: Seq<char>,
    acc: Reg,
    r: Reg,
    equal: u32,
    done: u32,
) -> Seq<InstructionModel> {
    seq![
        Instruction::Compare { left: acc, right: r },
        Instruction::Jump { kind: JumpKind::Equal, label: equal },
        Instruction::MoveNumber { dst: acc, value: (1 - equal_value(op)) as u8 },
        Instruction::Jump { kind: JumpKind::Always, label: done },
        Instruction::Label(equal),
        Instruction::MoveNumber { dst: acc, value: equal_value(op) },
        Instruction::Label(done),
    ]
}

/// The code of a relational comparison of `acc` with `r`, with the result,
/// `0` or `1`, in `acc`.
pub open spec fn relational_block(
    kind: JumpKind,
    acc: Reg,
    r: Reg,
    holds: u32,
    done: u32,
) -> Seq<InstructionModel> {
    seq![
        Instruction::Compare { left: acc, right: r },
        Instruction::Jump { kind: kind, label: holds },
        Instruction::MoveNumber { dst: acc, value: 0 },
        Instruction::Jump { kind: JumpKind::Always, label: done },
        Instruction::Label(holds),
        Instruction::MoveNumber { dst: acc, value: 1 },
        Instruction::Label(done),
    ]
}

/// The code of a multiplication or division of `acc` by `r` through the
/// accumulator `rax`, with the result in `acc`. A division clears `rdx`
/// first.
pub open spec fn scaling_block(divides: bool, op: Opcode, acc: Reg, r: Reg) -> Seq<
    InstructionModel,
> {
    let core = seq![
        Instruction::Move { dst: Reg::Rax, src: acc },
        Instruction::Unary { op: op, src: r },
        Instruction::Move { dst: acc, src: Reg::Rax },
    ];
    if divides {
        seq![Instruction::MoveNumber { dst: Reg::Rdx, value: 0 }] + core
    } else {
        core
    }
}

/// Two fresh labels and, behind them, a block that uses them.
pub open spec fn with_two_labels(
    st: GenState,
    block: spec_fn(u32, u32) -> Seq<InstructionModel>,
) -> Progress {
    match labelled(st) {
        Ok((s1, first)) => match labelled(s1) {
            Ok((s2, second)) => Ok(emitted_all(s2, block(first, second))),
            Err(e) => Err(e),
        },
        Err(e) => Err(e),
    }
}

/// The code that combines the accumulator `acc` with the operand `r` in the
/// tail of type `kind`, for the operator `op`.
pub open spec fn combined(
    kind: NodeType,
    op: Seq<char>,
    acc: u32,
    r: u32,
    st: GenState,
) -> Progress {
    let left = pool_register(acc as nat);
    let right = pool_register(r as nat);
    match kind {
        NodeType::Arith_Subexpr => match operator_code(op) {
            Some(code) => Ok(
                emitted(st, Instruction::Binary { op: code, dst: left, src: right }),
            ),
            None => Err(CodegenError::UnknownOperator),
        },
        NodeType::Arith_Subterm => match operator_code(op) {
            Some(code) => Ok(emitted_all(st, scaling_block(op == "/"@, code, left, right))),
            None => Err(CodegenError::UnknownOperator),
        },
        NodeType::Or_Subexpr | NodeType::And_Subexpr => with_two_labels(
            st,
            |decided: u32, done: u32| short_circuit_block(op, left, right, decided, done),
        ),
        NodeType::Equality_Subexpr => with_two_labels(
            st,
            |equal: u32, done: u32| equality_block(op, left, right, equal, done),
        ),
        NodeType::Relational_Subexpr => match relation_jump(op) {
            Some(jump) => with_two_labels(
                st,
                |holds: u32, done: u32| relational_block(jump, left, right, holds, done),
            ),
            None => Err(CodegenError::UnknownOperator),
        },
        _ => Err(CodegenError::MalformedTree),
    }
}

/// The state after an operand in `r` has been inverted, where `unary` asks
/// for it.
pub open spec fn flipped(st: GenState, unary: bool, r: u32) -> GenState {
    if unary {
        emitted(st, Instruction::Flip(pool_register(r as nat)))
    } else {
        st
    }
}

/// The test of a condition in `r`: where it is zero, control goes to
/// `target`. The register is given back.
pub open spec fn tested(st: GenState, r: u32, target: u32) -> GenState {
    released(
        emitted(
            emitted(
                st,
                Instruction::CompareNumber { left: pool_register(r as nat), value: 0 },
            ),
            Instruction::Jump { kind: JumpKind::Equal, label: target },
        ),
        r,
    )
}

/// The kinds of tail whose operator is lowered to a block with two labels:
/// the tails of `||`, `&&`, the equalities and the relations.
pub open spec fn compares(kind: NodeType) -> bool {
    match kind {
        NodeType::Or_Subexpr | NodeType::And_Subexpr | NodeType::Equality_Subexpr
        | NodeType::Relational_Subexpr => true,
        _ => false,
    }
}

/// Each of the two labels, where there are any, is defined once in `code`
/// and the target of one jump in `code`.
pub open spec fn once_each(code: Seq<InstructionModel>, labels: Option<(u32, u32)>) -> bool {
    match labels {
        Some((first, second)) => {
            &&& definitions(code, first) == 1
            &&& references(code, first) == 1
            &&& definitions(code, second) == 1
            &&& references(code, second) == 1
        },
        None => true,
    }
}

/// The two labels that follow the counter `labels`, where the counter can
/// still count that far.
pub open spec fn next_two(labels: u32) -> Option<(u32, u32)> {
    if labels < u32::MAX - 1 {
        Some(((labels + 1) as u32, (labels + 2) as u32))
    } else {
        None
    }
}

/// The labels of the block that the tail `node` emits for its operator: the
/// two that are created behind the code of its operand. A tail without an
/// operator, and a tail of sums or products, has none.
pub open spec fn block_labels(node: NodeModel, st: GenState, frame: nat) -> Option<(u32, u32)> {
    if compares(node.kind) && node.properties.operator is Some && node.children.len() == 3 {
        match lower_value(node, 1, st, frame) {
            Ok((s, r)) => next_two(s.labels),
            Err(_) => None,
        }
    } else {
        None
    }
}

/// The label, where there is one, is defined once in `code` and the target
/// of one jump in `code`.
pub open spec fn once(code: Seq<InstructionModel>, label: Option<u32>) -> bool {
    match label {
        Some(l) => definitions(code, l) == 1 && references(code, l) == 1,
        None => true,
    }
}

/// The label at which the alternatives behind the first one start, where the
/// alternative `node` has any behind it: the label that is created behind
/// the code of the condition and, where the exit label is created there too,
/// behind that one. The test of the condition jumps to it.
pub open spec fn alternative_label(
    node: NodeModel,
    st: GenState,
    frame: nat,
    end_label: Option<u32>,
) -> Option<u32> {
    if node.children.len() == 8 && node.children[7].children.len() > 0 {
        match next_child_in(st.scopes, frame) {
            Some(child) => match lower_value(node, 2, st, child as nat) {
                Ok((s1, r)) => match exit_label(s1, end_label) {
                    Ok((s2, end)) => match labelled(s2) {
                        Ok((s3, next)) => Some(next),
                        Err(_) => None,
                    },
                    Err(_) => None,
                },
                Err(_) => None,
            },
            None => None,
        }
    } else {
        None
    }
}

/// The code that came behind `before` ends in the definition of a label that
/// did not exist before, and that label is defined nowhere else.
pub open spec fn ends_in_exit(before: GenState, after: GenState) -> bool {
    &&& after.code.len() > 0
    &&& match after.code.last() {
        Instruction::Label(end) => {
            &&& before.labels < end <= after.labels
            &&& definitions(after.code, end) == 1
        },
        _ => false,
    }
}

/// The kinds of node that stand for a statement or for a part of the
/// program above the statements.
pub open spec fn statement_kind(kind: NodeType) -> bool {
    match kind {
        NodeType::Statement | NodeType::Body | NodeType::VarDecl | NodeType::Assign_Expr
        | NodeType::Func_Call | NodeType::If_Stmt | NodeType::Elif_Stmt | NodeType::Else_Stmt
        | NodeType::While_Stmt | NodeType::For_Stmt | NodeType::Return_Stmt | NodeType::Func_Decl
        | NodeType::Other_Decl | NodeType::Program_Start | NodeType::Optional_Expr => true,
        _ => false,
    }
}

/// The lowering of `node`, by its type. `prev` is the accumulator that an
/// expression tail goes on with, `end_label` the exit that the alternatives
/// of an `if` share.
pub open spec fn lower(
    node: NodeModel,
    st: GenState,
    frame: nat,
    prev: Option<u32>,
    end_label: Option<u32>,
) -> Lowered
    decreases node, 2nat, 0nat,
{
    match node.kind {
        NodeType::Func_Decl => lower_function(node, st, frame),
        NodeType::Func_Call => lower_call(node, st, frame),
        NodeType::Assign_Expr => lower_assign(node, st, frame),
        NodeType::Arith_Expr | NodeType::Arith_Term | NodeType::Or_Expr | NodeType::And_Expr
        | NodeType::Equality_Expr | NodeType::Relational_Expr => lower_level(node, st, frame),
        NodeType::Arith_Subexpr | NodeType::Arith_Subterm | NodeType::Or_Subexpr
        | NodeType::And_Subexpr | NodeType::Equality_Subexpr | NodeType::Relational_Subexpr =>
            lower_tail(node, st, frame, prev),
        NodeType::Arith_Factor | NodeType::Not_Expr => lower_operand(node, st, frame),
        NodeType::Condition_Expr | NodeType::Expression => lower_pass(node, st, frame),
        NodeType::If_Stmt => lower_if(node, st, frame),
        NodeType::Elif_Stmt => lower_elif(node, st, frame, end_label),
        NodeType::While_Stmt => lower_while(node, st, frame),
        NodeType::For_Stmt => lower_for(node, st, frame),
        NodeType::Return_Stmt => lower_return(node, st, frame),
        NodeType::VarDecl => lower_var_decl(node, st, frame),
        _ => match lower_children(node, 0, st, frame) {
            Ok(s) => Ok((s, None)),
            Err(e) => Err(e),
        },
    }
}

/// The children of `node` from the index `i` on, one after the other. A
/// register that a child yields is given back at once.
pub open spec fn lower_children(node: NodeModel, i: nat, st: GenState, frame: nat) -> Progress
    decreases node, 0nat, node.children.len() - i,
{
    if i >= node.children.len() {
        Ok(st)
    } else {
        match lower(node.children[i as int], st, frame, None, None) {
            Ok((s, r)) => lower_children(node, i + 1, settled(s, r), frame),
            Err(e) => Err(e),
        }
    }
}

/// The lowering of a child that must yield a register.
pub open spec fn lower_value(
    node: NodeModel,
    i: nat,
    st: GenState,
    frame: nat,
) -> Result<(GenState, u32), CodegenError>
    decreases node, 0nat, 0nat,
{
    if i >= node.children.len() {
        Err(CodegenError::MalformedTree)
    } else {
        match lower(node.children[i as int], st, frame, None, None) {
            Ok((s, Some(r))) => Ok((s, r)),
            Ok((s, None)) => Err(CodegenError::MalformedTree),
            Err(e) => Err(e),
        }
    }
}

/// The lowering of a child that must not yield a register.
pub open spec fn lower_effect(
    node: NodeModel,
    i: nat,
    st: GenState,
    frame: nat,
    prev: Option<u32>,
    end_label: Option<u32>,
) -> Progress
    decreases node, 0nat, 0nat,
{
    if i >= node.children.len() {
        Err(CodegenError::MalformedTree)
    } else {
        match lower(node.children[i as int], st, frame, prev, end_label) {
            Ok((s, None)) => Ok(s),
            Ok((s, Some(r))) => Err(CodegenError::MalformedTree),
            Err(e) => Err(e),
        }
    }
}

/// A function declaration: the prologue, with room for the locals that the
/// body counts; the children, against the function's own frame; the
/// epilogue.
pub open spec fn lower_function(node: NodeModel, st: GenState, frame: nat) -> Lowered
    decreases node, 1nat, 0nat,
{
    if node.children.len() != 8 {
        Err(CodegenError::MalformedTree)
    } else {
        match node.children[6].properties.var_alloc {
            Some(locals) => if locals > MAX_LOCALS {
                Err(CodegenError::FrameTooLarge)
            } else {
                match next_child_in(st.scopes, frame) {
                    Some(child) => match lower_children(
                        node,
                        0,
                        emitted_all(
                            st,
                            prologue(
                                text_of(node.children[1].properties.value),
                                (locals * 8) as u64,
                            ),
                        ),
                        child as nat,
                    ) {
                        Ok(s1) => match left_child(s1, frame) {
                            Ok(s2) => Ok((emitted_all(s2, epilogue()), None)),
                            Err(e) => Err(e),
                        },
                        Err(e) => Err(e),
                    },
                    None => Err(CodegenError::ScopeMismatch),
                }
            },
            None => Err(CodegenError::MalformedTree),
        }
    }
}

/// A call: the call instruction, then the children.
pub open spec fn lower_call(node: NodeModel, st: GenState, frame: nat) -> Lowered
    decreases node, 1nat, 0nat,
{
    match node.properties.identifier {
        Some(name) => match lower_children(
            node,
            0,
            emitted(st, Instruction::Call(name)),
            frame,
        ) {
            Ok(s) => Ok((s, None)),
            Err(e) => Err(e),
        },
        None => Err(CodegenError::MalformedTree),
    }
}

/// An assignment: the right-hand side into a register, the register noted
/// for the name, given back, and stored to the name's stack slot.
pub open spec fn lower_assign(node: NodeModel, st: GenState, frame: nat) -> Lowered
    decreases node, 1nat, 0nat,
{
    if node.children.len() != 3 {
        Err(CodegenError::MalformedTree)
    } else {
        match node.properties.identifier {
            Some(name) => match lower_value(node, 2, st, frame) {
                Ok((s1, r)) => match lookup_in(s1.scopes, frame, name) {
                    Some(symbol) => Ok(
                        (
                            emitted(
                                released(recorded(s1, frame, name, r), r),
                                Instruction::Store {
                                    offset: symbol.addr,
                                    above: symbol.argument,
                                    src: pool_register(r as nat),
                                },
                            ),
                            None,
                        ),
                    ),
                    None => Err(CodegenError::UnknownIdentifier),
                },
                Err(e) => Err(e),
            },
            None => Err(CodegenError::MalformedTree),
        }
    }
}

/// One level of the precedence cascade: the operand into a register, which
/// the tail goes on with as its accumulator and which holds the value of the
/// level in the end.
pub open spec fn lower_level(node: NodeModel, st: GenState, frame: nat) -> Lowered
    decreases node, 1nat, 0nat,
{
    if node.children.len() != 2 {
        Err(CodegenError::MalformedTree)
    } else {
        match lower_value(node, 0, st, frame) {
            Ok((s1, r)) => match lower_effect(node, 1, s1, frame, Some(r), None) {
                Ok(s2) => Ok((s2, Some(r))),
                Err(e) => Err(e),
            },
            Err(e) => Err(e),
        }
    }
}

/// The tail of one level. With an operator: the operand into a register, the
/// code that combines it into the accumulator, the register given back, and
/// the further tail with the same accumulator. Without one: nothing.
pub open spec fn lower_tail(node: NodeModel, st: GenState, frame: nat, prev: Option<u32>) -> Lowered
    decreases node, 1nat, 0nat,
{
    match prev {
        Some(acc) => match node.properties.operator {
            Some(op) => if node.children.len() != 3 {
                Err(CodegenError::MalformedTree)
            } else {
                match lower_value(node, 1, st, frame) {
                    Ok((s1, r)) => match combined(node.kind, op, acc, r, s1) {
                        Ok(s2) => match lower_effect(
                            node,
                            2,
                            released(s2, r),
                            frame,
                            Some(acc),
                            None,
                        ) {
                            Ok(s3) => Ok((s3, None)),
                            Err(e) => Err(e),
                        },
                        Err(e) => Err(e),
                    },
                    Err(e) => Err(e),
                }
            },
            None => Ok((st, None)),
        },
        None => Err(CodegenError::MalformedTree),
    }
}

/// Whether the operand of `node` is a call.
pub open spec fn calls(node: NodeModel) -> bool {
    node.children.len() > 0 && node.children.last().kind == NodeType::Func_Call
}

/// An operand, into a fresh register. A call leaves its result in `rax`,
/// from where it is moved; a name is loaded from its stack slot and the
/// register noted for it; anything else is a constant. A negated operand is
/// inverted.
pub open spec fn lower_operand(node: NodeModel, st: GenState, frame: nat) -> Lowered
    decreases node, 1nat, 0nat,
{
    if calls(node) {
        match lower_effect(node, (node.children.len() - 1) as nat, st, frame, None, None) {
            Ok(s1) => match taken(s1) {
                Ok((s2, r)) => Ok(
                    (
                        flipped(
                            emitted(
                                s2,
                                Instruction::Move { dst: pool_register(r as nat), src: Reg::Rax },
                            ),
                            node.properties.unary,
                            r,
                        ),
                        Some(r),
                    ),
                ),
                Err(e) => Err(e),
            },
            Err(e) => Err(e),
        }
    } else {
        match node.properties.terminal {
            Some(text) => match taken(st) {
                Ok((s1, r)) => if identifier_text(text) {
                    match lookup_in(s1.scopes, frame, text) {
                        Some(symbol) => Ok(
                            (
                                recorded(
                                    flipped(
                                        emitted(
                                            s1,
                                            Instruction::Load {
                                                dst: pool_register(r as nat),
                                                offset: symbol.addr,
                                                above: symbol.argument,
                                            },
                                        ),
                                        node.properties.unary,
                                        r,
                                    ),
                                    frame,
                                    text,
                                    r,
                                ),
                                Some(r),
                            ),
                        ),
                        None => Err(CodegenError::UnknownIdentifier),
                    }
                } else {
                    Ok(
                        (
                            flipped(
                                emitted(
                                    s1,
                                    Instruction::MoveConstant {
                                        dst: pool_register(r as nat),
                                        value: text,
                                    },
                                ),
                                node.properties.unary,
                                r,
                            ),
                            Some(r),
                        ),
                    )
                },
                Err(e) => Err(e),
            },
            None => Err(CodegenError::MalformedTree),
        }
    }
}

/// A node that only wraps one expression: the value of its first child.
pub open spec fn lower_pass(node: NodeModel, st: GenState, frame: nat) -> Lowered
    decreases node, 1nat, 0nat,
{
    match lower_value(node, 0, st, frame) {
        Ok((s, r)) => Ok((s, Some(r))),
        Err(e) => Err(e),
    }
}

/// The exit label of a chain of alternatives: the one that is handed down,
/// or a fresh one.
pub open spec fn exit_label(st: GenState, end_label: Option<u32>) -> Result<
    (GenState, u32),
    CodegenError,
> {
    match end_label {
        Some(end) => Ok((st, end)),
        None => labelled(st),
    }
}

/// One alternative with a condition, `keyword '(' cond ')' '{' body '}'
/// tail`: the condition, against the block's frame; a jump past the body
/// where it is zero; the body; a jump to the exit; and the tail, behind a
/// label of its own, where there is one. Yields the exit label.
pub open spec fn lower_branch(
    node: NodeModel,
    st: GenState,
    frame: nat,
    end_label: Option<u32>,
) -> Result<(GenState, u32), CodegenError>
    decreases node, 0nat, 1nat,
{
    if node.children.len() != 8 {
        Err(CodegenError::MalformedTree)
    } else {
        match next_child_in(st.scopes, frame) {
            Some(child) => match lower_value(node, 2, st, child as nat) {
                Ok((s1, r)) => match exit_label(s1, end_label) {
                    Ok((s2, end)) => {
                        let has_tail = node.children[7].children.len() > 0;
                        match (if has_tail {
                            labelled(s2)
                        } else {
                            Ok((s2, end))
                        }) {
                            Ok((s3, next)) => match lower_effect(
                                node,
                                5,
                                tested(s3, r, next),
                                child as nat,
                                None,
                                None,
                            ) {
                                Ok(s4) => match left_child(s4, frame) {
                                    Ok(s5) => {
                                        let s6 = emitted(
                                            s5,
                                            Instruction::Jump {
                                                kind: JumpKind::Always,
                                                label: end,
                                            },
                                        );
                                        if has_tail {
                                            match lower_effect(
                                                node,
                                                7,
                                                emitted(s6, Instruction::Label(next)),
                                                frame,
                                                None,
                                                Some(end),
                                            ) {
                                                Ok(s7) => Ok((s7, end)),
                                                Err(e) => Err(e),
                                            }
                                        } else {
                                            Ok((s6, end))
                                        }
                                    },
                                    Err(e) => Err(e),
                                },
                                Err(e) => Err(e),
                            },
                            Err(e) => Err(e),
                        }
                    },
                    Err(e) => Err(e),
                },
                Err(e) => Err(e),
            },
            None => Err(CodegenError::ScopeMismatch),
        }
    }
}

/// An `if`: its alternatives, and behind them the one exit label that all of
/// them jump to.
pub open spec fn lower_if(node: NodeModel, st: GenState, frame: nat) -> Lowered
    decreases node, 1nat, 0nat,
{
    match lower_branch(node, st, frame, None) {
        Ok((s, end)) => Ok((emitted(s, Instruction::Label(end)), None)),
        Err(e) => Err(e),
    }
}

/// The tail of an `if`: nothing, an `else` body against a frame of its own,
/// or a further alternative with a condition.
pub open spec fn lower_elif(
    node: NodeModel,
    st: GenState,
    frame: nat,
    end_label: Option<u32>,
) -> Lowered
    decreases node, 1nat, 0nat,
{
    match end_label {
        Some(end) => if node.children.len() == 0 {
            Ok((st, None))
        } else if node.children.len() == 1 {
            match next_child_in(st.scopes, frame) {
                Some(child) => match lower_effect(node, 0, st, child as nat, None, None) {
                    Ok(s1) => match left_child(s1, frame) {
                        Ok(s2) => Ok((s2, None)),
                        Err(e) => Err(e),
                    },
                    Err(e) => Err(e),
                },
                None => Err(CodegenError::ScopeMismatch),
            }
        } else {
            match lower_branch(node, st, frame, Some(end)) {
                Ok((s, _)) => Ok((s, None)),
                Err(e) => Err(e),
            }
        },
        None => Err(CodegenError::MalformedTree),
    }
}

/// A `while`: the start label; the condition, against the loop's frame; a
/// jump to the exit where it is zero; the body; a jump back to the start;
/// the exit label.
pub open spec fn lower_while(node: NodeModel, st: GenState, frame: nat) -> Lowered
    decreases node, 1nat, 0nat,
{
    if node.children.len() != 7 {
        Err(CodegenError::MalformedTree)
    } else {
        match labelled(st) {
            Ok((s1, start)) => match labelled(s1) {
                Ok((s2, done)) => match next_child_in(s2.scopes, frame) {
                    Some(child) => match lower_value(
                        node,
                        2,
                        emitted(s2, Instruction::Label(start)),
                        child as nat,
                    ) {
                        Ok((s3, r)) => match lower_effect(
                            node,
                            5,
                            tested(s3, r, done),
                            child as nat,
                            None,
                            None,
                        ) {
                            Ok(s4) => match left_child(s4, frame) {
                                Ok(s5) => Ok(
                                    (
                                        emitted(
                                            emitted(
                                                s5,
                                                Instruction::Jump {
                                                    kind: JumpKind::Always,
                                                    label: start,
                                                },
                                            ),
                                            Instruction::Label(done),
                                        ),
                                        None,
                                    ),
                                ),
                                Err(e) => Err(e),
                            },
                            Err(e) => Err(e),
                        },
                        Err(e) => Err(e),
                    },
                    None => Err(CodegenError::ScopeMismatch),
                },
                Err(e) => Err(e),
            },
            Err(e) => Err(e),
        }
    }
}

/// Whether an optional expression holds an expression, whose value can be
/// tested.
pub open spec fn tests(node: NodeModel) -> bool {
    node.children.len() > 0 && node.children[0].kind == NodeType::Expression
}

/// The condition of a `for`, the optional expression `node`: where it holds
/// an expression, its value is tested and control goes to `done` where it is
/// zero; anything else is lowered for its effect.
pub open spec fn lower_condition(node: NodeModel, st: GenState, frame: nat, done: u32) -> Progress
    decreases node, 3nat, 0nat,
{
    if tests(node) {
        match lower_value(node, 0, st, frame) {
            Ok((s, r)) => Ok(tested(s, r, done)),
            Err(e) => Err(e),
        }
    } else {
        match lower(node, st, frame, None, None) {
            Ok((s, None)) => Ok(s),
            Ok((s, Some(r))) => Err(CodegenError::MalformedTree),
            Err(e) => Err(e),
        }
    }
}

/// A `for`: the initialiser, once; then as a `while` over the middle
/// expression, with the increment behind the body.
pub open spec fn lower_for(node: NodeModel, st: GenState, frame: nat) -> Lowered
    decreases node, 1nat, 0nat,
{
    if node.children.len() != 11 {
        Err(CodegenError::MalformedTree)
    } else {
        match next_child_in(st.scopes, frame) {
            Some(child) => match lower_effect(node, 2, st, child as nat, None, None) {
                Ok(s1) => match labelled(s1) {
                    Ok((s2, start)) => match labelled(s2) {
                        Ok((s3, done)) => match lower_condition(
                            node.children[4],
                            emitted(s3, Instruction::Label(start)),
                            child as nat,
                            done,
                        ) {
                            Ok(s4) => match lower_effect(node, 9, s4, child as nat, None, None) {
                                Ok(s5) => match lower_effect(
                                    node,
                                    6,
                                    s5,
                                    child as nat,
                                    None,
                                    None,
                                ) {
                                    Ok(s6) => match left_child(s6, frame) {
                                        Ok(s7) => Ok(
                                            (
                                                emitted(
                                                    emitted(
                                                        s7,
                                                        Instruction::Jump {
                                                            kind: JumpKind::Always,
                                                            label: start,
                                                        },
                                                    ),
                                                    Instruction::Label(done),
                                                ),
                                                None,
                                            ),
                                        ),
                                        Err(e) => Err(e),
                                    },
                                    Err(e) => Err(e),
                                },
                                Err(e) => Err(e),
                            },
                            Err(e) => Err(e),
                        },
                        Err(e) => Err(e),
                    },
                    Err(e) => Err(e),
                },
                Err(e) => Err(e),
            },
            None => Err(CodegenError::ScopeMismatch),
        }
    }
}

/// A `return`: the expression into a register, from there into `rax`, the
/// register given back, and the epilogue.
pub open spec fn lower_return(node: NodeModel, st: GenState, frame: nat) -> Lowered
    decreases node, 1nat, 0nat,
{
    if node.children.len() != 3 {
        Err(CodegenError::MalformedTree)
    } else {
        match lower_value(node, 1, st, frame) {
            Ok((s, r)) => Ok(
                (
                    emitted_all(
                        released(
                            emitted(
                                s,
                                Instruction::Move { dst: Reg::Rax, src: pool_register(r as nat) },
                            ),
                            r,
                        ),
                        epilogue(),
                    ),
                    None,
                ),
            ),
            Err(e) => Err(e),
        }
    }
}

/// A declaration: with an initialiser, the assignment; without one, a zero
/// word pushed to reserve the slot.
pub open spec fn lower_var_decl(node: NodeModel, st: GenState, frame: nat) -> Lowered
    decreases node, 1nat, 0nat,
{
    if node.children.len() != 2 {
        Err(CodegenError::MalformedTree)
    } else if node.children[1].kind == NodeType::Assign_Expr {
        match lower_effect(node, 1, st, frame, None, None) {
            Ok(s) => Ok((s, None)),
            Err(e) => Err(e),
        }
    } else {
        Ok((emitted(st, Instruction::PushZero), None))
    }
}

/// One `global` line for each function among `entries`, from the index `i`
/// on, in the order of declaration.
pub open spec fn exports(entries: Seq<BindingModel>, i: nat) -> Seq<InstructionModel>
    decreases entries.len() - i,
{
    if i >= entries.len() {
        Seq::empty()
    } else if entries[i as int].symbol.func {
        seq![Instruction::Global(entries[i as int].name)] + exports(entries, i + 1)
    } else {
        exports(entries, i + 1)
    }
}

} // verus!
