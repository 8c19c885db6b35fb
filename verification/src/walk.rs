//! The walk of the code generator over the syntax tree, one function for
//! each kind of node.
//!
//! A function that lowers an expression returns the index of the register
//! that holds the value. Around every statement the register pool is
//! balanced: as many registers are taken as are given back, and each register
//! is as free or as taken behind the statement as it was in front of it.
//!
//! Every function also keeps the labels in order. It defines no label that
//! existed before it was called, and it jumps to none of them but the exit
//! label that it was given, so that no label is ever defined twice.

use vstd::prelude::*;
use crate::generation::{
    Codegen, combine, generated, kept, label_create, progressed, sound, valued,
};
use crate::instruction::{Instruction, JumpKind, definitions};
use crate::laws::law_statements_yield_nothing;
use crate::lowering::{
    CodegenError, MAX_LOCALS, calls, lower, lower_assign, lower_branch, lower_call,
    lower_children, lower_condition, lower_effect, lower_elif, lower_for, lower_function,
    alternative_label, block_labels, ends_in_exit, exit_known, label_frame, lower_if, lower_level, lower_operand,
    lower_pass, lower_return, lower_tail, lower_value, lower_var_decl, lower_while, once,
    once_each,
    same_labels, statement_kind, tests,
};
use crate::registers::{POOL_SIZE, Reg, pool_reg};
use crate::symbol_table::TreeMethods;
use crate::syntax::{Node, NodeType, lemma_children, text_or_empty};
use crate::token::is_identifier;
use crate::views::views;

verus! {

/// Generates the code of `node`, by its type. `prev_register` is the
/// accumulator that an expression tail goes on with, `end_label` the exit
/// that the alternatives of an `if` share.
///
/// A statement leaves the register pool as it found it: as many registers
/// are taken as are given back. The block of a comparison or of `||` and
/// `&&` uses two new labels, each defined once and the target of one jump.
/// The code of an `if` ends in the definition of its one exit label, and the
/// label of its alternative, where it has one, is defined once and the
/// target of one jump.
pub fn generate(
    gen: &mut Codegen,
    node: &Node,
    frame: usize,
    prev_register: Option<u32>,
    end_label: Option<u32>,
) -> (result: Result<Option<u32>, CodegenError>)
    requires
        old(gen).wf(),
        frame < old(gen)@.scopes.frames.len(),
        exit_known(old(gen)@, end_label),
    ensures
        generated(
            lower(node@, old(gen)@, frame as nat, prev_register, end_label),
            old(gen)@,
            final(gen)@,
            result,
        ),
        statement_kind(node.node_type) && result is Ok ==> {
            &&& result == Ok::<Option<u32>, CodegenError>(None)
            &&& final(gen)@.pool.allocs - old(gen)@.pool.allocs == final(gen)@.pool.frees - old(
                gen,
            )@.pool.frees
            &&& forall|i: int|
                0 <= i < POOL_SIZE ==> (#[trigger] final(gen)@.pool.entries[i]).in_use == old(
                    gen,
                )@.pool.entries[i].in_use
        },
        label_frame(old(gen)@, final(gen)@, end_label),
        result is Ok ==> once_each(
            final(gen)@.code,
            block_labels(node@, old(gen)@, frame as nat),
        ),
        result is Ok && node.node_type == NodeType::If_Stmt ==> ends_in_exit(
            old(gen)@,
            final(gen)@,
        ) && once(final(gen)@.code, alternative_label(node@, old(gen)@, frame as nat, None)),
        result is Ok && node.node_type == NodeType::Elif_Stmt ==> once(
            final(gen)@.code,
            alternative_label(node@, old(gen)@, frame as nat, end_label),
        ),
    decreases node, 2nat, 0nat,
{
    proof {
        lemma_children(*node);
        if statement_kind(node.node_type) {
            law_statements_yield_nothing(
                node@,
                old(gen)@,
                frame as nat,
                prev_register,
                end_label,
            );
        }
    }
    match node.node_type {
        NodeType::Func_Decl => generate_function(gen, node, frame),
        NodeType::Func_Call => generate_call(gen, node, frame),
        NodeType::Assign_Expr => generate_assign(gen, node, frame),
        NodeType::Arith_Expr | NodeType::Arith_Term | NodeType::Or_Expr | NodeType::And_Expr
        | NodeType::Equality_Expr | NodeType::Relational_Expr => generate_level(gen, node, frame),
        NodeType::Arith_Subexpr | NodeType::Arith_Subterm | NodeType::Or_Subexpr
        | NodeType::And_Subexpr | NodeType::Equality_Subexpr | NodeType::Relational_Subexpr =>
            generate_tail(gen, node, frame, prev_register),
        NodeType::Arith_Factor | NodeType::Not_Expr => generate_operand(gen, node, frame),
        NodeType::Condition_Expr | NodeType::Expression => generate_pass(gen, node, frame),
        NodeType::If_Stmt => generate_if(gen, node, frame),
        NodeType::Elif_Stmt => generate_elif(gen, node, frame, end_label),
        NodeType::While_Stmt => generate_while(gen, node, frame),
        NodeType::For_Stmt => generate_for(gen, node, frame),
        NodeType::Return_Stmt => generate_return(gen, node, frame),
        NodeType::VarDecl => generate_var_decl(gen, node, frame),
        _ => match generate_children(gen, node, frame) {
            Ok(()) => Ok(None),
            Err(e) => Err(e),
        },
    }
}

/// Generates the code of the children of `current_node`, one after the
/// other. A register that a child yields is given back at once.
pub fn generate_children(gen: &mut Codegen, current_node: &Node, frame: usize) -> (result: Result<
    (),
    CodegenError,
>)
    requires
        old(gen).wf(),
        frame < old(gen)@.scopes.frames.len(),
    ensures
        progressed(
            lower_children(current_node@, 0, old(gen)@, frame as nat),
            old(gen)@,
            final(gen)@,
            result,
        ),
        label_frame(old(gen)@, final(gen)@, None),
    decreases current_node, 0nat, 1nat,
{
    let mut i: usize = 0;
    proof {
        lemma_children(*current_node);
    }
    while i < current_node.children.len()
        invariant
            0 <= i <= current_node.children@.len(),
            current_node@.children == views(current_node.children@),
            gen.wf(),
            frame < gen@.scopes.frames.len(),
            kept(old(gen)@, gen@, None),
            label_frame(old(gen)@, gen@, None),
            lower_children(current_node@, 0, old(gen)@, frame as nat) == lower_children(
                current_node@,
                i as nat,
                gen@,
                frame as nat,
            ),
        decreases current_node.children@.len() - i,
    {
        assert(current_node@.children[i as int] == current_node.children@[i as int]@);
        let r = match generate(gen, &current_node.children[i], frame, None, None) {
            Ok(r) => r,
            Err(e) => {
                return Err(e);
            },
        };
        gen.settle(r);
        i = i + 1;
    }
    Ok(())
}

/// Generates the code of the child `i` of `node`, which must yield a
/// register.
pub fn generate_value(gen: &mut Codegen, node: &Node, i: usize, frame: usize) -> (result: Result<
    u32,
    CodegenError,
>)
    requires
        old(gen).wf(),
        frame < old(gen)@.scopes.frames.len(),
    ensures
        valued(
            lower_value(node@, i as nat, old(gen)@, frame as nat),
            old(gen)@,
            final(gen)@,
            result,
        ),
        label_frame(old(gen)@, final(gen)@, None),
    decreases node, 0nat, 0nat,
{
    proof {
        lemma_children(*node);
    }
    if i >= node.children.len() {
        return Err(CodegenError::MalformedTree);
    }
    assert(node@.children[i as int] == node.children@[i as int]@);
    match generate(gen, &node.children[i], frame, None, None) {
        Ok(Some(r)) => Ok(r),
        Ok(None) => Err(CodegenError::MalformedTree),
        Err(e) => Err(e),
    }
}

/// Generates the code of the child `i` of `node`, which must not yield a
/// register.
pub fn generate_effect(
    gen: &mut Codegen,
    node: &Node,
    i: usize,
    frame: usize,
    prev_register: Option<u32>,
    end_label: Option<u32>,
) -> (result: Result<(), CodegenError>)
    requires
        old(gen).wf(),
        frame < old(gen)@.scopes.frames.len(),
        exit_known(old(gen)@, end_label),
    ensures
        progressed(
            lower_effect(node@, i as nat, old(gen)@, frame as nat, prev_register, end_label),
            old(gen)@,
            final(gen)@,
            result,
        ),
        label_frame(old(gen)@, final(gen)@, end_label),
    decreases node, 0nat, 0nat,
{
    proof {
        lemma_children(*node);
    }
    if i >= node.children.len() {
        return Err(CodegenError::MalformedTree);
    }
    assert(node@.children[i as int] == node.children@[i as int]@);
    match generate(gen, &node.children[i], frame, prev_register, end_label) {
        Ok(None) => Ok(()),
        Ok(Some(_)) => Err(CodegenError::MalformedTree),
        Err(e) => Err(e),
    }
}

/// Generates a function: the prologue, the children against the function's
/// own frame, and the epilogue.
pub fn generate_function(gen: &mut Codegen, node: &Node, frame: usize) -> (result: Result<
    Option<u32>,
    CodegenError,
>)
    requires
        old(gen).wf(),
        frame < old(gen)@.scopes.frames.len(),
    ensures
        generated(
            lower_function(node@, old(gen)@, frame as nat),
            old(gen)@,
            final(gen)@,
            result,
        ),
        label_frame(old(gen)@, final(gen)@, None),
    decreases node, 1nat, 0nat,
{
    proof {
        lemma_children(*node);
    }
    if node.children.len() != 8 {
        return Err(CodegenError::MalformedTree);
    }
    proof {
        assert(node@.children[6] == node.children@[6]@);
        assert(node@.children[1] == node.children@[1]@);
        lemma_children(node.children@[6]);
        lemma_children(node.children@[1]);
    }
    let locals = match node.children[6].properties.var_alloc {
        Some(n) => n,
        None => {
            return Err(CodegenError::MalformedTree);
        },
    };
    if locals > MAX_LOCALS {
        return Err(CodegenError::FrameTooLarge);
    }
    let child = match gen.child_of(frame) {
        Ok(c) => c,
        Err(e) => {
            return Err(e);
        },
    };
    gen.emit_prologue(text_or_empty(&node.children[1].properties.value), locals * 8);
    match generate_children(gen, node, child) {
        Ok(()) => {},
        Err(e) => {
            return Err(e);
        },
    }
    match gen.leave_child(frame) {
        Ok(()) => {},
        Err(e) => {
            return Err(e);
        },
    }
    gen.emit_epilogue();
    Ok(None)
}

/// Generates a call: the call instruction, then the children.
pub fn generate_call(gen: &mut Codegen, node: &Node, frame: usize) -> (result: Result<
    Option<u32>,
    CodegenError,
>)
    requires
        old(gen).wf(),
        frame < old(gen)@.scopes.frames.len(),
    ensures
        generated(lower_call(node@, old(gen)@, frame as nat), old(gen)@, final(gen)@, result),
        label_frame(old(gen)@, final(gen)@, None),
    decreases node, 1nat, 0nat,
{
    proof {
        lemma_children(*node);
    }
    let name = match &node.properties.identifier {
        Some(name) => name.clone(),
        None => {
            return Err(CodegenError::MalformedTree);
        },
    };
    gen.emit(Instruction::Call(name));
    match generate_children(gen, node, frame) {
        Ok(()) => Ok(None),
        Err(e) => Err(e),
    }
}

/// Generates an assignment: the right-hand side into a register, which is
/// noted for the name, given back and stored to the name's stack slot.
pub fn generate_assign(gen: &mut Codegen, node: &Node, frame: usize) -> (result: Result<
    Option<u32>,
    CodegenError,
>)
    requires
        old(gen).wf(),
        frame < old(gen)@.scopes.frames.len(),
    ensures
        generated(lower_assign(node@, old(gen)@, frame as nat), old(gen)@, final(gen)@, result),
        label_frame(old(gen)@, final(gen)@, None),
    decreases node, 1nat, 0nat,
{
    proof {
        lemma_children(*node);
    }
    if node.children.len() != 3 {
        return Err(CodegenError::MalformedTree);
    }
    let name = match &node.properties.identifier {
        Some(name) => name,
        None => {
            return Err(CodegenError::MalformedTree);
        },
    };
    let r = match generate_value(gen, node, 2, frame) {
        Ok(r) => r,
        Err(e) => {
            return Err(e);
        },
    };
    let symbol = match gen.scopes.scope_lookup(frame, name) {
        Some(symbol) => symbol,
        None => {
            return Err(CodegenError::UnknownIdentifier);
        },
    };
    gen.record(frame, name, r);
    gen.release(r);
    gen.emit(
        Instruction::Store { offset: symbol.addr, above: symbol.argument, src: pool_reg(r) },
    );
    Ok(None)
}

/// Generates one level of the precedence cascade: the operand into a
/// register, with which the tail goes on as its accumulator.
pub fn generate_level(gen: &mut Codegen, node: &Node, frame: usize) -> (result: Result<
    Option<u32>,
    CodegenError,
>)
    requires
        old(gen).wf(),
        frame < old(gen)@.scopes.frames.len(),
    ensures
        generated(lower_level(node@, old(gen)@, frame as nat), old(gen)@, final(gen)@, result),
        label_frame(old(gen)@, final(gen)@, None),
    decreases node, 1nat, 0nat,
{
    proof {
        lemma_children(*node);
    }
    if node.children.len() != 2 {
        return Err(CodegenError::MalformedTree);
    }
    let r = match generate_value(gen, node, 0, frame) {
        Ok(r) => r,
        Err(e) => {
            return Err(e);
        },
    };
    match generate_effect(gen, node, 1, frame, Some(r), None) {
        Ok(()) => Ok(Some(r)),
        Err(e) => Err(e),
    }
}

/// Generates the tail of one level: with an operator, the operand, the code
/// that combines it into the accumulator, and the further tail.
///
/// Where the operator is `||`, `&&`, an equality or a relation, its block
/// uses the two labels that are created behind the code of the operand, and
/// in all the code emitted up to the end of the tail each of the two is
/// defined once and the target of one jump.
pub fn generate_tail(gen: &mut Codegen, node: &Node, frame: usize, prev_register: Option<u32>) -> (result: Result<Option<u32>, CodegenError>)
    requires
        old(gen).wf(),
        frame < old(gen)@.scopes.frames.len(),
    ensures
        generated(
            lower_tail(node@, old(gen)@, frame as nat, prev_register),
            old(gen)@,
            final(gen)@,
            result,
        ),
        label_frame(old(gen)@, final(gen)@, None),
        result is Ok ==> once_each(
            final(gen)@.code,
            block_labels(node@, old(gen)@, frame as nat),
        ),
    decreases node, 1nat, 0nat,
{
    proof {
        lemma_children(*node);
    }
    let acc = match prev_register {
        Some(acc) => acc,
        None => {
            return Err(CodegenError::MalformedTree);
        },
    };
    let op = match &node.properties.operator {
        Some(op) => op,
        None => {
            return Ok(None);
        },
    };
    if node.children.len() != 3 {
        return Err(CodegenError::MalformedTree);
    }
    let r = match generate_value(gen, node, 1, frame) {
        Ok(r) => r,
        Err(e) => {
            return Err(e);
        },
    };
    match combine(gen, node.node_type, op, acc, r) {
        Ok(()) => {},
        Err(e) => {
            return Err(e);
        },
    }
    gen.release(r);
    match generate_effect(gen, node, 2, frame, Some(acc), None) {
        Ok(()) => Ok(None),
        Err(e) => Err(e),
    }
}

/// Whether the operand of `node` is a call.
pub fn is_call_operand(node: &Node) -> (r: bool)
    ensures
        r == calls(node@),
{
    proof {
        lemma_children(*node);
    }
    let n = node.children.len();
    if n == 0 {
        false
    } else {
        proof {
            assert(node@.children[n - 1] == node.children@[n - 1]@);
            lemma_children(node.children@[n - 1]);
        }
        match node.children[n - 1].node_type {
            NodeType::Func_Call => true,
            _ => false,
        }
    }
}

/// Emits the inversion of the operand in `r`, where `unary` asks for it.
pub fn flip(gen: &mut Codegen, unary: bool, r: u32)
    ensures
        final(gen)@ == crate::lowering::flipped(old(gen)@, unary, r),
        same_labels(old(gen)@, final(gen)@),
{
    if unary {
        gen.emit(Instruction::Flip(pool_reg(r)));
    }
}

/// Generates an operand into a fresh register: the result of a call, the
/// value of a name, or a constant.
pub fn generate_operand(gen: &mut Codegen, node: &Node, frame: usize) -> (result: Result<
    Option<u32>,
    CodegenError,
>)
    requires
        old(gen).wf(),
        frame < old(gen)@.scopes.frames.len(),
    ensures
        generated(lower_operand(node@, old(gen)@, frame as nat), old(gen)@, final(gen)@, result),
        label_frame(old(gen)@, final(gen)@, None),
    decreases node, 1nat, 0nat,
{
    proof {
        lemma_children(*node);
    }
    if is_call_operand(node) {
        match generate_effect(gen, node, node.children.len() - 1, frame, None, None) {
            Ok(()) => {},
            Err(e) => {
                return Err(e);
            },
        }
        let r = match gen.take() {
            Ok(r) => r,
            Err(e) => {
                return Err(e);
            },
        };
        gen.emit(Instruction::Move { dst: pool_reg(r), src: Reg::Rax });
        flip(gen, node.properties.unary, r);
        return Ok(Some(r));
    }
    let text = match &node.properties.terminal {
        Some(text) => text,
        None => {
            return Err(CodegenError::MalformedTree);
        },
    };
    let r = match gen.take() {
        Ok(r) => r,
        Err(e) => {
            return Err(e);
        },
    };
    if is_identifier(text) {
        let symbol = match gen.scopes.scope_lookup(frame, text) {
            Some(symbol) => symbol,
            None => {
                return Err(CodegenError::UnknownIdentifier);
            },
        };
        gen.emit(
            Instruction::Load { dst: pool_reg(r), offset: symbol.addr, above: symbol.argument },
        );
        flip(gen, node.properties.unary, r);
        gen.record(frame, text, r);
    } else {
        gen.emit(Instruction::MoveConstant { dst: pool_reg(r), value: text.clone() });
        flip(gen, node.properties.unary, r);
    }
    Ok(Some(r))
}

/// Generates a node that only wraps one expression.
pub fn generate_pass(gen: &mut Codegen, node: &Node, frame: usize) -> (result: Result<
    Option<u32>,
    CodegenError,
>)
    requires
        old(gen).wf(),
        frame < old(gen)@.scopes.frames.len(),
    ensures
        generated(lower_pass(node@, old(gen)@, frame as nat), old(gen)@, final(gen)@, result),
        label_frame(old(gen)@, final(gen)@, None),
    decreases node, 1nat, 0nat,
{
    match generate_value(gen, node, 0, frame) {
        Ok(r) => Ok(Some(r)),
        Err(e) => Err(e),
    }
}

/// Generates one alternative with a condition and what follows it, and
/// returns the exit label of the chain.
///
/// Where further alternatives follow, the test of the condition jumps to the
/// label at which they start. That label is new, and in all the code emitted
/// up to the end of the chain it is defined once, behind the body, and the
/// target of that one jump.
#[verifier::rlimit(60)]
pub fn generate_branch(gen: &mut Codegen, node: &Node, frame: usize, end_label: Option<u32>) -> (result: Result<u32, CodegenError>)
    requires
        old(gen).wf(),
        frame < old(gen)@.scopes.frames.len(),
        exit_known(old(gen)@, end_label),
    ensures
        sound(old(gen)@, final(gen)@),
        match lower_branch(node@, old(gen)@, frame as nat, end_label) {
            Ok((s, end)) => result == Ok::<u32, CodegenError>(end) && final(gen)@ == s && kept(
                old(gen)@,
                final(gen)@,
                None,
            ),
            Err(e) => result == Err::<u32, CodegenError>(e),
        },
        label_frame(old(gen)@, final(gen)@, end_label),
        match result {
            Ok(end) => end <= final(gen).label_index && (end_label is None ==> old(
                gen,
            ).label_index < end && definitions(final(gen)@.code, end) == 0),
            Err(_) => true,
        },
        result is Ok ==> once(
            final(gen)@.code,
            alternative_label(node@, old(gen)@, frame as nat, end_label),
        ),
    decreases node, 0nat, 1nat,
{
    proof {
        lemma_children(*node);
    }
    if node.children.len() != 8 {
        return Err(CodegenError::MalformedTree);
    }
    let child = match gen.child_of(frame) {
        Ok(c) => c,
        Err(e) => {
            return Err(e);
        },
    };
    let r = match generate_value(gen, node, 2, child) {
        Ok(r) => r,
        Err(e) => {
            return Err(e);
        },
    };
    let end = match end_label {
        Some(end) => end,
        None => match label_create(gen) {
            Ok(l) => l,
            Err(e) => {
                return Err(e);
            },
        },
    };
    proof {
        assert(node@.children[7] == node.children@[7]@);
        lemma_children(node.children@[7]);
    }
    let has_tail = node.children[7].children.len() > 0;
    let next = if has_tail {
        match label_create(gen) {
            Ok(l) => l,
            Err(e) => {
                return Err(e);
            },
        }
    } else {
        end
    };
    gen.emit_test(r, next);
    match generate_effect(gen, node, 5, child, None, None) {
        Ok(()) => {},
        Err(e) => {
            return Err(e);
        },
    }
    match gen.leave_child(frame) {
        Ok(()) => {},
        Err(e) => {
            return Err(e);
        },
    }
    gen.emit(Instruction::Jump { kind: JumpKind::Always, label: end });
    if has_tail {
        gen.emit(Instruction::Label(next));
        match generate_effect(gen, node, 7, frame, None, Some(end)) {
            Ok(()) => {},
            Err(e) => {
                return Err(e);
            },
        }
    }
    Ok(end)
}

/// Generates an `if`: its alternatives and, behind them, the one exit label
/// that all of them jump to. The code ends in the definition of that label,
/// which is new and defined nowhere else. Where the `if` has an alternative,
/// the label at which it starts is defined once and the target of one jump,
/// that of the test.
pub fn generate_if(gen: &mut Codegen, node: &Node, frame: usize) -> (result: Result<
    Option<u32>,
    CodegenError,
>)
    requires
        old(gen).wf(),
        frame < old(gen)@.scopes.frames.len(),
    ensures
        generated(lower_if(node@, old(gen)@, frame as nat), old(gen)@, final(gen)@, result),
        label_frame(old(gen)@, final(gen)@, None),
        result is Ok ==> ends_in_exit(old(gen)@, final(gen)@),
        result is Ok ==> once(
            final(gen)@.code,
            alternative_label(node@, old(gen)@, frame as nat, None),
        ),
    decreases node, 1nat, 0nat,
{
    match generate_branch(gen, node, frame, None) {
        Ok(end) => {
            gen.emit(Instruction::Label(end));
            Ok(None)
        },
        Err(e) => Err(e),
    }
}

/// Generates the tail of an `if`: nothing, an `else` body, or a further
/// alternative with a condition.
pub fn generate_elif(gen: &mut Codegen, node: &Node, frame: usize, end_label: Option<u32>) -> (result: Result<Option<u32>, CodegenError>)
    requires
        old(gen).wf(),
        frame < old(gen)@.scopes.frames.len(),
        exit_known(old(gen)@, end_label),
    ensures
        generated(
            lower_elif(node@, old(gen)@, frame as nat, end_label),
            old(gen)@,
            final(gen)@,
            result,
        ),
        label_frame(old(gen)@, final(gen)@, end_label),
        result is Ok ==> once(
            final(gen)@.code,
            alternative_label(node@, old(gen)@, frame as nat, end_label),
        ),
    decreases node, 1nat, 0nat,
{
    proof {
        lemma_children(*node);
    }
    let end = match end_label {
        Some(end) => end,
        None => {
            return Err(CodegenError::MalformedTree);
        },
    };
    if node.children.len() == 0 {
        Ok(None)
    } else if node.children.len() == 1 {
        let child = match gen.child_of(frame) {
            Ok(c) => c,
            Err(e) => {
                return Err(e);
            },
        };
        match generate_effect(gen, node, 0, child, None, None) {
            Ok(()) => {},
            Err(e) => {
                return Err(e);
            },
        }
        match gen.leave_child(frame) {
            Ok(()) => Ok(None),
            Err(e) => Err(e),
        }
    } else {
        match generate_branch(gen, node, frame, Some(end)) {
            Ok(_) => Ok(None),
            Err(e) => Err(e),
        }
    }
}

/// Generates a `while`: the start label, the condition, a jump to the exit
/// where it is zero, the body, a jump back, and the exit label.
pub fn generate_while(gen: &mut Codegen, node: &Node, frame: usize) -> (result: Result<
    Option<u32>,
    CodegenError,
>)
    requires
        old(gen).wf(),
        frame < old(gen)@.scopes.frames.len(),
    ensures
        generated(lower_while(node@, old(gen)@, frame as nat), old(gen)@, final(gen)@, result),
        label_frame(old(gen)@, final(gen)@, None),
    decreases node, 1nat, 0nat,
{
    proof {
        lemma_children(*node);
    }
    if node.children.len() != 7 {
        return Err(CodegenError::MalformedTree);
    }
    let start = match label_create(gen) {
        Ok(l) => l,
        Err(e) => {
            return Err(e);
        },
    };
    let done = match label_create(gen) {
        Ok(l) => l,
        Err(e) => {
            return Err(e);
        },
    };
    let child = match gen.child_of(frame) {
        Ok(c) => c,
        Err(e) => {
            return Err(e);
        },
    };
    gen.emit(Instruction::Label(start));
    let r = match generate_value(gen, node, 2, child) {
        Ok(r) => r,
        Err(e) => {
            return Err(e);
        },
    };
    gen.emit_test(r, done);
    match generate_effect(gen, node, 5, child, None, None) {
        Ok(()) => {},
        Err(e) => {
            return Err(e);
        },
    }
    match gen.leave_child(frame) {
        Ok(()) => {},
        Err(e) => {
            return Err(e);
        },
    }
    gen.emit(Instruction::Jump { kind: JumpKind::Always, label: start });
    gen.emit(Instruction::Label(done));
    Ok(None)
}

/// Whether an optional expression holds an expression, whose value can be
/// tested.
pub fn holds_test(node: &Node) -> (r: bool)
    ensures
        r == tests(node@),
{
    proof {
        lemma_children(*node);
    }
    if node.children.len() == 0 {
        false
    } else {
        proof {
            assert(node@.children[0] == node.children@[0]@);
            lemma_children(node.children@[0]);
        }
        match node.children[0].node_type {
            NodeType::Expression => true,
            _ => false,
        }
    }
}

/// Generates the condition of a `for`: where the optional expression holds
/// an expression, its value is tested and control goes to `done` where it is
/// zero; anything else is generated for its effect.
pub fn generate_condition(gen: &mut Codegen, node: &Node, frame: usize, done: u32) -> (result:
    Result<(), CodegenError>)
    requires
        old(gen).wf(),
        frame < old(gen)@.scopes.frames.len(),
        exit_known(old(gen)@, Some(done)),
    ensures
        progressed(
            lower_condition(node@, old(gen)@, frame as nat, done),
            old(gen)@,
            final(gen)@,
            result,
        ),
        label_frame(old(gen)@, final(gen)@, Some(done)),
    decreases node, 3nat, 0nat,
{
    if holds_test(node) {
        match generate_value(gen, node, 0, frame) {
            Ok(r) => {
                gen.emit_test(r, done);
                Ok(())
            },
            Err(e) => Err(e),
        }
    } else {
        match generate(gen, node, frame, None, None) {
            Ok(None) => Ok(()),
            Ok(Some(_)) => Err(CodegenError::MalformedTree),
            Err(e) => Err(e),
        }
    }
}

/// Generates a `for`: the initialiser once, then a loop over the middle
/// expression with the increment behind the body.
pub fn generate_for(gen: &mut Codegen, node: &Node, frame: usize) -> (result: Result<
    Option<u32>,
    CodegenError,
>)
    requires
        old(gen).wf(),
        frame < old(gen)@.scopes.frames.len(),
    ensures
        generated(lower_for(node@, old(gen)@, frame as nat), old(gen)@, final(gen)@, result),
        label_frame(old(gen)@, final(gen)@, None),
    decreases node, 1nat, 0nat,
{
    proof {
        lemma_children(*node);
    }
    if node.children.len() != 11 {
        return Err(CodegenError::MalformedTree);
    }
    let child = match gen.child_of(frame) {
        Ok(c) => c,
        Err(e) => {
            return Err(e);
        },
    };
    match generate_effect(gen, node, 2, child, None, None) {
        Ok(()) => {},
        Err(e) => {
            return Err(e);
        },
    }
    let start = match label_create(gen) {
        Ok(l) => l,
        Err(e) => {
            return Err(e);
        },
    };
    let done = match label_create(gen) {
        Ok(l) => l,
        Err(e) => {
            return Err(e);
        },
    };
    gen.emit(Instruction::Label(start));
    assert(node@.children[4] == node.children@[4]@);
    match generate_condition(gen, &node.children[4], child, done) {
        Ok(()) => {},
        Err(e) => {
            return Err(e);
        },
    }
    match generate_effect(gen, node, 9, child, None, None) {
        Ok(()) => {},
        Err(e) => {
            return Err(e);
        },
    }
    match generate_effect(gen, node, 6, child, None, None) {
        Ok(()) => {},
        Err(e) => {
            return Err(e);
        },
    }
    match gen.leave_child(frame) {
        Ok(()) => {},
        Err(e) => {
            return Err(e);
        },
    }
    gen.emit(Instruction::Jump { kind: JumpKind::Always, label: start });
    gen.emit(Instruction::Label(done));
    Ok(None)
}

/// Generates a `return`: the expression into a register, from there into
/// `rax`, and the epilogue.
pub fn generate_return(gen: &mut Codegen, node: &Node, frame: usize) -> (result: Result<
    Option<u32>,
    CodegenError,
>)
    requires
        old(gen).wf(),
        frame < old(gen)@.scopes.frames.len(),
    ensures
        generated(lower_return(node@, old(gen)@, frame as nat), old(gen)@, final(gen)@, result),
        label_frame(old(gen)@, final(gen)@, None),
    decreases node, 1nat, 0nat,
{
    proof {
        lemma_children(*node);
    }
    if node.children.len() != 3 {
        return Err(CodegenError::MalformedTree);
    }
    let r = match generate_value(gen, node, 1, frame) {
        Ok(r) => r,
        Err(e) => {
            return Err(e);
        },
    };
    gen.emit(Instruction::Move { dst: Reg::Rax, src: pool_reg(r) });
    gen.release(r);
    gen.emit_epilogue();
    Ok(None)
}

/// Generates a declaration: with an initialiser, the assignment; without
/// one, a zero word pushed to reserve the slot.
pub fn generate_var_decl(gen: &mut Codegen, node: &Node, frame: usize) -> (result: Result<
    Option<u32>,
    CodegenError,
>)
    requires
        old(gen).wf(),
        frame < old(gen)@.scopes.frames.len(),
    ensures
        generated(lower_var_decl(node@, old(gen)@, frame as nat), old(gen)@, final(gen)@, result),
        label_frame(old(gen)@, final(gen)@, None),
    decreases node, 1nat, 0nat,
{
    proof {
        lemma_children(*node);
    }
    if node.children.len() != 2 {
        return Err(CodegenError::MalformedTree);
    }
    proof {
        assert(node@.children[1] == node.children@[1]@);
        lemma_children(node.children@[1]);
    }
    match node.children[1].node_type {
        NodeType::Assign_Expr => match generate_effect(gen, node, 1, frame, None, None) {
            Ok(()) => Ok(None),
            Err(e) => Err(e),
        },
        _ => {
            gen.emit(Instruction::PushZero);
            Ok(None)
        },
    }
}

} // verus!
