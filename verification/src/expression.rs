//! The productions of expressions: the precedence cascade, assignments and
//! calls.

use vstd::prelude::*;
use crate::grammar::{
    additive_operators, and_operators, arith_factor, assign_expr, boolean_operand, call_args,
    cond_expr, equality_operators, expression, func_call, level, multiplicative_operators,
    called_operand, named_operand, not_expr, variable_operand, optional_expr, or_operators, relational_operators, remaining,
    rule_rank, tail,
};
use crate::parse::{
    ParseContext, at_text, parse_literal, parse_single, parse_steps, parse_terminal, parsed,
    produced, rank_of,
};
use crate::grammar::Step;
use crate::symbol_table::{TreeMethods, lemma_extends_refl, lemma_extends_trans};
use crate::syntax::{
    Node, NodeModel, NodeType, Properties, commit, copy_text, create_node, lemma_children, text_or_empty,
};
use crate::text::text_is;
use crate::token::{Token, TokenType, is_identifier, is_operator, is_separator, token_models};
use crate::views::{views, lemma_views_concat};

verus! {

/// Parses one level of the precedence cascade: an operand of type
/// `expr_type` and a tail of type `subexpr_type`.
pub fn parse_non_terminal_expr(
    current_node: &mut Node,
    tokens: &Vec<Token>,
    ctx: &mut ParseContext,
    frame: usize,
    expr_type: NodeType,
    subexpr_type: NodeType,
) -> (ok: bool)
    requires
        old(ctx).wf(),
        frame < old(ctx)@.scopes.frames.len(),
    ensures
        parsed(
            level(token_models(tokens@), old(ctx)@, frame as nat, expr_type, subexpr_type),
            frame as nat,
            old(ctx)@,
            final(ctx)@,
            old(current_node)@,
            final(current_node)@,
            ok,
        ),
        !ok ==> final(ctx).cursor == old(ctx).cursor,
    decreases
            remaining(tokens@.len(), old(ctx).cursor as nat),
            3 * (rule_rank(expr_type) + 1) + 1,
            0nat,
{
    let steps = vec![Step::Rule(expr_type), Step::Rule(subexpr_type)];
    match parse_steps(&steps, tokens, ctx, frame, ctx.cursor, rank_of(expr_type) + 1) {
        Some(nodes) => {
            proof {
                lemma_children(nodes@[0]);
            }
            let mut properties = Properties::new();
            properties.terminal = copy_text(&nodes[0].properties.terminal);
            commit(current_node, nodes, properties);
            true
        },
        None => false,
    }
}

/// Whether the token under the cursor is one of `semantic_requirements`.
pub fn semantic_check(
    tokens: &Vec<Token>,
    ctx: &ParseContext,
    semantic_requirements: &Vec<String>,
) -> (r: bool)
    ensures
        r == (ctx.cursor < tokens@.len() && views(semantic_requirements@).contains(
            token_models(tokens@)[ctx.cursor as int].text,
        )),
{
    if ctx.cursor >= tokens.len() {
        return false;
    }
    let ghost text = token_models(tokens@)[ctx.cursor as int].text;
    let mut i: usize = 0;
    while i < semantic_requirements.len()
        invariant
            0 <= i <= semantic_requirements@.len(),
            ctx.cursor < tokens@.len(),
            text == tokens@[ctx.cursor as int].val@,
            forall|k: int| 0 <= k < i ==> views(semantic_requirements@)[k] != text,
        decreases semantic_requirements@.len() - i,
    {
        if tokens[ctx.cursor].val == semantic_requirements[i] {
            assert(views(semantic_requirements@)[i as int] == text);
            return true;
        }
        i = i + 1;
    }
    false
}

/// Parses the tail of one level: one of the operators in
/// `semantic_requirements`, an operand of type `expr_type` and a further
/// tail of type `subexpr_type`; or nothing, at the end of the input or in
/// front of a separator or an operator.
pub fn parse_non_terminal_subexpr(
    current_node: &mut Node,
    tokens: &Vec<Token>,
    ctx: &mut ParseContext,
    frame: usize,
    expr_type: NodeType,
    subexpr_type: NodeType,
    semantic_requirements: &Vec<String>,
) -> (ok: bool)
    requires
        old(ctx).wf(),
        frame < old(ctx)@.scopes.frames.len(),
    ensures
        parsed(
            tail(
                token_models(tokens@),
                old(ctx)@,
                frame as nat,
                expr_type,
                subexpr_type,
                views(semantic_requirements@),
            ),
            frame as nat,
            old(ctx)@,
            final(ctx)@,
            old(current_node)@,
            final(current_node)@,
            ok,
        ),
        !ok ==> final(ctx).cursor == old(ctx).cursor,
    decreases
            remaining(tokens@.len(), old(ctx).cursor as nat),
            3 * rule_rank(subexpr_type) + 1,
            0nat,
{
    if semantic_check(tokens, ctx, semantic_requirements) {
        let steps = vec![
            Step::Rule(NodeType::Operator),
            Step::Rule(expr_type),
            Step::Rule(subexpr_type),
        ];
        match parse_steps(&steps, tokens, ctx, frame, ctx.cursor, rank_of(subexpr_type)) {
            Some(nodes) => {
                proof {
                    lemma_children(nodes@[0]);
                }
                let mut properties = Properties::new();
                properties.operator = copy_text(&nodes[0].properties.value);
                commit(current_node, nodes, properties);
                return true;
            },
            None => {},
        }
    }
    if ctx.cursor >= tokens.len() || is_separator(&tokens[ctx.cursor].val) || is_operator(
        &tokens[ctx.cursor].val,
    ) {
        proof {
            lemma_extends_refl(ctx@.scopes, frame as nat);
            assert(views(Seq::<Node>::empty()) =~= Seq::<NodeModel>::empty());
        }
        commit(current_node, Vec::new(), Properties::new());
        true
    } else {
        false
    }
}

/// `arith_expr := term (('+' | '-') term)*`.
pub fn parse_arith_expr(
    current_node: &mut Node,
    tokens: &Vec<Token>,
    ctx: &mut ParseContext,
    frame: usize,
) -> (ok: bool)
    requires
        old(ctx).wf(),
        frame < old(ctx)@.scopes.frames.len(),
    ensures
        parsed(
            level(
                token_models(tokens@),
                old(ctx)@,
                frame as nat,
                NodeType::Arith_Term,
                NodeType::Arith_Subexpr,
            ),
            frame as nat,
            old(ctx)@,
            final(ctx)@,
            old(current_node)@,
            final(current_node)@,
            ok,
        ),
        !ok ==> final(ctx).cursor == old(ctx).cursor,
    decreases
            remaining(tokens@.len(), old(ctx).cursor as nat),
            3 * rule_rank(NodeType::Arith_Expr) + 1,
            1nat,
{
    parse_non_terminal_expr(
        current_node,
        tokens,
        ctx,
        frame,
        NodeType::Arith_Term,
        NodeType::Arith_Subexpr,
    )
}

/// The tail of an `arith_expr`: `('+' | '-') term` and a further tail, or
/// nothing.
pub fn parse_arith_subexpr(
    current_node: &mut Node,
    tokens: &Vec<Token>,
    ctx: &mut ParseContext,
    frame: usize,
) -> (ok: bool)
    requires
        old(ctx).wf(),
        frame < old(ctx)@.scopes.frames.len(),
    ensures
        parsed(
            tail(
                token_models(tokens@),
                old(ctx)@,
                frame as nat,
                NodeType::Arith_Term,
                NodeType::Arith_Subexpr,
                additive_operators(),
            ),
            frame as nat,
            old(ctx)@,
            final(ctx)@,
            old(current_node)@,
            final(current_node)@,
            ok,
        ),
        !ok ==> final(ctx).cursor == old(ctx).cursor,
    decreases
            remaining(tokens@.len(), old(ctx).cursor as nat),
            3 * rule_rank(NodeType::Arith_Subexpr) + 1,
            1nat,
{
    let mut semantic_requirements: Vec<String> = Vec::new();
    semantic_requirements.push("+".to_owned());
    semantic_requirements.push("-".to_owned());
    assert(views(semantic_requirements@) =~= additive_operators());
    parse_non_terminal_subexpr(
        current_node,
        tokens,
        ctx,
        frame,
        NodeType::Arith_Term,
        NodeType::Arith_Subexpr,
        &semantic_requirements,
    )
}

/// `term := factor (('*' | '/') factor)*`.
pub fn parse_arith_term(
    current_node: &mut Node,
    tokens: &Vec<Token>,
    ctx: &mut ParseContext,
    frame: usize,
) -> (ok: bool)
    requires
        old(ctx).wf(),
        frame < old(ctx)@.scopes.frames.len(),
    ensures
        parsed(
            level(
                token_models(tokens@),
                old(ctx)@,
                frame as nat,
                NodeType::Arith_Factor,
                NodeType::Arith_Subterm,
            ),
            frame as nat,
            old(ctx)@,
            final(ctx)@,
            old(current_node)@,
            final(current_node)@,
            ok,
        ),
        !ok ==> final(ctx).cursor == old(ctx).cursor,
    decreases
            remaining(tokens@.len(), old(ctx).cursor as nat),
            3 * rule_rank(NodeType::Arith_Term) + 1,
            1nat,
{
    parse_non_terminal_expr(
        current_node,
        tokens,
        ctx,
        frame,
        NodeType::Arith_Factor,
        NodeType::Arith_Subterm,
    )
}

/// The tail of a `term`: `('*' | '/') factor` and a further tail, or nothing.
pub fn parse_arith_subterm(
    current_node: &mut Node,
    tokens: &Vec<Token>,
    ctx: &mut ParseContext,
    frame: usize,
) -> (ok: bool)
    requires
        old(ctx).wf(),
        frame < old(ctx)@.scopes.frames.len(),
    ensures
        parsed(
            tail(
                token_models(tokens@),
                old(ctx)@,
                frame as nat,
                NodeType::Arith_Factor,
                NodeType::Arith_Subterm,
                multiplicative_operators(),
            ),
            frame as nat,
            old(ctx)@,
            final(ctx)@,
            old(current_node)@,
            final(current_node)@,
            ok,
        ),
        !ok ==> final(ctx).cursor == old(ctx).cursor,
    decreases
            remaining(tokens@.len(), old(ctx).cursor as nat),
            3 * rule_rank(NodeType::Arith_Subterm) + 1,
            1nat,
{
    let mut semantic_requirements: Vec<String> = Vec::new();
    semantic_requirements.push("*".to_owned());
    semantic_requirements.push("/".to_owned());
    assert(views(semantic_requirements@) =~= multiplicative_operators());
    parse_non_terminal_subexpr(
        current_node,
        tokens,
        ctx,
        frame,
        NodeType::Arith_Factor,
        NodeType::Arith_Subterm,
        &semantic_requirements,
    )
}

/// Whether `prim` is the type of an operand: `int`, or `bool` unless only
/// `int` will do.
pub fn is_operand_type(prim: &String, int_only: bool) -> (r: bool)
    ensures
        r == crate::grammar::operand_type(prim@, int_only),
{
    text_is(prim.as_str(), "int") || (!int_only && text_is(prim.as_str(), "bool"))
}

/// Parses a call as an operand: a name with a `(` behind it, parsed as a
/// call whose name is declared with a fitting type.
pub fn parse_called_operand(
    tokens: &Vec<Token>,
    ctx: &mut ParseContext,
    frame: usize,
    start: usize,
    rank: u8,
    call_int_only: bool,
) -> (parts: Option<(Vec<Node>, Properties)>)
    requires
        old(ctx).wf(),
        frame < old(ctx)@.scopes.frames.len(),
    ensures
        produced(
            called_operand(
                token_models(tokens@),
                old(ctx)@,
                frame as nat,
                start as nat,
                rank as nat,
                call_int_only,
            ),
            frame as nat,
            old(ctx)@,
            final(ctx)@,
            parts,
        ),
        parts is None ==> final(ctx).cursor == old(ctx).cursor,
    decreases remaining(tokens@.len(), start as nat), 3 * rank, 3nat,
{
    let checkpoint = ctx.checkpoint(frame);
    let count = tokens.len();
    assert(token_models(tokens@).len() == count);
    if !(ctx.cursor < usize::MAX && at_text(tokens, ctx.cursor + 1, "(")) {
        return None;
    }
    let steps = vec![Step::Rule(NodeType::Func_Call)];
    assert(steps@ =~= seq![Step::Rule(NodeType::Func_Call)]);
    let nodes = match parse_steps(&steps, tokens, ctx, frame, start, rank) {
        Some(nodes) => nodes,
        None => {
            return None;
        },
    };
    proof {
        lemma_children(nodes@[0]);
        assert(views(nodes@)[0] == nodes@[0]@);
    }
    let name = text_or_empty(&nodes[0].properties.identifier);
    let accepted = match ctx.scopes.scope_lookup(frame, &name) {
        Some(symbol) => is_operand_type(&symbol.primitive, call_int_only),
        None => false,
    };
    if !accepted {
        ctx.rewind(frame, &checkpoint);
        return None;
    }
    let mut properties = Properties::new();
    properties.terminal = copy_text(&nodes[0].properties.identifier);
    Some((nodes, properties))
}

/// Parses a plain name as an operand: an identifier declared as `int` or
/// `bool`.
pub fn parse_variable_operand(tokens: &Vec<Token>, ctx: &mut ParseContext, frame: usize) -> (parts:
    Option<(Vec<Node>, Properties)>)
    requires
        old(ctx).wf(),
        frame < old(ctx)@.scopes.frames.len(),
    ensures
        produced(
            variable_operand(token_models(tokens@), old(ctx)@, frame as nat),
            frame as nat,
            old(ctx)@,
            final(ctx)@,
            parts,
        ),
        parts is None ==> final(ctx).cursor == old(ctx).cursor,
{
    let checkpoint = ctx.checkpoint(frame);
    proof {
        lemma_extends_refl(ctx@.scopes, frame as nat);
    }
    let mut identifier_node = create_node(NodeType::Identifier);
    if !parse_terminal(&mut identifier_node, tokens, ctx, &TokenType::Identifier) {
        return None;
    }
    proof {
        lemma_children(identifier_node);
    }
    let name = text_or_empty(&identifier_node.properties.value);
    let accepted = match ctx.scopes.scope_lookup(frame, &name) {
        Some(symbol) => is_operand_type(&symbol.primitive, false),
        None => false,
    };
    if !accepted {
        ctx.rewind(frame, &checkpoint);
        return None;
    }
    let mut properties = Properties::new();
    properties.terminal = Some(name);
    let mut nodes: Vec<Node> = Vec::new();
    nodes.push(identifier_node);
    proof {
        assert(views(nodes@) =~= seq![identifier_node@]);
    }
    Some((nodes, properties))
}

/// Parses an operand that starts with a name: a call, where that matches,
/// else a plain name.
pub fn parse_named_operand(
    tokens: &Vec<Token>,
    ctx: &mut ParseContext,
    frame: usize,
    start: usize,
    rank: u8,
    call_int_only: bool,
) -> (parts: Option<(Vec<Node>, Properties)>)
    requires
        old(ctx).wf(),
        frame < old(ctx)@.scopes.frames.len(),
    ensures
        produced(
            named_operand(
                token_models(tokens@),
                old(ctx)@,
                frame as nat,
                start as nat,
                rank as nat,
                call_int_only,
            ),
            frame as nat,
            old(ctx)@,
            final(ctx)@,
            parts,
        ),
        parts is None ==> final(ctx).cursor == old(ctx).cursor,
    decreases remaining(tokens@.len(), start as nat), 3 * rank, 4nat,
{
    match parse_called_operand(tokens, ctx, frame, start, rank, call_int_only) {
        Some(parts) => Some(parts),
        None => parse_variable_operand(tokens, ctx, frame),
    }
}

/// `factor := constant | identifier | function_call`. A name must be
/// declared as `int` or `bool`, a called function as `int`.
pub fn parse_arith_factor(
    current_node: &mut Node,
    tokens: &Vec<Token>,
    ctx: &mut ParseContext,
    frame: usize,
) -> (ok: bool)
    requires
        old(ctx).wf(),
        frame < old(ctx)@.scopes.frames.len(),
    ensures
        parsed(
            arith_factor(token_models(tokens@), old(ctx)@, frame as nat),
            frame as nat,
            old(ctx)@,
            final(ctx)@,
            old(current_node)@,
            final(current_node)@,
            ok,
        ),
        !ok ==> final(ctx).cursor == old(ctx).cursor,
    decreases
            remaining(tokens@.len(), old(ctx).cursor as nat),
            3 * rule_rank(NodeType::Arith_Factor) + 1,
            0nat,
{
    let mut constant_node = create_node(NodeType::Constant);
    if parse_terminal(&mut constant_node, tokens, ctx, &TokenType::Constant) {
        proof {
            lemma_children(constant_node);
            lemma_extends_refl(ctx@.scopes, frame as nat);
        }
        let mut properties = Properties::new();
        properties.terminal = copy_text(&constant_node.properties.value);
        let mut nodes: Vec<Node> = Vec::new();
        nodes.push(constant_node);
        proof {
            assert(views(nodes@) =~= seq![constant_node@]);
        }
        commit(current_node, nodes, properties);
        return true;
    }
    if ctx.cursor < tokens.len() && is_identifier(&tokens[ctx.cursor].val) {
        match parse_named_operand(
            tokens,
            ctx,
            frame,
            ctx.cursor,
            rank_of(NodeType::Arith_Factor),
            true,
        ) {
            Some((nodes, properties)) => {
                commit(current_node, nodes, properties);
                true
            },
            None => false,
        }
    } else {
        false
    }
}

/// `or_expr := and_expr ('||' and_expr)*`.
pub fn parse_or_epxr(
    current_node: &mut Node,
    tokens: &Vec<Token>,
    ctx: &mut ParseContext,
    frame: usize,
) -> (ok: bool)
    requires
        old(ctx).wf(),
        frame < old(ctx)@.scopes.frames.len(),
    ensures
        parsed(
            level(
                token_models(tokens@),
                old(ctx)@,
                frame as nat,
                NodeType::And_Expr,
                NodeType::Or_Subexpr,
            ),
            frame as nat,
            old(ctx)@,
            final(ctx)@,
            old(current_node)@,
            final(current_node)@,
            ok,
        ),
        !ok ==> final(ctx).cursor == old(ctx).cursor,
    decreases
            remaining(tokens@.len(), old(ctx).cursor as nat),
            3 * rule_rank(NodeType::Or_Expr) + 1,
            1nat,
{
    parse_non_terminal_expr(
        current_node,
        tokens,
        ctx,
        frame,
        NodeType::And_Expr,
        NodeType::Or_Subexpr,
    )
}

/// The tail of an `or_expr`: `'||' and_expr` and a further tail, or nothing.
pub fn parse_or_subepxr(
    current_node: &mut Node,
    tokens: &Vec<Token>,
    ctx: &mut ParseContext,
    frame: usize,
) -> (ok: bool)
    requires
        old(ctx).wf(),
        frame < old(ctx)@.scopes.frames.len(),
    ensures
        parsed(
            tail(
                token_models(tokens@),
                old(ctx)@,
                frame as nat,
                NodeType::And_Expr,
                NodeType::Or_Subexpr,
                or_operators(),
            ),
            frame as nat,
            old(ctx)@,
            final(ctx)@,
            old(current_node)@,
            final(current_node)@,
            ok,
        ),
        !ok ==> final(ctx).cursor == old(ctx).cursor,
    decreases
            remaining(tokens@.len(), old(ctx).cursor as nat),
            3 * rule_rank(NodeType::Or_Subexpr) + 1,
            1nat,
{
    let mut semantic_requirements: Vec<String> = Vec::new();
    semantic_requirements.push("||".to_owned());
    assert(views(semantic_requirements@) =~= or_operators());
    parse_non_terminal_subexpr(
        current_node,
        tokens,
        ctx,
        frame,
        NodeType::And_Expr,
        NodeType::Or_Subexpr,
        &semantic_requirements,
    )
}

/// `and_expr := equality_expr ('&&' equality_expr)*`.
pub fn parse_and_expr(
    current_node: &mut Node,
    tokens: &Vec<Token>,
    ctx: &mut ParseContext,
    frame: usize,
) -> (ok: bool)
    requires
        old(ctx).wf(),
        frame < old(ctx)@.scopes.frames.len(),
    ensures
        parsed(
            level(
                token_models(tokens@),
                old(ctx)@,
                frame as nat,
                NodeType::Equality_Expr,
                NodeType::And_Subexpr,
            ),
            frame as nat,
            old(ctx)@,
            final(ctx)@,
            old(current_node)@,
            final(current_node)@,
            ok,
        ),
        !ok ==> final(ctx).cursor == old(ctx).cursor,
    decreases
            remaining(tokens@.len(), old(ctx).cursor as nat),
            3 * rule_rank(NodeType::And_Expr) + 1,
            1nat,
{
    parse_non_terminal_expr(
        current_node,
        tokens,
        ctx,
        frame,
        NodeType::Equality_Expr,
        NodeType::And_Subexpr,
    )
}

/// The tail of an `and_expr`: `'&&' equality_expr` and a further tail, or
/// nothing.
pub fn parse_and_subexpr(
    current_node: &mut Node,
    tokens: &Vec<Token>,
    ctx: &mut ParseContext,
    frame: usize,
) -> (ok: bool)
    requires
        old(ctx).wf(),
        frame < old(ctx)@.scopes.frames.len(),
    ensures
        parsed(
            tail(
                token_models(tokens@),
                old(ctx)@,
                frame as nat,
                NodeType::Equality_Expr,
                NodeType::And_Subexpr,
                and_operators(),
            ),
            frame as nat,
            old(ctx)@,
            final(ctx)@,
            old(current_node)@,
            final(current_node)@,
            ok,
        ),
        !ok ==> final(ctx).cursor == old(ctx).cursor,
    decreases
            remaining(tokens@.len(), old(ctx).cursor as nat),
            3 * rule_rank(NodeType::And_Subexpr) + 1,
            1nat,
{
    let mut semantic_requirements: Vec<String> = Vec::new();
    semantic_requirements.push("&&".to_owned());
    assert(views(semantic_requirements@) =~= and_operators());
    parse_non_terminal_subexpr(
        current_node,
        tokens,
        ctx,
        frame,
        NodeType::Equality_Expr,
        NodeType::And_Subexpr,
        &semantic_requirements,
    )
}

/// `equality_expr := relational_expr (('==' | '!=') relational_expr)*`.
pub fn parse_equality_expr(
    current_node: &mut Node,
    tokens: &Vec<Token>,
    ctx: &mut ParseContext,
    frame: usize,
) -> (ok: bool)
    requires
        old(ctx).wf(),
        frame < old(ctx)@.scopes.frames.len(),
    ensures
        parsed(
            level(
                token_models(tokens@),
                old(ctx)@,
                frame as nat,
                NodeType::Relational_Expr,
                NodeType::Equality_Subexpr,
            ),
            frame as nat,
            old(ctx)@,
            final(ctx)@,
            old(current_node)@,
            final(current_node)@,
            ok,
        ),
        !ok ==> final(ctx).cursor == old(ctx).cursor,
    decreases
            remaining(tokens@.len(), old(ctx).cursor as nat),
            3 * rule_rank(NodeType::Equality_Expr) + 1,
            1nat,
{
    parse_non_terminal_expr(
        current_node,
        tokens,
        ctx,
        frame,
        NodeType::Relational_Expr,
        NodeType::Equality_Subexpr,
    )
}

/// The tail of an `equality_expr`: `('==' | '!=') relational_expr` and a
/// further tail, or nothing.
pub fn parse_equality_subexpr(
    current_node: &mut Node,
    tokens: &Vec<Token>,
    ctx: &mut ParseContext,
    frame: usize,
) -> (ok: bool)
    requires
        old(ctx).wf(),
        frame < old(ctx)@.scopes.frames.len(),
    ensures
        parsed(
            tail(
                token_models(tokens@),
                old(ctx)@,
                frame as nat,
                NodeType::Relational_Expr,
                NodeType::Equality_Subexpr,
                equality_operators(),
            ),
            frame as nat,
            old(ctx)@,
            final(ctx)@,
            old(current_node)@,
            final(current_node)@,
            ok,
        ),
        !ok ==> final(ctx).cursor == old(ctx).cursor,
    decreases
            remaining(tokens@.len(), old(ctx).cursor as nat),
            3 * rule_rank(NodeType::Equality_Subexpr) + 1,
            1nat,
{
    let mut semantic_requirements: Vec<String> = Vec::new();
    semantic_requirements.push("==".to_owned());
    semantic_requirements.push("!=".to_owned());
    assert(views(semantic_requirements@) =~= equality_operators());
    parse_non_terminal_subexpr(
        current_node,
        tokens,
        ctx,
        frame,
        NodeType::Relational_Expr,
        NodeType::Equality_Subexpr,
        &semantic_requirements,
    )
}

/// `relational_expr := not_expr (('<' | '>' | '<=' | '>=') not_expr)*`.
pub fn parse_relational_expr(
    current_node: &mut Node,
    tokens: &Vec<Token>,
    ctx: &mut ParseContext,
    frame: usize,
) -> (ok: bool)
    requires
        old(ctx).wf(),
        frame < old(ctx)@.scopes.frames.len(),
    ensures
        parsed(
            level(
                token_models(tokens@),
                old(ctx)@,
                frame as nat,
                NodeType::Not_Expr,
                NodeType::Relational_Subexpr,
            ),
            frame as nat,
            old(ctx)@,
            final(ctx)@,
            old(current_node)@,
            final(current_node)@,
            ok,
        ),
        !ok ==> final(ctx).cursor == old(ctx).cursor,
    decreases
            remaining(tokens@.len(), old(ctx).cursor as nat),
            3 * rule_rank(NodeType::Relational_Expr) + 1,
            1nat,
{
    parse_non_terminal_expr(
        current_node,
        tokens,
        ctx,
        frame,
        NodeType::Not_Expr,
        NodeType::Relational_Subexpr,
    )
}

/// The tail of a `relational_expr`: `('<' | '>' | '<=' | '>=') not_expr` and
/// a further tail, or nothing.
pub fn parse_relational_subexpr(
    current_node: &mut Node,
    tokens: &Vec<Token>,
    ctx: &mut ParseContext,
    frame: usize,
) -> (ok: bool)
    requires
        old(ctx).wf(),
        frame < old(ctx)@.scopes.frames.len(),
    ensures
        parsed(
            tail(
                token_models(tokens@),
                old(ctx)@,
                frame as nat,
                NodeType::Not_Expr,
                NodeType::Relational_Subexpr,
                relational_operators(),
            ),
            frame as nat,
            old(ctx)@,
            final(ctx)@,
            old(current_node)@,
            final(current_node)@,
            ok,
        ),
        !ok ==> final(ctx).cursor == old(ctx).cursor,
    decreases
            remaining(tokens@.len(), old(ctx).cursor as nat),
            3 * rule_rank(NodeType::Relational_Subexpr) + 1,
            1nat,
{
    let mut semantic_requirements: Vec<String> = Vec::new();
    semantic_requirements.push("<".to_owned());
    semantic_requirements.push(">".to_owned());
    semantic_requirements.push("<=".to_owned());
    semantic_requirements.push(">=".to_owned());
    assert(views(semantic_requirements@) =~= relational_operators());
    parse_non_terminal_subexpr(
        current_node,
        tokens,
        ctx,
        frame,
        NodeType::Not_Expr,
        NodeType::Relational_Subexpr,
        &semantic_requirements,
    )
}

/// Parses the operand of a `not_expr`: a keyword, which stands for `0` where
/// it is `false` and for `1` else; a named operand; or a constant.
pub fn parse_boolean_operand(
    tokens: &Vec<Token>,
    ctx: &mut ParseContext,
    frame: usize,
    start: usize,
    rank: u8,
) -> (parts: Option<(Vec<Node>, Properties)>)
    requires
        old(ctx).wf(),
        frame < old(ctx)@.scopes.frames.len(),
    ensures
        produced(
            boolean_operand(
                token_models(tokens@),
                old(ctx)@,
                frame as nat,
                start as nat,
                rank as nat,
            ),
            frame as nat,
            old(ctx)@,
            final(ctx)@,
            parts,
        ),
        parts is None ==> final(ctx).cursor == old(ctx).cursor,
    decreases remaining(tokens@.len(), start as nat), 3 * rank, 5nat,
{
    proof {
        lemma_extends_refl(ctx@.scopes, frame as nat);
    }
    let mut keyword_node = create_node(NodeType::Keyword);
    if parse_terminal(&mut keyword_node, tokens, ctx, &TokenType::Keyword) {
        proof {
            lemma_children(keyword_node);
        }
        let text = text_or_empty(&keyword_node.properties.value);
        let mut properties = Properties::new();
        if text_is(text.as_str(), "false") {
            properties.terminal = Some("0".to_owned());
        } else {
            properties.terminal = Some("1".to_owned());
        }
        let mut nodes: Vec<Node> = Vec::new();
        nodes.push(keyword_node);
        proof {
            assert(views(nodes@) =~= seq![keyword_node@]);
        }
        return Some((nodes, properties));
    }
    if ctx.cursor < tokens.len() && is_identifier(&tokens[ctx.cursor].val) {
        return parse_named_operand(tokens, ctx, frame, start, rank, false);
    }
    let mut constant_node = create_node(NodeType::Constant);
    if parse_terminal(&mut constant_node, tokens, ctx, &TokenType::Constant) {
        proof {
            lemma_children(constant_node);
        }
        let mut properties = Properties::new();
        properties.terminal = copy_text(&constant_node.properties.value);
        let mut nodes: Vec<Node> = Vec::new();
        nodes.push(constant_node);
        proof {
            assert(views(nodes@) =~= seq![constant_node@]);
        }
        return Some((nodes, properties));
    }
    None
}

/// `not_expr := '!'? operand`.
pub fn parse_not_expr(
    current_node: &mut Node,
    tokens: &Vec<Token>,
    ctx: &mut ParseContext,
    frame: usize,
) -> (ok: bool)
    requires
        old(ctx).wf(),
        frame < old(ctx)@.scopes.frames.len(),
    ensures
        parsed(
            not_expr(token_models(tokens@), old(ctx)@, frame as nat),
            frame as nat,
            old(ctx)@,
            final(ctx)@,
            old(current_node)@,
            final(current_node)@,
            ok,
        ),
        !ok ==> final(ctx).cursor == old(ctx).cursor,
    decreases
            remaining(tokens@.len(), old(ctx).cursor as nat),
            3 * rule_rank(NodeType::Not_Expr) + 1,
            0nat,
{
    let checkpoint = ctx.checkpoint(frame);
    let start = ctx.cursor;
    let rank = rank_of(NodeType::Not_Expr);
    proof {
        lemma_extends_refl(ctx@.scopes, frame as nat);
    }
    let mut operator_node = create_node(NodeType::Operator);
    if parse_literal(&mut operator_node, tokens, ctx, &TokenType::Operator, "!") {
        let ghost negated = ctx@;
        match parse_boolean_operand(tokens, ctx, frame, start, rank) {
            Some((operand, properties)) => {
                let mut nodes: Vec<Node> = Vec::new();
                nodes.push(operator_node);
                let mut operand = operand;
                proof {
                    assert(views(nodes@) =~= seq![operator_node@]);
                    lemma_views_concat(nodes@, operand@);
                    lemma_extends_trans(
                        old(ctx)@.scopes,
                        frame as nat,
                        negated.scopes,
                        frame as nat,
                        ctx@.scopes,
                    );
                }
                nodes.append(&mut operand);
                let mut properties = properties;
                properties.unary = true;
                commit(current_node, nodes, properties);
                true
            },
            None => {
                ctx.rewind(frame, &checkpoint);
                false
            },
        }
    } else {
        match parse_boolean_operand(tokens, ctx, frame, start, rank) {
            Some((nodes, properties)) => {
                commit(current_node, nodes, properties);
                true
            },
            None => false,
        }
    }
}

/// `cond_expr := or_expr | relational_expr`.
pub fn parse_cond_expr(
    current_node: &mut Node,
    tokens: &Vec<Token>,
    ctx: &mut ParseContext,
    frame: usize,
) -> (ok: bool)
    requires
        old(ctx).wf(),
        frame < old(ctx)@.scopes.frames.len(),
    ensures
        parsed(
            cond_expr(token_models(tokens@), old(ctx)@, frame as nat),
            frame as nat,
            old(ctx)@,
            final(ctx)@,
            old(current_node)@,
            final(current_node)@,
            ok,
        ),
        !ok ==> final(ctx).cursor == old(ctx).cursor,
    decreases
            remaining(tokens@.len(), old(ctx).cursor as nat),
            3 * rule_rank(NodeType::Condition_Expr) + 1,
            0nat,
{
    let rank = rank_of(NodeType::Condition_Expr);
    let found = match parse_single(NodeType::Or_Expr, tokens, ctx, frame, rank) {
        Some(nodes) => Some(nodes),
        None => parse_single(NodeType::Relational_Expr, tokens, ctx, frame, rank),
    };
    match found {
        Some(nodes) => {
            commit(current_node, nodes, Properties::new());
            true
        },
        None => false,
    }
}

/// `opt_expr := var_decl | assignment | expr | empty`, the empty one only in
/// front of a separator.
pub fn parse_optional_expr(
    current_node: &mut Node,
    tokens: &Vec<Token>,
    ctx: &mut ParseContext,
    frame: usize,
) -> (ok: bool)
    requires
        old(ctx).wf(),
        frame < old(ctx)@.scopes.frames.len(),
    ensures
        parsed(
            optional_expr(token_models(tokens@), old(ctx)@, frame as nat),
            frame as nat,
            old(ctx)@,
            final(ctx)@,
            old(current_node)@,
            final(current_node)@,
            ok,
        ),
        !ok ==> final(ctx).cursor == old(ctx).cursor,
    decreases
            remaining(tokens@.len(), old(ctx).cursor as nat),
            3 * rule_rank(NodeType::Optional_Expr) + 1,
            0nat,
{
    let rank = rank_of(NodeType::Optional_Expr);
    let found = match parse_single(NodeType::VarDecl, tokens, ctx, frame, rank) {
        Some(nodes) => Some(nodes),
        None => match parse_single(NodeType::Assign_Expr, tokens, ctx, frame, rank) {
            Some(nodes) => Some(nodes),
            None => parse_single(NodeType::Expression, tokens, ctx, frame, rank),
        },
    };
    match found {
        Some(nodes) => {
            commit(current_node, nodes, Properties::new());
            true
        },
        None => {
            if ctx.cursor < tokens.len() && is_separator(&tokens[ctx.cursor].val) {
                proof {
                    lemma_extends_refl(ctx@.scopes, frame as nat);
                    assert(views(Seq::<Node>::empty()) =~= Seq::<NodeModel>::empty());
                }
                commit(current_node, Vec::new(), Properties::new());
                true
            } else {
                false
            }
        },
    }
}

/// `expr := cond_expr | arith_expr`.
pub fn parse_expr(
    current_node: &mut Node,
    tokens: &Vec<Token>,
    ctx: &mut ParseContext,
    frame: usize,
) -> (ok: bool)
    requires
        old(ctx).wf(),
        frame < old(ctx)@.scopes.frames.len(),
    ensures
        parsed(
            expression(token_models(tokens@), old(ctx)@, frame as nat),
            frame as nat,
            old(ctx)@,
            final(ctx)@,
            old(current_node)@,
            final(current_node)@,
            ok,
        ),
        !ok ==> final(ctx).cursor == old(ctx).cursor,
    decreases
            remaining(tokens@.len(), old(ctx).cursor as nat),
            3 * rule_rank(NodeType::Expression) + 1,
            0nat,
{
    let rank = rank_of(NodeType::Expression);
    let found = match parse_single(NodeType::Condition_Expr, tokens, ctx, frame, rank) {
        Some(nodes) => Some(nodes),
        None => parse_single(NodeType::Arith_Expr, tokens, ctx, frame, rank),
    };
    match found {
        Some(nodes) => {
            commit(current_node, nodes, Properties::new());
            true
        },
        None => false,
    }
}

/// The rule that the right-hand side of an assignment to a variable of type
/// `prim` follows: boolean for `bool`, arithmetic else.
pub fn right_hand_side_of(prim: &String) -> (kind: NodeType)
    ensures
        kind == crate::grammar::right_hand_side(prim@),
{
    if text_is(prim.as_str(), "int") {
        NodeType::Arith_Expr
    } else if text_is(prim.as_str(), "bool") {
        NodeType::Or_Expr
    } else {
        NodeType::Arith_Expr
    }
}

/// `assignment := identifier '=' expr`. The name must be declared.
pub fn parse_assign_expr(
    current_node: &mut Node,
    tokens: &Vec<Token>,
    ctx: &mut ParseContext,
    frame: usize,
) -> (ok: bool)
    requires
        old(ctx).wf(),
        frame < old(ctx)@.scopes.frames.len(),
    ensures
        parsed(
            assign_expr(token_models(tokens@), old(ctx)@, frame as nat),
            frame as nat,
            old(ctx)@,
            final(ctx)@,
            old(current_node)@,
            final(current_node)@,
            ok,
        ),
        !ok ==> final(ctx).cursor == old(ctx).cursor,
    decreases
            remaining(tokens@.len(), old(ctx).cursor as nat),
            3 * rule_rank(NodeType::Assign_Expr) + 1,
            0nat,
{
    let checkpoint = ctx.checkpoint(frame);
    let start = ctx.cursor;
    proof {
        lemma_extends_refl(ctx@.scopes, frame as nat);
    }
    let mut identity_node = create_node(NodeType::Identifier);
    if !parse_terminal(&mut identity_node, tokens, ctx, &TokenType::Identifier) {
        return false;
    }
    proof {
        lemma_children(identity_node);
    }
    let name = text_or_empty(&identity_node.properties.value);
    let rhs = match ctx.scopes.scope_lookup(frame, &name) {
        Some(symbol) => right_hand_side_of(&symbol.primitive),
        None => {
            ctx.rewind(frame, &checkpoint);
            return false;
        },
    };
    if !at_text(tokens, ctx.cursor, "=") {
        ctx.rewind(frame, &checkpoint);
        return false;
    }
    let ghost named = ctx@;
    let steps = vec![Step::Rule(NodeType::Operator), Step::Rule(rhs)];
    match parse_steps(&steps, tokens, ctx, frame, start, rank_of(NodeType::Assign_Expr)) {
        Some(rest) => {
            let mut nodes: Vec<Node> = Vec::new();
            nodes.push(identity_node);
            let mut rest = rest;
            proof {
                assert(views(nodes@) =~= seq![identity_node@]);
                lemma_views_concat(nodes@, rest@);
                lemma_extends_trans(
                    old(ctx)@.scopes,
                    frame as nat,
                    named.scopes,
                    frame as nat,
                    ctx@.scopes,
                );
            }
            nodes.append(&mut rest);
            let mut properties = Properties::new();
            properties.identifier = Some(name);
            commit(current_node, nodes, properties);
            true
        },
        None => {
            ctx.rewind(frame, &checkpoint);
            false
        },
    }
}

/// `function_call := identifier '(' call_args ')'`.
pub fn parse_func_call(
    current_node: &mut Node,
    tokens: &Vec<Token>,
    ctx: &mut ParseContext,
    frame: usize,
) -> (ok: bool)
    requires
        old(ctx).wf(),
        frame < old(ctx)@.scopes.frames.len(),
    ensures
        parsed(
            func_call(token_models(tokens@), old(ctx)@, frame as nat),
            frame as nat,
            old(ctx)@,
            final(ctx)@,
            old(current_node)@,
            final(current_node)@,
            ok,
        ),
        !ok ==> final(ctx).cursor == old(ctx).cursor,
    decreases
            remaining(tokens@.len(), old(ctx).cursor as nat),
            3 * rule_rank(NodeType::Func_Call) + 1,
            0nat,
{
    let steps = vec![
        Step::Rule(NodeType::Identifier),
        Step::Literal(NodeType::Separator, "("),
        Step::Rule(NodeType::Call_Args),
        Step::Literal(NodeType::Separator, ")"),
    ];
    match parse_steps(&steps, tokens, ctx, frame, ctx.cursor, rank_of(NodeType::Func_Call)) {
        Some(nodes) => {
            proof {
                lemma_children(nodes@[0]);
                lemma_children(nodes@[2]);
            }
            let mut properties = Properties::new();
            properties.arguments = nodes[2].properties.arguments;
            properties.identifier = copy_text(&nodes[0].properties.value);
            commit(current_node, nodes, properties);
            true
        },
        None => false,
    }
}

/// `call_args := (expr (',' call_args)?)?`, up to a `)` that is left unread.
/// The node counts the expressions in its attribute `arguments`.
pub fn parse_call_args(
    current_node: &mut Node,
    tokens: &Vec<Token>,
    ctx: &mut ParseContext,
    frame: usize,
) -> (ok: bool)
    requires
        old(ctx).wf(),
        frame < old(ctx)@.scopes.frames.len(),
    ensures
        parsed(
            call_args(token_models(tokens@), old(ctx)@, frame as nat),
            frame as nat,
            old(ctx)@,
            final(ctx)@,
            old(current_node)@,
            final(current_node)@,
            ok,
        ),
        !ok ==> final(ctx).cursor == old(ctx).cursor,
    decreases
            remaining(tokens@.len(), old(ctx).cursor as nat),
            3 * rule_rank(NodeType::Call_Args) + 1,
            0nat,
{
    let checkpoint = ctx.checkpoint(frame);
    let start = ctx.cursor;
    let rank = rank_of(NodeType::Call_Args);
    proof {
        lemma_extends_refl(ctx@.scopes, frame as nat);
    }
    if at_text(tokens, ctx.cursor, ")") {
        let mut properties = Properties::new();
        properties.arguments = Some(0);
        proof {
            assert(views(Seq::<Node>::empty()) =~= Seq::<NodeModel>::empty());
        }
        commit(current_node, Vec::new(), properties);
        return true;
    }
    let mut nodes = match parse_single(NodeType::Expression, tokens, ctx, frame, rank) {
        Some(nodes) => nodes,
        None => {
            return false;
        },
    };
    if at_text(tokens, ctx.cursor, ")") {
        let mut properties = Properties::new();
        properties.arguments = Some(1);
        commit(current_node, nodes, properties);
        return true;
    }
    let ghost first = ctx@;
    let steps = vec![Step::Literal(NodeType::Separator, ","), Step::Rule(NodeType::Call_Args)];
    match parse_steps(&steps, tokens, ctx, frame, start, rank) {
        Some(more) => {
            proof {
                lemma_children(more@[1]);
                lemma_extends_trans(
                    old(ctx)@.scopes,
                    frame as nat,
                    first.scopes,
                    frame as nat,
                    ctx@.scopes,
                );
            }
            match more[1].properties.arguments {
                Some(n) => {
                    if n < u32::MAX {
                        let mut more = more;
                        proof {
                            lemma_views_concat(nodes@, more@);
                        }
                        nodes.append(&mut more);
                        let mut properties = Properties::new();
                        properties.arguments = Some(n + 1);
                        commit(current_node, nodes, properties);
                        return true;
                    }
                },
                None => {},
            }
            ctx.rewind(frame, &checkpoint);
            false
        },
        None => {
            ctx.rewind(frame, &checkpoint);
            false
        },
    }
}

} // verus!
