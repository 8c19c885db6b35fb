//! The productions of statements and of bodies of statements.

use vstd::prelude::*;
use crate::grammar::{
    Statements, Step, block, block_and_tail, body, declares, elif_stmt, else_stmt, for_stmt,
    if_stmt, prepend, remaining, ret_stmt, rule_rank, statement, statements,
    var_decl, while_stmt, wrap,
};
use crate::parse::{
    ParseContext, at_text, enter_child, parse, parse_single, parse_steps, parse_terminal,
    parsed, rank_of, sequenced,
};
use crate::grammar::{has_text, rule};
use crate::symbol_table::{TreeMethods, extends, lemma_extends_refl, lemma_extends_trans};
use crate::syntax::{
    Node, NodeModel, NodeType, Properties, commit, copy_text, create_node, lemma_children, text_or_empty,
};
use crate::token::{Token, TokenType, is_identifier, is_primitive, token_models};
use crate::views::{views, lemma_views_concat, lemma_views_push};

verus! {

/// Parses one statement, chosen by its first token.
pub fn parse_statement(
    current_node: &mut Node,
    tokens: &Vec<Token>,
    ctx: &mut ParseContext,
    frame: usize,
) -> (ok: bool)
    requires
        old(ctx).wf(),
        frame < old(ctx)@.scopes.frames.len(),
    ensures
        parsed(
            statement(token_models(tokens@), old(ctx)@, frame as nat),
            frame as nat,
            old(ctx)@,
            final(ctx)@,
            old(current_node)@,
            final(current_node)@,
            ok,
        ),
        !ok ==> final(ctx).cursor == old(ctx).cursor,
    decreases
            remaining(tokens@.len(), old(ctx).cursor as nat),
            3 * rule_rank(NodeType::Statement) + 1,
            0nat,
{
    let rank = rank_of(NodeType::Statement);
    if ctx.cursor >= tokens.len() {
        return false;
    }
    let start = ctx.cursor;
    let keyword = if at_text(tokens, start, "return") {
        Some(NodeType::Return_Stmt)
    } else if at_text(tokens, start, "if") {
        Some(NodeType::If_Stmt)
    } else if at_text(tokens, start, "for") {
        Some(NodeType::For_Stmt)
    } else if at_text(tokens, start, "while") {
        Some(NodeType::While_Stmt)
    } else {
        None
    };
    match keyword {
        Some(kind) => {
            return match parse_single(kind, tokens, ctx, frame, rank) {
                Some(nodes) => {
                    commit(current_node, nodes, Properties::new());
                    true
                },
                None => false,
            };
        },
        None => {},
    }
    if is_primitive(&tokens[start].val) {
        let steps = vec![Step::Rule(NodeType::VarDecl), Step::Literal(NodeType::Separator, ";")];
        match parse_steps(&steps, tokens, ctx, frame, start, rank) {
            Some(nodes) => {
                let mut nodes = nodes;
                nodes.truncate(1);
                proof {
                    assert(views(nodes@) =~= seq![views(nodes@)[0]]);
                }
                let mut properties = Properties::new();
                properties.var_alloc = Some(1);
                commit(current_node, nodes, properties);
                true
            },
            None => false,
        }
    } else if is_identifier(&tokens[start].val) {
        if start < usize::MAX && at_text(tokens, start + 1, "(") {
            let steps = vec![
                Step::Rule(NodeType::Func_Call),
                Step::Literal(NodeType::Separator, ";"),
            ];
            match parse_steps(&steps, tokens, ctx, frame, start, rank) {
                Some(nodes) => {
                    commit(current_node, nodes, Properties::new());
                    return true;
                },
                None => {},
            }
        }
        let steps = vec![
            Step::Rule(NodeType::Assign_Expr),
            Step::Literal(NodeType::Separator, ";"),
        ];
        match parse_steps(&steps, tokens, ctx, frame, start, rank) {
            Some(nodes) => {
                commit(current_node, nodes, Properties::new());
                true
            },
            None => false,
        }
    } else {
        false
    }
}

/// `var_decl := primitive identifier ['=' expr]`. The name is declared in
/// `frame` as soon as it has been seen.
pub fn parse_var_decl(
    current_node: &mut Node,
    tokens: &Vec<Token>,
    ctx: &mut ParseContext,
    frame: usize,
) -> (ok: bool)
    requires
        old(ctx).wf(),
        frame < old(ctx)@.scopes.frames.len(),
    ensures
        parsed(
            var_decl(token_models(tokens@), old(ctx)@, frame as nat),
            frame as nat,
            old(ctx)@,
            final(ctx)@,
            old(current_node)@,
            final(current_node)@,
            ok,
        ),
        !ok ==> final(ctx).cursor == old(ctx).cursor,
    decreases
            remaining(tokens@.len(), old(ctx).cursor as nat),
            3 * rule_rank(NodeType::VarDecl) + 1,
            0nat,
{
    let checkpoint = ctx.checkpoint(frame);
    let start = ctx.cursor;
    proof {
        lemma_extends_refl(ctx@.scopes, frame as nat);
    }
    let mut primitive_node = create_node(NodeType::Primitive);
    if !parse_terminal(&mut primitive_node, tokens, ctx, &TokenType::Primitive) {
        return false;
    }
    proof {
        lemma_children(primitive_node);
    }
    let prim = text_or_empty(&primitive_node.properties.value);
    if ctx.cursor < tokens.len() && is_identifier(&tokens[ctx.cursor].val) {
        let name = tokens[ctx.cursor].val.clone();
        if !ctx.scopes.get_table(frame).accepts(&name) {
            ctx.rewind(frame, &checkpoint);
            return false;
        }
        ctx.scopes.bind(frame, &name, &prim, false);
    }
    let ghost declared = ctx@;
    let mut nodes: Vec<Node> = Vec::new();
    nodes.push(primitive_node);
    let steps = vec![Step::Rule(NodeType::Assign_Expr)];
    assert(steps@ =~= seq![Step::Rule(NodeType::Assign_Expr)]);
    match parse_steps(&steps, tokens, ctx, frame, start, rank_of(NodeType::VarDecl)) {
        Some(rest) => {
            let mut rest = rest;
            proof {
                lemma_children(rest@[0]);
                assert(views(nodes@) =~= seq![primitive_node@]);
                lemma_views_concat(nodes@, rest@);
                assert(views(nodes@ + rest@) =~= seq![primitive_node@, rest@[0]@]);
                lemma_extends_trans(
                    old(ctx)@.scopes,
                    frame as nat,
                    declared.scopes,
                    frame as nat,
                    ctx@.scopes,
                );
            }
            let mut properties = Properties::new();
            properties.identifier = copy_text(&rest[0].properties.identifier);
            nodes.append(&mut rest);
            commit(current_node, nodes, properties);
            return true;
        },
        None => {},
    }
    let mut identifier_node = create_node(NodeType::Identifier);
    if !parse_terminal(&mut identifier_node, tokens, ctx, &TokenType::Identifier) {
        ctx.rewind(frame, &checkpoint);
        return false;
    }
    proof {
        lemma_children(identifier_node);
    }
    let mut properties = Properties::new();
    properties.value = Some("0".to_owned());
    properties.identifier = copy_text(&identifier_node.properties.value);
    nodes.push(identifier_node);
    proof {
        assert(views(nodes@) =~= seq![primitive_node@, identifier_node@]);
    }
    commit(current_node, nodes, properties);
    true
}

/// `return_stmt := 'return' arith_expr ';'`.
pub fn parse_ret_stmt(
    current_node: &mut Node,
    tokens: &Vec<Token>,
    ctx: &mut ParseContext,
    frame: usize,
) -> (ok: bool)
    requires
        old(ctx).wf(),
        frame < old(ctx)@.scopes.frames.len(),
    ensures
        parsed(
            ret_stmt(token_models(tokens@), old(ctx)@, frame as nat),
            frame as nat,
            old(ctx)@,
            final(ctx)@,
            old(current_node)@,
            final(current_node)@,
            ok,
        ),
        !ok ==> final(ctx).cursor == old(ctx).cursor,
    decreases
            remaining(tokens@.len(), old(ctx).cursor as nat),
            3 * rule_rank(NodeType::Return_Stmt) + 1,
            0nat,
{
    let steps = vec![
        Step::Literal(NodeType::Keyword, "return"),
        Step::Rule(NodeType::Arith_Expr),
        Step::Literal(NodeType::Separator, ";"),
    ];
    match parse_steps(&steps, tokens, ctx, frame, ctx.cursor, rank_of(NodeType::Return_Stmt)) {
        Some(nodes) => {
            commit(current_node, nodes, Properties::new());
            true
        },
        None => false,
    }
}

/// `body := statement*`, up to a `}` that is left unread. The node counts the
/// statements that declare a variable in its attribute `var_alloc`.
pub fn parse_body(
    current_node: &mut Node,
    tokens: &Vec<Token>,
    ctx: &mut ParseContext,
    frame: usize,
) -> (ok: bool)
    requires
        old(ctx).wf(),
        frame < old(ctx)@.scopes.frames.len(),
    ensures
        parsed(
            body(token_models(tokens@), old(ctx)@, frame as nat),
            frame as nat,
            old(ctx)@,
            final(ctx)@,
            old(current_node)@,
            final(current_node)@,
            ok,
        ),
        !ok ==> final(ctx).cursor == old(ctx).cursor,
    decreases
            remaining(tokens@.len(), old(ctx).cursor as nat),
            3 * rule_rank(NodeType::Body) + 1,
            0nat,
{
    let checkpoint = ctx.checkpoint(frame);
    let start = ctx.cursor;
    let mut nodes: Vec<Node> = Vec::new();
    let mut var_alloc: u64 = 0;
    let ghost toks = token_models(tokens@);
    let ghost goal = statements(toks, old(ctx)@, frame as nat);
    proof {
        lemma_extends_refl(ctx@.scopes, frame as nat);
        assert(views(nodes@) =~= Seq::<NodeModel>::empty());
        match goal {
            Some((models, n, s)) => {
                assert(Seq::<NodeModel>::empty() + models =~= models);
            },
            None => {},
        }
    }
    loop
        invariant
            ctx.wf(),
            frame < ctx@.scopes.frames.len(),
            old(ctx).wf(),
            checkpoint.state() == old(ctx)@,
            checkpoint.mark.taken_at(frame as nat),
            extends(old(ctx)@.scopes, frame as nat, ctx@.scopes),
            start == old(ctx).cursor,
            start <= ctx.cursor,
            var_alloc <= ctx.cursor - start,
            toks == token_models(tokens@),
            goal == statements(toks, old(ctx)@, frame as nat),
            goal == prepend(
                views(nodes@),
                var_alloc as nat,
                statements(toks, ctx@, frame as nat),
            ),
        ensures
            has_text(toks, ctx@.pos, "}"@),
        decreases remaining(tokens@.len(), ctx.cursor as nat),
    {
        if ctx.cursor >= tokens.len() {
            ctx.rewind(frame, &checkpoint);
            return false;
        }
        if at_text(tokens, ctx.cursor, "}") {
            break ;
        }
        let ghost here = ctx@;
        let ghost so_far = views(nodes@);
        let before = ctx.cursor;
        let mut stmt_node = create_node(NodeType::Statement);
        let ok = parse(&mut stmt_node, tokens, ctx, frame);
        proof {
            if ok {
                lemma_extends_trans(
                    old(ctx)@.scopes,
                    frame as nat,
                    here.scopes,
                    frame as nat,
                    ctx@.scopes,
                );
            }
        }
        proof {
            assert(statements(toks, here, frame as nat) == (match rule(
                NodeType::Statement,
                toks,
                here,
                frame as nat,
            ) {
                Some((p, s)) => if s.pos > here.pos {
                    prepend(
                        seq![crate::syntax::filled(NodeType::Statement, p)],
                        declares(p),
                        statements(toks, s, frame as nat),
                    )
                } else {
                    None
                },
                None => None,
            })) by {
                reveal(rule);
            }
        }
        if !ok || ctx.cursor <= before {
            ctx.rewind(frame, &checkpoint);
            return false;
        }
        proof {
            lemma_children(stmt_node);
            lemma_views_push(nodes@, stmt_node);
            let next: Statements = statements(toks, ctx@, frame as nat);
            match next {
                Some((more, n, s)) => {
                    assert(so_far + (seq![stmt_node@] + more) =~= so_far.push(stmt_node@) + more);
                },
                None => {},
            }
        }
        if stmt_node.properties.var_alloc.is_some() {
            var_alloc = var_alloc + 1;
        }
        nodes.push(stmt_node);
    }
    proof {
        assert(views(nodes@) + Seq::<NodeModel>::empty() =~= views(nodes@));
    }
    let mut properties = Properties::new();
    properties.var_alloc = Some(var_alloc);
    commit(current_node, nodes, properties);
    true
}

/// Parses `keyword '(' cond_expr ')' '{' body '}'` in a new child frame of
/// `frame` and returns the seven nodes.
pub fn parse_block(
    keyword: &'static str,
    tokens: &Vec<Token>,
    ctx: &mut ParseContext,
    frame: usize,
    start: usize,
    rank: u8,
) -> (nodes: Option<Vec<Node>>)
    requires
        old(ctx).wf(),
        frame < old(ctx)@.scopes.frames.len(),
    ensures
        sequenced(
            block(
                keyword,
                token_models(tokens@),
                old(ctx)@,
                frame as nat,
                start as nat,
                rank as nat,
            ),
            7,
            frame as nat,
            old(ctx)@,
            final(ctx)@,
            nodes,
        ),
        nodes is None ==> final(ctx).cursor == old(ctx).cursor,
    decreases remaining(tokens@.len(), start as nat), 3 * rank, 9nat,
{
    let checkpoint = ctx.checkpoint(frame);
    let ordinal = ctx.scopes.get_ordinal(frame);
    let child = match enter_child(ctx, frame, ordinal) {
        Some(c) => c,
        None => {
            return None;
        },
    };
    let ghost inside = ctx@;
    let steps = vec![
        Step::Literal(NodeType::Keyword, keyword),
        Step::Literal(NodeType::Separator, "("),
        Step::Rule(NodeType::Condition_Expr),
        Step::Literal(NodeType::Separator, ")"),
        Step::Literal(NodeType::Separator, "{"),
        Step::Rule(NodeType::Body),
        Step::Literal(NodeType::Separator, "}"),
    ];
    match parse_steps(&steps, tokens, ctx, child, start, rank) {
        Some(nodes) => {
            proof {
                lemma_extends_trans(
                    old(ctx)@.scopes,
                    frame as nat,
                    inside.scopes,
                    child as nat,
                    ctx@.scopes,
                );
            }
            Some(nodes)
        },
        None => {
            ctx.rewind(frame, &checkpoint);
            None
        },
    }
}

/// Parses a block and, in `frame` again, the alternatives that follow it,
/// and fills `current_node` with the nodes of both.
pub fn parse_block_and_tail(
    keyword: &'static str,
    current_node: &mut Node,
    tokens: &Vec<Token>,
    ctx: &mut ParseContext,
    frame: usize,
    rank: u8,
) -> (ok: bool)
    requires
        old(ctx).wf(),
        frame < old(ctx)@.scopes.frames.len(),
    ensures
        parsed(
            block_and_tail(keyword, token_models(tokens@), old(ctx)@, frame as nat, rank as nat),
            frame as nat,
            old(ctx)@,
            final(ctx)@,
            old(current_node)@,
            final(current_node)@,
            ok,
        ),
        !ok ==> final(ctx).cursor == old(ctx).cursor,
    decreases remaining(tokens@.len(), old(ctx).cursor as nat), 3 * rank, 10nat,
{
    let checkpoint = ctx.checkpoint(frame);
    let start = ctx.cursor;
    let mut nodes = match parse_block(keyword, tokens, ctx, frame, start, rank) {
        Some(nodes) => nodes,
        None => {
            return false;
        },
    };
    let ghost blocked = ctx@;
    let steps = vec![Step::Rule(NodeType::Elif_Stmt)];
    assert(steps@ =~= seq![Step::Rule(NodeType::Elif_Stmt)]);
    match parse_steps(&steps, tokens, ctx, frame, start, rank) {
        Some(more) => {
            let mut more = more;
            proof {
                lemma_views_concat(nodes@, more@);
                lemma_extends_trans(
                    old(ctx)@.scopes,
                    frame as nat,
                    blocked.scopes,
                    frame as nat,
                    ctx@.scopes,
                );
            }
            nodes.append(&mut more);
            commit(current_node, nodes, Properties::new());
            true
        },
        None => {
            ctx.rewind(frame, &checkpoint);
            false
        },
    }
}

/// `if_stmt := 'if' '(' cond_expr ')' '{' body '}' elif_tail`.
pub fn parse_if_stmt(
    current_node: &mut Node,
    tokens: &Vec<Token>,
    ctx: &mut ParseContext,
    frame: usize,
) -> (ok: bool)
    requires
        old(ctx).wf(),
        frame < old(ctx)@.scopes.frames.len(),
    ensures
        parsed(
            if_stmt(token_models(tokens@), old(ctx)@, frame as nat),
            frame as nat,
            old(ctx)@,
            final(ctx)@,
            old(current_node)@,
            final(current_node)@,
            ok,
        ),
        !ok ==> final(ctx).cursor == old(ctx).cursor,
    decreases
            remaining(tokens@.len(), old(ctx).cursor as nat),
            3 * rule_rank(NodeType::If_Stmt) + 1,
            0nat,
{
    parse_block_and_tail("if", current_node, tokens, ctx, frame, rank_of(NodeType::If_Stmt))
}

/// Parses the block of an `if`, `'if' '(' cond_expr ')' '{' body '}'`, in a
/// new child frame of `frame`, and fills `current_node` with its nodes.
pub fn handle_if_block(
    current_node: &mut Node,
    tokens: &Vec<Token>,
    ctx: &mut ParseContext,
    frame: usize,
) -> (ok: bool)
    requires
        old(ctx).wf(),
        frame < old(ctx)@.scopes.frames.len(),
    ensures
        parsed(
            wrap(
                block(
                    "if",
                    token_models(tokens@),
                    old(ctx)@,
                    frame as nat,
                    old(ctx)@.pos,
                    rule_rank(NodeType::If_Stmt),
                ),
            ),
            frame as nat,
            old(ctx)@,
            final(ctx)@,
            old(current_node)@,
            final(current_node)@,
            ok,
        ),
        !ok ==> final(ctx).cursor == old(ctx).cursor,
    decreases
            remaining(tokens@.len(), old(ctx).cursor as nat),
            3 * rule_rank(NodeType::If_Stmt),
            10nat,
{
    match parse_block("if", tokens, ctx, frame, ctx.cursor, rank_of(NodeType::If_Stmt)) {
        Some(nodes) => {
            commit(current_node, nodes, Properties::new());
            true
        },
        None => false,
    }
}

/// `elif_tail := 'elif' '(' cond_expr ')' '{' body '}' elif_tail | else_tail
/// | empty`.
pub fn parse_elif_stmt(
    current_node: &mut Node,
    tokens: &Vec<Token>,
    ctx: &mut ParseContext,
    frame: usize,
) -> (ok: bool)
    requires
        old(ctx).wf(),
        frame < old(ctx)@.scopes.frames.len(),
    ensures
        parsed(
            elif_stmt(token_models(tokens@), old(ctx)@, frame as nat),
            frame as nat,
            old(ctx)@,
            final(ctx)@,
            old(current_node)@,
            final(current_node)@,
            ok,
        ),
        !ok ==> final(ctx).cursor == old(ctx).cursor,
    decreases
            remaining(tokens@.len(), old(ctx).cursor as nat),
            3 * rule_rank(NodeType::Elif_Stmt) + 1,
            0nat,
{
    let rank = rank_of(NodeType::Elif_Stmt);
    if at_text(tokens, ctx.cursor, "else") {
        match parse_single(NodeType::Else_Stmt, tokens, ctx, frame, rank) {
            Some(nodes) => {
                commit(current_node, nodes, Properties::new());
                true
            },
            None => false,
        }
    } else if at_text(tokens, ctx.cursor, "elif") {
        parse_block_and_tail("elif", current_node, tokens, ctx, frame, rank)
    } else {
        proof {
            lemma_extends_refl(ctx@.scopes, frame as nat);
            assert(views(Seq::<Node>::empty()) =~= Seq::<NodeModel>::empty());
        }
        commit(current_node, Vec::new(), Properties::new());
        true
    }
}

/// Parses the block of an `elif`, `'elif' '(' cond_expr ')' '{' body '}'`, in
/// a new child frame of `frame`, and fills `current_node` with its nodes.
pub fn handle_elif_block(
    current_node: &mut Node,
    tokens: &Vec<Token>,
    ctx: &mut ParseContext,
    frame: usize,
) -> (ok: bool)
    requires
        old(ctx).wf(),
        frame < old(ctx)@.scopes.frames.len(),
    ensures
        parsed(
            wrap(
                block(
                    "elif",
                    token_models(tokens@),
                    old(ctx)@,
                    frame as nat,
                    old(ctx)@.pos,
                    rule_rank(NodeType::Elif_Stmt),
                ),
            ),
            frame as nat,
            old(ctx)@,
            final(ctx)@,
            old(current_node)@,
            final(current_node)@,
            ok,
        ),
        !ok ==> final(ctx).cursor == old(ctx).cursor,
    decreases
            remaining(tokens@.len(), old(ctx).cursor as nat),
            3 * rule_rank(NodeType::Elif_Stmt),
            10nat,
{
    match parse_block("elif", tokens, ctx, frame, ctx.cursor, rank_of(NodeType::Elif_Stmt)) {
        Some(nodes) => {
            commit(current_node, nodes, Properties::new());
            true
        },
        None => false,
    }
}

/// `else_tail := 'else' '{' body '}' | empty`.
pub fn parse_else_stmt(
    current_node: &mut Node,
    tokens: &Vec<Token>,
    ctx: &mut ParseContext,
    frame: usize,
) -> (ok: bool)
    requires
        old(ctx).wf(),
        frame < old(ctx)@.scopes.frames.len(),
    ensures
        parsed(
            else_stmt(token_models(tokens@), old(ctx)@, frame as nat),
            frame as nat,
            old(ctx)@,
            final(ctx)@,
            old(current_node)@,
            final(current_node)@,
            ok,
        ),
        !ok ==> final(ctx).cursor == old(ctx).cursor,
    decreases
            remaining(tokens@.len(), old(ctx).cursor as nat),
            3 * rule_rank(NodeType::Else_Stmt) + 1,
            0nat,
{
    if !at_text(tokens, ctx.cursor, "else") {
        proof {
            lemma_extends_refl(ctx@.scopes, frame as nat);
            assert(views(Seq::<Node>::empty()) =~= Seq::<NodeModel>::empty());
        }
        commit(current_node, Vec::new(), Properties::new());
        return true;
    }
    let checkpoint = ctx.checkpoint(frame);
    let start = ctx.cursor;
    let ordinal = ctx.scopes.get_ordinal(frame);
    let child = match enter_child(ctx, frame, ordinal) {
        Some(c) => c,
        None => {
            return false;
        },
    };
    let ghost inside = ctx@;
    let steps = vec![
        Step::Literal(NodeType::Keyword, "else"),
        Step::Literal(NodeType::Separator, "{"),
        Step::Rule(NodeType::Body),
        Step::Literal(NodeType::Separator, "}"),
    ];
    match parse_steps(&steps, tokens, ctx, child, start, rank_of(NodeType::Else_Stmt)) {
        Some(nodes) => {
            proof {
                lemma_extends_trans(
                    old(ctx)@.scopes,
                    frame as nat,
                    inside.scopes,
                    child as nat,
                    ctx@.scopes,
                );
            }
            commit(current_node, nodes, Properties::new());
            true
        },
        None => {
            ctx.rewind(frame, &checkpoint);
            false
        },
    }
}

/// `while_stmt := 'while' '(' cond_expr ')' '{' body '}'`.
pub fn parse_while_stmt(
    current_node: &mut Node,
    tokens: &Vec<Token>,
    ctx: &mut ParseContext,
    frame: usize,
) -> (ok: bool)
    requires
        old(ctx).wf(),
        frame < old(ctx)@.scopes.frames.len(),
    ensures
        parsed(
            while_stmt(token_models(tokens@), old(ctx)@, frame as nat),
            frame as nat,
            old(ctx)@,
            final(ctx)@,
            old(current_node)@,
            final(current_node)@,
            ok,
        ),
        !ok ==> final(ctx).cursor == old(ctx).cursor,
    decreases
            remaining(tokens@.len(), old(ctx).cursor as nat),
            3 * rule_rank(NodeType::While_Stmt) + 1,
            0nat,
{
    match parse_block("while", tokens, ctx, frame, ctx.cursor, rank_of(NodeType::While_Stmt)) {
        Some(nodes) => {
            commit(current_node, nodes, Properties::new());
            true
        },
        None => false,
    }
}

/// `for_stmt := 'for' '(' opt_expr ';' opt_expr ';' opt_expr ')' '{' body
/// '}'`, in a new child frame of `frame`.
pub fn parse_for_stmt(
    current_node: &mut Node,
    tokens: &Vec<Token>,
    ctx: &mut ParseContext,
    frame: usize,
) -> (ok: bool)
    requires
        old(ctx).wf(),
        frame < old(ctx)@.scopes.frames.len(),
    ensures
        parsed(
            for_stmt(token_models(tokens@), old(ctx)@, frame as nat),
            frame as nat,
            old(ctx)@,
            final(ctx)@,
            old(current_node)@,
            final(current_node)@,
            ok,
        ),
        !ok ==> final(ctx).cursor == old(ctx).cursor,
    decreases
            remaining(tokens@.len(), old(ctx).cursor as nat),
            3 * rule_rank(NodeType::For_Stmt) + 1,
            0nat,
{
    let checkpoint = ctx.checkpoint(frame);
    let start = ctx.cursor;
    let ordinal = ctx.scopes.get_ordinal(frame);
    let child = match enter_child(ctx, frame, ordinal) {
        Some(c) => c,
        None => {
            return false;
        },
    };
    let ghost inside = ctx@;
    let steps = vec![
        Step::Literal(NodeType::Keyword, "for"),
        Step::Literal(NodeType::Separator, "("),
        Step::Rule(NodeType::Optional_Expr),
        Step::Literal(NodeType::Separator, ";"),
        Step::Rule(NodeType::Optional_Expr),
        Step::Literal(NodeType::Separator, ";"),
        Step::Rule(NodeType::Optional_Expr),
        Step::Literal(NodeType::Separator, ")"),
        Step::Literal(NodeType::Separator, "{"),
        Step::Rule(NodeType::Body),
        Step::Literal(NodeType::Separator, "}"),
    ];
    match parse_steps(&steps, tokens, ctx, child, start, rank_of(NodeType::For_Stmt)) {
        Some(nodes) => {
            proof {
                lemma_extends_trans(
                    old(ctx)@.scopes,
                    frame as nat,
                    inside.scopes,
                    child as nat,
                    ctx@.scopes,
                );
            }
            commit(current_node, nodes, Properties::new());
            true
        },
        None => {
            ctx.rewind(frame, &checkpoint);
            false
        },
    }
}

} // verus!
