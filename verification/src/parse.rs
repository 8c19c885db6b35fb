//! The parser's state, its dispatcher and the productions of declarations.
//!
//! Every production fills the node it is given and moves the cursor behind
//! what it has read. A production that does not match leaves the node, the
//! cursor and the scope tree exactly as it found them.

use vstd::prelude::*;
use crate::expression::{
    parse_and_expr, parse_and_subexpr, parse_arith_expr, parse_arith_factor, parse_arith_subexpr,
    parse_arith_subterm, parse_arith_term, parse_assign_expr, parse_call_args, parse_cond_expr,
    parse_equality_expr, parse_equality_subexpr, parse_expr, parse_func_call, parse_not_expr,
    parse_optional_expr, parse_or_epxr, parse_or_subepxr, parse_relational_expr,
    parse_relational_subexpr,
};
use crate::grammar::{
    Outcome, ParseState, Sequence, Step, arguments, as_node, can_enter, followed,
    rule, step_node,
    derive_steps, entered, func_decl, has_text, literal, other_decl, program_start, remaining,
    rule_rank, single_rule, terminal, token_kind,
};
use crate::statement::{
    parse_body, parse_elif_stmt, parse_else_stmt, parse_for_stmt, parse_if_stmt, parse_ret_stmt,
    parse_statement, parse_var_decl, parse_while_stmt,
};
use crate::symbol_table::{
    ScopeMark, ScopeTree, ScopeTreeModel, TreeMethods, extends, fresh_frame, lemma_extends_refl,
    lemma_extends_trans, tree_wf,
};
use crate::syntax::{
    Node, NodeModel, NodeType, Properties, apply, commit, create_node,
    lemma_children, text_or_empty,
};
use crate::text::text_is;
use crate::token::{Token, TokenType, token_models};
use crate::views::{views, lemma_views_push};

verus! {

/// What a parse carries along: the index of the next token and the scope
/// tree that the productions fill.
pub struct ParseContext {
    pub cursor: usize,
    pub scopes: ScopeTree,
}

impl View for ParseContext {
    type V = ParseState;

    open spec fn view(&self) -> ParseState {
        ParseState { pos: self.cursor as nat, scopes: self.scopes@ }
    }
}

/// A cursor position and a mark of the scope tree, to which a failed
/// production returns.
pub struct Checkpoint {
    pub cursor: usize,
    pub mark: ScopeMark,
}

impl Checkpoint {
    /// The state that the checkpoint stands for.
    pub open spec fn state(&self) -> ParseState {
        ParseState { pos: self.cursor as nat, scopes: self.mark.before@ }
    }
}

/// The state in which a parse starts: the cursor at the first token, and a
/// scope tree of one root frame whose first local receives `ordinal`.
pub open spec fn initial_state(ordinal: i32) -> ParseState {
    ParseState {
        pos: 0,
        scopes: ScopeTreeModel { frames: seq![fresh_frame(ordinal, None)] },
    }
}

impl ParseContext {
    /// The scope tree is well formed.
    pub open spec fn wf(&self) -> bool {
        tree_wf(self@.scopes)
    }

    /// A context at the first token, over a tree of one root frame whose
    /// first local receives `ordinal`.
    pub fn new(ordinal: i32) -> (ctx: ParseContext)
        ensures
            ctx.wf(),
            ctx@ == initial_state(ordinal),
    {
        ParseContext { cursor: 0, scopes: ScopeTree::new(ordinal) }
    }

    /// Records the state, to return to it after a failure in `frame`.
    pub fn checkpoint(&self, frame: usize) -> (c: Checkpoint)
        requires
            frame < self@.scopes.frames.len(),
        ensures
            c.state() == self@,
            c.mark.taken_at(frame as nat),
    {
        Checkpoint { cursor: self.cursor, mark: self.scopes.mark(frame) }
    }

    /// Returns to the state that `c` recorded.
    pub fn rewind(&mut self, frame: usize, c: &Checkpoint)
        requires
            c.mark.taken_at(frame as nat),
            extends(c.mark.before@, frame as nat, old(self)@.scopes),
        ensures
            final(self)@ == c.state(),
    {
        self.scopes.rollback(frame, &c.mark);
        self.cursor = c.cursor;
    }
}

/// The index of the token that is read next.
pub fn get_current_token_index(ctx: &ParseContext) -> (index: usize)
    ensures
        index == ctx.cursor,
{
    ctx.cursor
}

/// Moves the cursor on by one token and returns the new index.
pub fn next_token_index(ctx: &mut ParseContext) -> (index: usize)
    requires
        old(ctx).cursor < usize::MAX,
    ensures
        index == old(ctx).cursor + 1,
        final(ctx).cursor == index,
        final(ctx).scopes == old(ctx).scopes,
{
    ctx.cursor = ctx.cursor + 1;
    ctx.cursor
}

/// Moves the cursor back by one token and returns the new index.
pub fn prev_token_index(ctx: &mut ParseContext) -> (index: usize)
    requires
        old(ctx).cursor > 0,
    ensures
        index == old(ctx).cursor - 1,
        final(ctx).cursor == index,
        final(ctx).scopes == old(ctx).scopes,
{
    ctx.cursor = ctx.cursor - 1;
    ctx.cursor
}

/// How the outcome of a production shows in what a parsing function leaves
/// behind.
///
/// Where the production matches, the function returns `true`, the node has
/// the production's children behind its own and the production's attributes
/// over its own, the cursor has not moved back, and the scope tree has only
/// grown: by declarations in `frame` and by new frames. Where it does not
/// match, the function returns `false` and the node, the cursor and the scope
/// tree are as they were.
pub open spec fn parsed(
    outcome: Outcome,
    frame: nat,
    before: ParseState,
    after: ParseState,
    node_before: NodeModel,
    node_after: NodeModel,
    ok: bool,
) -> bool {
    &&& tree_wf(after.scopes)
    &&& match outcome {
        Some((p, s)) => {
            &&& ok
            &&& after == s
            &&& node_after == apply(node_before, p)
            &&& before.pos <= after.pos
            &&& extends(before.scopes, frame, after.scopes)
        },
        None => !ok && after == before && node_after == node_before,
    }
}

/// How the outcome of a sequence of `count` steps shows in what
/// [`parse_steps`] leaves behind: as for [`parsed`], with one node per step.
pub open spec fn sequenced(
    sequence: Sequence,
    count: nat,
    frame: nat,
    before: ParseState,
    after: ParseState,
    nodes: Option<Vec<Node>>,
) -> bool {
    &&& tree_wf(after.scopes)
    &&& match sequence {
        Some((models, s)) => {
            &&& nodes is Some
            &&& views(nodes->0@) == models
            &&& models.len() == count
            &&& after == s
            &&& before.pos <= after.pos
            &&& extends(before.scopes, frame, after.scopes)
        },
        None => nodes is None && after == before,
    }
}

/// `nodes` put in front of what `rest` holds.
pub open spec fn prefixed(nodes: Seq<NodeModel>, rest: Sequence) -> Sequence {
    match rest {
        Some((more, s)) => Some((nodes + more, s)),
        None => None,
    }
}

/// How the outcome of a production shows in what a helper hands back: the
/// children and the attributes, not yet written to a node.
pub open spec fn produced(
    outcome: Outcome,
    frame: nat,
    before: ParseState,
    after: ParseState,
    parts: Option<(Vec<Node>, Properties)>,
) -> bool {
    &&& tree_wf(after.scopes)
    &&& match outcome {
        Some((p, s)) => match parts {
            Some((nodes, properties)) => {
                &&& views(nodes@) == p.children
                &&& properties@ == p.properties
                &&& after == s
                &&& before.pos <= after.pos
                &&& extends(before.scopes, frame, after.scopes)
            },
            None => false,
        },
        None => parts is None && after == before,
    }
}

/// The rank of a rule.
pub fn rank_of(kind: NodeType) -> (rank: u8)
    ensures
        rank == rule_rank(kind),
        rank <= 9,
{
    match kind {
        NodeType::Primitive | NodeType::Identifier | NodeType::Separator | NodeType::Keyword
        | NodeType::Operator | NodeType::Constant => 0,
        NodeType::Func_Call | NodeType::Arguments | NodeType::Arith_Subexpr
        | NodeType::Arith_Subterm | NodeType::Or_Subexpr | NodeType::And_Subexpr
        | NodeType::Equality_Subexpr | NodeType::Relational_Subexpr | NodeType::Return_Stmt
        | NodeType::If_Stmt | NodeType::While_Stmt | NodeType::For_Stmt | NodeType::Else_Stmt
        | NodeType::Func_Decl | NodeType::Assign_Expr => 1,
        NodeType::Arith_Factor | NodeType::Not_Expr | NodeType::Elif_Stmt | NodeType::VarDecl
        | NodeType::Other_Decl => 2,
        NodeType::Arith_Term | NodeType::Relational_Expr | NodeType::Program_Start
        | NodeType::Statement => 3,
        NodeType::Arith_Expr | NodeType::Equality_Expr | NodeType::Body => 4,
        NodeType::And_Expr => 5,
        NodeType::Or_Expr => 6,
        NodeType::Condition_Expr => 7,
        NodeType::Expression => 8,
        NodeType::Optional_Expr | NodeType::Call_Args => 9,
    }
}

/// The token kind that a terminal node type matches.
pub fn terminal_kind(kind: NodeType) -> (r: Option<TokenType>)
    ensures
        r == token_kind(kind),
{
    match kind {
        NodeType::Primitive => Some(TokenType::Primitive),
        NodeType::Identifier => Some(TokenType::Identifier),
        NodeType::Separator => Some(TokenType::Separator),
        NodeType::Keyword => Some(TokenType::Keyword),
        NodeType::Operator => Some(TokenType::Operator),
        NodeType::Constant => Some(TokenType::Constant),
        _ => None,
    }
}

/// Whether the token under the cursor exists and has the text `text`.
pub fn at_text(tokens: &Vec<Token>, index: usize, text: &str) -> (r: bool)
    ensures
        r == has_text(token_models(tokens@), index as nat, text@),
{
    index < tokens.len() && text_is(tokens[index].val.as_str(), text)
}

/// Parses one token of kind `tok_type`: its text becomes the value of
/// `current_node`.
pub fn parse_terminal(
    current_node: &mut Node,
    tokens: &Vec<Token>,
    ctx: &mut ParseContext,
    tok_type: &TokenType,
) -> (ok: bool)
    ensures
        match terminal(*tok_type, token_models(tokens@), old(ctx)@) {
            Some((p, s)) => ok && final(ctx)@ == s && final(current_node)@ == apply(
                old(current_node)@,
                p,
            ),
            None => !ok && final(ctx)@ == old(ctx)@ && final(current_node)@ == old(
                current_node,
            )@,
        },
        final(ctx).scopes == old(ctx).scopes,
        !ok ==> final(ctx).cursor == old(ctx).cursor,
{
    if ctx.cursor < tokens.len() && tokens[ctx.cursor].token_type == *tok_type {
        let mut properties = Properties::new();
        properties.value = Some(tokens[ctx.cursor].val.clone());
        commit(current_node, Vec::new(), properties);
        ctx.cursor = ctx.cursor + 1;
        proof {
            assert(views(Seq::<Node>::empty()) =~= Seq::<NodeModel>::empty());
        }
        true
    } else {
        false
    }
}

/// Parses one token of kind `tok_type` that has the text `text`.
pub fn parse_literal(
    current_node: &mut Node,
    tokens: &Vec<Token>,
    ctx: &mut ParseContext,
    tok_type: &TokenType,
    text: &str,
) -> (ok: bool)
    ensures
        match literal(*tok_type, text@, token_models(tokens@), old(ctx)@) {
            Some((p, s)) => ok && final(ctx)@ == s && final(current_node)@ == apply(
                old(current_node)@,
                p,
            ),
            None => !ok && final(ctx)@ == old(ctx)@ && final(current_node)@ == old(
                current_node,
            )@,
        },
        final(ctx).scopes == old(ctx).scopes,
        !ok ==> final(ctx).cursor == old(ctx).cursor,
{
    if at_text(tokens, ctx.cursor, text) {
        parse_terminal(current_node, tokens, ctx, tok_type)
    } else {
        false
    }
}

/// Parses the steps of `steps` one after the other, inside a rule of rank
/// `rank` that started at the token `start`, and returns one node per step.
/// Where a step does not match, the cursor and the scope tree return to
/// where the sequence started.
pub fn parse_steps(
    steps: &Vec<Step>,
    tokens: &Vec<Token>,
    ctx: &mut ParseContext,
    frame: usize,
    start: usize,
    rank: u8,
) -> (nodes: Option<Vec<Node>>)
    requires
        old(ctx).wf(),
        frame < old(ctx)@.scopes.frames.len(),
    ensures
        sequenced(
            derive_steps(
                steps@,
                token_models(tokens@),
                old(ctx)@,
                frame as nat,
                start as nat,
                rank as nat,
            ),
            steps@.len(),
            frame as nat,
            old(ctx)@,
            final(ctx)@,
            nodes,
        ),
        nodes is None ==> final(ctx).cursor == old(ctx).cursor,
    decreases remaining(tokens@.len(), start as nat), 3 * rank, steps@.len() + 1,
{
    let checkpoint = ctx.checkpoint(frame);
    let mut nodes: Vec<Node> = Vec::new();
    let mut i: usize = 0;
    let ghost toks = token_models(tokens@);
    let ghost goal = derive_steps(steps@, toks, old(ctx)@, frame as nat, start as nat, rank as nat);
    proof {
        assert(steps@.skip(0) =~= steps@);
        assert(views(nodes@) =~= Seq::<NodeModel>::empty());
        lemma_extends_refl(ctx@.scopes, frame as nat);
        match goal {
            Some((models, s)) => {
                assert(Seq::<NodeModel>::empty() + models =~= models);
            },
            None => {},
        }
    }
    while i < steps.len()
        invariant
            0 <= i <= steps@.len(),
            ctx.wf(),
            old(ctx).wf(),
            frame < ctx@.scopes.frames.len(),
            checkpoint.state() == old(ctx)@,
            checkpoint.mark.taken_at(frame as nat),
            extends(old(ctx)@.scopes, frame as nat, ctx@.scopes),
            old(ctx)@.pos <= ctx@.pos,
            nodes@.len() == i,
            toks == token_models(tokens@),
            goal == derive_steps(steps@, toks, old(ctx)@, frame as nat, start as nat, rank as nat),
            goal == prefixed(
                views(nodes@),
                derive_steps(steps@.skip(i as int), toks, ctx@, frame as nat, start as nat, rank as nat),
            ),
        decreases steps@.len() - i,
    {
        let ghost here = ctx@;
        let ghost rest = steps@.skip(i as int);
        let ghost so_far = views(nodes@);
        let ghost first = step_node(
            steps@[i as int],
            toks,
            here,
            frame as nat,
            start as nat,
            rank as nat,
        );
        proof {
            assert(rest.len() > 0);
            assert(rest.drop_first() =~= steps@.skip(i as int + 1));
            assert(rest[0] == steps@[i as int]);
            assert(derive_steps(rest, toks, here, frame as nat, start as nat, rank as nat) == (
            match first {
                Some((node, s1)) => followed(
                    node,
                    derive_steps(
                        steps@.skip(i as int + 1),
                        toks,
                        s1,
                        frame as nat,
                        start as nat,
                        rank as nat,
                    ),
                ),
                None => None,
            }));
        }
        let mut child: Node;
        let ok: bool;
        match steps[i] {
            Step::Rule(kind) => {
                child = create_node(kind);
                if (start < ctx.cursor && start < tokens.len()) || (ctx.cursor == start && rank_of(
                    kind,
                ) < rank) {
                    ok = parse(&mut child, tokens, ctx, frame);
                    proof {
                        assert(first == as_node(kind, rule(kind, toks, here, frame as nat))) by {
                            reveal(rule);
                        }
                        if ok {
                            lemma_extends_trans(
                                old(ctx)@.scopes,
                                frame as nat,
                                here.scopes,
                                frame as nat,
                                ctx@.scopes,
                            );
                        }
                    }
                } else {
                    ok = false;
                }
            },
            Step::Literal(kind, text) => {
                child = create_node(kind);
                match terminal_kind(kind) {
                    Some(token) => {
                        ok = parse_literal(&mut child, tokens, ctx, &token, text);
                    },
                    None => {
                        ok = false;
                    },
                }
            },
        }
        assert(match first {
            Some((node, s1)) => ok && node == child@ && s1 == ctx@,
            None => !ok && ctx@ == here,
        });
        if !ok {
            ctx.rewind(frame, &checkpoint);
            return None;
        }
        proof {
            lemma_views_push(nodes@, child);
            let next = derive_steps(
                steps@.skip(i as int + 1),
                toks,
                ctx@,
                frame as nat,
                start as nat,
                rank as nat,
            );
            match next {
                Some((more, s)) => {
                    assert(so_far + (seq![child@] + more) =~= so_far.push(child@) + more);
                },
                None => {},
            }
        }
        nodes.push(child);
        i = i + 1;
    }
    proof {
        assert(steps@.skip(i as int) =~= Seq::<Step>::empty());
        assert(views(nodes@) + Seq::<NodeModel>::empty() =~= views(nodes@));
    }
    Some(nodes)
}

/// Parses the one rule `kind`, inside a rule of rank `rank` that starts at
/// the cursor, and returns its node.
pub fn parse_single(
    kind: NodeType,
    tokens: &Vec<Token>,
    ctx: &mut ParseContext,
    frame: usize,
    rank: u8,
) -> (nodes: Option<Vec<Node>>)
    requires
        old(ctx).wf(),
        frame < old(ctx)@.scopes.frames.len(),
    ensures
        sequenced(
            single_rule(kind, token_models(tokens@), old(ctx)@, frame as nat, rank as nat),
            1,
            frame as nat,
            old(ctx)@,
            final(ctx)@,
            nodes,
        ),
        nodes is None ==> final(ctx).cursor == old(ctx).cursor,
    decreases remaining(tokens@.len(), old(ctx).cursor as nat), 3 * rank, 3nat,
{
    let steps = vec![Step::Rule(kind)];
    assert(steps@ =~= seq![Step::Rule(kind)]);
    parse_steps(&steps, tokens, ctx, frame, ctx.cursor, rank)
}

/// Parses the rule that `current_node` stands for, by its type.
pub fn parse(
    current_node: &mut Node,
    tokens: &Vec<Token>,
    ctx: &mut ParseContext,
    frame: usize,
) -> (ok: bool)
    requires
        old(ctx).wf(),
        frame < old(ctx)@.scopes.frames.len(),
    ensures
        parsed(
            rule(old(current_node).node_type, token_models(tokens@), old(ctx)@, frame as nat),
            frame as nat,
            old(ctx)@,
            final(ctx)@,
            old(current_node)@,
            final(current_node)@,
            ok,
        ),
        !ok ==> final(ctx).cursor == old(ctx).cursor,
    decreases
            remaining(tokens@.len(), old(ctx).cursor as nat),
            3 * rule_rank(old(current_node).node_type) + 2,
            0nat,
{
    proof {
        reveal(rule);
        lemma_extends_refl(ctx@.scopes, frame as nat);
    }
    match current_node.node_type {
        NodeType::Program_Start => parse_start_node(current_node, tokens, ctx, frame),
        NodeType::Other_Decl => parse_other_decl(current_node, tokens, ctx, frame),
        NodeType::Func_Decl => parse_func_decl(current_node, tokens, ctx, frame),
        NodeType::Arguments => parse_arguments(current_node, tokens, ctx, frame),
        NodeType::Primitive => parse_terminal(current_node, tokens, ctx, &TokenType::Primitive),
        NodeType::Identifier => parse_terminal(current_node, tokens, ctx, &TokenType::Identifier),
        NodeType::Separator => parse_terminal(current_node, tokens, ctx, &TokenType::Separator),
        NodeType::Body => parse_body(current_node, tokens, ctx, frame),
        NodeType::Assign_Expr => parse_assign_expr(current_node, tokens, ctx, frame),
        NodeType::Expression => parse_expr(current_node, tokens, ctx, frame),
        NodeType::Arith_Expr => parse_arith_expr(current_node, tokens, ctx, frame),
        NodeType::Arith_Subexpr => parse_arith_subexpr(current_node, tokens, ctx, frame),
        NodeType::Arith_Term => parse_arith_term(current_node, tokens, ctx, frame),
        NodeType::Arith_Subterm => parse_arith_subterm(current_node, tokens, ctx, frame),
        NodeType::Arith_Factor => parse_arith_factor(current_node, tokens, ctx, frame),
        NodeType::Or_Expr => parse_or_epxr(current_node, tokens, ctx, frame),
        NodeType::Or_Subexpr => parse_or_subepxr(current_node, tokens, ctx, frame),
        NodeType::And_Expr => parse_and_expr(current_node, tokens, ctx, frame),
        NodeType::And_Subexpr => parse_and_subexpr(current_node, tokens, ctx, frame),
        NodeType::Equality_Expr => parse_equality_expr(current_node, tokens, ctx, frame),
        NodeType::Equality_Subexpr => parse_equality_subexpr(current_node, tokens, ctx, frame),
        NodeType::Relational_Expr => parse_relational_expr(current_node, tokens, ctx, frame),
        NodeType::Relational_Subexpr => parse_relational_subexpr(current_node, tokens, ctx, frame),
        NodeType::Not_Expr => parse_not_expr(current_node, tokens, ctx, frame),
        NodeType::Func_Call => parse_func_call(current_node, tokens, ctx, frame),
        NodeType::Call_Args => parse_call_args(current_node, tokens, ctx, frame),
        NodeType::Condition_Expr => parse_cond_expr(current_node, tokens, ctx, frame),
        NodeType::Optional_Expr => parse_optional_expr(current_node, tokens, ctx, frame),
        NodeType::Statement => parse_statement(current_node, tokens, ctx, frame),
        NodeType::VarDecl => parse_var_decl(current_node, tokens, ctx, frame),
        NodeType::Return_Stmt => parse_ret_stmt(current_node, tokens, ctx, frame),
        NodeType::If_Stmt => parse_if_stmt(current_node, tokens, ctx, frame),
        NodeType::Elif_Stmt => parse_elif_stmt(current_node, tokens, ctx, frame),
        NodeType::Else_Stmt => parse_else_stmt(current_node, tokens, ctx, frame),
        NodeType::While_Stmt => parse_while_stmt(current_node, tokens, ctx, frame),
        NodeType::For_Stmt => parse_for_stmt(current_node, tokens, ctx, frame),
        NodeType::Keyword => parse_terminal(current_node, tokens, ctx, &TokenType::Keyword),
        NodeType::Operator => parse_terminal(current_node, tokens, ctx, &TokenType::Operator),
        NodeType::Constant => parse_terminal(current_node, tokens, ctx, &TokenType::Constant),
    }
}

/// Parses a whole program: `program := function_decl+`.
pub fn parse_start_node(
    current_node: &mut Node,
    tokens: &Vec<Token>,
    ctx: &mut ParseContext,
    frame: usize,
) -> (ok: bool)
    requires
        old(ctx).wf(),
        frame < old(ctx)@.scopes.frames.len(),
    ensures
        parsed(
            program_start(token_models(tokens@), old(ctx)@, frame as nat),
            frame as nat,
            old(ctx)@,
            final(ctx)@,
            old(current_node)@,
            final(current_node)@,
            ok,
        ),
        !ok ==> final(ctx).cursor == old(ctx).cursor,
    decreases
            remaining(tokens@.len(), old(ctx).cursor as nat),
            3 * rule_rank(NodeType::Program_Start) + 1,
            0nat,
{
    if ctx.cursor >= tokens.len() {
        return false;
    }
    let steps = vec![Step::Rule(NodeType::Other_Decl)];
    assert(steps@ =~= seq![Step::Rule(NodeType::Other_Decl)]);
    match parse_steps(&steps, tokens, ctx, frame, ctx.cursor, rank_of(NodeType::Program_Start)) {
        Some(nodes) => {
            commit(current_node, nodes, Properties::new());
            true
        },
        None => false,
    }
}

/// Parses the declarations up to the end of the input.
pub fn parse_other_decl(
    current_node: &mut Node,
    tokens: &Vec<Token>,
    ctx: &mut ParseContext,
    frame: usize,
) -> (ok: bool)
    requires
        old(ctx).wf(),
        frame < old(ctx)@.scopes.frames.len(),
    ensures
        parsed(
            other_decl(token_models(tokens@), old(ctx)@, frame as nat),
            frame as nat,
            old(ctx)@,
            final(ctx)@,
            old(current_node)@,
            final(current_node)@,
            ok,
        ),
        !ok ==> final(ctx).cursor == old(ctx).cursor,
    decreases
            remaining(tokens@.len(), old(ctx).cursor as nat),
            3 * rule_rank(NodeType::Other_Decl) + 1,
            0nat,
{
    if ctx.cursor >= tokens.len() {
        proof {
            lemma_extends_refl(ctx@.scopes, frame as nat);
            assert(views(Seq::<Node>::empty()) =~= Seq::<NodeModel>::empty());
        }
        commit(current_node, Vec::new(), Properties::new());
        return true;
    }
    let steps = vec![Step::Rule(NodeType::Func_Decl), Step::Rule(NodeType::Other_Decl)];
    match parse_steps(&steps, tokens, ctx, frame, ctx.cursor, rank_of(NodeType::Other_Decl)) {
        Some(nodes) => {
            commit(current_node, nodes, Properties::new());
            true
        },
        None => false,
    }
}

/// Enters a new child frame of `frame`, whose first local receives `ordinal`,
/// and returns its index; `None` where the arena is full.
pub fn enter_child(ctx: &mut ParseContext, frame: usize, ordinal: i32) -> (child: Option<usize>)
    requires
        old(ctx).wf(),
        frame < old(ctx)@.scopes.frames.len(),
    ensures
        final(ctx).wf(),
        match child {
            Some(c) => {
                &&& can_enter(old(ctx)@.scopes, frame as nat)
                &&& final(ctx)@ == entered(old(ctx)@, frame as nat, ordinal)
                &&& c == old(ctx)@.scopes.frames.len()
                &&& c < final(ctx)@.scopes.frames.len()
                &&& extends(old(ctx)@.scopes, frame as nat, final(ctx)@.scopes)
            },
            None => !can_enter(old(ctx)@.scopes, frame as nat) && final(ctx)@ == old(ctx)@,
        },
{
    if ctx.scopes.len() == usize::MAX {
        None
    } else {
        Some(ctx.scopes.push_child(frame, ordinal))
    }
}

/// Parses a function declaration: `function_decl := primitive identifier '('
/// args ')' '{' body '}'`. The body gets a frame of its own; the name of the
/// function is declared in `frame`.
pub fn parse_func_decl(
    current_node: &mut Node,
    tokens: &Vec<Token>,
    ctx: &mut ParseContext,
    frame: usize,
) -> (ok: bool)
    requires
        old(ctx).wf(),
        frame < old(ctx)@.scopes.frames.len(),
    ensures
        parsed(
            func_decl(token_models(tokens@), old(ctx)@, frame as nat),
            frame as nat,
            old(ctx)@,
            final(ctx)@,
            old(current_node)@,
            final(current_node)@,
            ok,
        ),
        !ok ==> final(ctx).cursor == old(ctx).cursor,
    decreases
            remaining(tokens@.len(), old(ctx).cursor as nat),
            3 * rule_rank(NodeType::Func_Decl) + 1,
            0nat,
{
    let checkpoint = ctx.checkpoint(frame);
    let start = ctx.cursor;
    let child = match enter_child(ctx, frame, 1) {
        Some(c) => c,
        None => {
            return false;
        },
    };
    let ghost inside = ctx@;
    let steps = vec![
        Step::Rule(NodeType::Primitive),
        Step::Rule(NodeType::Identifier),
        Step::Literal(NodeType::Separator, "("),
        Step::Rule(NodeType::Arguments),
        Step::Literal(NodeType::Separator, ")"),
        Step::Literal(NodeType::Separator, "{"),
        Step::Rule(NodeType::Body),
        Step::Literal(NodeType::Separator, "}"),
    ];
    let nodes = match parse_steps(&steps, tokens, ctx, child, start, rank_of(NodeType::Func_Decl)) {
        Some(nodes) => nodes,
        None => {
            ctx.rewind(frame, &checkpoint);
            return false;
        },
    };
    proof {
        lemma_extends_trans(
            old(ctx)@.scopes,
            frame as nat,
            inside.scopes,
            child as nat,
            ctx@.scopes,
        );
        lemma_children(nodes@[0]);
        lemma_children(nodes@[1]);
    }
    let name = text_or_empty(&nodes[1].properties.value);
    let prim = text_or_empty(&nodes[0].properties.value);
    if !ctx.scopes.get_table(frame).accepts(&name) {
        ctx.rewind(frame, &checkpoint);
        return false;
    }
    let ghost parsed_state = ctx@;
    ctx.scopes.bind(frame, &name, &prim, true);
    proof {
        lemma_extends_trans(
            old(ctx)@.scopes,
            frame as nat,
            parsed_state.scopes,
            frame as nat,
            ctx@.scopes,
        );
    }
    commit(current_node, nodes, Properties::new());
    true
}

/// Parses the parameters of a declaration: `args := (primitive identifier
/// ',')*`, up to a `)` that is left unread.
pub fn parse_arguments(
    current_node: &mut Node,
    tokens: &Vec<Token>,
    ctx: &mut ParseContext,
    frame: usize,
) -> (ok: bool)
    requires
        old(ctx).wf(),
        frame < old(ctx)@.scopes.frames.len(),
    ensures
        parsed(
            arguments(token_models(tokens@), old(ctx)@, frame as nat),
            frame as nat,
            old(ctx)@,
            final(ctx)@,
            old(current_node)@,
            final(current_node)@,
            ok,
        ),
        !ok ==> final(ctx).cursor == old(ctx).cursor,
    decreases
            remaining(tokens@.len(), old(ctx).cursor as nat),
            3 * rule_rank(NodeType::Arguments) + 1,
            0nat,
{
    let steps = vec![
        Step::Rule(NodeType::Primitive),
        Step::Rule(NodeType::Identifier),
        Step::Literal(NodeType::Separator, ","),
        Step::Rule(NodeType::Arguments),
    ];
    match parse_steps(&steps, tokens, ctx, frame, ctx.cursor, rank_of(NodeType::Arguments)) {
        Some(nodes) => {
            commit(current_node, nodes, Properties::new());
            true
        },
        None => {
            if at_text(tokens, ctx.cursor, ")") {
                proof {
                    lemma_extends_refl(ctx@.scopes, frame as nat);
                    assert(views(Seq::<Node>::empty()) =~= Seq::<NodeModel>::empty());
                }
                commit(current_node, Vec::new(), Properties::new());
                true
            } else {
                false
            }
        },
    }
}

} // verus!
