//! The grammar, as a function from tokens to syntax trees.
//!
//! Each production is a function of the token sequence, the state of the
//! parse (cursor and scope tree) and the current frame. It yields what the
//! production contributes to its node together with the state behind it, or
//! nothing where the production does not match. As a failed production
//! yields no state, the alternative that is tried next starts from the state
//! at which the failed one started.

use vstd::prelude::*;
use crate::symbol_table::{
    ScopeTreeModel, bind_in, can_insert, lookup_in, push_child_in,
};
use crate::syntax::{
    NodeModel, NodeType, Production, PropertiesModel, filled, no_properties, plain, text_of,
};
use crate::token::{
    TokenModel, TokenType, identifier_text, operator_text, primitive_text, separator_text,
};

verus! {

/// The state of a parse: the index of the next token and the scope tree.
pub struct ParseState {
    pub pos: nat,
    pub scopes: ScopeTreeModel,
}

/// What a production yields: its contribution and the state behind it.
pub type Outcome = Option<(Production, ParseState)>;

/// What a sequence of steps yields: one node per step and the state behind
/// the last of them.
pub type Sequence = Option<(Seq<NodeModel>, ParseState)>;

/// One step of a sequence: a rule of the grammar, which fills a node of the
/// rule's type, or a terminal node whose token must have the given text.
#[derive(Clone, Copy, Debug)]
pub enum Step {
    Rule(NodeType),
    Literal(NodeType, &'static str),
}

/// The number of tokens from `pos` to the end.
pub open spec fn remaining(len: nat, pos: nat) -> nat {
    if pos <= len {
        (len - pos) as nat
    } else {
        0
    }
}

/// The token kind that a terminal node type matches.
pub open spec fn token_kind(kind: NodeType) -> Option<TokenType> {
    match kind {
        NodeType::Primitive => Some(TokenType::Primitive),
        NodeType::Identifier => Some(TokenType::Identifier),
        NodeType::Separator => Some(TokenType::Separator),
        NodeType::Keyword => Some(TokenType::Keyword),
        NodeType::Operator => Some(TokenType::Operator),
        NodeType::Constant => Some(TokenType::Constant),
        _ => None,
    }
}

/// The rank of a rule. A rule may start with a rule of lower rank; a rule of
/// the same or a higher rank may follow only once a token has been read.
/// This is what makes the descent end.
pub open spec fn rule_rank(kind: NodeType) -> nat {
    match kind {
        NodeType::Primitive | NodeType::Identifier | NodeType::Separator | NodeType::Keyword
        | NodeType::Operator | NodeType::Constant => 0,
        NodeType::Func_Call | NodeType::Arguments | NodeType::Arith_Subexpr
        | NodeType::Arith_Subterm | NodeType::Or_Subexpr | NodeType::And_Subexpr
        | NodeType::Equality_Subexpr | NodeType::Relational_Subexpr | NodeType::Return_Stmt
        | NodeType::If_Stmt | NodeType::While_Stmt | NodeType::For_Stmt | NodeType::Else_Stmt
        | NodeType::Func_Decl | NodeType::Assign_Expr => 1,
        NodeType::Arith_Factor | NodeType::Not_Expr | NodeType::Elif_Stmt | NodeType::VarDecl
        | NodeType::Other_Decl => 2,
        NodeType::Arith_Term | NodeType::Relational_Expr | NodeType::Program_Start
        | NodeType::Statement => 3,
        NodeType::Arith_Expr | NodeType::Equality_Expr | NodeType::Body => 4,
        NodeType::And_Expr => 5,
        NodeType::Or_Expr => 6,
        NodeType::Condition_Expr => 7,
        NodeType::Expression => 8,
        NodeType::Optional_Expr | NodeType::Call_Args => 9,
    }
}

/// Whether the token at `pos` exists and has the text `text`.
pub open spec fn has_text(toks: Seq<TokenModel>, pos: nat, text: Seq<char>) -> bool {
    pos < toks.len() && toks[pos as int].text == text
}

/// The attributes of a terminal node: the text of its token.
pub open spec fn value_only(text: Seq<char>) -> PropertiesModel {
    PropertiesModel { value: Some(text), ..no_properties() }
}

/// A terminal: the next token, where it is of kind `kind`. Its text becomes
/// the node's value and the cursor moves on by one.
pub open spec fn terminal(kind: TokenType, toks: Seq<TokenModel>, st: ParseState) -> Outcome {
    if st.pos < toks.len() && toks[st.pos as int].kind == kind {
        Some(
            (
                Production {
                    children: Seq::empty(),
                    properties: value_only(toks[st.pos as int].text),
                },
                ParseState { pos: st.pos + 1, scopes: st.scopes },
            ),
        )
    } else {
        None
    }
}

/// A terminal whose token must also have the text `text`.
pub open spec fn literal(
    kind: TokenType,
    text: Seq<char>,
    toks: Seq<TokenModel>,
    st: ParseState,
) -> Outcome {
    if has_text(toks, st.pos, text) {
        terminal(kind, toks, st)
    } else {
        None
    }
}

/// Whether a rule of type `kind` may be tried at `pos` inside a rule of rank
/// `rank` that started at `start`.
pub open spec fn admissible(kind: NodeType, pos: nat, start: nat, len: nat, rank: nat) -> bool {
    (start < pos && start < len) || (pos == start && rule_rank(kind) < rank)
}

/// The node that a production leaves behind in a fresh node of type `kind`.
pub open spec fn as_node(kind: NodeType, outcome: Outcome) -> Option<(NodeModel, ParseState)> {
    match outcome {
        Some((p, s)) => Some((filled(kind, p), s)),
        None => None,
    }
}

/// A sequence whose nodes become the children of a production that sets no
/// attribute.
pub open spec fn wrap(sequence: Sequence) -> Outcome {
    match sequence {
        Some((nodes, s)) => Some((plain(nodes), s)),
        None => None,
    }
}

/// The node of one step: of a rule, where it may be tried here, the node
/// that the rule fills; of a literal, the terminal node of its token.
pub open spec fn step_node(
    step: Step,
    toks: Seq<TokenModel>,
    st: ParseState,
    frame: nat,
    start: nat,
    rank: nat,
) -> Option<(NodeModel, ParseState)>
    decreases remaining(toks.len(), start), 3 * rank, 0nat,
{
    match step {
        Step::Rule(kind) => if admissible(kind, st.pos, start, toks.len(), rank) {
            as_node(kind, rule(kind, toks, st, frame))
        } else {
            None
        },
        Step::Literal(kind, text) => match token_kind(kind) {
            Some(token) => as_node(kind, literal(token, text@, toks, st)),
            None => None,
        },
    }
}

/// `node` put in front of what `rest` holds.
pub open spec fn followed(node: NodeModel, rest: Sequence) -> Sequence {
    match rest {
        Some((more, s)) => Some((seq![node] + more, s)),
        None => None,
    }
}

/// The steps of `steps` one after the other, each from the state that the
/// one before it left. All of them must match.
pub open spec fn derive_steps(
    steps: Seq<Step>,
    toks: Seq<TokenModel>,
    st: ParseState,
    frame: nat,
    start: nat,
    rank: nat,
) -> Sequence
    decreases remaining(toks.len(), start), 3 * rank, steps.len(),
{
    if steps.len() == 0 {
        Some((Seq::empty(), st))
    } else {
        match step_node(steps[0], toks, st, frame, start, rank) {
            Some((node, s1)) => followed(
                node,
                derive_steps(steps.drop_first(), toks, s1, frame, start, rank),
            ),
            None => None,
        }
    }
}

/// The production of the rule `kind`.
#[verifier::opaque]
pub open spec fn rule(kind: NodeType, toks: Seq<TokenModel>, st: ParseState, frame: nat) -> Outcome
    decreases remaining(toks.len(), st.pos), 3 * rule_rank(kind) + 2, 0nat,
{
    match kind {
        NodeType::Program_Start => program_start(toks, st, frame),
        NodeType::Other_Decl => other_decl(toks, st, frame),
        NodeType::Func_Decl => func_decl(toks, st, frame),
        NodeType::Arguments => arguments(toks, st, frame),
        NodeType::Primitive => terminal(TokenType::Primitive, toks, st),
        NodeType::Identifier => terminal(TokenType::Identifier, toks, st),
        NodeType::Separator => terminal(TokenType::Separator, toks, st),
        NodeType::Keyword => terminal(TokenType::Keyword, toks, st),
        NodeType::Operator => terminal(TokenType::Operator, toks, st),
        NodeType::Constant => terminal(TokenType::Constant, toks, st),
        NodeType::Body => body(toks, st, frame),
        NodeType::Assign_Expr => assign_expr(toks, st, frame),
        NodeType::Expression => expression(toks, st, frame),
        NodeType::Arith_Expr => level(toks, st, frame, NodeType::Arith_Term, NodeType::Arith_Subexpr),
        NodeType::Arith_Subexpr => tail(
            toks,
            st,
            frame,
            NodeType::Arith_Term,
            NodeType::Arith_Subexpr,
            additive_operators(),
        ),
        NodeType::Arith_Term => level(
            toks,
            st,
            frame,
            NodeType::Arith_Factor,
            NodeType::Arith_Subterm,
        ),
        NodeType::Arith_Subterm => tail(
            toks,
            st,
            frame,
            NodeType::Arith_Factor,
            NodeType::Arith_Subterm,
            multiplicative_operators(),
        ),
        NodeType::Arith_Factor => arith_factor(toks, st, frame),
        NodeType::Or_Expr => level(toks, st, frame, NodeType::And_Expr, NodeType::Or_Subexpr),
        NodeType::Or_Subexpr => tail(
            toks,
            st,
            frame,
            NodeType::And_Expr,
            NodeType::Or_Subexpr,
            or_operators(),
        ),
        NodeType::And_Expr => level(toks, st, frame, NodeType::Equality_Expr, NodeType::And_Subexpr),
        NodeType::And_Subexpr => tail(
            toks,
            st,
            frame,
            NodeType::Equality_Expr,
            NodeType::And_Subexpr,
            and_operators(),
        ),
        NodeType::Equality_Expr => level(
            toks,
            st,
            frame,
            NodeType::Relational_Expr,
            NodeType::Equality_Subexpr,
        ),
        NodeType::Equality_Subexpr => tail(
            toks,
            st,
            frame,
            NodeType::Relational_Expr,
            NodeType::Equality_Subexpr,
            equality_operators(),
        ),
        NodeType::Relational_Expr => level(
            toks,
            st,
            frame,
            NodeType::Not_Expr,
            NodeType::Relational_Subexpr,
        ),
        NodeType::Relational_Subexpr => tail(
            toks,
            st,
            frame,
            NodeType::Not_Expr,
            NodeType::Relational_Subexpr,
            relational_operators(),
        ),
        NodeType::Not_Expr => not_expr(toks, st, frame),
        NodeType::Func_Call => func_call(toks, st, frame),
        NodeType::Call_Args => call_args(toks, st, frame),
        NodeType::Condition_Expr => cond_expr(toks, st, frame),
        NodeType::Optional_Expr => optional_expr(toks, st, frame),
        NodeType::Statement => statement(toks, st, frame),
        NodeType::VarDecl => var_decl(toks, st, frame),
        NodeType::Return_Stmt => ret_stmt(toks, st, frame),
        NodeType::If_Stmt => if_stmt(toks, st, frame),
        NodeType::Elif_Stmt => elif_stmt(toks, st, frame),
        NodeType::Else_Stmt => else_stmt(toks, st, frame),
        NodeType::While_Stmt => while_stmt(toks, st, frame),
        NodeType::For_Stmt => for_stmt(toks, st, frame),
    }
}

/// `+` and `-`.
pub open spec fn additive_operators() -> Seq<Seq<char>> {
    seq!["+"@, "-"@]
}

/// `*` and `/`.
pub open spec fn multiplicative_operators() -> Seq<Seq<char>> {
    seq!["*"@, "/"@]
}

/// `||`.
pub open spec fn or_operators() -> Seq<Seq<char>> {
    seq!["||"@]
}

/// `&&`.
pub open spec fn and_operators() -> Seq<Seq<char>> {
    seq!["&&"@]
}

/// `==` and `!=`.
pub open spec fn equality_operators() -> Seq<Seq<char>> {
    seq!["=="@, "!="@]
}

/// `<`, `>`, `<=` and `>=`.
pub open spec fn relational_operators() -> Seq<Seq<char>> {
    seq!["<"@, ">"@, "<="@, ">="@]
}

/// `program := function_decl+`: at least one token, then declarations up to
/// the end of the input.
pub open spec fn program_start(toks: Seq<TokenModel>, st: ParseState, frame: nat) -> Outcome
    decreases remaining(toks.len(), st.pos), 3 * rule_rank(NodeType::Program_Start) + 1, 0nat,
{
    if st.pos >= toks.len() {
        None
    } else {
        wrap(
            derive_steps(
                seq![Step::Rule(NodeType::Other_Decl)],
                toks,
                st,
                frame,
                st.pos,
                rule_rank(NodeType::Program_Start),
            ),
        )
    }
}

/// Nothing at the end of the input; else a function declaration and what
/// follows it.
pub open spec fn other_decl(toks: Seq<TokenModel>, st: ParseState, frame: nat) -> Outcome
    decreases remaining(toks.len(), st.pos), 3 * rule_rank(NodeType::Other_Decl) + 1, 0nat,
{
    if st.pos >= toks.len() {
        Some((plain(Seq::empty()), st))
    } else {
        wrap(
            derive_steps(
                seq![Step::Rule(NodeType::Func_Decl), Step::Rule(NodeType::Other_Decl)],
                toks,
                st,
                frame,
                st.pos,
                rule_rank(NodeType::Other_Decl),
            ),
        )
    }
}

/// Whether `frame` exists and the arena has room for one more frame.
pub open spec fn can_enter(scopes: ScopeTreeModel, frame: nat) -> bool {
    frame < scopes.frames.len() < usize::MAX
}

/// The state after a child frame of `frame` has been entered. The child has
/// the index `st.scopes.frames.len()`.
pub open spec fn entered(st: ParseState, frame: nat, ordinal: i32) -> ParseState {
    ParseState { pos: st.pos, scopes: push_child_in(st.scopes, frame, ordinal) }
}

/// `function_decl := primitive identifier '(' args ')' '{' body '}'`, parsed
/// in a new child frame of `frame` whose ordinals start at one. Behind the
/// body the function's name is declared in `frame` itself; where `frame`
/// has the name already, the production does not match.
pub open spec fn func_decl(toks: Seq<TokenModel>, st: ParseState, frame: nat) -> Outcome
    decreases remaining(toks.len(), st.pos), 3 * rule_rank(NodeType::Func_Decl) + 1, 0nat,
{
    if !can_enter(st.scopes, frame) {
        None
    } else {
        match derive_steps(
            seq![
                Step::Rule(NodeType::Primitive),
                Step::Rule(NodeType::Identifier),
                Step::Literal(NodeType::Separator, "("),
                Step::Rule(NodeType::Arguments),
                Step::Literal(NodeType::Separator, ")"),
                Step::Literal(NodeType::Separator, "{"),
                Step::Rule(NodeType::Body),
                Step::Literal(NodeType::Separator, "}"),
            ],
            toks,
            entered(st, frame, 1),
            st.scopes.frames.len(),
            st.pos,
            rule_rank(NodeType::Func_Decl),
        ) {
            Some((nodes, s)) => {
                let name = text_of(nodes[1].properties.value);
                let prim = text_of(nodes[0].properties.value);
                if frame < s.scopes.frames.len() && can_insert(
                    s.scopes.frames[frame as int].table,
                    name,
                ) {
                    Some(
                        (
                            plain(nodes),
                            ParseState {
                                pos: s.pos,
                                scopes: bind_in(s.scopes, frame, name, prim, true),
                            },
                        ),
                    )
                } else {
                    None
                }
            },
            None => None,
        }
    }
}

/// `args := (primitive identifier ',')*`, closed by a `)` that is not read.
pub open spec fn arguments(toks: Seq<TokenModel>, st: ParseState, frame: nat) -> Outcome
    decreases remaining(toks.len(), st.pos), 3 * rule_rank(NodeType::Arguments) + 1, 0nat,
{
    match derive_steps(
        seq![
            Step::Rule(NodeType::Primitive),
            Step::Rule(NodeType::Identifier),
            Step::Literal(NodeType::Separator, ","),
            Step::Rule(NodeType::Arguments),
        ],
        toks,
        st,
        frame,
        st.pos,
        rule_rank(NodeType::Arguments),
    ) {
        Some((nodes, s)) => Some((plain(nodes), s)),
        None => if has_text(toks, st.pos, ")"@) {
            Some((plain(Seq::empty()), st))
        } else {
            None
        },
    }
}

/// The statements of a body and how many of them declare a variable.
pub type Statements = Option<(Seq<NodeModel>, nat, ParseState)>;

/// `nodes` and `count` put in front of what `rest` holds.
pub open spec fn prepend(nodes: Seq<NodeModel>, count: nat, rest: Statements) -> Statements {
    match rest {
        Some((more, n, s)) => Some((nodes + more, count + n, s)),
        None => None,
    }
}

/// Whether a statement node declares a variable.
pub open spec fn declares(p: Production) -> nat {
    if p.properties.var_alloc is Some {
        1
    } else {
        0
    }
}

/// Statements up to a `}` that is not read. Each statement must match and
/// must read at least one token.
pub open spec fn statements(toks: Seq<TokenModel>, st: ParseState, frame: nat) -> Statements
    decreases remaining(toks.len(), st.pos), 3 * rule_rank(NodeType::Body), 0nat,
{
    if st.pos >= toks.len() {
        None
    } else if toks[st.pos as int].text == "}"@ {
        Some((Seq::empty(), 0, st))
    } else {
        match rule(NodeType::Statement, toks, st, frame) {
            Some((p, s)) => if s.pos > st.pos {
                prepend(
                    seq![filled(NodeType::Statement, p)],
                    declares(p),
                    statements(toks, s, frame),
                )
            } else {
                None
            },
            None => None,
        }
    }
}

/// `body := statement*`, closed by a `}`. The number of declarations among
/// the statements becomes the attribute `var_alloc`.
pub open spec fn body(toks: Seq<TokenModel>, st: ParseState, frame: nat) -> Outcome
    decreases remaining(toks.len(), st.pos), 3 * rule_rank(NodeType::Body) + 1, 0nat,
{
    match statements(toks, st, frame) {
        Some((nodes, count, s)) => Some(
            (
                Production {
                    children: nodes,
                    properties: PropertiesModel {
                        var_alloc: Some(count as u64),
                        ..no_properties()
                    },
                },
                s,
            ),
        ),
        None => None,
    }
}

/// One rule as a whole production.
pub open spec fn single_rule(
    kind: NodeType,
    toks: Seq<TokenModel>,
    st: ParseState,
    frame: nat,
    rank: nat,
) -> Sequence
    decreases remaining(toks.len(), st.pos), 3 * rank, 2nat,
{
    derive_steps(seq![Step::Rule(kind)], toks, st, frame, st.pos, rank)
}

/// `statement := return_stmt | if_stmt | for_stmt | while_stmt | var_decl ';'
/// | call ';' | assignment ';'`, chosen by the first token: a keyword's text,
/// the name of a primitive type, or a text that can start a name. A name
/// followed by `(` is tried as a call first.
pub open spec fn statement(toks: Seq<TokenModel>, st: ParseState, frame: nat) -> Outcome
    decreases remaining(toks.len(), st.pos), 3 * rule_rank(NodeType::Statement) + 1, 0nat,
{
    let rank = rule_rank(NodeType::Statement);
    if st.pos >= toks.len() {
        None
    } else {
        let text = toks[st.pos as int].text;
        if text == "return"@ {
            wrap(single_rule(NodeType::Return_Stmt, toks, st, frame, rank))
        } else if text == "if"@ {
            wrap(single_rule(NodeType::If_Stmt, toks, st, frame, rank))
        } else if text == "for"@ {
            wrap(single_rule(NodeType::For_Stmt, toks, st, frame, rank))
        } else if text == "while"@ {
            wrap(single_rule(NodeType::While_Stmt, toks, st, frame, rank))
        } else if primitive_text(text) {
            match derive_steps(
                seq![Step::Rule(NodeType::VarDecl), Step::Literal(NodeType::Separator, ";")],
                toks,
                st,
                frame,
                st.pos,
                rank,
            ) {
                Some((nodes, s)) => Some(
                    (
                        Production {
                            children: seq![nodes[0]],
                            properties: PropertiesModel { var_alloc: Some(1), ..no_properties() },
                        },
                        s,
                    ),
                ),
                None => None,
            }
        } else if identifier_text(text) {
            let call = if has_text(toks, st.pos + 1, "("@) {
                derive_steps(
                    seq![Step::Rule(NodeType::Func_Call), Step::Literal(NodeType::Separator, ";")],
                    toks,
                    st,
                    frame,
                    st.pos,
                    rank,
                )
            } else {
                None
            };
            match call {
                Some((nodes, s)) => Some((plain(nodes), s)),
                None => wrap(
                    derive_steps(
                        seq![
                            Step::Rule(NodeType::Assign_Expr),
                            Step::Literal(NodeType::Separator, ";"),
                        ],
                        toks,
                        st,
                        frame,
                        st.pos,
                        rank,
                    ),
                ),
            }
        } else {
            None
        }
    }
}

/// `var_decl := primitive identifier ['=' expr]`. Where the token behind the
/// type can start a name, that name is declared in `frame` with the type
/// before the rest is read; where `frame` has the name already, the
/// production does not match. With an initialiser the second child is the
/// assignment, without one the name.
pub open spec fn var_decl(toks: Seq<TokenModel>, st: ParseState, frame: nat) -> Outcome
    decreases remaining(toks.len(), st.pos), 3 * rule_rank(NodeType::VarDecl) + 1, 0nat,
{
    match terminal(TokenType::Primitive, toks, st) {
        Some((p, s1)) => {
            let prim_node = filled(NodeType::Primitive, p);
            let prim = text_of(p.properties.value);
            let named = s1.pos < toks.len() && identifier_text(toks[s1.pos as int].text);
            let name = if named {
                toks[s1.pos as int].text
            } else {
                Seq::empty()
            };
            if named && !(frame < s1.scopes.frames.len() && can_insert(
                s1.scopes.frames[frame as int].table,
                name,
            )) {
                None
            } else {
                let s2 = if named {
                    ParseState {
                        pos: s1.pos,
                        scopes: bind_in(s1.scopes, frame, name, prim, false),
                    }
                } else {
                    s1
                };
                match derive_steps(
                    seq![Step::Rule(NodeType::Assign_Expr)],
                    toks,
                    s2,
                    frame,
                    st.pos,
                    rule_rank(NodeType::VarDecl),
                ) {
                    Some((nodes, s3)) => Some(
                        (
                            Production {
                                children: seq![prim_node, nodes[0]],
                                properties: PropertiesModel {
                                    identifier: nodes[0].properties.identifier,
                                    ..no_properties()
                                },
                            },
                            s3,
                        ),
                    ),
                    None => match terminal(TokenType::Identifier, toks, s2) {
                        Some((ip, s3)) => Some(
                            (
                                Production {
                                    children: seq![prim_node, filled(NodeType::Identifier, ip)],
                                    properties: PropertiesModel {
                                        value: Some("0"@),
                                        identifier: ip.properties.value,
                                        ..no_properties()
                                    },
                                },
                                s3,
                            ),
                        ),
                        None => None,
                    },
                }
            }
        },
        None => None,
    }
}

/// `return_stmt := 'return' arith_expr ';'`.
pub open spec fn ret_stmt(toks: Seq<TokenModel>, st: ParseState, frame: nat) -> Outcome
    decreases remaining(toks.len(), st.pos), 3 * rule_rank(NodeType::Return_Stmt) + 1, 0nat,
{
    wrap(
        derive_steps(
            seq![
                Step::Literal(NodeType::Keyword, "return"),
                Step::Rule(NodeType::Arith_Expr),
                Step::Literal(NodeType::Separator, ";"),
            ],
            toks,
            st,
            frame,
            st.pos,
            rule_rank(NodeType::Return_Stmt),
        ),
    )
}

/// The ordinal at which a block inside `frame` goes on counting.
pub open spec fn running_ordinal(scopes: ScopeTreeModel, frame: nat) -> i32 {
    scopes.frames[frame as int].table.ordinal
}

/// `keyword '(' cond_expr ')' '{' body '}'`, parsed in a new child frame of
/// `frame` that goes on counting where `frame` stands.
pub open spec fn block(
    keyword: &'static str,
    toks: Seq<TokenModel>,
    st: ParseState,
    frame: nat,
    start: nat,
    rank: nat,
) -> Sequence
    decreases remaining(toks.len(), start), 3 * rank, 8nat,
{
    if !can_enter(st.scopes, frame) {
        None
    } else {
        derive_steps(
            seq![
                Step::Literal(NodeType::Keyword, keyword),
                Step::Literal(NodeType::Separator, "("),
                Step::Rule(NodeType::Condition_Expr),
                Step::Literal(NodeType::Separator, ")"),
                Step::Literal(NodeType::Separator, "{"),
                Step::Rule(NodeType::Body),
                Step::Literal(NodeType::Separator, "}"),
            ],
            toks,
            entered(st, frame, running_ordinal(st.scopes, frame)),
            st.scopes.frames.len(),
            start,
            rank,
        )
    }
}

/// A block and, in `frame` again, the alternatives that follow it.
pub open spec fn block_and_tail(
    keyword: &'static str,
    toks: Seq<TokenModel>,
    st: ParseState,
    frame: nat,
    rank: nat,
) -> Outcome
    decreases remaining(toks.len(), st.pos), 3 * rank, 9nat,
{
    match block(keyword, toks, st, frame, st.pos, rank) {
        Some((nodes, s1)) => match derive_steps(
            seq![Step::Rule(NodeType::Elif_Stmt)],
            toks,
            s1,
            frame,
            st.pos,
            rank,
        ) {
            Some((more, s2)) => Some((plain(nodes + more), s2)),
            None => None,
        },
        None => None,
    }
}

/// `if_stmt := 'if' '(' cond_expr ')' '{' body '}' elif_tail`.
pub open spec fn if_stmt(toks: Seq<TokenModel>, st: ParseState, frame: nat) -> Outcome
    decreases remaining(toks.len(), st.pos), 3 * rule_rank(NodeType::If_Stmt) + 1, 0nat,
{
    block_and_tail("if", toks, st, frame, rule_rank(NodeType::If_Stmt))
}

/// `elif_tail := 'elif' '(' cond_expr ')' '{' body '}' elif_tail | else_tail
/// | empty`, chosen by the text of the next token.
pub open spec fn elif_stmt(toks: Seq<TokenModel>, st: ParseState, frame: nat) -> Outcome
    decreases remaining(toks.len(), st.pos), 3 * rule_rank(NodeType::Elif_Stmt) + 1, 0nat,
{
    if has_text(toks, st.pos, "else"@) {
        wrap(
            single_rule(NodeType::Else_Stmt, toks, st, frame, rule_rank(NodeType::Elif_Stmt)),
        )
    } else if has_text(toks, st.pos, "elif"@) {
        block_and_tail("elif", toks, st, frame, rule_rank(NodeType::Elif_Stmt))
    } else {
        Some((plain(Seq::empty()), st))
    }
}

/// `else_tail := 'else' '{' body '}' | empty`. The body is parsed in a new
/// child frame of `frame`.
pub open spec fn else_stmt(toks: Seq<TokenModel>, st: ParseState, frame: nat) -> Outcome
    decreases remaining(toks.len(), st.pos), 3 * rule_rank(NodeType::Else_Stmt) + 1, 0nat,
{
    if has_text(toks, st.pos, "else"@) {
        if !can_enter(st.scopes, frame) {
            None
        } else {
            wrap(
                derive_steps(
                    seq![
                        Step::Literal(NodeType::Keyword, "else"),
                        Step::Literal(NodeType::Separator, "{"),
                        Step::Rule(NodeType::Body),
                        Step::Literal(NodeType::Separator, "}"),
                    ],
                    toks,
                    entered(st, frame, running_ordinal(st.scopes, frame)),
                    st.scopes.frames.len(),
                    st.pos,
                    rule_rank(NodeType::Else_Stmt),
                ),
            )
        }
    } else {
        Some((plain(Seq::empty()), st))
    }
}

/// `while_stmt := 'while' '(' cond_expr ')' '{' body '}'`.
pub open spec fn while_stmt(toks: Seq<TokenModel>, st: ParseState, frame: nat) -> Outcome
    decreases remaining(toks.len(), st.pos), 3 * rule_rank(NodeType::While_Stmt) + 1, 0nat,
{
    wrap(block("while", toks, st, frame, st.pos, rule_rank(NodeType::While_Stmt)))
}

/// `for_stmt := 'for' '(' opt_expr ';' opt_expr ';' opt_expr ')' '{' body
/// '}'`, parsed in a new child frame of `frame`.
pub open spec fn for_stmt(toks: Seq<TokenModel>, st: ParseState, frame: nat) -> Outcome
    decreases remaining(toks.len(), st.pos), 3 * rule_rank(NodeType::For_Stmt) + 1, 0nat,
{
    if !can_enter(st.scopes, frame) {
        None
    } else {
        wrap(
            derive_steps(
                seq![
                    Step::Literal(NodeType::Keyword, "for"),
                    Step::Literal(NodeType::Separator, "("),
                    Step::Rule(NodeType::Optional_Expr),
                    Step::Literal(NodeType::Separator, ";"),
                    Step::Rule(NodeType::Optional_Expr),
                    Step::Literal(NodeType::Separator, ";"),
                    Step::Rule(NodeType::Optional_Expr),
                    Step::Literal(NodeType::Separator, ")"),
                    Step::Literal(NodeType::Separator, "{"),
                    Step::Rule(NodeType::Body),
                    Step::Literal(NodeType::Separator, "}"),
                ],
                toks,
                entered(st, frame, running_ordinal(st.scopes, frame)),
                st.scopes.frames.len(),
                st.pos,
                rule_rank(NodeType::For_Stmt),
            ),
        )
    }
}

/// `cond_expr := or_expr | relational_expr`.
pub open spec fn cond_expr(toks: Seq<TokenModel>, st: ParseState, frame: nat) -> Outcome
    decreases remaining(toks.len(), st.pos), 3 * rule_rank(NodeType::Condition_Expr) + 1, 0nat,
{
    let rank = rule_rank(NodeType::Condition_Expr);
    match single_rule(NodeType::Or_Expr, toks, st, frame, rank) {
        Some((nodes, s)) => Some((plain(nodes), s)),
        None => wrap(single_rule(NodeType::Relational_Expr, toks, st, frame, rank)),
    }
}

/// `expr := cond_expr | arith_expr`.
pub open spec fn expression(toks: Seq<TokenModel>, st: ParseState, frame: nat) -> Outcome
    decreases remaining(toks.len(), st.pos), 3 * rule_rank(NodeType::Expression) + 1, 0nat,
{
    let rank = rule_rank(NodeType::Expression);
    match single_rule(NodeType::Condition_Expr, toks, st, frame, rank) {
        Some((nodes, s)) => Some((plain(nodes), s)),
        None => wrap(single_rule(NodeType::Arith_Expr, toks, st, frame, rank)),
    }
}

/// `opt_expr := var_decl | assignment | expr | empty`, the empty one only in
/// front of a separator.
pub open spec fn optional_expr(toks: Seq<TokenModel>, st: ParseState, frame: nat) -> Outcome
    decreases remaining(toks.len(), st.pos), 3 * rule_rank(NodeType::Optional_Expr) + 1, 0nat,
{
    let rank = rule_rank(NodeType::Optional_Expr);
    match single_rule(NodeType::VarDecl, toks, st, frame, rank) {
        Some((nodes, s)) => Some((plain(nodes), s)),
        None => match single_rule(NodeType::Assign_Expr, toks, st, frame, rank) {
            Some((nodes, s)) => Some((plain(nodes), s)),
            None => match single_rule(NodeType::Expression, toks, st, frame, rank) {
                Some((nodes, s)) => Some((plain(nodes), s)),
                None => if st.pos < toks.len() && separator_text(toks[st.pos as int].text) {
                    Some((plain(Seq::empty()), st))
                } else {
                    None
                },
            },
        },
    }
}

/// The rule that the right-hand side of an assignment to a variable of type
/// `prim` follows.
pub open spec fn right_hand_side(prim: Seq<char>) -> NodeType {
    if prim == "int"@ {
        NodeType::Arith_Expr
    } else if prim == "bool"@ {
        NodeType::Or_Expr
    } else {
        NodeType::Arith_Expr
    }
}

/// `assignment := identifier '=' expr`. The name must be declared in
/// `frame` or around it; its type chooses the rule of the right-hand side.
pub open spec fn assign_expr(toks: Seq<TokenModel>, st: ParseState, frame: nat) -> Outcome
    decreases remaining(toks.len(), st.pos), 3 * rule_rank(NodeType::Assign_Expr) + 1, 0nat,
{
    match terminal(TokenType::Identifier, toks, st) {
        Some((ip, s1)) => {
            let name = text_of(ip.properties.value);
            match lookup_in(s1.scopes, frame, name) {
                Some(symbol) => if has_text(toks, s1.pos, "="@) {
                    match derive_steps(
                        seq![
                            Step::Rule(NodeType::Operator),
                            Step::Rule(right_hand_side(symbol.primitive)),
                        ],
                        toks,
                        s1,
                        frame,
                        st.pos,
                        rule_rank(NodeType::Assign_Expr),
                    ) {
                        Some((nodes, s2)) => Some(
                            (
                                Production {
                                    children: seq![filled(NodeType::Identifier, ip)] + nodes,
                                    properties: PropertiesModel {
                                        identifier: Some(name),
                                        ..no_properties()
                                    },
                                },
                                s2,
                            ),
                        ),
                        None => None,
                    }
                } else {
                    None
                },
                None => None,
            }
        },
        None => None,
    }
}

/// `function_call := identifier '(' call_args ')'`. The node takes the
/// number of arguments from its third child and the name from its first.
pub open spec fn func_call(toks: Seq<TokenModel>, st: ParseState, frame: nat) -> Outcome
    decreases remaining(toks.len(), st.pos), 3 * rule_rank(NodeType::Func_Call) + 1, 0nat,
{
    match derive_steps(
        seq![
            Step::Rule(NodeType::Identifier),
            Step::Literal(NodeType::Separator, "("),
            Step::Rule(NodeType::Call_Args),
            Step::Literal(NodeType::Separator, ")"),
        ],
        toks,
        st,
        frame,
        st.pos,
        rule_rank(NodeType::Func_Call),
    ) {
        Some((nodes, s)) => Some(
            (
                Production {
                    children: nodes,
                    properties: PropertiesModel {
                        arguments: nodes[2].properties.arguments,
                        identifier: nodes[0].properties.value,
                        ..no_properties()
                    },
                },
                s,
            ),
        ),
        None => None,
    }
}

/// A production with `children` and the number of arguments `count`.
pub open spec fn counted(children: Seq<NodeModel>, count: u32) -> Production {
    Production {
        children: children,
        properties: PropertiesModel { arguments: Some(count), ..no_properties() },
    }
}

/// `call_args := (expr (',' call_args)?)?`, closed by a `)` that is not
/// read. The attribute `arguments` counts the expressions; a count that
/// would not fit it does not match.
pub open spec fn call_args(toks: Seq<TokenModel>, st: ParseState, frame: nat) -> Outcome
    decreases remaining(toks.len(), st.pos), 3 * rule_rank(NodeType::Call_Args) + 1, 0nat,
{
    let rank = rule_rank(NodeType::Call_Args);
    if has_text(toks, st.pos, ")"@) {
        Some((counted(Seq::empty(), 0), st))
    } else {
        match single_rule(NodeType::Expression, toks, st, frame, rank) {
            Some((nodes, s1)) => if has_text(toks, s1.pos, ")"@) {
                Some((counted(nodes, 1), s1))
            } else {
                match derive_steps(
                    seq![Step::Literal(NodeType::Separator, ","), Step::Rule(NodeType::Call_Args)],
                    toks,
                    s1,
                    frame,
                    st.pos,
                    rank,
                ) {
                    Some((more, s2)) => match more[1].properties.arguments {
                        Some(n) => if n < u32::MAX {
                            Some((counted(nodes + more, (n + 1) as u32), s2))
                        } else {
                            None
                        },
                        None => None,
                    },
                    None => None,
                }
            },
            None => None,
        }
    }
}

/// A production with `children` that reduces to the operand `terminal`.
pub open spec fn reduced(children: Seq<NodeModel>, terminal: Option<Seq<char>>) -> Production {
    Production {
        children: children,
        properties: PropertiesModel { terminal: terminal, ..no_properties() },
    }
}

/// Whether a symbol of type `prim` can stand as an operand. The result of a
/// call inside arithmetic must be an `int`.
pub open spec fn operand_type(prim: Seq<char>, int_only: bool) -> bool {
    prim == "int"@ || (!int_only && prim == "bool"@)
}

/// A call as an operand: a name with a `(` behind it, parsed as a call
/// whose name is declared with a fitting type.
pub open spec fn called_operand(
    toks: Seq<TokenModel>,
    st: ParseState,
    frame: nat,
    start: nat,
    rank: nat,
    call_int_only: bool,
) -> Outcome
    decreases remaining(toks.len(), start), 3 * rank, 2nat,
{
    if has_text(toks, st.pos + 1, "("@) {
        match derive_steps(seq![Step::Rule(NodeType::Func_Call)], toks, st, frame, start, rank) {
            Some((nodes, s)) => match lookup_in(
                s.scopes,
                frame,
                text_of(nodes[0].properties.identifier),
            ) {
                Some(symbol) => if operand_type(symbol.primitive, call_int_only) {
                    Some((reduced(nodes, nodes[0].properties.identifier), s))
                } else {
                    None
                },
                None => None,
            },
            None => None,
        }
    } else {
        None
    }
}

/// A plain name as an operand: an identifier declared as `int` or `bool`.
pub open spec fn variable_operand(toks: Seq<TokenModel>, st: ParseState, frame: nat) -> Outcome {
    match terminal(TokenType::Identifier, toks, st) {
        Some((ip, s)) => match lookup_in(s.scopes, frame, text_of(ip.properties.value)) {
            Some(symbol) => if operand_type(symbol.primitive, false) {
                Some(
                    (
                        reduced(
                            seq![filled(NodeType::Identifier, ip)],
                            Some(text_of(ip.properties.value)),
                        ),
                        s,
                    ),
                )
            } else {
                None
            },
            None => None,
        },
        None => None,
    }
}

/// An operand that starts with a name: a call, where that matches, else a
/// plain name.
pub open spec fn named_operand(
    toks: Seq<TokenModel>,
    st: ParseState,
    frame: nat,
    start: nat,
    rank: nat,
    call_int_only: bool,
) -> Outcome
    decreases remaining(toks.len(), start), 3 * rank, 3nat,
{
    match called_operand(toks, st, frame, start, rank, call_int_only) {
        Some(found) => Some(found),
        None => variable_operand(toks, st, frame),
    }
}

/// `factor := constant | identifier | function_call`.
pub open spec fn arith_factor(toks: Seq<TokenModel>, st: ParseState, frame: nat) -> Outcome
    decreases remaining(toks.len(), st.pos), 3 * rule_rank(NodeType::Arith_Factor) + 1, 0nat,
{
    match terminal(TokenType::Constant, toks, st) {
        Some((cp, s)) => Some(
            (reduced(seq![filled(NodeType::Constant, cp)], cp.properties.value), s),
        ),
        None => if st.pos < toks.len() && identifier_text(toks[st.pos as int].text) {
            named_operand(toks, st, frame, st.pos, rule_rank(NodeType::Arith_Factor), true)
        } else {
            None
        },
    }
}

/// The number that a keyword stands for as an operand: `0` for `false`, `1`
/// for any other.
pub open spec fn keyword_operand(text: Seq<char>) -> Seq<char> {
    if text == "false"@ {
        "0"@
    } else {
        "1"@
    }
}

/// The operand of a `not_expr`: a keyword, a named operand or a constant.
pub open spec fn boolean_operand(
    toks: Seq<TokenModel>,
    st: ParseState,
    frame: nat,
    start: nat,
    rank: nat,
) -> Outcome
    decreases remaining(toks.len(), start), 3 * rank, 4nat,
{
    match terminal(TokenType::Keyword, toks, st) {
        Some((kp, s)) => Some(
            (
                reduced(
                    seq![filled(NodeType::Keyword, kp)],
                    Some(keyword_operand(text_of(kp.properties.value))),
                ),
                s,
            ),
        ),
        None => if st.pos < toks.len() && identifier_text(toks[st.pos as int].text) {
            named_operand(toks, st, frame, start, rank, false)
        } else {
            match terminal(TokenType::Constant, toks, st) {
                Some((cp, s)) => Some(
                    (reduced(seq![filled(NodeType::Constant, cp)], cp.properties.value), s),
                ),
                None => None,
            }
        },
    }
}

/// `not_expr := '!'? operand`. A `!` in front sets the attribute `unary`.
pub open spec fn not_expr(toks: Seq<TokenModel>, st: ParseState, frame: nat) -> Outcome
    decreases remaining(toks.len(), st.pos), 3 * rule_rank(NodeType::Not_Expr) + 1, 0nat,
{
    let rank = rule_rank(NodeType::Not_Expr);
    let negation = literal(TokenType::Operator, "!"@, toks, st);
    match negation {
        Some((np, s0)) => match boolean_operand(toks, s0, frame, st.pos, rank) {
            Some((p, s)) => Some(
                (
                    Production {
                        children: seq![filled(NodeType::Operator, np)] + p.children,
                        properties: PropertiesModel { unary: true, ..p.properties },
                    },
                    s,
                ),
            ),
            None => None,
        },
        None => boolean_operand(toks, st, frame, st.pos, rank),
    }
}

/// One level of the precedence cascade: an operand of the next level and
/// the tail of this one. The node reduces to what its operand reduces to.
pub open spec fn level(
    toks: Seq<TokenModel>,
    st: ParseState,
    frame: nat,
    operand: NodeType,
    tail_kind: NodeType,
) -> Outcome
    decreases remaining(toks.len(), st.pos), 3 * (rule_rank(operand) + 1) + 1, 0nat,
{
    match derive_steps(
        seq![Step::Rule(operand), Step::Rule(tail_kind)],
        toks,
        st,
        frame,
        st.pos,
        rule_rank(operand) + 1,
    ) {
        Some((nodes, s)) => Some((reduced(nodes, nodes[0].properties.terminal), s)),
        None => None,
    }
}

/// The empty tail: at the end of the input, or in front of a separator or an
/// operator.
pub open spec fn closes(toks: Seq<TokenModel>, pos: nat) -> bool {
    pos >= toks.len() || separator_text(toks[pos as int].text) || operator_text(
        toks[pos as int].text,
    )
}

/// The tail of one level: one of the level's operators, an operand and a
/// further tail, or nothing. The node takes the operator's text as its
/// attribute `operator`.
pub open spec fn tail(
    toks: Seq<TokenModel>,
    st: ParseState,
    frame: nat,
    operand: NodeType,
    tail_kind: NodeType,
    operators: Seq<Seq<char>>,
) -> Outcome
    decreases remaining(toks.len(), st.pos), 3 * rule_rank(tail_kind) + 1, 0nat,
{
    let continued = if st.pos < toks.len() && operators.contains(toks[st.pos as int].text) {
        derive_steps(
            seq![Step::Rule(NodeType::Operator), Step::Rule(operand), Step::Rule(tail_kind)],
            toks,
            st,
            frame,
            st.pos,
            rule_rank(tail_kind),
        )
    } else {
        None
    };
    match continued {
        Some((nodes, s)) => Some(
            (
                Production {
                    children: nodes,
                    properties: PropertiesModel {
                        operator: nodes[0].properties.value,
                        ..no_properties()
                    },
                },
                s,
            ),
        ),
        None => if closes(toks, st.pos) {
            Some((plain(Seq::empty()), st))
        } else {
            None
        },
    }
}

} // verus!
