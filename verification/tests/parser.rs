use c_compiler::expression::{
    parse_and_expr, parse_and_subexpr, parse_arith_expr, parse_arith_factor, parse_arith_subexpr,
    parse_arith_subterm, parse_arith_term, parse_assign_expr, parse_call_args, parse_cond_expr,
    parse_equality_expr, parse_equality_subexpr, parse_expr, parse_func_call, parse_not_expr,
    parse_optional_expr, parse_or_epxr, parse_or_subepxr, parse_relational_expr,
    parse_relational_subexpr, semantic_check,
};
use c_compiler::grammar::Step;
use c_compiler::parse::{
    get_current_token_index, next_token_index, parse, parse_arguments, parse_func_decl,
    parse_literal, parse_other_decl, parse_start_node, parse_steps, parse_terminal,
    prev_token_index, rank_of, ParseContext,
};
use c_compiler::statement::{
    handle_elif_block, handle_if_block, parse_body, parse_elif_stmt, parse_else_stmt,
    parse_for_stmt, parse_if_stmt, parse_ret_stmt, parse_statement, parse_var_decl,
    parse_while_stmt,
};
use c_compiler::symbol_table::TreeMethods;
use c_compiler::syntax::{create_node, Node, NodeType};
use c_compiler::token::{Token, TokenType};

type Production = fn(&mut Node, &Vec<Token>, &mut ParseContext, usize) -> bool;

fn classify(text: &str) -> Token {
    let kind = match text {
        "(" | ")" | "{" | "}" | ";" | "," => TokenType::Separator,
        "if" | "elif" | "else" | "while" | "for" | "return" | "true" | "false" => {
            TokenType::Keyword
        }
        "int" | "bool" | "char" | "float" => TokenType::Primitive,
        "+" | "-" | "*" | "/" | "=" | "==" | "!=" | "<" | ">" | "<=" | ">=" | "&&" | "||"
        | "!" => TokenType::Operator,
        _ => {
            if text.chars().next().unwrap().is_ascii_digit() {
                TokenType::Constant
            } else {
                TokenType::Identifier
            }
        }
    };
    Token { token_type: kind, val: text.to_string() }
}

fn tokens(source: &str) -> Vec<Token> {
    source.split_whitespace().map(classify).collect()
}

/// A context whose root frame declares `a` and `b` as `int`, `flag` as
/// `bool`, `c` as `char`, and the functions `f` (`int`) and `p` (`bool`).
fn context() -> ParseContext {
    let mut ctx = ParseContext::new(1);
    for (name, prim, func) in [
        ("a", "int", false),
        ("b", "int", false),
        ("flag", "bool", false),
        ("c", "char", false),
        ("f", "int", true),
        ("p", "bool", true),
    ] {
        ctx.scopes.bind(0, &name.to_string(), &prim.to_string(), func);
    }
    ctx
}

/// The tree as text: the type of each node, the value of a terminal behind a
/// colon, and the children in brackets.
fn shape(node: &Node) -> String {
    let mut text = format!("{:?}", node.node_type);
    if let Some(value) = &node.properties.value {
        if node.children.is_empty() {
            text.push(':');
            text.push_str(value);
        }
    }
    if !node.children.is_empty() {
        let children: Vec<String> = node.children.iter().map(shape).collect();
        text.push('[');
        text.push_str(&children.join(" "));
        text.push(']');
    }
    text
}

fn run(kind: NodeType, source: &str) -> (bool, Node, ParseContext, usize) {
    let toks = tokens(source);
    let mut ctx = context();
    let mut node = create_node(kind);
    let ok = parse(&mut node, &toks, &mut ctx, 0);
    (ok, node, ctx, toks.len())
}

fn accepts(kind: NodeType, source: &str) -> Node {
    let (ok, node, ctx, len) = run(kind, source);
    assert!(ok, "{:?} does not match {:?}", kind, source);
    assert_eq!(ctx.cursor, len, "{:?} stops early in {:?}", kind, source);
    node
}

fn rejects(kind: NodeType, source: &str) {
    let before = context();
    let (ok, node, ctx, _) = run(kind, source);
    assert!(!ok, "{:?} matches {:?}", kind, source);
    assert_eq!(ctx.cursor, 0, "{:?} leaves the cursor moved on {:?}", kind, source);
    assert!(node.children.is_empty());
    assert!(node.properties.terminal.is_none());
    assert!(node.properties.identifier.is_none());
    assert!(node.properties.operator.is_none());
    assert!(!node.properties.unary);
    assert_eq!(ctx.scopes.len(), before.scopes.len());
    assert_eq!(
        ctx.scopes.nodes[0].table.symbol_table.len(),
        before.scopes.nodes[0].table.symbol_table.len()
    );
    assert_eq!(ctx.scopes.nodes[0].table.ordinal, before.scopes.nodes[0].table.ordinal);
    assert!(ctx.scopes.nodes[0].children.is_empty());
}

#[test]
fn multiplication_nests_inside_the_right_operand_of_addition() {
    let node = accepts(NodeType::Arith_Expr, "2 + 3 * 4");
    assert_eq!(
        shape(&node),
        "Arith_Expr[\
         Arith_Term[Arith_Factor[Constant:2] Arith_Subterm] \
         Arith_Subexpr[Operator:+ \
         Arith_Term[Arith_Factor[Constant:3] \
         Arith_Subterm[Operator:* Arith_Factor[Constant:4] Arith_Subterm]] \
         Arith_Subexpr]]"
    );
    assert_eq!(node.properties.terminal.as_deref(), Some("2"));
    let tail = &node.children[1];
    assert_eq!(tail.properties.operator.as_deref(), Some("+"));
    let product = &tail.children[1];
    assert_eq!(product.properties.terminal.as_deref(), Some("3"));
    assert_eq!(product.children[1].properties.operator.as_deref(), Some("*"));
}

#[test]
fn multiplication_first_stays_on_the_left() {
    let node = accepts(NodeType::Arith_Expr, "2 * 3 + 4");
    assert_eq!(
        shape(&node),
        "Arith_Expr[\
         Arith_Term[Arith_Factor[Constant:2] \
         Arith_Subterm[Operator:* Arith_Factor[Constant:3] Arith_Subterm]] \
         Arith_Subexpr[Operator:+ Arith_Term[Arith_Factor[Constant:4] Arith_Subterm] \
         Arith_Subexpr]]"
    );
}

#[test]
fn failed_production_restores_the_cursor() {
    // Each of these fails only after sub-productions have read tokens.
    rejects(NodeType::Return_Stmt, "return 1 + ;");
    rejects(NodeType::Return_Stmt, "return 1 + 2");
    rejects(NodeType::Func_Call, "f ( 1 , 2");
    rejects(NodeType::Func_Call, "f ( 1 ; )");
    rejects(NodeType::Assign_Expr, "a = ;");
    rejects(NodeType::Assign_Expr, "a + 1");
    rejects(NodeType::Assign_Expr, "undeclared = 1");
    rejects(NodeType::VarDecl, "int 5");
    rejects(NodeType::VarDecl, "int a");
    rejects(NodeType::Statement, "int x = ;");
    rejects(NodeType::Statement, "a = 1");
    rejects(NodeType::Statement, "f ( ) }");
    rejects(NodeType::If_Stmt, "if ( a ) { a = 1 ; ");
    rejects(NodeType::If_Stmt, "if ( a ) { int t = 1 ; } else { a = ; }");
    rejects(NodeType::While_Stmt, "while ( a < ) { }");
    rejects(NodeType::While_Stmt, "while ( a ) { int t ; int u ; return }");
    rejects(NodeType::For_Stmt, "for ( int i = 0 ; i < 3 ; i = i + 1 ) { a = i ; ");
    rejects(NodeType::Func_Decl, "int g ( ) { int t ; t = 1 ; return t }");
    rejects(NodeType::Func_Decl, "int f ( ) { return 1 ; }");
    rejects(NodeType::Body, "a = 1 ; b = 2 ; c");
    rejects(NodeType::Program_Start, "int g ( ) { return 1 ; } int");
    rejects(NodeType::Not_Expr, "! ;");
    rejects(NodeType::Not_Expr, "! c");
    rejects(NodeType::Arith_Factor, "c");
    rejects(NodeType::Arith_Factor, "undeclared ( )");
    rejects(NodeType::Arith_Factor, "undeclared");
    rejects(NodeType::Arith_Expr, "* 2");
    rejects(NodeType::Arith_Expr, "1 2");
    rejects(NodeType::Call_Args, "1 , 2 ;");
    rejects(NodeType::Arguments, "int a , int ;");
    rejects(NodeType::Optional_Expr, "a b");
    rejects(NodeType::Expression, "+");
    rejects(NodeType::Condition_Expr, ")");
}

#[test]
fn failed_production_restores_a_cursor_in_the_middle() {
    let toks = tokens("a = 1 ; return 1 + ;");
    let mut ctx = context();
    ctx.cursor = 4;
    let mut node = create_node(NodeType::Return_Stmt);
    assert!(!parse_ret_stmt(&mut node, &toks, &mut ctx, 0));
    assert_eq!(ctx.cursor, 4);
    assert!(node.children.is_empty());
}

#[test]
fn empty_input_and_cursor_behind_the_end() {
    let toks: Vec<Token> = Vec::new();
    for kind in [
        NodeType::Program_Start,
        NodeType::Func_Decl,
        NodeType::Statement,
        NodeType::Body,
        NodeType::Arith_Expr,
        NodeType::Identifier,
        NodeType::Optional_Expr,
        NodeType::Arguments,
        NodeType::Call_Args,
    ] {
        let mut ctx = context();
        let mut node = create_node(kind);
        assert!(!parse(&mut node, &toks, &mut ctx, 0), "{:?}", kind);
        assert_eq!(ctx.cursor, 0);
    }
    // Tails and alternatives that may be empty match at the end of the input.
    for kind in [
        NodeType::Other_Decl,
        NodeType::Arith_Subexpr,
        NodeType::Arith_Subterm,
        NodeType::Or_Subexpr,
        NodeType::Elif_Stmt,
        NodeType::Else_Stmt,
    ] {
        let mut ctx = context();
        let mut node = create_node(kind);
        assert!(parse(&mut node, &toks, &mut ctx, 0), "{:?}", kind);
        assert_eq!(ctx.cursor, 0);
        assert!(node.children.is_empty());
    }
    let toks = tokens("a");
    let mut ctx = context();
    ctx.cursor = 5;
    let mut node = create_node(NodeType::Statement);
    assert!(!parse(&mut node, &toks, &mut ctx, 0));
    assert_eq!(ctx.cursor, 5);
}

#[test]
fn terminals_match_by_kind() {
    let toks = tokens("int x ( 7 + if");
    let kinds = [
        (NodeType::Primitive, TokenType::Primitive),
        (NodeType::Identifier, TokenType::Identifier),
        (NodeType::Separator, TokenType::Separator),
        (NodeType::Constant, TokenType::Constant),
        (NodeType::Operator, TokenType::Operator),
        (NodeType::Keyword, TokenType::Keyword),
    ];
    let mut ctx = ParseContext::new(1);
    for (index, (kind, token)) in kinds.iter().enumerate() {
        let mut wrong = create_node(*kind);
        let other = if *token == TokenType::Constant {
            TokenType::Identifier
        } else {
            TokenType::Constant
        };
        assert!(!parse_terminal(&mut wrong, &toks, &mut ctx, &other));
        assert_eq!(ctx.cursor, index);
        assert!(wrong.properties.value.is_none());
        let mut node = create_node(*kind);
        assert!(parse(&mut node, &toks, &mut ctx, 0));
        assert_eq!(ctx.cursor, index + 1);
        assert_eq!(node.properties.value.as_deref(), Some(toks[index].val.as_str()));
        assert!(node.children.is_empty());
    }
    let mut node = create_node(NodeType::Keyword);
    assert!(!parse(&mut node, &toks, &mut ctx, 0));
    assert_eq!(ctx.cursor, 6);
}

#[test]
fn literals_match_by_kind_and_text() {
    let toks = tokens("( )");
    let mut ctx = ParseContext::new(1);
    let mut node = create_node(NodeType::Separator);
    assert!(!parse_literal(&mut node, &toks, &mut ctx, &TokenType::Separator, ")"));
    assert!(!parse_literal(&mut node, &toks, &mut ctx, &TokenType::Operator, "("));
    assert_eq!(ctx.cursor, 0);
    assert!(parse_literal(&mut node, &toks, &mut ctx, &TokenType::Separator, "("));
    assert_eq!(ctx.cursor, 1);
    assert_eq!(node.properties.value.as_deref(), Some("("));
}

#[test]
fn cursor_moves_by_one() {
    let mut ctx = ParseContext::new(1);
    assert_eq!(get_current_token_index(&ctx), 0);
    assert_eq!(next_token_index(&mut ctx), 1);
    assert_eq!(next_token_index(&mut ctx), 2);
    assert_eq!(get_current_token_index(&ctx), 2);
    assert_eq!(prev_token_index(&mut ctx), 1);
    assert_eq!(get_current_token_index(&ctx), 1);
}

#[test]
fn steps_yield_one_node_each_or_nothing() {
    let toks = tokens("a = 1 ;");
    let steps = vec![
        Step::Rule(NodeType::Identifier),
        Step::Literal(NodeType::Operator, "="),
        Step::Rule(NodeType::Arith_Expr),
        Step::Literal(NodeType::Separator, ";"),
    ];
    let mut ctx = context();
    let nodes = parse_steps(&steps, &toks, &mut ctx, 0, 0, 9).unwrap();
    assert_eq!(nodes.len(), 4);
    assert_eq!(ctx.cursor, 4);
    assert_eq!(nodes[2].node_type, NodeType::Arith_Expr);
    let mut ctx = context();
    let wrong = vec![Step::Rule(NodeType::Identifier), Step::Literal(NodeType::Operator, "+")];
    assert!(parse_steps(&wrong, &toks, &mut ctx, 0, 0, 9).is_none());
    assert_eq!(ctx.cursor, 0);
    // A rule of the same rank may not start a sequence.
    let mut ctx = context();
    let same_rank = vec![Step::Rule(NodeType::Arith_Expr)];
    let toks = tokens("1");
    assert!(parse_steps(&same_rank, &toks, &mut ctx, 0, 0, rank_of(NodeType::Arith_Expr))
        .is_none());
    assert!(parse_steps(&same_rank, &toks, &mut ctx, 0, 0, rank_of(NodeType::Arith_Expr) + 1)
        .is_some());
}

#[test]
fn ranks_of_the_cascade_grow_upwards() {
    assert_eq!(rank_of(NodeType::Constant), 0);
    assert!(rank_of(NodeType::Func_Call) < rank_of(NodeType::Arith_Factor));
    assert!(rank_of(NodeType::Arith_Factor) < rank_of(NodeType::Arith_Term));
    assert!(rank_of(NodeType::Arith_Term) < rank_of(NodeType::Arith_Expr));
    assert!(rank_of(NodeType::Not_Expr) < rank_of(NodeType::Relational_Expr));
    assert!(rank_of(NodeType::Relational_Expr) < rank_of(NodeType::Equality_Expr));
    assert!(rank_of(NodeType::Equality_Expr) < rank_of(NodeType::And_Expr));
    assert!(rank_of(NodeType::And_Expr) < rank_of(NodeType::Or_Expr));
    assert!(rank_of(NodeType::Or_Expr) < rank_of(NodeType::Condition_Expr));
    assert!(rank_of(NodeType::Condition_Expr) < rank_of(NodeType::Expression));
    assert!(rank_of(NodeType::Expression) < rank_of(NodeType::Call_Args));
    assert!(rank_of(NodeType::Statement) < rank_of(NodeType::Body));
}

#[test]
fn factor_alternatives() {
    let constant = accepts(NodeType::Arith_Factor, "42");
    assert_eq!(shape(&constant), "Arith_Factor[Constant:42]");
    assert_eq!(constant.properties.terminal.as_deref(), Some("42"));
    let name = accepts(NodeType::Arith_Factor, "a");
    assert_eq!(shape(&name), "Arith_Factor[Identifier:a]");
    assert_eq!(name.properties.terminal.as_deref(), Some("a"));
    // A `bool` variable may stand in arithmetic. A call of a `bool` function
    // may not: its name is then read as a plain name.
    assert_eq!(shape(&accepts(NodeType::Arith_Factor, "flag")), "Arith_Factor[Identifier:flag]");
    let (ok, node, ctx, _) = run(NodeType::Arith_Factor, "p ( )");
    assert!(ok);
    assert_eq!(ctx.cursor, 1);
    assert_eq!(shape(&node), "Arith_Factor[Identifier:p]");
    let call = accepts(NodeType::Arith_Factor, "f ( )");
    assert_eq!(
        shape(&call),
        "Arith_Factor[Func_Call[Identifier:f Separator:( Call_Args Separator:)]]"
    );
    assert_eq!(call.properties.terminal.as_deref(), Some("f"));
}

#[test]
fn not_expr_alternatives() {
    let negated = accepts(NodeType::Not_Expr, "! flag");
    assert_eq!(shape(&negated), "Not_Expr[Operator:! Identifier:flag]");
    assert!(negated.properties.unary);
    assert_eq!(negated.properties.terminal.as_deref(), Some("flag"));
    let plain = accepts(NodeType::Not_Expr, "a");
    assert!(!plain.properties.unary);
    assert_eq!(accepts(NodeType::Not_Expr, "true").properties.terminal.as_deref(), Some("1"));
    assert_eq!(accepts(NodeType::Not_Expr, "false").properties.terminal.as_deref(), Some("0"));
    assert_eq!(accepts(NodeType::Not_Expr, "while").properties.terminal.as_deref(), Some("1"));
    assert_eq!(accepts(NodeType::Not_Expr, "7").properties.terminal.as_deref(), Some("7"));
    let call = accepts(NodeType::Not_Expr, "! p ( )");
    assert_eq!(call.children.len(), 2);
    assert_eq!(call.children[1].node_type, NodeType::Func_Call);
    assert_eq!(call.properties.terminal.as_deref(), Some("p"));
    assert!(call.properties.unary);
}

#[test]
fn boolean_cascade() {
    let node = accepts(NodeType::Or_Expr, "a < 2 && flag || b == 1");
    assert_eq!(node.children.len(), 2);
    assert_eq!(node.children[0].node_type, NodeType::And_Expr);
    let or_tail = &node.children[1];
    assert_eq!(or_tail.node_type, NodeType::Or_Subexpr);
    assert_eq!(or_tail.properties.operator.as_deref(), Some("||"));
    let and_tail = &node.children[0].children[1];
    assert_eq!(and_tail.properties.operator.as_deref(), Some("&&"));
    let relational = &node.children[0].children[0].children[0];
    assert_eq!(relational.node_type, NodeType::Relational_Expr);
    assert_eq!(relational.children[1].properties.operator.as_deref(), Some("<"));
    let equality_tail = &or_tail.children[1].children[0].children[1];
    assert_eq!(equality_tail.node_type, NodeType::Equality_Subexpr);
    assert_eq!(equality_tail.properties.operator.as_deref(), Some("=="));
    assert_eq!(node.properties.terminal.as_deref(), Some("a"));
}

#[test]
fn tails_stop_in_front_of_operators_of_other_levels() {
    let (ok, node, ctx, _) = run(NodeType::Arith_Term, "2 + 3");
    assert!(ok);
    assert_eq!(ctx.cursor, 1);
    assert_eq!(shape(&node), "Arith_Term[Arith_Factor[Constant:2] Arith_Subterm]");
    // An operator without an operand behind it is left unread.
    let (ok, node, ctx, _) = run(NodeType::Arith_Expr, "2 + ;");
    assert!(ok);
    assert_eq!(ctx.cursor, 1);
    assert!(node.children[1].children.is_empty());
    // Neither a separator nor an operator nor the end: no tail at all.
    let (ok, _, ctx, _) = run(NodeType::Arith_Subexpr, "x");
    assert!(!ok);
    assert_eq!(ctx.cursor, 0);
}

#[test]
fn every_level_and_its_tail() {
    let levels: [(Production, &str); 6] = [
        (parse_arith_expr, "1 - 2"),
        (parse_arith_term, "1 / 2"),
        (parse_or_epxr, "a || b"),
        (parse_and_expr, "a && b"),
        (parse_equality_expr, "a != b"),
        (parse_relational_expr, "a >= b"),
    ];
    for (production, source) in levels {
        let toks = tokens(source);
        let mut ctx = context();
        let mut node = create_node(NodeType::Expression);
        assert!(production(&mut node, &toks, &mut ctx, 0), "{}", source);
        assert_eq!(ctx.cursor, 3, "{}", source);
        assert_eq!(node.children.len(), 2);
        assert_eq!(node.children[1].children.len(), 3);
        assert_eq!(node.children[1].properties.operator.as_deref(), Some(toks[1].val.as_str()));
    }
    let tails: [(Production, &str, &str); 6] = [
        (parse_arith_subexpr, "+ 1", "* 1"),
        (parse_arith_subterm, "* 1", "+ 1"),
        (parse_or_subepxr, "|| a", "&& a"),
        (parse_and_subexpr, "&& a", "|| a"),
        (parse_equality_subexpr, "== a", "< a"),
        (parse_relational_subexpr, "<= a", "== a"),
    ];
    for (production, own, other) in tails {
        let toks = tokens(own);
        let mut ctx = context();
        let mut node = create_node(NodeType::Arith_Subexpr);
        assert!(production(&mut node, &toks, &mut ctx, 0), "{}", own);
        assert_eq!(ctx.cursor, 2, "{}", own);
        assert_eq!(node.children.len(), 3);
        // The operator of another level ends the tail without being read.
        let toks = tokens(other);
        let mut ctx = context();
        let mut node = create_node(NodeType::Arith_Subexpr);
        assert!(production(&mut node, &toks, &mut ctx, 0), "{}", other);
        assert_eq!(ctx.cursor, 0, "{}", other);
        assert!(node.children.is_empty());
        assert!(node.properties.operator.is_none());
    }
}

#[test]
fn semantic_check_looks_at_the_token_under_the_cursor() {
    let toks = tokens("a + b");
    let wanted = vec!["+".to_string(), "-".to_string()];
    let mut ctx = ParseContext::new(1);
    assert!(!semantic_check(&toks, &ctx, &wanted));
    ctx.cursor = 1;
    assert!(semantic_check(&toks, &ctx, &wanted));
    assert!(!semantic_check(&toks, &ctx, &Vec::new()));
    ctx.cursor = 3;
    assert!(!semantic_check(&toks, &ctx, &wanted));
}

#[test]
fn assignment_chooses_the_rule_of_its_right_hand_side_by_type() {
    let arithmetic = accepts(NodeType::Assign_Expr, "a = b + 1");
    assert_eq!(arithmetic.children.len(), 3);
    assert_eq!(arithmetic.children[2].node_type, NodeType::Arith_Expr);
    assert_eq!(arithmetic.properties.identifier.as_deref(), Some("a"));
    let boolean = accepts(NodeType::Assign_Expr, "flag = a < b || ! flag");
    assert_eq!(boolean.children[2].node_type, NodeType::Or_Expr);
    let other = accepts(NodeType::Assign_Expr, "c = 1");
    assert_eq!(other.children[2].node_type, NodeType::Arith_Expr);
    let toks = tokens("a = 1");
    let mut ctx = context();
    let mut node = create_node(NodeType::Assign_Expr);
    assert!(parse_assign_expr(&mut node, &toks, &mut ctx, 0));
}

#[test]
fn calls_count_their_arguments() {
    for (source, count, children) in [
        ("f ( )", 0, 0),
        ("f ( 1 )", 1, 1),
        ("f ( a , 2 )", 2, 3),
        ("f ( a , b , flag )", 3, 3),
        ("f ( 1 , )", 1, 3),
    ] {
        let call = accepts(NodeType::Func_Call, source);
        assert_eq!(call.properties.arguments, Some(count), "{}", source);
        assert_eq!(call.properties.identifier.as_deref(), Some("f"));
        assert_eq!(call.children.len(), 4);
        assert_eq!(call.children[2].node_type, NodeType::Call_Args);
        assert_eq!(call.children[2].children.len(), children, "{}", source);
    }
    let toks = tokens("1 , 2 )");
    let mut ctx = context();
    let mut node = create_node(NodeType::Call_Args);
    assert!(parse_call_args(&mut node, &toks, &mut ctx, 0));
    assert_eq!(ctx.cursor, 3);
    assert_eq!(node.properties.arguments, Some(2));
    let mut node = create_node(NodeType::Func_Call);
    let toks = tokens("undeclared ( )");
    let mut ctx = context();
    assert!(parse_func_call(&mut node, &toks, &mut ctx, 0));
}

#[test]
fn expression_and_condition_wrap_one_child() {
    let toks = tokens("a < b");
    let mut ctx = context();
    let mut node = create_node(NodeType::Condition_Expr);
    assert!(parse_cond_expr(&mut node, &toks, &mut ctx, 0));
    assert_eq!(ctx.cursor, 3);
    assert_eq!(node.children.len(), 1);
    assert_eq!(node.children[0].node_type, NodeType::Or_Expr);
    let mut ctx = context();
    let mut node = create_node(NodeType::Expression);
    assert!(parse_expr(&mut node, &toks, &mut ctx, 0));
    assert_eq!(node.children[0].node_type, NodeType::Condition_Expr);
}

#[test]
fn optional_expression_alternatives() {
    let declaration = accepts(NodeType::Optional_Expr, "int i = 0");
    assert_eq!(declaration.children[0].node_type, NodeType::VarDecl);
    let assignment = accepts(NodeType::Optional_Expr, "a = 0");
    assert_eq!(assignment.children[0].node_type, NodeType::Assign_Expr);
    let expression = accepts(NodeType::Optional_Expr, "a < 3");
    assert_eq!(expression.children[0].node_type, NodeType::Expression);
    let toks = tokens(";");
    let mut ctx = context();
    let mut node = create_node(NodeType::Optional_Expr);
    assert!(parse_optional_expr(&mut node, &toks, &mut ctx, 0));
    assert_eq!(ctx.cursor, 0);
    assert!(node.children.is_empty());
}

#[test]
fn declaration_binds_its_name_with_the_next_offset() {
    let toks = tokens("bool done = a < 2");
    let mut ctx = context();
    let mut node = create_node(NodeType::VarDecl);
    assert!(parse_var_decl(&mut node, &toks, &mut ctx, 0));
    assert_eq!(ctx.cursor, 6);
    assert_eq!(node.properties.identifier.as_deref(), Some("done"));
    assert_eq!(node.children.len(), 2);
    assert_eq!(node.children[1].node_type, NodeType::Assign_Expr);
    assert_eq!(node.children[1].children[2].node_type, NodeType::Or_Expr);
    let symbol = ctx.scopes.scope_lookup(0, &"done".to_string()).unwrap();
    assert_eq!(symbol.primitive, "bool");
    assert_eq!(symbol.addr, 8 * 7);
    assert!(!symbol.func);
    let plain = accepts(NodeType::VarDecl, "int fresh");
    assert_eq!(shape(&plain), "VarDecl[Primitive:int Identifier:fresh]");
    assert_eq!(plain.properties.value.as_deref(), Some("0"));
    assert_eq!(plain.properties.identifier.as_deref(), Some("fresh"));
}

#[test]
fn declarations_in_one_frame_get_growing_offsets() {
    let toks = tokens("int p ; int q = 1 ; bool r ; int s ; }");
    let mut ctx = ParseContext::new(1);
    let mut node = create_node(NodeType::Body);
    assert!(parse_body(&mut node, &toks, &mut ctx, 0));
    assert_eq!(node.properties.var_alloc, Some(4));
    for (ordinal, name) in ["p", "q", "r", "s"].iter().enumerate() {
        let symbol = ctx.scopes.scope_lookup(0, &name.to_string()).unwrap();
        assert_eq!(symbol.addr, 8 * (ordinal as i32 + 1));
    }
}

#[test]
fn redeclaration_in_the_same_frame_does_not_match() {
    rejects(NodeType::VarDecl, "int a");
    rejects(NodeType::VarDecl, "bool a = true");
    rejects(NodeType::Body, "int t ; int t ; }");
    // A block may declare the name again.
    let node = accepts(NodeType::While_Stmt, "while ( a ) { bool a = true ; a = false ; }");
    assert_eq!(node.children.len(), 7);
}

#[test]
fn statement_alternatives() {
    let declaration = accepts(NodeType::Statement, "int t = 1 ;");
    assert_eq!(declaration.children.len(), 1);
    assert_eq!(declaration.children[0].node_type, NodeType::VarDecl);
    assert_eq!(declaration.properties.var_alloc, Some(1));
    let assignment = accepts(NodeType::Statement, "a = 1 ;");
    assert_eq!(shape(&assignment.children[1]), "Separator:;");
    assert_eq!(assignment.children[0].node_type, NodeType::Assign_Expr);
    assert!(assignment.properties.var_alloc.is_none());
    let call = accepts(NodeType::Statement, "f ( a ) ;");
    assert_eq!(call.children[0].node_type, NodeType::Func_Call);
    for (source, kind) in [
        ("return a ;", NodeType::Return_Stmt),
        ("if ( a ) { }", NodeType::If_Stmt),
        ("while ( a ) { }", NodeType::While_Stmt),
        ("for ( ; ; ) { }", NodeType::For_Stmt),
    ] {
        let node = accepts(NodeType::Statement, source);
        assert_eq!(node.children.len(), 1);
        assert_eq!(node.children[0].node_type, kind);
    }
    let toks = tokens("a = 1 ;");
    let mut ctx = context();
    let mut node = create_node(NodeType::Statement);
    assert!(parse_statement(&mut node, &toks, &mut ctx, 0));
    rejects(NodeType::Statement, "1 ;");
    rejects(NodeType::Statement, "; ;");
    rejects(NodeType::Statement, "else { }");
}

#[test]
fn body_stops_in_front_of_the_closing_brace() {
    let toks = tokens("a = 1 ; int t ; return t ; } b = 2 ;");
    let mut ctx = context();
    let mut node = create_node(NodeType::Body);
    assert!(parse_body(&mut node, &toks, &mut ctx, 0));
    assert_eq!(ctx.cursor, 10);
    assert_eq!(node.children.len(), 3);
    assert!(node.children.iter().all(|c| c.node_type == NodeType::Statement));
    assert_eq!(node.properties.var_alloc, Some(1));
    let empty = tokens("}");
    let mut ctx = context();
    let mut node = create_node(NodeType::Body);
    assert!(parse_body(&mut node, &empty, &mut ctx, 0));
    assert_eq!(ctx.cursor, 0);
    assert_eq!(node.properties.var_alloc, Some(0));
}

#[test]
fn blocks_enter_a_frame_of_their_own() {
    let toks = tokens(
        "if ( a ) { int t = 1 ; } elif ( b ) { int u = 2 ; } else { int v = 3 ; } while ( a ) { int w ; }",
    );
    let mut ctx = context();
    let mut node = create_node(NodeType::If_Stmt);
    assert!(parse_if_stmt(&mut node, &toks, &mut ctx, 0));
    assert_eq!(node.children.len(), 8);
    let elif = &node.children[7];
    assert_eq!(elif.node_type, NodeType::Elif_Stmt);
    assert_eq!(elif.children.len(), 8);
    let last = &elif.children[7];
    assert_eq!(last.children.len(), 1);
    assert_eq!(last.children[0].node_type, NodeType::Else_Stmt);
    assert_eq!(last.children[0].children.len(), 4);
    let mut node = create_node(NodeType::While_Stmt);
    assert!(parse_while_stmt(&mut node, &toks, &mut ctx, 0));
    assert_eq!(ctx.cursor, toks.len());
    // Four frames, in the order of the blocks, each a child of the root.
    assert_eq!(ctx.scopes.len(), 5);
    assert_eq!(ctx.scopes.nodes[0].children, vec![1, 2, 3, 4]);
    for (frame, name) in [(1, "t"), (2, "u"), (3, "v"), (4, "w")] {
        let symbol = ctx.scopes.scope_lookup(frame, &name.to_string()).unwrap();
        assert_eq!(symbol.addr, 8 * 7, "{}", name);
        assert_eq!(ctx.scopes.nodes[frame].parent, Some(0));
        assert!(ctx.scopes.scope_lookup(0, &name.to_string()).is_none());
        assert!(ctx.scopes.scope_lookup(frame, &"a".to_string()).is_some());
    }
}

#[test]
fn block_helpers_fill_the_node_they_are_given() {
    let toks = tokens("if ( a ) { } elif ( b ) { }");
    let mut ctx = context();
    let mut node = create_node(NodeType::If_Stmt);
    assert!(handle_if_block(&mut node, &toks, &mut ctx, 0));
    assert_eq!(ctx.cursor, 6);
    assert_eq!(node.children.len(), 7);
    let mut tail = create_node(NodeType::Elif_Stmt);
    assert!(!handle_if_block(&mut tail, &toks, &mut ctx, 0));
    assert!(handle_elif_block(&mut tail, &toks, &mut ctx, 0));
    assert_eq!(ctx.cursor, 12);
    assert_eq!(tail.children.len(), 7);
    assert_eq!(ctx.scopes.len(), 3);
}

#[test]
fn else_and_elif_tails() {
    let toks = tokens("else { a = 1 ; }");
    let mut ctx = context();
    let mut node = create_node(NodeType::Else_Stmt);
    assert!(parse_else_stmt(&mut node, &toks, &mut ctx, 0));
    assert_eq!(node.children.len(), 4);
    assert_eq!(ctx.scopes.len(), 2);
    let mut ctx = context();
    let mut node = create_node(NodeType::Elif_Stmt);
    assert!(parse_elif_stmt(&mut node, &toks, &mut ctx, 0));
    assert_eq!(node.children.len(), 1);
    // Without `else` or `elif` the tail is empty and no frame is made.
    let toks = tokens("a = 1 ;");
    let mut ctx = context();
    let mut node = create_node(NodeType::Elif_Stmt);
    assert!(parse_elif_stmt(&mut node, &toks, &mut ctx, 0));
    assert!(node.children.is_empty());
    let mut node = create_node(NodeType::Else_Stmt);
    assert!(parse_else_stmt(&mut node, &toks, &mut ctx, 0));
    assert!(node.children.is_empty());
    assert_eq!(ctx.cursor, 0);
    assert_eq!(ctx.scopes.len(), 1);
}

#[test]
fn for_statement_has_eleven_children() {
    let toks = tokens("for ( int i = 0 ; i < 3 ; i = i + 1 ) { a = i ; }");
    let mut ctx = context();
    let mut node = create_node(NodeType::For_Stmt);
    assert!(parse_for_stmt(&mut node, &toks, &mut ctx, 0));
    assert_eq!(ctx.cursor, toks.len());
    assert_eq!(node.children.len(), 11);
    assert_eq!(node.children[2].children[0].node_type, NodeType::VarDecl);
    assert_eq!(node.children[4].children[0].node_type, NodeType::Expression);
    assert_eq!(node.children[6].children[0].node_type, NodeType::Assign_Expr);
    assert_eq!(node.children[9].node_type, NodeType::Body);
    // The loop variable lives in the frame of the loop.
    assert!(ctx.scopes.scope_lookup(0, &"i".to_string()).is_none());
    assert_eq!(ctx.scopes.scope_lookup(1, &"i".to_string()).unwrap().addr, 8 * 7);
}

#[test]
fn function_declaration_binds_the_name_in_the_enclosing_frame() {
    let toks = tokens("bool check ( int n , ) { int t = 1 ; return t ; }");
    let mut ctx = ParseContext::new(1);
    let mut node = create_node(NodeType::Func_Decl);
    assert!(parse_func_decl(&mut node, &toks, &mut ctx, 0));
    assert_eq!(ctx.cursor, toks.len());
    assert_eq!(node.children.len(), 8);
    assert_eq!(node.children[3].children.len(), 4);
    assert_eq!(node.children[6].properties.var_alloc, Some(1));
    let symbol = ctx.scopes.scope_lookup(0, &"check".to_string()).unwrap();
    assert!(symbol.func);
    assert_eq!(symbol.primitive, "bool");
    assert_eq!(symbol.addr, 8);
    // The body counts from one in a frame of its own.
    assert_eq!(ctx.scopes.nodes[0].children, vec![1]);
    assert_eq!(ctx.scopes.scope_lookup(1, &"t".to_string()).unwrap().addr, 8);
    let mut args = create_node(NodeType::Arguments);
    let toks = tokens(")");
    assert!(parse_arguments(&mut args, &toks, &mut ParseContext::new(1), 0));
    assert!(args.children.is_empty());
}

#[test]
fn program_is_one_function_or_more() {
    let toks = tokens("int one ( ) { return 1 ; } int two ( ) { return one ( ) + 1 ; }");
    let mut ctx = ParseContext::new(1);
    let mut root = create_node(NodeType::Program_Start);
    assert!(parse_start_node(&mut root, &toks, &mut ctx, 0));
    assert_eq!(ctx.cursor, toks.len());
    assert_eq!(root.children.len(), 1);
    let first = &root.children[0];
    assert_eq!(first.node_type, NodeType::Other_Decl);
    assert_eq!(first.children[0].node_type, NodeType::Func_Decl);
    let second = &first.children[1];
    assert_eq!(second.children[0].node_type, NodeType::Func_Decl);
    assert!(second.children[1].children.is_empty());
    assert_eq!(ctx.scopes.nodes[0].children, vec![1, 2]);
    assert_eq!(ctx.scopes.scope_lookup(0, &"two".to_string()).unwrap().addr, 16);
    let mut rest = create_node(NodeType::Other_Decl);
    assert!(parse_other_decl(&mut rest, &toks, &mut ctx, 0));
    assert!(rest.children.is_empty());
}

#[test]
fn production_appends_to_the_node_it_is_given() {
    let toks = tokens("1 2");
    let mut ctx = context();
    let mut node = create_node(NodeType::Arith_Factor);
    assert!(parse_arith_factor(&mut node, &toks, &mut ctx, 0));
    assert!(parse_arith_factor(&mut node, &toks, &mut ctx, 0));
    assert_eq!(shape(&node), "Arith_Factor[Constant:1 Constant:2]");
    assert_eq!(node.properties.terminal.as_deref(), Some("2"));
    let mut negated = create_node(NodeType::Not_Expr);
    let toks = tokens("! a b");
    let mut ctx = context();
    assert!(parse_not_expr(&mut negated, &toks, &mut ctx, 0));
    assert!(parse_not_expr(&mut negated, &toks, &mut ctx, 0));
    assert!(negated.properties.unary);
    assert_eq!(negated.children.len(), 3);
}
