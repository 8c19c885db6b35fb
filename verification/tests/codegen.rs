use c_compiler::generation::{
    and_or_generator, equality_generator, label_create, relational_generator, Codegen,
};
use c_compiler::instruction::{jump_command, to_operator, Instruction, JumpKind, Opcode};
use c_compiler::lowering::CodegenError;
use c_compiler::parse::{parse, ParseContext};
use c_compiler::program::{generate_code, generate_start_stub};
use c_compiler::registers::{pool_reg, Reg, RegisterManager};
use c_compiler::render::render_all;
use c_compiler::symbol_table::{ScopeTree, TreeMethods};
use c_compiler::syntax::{create_node, Node, NodeType};
use c_compiler::token::{Token, TokenType};
use c_compiler::walk::{generate, generate_children};

fn classify(text: &str) -> Token {
    let kind = match text {
        "(" | ")" | "{" | "}" | ";" | "," => TokenType::Separator,
        "if" | "elif" | "else" | "while" | "for" | "return" | "true" | "false" => {
            TokenType::Keyword
        }
        "int" | "bool" | "char" | "float" => TokenType::Primitive,
        "+" | "-" | "*" | "/" | "=" | "==" | "!=" | "<" | ">" | "<=" | ">=" | "&&" | "||"
        | "!" => TokenType::Operator,
        _ => {
            if text.chars().next().unwrap().is_ascii_digit() {
                TokenType::Constant
            } else {
                TokenType::Identifier
            }
        }
    };
    Token { token_type: kind, val: text.to_string() }
}

fn tokens(source: &str) -> Vec<Token> {
    source.split_whitespace().map(classify).collect()
}

fn parse_program(source: &str) -> (Node, ParseContext) {
    let toks = tokens(source);
    let mut ctx = ParseContext::new(1);
    let mut root = create_node(NodeType::Program_Start);
    assert!(parse(&mut root, &toks, &mut ctx, 0));
    assert_eq!(ctx.cursor, toks.len());
    (root, ctx)
}

fn compile(source: &str) -> Vec<String> {
    let (root, ctx) = parse_program(source);
    generate_code(&root, ctx.scopes).unwrap()
}

fn walk(source: &str) -> Codegen {
    let (root, ctx) = parse_program(source);
    let mut gen = Codegen::new(ctx.scopes);
    assert_eq!(generate(&mut gen, &root, 0, None, None), Ok(None));
    gen
}

fn position(lines: &[String], line: &str) -> usize {
    lines.iter().position(|l| l == line).unwrap_or_else(|| panic!("no line {:?}", line))
}

fn count(lines: &[String], line: &str) -> usize {
    lines.iter().filter(|l| l.as_str() == line).count()
}

const PROLOGUE_TAIL: [&str; 5] =
    ["\tpush rbx", "\tpush r12", "\tpush r13", "\tpush r14", "\tpush r15"];

const EPILOGUE: [&str; 8] = [
    "\tpop r15",
    "\tpop r14",
    "\tpop r13",
    "\tpop r12",
    "\tpop rbx",
    "\tmov rsp, rbp",
    "\tpop rbp",
    "\tret",
];

#[test]
fn function_with_return_of_a_constant() {
    let lines = compile("int main ( ) { return 7 ; }");
    let mut expected: Vec<&str> =
        vec!["global main", "main:", "\tpush rbp", "\tmov rbp, rsp", "\tsub rsp, 0"];
    expected.extend(PROLOGUE_TAIL);
    expected.push("\tmov qword rbx, 7");
    expected.push("\tmov rax, rbx");
    expected.extend(EPILOGUE);
    expected.extend(EPILOGUE);
    assert_eq!(lines, expected);
}

#[test]
fn locals_are_reserved_and_stored_by_offset() {
    let lines = compile("int main ( ) { int a = 1 ; int b = 2 ; b = a + b ; return b ; }");
    assert_eq!(lines[4], "\tsub rsp, 16");
    let body: Vec<&str> = lines[10..lines.len() - 16].iter().map(|l| l.as_str()).collect();
    assert_eq!(
        body,
        vec![
            "\tmov qword rbx, 1",
            "\tmov qword [rbp-8], rbx",
            "\tmov qword rbx, 2",
            "\tmov qword [rbp-16], rbx",
            "\tmov rbx, [rbp-8]",
            "\tmov r10, [rbp-16]",
            "\tadd rbx, r10",
            "\tmov qword [rbp-16], rbx",
            "\tmov rbx, [rbp-16]",
            "\tmov rax, rbx",
        ]
    );
}

#[test]
fn declaration_without_initialiser_pushes_a_zero_word() {
    let lines = compile("int main ( ) { int a ; return 0 ; }");
    assert_eq!(lines[4], "\tsub rsp, 8");
    assert_eq!(lines[10], "\tpush 0");
}

#[test]
fn multiplication_binds_tighter_in_the_generated_code() {
    let lines = compile("int main ( ) { return 2 + 3 * 4 ; }");
    let body: Vec<&str> = lines[10..lines.len() - 16].iter().map(|l| l.as_str()).collect();
    assert_eq!(
        body,
        vec![
            "\tmov qword rbx, 2",
            "\tmov qword r10, 3",
            "\tmov qword r11, 4",
            "\tmov rax, r10",
            "\timul r11",
            "\tmov r10, rax",
            "\tadd rbx, r10",
            "\tmov rax, rbx",
        ]
    );
}

#[test]
fn division_clears_the_high_word_first() {
    let lines = compile("int main ( ) { return 8 / 2 - 1 ; }");
    let body: Vec<&str> = lines[10..lines.len() - 16].iter().map(|l| l.as_str()).collect();
    assert_eq!(
        body,
        vec![
            "\tmov qword rbx, 8",
            "\tmov qword r10, 2",
            "\tmov rdx, 0",
            "\tmov rax, rbx",
            "\tidiv r10",
            "\tmov rbx, rax",
            "\tmov qword r10, 1",
            "\tsub rbx, r10",
            "\tmov rax, rbx",
        ]
    );
}

#[test]
fn if_else_round_trip() {
    let lines = compile(
        "int main ( ) { int x ; x = 5 ; if ( x == 5 ) { return 1 ; } else { return 0 ; } }",
    );
    // The condition: x == 5 materialised as 0 or 1, then tested against zero.
    let compare = position(&lines, "\tcmp rbx, r10");
    assert_eq!(lines[compare + 1], "\tje .L1");
    assert_eq!(lines[compare + 2], "\tmov rbx, 0");
    assert_eq!(lines[compare + 3], "\tjmp .L2");
    assert_eq!(lines[compare + 4], ".L1:");
    assert_eq!(lines[compare + 5], "\tmov rbx, 1");
    assert_eq!(lines[compare + 6], ".L2:");
    let test = compare + 7;
    assert_eq!(lines[test], "\tcmp rbx, 0");
    assert_eq!(lines[test + 1], "\tje .L4");
    // The true branch falls through to a return of the constant 1.
    assert_eq!(lines[test + 2], "\tmov qword rbx, 1");
    assert_eq!(lines[test + 3], "\tmov rax, rbx");
    assert_eq!(lines[test + 11], "\tret");
    assert_eq!(lines[test + 12], "\tjmp .L3");
    // The false branch starts at the label that the test jumps to and
    // returns the constant 0.
    let otherwise = position(&lines, ".L4:");
    assert_eq!(otherwise, test + 13);
    assert_eq!(lines[otherwise + 1], "\tmov qword rbx, 0");
    assert_eq!(lines[otherwise + 2], "\tmov rax, rbx");
    assert_eq!(lines[otherwise + 10], "\tret");
    // Both branches converge on one exit label, defined once.
    assert_eq!(lines[otherwise + 11], ".L3:");
    assert_eq!(count(&lines, ".L3:"), 1);
    assert_eq!(count(&lines, ".L4:"), 1);
    assert_eq!(lines.iter().filter(|l| l.starts_with(".L")).count(), 4);
}

#[test]
fn if_without_alternative_uses_the_exit_label_alone() {
    let lines = compile("int main ( ) { int x = 1 ; if ( x ) { x = 2 ; } return x ; }");
    let test = position(&lines, "\tcmp rbx, 0");
    assert_eq!(lines[test + 1], "\tje .L1");
    assert_eq!(count(&lines, "\tjmp .L1"), 1);
    assert_eq!(count(&lines, ".L1:"), 1);
    assert_eq!(lines.iter().filter(|l| l.starts_with(".L")).count(), 1);
}

#[test]
fn elif_chain_shares_one_exit_label() {
    let lines = compile(
        "int main ( ) { int x = 1 ; if ( x ) { x = 2 ; } elif ( x ) { x = 3 ; } else { x = 4 ; } return x ; }",
    );
    // .L1 is the exit, .L2 the start of the elif, .L3 the start of the else.
    assert_eq!(count(&lines, "\tje .L2"), 1);
    assert_eq!(count(&lines, "\tje .L3"), 1);
    assert_eq!(count(&lines, "\tjmp .L1"), 2);
    assert_eq!(count(&lines, ".L1:"), 1);
    assert_eq!(count(&lines, ".L2:"), 1);
    assert_eq!(count(&lines, ".L3:"), 1);
    assert!(position(&lines, ".L2:") < position(&lines, ".L3:"));
    assert!(position(&lines, ".L3:") < position(&lines, ".L1:"));
}

#[test]
fn while_loop_layout() {
    let lines = compile("int f ( ) { int i = 0 ; while ( i < 3 ) { i = i + 1 ; } return i ; }");
    let body: Vec<&str> = lines[12..lines.len() - 18].iter().map(|l| l.as_str()).collect();
    assert_eq!(
        body,
        vec![
            ".L1:",
            "\tmov rbx, [rbp-8]",
            "\tmov qword r10, 3",
            "\tcmp rbx, r10",
            "\tjl .L3",
            "\tmov rbx, 0",
            "\tjmp .L4",
            ".L3:",
            "\tmov rbx, 1",
            ".L4:",
            "\tcmp rbx, 0",
            "\tje .L2",
            "\tmov rbx, [rbp-8]",
            "\tmov qword r10, 1",
            "\tadd rbx, r10",
            "\tmov qword [rbp-8], rbx",
            "\tjmp .L1",
            ".L2:",
        ]
    );
}

#[test]
fn for_loop_layout() {
    let lines = compile(
        "int f ( ) { int i ; for ( i = 0 ; i ; i = i - 1 ) { f ( ) ; } return i ; }",
    );
    let body: Vec<&str> = lines[11..lines.len() - 18].iter().map(|l| l.as_str()).collect();
    assert_eq!(
        body,
        vec![
            "\tmov qword rbx, 0",
            "\tmov qword [rbp-8], rbx",
            ".L1:",
            "\tmov rbx, [rbp-8]",
            "\tcmp rbx, 0",
            "\tje .L2",
            "\tcall f",
            "\tmov rbx, [rbp-8]",
            "\tmov qword r10, 1",
            "\tsub rbx, r10",
            "\tmov qword [rbp-8], rbx",
            "\tjmp .L1",
            ".L2:",
        ]
    );
}

#[test]
fn for_loop_without_condition_has_no_test() {
    let lines = compile("int f ( ) { for ( ; ; ) { f ( ) ; } return 0 ; }");
    assert_eq!(count(&lines, "\tje .L2"), 0);
    assert_eq!(count(&lines, "\tjmp .L1"), 1);
    assert_eq!(count(&lines, ".L2:"), 1);
}

#[test]
fn negated_operand_is_flipped() {
    let lines = compile("int f ( ) { bool b = true ; if ( ! b ) { return 1 ; } return 0 ; }");
    let load = position(&lines, "\tmov rbx, [rbp-8]");
    assert_eq!(lines[load + 1], "\txor rbx, 1");
    assert_eq!(lines[10], "\tmov qword rbx, 1");
}

#[test]
fn call_as_operand_moves_the_result_out_of_rax() {
    let lines = compile("int g ( ) { return 1 ; } int f ( ) { return g ( ) + 2 ; }");
    assert_eq!(lines[0], "global g");
    assert_eq!(lines[1], "global f");
    let call = position(&lines, "\tcall g");
    assert_eq!(lines[call + 1], "\tmov rbx, rax");
    assert_eq!(lines[call + 2], "\tmov qword r10, 2");
    assert_eq!(lines[call + 3], "\tadd rbx, r10");
}

#[test]
fn nested_blocks_use_their_own_frames_in_parse_order() {
    let lines = compile(
        "int f ( ) { int a = 1 ; if ( a ) { int b = 2 ; } else { int c = 3 ; } while ( a ) { int d = 4 ; a = d ; } return a ; }",
    );
    // Every block goes on counting at the second slot, behind `a`.
    assert_eq!(count(&lines, "\tmov qword [rbp-16], rbx"), 3);
    assert_eq!(count(&lines, "\tmov rbx, [rbp-16]"), 1);
    assert_eq!(lines[4], "\tsub rsp, 8");
}

#[test]
fn registers_are_all_free_after_every_program() {
    for source in [
        "int f ( ) { return 1 + 2 * 3 - 4 / 5 ; }",
        "int f ( ) { int x = 1 ; if ( x < 2 && x != 3 || x >= 4 ) { x = 2 ; } return x ; }",
        "int f ( ) { int i ; for ( i = 0 ; i <= 9 ; i = i + 1 ) { f ( i , 2 ) ; } return i ; }",
        "int g ( ) { return 1 ; } int f ( ) { int i = 3 ; while ( ! i ) { i = g ( ) ; } return i ; }",
    ] {
        let gen = walk(source);
        for register in &gen.registers.register_list {
            assert!(!register.in_use, "{} is still taken after {}", register.name, source);
            assert_eq!(register.addr, 0);
        }
    }
}

#[test]
fn expression_hands_one_register_on() {
    let toks = tokens("1 + 2 * 3");
    let mut ctx = ParseContext::new(1);
    let mut node = create_node(NodeType::Arith_Expr);
    assert!(parse(&mut node, &toks, &mut ctx, 0));
    let mut gen = Codegen::new(ctx.scopes);
    assert_eq!(generate(&mut gen, &node, 0, None, None), Ok(Some(0)));
    let taken: Vec<bool> = gen.registers.register_list.iter().map(|r| r.in_use).collect();
    assert_eq!(taken, vec![true, false, false, false, false, false, false]);
}

#[test]
fn children_give_registers_back() {
    let toks = tokens("1 + 2");
    let mut ctx = ParseContext::new(1);
    let mut node = create_node(NodeType::Arith_Expr);
    assert!(parse(&mut node, &toks, &mut ctx, 0));
    let mut wrapper = create_node(NodeType::Statement);
    wrapper.children.push(node);
    let mut gen = Codegen::new(ctx.scopes);
    assert_eq!(generate_children(&mut gen, &wrapper, 0), Ok(()));
    assert!(gen.registers.register_list.iter().all(|r| !r.in_use));
    assert_eq!(generate(&mut gen, &wrapper, 0, None, None), Ok(None));
    assert!(gen.registers.register_list.iter().all(|r| !r.in_use));
}

#[test]
fn short_circuit_block_for_or() {
    let mut gen = Codegen::new(ScopeTree::new(1));
    assert_eq!(and_or_generator(&mut gen, "||", 0, 1), Ok((1, 2)));
    assert_eq!(
        render_all(&gen.code),
        vec![
            "\tcmp rbx, 1",
            "\tje .L1",
            "\tcmp r10, 1",
            "\tmov rbx, 0",
            "\tjne .L2",
            ".L1:",
            "\tmov rbx, 1",
            ".L2:",
        ]
    );
    assert_eq!(gen.label_index, 2);
}

#[test]
fn labels_of_a_short_circuit_block_are_defined_once_and_jumped_to_once() {
    for operator in ["||", "&&"] {
        let mut gen = Codegen::new(ScopeTree::new(1));
        gen.label_index = 40;
        let (decided, done) = and_or_generator(&mut gen, operator, 0, 1).unwrap();
        assert_eq!((decided, done), (41, 42));
        for label in [decided, done] {
            let definitions = gen
                .code
                .iter()
                .filter(|i| matches!(i, Instruction::Label(l) if *l == label))
                .count();
            let references = gen
                .code
                .iter()
                .filter(|i| matches!(i, Instruction::Jump { label: l, .. } if *l == label))
                .count();
            assert_eq!(definitions, 1, "{} {}", operator, label);
            assert_eq!(references, 1, "{} {}", operator, label);
        }
        let others = gen
            .code
            .iter()
            .filter(|i| {
                matches!(i, Instruction::Label(l) | Instruction::Jump { label: l, .. }
                    if *l != decided && *l != done)
            })
            .count();
        assert_eq!(others, 0);
    }
}

#[test]
fn short_circuit_block_for_and() {
    let mut gen = Codegen::new(ScopeTree::new(1));
    gen.label_index = 7;
    assert_eq!(and_or_generator(&mut gen, "&&", 2, 3), Ok((8, 9)));
    assert_eq!(
        render_all(&gen.code),
        vec![
            "\tcmp r11, 0",
            "\tje .L8",
            "\tcmp r12, 0",
            "\tmov r11, 1",
            "\tjne .L9",
            ".L8:",
            "\tmov r11, 0",
            ".L9:",
        ]
    );
}

#[test]
fn equality_blocks() {
    let mut gen = Codegen::new(ScopeTree::new(1));
    assert_eq!(equality_generator(&mut gen, "==", 0, 1), Ok((1, 2)));
    assert_eq!(equality_generator(&mut gen, "!=", 0, 1), Ok((3, 4)));
    assert_eq!(
        render_all(&gen.code),
        vec![
            "\tcmp rbx, r10",
            "\tje .L1",
            "\tmov rbx, 0",
            "\tjmp .L2",
            ".L1:",
            "\tmov rbx, 1",
            ".L2:",
            "\tcmp rbx, r10",
            "\tje .L3",
            "\tmov rbx, 1",
            "\tjmp .L4",
            ".L3:",
            "\tmov rbx, 0",
            ".L4:",
        ]
    );
}

#[test]
fn relational_block() {
    let mut gen = Codegen::new(ScopeTree::new(1));
    assert_eq!(relational_generator(&mut gen, JumpKind::GreaterEqual, 4, 5), Ok((1, 2)));
    assert_eq!(
        render_all(&gen.code),
        vec![
            "\tcmp r13, r14",
            "\tjge .L1",
            "\tmov r13, 0",
            "\tjmp .L2",
            ".L1:",
            "\tmov r13, 1",
            ".L2:",
        ]
    );
}

#[test]
fn labels_of_a_comparison_are_defined_once_and_jumped_to_once() {
    let gen = walk("int f ( ) { int x = 1 ; if ( x < 2 ) { x = 2 ; } return x ; }");
    assert_eq!(gen.label_index, 3);
    let mut defined = 0;
    // The comparison creates the first two labels, the `if` the third.
    for label in 1..=2 {
        let definitions = gen
            .code
            .iter()
            .filter(|i| matches!(i, Instruction::Label(l) if *l == label))
            .count();
        let references = gen
            .code
            .iter()
            .filter(|i| matches!(i, Instruction::Jump { label: l, .. } if *l == label))
            .count();
        assert_eq!(definitions, 1);
        assert_eq!(references, 1);
        defined += 1;
    }
    assert_eq!(defined, 2);
}

#[test]
fn every_label_of_a_program_is_defined_exactly_once() {
    let gen = walk(
        "int f ( ) { int x = 1 ; \
         while ( x < 9 && x != 4 || ! x ) { \
         if ( x == 2 ) { x = 3 ; } elif ( x > 5 ) { x = 6 ; } else { x = x + 1 ; } \
         for ( x = 0 ; x <= 1 ; x = x + 1 ) { if ( x ) { x = 7 ; } } \
         } return x ; }",
    );
    assert!(gen.label_index > 10);
    for label in 1..=gen.label_index {
        let definitions = gen
            .code
            .iter()
            .filter(|i| matches!(i, Instruction::Label(l) if *l == label))
            .count();
        assert_eq!(definitions, 1, "label {}", label);
    }
    let beyond = gen
        .code
        .iter()
        .filter(|i| {
            matches!(i, Instruction::Label(l) | Instruction::Jump { label: l, .. }
                if *l == 0 || *l > gen.label_index)
        })
        .count();
    assert_eq!(beyond, 0);
}

#[test]
fn labels_count_up_from_one() {
    let mut gen = Codegen::new(ScopeTree::new(1));
    assert_eq!(label_create(&mut gen), Ok(1));
    assert_eq!(label_create(&mut gen), Ok(2));
    assert_eq!(gen.label_index, 2);
}

#[test]
fn label_counter_overflow_is_an_error() {
    let mut gen = Codegen::new(ScopeTree::new(1));
    gen.label_index = u32::MAX;
    assert_eq!(label_create(&mut gen), Err(CodegenError::OutOfLabels));
    assert_eq!(gen.label_index, u32::MAX);
    assert_eq!(and_or_generator(&mut gen, "||", 0, 1), Err(CodegenError::OutOfLabels));
}

#[test]
fn operators_map_to_operations() {
    assert_eq!(to_operator("+"), Some(Opcode::Add));
    assert_eq!(to_operator("-"), Some(Opcode::Sub));
    assert_eq!(to_operator("*"), Some(Opcode::Imul));
    assert_eq!(to_operator("/"), Some(Opcode::Idiv));
    assert_eq!(to_operator("&&"), Some(Opcode::And));
    assert_eq!(to_operator("||"), Some(Opcode::Or));
    assert_eq!(to_operator("=="), Some(Opcode::Compare));
    assert_eq!(to_operator("!="), Some(Opcode::Compare));
    assert_eq!(to_operator("<"), None);
    assert_eq!(to_operator(""), None);
}

#[test]
fn relations_map_to_jumps() {
    assert_eq!(jump_command("<"), Some(JumpKind::Less));
    assert_eq!(jump_command("<="), Some(JumpKind::LessEqual));
    assert_eq!(jump_command(">"), Some(JumpKind::Greater));
    assert_eq!(jump_command(">="), Some(JumpKind::GreaterEqual));
    assert_eq!(jump_command("=="), None);
}

#[test]
fn pool_registers_by_index() {
    let regs: Vec<Reg> = (0..7).map(pool_reg).collect();
    assert_eq!(
        regs,
        vec![Reg::Rbx, Reg::R10, Reg::R11, Reg::R12, Reg::R13, Reg::R14, Reg::R15]
    );
}

#[test]
fn register_pool_hands_out_the_first_free_register() {
    let mut pool = RegisterManager::new();
    assert_eq!(pool.register_list.len(), 7);
    assert_eq!(pool.register_alloc(40), Some(0));
    assert_eq!(pool.register_alloc(48), Some(1));
    assert_eq!(pool.register_alloc(56), Some(2));
    assert!(pool.register_list[1].in_use);
    assert_eq!(pool.register_list[1].addr, 48);
    pool.register_free(1);
    assert!(!pool.register_list[1].in_use);
    assert_eq!(pool.register_list[1].addr, 0);
    assert_eq!(pool.register_alloc(64), Some(1));
    assert_eq!(pool.register_alloc(0), Some(3));
}

#[test]
fn register_pool_is_exhausted_after_seven() {
    let mut pool = RegisterManager::new();
    for expected in 0..7 {
        assert_eq!(pool.register_alloc(0), Some(expected));
    }
    assert_eq!(pool.register_alloc(0), None);
    assert!(pool.register_list.iter().all(|r| r.in_use));
    pool.register_free(6);
    assert_eq!(pool.register_alloc(0), Some(6));
}

#[test]
fn register_names_and_indices() {
    let pool = RegisterManager::new();
    let names: Vec<String> = (0..7).map(|i| pool.register_name(i)).collect();
    assert_eq!(names, vec!["rbx", "r10", "r11", "r12", "r13", "r14", "r15"]);
    for (index, name) in names.iter().enumerate() {
        assert_eq!(pool.register_index(name), index as i32);
    }
    assert_eq!(pool.register_index(&"rax".to_string()), -1);
    assert_eq!(pool.register_index(&"".to_string()), -1);
}

#[test]
fn initialize_resets_the_pool() {
    let mut pool = RegisterManager::new();
    pool.register_alloc(8);
    pool.register_alloc(16);
    pool.initialize();
    assert_eq!(pool.register_list.len(), 7);
    assert!(pool.register_list.iter().all(|r| !r.in_use && r.addr == 0));
    assert_eq!(pool.register_alloc(0), Some(0));
}

#[test]
fn out_of_registers_is_an_error() {
    let toks = tokens("1");
    let mut ctx = ParseContext::new(1);
    let mut node = create_node(NodeType::Arith_Factor);
    assert!(parse(&mut node, &toks, &mut ctx, 0));
    let mut gen = Codegen::new(ctx.scopes);
    for _ in 0..7 {
        assert!(gen.take().is_ok());
    }
    assert_eq!(gen.take(), Err(CodegenError::OutOfRegisters));
    assert_eq!(generate(&mut gen, &node, 0, None, None), Err(CodegenError::OutOfRegisters));
}

#[test]
fn malformed_trees_are_errors() {
    let mut gen = Codegen::new(ScopeTree::new(1));
    for kind in [
        NodeType::If_Stmt,
        NodeType::While_Stmt,
        NodeType::For_Stmt,
        NodeType::Return_Stmt,
        NodeType::VarDecl,
        NodeType::Assign_Expr,
        NodeType::Arith_Expr,
        NodeType::Func_Decl,
        NodeType::Func_Call,
        NodeType::Arith_Factor,
        NodeType::Expression,
    ] {
        let node = create_node(kind);
        assert_eq!(
            generate(&mut gen, &node, 0, None, None),
            Err(CodegenError::MalformedTree),
            "{:?}",
            kind
        );
    }
    // A tail needs the accumulator of its level, an elif the exit label.
    let tail = create_node(NodeType::Arith_Subexpr);
    assert_eq!(generate(&mut gen, &tail, 0, None, None), Err(CodegenError::MalformedTree));
    assert_eq!(generate(&mut gen, &tail, 0, Some(0), None), Ok(None));
    let elif = create_node(NodeType::Elif_Stmt);
    assert_eq!(generate(&mut gen, &elif, 0, None, None), Err(CodegenError::MalformedTree));
    assert_eq!(generate(&mut gen, &elif, 0, None, Some(1)), Ok(None));
    assert!(gen.code.is_empty());
}

#[test]
fn unknown_identifier_is_an_error() {
    let mut gen = Codegen::new(ScopeTree::new(1));
    let mut operand = create_node(NodeType::Arith_Factor);
    operand.properties.terminal = Some("y".to_string());
    assert_eq!(
        generate(&mut gen, &operand, 0, None, None),
        Err(CodegenError::UnknownIdentifier)
    );
}

#[test]
fn unknown_operator_is_an_error() {
    let toks = tokens("1");
    let mut ctx = ParseContext::new(1);
    let mut term = create_node(NodeType::Arith_Term);
    assert!(parse(&mut term, &toks, &mut ctx, 0));
    let mut tail = create_node(NodeType::Arith_Subexpr);
    tail.properties.operator = Some("<".to_string());
    tail.children.push(create_node(NodeType::Operator));
    tail.children.push(term);
    tail.children.push(create_node(NodeType::Arith_Subexpr));
    let mut gen = Codegen::new(ctx.scopes);
    let acc = gen.take().unwrap();
    assert_eq!(
        generate(&mut gen, &tail, 0, Some(acc), None),
        Err(CodegenError::UnknownOperator)
    );
}

#[test]
fn missing_child_frame_is_an_error() {
    let (root, _) = parse_program("int f ( ) { int x = 1 ; while ( x ) { x = 0 ; } return x ; }");
    // A fresh tree has no frame for the function.
    let mut gen = Codegen::new(ScopeTree::new(1));
    assert_eq!(generate(&mut gen, &root, 0, None, None), Err(CodegenError::ScopeMismatch));
}

#[test]
fn oversized_frame_is_an_error() {
    let (mut root, ctx) = parse_program("int f ( ) { return 0 ; }");
    let function = &mut root.children[0].children[0];
    assert_eq!(function.node_type, NodeType::Func_Decl);
    function.children[6].properties.var_alloc = Some(u64::MAX);
    let mut gen = Codegen::new(ctx.scopes);
    assert_eq!(generate(&mut gen, &root, 0, None, None), Err(CodegenError::FrameTooLarge));
}

#[test]
fn start_stub_exports_functions_in_declaration_order() {
    let mut scopes = ScopeTree::new(1);
    scopes.bind(0, &"main".to_string(), &"int".to_string(), true);
    scopes.bind(0, &"counter".to_string(), &"int".to_string(), false);
    scopes.bind(0, &"helper".to_string(), &"bool".to_string(), true);
    let mut gen = Codegen::new(scopes);
    generate_start_stub(&mut gen, 0);
    assert_eq!(render_all(&gen.code), vec!["global main", "global helper"]);
}

#[test]
fn generated_code_records_the_register_of_a_name() {
    let gen = walk("int f ( ) { int x = 1 ; return x ; }");
    let symbol = gen.scopes.scope_lookup(1, &"x".to_string()).unwrap();
    assert_eq!(symbol.register, 0);
    assert_eq!(symbol.addr, 8);
    // The walk has visited the function's frame.
    assert_eq!(gen.scopes.nodes[0].scope_index, 1);
}

#[test]
fn argument_is_loaded_from_above_the_frame_pointer() {
    let mut scopes = ScopeTree::new(1);
    scopes.bind_arg(0, &"n".to_string(), &"int".to_string(), 2);
    scopes.bind(0, &"x".to_string(), &"int".to_string(), false);
    scopes.bind(0, &"y".to_string(), &"int".to_string(), false);
    let mut gen = Codegen::new(scopes);
    let mut argument = create_node(NodeType::Arith_Factor);
    argument.properties.terminal = Some("n".to_string());
    let mut local = create_node(NodeType::Arith_Factor);
    local.properties.terminal = Some("y".to_string());
    assert_eq!(generate(&mut gen, &argument, 0, None, None), Ok(Some(0)));
    assert_eq!(generate(&mut gen, &local, 0, None, None), Ok(Some(1)));
    assert_eq!(render_all(&gen.code), vec!["\tmov rbx, [rbp+16]", "\tmov r10, [rbp-16]"]);
}

#[test]
fn labels_of_every_operator_block_are_jumped_to_once_in_a_program() {
    for (condition, blocks) in [
        ("x || y", 1),
        ("x && y", 1),
        ("x == y", 1),
        ("x != y", 1),
        ("x <= y", 1),
        ("x < 2 && y > 3 || x == y", 5),
    ] {
        let source = format!(
            "int f ( ) {{ int x = 1 ; int y = 0 ; if ( {} ) {{ x = 2 ; }} return x ; }}",
            condition
        );
        let gen = walk(&source);
        // The blocks create two labels each; the `if` creates the last one.
        assert_eq!(gen.label_index, 2 * blocks + 1, "{}", condition);
        for label in 1..=2 * blocks {
            let definitions = gen
                .code
                .iter()
                .filter(|i| matches!(i, Instruction::Label(l) if *l == label))
                .count();
            let references = gen
                .code
                .iter()
                .filter(|i| matches!(i, Instruction::Jump { label: l, .. } if *l == label))
                .count();
            assert_eq!(definitions, 1, "{} {}", condition, label);
            assert_eq!(references, 1, "{} {}", condition, label);
        }
        // The code of the `if` ends in its exit label, before the return.
        let exit = gen.label_index;
        let at = gen
            .code
            .iter()
            .position(|i| matches!(i, Instruction::Label(l) if *l == exit))
            .unwrap();
        assert!(matches!(gen.code[at + 1], Instruction::Load { .. }));
    }
}
