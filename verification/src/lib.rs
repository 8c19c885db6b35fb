//! A compiler for a small C-like language, from source text to assembly
//! text for x86-64.
//!
//! The compiler works in three steps. The lexer ([`token`]) cuts the source
//! into tokens. The parser ([`parse`], [`expression`], [`statement`]) is a
//! recursive descent over the tokens that builds the syntax tree ([`syntax`])
//! and, as it goes, the scope tree ([`symbol_table`]) of the declarations.
//! The code generator ([`generation`], [`walk`]) walks the syntax tree once,
//! takes registers from a fixed pool ([`registers`]) and emits instructions
//! ([`instruction`]), which [`render`] turns into lines of text.
//!
//! What the parser accepts is defined by [`grammar`], what the generator
//! emits by [`lowering`]; the functions of the parser and of the generator
//! are verified against these two.

use vstd::prelude::*;

pub mod expression;
pub mod generation;
pub mod grammar;
pub mod instruction;
pub mod laws;
pub mod lowering;
pub mod parse;
pub mod program;
pub mod registers;
pub mod render;
pub mod statement;
pub mod symbol_table;
pub mod syntax;
pub mod text;
pub mod token;
pub mod views;
pub mod walk;

use crate::grammar::rule;
use crate::instruction::InstructionModel;
use crate::lowering::CodegenError;
use crate::parse::{ParseContext, initial_state, parse};
use crate::program::{generate_code, program};
use crate::render::rendered_all;
use crate::syntax::{NodeType, create_node, filled};
use crate::token::{lex_file, lexed_text};
use crate::views::views;

verus! {

/// Why a source text does not compile.
#[derive(PartialEq, Eq, Structural, Clone, Copy, Debug)]
pub enum CompileError {
    /// The tokens are no program: no rule of the grammar matches, a name is
    /// used before it is declared or with the wrong type, or a name is
    /// declared twice in one frame.
    Parse,
    /// The program cannot be lowered.
    Codegen(CodegenError),
}

/// The code of the program with the source text `source`: its tokens parsed
/// as a program, from the first token and with an empty root frame, and the
/// tree lowered against the scope tree that the parse leaves.
pub open spec fn compiled(source: Seq<char>) -> Result<Seq<InstructionModel>, CompileError> {
    match rule(NodeType::Program_Start, lexed_text(source), initial_state(1), 0) {
        Some((p, s)) => match program(filled(NodeType::Program_Start, p), s.scopes) {
            Ok(code) => Ok(code),
            Err(e) => Err(CompileError::Codegen(e)),
        },
        None => Err(CompileError::Parse),
    }
}

/// Compiles the source text `source` to the lines of its assembly text.
pub fn compile(source: String) -> (lines: Result<Vec<String>, CompileError>)
    ensures
        match compiled(source@) {
            Ok(code) => match lines {
                Ok(text) => views(text@) == rendered_all(code),
                Err(_) => false,
            },
            Err(e) => lines == Err::<Vec<String>, CompileError>(e),
        },
{
    let tokens = lex_file(source);
    let mut context = ParseContext::new(1);
    let mut root = create_node(NodeType::Program_Start);
    if parse(&mut root, &tokens, &mut context, 0) {
        match generate_code(&root, context.scopes) {
            Ok(text) => Ok(text),
            Err(e) => Err(CompileError::Codegen(e)),
        }
    } else {
        Err(CompileError::Parse)
    }
}

} // verus!
