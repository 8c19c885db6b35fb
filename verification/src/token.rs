//! Tokens and the lexer that cuts a source text into them.
//!
//! The lexer delimits tokens by whitespace, separators and operators, and
//! classifies each piece by its text.

use vstd::prelude::*;
use vstd::std_specs::iter::IteratorSpec;
use crate::text::{alphabetic, basic_letter, char_is_alphabetic, push_char, text_is};

verus! {

/// The kinds of token.
#[derive(PartialEq, Eq, Structural, Clone, Copy, Debug)]
pub enum TokenType {
    Identifier,
    /// `(`, `)`, `{`, `}`, `;` and `,`.
    Separator,
    /// `if`, `elif`, `else`, `while`, `for`, `return`.
    Keyword,
    /// `int`, `float`, `bool`, `char`.
    Primitive,
    /// Unary and binary operators.
    Operator,
    /// Decimal numbers.
    Constant,
    Special,
    Default,
}

/// A token: its kind and its text.
#[derive(Clone, Debug)]
pub struct Token {
    pub token_type: TokenType,
    pub val: String,
}

/// The mathematical value of a [`Token`].
pub struct TokenModel {
    pub kind: TokenType,
    pub text: Seq<char>,
}

impl View for Token {
    type V = TokenModel;

    open spec fn view(&self) -> TokenModel {
        TokenModel { kind: self.token_type, text: self.val@ }
    }
}

/// Whether `c` has the Unicode property `White_Space`.
pub open spec fn white_space(c: char) -> bool {
    let n = c as u32;
    ||| 0x09 <= n <= 0x0d
    ||| n == 0x20
    ||| n == 0x85
    ||| n == 0xa0
    ||| n == 0x1680
    ||| 0x2000 <= n <= 0x200a
    ||| n == 0x2028
    ||| n == 0x2029
    ||| n == 0x202f
    ||| n == 0x205f
    ||| n == 0x3000
}

/// Whether `c` is one of the letters `A` to `Z` and `a` to `z`.
pub open spec fn ascii_letter(c: char) -> bool {
    basic_letter(c)
}

/// Whether `c` is one of the digits `0` to `9`.
pub open spec fn ascii_digit(c: char) -> bool {
    let n = c as u32;
    0x30 <= n <= 0x39
}

/// Whether some character of `text` has the Unicode property `White_Space`.
pub open spec fn has_white_space(text: Seq<char>) -> bool {
    exists|i: int| 0 <= i < text.len() && white_space(#[trigger] text[i])
}

/// Whether some character of `text` is an ASCII letter.
pub open spec fn has_ascii_letter(text: Seq<char>) -> bool {
    exists|i: int| 0 <= i < text.len() && ascii_letter(#[trigger] text[i])
}

/// Whether some character of `text` is an ASCII digit.
pub open spec fn has_ascii_digit(text: Seq<char>) -> bool {
    exists|i: int| 0 <= i < text.len() && ascii_digit(#[trigger] text[i])
}

/// Compiles `pattern` with `regex::Regex::new` and searches `text` for it
/// with `Regex::is_match`; `None` where the pattern does not compile.
///
/// Trusted, for the three patterns that the lexer uses: each is one class of
/// characters repeated once or more, so a match exists anywhere in `text`
/// exactly when some character of `text` belongs to the class. `\s` is the
/// Unicode property `White_Space`, `[[:alpha:]]` the ASCII letters and
/// `[0-9]` the ASCII digits. Of other patterns nothing is claimed.
#[verifier::external_body]
fn pattern_found(pattern: &str, text: &str) -> (r: Option<bool>)
    ensures
        pattern@ == "\\s+"@ ==> r == Some(has_white_space(text@)),
        pattern@ == "[[:alpha:]]+"@ ==> r == Some(has_ascii_letter(text@)),
        pattern@ == "[0-9]+"@ ==> r == Some(has_ascii_digit(text@)),
{
    match regex::Regex::new(pattern) {
        Ok(re) => Some(re.is_match(text)),
        Err(_) => None,
    }
}

/// Whether `input` holds a whitespace character.
pub fn is_whitespace(input: &String) -> (r: bool)
    ensures
        r == has_white_space(input@),
{
    match pattern_found("\\s+", input.as_str()) {
        Some(found) => found,
        None => false,
    }
}

/// The texts of the operators.
pub open spec fn operator_text(text: Seq<char>) -> bool {
    ||| text == "!"@
    ||| text == "!="@
    ||| text == "=="@
    ||| text == "&&"@
    ||| text == "||"@
    ||| text == "<"@
    ||| text == ">"@
    ||| text == "<="@
    ||| text == ">="@
    ||| text == "+"@
    ||| text == "+="@
    ||| text == "-"@
    ||| text == "-="@
    ||| text == "="@
    ||| text == "*"@
    ||| text == "/"@
}

/// Whether `input` is the text of an operator.
pub fn is_operator(input: &String) -> (r: bool)
    ensures
        r == operator_text(input@),
{
    let s = input.as_str();
    text_is(s, "!") || text_is(s, "!=") || text_is(s, "==") || text_is(s, "&&") || text_is(
        s,
        "||",
    ) || text_is(s, "<") || text_is(s, ">") || text_is(s, "<=") || text_is(s, ">=") || text_is(
        s,
        "+",
    ) || text_is(s, "+=") || text_is(s, "-") || text_is(s, "-=") || text_is(s, "=") || text_is(
        s,
        "*",
    ) || text_is(s, "/")
}

/// The texts that can start a name: those whose first character is
/// alphabetic.
pub open spec fn identifier_text(text: Seq<char>) -> bool {
    text.len() > 0 && alphabetic(text[0])
}

/// Whether `input` starts with an alphabetic character. The empty text does
/// not. Of the characters below `U+0080` the letters `A` to `Z` and `a` to
/// `z` are alphabetic and no other.
pub fn is_identifier(input: &String) -> (r: bool)
    ensures
        r == identifier_text(input@),
        input@.len() == 0 ==> !r,
        input@.len() > 0 && (input@[0] as u32) < 0x80 ==> r == basic_letter(input@[0]),
{
    let s = input.as_str();
    if s.is_empty() {
        false
    } else {
        char_is_alphabetic(s.get_char(0))
    }
}

/// The texts of the separators.
pub open spec fn separator_text(text: Seq<char>) -> bool {
    ||| text == "("@
    ||| text == ")"@
    ||| text == "{"@
    ||| text == "}"@
    ||| text == ";"@
    ||| text == ","@
}

/// Whether `input` is the text of a separator.
pub fn is_separator(input: &String) -> (r: bool)
    ensures
        r == separator_text(input@),
{
    let s = input.as_str();
    text_is(s, "(") || text_is(s, ")") || text_is(s, "{") || text_is(s, "}") || text_is(s, ";")
        || text_is(s, ",")
}

/// The texts of the keywords.
pub open spec fn keyword_text(text: Seq<char>) -> bool {
    ||| text == "if"@
    ||| text == "else if"@
    ||| text == "elif"@
    ||| text == "else"@
    ||| text == "while"@
    ||| text == "for"@
    ||| text == "return"@
}

/// Whether `input` is the text of a keyword.
pub fn is_keyword(input: &String) -> (r: bool)
    ensures
        r == keyword_text(input@),
{
    let s = input.as_str();
    text_is(s, "if") || text_is(s, "else if") || text_is(s, "elif") || text_is(s, "else")
        || text_is(s, "while") || text_is(s, "for") || text_is(s, "return")
}

/// The names of the primitive types.
pub open spec fn primitive_text(text: Seq<char>) -> bool {
    ||| text == "int"@
    ||| text == "float"@
    ||| text == "bool"@
    ||| text == "char"@
}

/// Whether `input` names a primitive type.
pub fn is_primitive(input: &String) -> (r: bool)
    ensures
        r == primitive_text(input@),
{
    let s = input.as_str();
    text_is(s, "int") || text_is(s, "float") || text_is(s, "bool") || text_is(s, "char")
}

/// The kind of the token with the text `text`. The fixed vocabularies are
/// tried first, in the order separator, keyword, primitive, operator; then a
/// text with a letter in it is an identifier and one with a digit in it a
/// constant.
pub open spec fn classify(text: Seq<char>) -> TokenType {
    if separator_text(text) {
        TokenType::Separator
    } else if keyword_text(text) {
        TokenType::Keyword
    } else if primitive_text(text) {
        TokenType::Primitive
    } else if operator_text(text) {
        TokenType::Operator
    } else if has_ascii_letter(text) {
        TokenType::Identifier
    } else if has_ascii_digit(text) {
        TokenType::Constant
    } else {
        TokenType::Default
    }
}

/// The token with the text `text`.
pub open spec fn token_of(text: Seq<char>) -> TokenModel {
    TokenModel { kind: classify(text), text: text }
}

/// Makes the token with the text `input`.
pub fn construct_token(input: &String) -> (token: Token)
    ensures
        token@ == token_of(input@),
{
    let kind = if is_separator(input) {
        TokenType::Separator
    } else if is_keyword(input) {
        TokenType::Keyword
    } else if is_primitive(input) {
        TokenType::Primitive
    } else if is_operator(input) {
        TokenType::Operator
    } else {
        match pattern_found("[[:alpha:]]+", input.as_str()) {
            Some(true) => TokenType::Identifier,
            _ => match pattern_found("[0-9]+", input.as_str()) {
                Some(true) => TokenType::Constant,
                _ => TokenType::Default,
            },
        }
    };
    Token { token_type: kind, val: input.clone() }
}

/// The token of the text gathered so far, if any was gathered.
pub open spec fn flushed(current: Seq<char>) -> Seq<TokenModel> {
    if current.len() == 0 {
        Seq::empty()
    } else {
        seq![token_of(current)]
    }
}

/// The tokens of `chars` from position `i` on, where `current` holds the
/// characters gathered since the last delimiter.
///
/// A whitespace character ends the current piece. A character that is by
/// itself an operator or a separator ends it too and is a token of its own.
/// A piece that the end of the text cuts off yields no token.
pub open spec fn lexed(chars: Seq<char>, i: nat, current: Seq<char>) -> Seq<TokenModel>
    decreases chars.len() - i,
{
    if i >= chars.len() {
        Seq::empty()
    } else {
        let c = chars[i as int];
        if white_space(c) {
            flushed(current) + lexed(chars, i + 1, Seq::empty())
        } else if operator_text(seq![c]) || separator_text(seq![c]) {
            flushed(current) + seq![token_of(seq![c])] + lexed(chars, i + 1, Seq::empty())
        } else {
            lexed(chars, i + 1, current.push(c))
        }
    }
}

/// The tokens of a source text.
pub open spec fn lexed_text(chars: Seq<char>) -> Seq<TokenModel> {
    lexed(chars, 0, Seq::empty())
}

/// The element-wise values of a token sequence.
pub open spec fn token_models(tokens: Seq<Token>) -> Seq<TokenModel> {
    Seq::new(tokens.len(), |i: int| tokens[i]@)
}

fn single(c: char) -> (s: String)
    ensures
        s@ == seq![c],
{
    let mut s = String::new();
    push_char(&mut s, c);
    assert(s@ =~= seq![c]);
    s
}

fn flush(tokens: &mut Vec<Token>, current: &String)
    ensures
        token_models(final(tokens)@) == token_models(old(tokens)@) + flushed(current@),
{
    if !current.as_str().is_empty() {
        tokens.push(construct_token(current));
    }
    assert(token_models(tokens@) =~= token_models(old(tokens)@) + flushed(current@));
}

/// Cuts `input` into tokens.
pub fn lex_file(input: String) -> (tokens: Vec<Token>)
    ensures
        token_models(tokens@) == lexed_text(input@),
{
    broadcast use vstd::string::group_string_axioms;

    let mut token_vector: Vec<Token> = Vec::new();
    let mut current_token_val: String = String::new();
    let mut chars = input.as_str().chars();
    let ghost mut i: nat = 0;
    assert(token_models(token_vector@) =~= Seq::empty());
    loop
        invariant
            i <= input@.len(),
            chars.remaining() == input@.skip(i as int),
            chars.obeys_prophetic_iter_laws(),
            chars.decrease() is Some,
            lexed_text(input@) == token_models(token_vector@) + lexed(
                input@,
                i,
                current_token_val@,
            ),
        decreases chars.decrease()->0,
    {
        let ghost before = chars;
        let character = match chars.next() {
            Some(c) => c,
            None => {
                assert(token_models(token_vector@) + Seq::<TokenModel>::empty()
                    =~= token_models(token_vector@));
                return token_vector;
            },
        };
        assert(before.remaining().len() > 0);
        assert(character == input@[i as int]);
        assert(chars.remaining() =~= input@.skip(i as int + 1));
        let piece = single(character);
        let ghost so_far = token_models(token_vector@);
        let ghost current = current_token_val@;
        assert(has_white_space(piece@) == white_space(character)) by {
            if white_space(character) {
                assert(white_space(piece@[0]));
            }
        }
        if is_whitespace(&piece) {
            flush(&mut token_vector, &current_token_val);
            current_token_val = String::new();
            assert(token_models(token_vector@) + lexed(input@, i + 1, Seq::empty()) =~= so_far
                + lexed(input@, i, current));
        } else if is_operator(&piece) || is_separator(&piece) {
            flush(&mut token_vector, &current_token_val);
            let ghost flushed_tokens = token_vector@;
            token_vector.push(construct_token(&piece));
            current_token_val = String::new();
            assert(token_models(token_vector@) =~= token_models(flushed_tokens) + seq![
                token_of(piece@),
            ]);
            assert(token_models(token_vector@) + lexed(input@, i + 1, Seq::empty()) =~= so_far
                + lexed(input@, i, current));
        } else {
            push_char(&mut current_token_val, character);
        }
        proof {
            i = i + 1;
        }
    }
}

} // verus!
