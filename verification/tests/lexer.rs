use c_compiler::text::{decimal_text, offset_magnitude};
use c_compiler::token::{
    construct_token, is_identifier, is_keyword, is_operator, is_primitive, is_separator,
    is_whitespace, lex_file, Token, TokenType,
};

fn kinds(tokens: &[Token]) -> Vec<TokenType> {
    tokens.iter().map(|t| t.token_type).collect()
}

fn texts(tokens: &[Token]) -> Vec<&str> {
    tokens.iter().map(|t| t.val.as_str()).collect()
}

#[test]
fn lexes_a_declaration() {
    let tokens = lex_file("int x ;\n".to_string());
    assert_eq!(texts(&tokens), vec!["int", "x", ";"]);
    assert_eq!(
        kinds(&tokens),
        vec![TokenType::Primitive, TokenType::Identifier, TokenType::Separator]
    );
}

#[test]
fn separators_and_operators_delimit_without_whitespace() {
    let tokens = lex_file("int main(){x=y+12;return x;}\n".to_string());
    assert_eq!(
        texts(&tokens),
        vec![
            "int", "main", "(", ")", "{", "x", "=", "y", "+", "12", ";", "return", "x", ";", "}"
        ]
    );
    assert_eq!(
        kinds(&tokens),
        vec![
            TokenType::Primitive,
            TokenType::Identifier,
            TokenType::Separator,
            TokenType::Separator,
            TokenType::Separator,
            TokenType::Identifier,
            TokenType::Operator,
            TokenType::Identifier,
            TokenType::Operator,
            TokenType::Constant,
            TokenType::Separator,
            TokenType::Keyword,
            TokenType::Identifier,
            TokenType::Separator,
            TokenType::Separator,
        ]
    );
}

#[test]
fn comma_is_a_separator() {
    let tokens = lex_file("f(a,b);".to_string());
    assert_eq!(texts(&tokens), vec!["f", "(", "a", ",", "b", ")", ";"]);
    assert_eq!(tokens[3].token_type, TokenType::Separator);
}

#[test]
fn operators_are_cut_character_by_character() {
    let tokens = lex_file("a==b ".to_string());
    assert_eq!(texts(&tokens), vec!["a", "=", "=", "b"]);
}

#[test]
fn a_piece_cut_off_by_the_end_of_the_text_yields_no_token() {
    assert_eq!(texts(&lex_file("int x".to_string())), vec!["int"]);
    assert!(lex_file("x".to_string()).is_empty());
    assert!(lex_file("".to_string()).is_empty());
    assert!(lex_file(" \t\n".to_string()).is_empty());
}

#[test]
fn unicode_whitespace_delimits() {
    let tokens = lex_file("a\u{a0}b\u{2003}c\u{3000}".to_string());
    assert_eq!(texts(&tokens), vec!["a", "b", "c"]);
}

#[test]
fn whitespace_is_found_anywhere_in_a_text() {
    assert!(is_whitespace(&" ".to_string()));
    assert!(is_whitespace(&"a b".to_string()));
    assert!(is_whitespace(&"ab\n".to_string()));
    assert!(is_whitespace(&"\u{85}".to_string()));
    assert!(!is_whitespace(&"ab".to_string()));
    assert!(!is_whitespace(&"".to_string()));
    assert!(!is_whitespace(&"s".to_string()));
    assert!(!is_whitespace(&"\\s+".to_string()));
    assert!(!is_whitespace(&"\u{200b}".to_string()));
}

#[test]
fn operator_texts() {
    for text in [
        "!", "!=", "==", "&&", "||", "<", ">", "<=", ">=", "+", "+=", "-", "-=", "=", "*", "/",
    ] {
        assert!(is_operator(&text.to_string()), "{}", text);
    }
    for text in ["", "a", "++", "%", "(", "= ", "=="] {
        assert_eq!(is_operator(&text.to_string()), text == "==", "{}", text);
    }
}

#[test]
fn separator_texts() {
    for text in ["(", ")", "{", "}", ";", ","] {
        assert!(is_separator(&text.to_string()), "{}", text);
    }
    for text in ["", "[", "]", "()", ":", "+"] {
        assert!(!is_separator(&text.to_string()), "{}", text);
    }
}

#[test]
fn keyword_texts() {
    for text in ["if", "else if", "elif", "else", "while", "for", "return"] {
        assert!(is_keyword(&text.to_string()), "{}", text);
    }
    for text in ["", "If", "int", "true", "returns"] {
        assert!(!is_keyword(&text.to_string()), "{}", text);
    }
}

#[test]
fn primitive_texts() {
    for text in ["int", "float", "bool", "char"] {
        assert!(is_primitive(&text.to_string()), "{}", text);
    }
    for text in ["", "Int", "double", "void", "int "] {
        assert!(!is_primitive(&text.to_string()), "{}", text);
    }
}

#[test]
fn identifier_starts_with_an_alphabetic_character() {
    assert!(is_identifier(&"x".to_string()));
    assert!(is_identifier(&"x1".to_string()));
    assert!(is_identifier(&"if".to_string()));
    assert!(is_identifier(&"\u{e9}t\u{e9}".to_string()));
    assert!(!is_identifier(&"1x".to_string()));
    assert!(!is_identifier(&"_x".to_string()));
    assert!(!is_identifier(&"(".to_string()));
    assert!(!is_identifier(&"".to_string()));
}

#[test]
fn tokens_are_classified_by_their_text() {
    let cases = [
        (";", TokenType::Separator),
        (",", TokenType::Separator),
        ("while", TokenType::Keyword),
        ("elif", TokenType::Keyword),
        ("bool", TokenType::Primitive),
        (">=", TokenType::Operator),
        ("count", TokenType::Identifier),
        ("x1", TokenType::Identifier),
        ("1x", TokenType::Identifier),
        ("42", TokenType::Constant),
        ("_7", TokenType::Constant),
        ("_", TokenType::Default),
        ("", TokenType::Default),
        ("\u{e9}", TokenType::Default),
    ];
    for (text, kind) in cases {
        let token = construct_token(&text.to_string());
        assert_eq!(token.token_type, kind, "{:?}", text);
        assert_eq!(token.val, text);
    }
}

#[test]
fn decimal_numerals() {
    assert_eq!(decimal_text(0), "0");
    assert_eq!(decimal_text(7), "7");
    assert_eq!(decimal_text(10), "10");
    assert_eq!(decimal_text(42), "42");
    assert_eq!(decimal_text(1_000_000), "1000000");
    assert_eq!(decimal_text(u64::MAX), "18446744073709551615");
}

#[test]
fn offset_magnitudes() {
    assert_eq!(offset_magnitude(0), 0);
    assert_eq!(offset_magnitude(8), 8);
    assert_eq!(offset_magnitude(-8), 8);
    assert_eq!(offset_magnitude(i32::MAX), 2147483647);
    assert_eq!(offset_magnitude(i32::MIN), 2147483648);
}
