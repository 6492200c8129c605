use rift::error::RiftError;
use rift::lexer::{is_keyword, tokenize, TokenKind};

#[test]
fn test_basic_tokenization() {
    let input = "@rift test { @fuse \"python\" { \"print('hello')\" } }";
    let tokens = tokenize(input).unwrap();

    assert_eq!(tokens.len(), 9);
    assert_eq!(tokens[0].value, "@rift");
    assert_eq!(tokens[0].kind, TokenKind::Keyword);
    assert_eq!(tokens[1].value, "test");
    assert_eq!(tokens[1].kind, TokenKind::Identifier);
}

#[test]
fn test_string_escaping() {
    let input = r#""hello\nworld""#;
    let tokens = tokenize(input).unwrap();

    assert_eq!(tokens.len(), 1);
    assert_eq!(tokens[0].value, "hello\nworld");
    assert_eq!(tokens[0].kind, TokenKind::String);
}

#[test]
fn test_numbers() {
    let input = "123 45.67";
    let tokens = tokenize(input).unwrap();

    assert_eq!(tokens.len(), 2);
    assert_eq!(tokens[0].value, "123");
    assert_eq!(tokens[0].kind, TokenKind::Number);
    assert_eq!(tokens[1].value, "45.67");
    assert_eq!(tokens[1].kind, TokenKind::Number);
}

#[test]
fn test_comments() {
    let input = "test // this is a comment\n@rift";
    let tokens = tokenize(input).unwrap();

    assert_eq!(tokens.len(), 3);
    assert_eq!(tokens[0].value, "test");
    assert_eq!(tokens[1].kind, TokenKind::Comment);
    assert_eq!(tokens[2].value, "@rift");
}

#[test]
fn test_error_handling() {
    let input = "test $ invalid";
    let result = tokenize(input);
    assert!(result.is_err());
}

#[test]
fn unexpected_character_names_line_and_column() {
    match tokenize("let x = 1;\n  $") {
        Err(RiftError::ParseError(m)) => assert_eq!(m, "Unexpected character '$' at line 2, column 3"),
        _ => panic!("expected a parse error"),
    }
}

#[test]
fn blank_input_has_no_tokens() {
    assert_eq!(tokenize("").unwrap().len(), 0);
    assert_eq!(tokenize(" \t\r\n").unwrap().len(), 0);
    assert_eq!(tokenize("\u{a0}\u{2003}").unwrap().len(), 0);
}

#[test]
fn positions_and_symbols() {
    let tokens = tokenize("let x = 10;\ncall y;").unwrap();
    let kinds: Vec<TokenKind> = tokens.iter().map(|t| t.kind).collect();
    assert_eq!(
        kinds,
        vec![
            TokenKind::Keyword,
            TokenKind::Identifier,
            TokenKind::Symbol,
            TokenKind::Number,
            TokenKind::Symbol,
            TokenKind::Keyword,
            TokenKind::Identifier,
            TokenKind::Symbol,
        ]
    );
    assert_eq!((tokens[0].line, tokens[0].column), (1, 1));
    assert_eq!((tokens[3].line, tokens[3].column), (1, 9));
    assert_eq!((tokens[5].line, tokens[5].column), (2, 1));
    assert_eq!((tokens[6].line, tokens[6].column), (2, 6));
}

#[test]
fn comment_value_and_column() {
    let tokens = tokenize("x //note\ny").unwrap();
    assert_eq!(tokens[1].value, "note");
    assert_eq!(tokens[1].column, 5);
    assert_eq!(tokens[2].line, 2);
}

#[test]
fn escapes_in_strings() {
    let tokens = tokenize(r#""a\tb\"c\\d\qe""#).unwrap();
    assert_eq!(tokens[0].value, "a\tb\"c\\d\\qe");
    let unterminated = tokenize("\"open").unwrap();
    assert_eq!(unterminated[0].value, "open");
}

#[test]
fn unicode_words_are_identifiers() {
    let tokens = tokenize("größe _x1 @deploy").unwrap();
    assert_eq!(tokens[0].value, "größe");
    assert_eq!(tokens[0].kind, TokenKind::Identifier);
    assert_eq!(tokens[1].value, "_x1");
    assert_eq!(tokens[2].kind, TokenKind::Keyword);
}

#[test]
fn keywords() {
    for w in ["@rift", "@fuse", "@task", "@target", "@deploy", "let", "call", "if", "else", "while", "with", "optimize"] {
        assert!(is_keyword(w), "{}", w);
    }
    assert!(!is_keyword("rift"));
    assert!(!is_keyword("@rifts"));
    assert!(!is_keyword(""));
}
