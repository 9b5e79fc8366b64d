use rlox::expr::LiteralType;
use rlox::scanner::{scan_tokens, ScanError};
use rlox::token::{Token, TokenType};

fn number(text: &str) -> LiteralType {
    LiteralType::Number(text.to_string())
}

fn string(text: &str) -> LiteralType {
    LiteralType::String(text.to_string())
}

fn kinds(source: &str) -> Vec<TokenType> {
    scan_tokens(source).tokens.iter().map(|t| t.token_type).collect()
}

#[test]
fn punctuators() {
    let source = "( ){};,+-*!===<=>=!=<>/.";
    let tokens = scan_tokens(source).tokens;
    let expected_tokens = vec![
        Token::new(TokenType::LeftParen, "(", 1),
        Token::new(TokenType::RightParen, ")", 1),
        Token::new(TokenType::LeftBrace, "{", 1),
        Token::new(TokenType::RightBrace, "}", 1),
        Token::new(TokenType::Semicolon, ";", 1),
        Token::new(TokenType::Comma, ",", 1),
        Token::new(TokenType::Plus, "+", 1),
        Token::new(TokenType::Minus, "-", 1),
        Token::new(TokenType::Star, "*", 1),
        Token::new(TokenType::BangEqual, "!=", 1),
        Token::new(TokenType::EqualEqual, "==", 1),
        Token::new(TokenType::LessEqual, "<=", 1),
        Token::new(TokenType::GreaterEqual, ">=", 1),
        Token::new(TokenType::BangEqual, "!=", 1),
        Token::new(TokenType::Less, "<", 1),
        Token::new(TokenType::Greater, ">", 1),
        Token::new(TokenType::Slash, "/", 1),
        Token::new(TokenType::Dot, ".", 1),
        Token::new(TokenType::Eof, "", 1),
    ];
    assert_eq!(tokens, expected_tokens);
}

#[test]
fn comments() {
    let source = "/////  \n\
        /*//*-\n\
        +";
    let tokens = scan_tokens(source).tokens;
    let expected_tokens = vec![
        Token::new(TokenType::Slash, "/", 2),
        Token::new(TokenType::Star, "*", 2),
        Token::new(TokenType::Plus, "+", 3),
        Token::new(TokenType::Eof, "", 3),
    ];
    assert_eq!(tokens, expected_tokens);
}

#[test]
fn string_literals() {
    let source = "\"\"\"string\"\"first\n\
        second\"";
    let tokens = scan_tokens(source).tokens;
    let expected_tokens = vec![
        Token::new_literal(TokenType::String, "\"\"", string(""), 1),
        Token::new_literal(TokenType::String, "\"string\"", string("string"), 1),
        Token::new_literal(
            TokenType::String,
            "\"first\nsecond\"",
            string("first\nsecond"),
            2,
        ),
        Token::new(TokenType::Eof, "", 2),
    ];
    assert_eq!(tokens, expected_tokens);
}

#[test]
fn numbers() {
    let source = "123\n\
        123.456\n\
        .456\n\
        123.";
    let tokens = scan_tokens(source).tokens;
    let expected_tokens = vec![
        Token::new_literal(TokenType::Number, "123", number("123"), 1),
        Token::new_literal(TokenType::Number, "123.456", number("123.456"), 2),
        Token::new(TokenType::Dot, ".", 3),
        Token::new_literal(TokenType::Number, "456", number("456"), 3),
        Token::new_literal(TokenType::Number, "123", number("123"), 4),
        Token::new(TokenType::Dot, ".", 4),
        Token::new(TokenType::Eof, "", 4),
    ];
    assert_eq!(tokens, expected_tokens);
}

#[test]
fn identifiers() {
    let source = "andy formless fo _ _123 _abc象 ab_123\n\
        abcdefghijklmnopqrstuvwxyzABCDEFGHIJKLMNOPQRSTUVWXYZ1234567890_";
    let tokens = scan_tokens(source).tokens;
    let expected_tokens = vec![
        Token::new(TokenType::Identifier, "andy", 1),
        Token::new(TokenType::Identifier, "formless", 1),
        Token::new(TokenType::Identifier, "fo", 1),
        Token::new(TokenType::Identifier, "_", 1),
        Token::new(TokenType::Identifier, "_123", 1),
        Token::new(TokenType::Identifier, "_abc象", 1),
        Token::new(TokenType::Identifier, "ab_123", 1),
        Token::new(
            TokenType::Identifier,
            "abcdefghijklmnopqrstuvwxyzABCDEFGHIJKLMNOPQRSTUVWXYZ1234567890_",
            2,
        ),
        Token::new(TokenType::Eof, "", 2),
    ];
    assert_eq!(tokens, expected_tokens);
}

#[test]
fn keywords() {
    let source = "and class else false for fun if nil or print return super this true var while";
    let tokens = scan_tokens(source).tokens;
    let expected_tokens = vec![
        Token::new(TokenType::And, "and", 1),
        Token::new(TokenType::Class, "class", 1),
        Token::new(TokenType::Else, "else", 1),
        Token::new(TokenType::False, "false", 1),
        Token::new(TokenType::For, "for", 1),
        Token::new(TokenType::Fun, "fun", 1),
        Token::new(TokenType::If, "if", 1),
        Token::new(TokenType::Nil, "nil", 1),
        Token::new(TokenType::Or, "or", 1),
        Token::new(TokenType::Print, "print", 1),
        Token::new(TokenType::Return, "return", 1),
        Token::new(TokenType::Super, "super", 1),
        Token::new(TokenType::This, "this", 1),
        Token::new(TokenType::True, "true", 1),
        Token::new(TokenType::Var, "var", 1),
        Token::new(TokenType::While, "while", 1),
        Token::new(TokenType::Eof, "", 1),
    ];
    assert_eq!(tokens, expected_tokens);
}

#[test]
fn whitespaces() {
    let source = "space    tabs\t\t\t\tnewlines \n\n cr\r\rend";
    let tokens = scan_tokens(source).tokens;
    let expected_tokens = vec![
        Token::new(TokenType::Identifier, "space", 1),
        Token::new(TokenType::Identifier, "tabs", 1),
        Token::new(TokenType::Identifier, "newlines", 1),
        Token::new(TokenType::Identifier, "cr", 3),
        Token::new(TokenType::Identifier, "end", 3),
        Token::new(TokenType::Eof, "", 3),
    ];
    assert_eq!(tokens, expected_tokens);
}

#[test]
fn ends_with_one_end_marker() {
    for source in ["", "1 + 2", "\"open", "@#", "a // comment", "x\n\n"] {
        let tokens = scan_tokens(source).tokens;
        assert_eq!(tokens.last().unwrap().token_type, TokenType::Eof);
        let markers = tokens.iter().filter(|t| t.token_type == TokenType::Eof).count();
        assert_eq!(markers, 1);
    }
}

#[test]
fn maximal_munch() {
    assert_eq!(
        kinds("!===<=>=!=<>"),
        vec![
            TokenType::BangEqual,
            TokenType::EqualEqual,
            TokenType::LessEqual,
            TokenType::GreaterEqual,
            TokenType::BangEqual,
            TokenType::Less,
            TokenType::Greater,
            TokenType::Eof,
        ]
    );
}

#[test]
fn dot_before_number() {
    let tokens = scan_tokens(".456").tokens;
    assert_eq!(
        tokens,
        vec![
            Token::new(TokenType::Dot, ".", 1),
            Token::new_literal(TokenType::Number, "456", number("456"), 1),
            Token::new(TokenType::Eof, "", 1),
        ]
    );
}

#[test]
fn dot_after_number() {
    let tokens = scan_tokens("123.").tokens;
    assert_eq!(
        tokens,
        vec![
            Token::new_literal(TokenType::Number, "123", number("123"), 1),
            Token::new(TokenType::Dot, ".", 1),
            Token::new(TokenType::Eof, "", 1),
        ]
    );
}

#[test]
fn dot_then_letter_after_number() {
    assert_eq!(
        kinds("1.a"),
        vec![TokenType::Number, TokenType::Dot, TokenType::Identifier, TokenType::Eof]
    );
}

#[test]
fn string_across_lines_moves_the_line() {
    let tokens = scan_tokens("\"first\nsecond\" x").tokens;
    assert_eq!(
        tokens,
        vec![
            Token::new_literal(
                TokenType::String,
                "\"first\nsecond\"",
                string("first\nsecond"),
                2,
            ),
            Token::new(TokenType::Identifier, "x", 2),
            Token::new(TokenType::Eof, "", 2),
        ]
    );
}

#[test]
fn empty_source() {
    let out = scan_tokens("");
    assert_eq!(out.tokens, vec![Token::new(TokenType::Eof, "", 1)]);
    assert!(out.errors.is_empty());
}

#[test]
fn numbers_in_canonical_form() {
    let tokens = scan_tokens("007.50 3.0 0.000 10 0.25").tokens;
    let values: Vec<LiteralType> = tokens
        .iter()
        .filter_map(|t| t.literal.clone())
        .collect();
    assert_eq!(
        values,
        vec![number("7.5"), number("3"), number("0"), number("10"), number("0.25")]
    );
    assert_eq!(tokens[0].lexeme, "007.50");
}

#[test]
fn unexpected_characters_are_reported_and_skipped() {
    let out = scan_tokens("1 @\n# 2");
    assert_eq!(
        out.errors,
        vec![
            ScanError::UnexpectedCharacter { character: '@', line: 1 },
            ScanError::UnexpectedCharacter { character: '#', line: 2 },
        ]
    );
    assert_eq!(
        out.tokens,
        vec![
            Token::new_literal(TokenType::Number, "1", number("1"), 1),
            Token::new_literal(TokenType::Number, "2", number("2"), 2),
            Token::new(TokenType::Eof, "", 2),
        ]
    );
}

#[test]
fn unterminated_string_makes_no_token() {
    let out = scan_tokens("1 \"abc\ndef");
    assert_eq!(out.errors, vec![ScanError::UnterminatedString { line: 2 }]);
    assert_eq!(
        out.tokens,
        vec![
            Token::new_literal(TokenType::Number, "1", number("1"), 1),
            Token::new(TokenType::Eof, "", 2),
        ]
    );
}

#[test]
fn comment_runs_to_end_of_line_only() {
    assert_eq!(
        kinds("1 // 2 3\n4"),
        vec![TokenType::Number, TokenType::Number, TokenType::Eof]
    );
    let tokens = scan_tokens("1 // 2 3\n4").tokens;
    assert_eq!(tokens[1].lexeme, "4");
    assert_eq!(tokens[1].line, 2);
}

#[test]
fn lines_never_decrease() {
    let tokens = scan_tokens("a\n\"b\nc\" d\n\ne").tokens;
    let lines: Vec<usize> = tokens.iter().map(|t| t.line).collect();
    assert_eq!(lines, vec![1, 3, 3, 5, 5]);
}
