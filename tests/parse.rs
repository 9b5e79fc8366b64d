use rlox::ast_printer::AstPrinter;
use rlox::expr::{Expr, LiteralType};
use rlox::parser::{Expected, ParseError, Parser, MAX_NESTING};
use rlox::scanner;
use rlox::token::{Token, TokenType};
use rlox::visitor::walk_expr;

fn parse_source(source: &str) -> Result<Expr, ParseError> {
    let tokens = scanner::scan_tokens(source).tokens;
    let mut parser = Parser::new(&tokens);
    parser.parse()
}

fn render(source: &str) -> String {
    let expr = parse_source(source).unwrap();
    walk_expr(&mut AstPrinter, &expr)
}

fn num(text: &str) -> Box<Expr> {
    Box::new(Expr::Literal { value: LiteralType::Number(text.to_string()) })
}

#[test]
fn parse_expression() {
    let expr_string = "(5 - (3 - 1)) + -1";
    let tokens = scanner::scan_tokens(expr_string).tokens;
    let mut parser = Parser::new(&tokens);
    let expr = Parser::parse(&mut parser).unwrap();

    assert_eq!(
        expr,
        Expr::Binary {
            left: Box::new(Expr::Grouping {
                expression: Box::new(Expr::Binary {
                    left: Box::new(Expr::Literal {
                        value: LiteralType::Number("5".to_string())
                    }),
                    operator: Token::new(TokenType::Minus, "-", 1),
                    right: Box::new(Expr::Grouping {
                        expression: Box::new(Expr::Binary {
                            left: Box::new(Expr::Literal {
                                value: LiteralType::Number("3".to_string())
                            }),
                            operator: Token::new(TokenType::Minus, "-", 1),
                            right: Box::new(Expr::Literal {
                                value: LiteralType::Number("1".to_string())
                            })
                        })
                    })
                })
            }),
            operator: Token::new(TokenType::Plus, "+", 1),
            right: Box::new(Expr::Unary {
                operator: Token::new(TokenType::Minus, "-", 1),
                right: Box::new(Expr::Literal {
                    value: LiteralType::Number("1".to_string())
                })
            })
        }
    )
}

#[test]
fn subtraction_groups_to_the_left() {
    let minus = || Token::new(TokenType::Minus, "-", 1);
    let expected = Expr::Binary {
        left: Box::new(Expr::Binary { left: num("1"), operator: minus(), right: num("2") }),
        operator: minus(),
        right: num("3"),
    };
    assert_eq!(parse_source("1 - 2 - 3").unwrap(), expected);
}

#[test]
fn printed_round_trip() {
    assert_eq!(render("(5 - (3 - 1)) + -1"), "(+ (group (- 5 (group (- 3 1)))) (- 1))");
}

#[test]
fn precedence_levels() {
    assert_eq!(render("1 + 2 * 3 == 7 > 2"), "(== (+ 1 (* 2 3)) (> 7 2))");
    assert_eq!(render("1 < 2 < 3"), "(< (< 1 2) 3)");
    assert_eq!(render("8 / 4 / 2"), "(/ (/ 8 4) 2)");
    assert_eq!(render("!!true != false"), "(!= (! (! true)) false)");
}

#[test]
fn literals_print() {
    assert_eq!(render("\"hi there\""), "hi there");
    assert_eq!(render("nil"), "");
    assert_eq!(render("2.50"), "2.5");
    assert_eq!(render("-(1)"), "(- (group 1))");
}

#[test]
fn missing_right_paren() {
    match parse_source("(1 + 2") {
        Err(ParseError::Syntax { expected, found, line }) => {
            assert_eq!(expected, Expected::RightParen);
            assert_eq!(found.token_type, TokenType::Eof);
            assert_eq!(line, 1);
        }
        other => panic!("unexpected result: {:?}", other),
    }
}

#[test]
fn missing_expression() {
    match parse_source("1 + )") {
        Err(ParseError::Syntax { expected, found, .. }) => {
            assert_eq!(expected, Expected::Expression);
            assert_eq!(found, Token::new(TokenType::RightParen, ")", 1));
        }
        other => panic!("unexpected result: {:?}", other),
    }
    match parse_source("") {
        Err(ParseError::Syntax { expected, .. }) => assert_eq!(expected, Expected::Expression),
        other => panic!("unexpected result: {:?}", other),
    }
}

#[test]
fn nesting_limit() {
    let deep = format!("{}1{}", "(".repeat(MAX_NESTING), ")".repeat(MAX_NESTING));
    assert!(parse_source(&deep).is_ok());
    let too_deep = format!("{}1{}", "(".repeat(MAX_NESTING + 1), ")".repeat(MAX_NESTING + 1));
    match parse_source(&too_deep) {
        Err(ParseError::TooDeep { found, line }) => {
            assert_eq!(found.token_type, TokenType::LeftParen);
            assert_eq!(line, 1);
        }
        other => panic!("unexpected result: {:?}", other),
    }
    let negations = format!("{}1", "-".repeat(MAX_NESTING + 1));
    assert!(matches!(parse_source(&negations), Err(ParseError::TooDeep { .. })));
}

#[test]
fn parse_stops_after_one_expression() {
    let tokens = scanner::scan_tokens("1 2").tokens;
    let mut parser = Parser::new(&tokens);
    assert_eq!(walk_expr(&mut AstPrinter, &parser.parse().unwrap()), "1");
    assert_eq!(walk_expr(&mut AstPrinter, &parser.parse().unwrap()), "2");
}

#[test]
fn printer_direct() {
    let expr = parse_source("-(2 * 3)").unwrap();
    assert_eq!(AstPrinter.print(&expr), "(- (group (* 2 3)))");
}
