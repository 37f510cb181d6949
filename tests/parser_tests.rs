use frutta::errors::{Error, ErrorType, Unexpected};
use frutta::expr::Expr;
use frutta::number::Num;
use frutta::parser::Parser;
use frutta::statement::Statement;
use frutta::tokens::{LexError, Token};

fn parse(input: &str) -> Result<Expr, Error> {
    let mut parser = Parser::new(input);
    parser.next_token()?;
    parser.parse_expr()
}

fn n(v: i64) -> Box<Expr> {
    Box::new(Expr::Number(Num::integer(v)))
}

fn op(op: Token, lhs: Box<Expr>, rhs: Box<Expr>) -> Box<Expr> {
    Box::new(Expr::BinaryOp { op, lhs, rhs })
}

#[test]
fn test_parse_number() {
    assert_eq!(parse("42"), Ok(Expr::Number(Num::integer(42))));
}

#[test]
fn test_parse_addition() {
    assert_eq!(parse("1 + 2"), Ok(*op(Token::Plus, n(1), n(2))));
}

#[test]
fn test_parse_multiplication() {
    assert_eq!(
        parse("4 * 2"),
        Ok(Expr::BinaryOp {
            op: Token::Star,
            lhs: Box::new(Expr::Number(Num::integer(4))),
            rhs: Box::new(Expr::Number(Num::integer(2))),
        })
    );
}

#[test]
fn test_parse_parentheses() {
    assert_eq!(parse("(1 + 2) * 3"), Ok(*op(Token::Star, op(Token::Plus, n(1), n(2)), n(3))));
}

#[test]
fn test_unexpected_token() {
    let e = parse("1 +").unwrap_err();
    assert_eq!(e.error_type(), &ErrorType::UnexpectedEndOfFile);
}

#[test]
fn test_unclosed_parenthesis() {
    let e = parse("(1 + 2").unwrap_err();
    assert_eq!(e.error_type(), &ErrorType::UnClosedParenthesis);
    assert_eq!(e.position(), 1);
}

#[test]
fn test_unexpected_end_of_file() {
    let e = parse("1 + 2 *").unwrap_err();
    assert_eq!(e.error_type(), &ErrorType::UnexpectedEndOfFile);
}

#[test]
fn test_invalid_token() {
    let e = parse("1 + @").unwrap_err();
    assert!(matches!(e.error_type(), ErrorType::UnexpectedToken(_)));
    assert_eq!(e.position(), 3);
    assert_eq!(e.error_type(), &ErrorType::UnexpectedToken(Unexpected::Text(LexError::UnexpectedCharacter('@'))));
}

#[test]
fn test_nested_parentheses() {
    assert_eq!(parse("((1 + 2) * 3)"), Ok(*op(Token::Star, op(Token::Plus, n(1), n(2)), n(3))));
}

#[test]
fn test_multiple_operations() {
    assert_eq!(
        parse("1 + 2 * 3 - 4 / 2"),
        Ok(*op(
            Token::Minus,
            op(Token::Plus, n(1), op(Token::Star, n(2), n(3))),
            op(Token::Divider, n(4), n(2)),
        ))
    );
}

#[test]
fn test_whitespace_handling() {
    assert_eq!(parse(" 1 +  2 * 3"), Ok(*op(Token::Plus, n(1), op(Token::Star, n(2), n(3)))));
}

#[test]
fn unexpected_token_is_reported_with_the_token() {
    let e = parse("1 + )").unwrap_err();
    assert_eq!(e.error_type(), &ErrorType::UnexpectedToken(Unexpected::Token(Token::RParen)));
}

#[test]
fn comparisons_nest_to_the_right() {
    assert_eq!(
        parse("1 == 2 == 3"),
        Ok(*op(Token::Equal, n(1), op(Token::Equal, n(2), n(3))))
    );
}

#[test]
fn accessor_chain_is_flat() {
    assert_eq!(
        parse("a.b.c"),
        Ok(Expr::Acessor(vec![
            Expr::Identifier("a".to_string()),
            Expr::Identifier("b".to_string()),
            Expr::Identifier("c".to_string()),
        ]))
    );
}

#[test]
fn call_with_arguments() {
    assert_eq!(
        parse("f(1, x)(2)"),
        Ok(Expr::Call(
            Box::new(Expr::Call(
                Box::new(Expr::Identifier("f".to_string())),
                vec![Expr::Number(Num::integer(1)), Expr::Identifier("x".to_string())],
            )),
            vec![Expr::Number(Num::integer(2))],
        ))
    );
}

#[test]
fn booleans_and_strings_are_literals() {
    assert_eq!(parse("true"), Ok(Expr::Boolean(true)));
    assert_eq!(parse("false"), Ok(Expr::Boolean(false)));
    assert_eq!(parse("\"hi\""), Ok(Expr::String("hi".to_string())));
    assert_eq!(parse("truth"), Ok(Expr::Identifier("truth".to_string())));
}

#[test]
fn modulo_is_multiplicative() {
    assert_eq!(parse("1 + 2 % 3"), Ok(*op(Token::Plus, n(1), op(Token::Modulo, n(2), n(3)))));
}

#[test]
fn program_statements() {
    let program = Parser::parse("x = 1\nfn add(a, b) { return a + b }\nif x == 1 { y = 2 } else { y = 3 }\n{ add(x, 2) }").unwrap();
    let stmts = match program {
        Statement::Block(s) => s,
        _ => panic!("a program is a block"),
    };
    assert_eq!(stmts.len(), 4);
    assert_eq!(stmts[0], Statement::Assign("x".to_string(), Expr::Number(Num::integer(1))));
    match &stmts[1] {
        Statement::Fn { name, params, body } => {
            assert_eq!(name, "add");
            assert_eq!(params, &vec!["a".to_string(), "b".to_string()]);
            assert_eq!(body.len(), 1);
            assert!(matches!(body[0], Statement::Return(_)));
        }
        _ => panic!("expected a function"),
    }
    match &stmts[2] {
        Statement::If { body, else_body, .. } => {
            assert_eq!(body.len(), 1);
            assert_eq!(else_body.len(), 1);
        }
        _ => panic!("expected a conditional"),
    }
    assert!(matches!(stmts[3], Statement::Block(_)));
}

#[test]
fn block_without_closing_brace_is_end_of_file() {
    let e = Parser::parse("if x { y = 1").unwrap_err();
    assert_eq!(e.error_type(), &ErrorType::UnexpectedEndOfFile);
}

#[test]
fn function_needs_a_name_and_parentheses() {
    let e = Parser::parse("fn (a) {}").unwrap_err();
    assert_eq!(e.error_type(), &ErrorType::ExpectedToken(Token::Identifier(String::new())));
    let e = Parser::parse("fn f a {}").unwrap_err();
    assert_eq!(e.error_type(), &ErrorType::ExpectedToken(Token::LParen));
    let e = Parser::parse("fn f(1) {}").unwrap_err();
    assert_eq!(e.error_type(), &ErrorType::ExpectedToken(Token::Identifier(String::new())));
    let e = Parser::parse("fn f(a b) {}").unwrap_err();
    assert_eq!(e.error_type(), &ErrorType::ExpectedToken(Token::Comma));
    assert!(Parser::parse("fn f(a, b,) {}").is_ok());
    let e = Parser::parse("if x y").unwrap_err();
    assert_eq!(e.error_type(), &ErrorType::ExpectedToken(Token::LBrace));
}

#[test]
fn error_location() {
    let e = Parser::parse("x = 1\ny = (2 + 3").unwrap_err();
    assert_eq!(e.error_type(), &ErrorType::UnClosedParenthesis);
    let (line, column, text) = e.location();
    assert_eq!(line, 2);
    assert_eq!(column, 5);
    assert_eq!(text, "y = (2 + 3");
}

#[test]
fn error_carries_kind_position_and_source() {
    let e = Error::new(ErrorType::UnexpectedEndOfFile, 3, "abc".to_string());
    assert_eq!(e.error_type(), &ErrorType::UnexpectedEndOfFile);
    assert_eq!(e.position(), 3);
    assert_eq!(e.source(), "abc");
    assert_eq!(e.location(), (1, 3, "abc".to_string()));
}
