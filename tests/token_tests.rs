use frutta::number::Num;
use frutta::tokens::{LexError, Token};

#[test]
fn test_tokenize_first() {
    assert_eq!(Token::tokenize_first("1+2"), Ok(Some((Token::Number(Num::integer(1)), "+2"))));
    assert_eq!(Token::tokenize_first("+2"), Ok(Some((Token::Plus, "2"))));
    assert_eq!(Token::tokenize_first("2"), Ok(Some((Token::Number(Num::integer(2)), ""))));
    assert_eq!(Token::tokenize_first("(abc"), Ok(Some((Token::LParen, "abc"))));
    assert_eq!(Token::tokenize_first(")"), Ok(Some((Token::RParen, ""))));
    assert_eq!(
        Token::tokenize_first("abc"),
        Ok(Some((Token::Identifier("abc".to_string()), "")))
    );
    assert_eq!(Token::tokenize_first("0.1"), Ok(Some((Token::Number(Num::from_parts(1, 10)), ""))));
    assert_eq!(Token::tokenize_first(""), Ok(None));

    assert_eq!(Token::tokenize_first(" 1+2"), Ok(Some((Token::Number(Num::integer(1)), "+2"))));
    assert_eq!(Token::tokenize_first(" +2"), Ok(Some((Token::Plus, "2"))));
    assert_eq!(Token::tokenize_first(" 2"), Ok(Some((Token::Number(Num::integer(2)), ""))));
    assert_eq!(Token::tokenize_first(" (abc"), Ok(Some((Token::LParen, "abc"))));
    assert_eq!(Token::tokenize_first(" )"), Ok(Some((Token::RParen, ""))));
    assert_eq!(
        Token::tokenize_first(" abc"),
        Ok(Some((Token::Identifier("abc".to_string()), "")))
    );
    assert_eq!(Token::tokenize_first(" 0.1"), Ok(Some((Token::Number(Num::from_parts(1, 10)), ""))));
    assert_eq!(Token::tokenize_first(" "), Ok(None));
}

#[test]
fn tokenizing_one_plus_two_gives_three_tokens() {
    let (first, rest) = Token::tokenize_first("1+2").unwrap().unwrap();
    assert_eq!(first, Token::Number(Num::integer(1)));
    let (second, rest) = Token::tokenize_first(rest).unwrap().unwrap();
    assert_eq!(second, Token::Plus);
    let (third, rest) = Token::tokenize_first(rest).unwrap().unwrap();
    assert_eq!(third, Token::Number(Num::integer(2)));
    assert_eq!(Token::tokenize_first(rest), Ok(None));
}

#[test]
fn two_character_operators() {
    assert_eq!(Token::tokenize_first("==x"), Ok(Some((Token::Equal, "x"))));
    assert_eq!(Token::tokenize_first("=x"), Ok(Some((Token::Assign, "x"))));
    assert_eq!(Token::tokenize_first("!= 1"), Ok(Some((Token::NotEqual, " 1"))));
    assert_eq!(Token::tokenize_first("!x"), Err(LexError::UnexpectedCharacter('!')));
}

#[test]
fn punctuation() {
    let all = "-*/%{},.;<>";
    let expected = [
        Token::Minus,
        Token::Star,
        Token::Divider,
        Token::Modulo,
        Token::LBrace,
        Token::RBrace,
        Token::Comma,
        Token::Point,
        Token::SemiColon,
        Token::LessThan,
        Token::GreaterThan,
    ];
    let mut rest = all;
    for t in expected.iter() {
        let (got, r) = Token::tokenize_first(rest).unwrap().unwrap();
        assert_eq!(&got, t);
        rest = r;
    }
    assert_eq!(rest, "");
}

#[test]
fn numeric_literals() {
    assert_eq!(Token::tokenize_first("12.50x"), Ok(Some((Token::Number(Num::from_parts(1250, 100)), "x"))));
    assert_eq!(Token::tokenize_first("7."), Ok(Some((Token::Number(Num::integer(7)), ""))));
    assert_eq!(Token::tokenize_first("1.2.3"), Err(LexError::MalformedNumber));
    assert_eq!(Token::tokenize_first("9223372036854775807"), Ok(Some((Token::Number(Num::integer(i64::MAX)), ""))));
    assert_eq!(Token::tokenize_first("9223372036854775808"), Err(LexError::NumberOutOfRange));
}

#[test]
fn string_literals() {
    assert_eq!(Token::tokenize_first("\"a b\" c"), Ok(Some((Token::String("a b".to_string()), " c"))));
    assert_eq!(Token::tokenize_first("\"open"), Err(LexError::UnterminatedString));
}

#[test]
fn words_stop_at_other_characters() {
    assert_eq!(Token::tokenize_first("\n\nab1"), Ok(Some((Token::Identifier("ab".to_string()), "1"))));
    assert_eq!(Token::tokenize_first("été"), Ok(Some((Token::Identifier("été".to_string()), ""))));
    assert_eq!(Token::tokenize_first("_a"), Err(LexError::UnexpectedCharacter('_')));
}
