use vstd::prelude::*;
use crate::number::Num;
use vstd::string::*;

verus! {

/// Relies on `String::push`: the character is appended at the end.
pub assume_specification[ std::string::String::push ](s: &mut std::string::String, ch: char)
    ensures
        final(s)@ == old(s)@.push(ch),
;

/// The name of what `char::is_alphabetic` answers for a character.
pub uninterp spec fn alphabetic(c: char) -> bool;

/// Relies on `char::is_alphabetic`: the answer depends on the character alone.
#[verifier::external_body]
fn is_alphabetic(c: char) -> (r: bool)
    ensures
        r == alphabetic(c),
{
    c.is_alphabetic()
}

/// One lexical unit of the language.
#[derive(Debug, PartialEq, Clone)]
pub enum Token {
    Number(Num),
    String(String),
    Identifier(String),
    Plus,
    Minus,
    Star,
    Divider,
    Modulo,
    LParen,
    RParen,
    LBrace,
    RBrace,
    Assign,
    Comma,
    Point,
    SemiColon,
    GreaterThan,
    LessThan,
    NotEqual,
    Equal,
}

/// A token with its text seen as a sequence of characters.
pub enum TokenView {
    Number(Num),
    String(Seq<char>),
    Identifier(Seq<char>),
    Plus,
    Minus,
    Star,
    Divider,
    Modulo,
    LParen,
    RParen,
    LBrace,
    RBrace,
    Assign,
    Comma,
    Point,
    SemiColon,
    GreaterThan,
    LessThan,
    NotEqual,
    Equal,
}

impl View for Token {
    type V = TokenView;

    open spec fn view(&self) -> TokenView {
        match self {
            Token::Number(n) => TokenView::Number(*n),
            Token::String(s) => TokenView::String(s@),
            Token::Identifier(s) => TokenView::Identifier(s@),
            Token::Plus => TokenView::Plus,
            Token::Minus => TokenView::Minus,
            Token::Star => TokenView::Star,
            Token::Divider => TokenView::Divider,
            Token::Modulo => TokenView::Modulo,
            Token::LParen => TokenView::LParen,
            Token::RParen => TokenView::RParen,
            Token::LBrace => TokenView::LBrace,
            Token::RBrace => TokenView::RBrace,
            Token::Assign => TokenView::Assign,
            Token::Comma => TokenView::Comma,
            Token::Point => TokenView::Point,
            Token::SemiColon => TokenView::SemiColon,
            Token::GreaterThan => TokenView::GreaterThan,
            Token::LessThan => TokenView::LessThan,
            Token::NotEqual => TokenView::NotEqual,
            Token::Equal => TokenView::Equal,
        }
    }
}

/// Why the text at some position is not a token.
#[derive(Debug, PartialEq, Eq, Clone, Copy, Structural)]
pub enum LexError {
    /// A character that starts no token (`!` not followed by `=` included).
    UnexpectedCharacter(char),
    /// A numeric literal with more than one `.`.
    MalformedNumber,
    /// A numeric literal whose digits or scale do not fit in 64 bits.
    NumberOutOfRange,
    /// A `"` without its closing `"`.
    UnterminatedString,
}

pub open spec fn is_space(c: char) -> bool {
    c == ' ' || c == '\n'
}

pub open spec fn is_digit(c: char) -> bool {
    '0' <= c <= '9'
}

pub open spec fn digit_value(c: char) -> int {
    c as int - '0' as int
}

/// The first position at or after `i` that holds no space.
pub open spec fn skip_spaces(s: Seq<char>, i: int) -> int
    decreases s.len() - i,
{
    if 0 <= i < s.len() && is_space(s[i]) {
        skip_spaces(s, i + 1)
    } else {
        i
    }
}

/// The end of the run of digits and dots that starts at `i`.
pub open spec fn number_end(s: Seq<char>, i: int) -> int
    decreases s.len() - i,
{
    if 0 <= i < s.len() && (is_digit(s[i]) || s[i] == '.') {
        number_end(s, i + 1)
    } else {
        i
    }
}

/// A character of an identifier: an ASCII letter, or an alphabetic character beyond ASCII.
pub open spec fn is_letter(c: char) -> bool {
    if (c as u32) < 128 {
        'a' <= c <= 'z' || 'A' <= c <= 'Z'
    } else {
        alphabetic(c)
    }
}

/// Whether `c` is a character of an identifier.
fn letter(c: char) -> (r: bool)
    ensures
        r == is_letter(c),
{
    if (c as u32) < 128 {
        ('a' <= c && c <= 'z') || ('A' <= c && c <= 'Z')
    } else {
        is_alphabetic(c)
    }
}

/// The end of the run of letters that starts at `i`.
pub open spec fn word_end(s: Seq<char>, i: int) -> int
    decreases s.len() - i,
{
    if 0 <= i < s.len() && is_letter(s[i]) {
        word_end(s, i + 1)
    } else {
        i
    }
}

/// The position of the first `"` at or after `i`, or the length if none.
pub open spec fn quote_end(s: Seq<char>, i: int) -> int
    decreases s.len() - i,
{
    if 0 <= i < s.len() && s[i] != '"' {
        quote_end(s, i + 1)
    } else {
        i
    }
}

/// How many dots a literal holds.
pub open spec fn dots(t: Seq<char>) -> nat
    decreases t.len(),
{
    if t.len() == 0 {
        0
    } else {
        dots(t.drop_last()) + if t.last() == '.' { 1nat } else { 0nat }
    }
}

/// The digits of a literal read as one integer, the dot left out.
pub open spec fn literal_digits(t: Seq<char>) -> int
    decreases t.len(),
{
    if t.len() == 0 {
        0
    } else if t.last() == '.' {
        literal_digits(t.drop_last())
    } else {
        literal_digits(t.drop_last()) * 10 + digit_value(t.last())
    }
}

/// Ten to the number of digits after the dot.
pub open spec fn literal_scale(t: Seq<char>) -> int
    decreases t.len(),
{
    if t.len() == 0 {
        1
    } else if t.last() != '.' && dots(t.drop_last()) > 0 {
        literal_scale(t.drop_last()) * 10
    } else {
        1
    }
}

/// The token that a character forms by itself, where it forms one.
pub open spec fn single_token(c: char) -> Option<TokenView> {
    if c == '+' {
        Some(TokenView::Plus)
    } else if c == '-' {
        Some(TokenView::Minus)
    } else if c == '*' {
        Some(TokenView::Star)
    } else if c == '/' {
        Some(TokenView::Divider)
    } else if c == '%' {
        Some(TokenView::Modulo)
    } else if c == '(' {
        Some(TokenView::LParen)
    } else if c == ')' {
        Some(TokenView::RParen)
    } else if c == '{' {
        Some(TokenView::LBrace)
    } else if c == '}' {
        Some(TokenView::RBrace)
    } else if c == ',' {
        Some(TokenView::Comma)
    } else if c == '.' {
        Some(TokenView::Point)
    } else if c == ';' {
        Some(TokenView::SemiColon)
    } else if c == '<' {
        Some(TokenView::LessThan)
    } else if c == '>' {
        Some(TokenView::GreaterThan)
    } else {
        None
    }
}

/// The first token of `s` at or after position `i`, with the position just past it;
/// `None` where only spaces are left.
pub open spec fn lex(s: Seq<char>, i: int) -> Result<Option<(TokenView, int)>, LexError> {
    let j = skip_spaces(s, i);
    if j >= s.len() {
        Ok(None)
    } else {
        let c = s[j];
        if c == '=' {
            if j + 1 < s.len() && s[j + 1] == '=' {
                Ok(Some((TokenView::Equal, j + 2)))
            } else {
                Ok(Some((TokenView::Assign, j + 1)))
            }
        } else if c == '!' {
            if j + 1 < s.len() && s[j + 1] == '=' {
                Ok(Some((TokenView::NotEqual, j + 2)))
            } else {
                Err(LexError::UnexpectedCharacter(c))
            }
        } else if single_token(c) is Some {
            Ok(Some((single_token(c)->0, j + 1)))
        } else if c == '"' {
            let e = quote_end(s, j + 1);
            if e < s.len() {
                Ok(Some((TokenView::String(s.subrange(j + 1, e)), e + 1)))
            } else {
                Err(LexError::UnterminatedString)
            }
        } else if is_digit(c) {
            let e = number_end(s, j);
            let t = s.subrange(j, e);
            if dots(t) > 1 {
                Err(LexError::MalformedNumber)
            } else if literal_digits(t) > i64::MAX || literal_scale(t) > i64::MAX {
                Err(LexError::NumberOutOfRange)
            } else {
                Ok(Some((TokenView::Number(Num { num: literal_digits(t) as i64, den: literal_scale(t) as i64 }), e)))
            }
        } else if is_letter(c) {
            let e = word_end(s, j);
            Ok(Some((TokenView::Identifier(s.subrange(j, e)), e)))
        } else {
            Err(LexError::UnexpectedCharacter(c))
        }
    }
}

/// What `lex_at` returned, seen through the token view.
pub open spec fn lex_result_view(r: Result<Option<(Token, usize)>, LexError>) -> Result<Option<(TokenView, int)>, LexError> {
    match r {
        Ok(Some((t, e))) => Ok(Some((t@, e as int))),
        Ok(None) => Ok(None),
        Err(x) => Err(x),
    }
}

/// Extending a literal by one more character gives no smaller digits or scale,
/// as long as it holds at most one dot.
proof fn lemma_literal_grows(t: Seq<char>, c: char)
    requires
        forall|k: int| 0 <= k < t.len() ==> is_digit(t[k]) || t[k] == '.',
        is_digit(c) || c == '.',
        dots(t.push(c)) <= 1,
    ensures
        literal_digits(t) <= literal_digits(t.push(c)),
        literal_scale(t) <= literal_scale(t.push(c)),
        literal_digits(t) >= 0,
        literal_scale(t) >= 1,
{
    lemma_literal_nonneg(t);
    assert(t.push(c).drop_last() =~= t);
}

proof fn lemma_literal_nonneg(t: Seq<char>)
    requires
        forall|k: int| 0 <= k < t.len() ==> is_digit(t[k]) || t[k] == '.',
    ensures
        literal_digits(t) >= 0,
        literal_scale(t) >= 1,
        dots(t) == 0 ==> literal_scale(t) == 1,
    decreases t.len(),
{
    if t.len() > 0 {
        lemma_literal_nonneg(t.drop_last());
    }
}

/// Growing a literal never makes its digits or scale smaller while it holds at most one dot.
proof fn lemma_literal_monotone(s: Seq<char>, j: int, k: int, e: int)
    requires
        0 <= j <= k <= e <= s.len(),
        forall|m: int| j <= m < e ==> is_digit(s[m]) || s[m] == '.',
        dots(s.subrange(j, e)) <= 1,
    ensures
        literal_digits(s.subrange(j, k)) <= literal_digits(s.subrange(j, e)),
        literal_scale(s.subrange(j, k)) <= literal_scale(s.subrange(j, e)),
    decreases e - k,
{
    if k < e {
        let t = s.subrange(j, e - 1);
        assert(s.subrange(j, e) =~= t.push(s[e - 1]));
        lemma_dots_prefix(s, j, e - 1, e);
        lemma_literal_grows(t, s[e - 1]);
        lemma_literal_monotone(s, j, k, e - 1);
    }
}

/// A prefix of a literal holds no more dots than the literal.
proof fn lemma_dots_prefix(s: Seq<char>, j: int, k: int, e: int)
    requires
        0 <= j <= k <= e <= s.len(),
    ensures
        dots(s.subrange(j, k)) <= dots(s.subrange(j, e)),
    decreases e - k,
{
    if k < e {
        assert(s.subrange(j, e).drop_last() =~= s.subrange(j, e - 1));
        lemma_dots_prefix(s, j, k, e - 1);
    }
}

fn single(c: char) -> (r: Option<Token>)
    ensures
        r is Some <==> single_token(c) is Some,
        r is Some ==> r->0@ == single_token(c)->0,
{
    match c {
        '+' => Some(Token::Plus),
        '-' => Some(Token::Minus),
        '*' => Some(Token::Star),
        '/' => Some(Token::Divider),
        '%' => Some(Token::Modulo),
        '(' => Some(Token::LParen),
        ')' => Some(Token::RParen),
        '{' => Some(Token::LBrace),
        '}' => Some(Token::RBrace),
        ',' => Some(Token::Comma),
        '.' => Some(Token::Point),
        ';' => Some(Token::SemiColon),
        '<' => Some(Token::LessThan),
        '>' => Some(Token::GreaterThan),
        _ => None,
    }
}

/// Reads the numeric literal that starts at `j`, a digit.
fn lex_number(s: &Vec<char>, j: usize) -> (r: Result<(Token, usize), LexError>)
    requires
        j < s.len(),
        is_digit(s@[j as int]),
    ensures
        lex_result_view(match r { Ok(p) => Ok(Some(p)), Err(x) => Err(x) }) == ({
            let e = number_end(s@, j as int);
            let t = s@.subrange(j as int, e);
            if dots(t) > 1 {
                Err(LexError::MalformedNumber)
            } else if literal_digits(t) > i64::MAX || literal_scale(t) > i64::MAX {
                Err(LexError::NumberOutOfRange)
            } else {
                Ok(Some((TokenView::Number(Num { num: literal_digits(t) as i64, den: literal_scale(t) as i64 }), e)))
            }
        }),
        r matches Ok((_, e)) ==> j < e <= s.len(),
{
    let ghost sv = s@;
    let mut e: usize = j + 1;
    let mut ndots: usize = 0;
    assert(sv.subrange(j as int, j + 1) =~= seq![sv[j as int]]);
    assert(seq![sv[j as int]].drop_last() =~= Seq::<char>::empty());
    assert(dots(Seq::<char>::empty()) == 0);
    assert(seq![sv[j as int]].last() == sv[j as int]);
    assert(dots(seq![sv[j as int]]) == 0);
    while e < s.len() && (('0' <= s[e] && s[e] <= '9') || s[e] == '.')
        invariant
            sv == s@,
            j < e <= s.len(),
            number_end(sv, j as int) == number_end(sv, e as int),
            forall|m: int| j <= m < e ==> is_digit(sv[m]) || sv[m] == '.',
            ndots == dots(sv.subrange(j as int, e as int)),
            ndots <= e - j,
        decreases s.len() - e,
    {
        assert(sv.subrange(j as int, e + 1).drop_last() =~= sv.subrange(j as int, e as int));
        if s[e] == '.' {
            ndots = ndots + 1;
        }
        e = e + 1;
    }
    if ndots > 1 {
        return Err(LexError::MalformedNumber);
    }
    let mut num: i64 = 0;
    let mut den: i64 = 1;
    let mut k: usize = j;
    let mut seen_dot = false;
    while k < e
        invariant
            seen_dot == (dots(sv.subrange(j as int, k as int)) > 0),
            sv == s@,
            j <= k <= e <= s.len(),
            e == number_end(sv, j as int),
            forall|m: int| j <= m < e ==> is_digit(sv[m]) || sv[m] == '.',
            dots(sv.subrange(j as int, e as int)) <= 1,
            num == literal_digits(sv.subrange(j as int, k as int)),
            den == literal_scale(sv.subrange(j as int, k as int)),
        decreases e - k,
    {
        let ghost t = sv.subrange(j as int, k as int);
        assert(sv.subrange(j as int, k + 1) =~= t.push(sv[k as int]));
        assert(t.push(sv[k as int]).drop_last() =~= t);
        assert(t.push(sv[k as int]).last() == sv[k as int]);
        assert(dots(t.push(sv[k as int])) == dots(t) + if sv[k as int] == '.' { 1nat } else { 0nat });
        assert(literal_digits(t.push(sv[k as int])) == if sv[k as int] == '.' { literal_digits(t) } else {
            literal_digits(t) * 10 + digit_value(sv[k as int])
        });
        assert(literal_scale(t.push(sv[k as int])) == if sv[k as int] != '.' && dots(t) > 0 {
            literal_scale(t) * 10
        } else {
            1
        });
        proof {
            lemma_literal_nonneg(t);
            lemma_dots_prefix(sv, j as int, k + 1, e as int);
            lemma_dots_prefix(sv, j as int, k as int, e as int);
            lemma_literal_monotone(sv, j as int, k + 1, e as int);
        }
        let c = s[k];
        if c == '.' {
            seen_dot = true;
        } else {
            let d = (c as u32 - '0' as u32) as i128;
            let wide: i128 = num as i128 * 10 + d;
            if wide > i64::MAX as i128 {
                return Err(LexError::NumberOutOfRange);
            }
            num = wide as i64;
            if seen_dot {
                let wide_den: i128 = den as i128 * 10;
                if wide_den > i64::MAX as i128 {
                    return Err(LexError::NumberOutOfRange);
                }
                den = wide_den as i64;
            }
        }
        k = k + 1;
    }
    Ok((Token::Number(Num { num, den }), e))
}

/// The first token of `s` at or after position `i`, with the position just past it.
pub fn lex_at(s: &Vec<char>, i: usize) -> (r: Result<Option<(Token, usize)>, LexError>)
    requires
        i <= s.len(),
    ensures
        lex_result_view(r) == lex(s@, i as int),
        r matches Ok(Some((_, e))) ==> i < e <= s.len(),
{
    let ghost sv = s@;
    let mut j: usize = i;
    while j < s.len() && (s[j] == ' ' || s[j] == '\n')
        invariant
            sv == s@,
            i <= j <= s.len(),
            skip_spaces(sv, i as int) == skip_spaces(sv, j as int),
        decreases s.len() - j,
    {
        j = j + 1;
    }
    if j >= s.len() {
        return Ok(None);
    }
    let c = s[j];
    if c == '=' {
        if j + 1 < s.len() && s[j + 1] == '=' {
            Ok(Some((Token::Equal, j + 2)))
        } else {
            Ok(Some((Token::Assign, j + 1)))
        }
    } else if c == '!' {
        if j + 1 < s.len() && s[j + 1] == '=' {
            Ok(Some((Token::NotEqual, j + 2)))
        } else {
            Err(LexError::UnexpectedCharacter(c))
        }
    } else if let Some(t) = single(c) {
        Ok(Some((t, j + 1)))
    } else if c == '"' {
        let mut text = std::string::String::new();
        let mut e: usize = j + 1;
        while e < s.len() && s[e] != '"'
            invariant
                sv == s@,
                j + 1 <= e <= s.len(),
                quote_end(sv, j + 1) == quote_end(sv, e as int),
                text@ == sv.subrange(j + 1, e as int),
            decreases s.len() - e,
        {
            text.push(s[e]);
            assert(sv.subrange(j + 1, e + 1) =~= sv.subrange(j + 1, e as int).push(sv[e as int]));
            e = e + 1;
        }
        if e < s.len() {
            Ok(Some((Token::String(text), e + 1)))
        } else {
            Err(LexError::UnterminatedString)
        }
    } else if '0' <= c && c <= '9' {
        match lex_number(s, j) {
            Ok(p) => Ok(Some(p)),
            Err(x) => Err(x),
        }
    } else if letter(c) {
        let mut name = std::string::String::new();
        name.push(c);
        assert(sv.subrange(j as int, j + 1) =~= seq![c]);
        let mut e: usize = j + 1;
        while e < s.len() && letter(s[e])
            invariant
                sv == s@,
                j < e <= s.len(),
                word_end(sv, j as int) == word_end(sv, e as int),
                name@ == sv.subrange(j as int, e as int),
            decreases s.len() - e,
        {
            name.push(s[e]);
            assert(sv.subrange(j as int, e + 1) =~= sv.subrange(j as int, e as int).push(sv[e as int]));
            e = e + 1;
        }
        Ok(Some((Token::Identifier(name), e)))
    } else {
        Err(LexError::UnexpectedCharacter(c))
    }
}

impl Token {
    /// A copy of the token.
    pub fn copied(&self) -> (r: Token)
        ensures
            r == *self,
    {
        match self {
            Token::Number(n) => Token::Number(*n),
            Token::String(s) => Token::String(s.clone()),
            Token::Identifier(s) => Token::Identifier(s.clone()),
            Token::Plus => Token::Plus,
            Token::Minus => Token::Minus,
            Token::Star => Token::Star,
            Token::Divider => Token::Divider,
            Token::Modulo => Token::Modulo,
            Token::LParen => Token::LParen,
            Token::RParen => Token::RParen,
            Token::LBrace => Token::LBrace,
            Token::RBrace => Token::RBrace,
            Token::Assign => Token::Assign,
            Token::Comma => Token::Comma,
            Token::Point => Token::Point,
            Token::SemiColon => Token::SemiColon,
            Token::GreaterThan => Token::GreaterThan,
            Token::LessThan => Token::LessThan,
            Token::NotEqual => Token::NotEqual,
            Token::Equal => Token::Equal,
        }
    }

    /// The first token of `input` and the text after it; `None` where `input`
    /// holds nothing but spaces and newlines.
    pub fn tokenize_first(input: &str) -> (r: Result<Option<(Token, &str)>, LexError>)
        ensures
            match r {
                Ok(Some((t, rest))) => exists|e: int|
                    lex(input@, 0) == Ok::<_, LexError>(Some((t@, e))) && rest@ == input@.subrange(e, input@.len() as int),
                Ok(None) => lex(input@, 0) == Ok::<Option<(TokenView, int)>, LexError>(None),
                Err(x) => lex(input@, 0) == Err::<Option<(TokenView, int)>, LexError>(x),
            },
    {
        let chars = chars_of(input);
        match lex_at(&chars, 0) {
            Ok(Some((t, e))) => {
                let rest = input.substring_char(e, chars.len());
                Ok(Some((t, rest)))
            },
            Ok(None) => Ok(None),
            Err(x) => Err(x),
        }
    }
}

/// The characters of `s`, in order.
pub fn chars_of(s: &str) -> (r: Vec<char>)
    ensures
        r@ == s@,
{
    let mut v: Vec<char> = Vec::new();
    for c in it: s.chars()
        invariant
            v@ == it.seq().take(it.index() as int),
    {
        v.push(c);
    }
    v
}

} // verus!
