use vstd::prelude::*;
use crate::errors::{ErrorType, Unexpected};
use crate::expr::{is_additive, is_comparison, is_multiplicative, Expr};
use crate::number::Num;
use crate::statement::{word_else, word_fn, word_if, word_return, Statement};
use crate::tokens::{lex, LexError, TokenView};

verus! {

/// An expression with its text seen as characters.
pub enum ExprView {
    Number(Num),
    Boolean(bool),
    Identifier(Seq<char>),
    Str(Seq<char>),
    Acessor(Seq<ExprView>),
    Call(Box<ExprView>, Seq<ExprView>),
    BinaryOp(TokenView, Box<ExprView>, Box<ExprView>),
}

/// A statement with its text seen as characters.
pub enum StatementView {
    Return(ExprView),
    Expr(ExprView),
    Block(Seq<StatementView>),
    Fn(Seq<char>, Seq<Seq<char>>, Seq<StatementView>),
    Assign(Seq<char>, ExprView),
    If(ExprView, Seq<StatementView>, Seq<StatementView>),
}

/// What stood where it may not, with a token seen through its view.
pub enum UnexpectedView {
    Token(TokenView),
    Text(LexError),
}

/// An error kind with its tokens seen through their views.
pub enum ErrorView {
    UnexpectedToken(UnexpectedView),
    UnexpectedEndOfFile,
    UnClosedParenthesis,
    ExpectedToken(TokenView),
}

pub open spec fn expr_view(e: Expr) -> ExprView
    decreases e,
{
    match e {
        Expr::Number(n) => ExprView::Number(n),
        Expr::Boolean(b) => ExprView::Boolean(b),
        Expr::Identifier(s) => ExprView::Identifier(s@),
        Expr::String(s) => ExprView::Str(s@),
        Expr::Acessor(parts) => ExprView::Acessor(exprs_view(parts@)),
        Expr::Call(f, args) => ExprView::Call(Box::new(expr_view(*f)), exprs_view(args@)),
        Expr::BinaryOp { op, lhs, rhs } => ExprView::BinaryOp(op@, Box::new(expr_view(*lhs)), Box::new(expr_view(*rhs))),
    }
}

pub open spec fn exprs_view(s: Seq<Expr>) -> Seq<ExprView>
    decreases s,
{
    if s.len() == 0 {
        Seq::empty()
    } else {
        exprs_view(s.drop_last()).push(expr_view(s.last()))
    }
}

pub open spec fn names_view(s: Seq<String>) -> Seq<Seq<char>> {
    s.map_values(|x: String| x@)
}

pub open spec fn statement_view(st: Statement) -> StatementView
    decreases st,
{
    match st {
        Statement::Return(e) => StatementView::Return(expr_view(e)),
        Statement::Expr(e) => StatementView::Expr(expr_view(e)),
        Statement::Block(b) => StatementView::Block(statements_view(b@)),
        Statement::Fn { name, params, body } => StatementView::Fn(name@, names_view(params@), statements_view(body@)),
        Statement::Assign(n, e) => StatementView::Assign(n@, expr_view(e)),
        Statement::If { condition, body, else_body } => StatementView::If(
            expr_view(condition),
            statements_view(body@),
            statements_view(else_body@),
        ),
    }
}

pub open spec fn statements_view(s: Seq<Statement>) -> Seq<StatementView>
    decreases s,
{
    if s.len() == 0 {
        Seq::empty()
    } else {
        statements_view(s.drop_last()).push(statement_view(s.last()))
    }
}

pub open spec fn error_view(k: ErrorType) -> ErrorView {
    match k {
        ErrorType::UnexpectedToken(Unexpected::Token(t)) => ErrorView::UnexpectedToken(UnexpectedView::Token(t@)),
        ErrorType::UnexpectedToken(Unexpected::Text(x)) => ErrorView::UnexpectedToken(UnexpectedView::Text(x)),
        ErrorType::UnexpectedEndOfFile => ErrorView::UnexpectedEndOfFile,
        ErrorType::UnClosedParenthesis => ErrorView::UnClosedParenthesis,
        ErrorType::ExpectedToken(t) => ErrorView::ExpectedToken(t@),
    }
}

/// Where the parser stands: the position just past the current token, and that token.
pub struct PState {
    pub pos: int,
    pub cur: Option<TokenView>,
}

/// What a parsing step gives: a result and the state after it, or an error kind and
/// the position where it was found.
pub enum Parsed<T> {
    Done(T, PState),
    Failed(ErrorView, int),
}

/// What is left to read from a state: it shrinks with every token consumed.
pub open spec fn measure(s: Seq<char>, ps: PState) -> int {
    2 * (s.len() - ps.pos) + if ps.cur is Some { 1int } else { 0int }
}

/// `b` is a state strictly further on than `a`.
pub open spec fn further(s: Seq<char>, b: PState, a: PState) -> bool {
    0 <= measure(s, b) < measure(s, a)
}

/// Read the next token; text that forms no token is an unexpected token.
pub open spec fn advance(s: Seq<char>, ps: PState) -> Parsed<()> {
    match lex(s, ps.pos) {
        Ok(Some((t, e))) => Parsed::Done((), PState { pos: e, cur: Some(t) }),
        Ok(None) => Parsed::Done((), PState { pos: ps.pos, cur: None }),
        Err(x) => Parsed::Failed(ErrorView::UnexpectedToken(UnexpectedView::Text(x)), ps.pos),
    }
}

/// The outcome given back where a state fails to move on; the parser never meets it.
pub open spec fn stuck<T>(ps: PState) -> Parsed<T> {
    Parsed::Failed(ErrorView::UnexpectedEndOfFile, ps.pos)
}

/// An expression: a sum, followed by a comparison operator and a whole expression.
pub open spec fn expr_g(s: Seq<char>, ps: PState) -> Parsed<ExprView>
    decreases measure(s, ps), 6nat,
{
    match add_sub_g(s, ps) {
        Parsed::Failed(k, p) => Parsed::Failed(k, p),
        Parsed::Done(lhs, ps1) => if !is_comparison(ps1.cur) {
            Parsed::Done(lhs, ps1)
        } else if !further(s, ps1, ps) {
            stuck(ps1)
        } else {
            match advance(s, ps1) {
                Parsed::Failed(k, p) => Parsed::Failed(k, p),
                Parsed::Done(_, ps2) => if !further(s, ps2, ps1) {
                    stuck(ps2)
                } else {
                    match expr_g(s, ps2) {
                        Parsed::Failed(k, p) => Parsed::Failed(k, p),
                        Parsed::Done(rhs, ps3) => Parsed::Done(
                            ExprView::BinaryOp(ps1.cur->0, Box::new(lhs), Box::new(rhs)),
                            ps3,
                        ),
                    }
                },
            }
        },
    }
}

/// Sums and differences, left to right.
pub open spec fn add_sub_g(s: Seq<char>, ps: PState) -> Parsed<ExprView>
    decreases measure(s, ps), 5nat,
{
    match term_g(s, ps) {
        Parsed::Failed(k, p) => Parsed::Failed(k, p),
        Parsed::Done(lhs, ps1) => if !further(s, ps1, ps) {
            stuck(ps1)
        } else {
            add_sub_rest(s, ps1, lhs)
        },
    }
}

/// The rest of a sum whose left part `lhs` has been read.
pub open spec fn add_sub_rest(s: Seq<char>, ps: PState, lhs: ExprView) -> Parsed<ExprView>
    decreases measure(s, ps), 5nat,
{
    if !is_additive(ps.cur) {
        Parsed::Done(lhs, ps)
    } else {
        match advance(s, ps) {
            Parsed::Failed(k, p) => Parsed::Failed(k, p),
            Parsed::Done(_, ps2) => if !further(s, ps2, ps) {
                stuck(ps2)
            } else {
                match term_g(s, ps2) {
                    Parsed::Failed(k, p) => Parsed::Failed(k, p),
                    Parsed::Done(rhs, ps3) => if !further(s, ps3, ps2) {
                        stuck(ps3)
                    } else {
                        add_sub_rest(s, ps3, ExprView::BinaryOp(ps.cur->0, Box::new(lhs), Box::new(rhs)))
                    },
                }
            },
        }
    }
}

/// Products, quotients and remainders, left to right.
pub open spec fn term_g(s: Seq<char>, ps: PState) -> Parsed<ExprView>
    decreases measure(s, ps), 4nat,
{
    match call_g(s, ps) {
        Parsed::Failed(k, p) => Parsed::Failed(k, p),
        Parsed::Done(lhs, ps1) => if !further(s, ps1, ps) {
            stuck(ps1)
        } else {
            term_rest(s, ps1, lhs)
        },
    }
}

/// The rest of a product whose left part `lhs` has been read.
pub open spec fn term_rest(s: Seq<char>, ps: PState, lhs: ExprView) -> Parsed<ExprView>
    decreases measure(s, ps), 4nat,
{
    if !is_multiplicative(ps.cur) {
        Parsed::Done(lhs, ps)
    } else {
        match advance(s, ps) {
            Parsed::Failed(k, p) => Parsed::Failed(k, p),
            Parsed::Done(_, ps2) => if !further(s, ps2, ps) {
                stuck(ps2)
            } else {
                match call_g(s, ps2) {
                    Parsed::Failed(k, p) => Parsed::Failed(k, p),
                    Parsed::Done(rhs, ps3) => if !further(s, ps3, ps2) {
                        stuck(ps3)
                    } else {
                        term_rest(s, ps3, ExprView::BinaryOp(ps.cur->0, Box::new(lhs), Box::new(rhs)))
                    },
                }
            },
        }
    }
}

/// An accessor chain followed by any number of argument lists.
pub open spec fn call_g(s: Seq<char>, ps: PState) -> Parsed<ExprView>
    decreases measure(s, ps), 3nat,
{
    match accessors_g(s, ps) {
        Parsed::Failed(k, p) => Parsed::Failed(k, p),
        Parsed::Done(lhs, ps1) => if !further(s, ps1, ps) {
            stuck(ps1)
        } else {
            call_rest(s, ps1, lhs)
        },
    }
}

/// The argument lists that follow the callee `lhs`.
pub open spec fn call_rest(s: Seq<char>, ps: PState, lhs: ExprView) -> Parsed<ExprView>
    decreases measure(s, ps), 3nat,
{
    if !(ps.cur matches Some(TokenView::LParen)) {
        Parsed::Done(lhs, ps)
    } else {
        match advance(s, ps) {
            Parsed::Failed(k, p) => Parsed::Failed(k, p),
            Parsed::Done(_, ps2) => if !further(s, ps2, ps) {
                stuck(ps2)
            } else {
                match args_g(s, ps2, Seq::empty()) {
                    Parsed::Failed(k, p) => Parsed::Failed(k, p),
                    Parsed::Done(args, ps3) => if !(0 <= measure(s, ps3) <= measure(s, ps2)) {
                        stuck(ps3)
                    } else {
                        match advance(s, ps3) {
                            Parsed::Failed(k, p) => Parsed::Failed(k, p),
                            Parsed::Done(_, ps4) => if !further(s, ps4, ps3) {
                                stuck(ps4)
                            } else {
                                call_rest(s, ps4, ExprView::Call(Box::new(lhs), args))
                            },
                        }
                    },
                }
            },
        }
    }
}

/// Arguments up to the closing `)` (left current): expressions, each optionally
/// followed by a comma.
pub open spec fn args_g(s: Seq<char>, ps: PState, acc: Seq<ExprView>) -> Parsed<Seq<ExprView>>
    decreases measure(s, ps), 7nat,
{
    if ps.cur matches Some(TokenView::RParen) {
        Parsed::Done(acc, ps)
    } else {
        match expr_g(s, ps) {
            Parsed::Failed(k, p) => Parsed::Failed(k, p),
            Parsed::Done(e, ps1) => if !further(s, ps1, ps) {
                stuck(ps1)
            } else if ps1.cur matches Some(TokenView::Comma) {
                match advance(s, ps1) {
                    Parsed::Failed(k, p) => Parsed::Failed(k, p),
                    Parsed::Done(_, ps2) => if !further(s, ps2, ps1) {
                        stuck(ps2)
                    } else {
                        args_g(s, ps2, acc.push(e))
                    },
                }
            } else {
                args_g(s, ps1, acc.push(e))
            },
        }
    }
}

/// A factor, then `.` and a factor any number of times, collected into one chain.
pub open spec fn accessors_g(s: Seq<char>, ps: PState) -> Parsed<ExprView>
    decreases measure(s, ps), 2nat,
{
    match factor_g(s, ps) {
        Parsed::Failed(k, p) => Parsed::Failed(k, p),
        Parsed::Done(first, ps1) => if !(ps1.cur matches Some(TokenView::Point)) {
            Parsed::Done(first, ps1)
        } else if !further(s, ps1, ps) {
            stuck(ps1)
        } else {
            accessors_rest(s, ps1, seq![first])
        },
    }
}

/// The rest of an accessor chain whose parts so far are `parts`; the current token is `.`.
pub open spec fn accessors_rest(s: Seq<char>, ps: PState, parts: Seq<ExprView>) -> Parsed<ExprView>
    decreases measure(s, ps), 2nat,
{
    match advance(s, ps) {
        Parsed::Failed(k, p) => Parsed::Failed(k, p),
        Parsed::Done(_, ps2) => if !further(s, ps2, ps) {
            stuck(ps2)
        } else {
            match factor_g(s, ps2) {
                Parsed::Failed(k, p) => Parsed::Failed(k, p),
                Parsed::Done(f, ps3) => if !(ps3.cur matches Some(TokenView::Point)) {
                    Parsed::Done(ExprView::Acessor(parts.push(f)), ps3)
                } else if !further(s, ps3, ps2) {
                    stuck(ps3)
                } else {
                    accessors_rest(s, ps3, parts.push(f))
                },
            }
        },
    }
}

/// A literal, a name (`true` and `false` are literals), or an expression in parentheses.
pub open spec fn factor_g(s: Seq<char>, ps: PState) -> Parsed<ExprView>
    decreases measure(s, ps), 1nat,
{
    match ps.cur {
        None => Parsed::Failed(ErrorView::UnexpectedEndOfFile, ps.pos),
        Some(TokenView::LParen) => paren_g(s, ps),
        Some(TokenView::Number(n)) => match advance(s, ps) {
            Parsed::Failed(k, p) => Parsed::Failed(k, p),
            Parsed::Done(_, ps2) => Parsed::Done(ExprView::Number(n), ps2),
        },
        Some(TokenView::String(t)) => match advance(s, ps) {
            Parsed::Failed(k, p) => Parsed::Failed(k, p),
            Parsed::Done(_, ps2) => Parsed::Done(ExprView::Str(t), ps2),
        },
        Some(TokenView::Identifier(t)) => match advance(s, ps) {
            Parsed::Failed(k, p) => Parsed::Failed(k, p),
            Parsed::Done(_, ps2) => Parsed::Done(
                if t == seq!['t', 'r', 'u', 'e'] {
                    ExprView::Boolean(true)
                } else if t == seq!['f', 'a', 'l', 's', 'e'] {
                    ExprView::Boolean(false)
                } else {
                    ExprView::Identifier(t)
                },
                ps2,
            ),
        },
        Some(t) => Parsed::Failed(ErrorView::UnexpectedToken(UnexpectedView::Token(t)), ps.pos),
    }
}

/// `( expression )`; an unclosed parenthesis is reported just past where it was opened.
pub open spec fn paren_g(s: Seq<char>, ps: PState) -> Parsed<ExprView>
    decreases measure(s, ps), 0nat,
{
    match advance(s, ps) {
        Parsed::Failed(k, p) => Parsed::Failed(k, p),
        Parsed::Done(_, ps2) => if !further(s, ps2, ps) {
            stuck(ps2)
        } else {
            match expr_g(s, ps2) {
                Parsed::Failed(k, p) => Parsed::Failed(k, p),
                Parsed::Done(e, ps3) => if !(ps3.cur matches Some(TokenView::RParen)) {
                    Parsed::Failed(ErrorView::UnClosedParenthesis, ps.pos)
                } else {
                    match advance(s, ps3) {
                        Parsed::Failed(k, p) => Parsed::Failed(k, p),
                        Parsed::Done(_, ps4) => Parsed::Done(e, ps4),
                    }
                },
            }
        },
    }
}

/// A statement, chosen by its first token.
pub open spec fn statement_g(s: Seq<char>, ps: PState) -> Parsed<StatementView>
    decreases measure(s, ps), 11nat,
{
    match ps.cur {
        Some(TokenView::Identifier(k)) => identifier_g(s, ps, k),
        Some(TokenView::LBrace) => match block_g(s, ps) {
            Parsed::Failed(k, p) => Parsed::Failed(k, p),
            Parsed::Done(b, ps1) => Parsed::Done(StatementView::Block(b), ps1),
        },
        _ => match expr_g(s, ps) {
            Parsed::Failed(k, p) => Parsed::Failed(k, p),
            Parsed::Done(e, ps1) => Parsed::Done(StatementView::Expr(e), ps1),
        },
    }
}

/// A statement that starts with the identifier `key`: `fn`, `return` and `if` open their
/// constructs, a name followed by `=` an assignment, anything else an expression.
pub open spec fn identifier_g(s: Seq<char>, ps: PState, key: Seq<char>) -> Parsed<StatementView>
    decreases measure(s, ps), 10nat,
{
    if key == word_fn() {
        fn_g(s, ps)
    } else if key == word_return() {
        return_g(s, ps)
    } else if key == word_if() {
        if_g(s, ps)
    } else if lex(s, ps.pos) matches Ok(Some((TokenView::Assign, _))) {
        assign_g(s, ps, key)
    } else {
        match expr_g(s, ps) {
            Parsed::Failed(k, p) => Parsed::Failed(k, p),
            Parsed::Done(e, ps1) => Parsed::Done(StatementView::Expr(e), ps1),
        }
    }
}

/// `return <expression>`.
pub open spec fn return_g(s: Seq<char>, ps: PState) -> Parsed<StatementView>
    decreases measure(s, ps), 9nat,
{
    match advance(s, ps) {
        Parsed::Failed(k, p) => Parsed::Failed(k, p),
        Parsed::Done(_, ps1) => if !further(s, ps1, ps) {
            stuck(ps1)
        } else {
            match expr_g(s, ps1) {
                Parsed::Failed(k, p) => Parsed::Failed(k, p),
                Parsed::Done(e, ps2) => Parsed::Done(StatementView::Return(e), ps2),
            }
        },
    }
}

/// `<name> = <expression>`.
pub open spec fn assign_g(s: Seq<char>, ps: PState, name: Seq<char>) -> Parsed<StatementView>
    decreases measure(s, ps), 9nat,
{
    match advance(s, ps) {
        Parsed::Failed(k, p) => Parsed::Failed(k, p),
        Parsed::Done(_, ps1) => if !further(s, ps1, ps) {
            stuck(ps1)
        } else {
            match advance(s, ps1) {
                Parsed::Failed(k, p) => Parsed::Failed(k, p),
                Parsed::Done(_, ps2) => if !(0 <= measure(s, ps2) <= measure(s, ps1)) {
                    stuck(ps2)
                } else {
                    match expr_g(s, ps2) {
                        Parsed::Failed(k, p) => Parsed::Failed(k, p),
                        Parsed::Done(e, ps3) => Parsed::Done(StatementView::Assign(name, e), ps3),
                    }
                },
            }
        },
    }
}

/// `if <condition> <block>`, with an optional `else <block>`.
pub open spec fn if_g(s: Seq<char>, ps: PState) -> Parsed<StatementView>
    decreases measure(s, ps), 9nat,
{
    match advance(s, ps) {
        Parsed::Failed(k, p) => Parsed::Failed(k, p),
        Parsed::Done(_, ps1) => if !further(s, ps1, ps) {
            stuck(ps1)
        } else {
            match expr_g(s, ps1) {
                Parsed::Failed(k, p) => Parsed::Failed(k, p),
                Parsed::Done(c, ps2) => if !further(s, ps2, ps1) {
                    stuck(ps2)
                } else {
                    match block_g(s, ps2) {
                        Parsed::Failed(k, p) => Parsed::Failed(k, p),
                        Parsed::Done(b, ps3) => if !(ps3.cur matches Some(TokenView::Identifier(w)) && w
                            == word_else()) {
                            Parsed::Done(StatementView::If(c, b, Seq::empty()), ps3)
                        } else if !further(s, ps3, ps2) {
                            stuck(ps3)
                        } else {
                            match advance(s, ps3) {
                                Parsed::Failed(k, p) => Parsed::Failed(k, p),
                                Parsed::Done(_, ps4) => if !further(s, ps4, ps3) {
                                    stuck(ps4)
                                } else {
                                    match block_g(s, ps4) {
                                        Parsed::Failed(k, p) => Parsed::Failed(k, p),
                                        Parsed::Done(eb, ps5) => Parsed::Done(StatementView::If(c, b, eb), ps5),
                                    }
                                },
                            }
                        },
                    }
                },
            }
        },
    }
}

/// `fn <name> ( <parameters> ) <block>`.
pub open spec fn fn_g(s: Seq<char>, ps: PState) -> Parsed<StatementView>
    decreases measure(s, ps), 9nat,
{
    match advance(s, ps) {
        Parsed::Failed(k, p) => Parsed::Failed(k, p),
        Parsed::Done(_, ps1) => if !further(s, ps1, ps) {
            stuck(ps1)
        } else {
            match ps1.cur {
                Some(TokenView::Identifier(name)) => match advance(s, ps1) {
                    Parsed::Failed(k, p) => Parsed::Failed(k, p),
                    Parsed::Done(_, ps2) => if !(ps2.cur matches Some(TokenView::LParen)) {
                        Parsed::Failed(ErrorView::ExpectedToken(TokenView::LParen), ps2.pos)
                    } else if !further(s, ps2, ps1) {
                        stuck(ps2)
                    } else {
                        match advance(s, ps2) {
                            Parsed::Failed(k, p) => Parsed::Failed(k, p),
                            Parsed::Done(_, ps3) => if !further(s, ps3, ps2) {
                                stuck(ps3)
                            } else {
                                fn_rest(s, ps3, name)
                            },
                        }
                    },
                },
                _ => Parsed::Failed(ErrorView::ExpectedToken(TokenView::Identifier(Seq::empty())), ps1.pos),
            }
        },
    }
}

/// The parameters and body of a function named `name`, after its `(`.
pub open spec fn fn_rest(s: Seq<char>, ps3: PState, name: Seq<char>) -> Parsed<StatementView>
    decreases measure(s, ps3), 9nat,
{
    match params_g(s, ps3, Seq::empty(), true) {
        Parsed::Failed(k, p) => Parsed::Failed(k, p),
        Parsed::Done(params, ps4) => if !(0 <= measure(s, ps4) <= measure(s, ps3)) {
            stuck(ps4)
        } else {
            match advance(s, ps4) {
                Parsed::Failed(k, p) => Parsed::Failed(k, p),
                Parsed::Done(_, ps5) => if !further(s, ps5, ps4) {
                    stuck(ps5)
                } else {
                    match block_g(s, ps5) {
                        Parsed::Failed(k, p) => Parsed::Failed(k, p),
                        Parsed::Done(body, ps6) => Parsed::Done(StatementView::Fn(name, params, body), ps6),
                    }
                },
            }
        },
    }
}

/// Parameter names up to the closing `)`, which is left current, separated by commas;
/// `expect_name` tells whether a name may come next (at the start, or after a comma).
pub open spec fn params_g(s: Seq<char>, ps: PState, acc: Seq<Seq<char>>, expect_name: bool) -> Parsed<Seq<Seq<char>>>
    decreases measure(s, ps), 9nat,
{
    match ps.cur {
        Some(TokenView::RParen) => Parsed::Done(acc, ps),
        Some(TokenView::Identifier(p)) => if !expect_name {
            Parsed::Failed(ErrorView::ExpectedToken(TokenView::Comma), ps.pos)
        } else {
            match advance(s, ps) {
                Parsed::Failed(k, q) => Parsed::Failed(k, q),
                Parsed::Done(_, ps2) => if !further(s, ps2, ps) {
                    stuck(ps2)
                } else {
                    params_g(s, ps2, acc.push(p), false)
                },
            }
        },
        Some(TokenView::Comma) => match advance(s, ps) {
            Parsed::Failed(k, q) => Parsed::Failed(k, q),
            Parsed::Done(_, ps2) => if !further(s, ps2, ps) {
                stuck(ps2)
            } else {
                params_g(s, ps2, acc, true)
            },
        },
        None => Parsed::Failed(ErrorView::UnexpectedEndOfFile, ps.pos),
        Some(_) => Parsed::Failed(ErrorView::ExpectedToken(TokenView::Identifier(Seq::empty())), ps.pos),
    }
}

/// `{ <statements> }`.
pub open spec fn block_g(s: Seq<char>, ps: PState) -> Parsed<Seq<StatementView>>
    decreases measure(s, ps), 8nat,
{
    match ps.cur {
        Some(TokenView::LBrace) => match advance(s, ps) {
            Parsed::Failed(k, p) => Parsed::Failed(k, p),
            Parsed::Done(_, ps1) => if !further(s, ps1, ps) {
                stuck(ps1)
            } else {
                block_rest(s, ps1, Seq::empty())
            },
        },
        None => Parsed::Failed(ErrorView::UnexpectedEndOfFile, ps.pos),
        Some(_) => Parsed::Failed(ErrorView::ExpectedToken(TokenView::LBrace), ps.pos),
    }
}

/// The statements of a block after its `{`, up to and past the closing `}`.
pub open spec fn block_rest(s: Seq<char>, ps: PState, acc: Seq<StatementView>) -> Parsed<Seq<StatementView>>
    decreases measure(s, ps), 12nat,
{
    if ps.cur matches Some(TokenView::RBrace) {
        match advance(s, ps) {
            Parsed::Failed(k, p) => Parsed::Failed(k, p),
            Parsed::Done(_, ps1) => Parsed::Done(acc, ps1),
        }
    } else {
        match statement_g(s, ps) {
            Parsed::Failed(k, p) => Parsed::Failed(k, p),
            Parsed::Done(st, ps1) => if !further(s, ps1, ps) {
                stuck(ps1)
            } else {
                block_rest(s, ps1, acc.push(st))
            },
        }
    }
}

/// The statements of a program up to the end of its text.
pub open spec fn program_rest(s: Seq<char>, ps: PState, acc: Seq<StatementView>) -> Parsed<Seq<StatementView>>
    decreases measure(s, ps), 13nat,
{
    if ps.cur is None {
        Parsed::Done(acc, ps)
    } else {
        match statement_g(s, ps) {
            Parsed::Failed(k, p) => Parsed::Failed(k, p),
            Parsed::Done(st, ps1) => if !further(s, ps1, ps) {
                stuck(ps1)
            } else {
                program_rest(s, ps1, acc.push(st))
            },
        }
    }
}

/// A whole program: its statements, read from the start of the text.
pub open spec fn program_g(s: Seq<char>) -> Parsed<Seq<StatementView>> {
    let start = PState { pos: 0, cur: None };
    match advance(s, start) {
        Parsed::Failed(k, p) => Parsed::Failed(k, p),
        Parsed::Done(_, ps) => if !(0 <= measure(s, ps)) {
            stuck(ps)
        } else {
            program_rest(s, ps, Seq::empty())
        },
    }
}

} // verus!
