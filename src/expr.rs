use vstd::prelude::*;
use crate::errors::{Error, ErrorType, Unexpected};
use crate::number::Num;
use crate::parser::Parser;
use crate::grammar::{
    accessors_g, accessors_rest, add_sub_g, add_sub_rest, args_g, call_g, call_rest, error_view, expr_g, expr_view,
    exprs_view, factor_g, paren_g, term_g, term_rest, ExprView, Parsed,
};
use crate::tokens::{Token, TokenView};

verus! {

/// An expression of the language: a piece of code that produces a value.
#[derive(Debug, PartialEq)]
pub enum Expr {
    Number(Num),
    Boolean(bool),
    Identifier(String),
    String(String),
    /// A chain of field accesses `a.b.c`: the root first, then each field.
    Acessor(Vec<Expr>),
    /// A call: the callee and its arguments.
    Call(Box<Expr>, Vec<Expr>),
    BinaryOp { op: Token, lhs: Box<Expr>, rhs: Box<Expr> },
}

pub open spec fn is_comparison(t: Option<TokenView>) -> bool {
    t matches Some(TokenView::Equal) || t matches Some(TokenView::NotEqual) || t matches Some(
        TokenView::LessThan,
    ) || t matches Some(TokenView::GreaterThan)
}

pub open spec fn is_additive(t: Option<TokenView>) -> bool {
    t matches Some(TokenView::Plus) || t matches Some(TokenView::Minus)
}

pub open spec fn is_multiplicative(t: Option<TokenView>) -> bool {
    t matches Some(TokenView::Star) || t matches Some(TokenView::Divider) || t matches Some(
        TokenView::Modulo,
    )
}

/// What a parsing step that reads an expression gave, as the grammar sees it.
pub open spec fn parsed_expr(r: Result<Expr, Error>, p: Parser) -> Parsed<ExprView> {
    match r {
        Ok(e) => Parsed::Done(expr_view(e), p.state()),
        Err(x) => Parsed::Failed(error_view(x.kind()), x.pos() as int),
    }
}

impl Parser {
    fn binary_op(&self, op: Token, lhs: Expr, rhs: Expr) -> (r: Expr)
        ensures
            r == (Expr::BinaryOp { op, lhs: Box::new(lhs), rhs: Box::new(rhs) }),
            expr_view(r) == ExprView::BinaryOp(op@, Box::new(expr_view(lhs)), Box::new(expr_view(rhs))),
    {
        Expr::BinaryOp { op, lhs: Box::new(lhs), rhs: Box::new(rhs) }
    }

    /// An expression: comparisons, which take the whole expression after the operator
    /// as their right side, over sums.
    #[verifier::rlimit(100)]
    pub fn parse_expr(&mut self) -> (r: Result<Expr, Error>)
        requires
            old(self).wf(),
        ensures
            final(self).wf(),
            final(self).input == old(self).input,
            parsed_expr(r, *final(self)) == expr_g(old(self).input@, old(self).state()),
            r is Ok ==> final(self).remaining() < old(self).remaining(),
            r matches Err(e) ==> e.input() == old(self).input,
        decreases old(self).remaining(), 6nat,
    {
        let lhs = match self.parse_add_sub() {
            Ok(e) => e,
            Err(e) => return Err(e),
        };
        let op = match &self.current_token {
            Some(Token::Equal) => Token::Equal,
            Some(Token::NotEqual) => Token::NotEqual,
            Some(Token::LessThan) => Token::LessThan,
            Some(Token::GreaterThan) => Token::GreaterThan,
            _ => return Ok(lhs),
        };
        match self.next_token() {
            Ok(()) => {},
            Err(e) => return Err(e),
        }
        let rhs = match self.parse_expr() {
            Ok(e) => e,
            Err(e) => return Err(e),
        };
        Ok(self.binary_op(op, lhs, rhs))
    }

    /// Sums and differences, left to right, over products.
    pub fn parse_add_sub(&mut self) -> (r: Result<Expr, Error>)
        requires
            old(self).wf(),
        ensures
            final(self).wf(),
            final(self).input == old(self).input,
            parsed_expr(r, *final(self)) == add_sub_g(old(self).input@, old(self).state()),
            r is Ok ==> final(self).remaining() < old(self).remaining(),
            r matches Err(e) ==> e.input() == old(self).input,
        decreases old(self).remaining(), 5nat,
    {
        let ghost s = old(self).input@;
        let ghost ps0 = old(self).state();
        let mut lhs = match self.parse_term() {
            Ok(e) => e,
            Err(e) => return Err(e),
        };
        loop
            invariant
                self.wf(),
                self.input == old(self).input,
                s == self.input@,
                self.remaining() < old(self).remaining(),
                ps0 == old(self).state(),
                add_sub_g(s, ps0) == add_sub_rest(s, self.state(), expr_view(lhs)),
            ensures
                self.wf(),
                self.input == old(self).input,
                self.remaining() < old(self).remaining(),
                add_sub_g(s, ps0) == Parsed::Done(expr_view(lhs), self.state()),
            decreases self.remaining(),
        {
            let op = match &self.current_token {
                Some(Token::Plus) => Token::Plus,
                Some(Token::Minus) => Token::Minus,
                _ => break,
            };
            match self.next_token() {
                Ok(()) => {},
                Err(e) => return Err(e),
            }
            let rhs = match self.parse_term() {
                Ok(e) => e,
                Err(e) => return Err(e),
            };
            lhs = self.binary_op(op, lhs, rhs);
        }
        Ok(lhs)
    }

    /// Products, quotients and remainders, left to right, over calls.
    pub fn parse_term(&mut self) -> (r: Result<Expr, Error>)
        requires
            old(self).wf(),
        ensures
            final(self).wf(),
            final(self).input == old(self).input,
            parsed_expr(r, *final(self)) == term_g(old(self).input@, old(self).state()),
            r is Ok ==> final(self).remaining() < old(self).remaining(),
            r matches Err(e) ==> e.input() == old(self).input,
        decreases old(self).remaining(), 4nat,
    {
        let ghost s = old(self).input@;
        let ghost ps0 = old(self).state();
        let mut lhs = match self.parse_call() {
            Ok(e) => e,
            Err(e) => return Err(e),
        };
        loop
            invariant
                self.wf(),
                self.input == old(self).input,
                s == self.input@,
                self.remaining() < old(self).remaining(),
                ps0 == old(self).state(),
                term_g(s, ps0) == term_rest(s, self.state(), expr_view(lhs)),
            ensures
                self.wf(),
                self.input == old(self).input,
                self.remaining() < old(self).remaining(),
                term_g(s, ps0) == Parsed::Done(expr_view(lhs), self.state()),
            decreases self.remaining(),
        {
            let op = match &self.current_token {
                Some(Token::Star) => Token::Star,
                Some(Token::Divider) => Token::Divider,
                Some(Token::Modulo) => Token::Modulo,
                _ => break,
            };
            match self.next_token() {
                Ok(()) => {},
                Err(e) => return Err(e),
            }
            let rhs = match self.parse_call() {
                Ok(e) => e,
                Err(e) => return Err(e),
            };
            lhs = self.binary_op(op, lhs, rhs);
        }
        Ok(lhs)
    }

    /// Calls: an accessor chain followed by any number of argument lists.
    pub fn parse_call(&mut self) -> (r: Result<Expr, Error>)
        requires
            old(self).wf(),
        ensures
            final(self).wf(),
            final(self).input == old(self).input,
            parsed_expr(r, *final(self)) == call_g(old(self).input@, old(self).state()),
            r is Ok ==> final(self).remaining() < old(self).remaining(),
            r matches Err(e) ==> e.input() == old(self).input,
        decreases old(self).remaining(), 3nat,
    {
        let ghost s = old(self).input@;
        let ghost ps0 = old(self).state();
        let mut lhs = match self.parse_accessors() {
            Ok(e) => e,
            Err(e) => return Err(e),
        };
        while matches!(self.current_token, Some(Token::LParen))
            invariant
                self.wf(),
                self.input == old(self).input,
                s == self.input@,
                self.remaining() < old(self).remaining(),
                ps0 == old(self).state(),
                call_g(s, ps0) == call_rest(s, self.state(), expr_view(lhs)),
            decreases self.remaining(),
        {
            let ghost ps = self.state();
            match self.next_token() {
                Ok(()) => {},
                Err(e) => return Err(e),
            }
            let args = match self.parse_args() {
                Ok(a) => a,
                Err(e) => return Err(e),
            };
            let ghost ps3 = self.state();
            match self.next_token() {
                Ok(()) => {},
                Err(e) => return Err(e),
            }
            lhs = Expr::Call(Box::new(lhs), args);
        }
        Ok(lhs)
    }

    /// Call arguments up to the closing `)`, which is left current: expressions, each
    /// optionally followed by a comma.
    pub fn parse_args(&mut self) -> (r: Result<Vec<Expr>, Error>)
        requires
            old(self).wf(),
        ensures
            final(self).wf(),
            final(self).input == old(self).input,
            match r {
                Ok(v) => args_g(old(self).input@, old(self).state(), Seq::empty()) == Parsed::Done(
                    exprs_view(v@),
                    final(self).state(),
                ) && final(self).current() == Some(TokenView::RParen),
                Err(e) => args_g(old(self).input@, old(self).state(), Seq::empty()) == Parsed::<
                    Seq<ExprView>,
                >::Failed(error_view(e.kind()), e.pos() as int),
            },
            r is Ok ==> final(self).remaining() <= old(self).remaining(),
            r matches Err(e) ==> e.input() == old(self).input,
        decreases old(self).remaining(), 7nat,
    {
        let ghost s = old(self).input@;
        let ghost ps0 = old(self).state();
        let mut args: Vec<Expr> = Vec::new();
        while !matches!(self.current_token, Some(Token::RParen))
            invariant
                self.wf(),
                self.input == old(self).input,
                s == self.input@,
                self.remaining() <= old(self).remaining(),
                ps0 == old(self).state(),
                args_g(s, ps0, Seq::empty()) == args_g(s, self.state(), exprs_view(args@)),
            decreases self.remaining(),
        {
            let e = match self.parse_expr() {
                Ok(e) => e,
                Err(e) => return Err(e),
            };
            let ghost before = args@;
            args.push(e);
            assert(args@.drop_last() =~= before);
            if matches!(self.current_token, Some(Token::Comma)) {
                match self.next_token() {
                    Ok(()) => {},
                    Err(e) => return Err(e),
                }
            }
        }
        Ok(args)
    }

    /// Field accesses `a.b.c`, collected into one flat chain; each `.` takes one factor.
    #[verifier::rlimit(100)]
    pub fn parse_accessors(&mut self) -> (r: Result<Expr, Error>)
        requires
            old(self).wf(),
        ensures
            final(self).wf(),
            final(self).input == old(self).input,
            parsed_expr(r, *final(self)) == accessors_g(old(self).input@, old(self).state()),
            r is Ok ==> final(self).remaining() < old(self).remaining(),
            r matches Err(e) ==> e.input() == old(self).input,
        decreases old(self).remaining(), 2nat,
    {
        let ghost s = old(self).input@;
        let ghost ps0 = old(self).state();
        let first = match self.parse_factor() {
            Ok(e) => e,
            Err(e) => return Err(e),
        };
        if !matches!(self.current_token, Some(Token::Point)) {
            return Ok(first);
        }
        let mut parts: Vec<Expr> = Vec::new();
        parts.push(first);
        assert(exprs_view(parts@) =~= seq![expr_view(first)]) by {
            assert(parts@.drop_last() =~= Seq::<Expr>::empty());
            assert(exprs_view(Seq::<Expr>::empty()) == Seq::<ExprView>::empty());
        }
        loop
            invariant_except_break
                self.current() matches Some(TokenView::Point),
                accessors_g(s, ps0) == accessors_rest(s, self.state(), exprs_view(parts@)),
            invariant
                self.wf(),
                self.input == old(self).input,
                s == self.input@,
                self.remaining() < old(self).remaining(),
                ps0 == old(self).state(),
            ensures
                self.wf(),
                self.input == old(self).input,
                self.remaining() < old(self).remaining(),
                accessors_g(s, ps0) == Parsed::Done(ExprView::Acessor(exprs_view(parts@)), self.state()),
            decreases self.remaining(),
        {
            match self.next_token() {
                Ok(()) => {},
                Err(e) => return Err(e),
            }
            let ghost before = parts@;
            match self.parse_factor() {
                Ok(e) => parts.push(e),
                Err(e) => return Err(e),
            }
            assert(parts@.drop_last() =~= before);
            if !matches!(self.current_token, Some(Token::Point)) {
                break;
            }
        }
        Ok(Expr::Acessor(parts))
    }

    /// A literal, a name, or an expression in parentheses.
    pub fn parse_factor(&mut self) -> (r: Result<Expr, Error>)
        requires
            old(self).wf(),
        ensures
            final(self).wf(),
            final(self).input == old(self).input,
            parsed_expr(r, *final(self)) == factor_g(old(self).input@, old(self).state()),
            r is Ok ==> final(self).remaining() < old(self).remaining(),
            r matches Err(e) ==> e.input() == old(self).input,
        decreases old(self).remaining(), 1nat,
    {
        match &self.current_token {
            None => Err(self.error(ErrorType::UnexpectedEndOfFile)),
            Some(Token::LParen) => self.parse_paren(),
            Some(Token::Number(n)) => {
                let n = *n;
                match self.next_token() {
                    Ok(()) => Ok(Expr::Number(n)),
                    Err(e) => Err(e),
                }
            },
            Some(Token::String(t)) => {
                let t = t.clone();
                match self.next_token() {
                    Ok(()) => Ok(Expr::String(t)),
                    Err(e) => Err(e),
                }
            },
            Some(Token::Identifier(t)) => {
                let t = t.clone();
                let is_true = same_text(&t, "true");
                let is_false = same_text(&t, "false");
                proof {
                    reveal_strlit("true");
                    reveal_strlit("false");
                    assert("true"@ =~= seq!['t', 'r', 'u', 'e']);
                    assert("false"@ =~= seq!['f', 'a', 'l', 's', 'e']);
                }
                match self.next_token() {
                    Ok(()) => {},
                    Err(e) => return Err(e),
                }
                if is_true {
                    Ok(Expr::Boolean(true))
                } else if is_false {
                    Ok(Expr::Boolean(false))
                } else {
                    Ok(Expr::Identifier(t))
                }
            },
            Some(t) => {
                let t = t.copied();
                Err(self.error(ErrorType::UnexpectedToken(Unexpected::Token(t))))
            },
        }
    }

    /// An expression in parentheses; the current token is the `(`. An unclosed
    /// parenthesis is reported at the position just past the `(`.
    #[verifier::rlimit(100)]
    pub fn parse_paren(&mut self) -> (r: Result<Expr, Error>)
        requires
            old(self).wf(),
            old(self).current_token matches Some(Token::LParen),
        ensures
            final(self).wf(),
            final(self).input == old(self).input,
            parsed_expr(r, *final(self)) == paren_g(old(self).input@, old(self).state()),
            r is Ok ==> final(self).remaining() < old(self).remaining(),
            r matches Err(e) ==> e.input() == old(self).input,
        decreases old(self).remaining(), 0nat,
    {
        let l_par_pos = self.pos;
        match self.next_token() {
            Ok(()) => {},
            Err(e) => return Err(e),
        }
        let expr = match self.parse_expr() {
            Ok(e) => e,
            Err(e) => return Err(e),
        };
        if !matches!(self.current_token, Some(Token::RParen)) {
            return Err(Error::new(ErrorType::UnClosedParenthesis, l_par_pos, self.input.clone()));
        }
        match self.next_token() {
            Ok(()) => {},
            Err(e) => return Err(e),
        }
        Ok(expr)
    }
}

/// Whether the text of `s` is `w`.
pub fn same_text(s: &String, w: &str) -> (r: bool)
    ensures
        r == (s@ == w@),
{
    let owned = w.to_owned();
    *s == owned
}

} // verus!

verus! {

impl Expr {
    /// A copy of the expression.
    pub fn copied(&self) -> (r: Expr)
        ensures
            expr_view(r) == expr_view(*self),
        decreases self,
    {
        match self {
            Expr::Number(n) => Expr::Number(*n),
            Expr::Boolean(b) => Expr::Boolean(*b),
            Expr::Identifier(s) => Expr::Identifier(s.clone()),
            Expr::String(s) => Expr::String(s.clone()),
            Expr::Acessor(parts) => Expr::Acessor(copy_exprs(parts)),
            Expr::Call(f, args) => Expr::Call(Box::new(f.copied()), copy_exprs(args)),
            Expr::BinaryOp { op, lhs, rhs } => Expr::BinaryOp {
                op: op.copied(),
                lhs: Box::new(lhs.copied()),
                rhs: Box::new(rhs.copied()),
            },
        }
    }
}

/// Copies of the expressions, in order.
pub fn copy_exprs(v: &Vec<Expr>) -> (r: Vec<Expr>)
    ensures
        r.len() == v.len(),
        exprs_view(r@) == exprs_view(v@),
    decreases v,
{
    let mut out: Vec<Expr> = Vec::new();
    let mut i: usize = 0;
    while i < v.len()
        invariant
            i <= v.len(),
            out.len() == i,
            exprs_view(out@) == exprs_view(v@.take(i as int)),
        decreases v.len() - i,
    {
        let ghost before = out@;
        out.push(v[i].copied());
        proof {
            assert(out@.drop_last() =~= before);
            assert(v@.take(i + 1).drop_last() =~= v@.take(i as int));
        }
        i = i + 1;
    }
    assert(v@.take(v.len() as int) =~= v@);
    out
}

/// The view of a sequence of expressions, element by element.
pub proof fn lemma_exprs_view_index(s: Seq<Expr>)
    ensures
        exprs_view(s).len() == s.len(),
        forall|i: int| 0 <= i < s.len() ==> #[trigger] exprs_view(s)[i] == expr_view(s[i]),
    decreases s.len(),
{
    if s.len() > 0 {
        lemma_exprs_view_index(s.drop_last());
    }
}

} // verus!
