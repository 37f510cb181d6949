use vstd::prelude::*;
use crate::errors::{Error, ErrorType};
use crate::expr::{same_text, Expr};
use crate::parser::Parser;
use crate::grammar::{
    assign_g, block_g, block_rest, error_view, fn_g, fn_rest, identifier_g, if_g, measure, names_view, params_g, return_g,
    statement_g, statement_view, statements_view, Parsed, StatementView,
};
use crate::tokens::{Token, TokenView};

verus! {

/// A statement of the language.
#[derive(Debug, PartialEq)]
pub enum Statement {
    Return(Expr),
    /// An expression evaluated for its effects.
    Expr(Expr),
    Block(Vec<Statement>),
    Fn { name: String, params: Vec<String>, body: Vec<Statement> },
    /// Variable assignment.
    Assign(String, Expr),
    If { condition: Expr, body: Vec<Statement>, else_body: Vec<Statement> },
}

pub open spec fn word_fn() -> Seq<char> {
    seq!['f', 'n']
}

pub open spec fn word_return() -> Seq<char> {
    seq!['r', 'e', 't', 'u', 'r', 'n']
}

pub open spec fn word_if() -> Seq<char> {
    seq!['i', 'f']
}

pub open spec fn word_else() -> Seq<char> {
    seq!['e', 'l', 's', 'e']
}

/// What a parsing step that reads a statement gave, as the grammar sees it.
pub open spec fn parsed_statement(r: Result<Statement, Error>, p: Parser) -> Parsed<StatementView> {
    match r {
        Ok(st) => Parsed::Done(statement_view(st), p.state()),
        Err(x) => Parsed::Failed(error_view(x.kind()), x.pos() as int),
    }
}

/// What a parsing step that reads a block gave, as the grammar sees it.
pub open spec fn parsed_block(r: Result<Vec<Statement>, Error>, p: Parser) -> Parsed<Seq<StatementView>> {
    match r {
        Ok(v) => Parsed::Done(statements_view(v@), p.state()),
        Err(x) => Parsed::Failed(error_view(x.kind()), x.pos() as int),
    }
}

proof fn lemma_statements_view_push(v: Seq<Statement>, st: Statement)
    ensures
        statements_view(v.push(st)) == statements_view(v).push(statement_view(st)),
{
    assert(v.push(st).drop_last() =~= v);
}

impl Parser {
    /// One statement, chosen by its first token (and, for an assignment, the one after).
    pub fn parse_statement(&mut self) -> (r: Result<Statement, Error>)
        requires
            old(self).wf(),
        ensures
            final(self).wf(),
            final(self).input == old(self).input,
            parsed_statement(r, *final(self)) == statement_g(old(self).input@, old(self).state()),
            r is Ok ==> final(self).remaining() < old(self).remaining(),
            r matches Err(e) ==> e.input() == old(self).input,
        decreases old(self).remaining(), 11nat,
    {
        match &self.current_token {
            Some(Token::Identifier(key)) => {
                let key = key.clone();
                self.parse_identifier(key)
            },
            Some(Token::LBrace) => match self.parse_block() {
                Ok(b) => Ok(Statement::Block(b)),
                Err(e) => Err(e),
            },
            _ => match self.parse_expr() {
                Ok(e) => Ok(Statement::Expr(e)),
                Err(e) => Err(e),
            },
        }
    }

    /// A statement that starts with the identifier `key`, the current token.
    pub fn parse_identifier(&mut self, key: String) -> (r: Result<Statement, Error>)
        requires
            old(self).wf(),
            old(self).current() == Some(TokenView::Identifier(key@)),
        ensures
            final(self).wf(),
            final(self).input == old(self).input,
            parsed_statement(r, *final(self)) == identifier_g(old(self).input@, old(self).state(), key@),
            r is Ok ==> final(self).remaining() < old(self).remaining(),
            r matches Err(e) ==> e.input() == old(self).input,
        decreases old(self).remaining(), 10nat,
    {
        proof {
            reveal_strlit("fn");
            reveal_strlit("return");
            reveal_strlit("if");
            assert("fn"@ =~= word_fn());
            assert("return"@ =~= word_return());
            assert("if"@ =~= word_if());
        }
        if same_text(&key, "fn") {
            self.parse_fn()
        } else if same_text(&key, "return") {
            self.parse_return()
        } else if same_text(&key, "if") {
            self.parse_if()
        } else if self.next_is_assign() {
            self.parse_assign(key)
        } else {
            match self.parse_expr() {
                Ok(e) => Ok(Statement::Expr(e)),
                Err(e) => Err(e),
            }
        }
    }

    /// `if <condition> <block>`, with an optional `else <block>`; the current token is `if`.
    pub fn parse_if(&mut self) -> (r: Result<Statement, Error>)
        requires
            old(self).wf(),
            old(self).current_token is Some,
        ensures
            final(self).wf(),
            final(self).input == old(self).input,
            parsed_statement(r, *final(self)) == if_g(old(self).input@, old(self).state()),
            r is Ok ==> final(self).remaining() < old(self).remaining(),
            r matches Err(e) ==> e.input() == old(self).input,
        decreases old(self).remaining(), 9nat,
    {
        match self.next_token() {
            Ok(()) => {},
            Err(e) => return Err(e),
        }
        let condition = match self.parse_expr() {
            Ok(e) => e,
            Err(e) => return Err(e),
        };
        let body = match self.parse_block() {
            Ok(b) => b,
            Err(e) => return Err(e),
        };
        proof {
            reveal_strlit("else");
            assert("else"@ =~= word_else());
        }
        let is_else = match &self.current_token {
            Some(Token::Identifier(w)) => same_text(w, "else"),
            _ => false,
        };
        let else_body = if is_else {
            match self.next_token() {
                Ok(()) => {},
                Err(e) => return Err(e),
            }
            match self.parse_block() {
                Ok(b) => b,
                Err(e) => return Err(e),
            }
        } else {
            Vec::new()
        };
        proof {
            assert(statements_view(Seq::<Statement>::empty()) == Seq::<StatementView>::empty());
        }
        Ok(Statement::If { condition, body, else_body })
    }

    /// `fn <name> ( <parameters> ) <block>`; the current token is `fn`. Parameters are
    /// separated by commas.
    pub fn parse_fn(&mut self) -> (r: Result<Statement, Error>)
        requires
            old(self).wf(),
            old(self).current_token is Some,
        ensures
            final(self).wf(),
            final(self).input == old(self).input,
            parsed_statement(r, *final(self)) == fn_g(old(self).input@, old(self).state()),
            r is Ok ==> final(self).remaining() < old(self).remaining(),
            r matches Err(e) ==> e.input() == old(self).input,
        decreases old(self).remaining(), 9nat,
    {
        let ghost s = old(self).input@;
        match self.next_token() {
            Ok(()) => {},
            Err(e) => return Err(e),
        }
        let name = match &self.current_token {
            Some(Token::Identifier(name)) => name.clone(),
            _ => {
                return Err(self.error(ErrorType::ExpectedToken(Token::Identifier(String::new()))));
            },
        };
        match self.next_token() {
            Ok(()) => {},
            Err(e) => return Err(e),
        }
        if !matches!(self.current_token, Some(Token::LParen)) {
            return Err(self.error(ErrorType::ExpectedToken(Token::LParen)));
        }
        match self.next_token() {
            Ok(()) => {},
            Err(e) => return Err(e),
        }
        let ghost ps3 = self.state();
        let mut params: Vec<String> = Vec::new();
        let mut got_comma = true;
        assert(names_view(params@) =~= Seq::<Seq<char>>::empty());
        assert(fn_g(s, old(self).state()) == fn_rest(s, ps3, name@));
        while !matches!(self.current_token, Some(Token::RParen))
            invariant
                fn_g(s, old(self).state()) == fn_rest(s, ps3, name@),
                self.wf(),
                self.input == old(self).input,
                s == self.input@,
                self.remaining() <= measure(s, ps3),
                measure(s, ps3) < old(self).remaining(),
                params_g(s, ps3, Seq::empty(), true) == params_g(s, self.state(), names_view(params@), got_comma),
            decreases self.remaining(),
        {
            let ghost before = params@;
            match &self.current_token {
                Some(Token::Identifier(param)) => {
                    if !got_comma {
                        return Err(self.error(ErrorType::ExpectedToken(Token::Comma)));
                    }
                    params.push(param.clone());
                    assert(names_view(params@) =~= names_view(before).push(param@));
                    got_comma = false;
                },
                Some(Token::Comma) => {
                    got_comma = true;
                },
                Some(_) => {
                    return Err(self.error(ErrorType::ExpectedToken(Token::Identifier(String::new()))));
                },
                None => {
                    return Err(self.error(ErrorType::UnexpectedEndOfFile));
                },
            }
            match self.next_token() {
                Ok(()) => {},
                Err(e) => return Err(e),
            }
        }
        match self.next_token() {
            Ok(()) => {},
            Err(e) => return Err(e),
        }
        let body = match self.parse_block() {
            Ok(b) => b,
            Err(e) => return Err(e),
        };
        Ok(Statement::Fn { name, params, body })
    }

    /// `{ <statements> }`.
    pub fn parse_block(&mut self) -> (r: Result<Vec<Statement>, Error>)
        requires
            old(self).wf(),
        ensures
            final(self).wf(),
            final(self).input == old(self).input,
            parsed_block(r, *final(self)) == block_g(old(self).input@, old(self).state()),
            r is Ok ==> final(self).remaining() < old(self).remaining(),
            r matches Err(e) ==> e.input() == old(self).input,
        decreases old(self).remaining(), 8nat,
    {
        let ghost s = old(self).input@;
        match &self.current_token {
            Some(Token::LBrace) => {},
            None => return Err(self.error(ErrorType::UnexpectedEndOfFile)),
            Some(_) => return Err(self.error(ErrorType::ExpectedToken(Token::LBrace))),
        }
        match self.next_token() {
            Ok(()) => {},
            Err(e) => return Err(e),
        }
        let ghost ps1 = self.state();
        let mut statements: Vec<Statement> = Vec::new();
        proof {
            assert(statements_view(statements@) =~= Seq::<StatementView>::empty());
        }
        while !matches!(self.current_token, Some(Token::RBrace))
            invariant
                self.wf(),
                self.input == old(self).input,
                s == self.input@,
                self.remaining() <= measure(s, ps1),
                measure(s, ps1) < old(self).remaining(),
                block_g(s, old(self).state()) == block_rest(s, self.state(), statements_view(statements@)),
            decreases self.remaining(),
        {
            let ghost before = statements@;
            match self.parse_statement() {
                Ok(st) => {
                    statements.push(st);
                    proof {
                        lemma_statements_view_push(before, st);
                    }
                },
                Err(e) => return Err(e),
            }
        }
        match self.next_token() {
            Ok(()) => {},
            Err(e) => return Err(e),
        }
        Ok(statements)
    }

    /// `return <expression>`; the current token is `return`.
    pub fn parse_return(&mut self) -> (r: Result<Statement, Error>)
        requires
            old(self).wf(),
            old(self).current_token is Some,
        ensures
            final(self).wf(),
            final(self).input == old(self).input,
            parsed_statement(r, *final(self)) == return_g(old(self).input@, old(self).state()),
            r is Ok ==> final(self).remaining() < old(self).remaining(),
            r matches Err(e) ==> e.input() == old(self).input,
        decreases old(self).remaining(), 9nat,
    {
        match self.next_token() {
            Ok(()) => {},
            Err(e) => return Err(e),
        }
        match self.parse_expr() {
            Ok(e) => Ok(Statement::Return(e)),
            Err(e) => Err(e),
        }
    }

    /// `<name> = <expression>`; the current token is the name.
    fn parse_assign(&mut self, name: String) -> (r: Result<Statement, Error>)
        requires
            old(self).wf(),
            old(self).current_token is Some,
        ensures
            final(self).wf(),
            final(self).input == old(self).input,
            parsed_statement(r, *final(self)) == assign_g(old(self).input@, old(self).state(), name@),
            r is Ok ==> final(self).remaining() < old(self).remaining(),
            r matches Err(e) ==> e.input() == old(self).input,
        decreases old(self).remaining(), 9nat,
    {
        match self.next_token() {
            Ok(()) => {},
            Err(e) => return Err(e),
        }
        match self.next_token() {
            Ok(()) => {},
            Err(e) => return Err(e),
        }
        match self.parse_expr() {
            Ok(e) => Ok(Statement::Assign(name, e)),
            Err(e) => Err(e),
        }
    }
}

} // verus!

verus! {

impl Statement {
    /// A copy of the statement.
    pub fn copied(&self) -> (r: Statement)
        ensures
            statement_view(r) == statement_view(*self),
        decreases self,
    {
        match self {
            Statement::Return(e) => Statement::Return(e.copied()),
            Statement::Expr(e) => Statement::Expr(e.copied()),
            Statement::Block(b) => Statement::Block(copy_statements(b)),
            Statement::Fn { name, params, body } => Statement::Fn {
                name: name.clone(),
                params: copy_names(params),
                body: copy_statements(body),
            },
            Statement::Assign(n, e) => Statement::Assign(n.clone(), e.copied()),
            Statement::If { condition, body, else_body } => Statement::If {
                condition: condition.copied(),
                body: copy_statements(body),
                else_body: copy_statements(else_body),
            },
        }
    }
}

/// Copies of the statements, in order.
pub fn copy_statements(v: &Vec<Statement>) -> (r: Vec<Statement>)
    ensures
        r.len() == v.len(),
        statements_view(r@) == statements_view(v@),
    decreases v,
{
    let mut out: Vec<Statement> = Vec::new();
    let mut i: usize = 0;
    while i < v.len()
        invariant
            i <= v.len(),
            out.len() == i,
            statements_view(out@) == statements_view(v@.take(i as int)),
        decreases v.len() - i,
    {
        let ghost before = out@;
        out.push(v[i].copied());
        proof {
            assert(out@.drop_last() =~= before);
            assert(v@.take(i + 1).drop_last() =~= v@.take(i as int));
        }
        i = i + 1;
    }
    assert(v@.take(v.len() as int) =~= v@);
    out
}

/// The view of a sequence of statements, element by element.
pub proof fn lemma_statements_view_index(s: Seq<Statement>)
    ensures
        statements_view(s).len() == s.len(),
        forall|i: int| 0 <= i < s.len() ==> #[trigger] statements_view(s)[i] == statement_view(s[i]),
    decreases s.len(),
{
    if s.len() > 0 {
        lemma_statements_view_index(s.drop_last());
    }
}

/// Copies of the names, in order.
pub fn copy_names(v: &Vec<String>) -> (r: Vec<String>)
    ensures
        r@ == v@,
{
    let mut out: Vec<String> = Vec::new();
    let mut i: usize = 0;
    while i < v.len()
        invariant
            i <= v.len(),
            out@ == v@.take(i as int),
        decreases v.len() - i,
    {
        out.push(v[i].clone());
        assert(v@.take(i + 1) =~= v@.take(i as int).push(v@[i as int]));
        i = i + 1;
    }
    out
}

} // verus!
