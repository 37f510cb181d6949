use vstd::prelude::*;
use crate::errors::{Error, ErrorType, Unexpected};
use crate::statement::Statement;
use crate::grammar::{
    advance, error_view, measure, program_g, program_rest, statements_view, PState, Parsed, StatementView,
};
use crate::tokens::{chars_of, lex, lex_at, Token, TokenView};

verus! {

/// A recursive-descent parser over one source text, holding one token of lookahead.
pub struct Parser {
    pub input: String,
    /// The characters of `input`, which the tokenizer reads.
    pub chars: Vec<char>,
    /// The position (in characters) just past the current token.
    pub pos: usize,
    pub current_token: Option<Token>,
}

/// What a parsing step that reads no value gave, as the grammar sees it.
pub open spec fn parsed_unit(r: Result<(), Error>, p: Parser) -> Parsed<()> {
    match r {
        Ok(()) => Parsed::Done((), p.state()),
        Err(e) => Parsed::Failed(error_view(e.kind()), e.pos() as int),
    }
}

impl Parser {
    /// The characters hold the input and the position lies within them.
    pub open spec fn wf(&self) -> bool {
        &&& self.chars@ == self.input@
        &&& self.pos <= self.chars@.len()
    }

    /// What is left to read: it shrinks with each token consumed.
    pub open spec fn remaining(&self) -> int {
        measure(self.input@, self.state())
    }

    /// Where the parser stands, as the grammar sees it.
    pub open spec fn state(&self) -> PState {
        PState { pos: self.pos as int, cur: self.current() }
    }

    /// The current token seen through its view.
    pub open spec fn current(&self) -> Option<TokenView> {
        match self.current_token {
            Some(t) => Some(t@),
            None => None,
        }
    }

    /// A parser over `input`, positioned before its first token.
    pub fn new(input: &str) -> (r: Parser)
        ensures
            r.wf(),
            r.input@ == input@,
            r.pos == 0,
            r.current_token is None,
    {
        let chars = chars_of(input);
        Parser { input: input.to_string(), chars, pos: 0, current_token: None }
    }

    /// Parse a program: the statements of `input`, returned as one block.
    pub fn parse(input: &str) -> (r: Result<Statement, Error>)
        ensures
            match r {
                Ok(b) => b matches Statement::Block(v) && program_g(input@) matches Parsed::Done(sv, _)
                    && sv == statements_view(v@),
                Err(e) => program_g(input@) == Parsed::<Seq<StatementView>>::Failed(
                    error_view(e.kind()),
                    e.pos() as int,
                ),
            },
            r matches Err(e) ==> e.input()@ == input@,
    {
        let ghost s = input@;
        let mut parser = Parser::new(input);
        match parser.next_token() {
            Ok(()) => {},
            Err(e) => return Err(e),
        }
        let mut statements: Vec<Statement> = Vec::new();
        assert(statements_view(statements@) =~= Seq::<StatementView>::empty());
        while parser.current_token.is_some()
            invariant
                parser.wf(),
                parser.input@ == input@,
                s == input@,
                program_g(s) == program_rest(s, parser.state(), statements_view(statements@)),
            decreases parser.remaining(),
        {
            let ghost before = statements@;
            match parser.parse_statement() {
                Ok(st) => {
                    statements.push(st);
                    assert(statements@.drop_last() =~= before);
                },
                Err(e) => return Err(e),
            }
        }
        Ok(Statement::Block(statements))
    }

    /// Read the token after the current one into `current_token`.
    pub fn next_token(&mut self) -> (r: Result<(), Error>)
        requires
            old(self).wf(),
        ensures
            final(self).wf(),
            final(self).input == old(self).input,
            parsed_unit(r, *final(self)) == advance(old(self).input@, old(self).state()),
            r matches Err(e) ==> e.input() == old(self).input,
            r is Ok ==> final(self).remaining() <= old(self).remaining(),
            r is Ok && old(self).current_token is Some ==> final(self).remaining() < old(self).remaining(),
    {
        match lex_at(&self.chars, self.pos) {
            Ok(Some((token, e))) => {
                self.pos = e;
                self.current_token = Some(token);
                Ok(())
            },
            Ok(None) => {
                self.current_token = None;
                Ok(())
            },
            Err(x) => Err(self.error(ErrorType::UnexpectedToken(Unexpected::Text(x)))),
        }
    }

    /// Whether the token after the current one is `=`.
    pub fn next_is_assign(&self) -> (r: bool)
        requires
            self.wf(),
        ensures
            r <==> lex(self.input@, self.pos as int) matches Ok(Some((TokenView::Assign, _))),
    {
        match lex_at(&self.chars, self.pos) {
            Ok(Some((Token::Assign, _))) => true,
            _ => false,
        }
    }

    /// An error of the given kind at the current position.
    pub fn error(&self, error_type: ErrorType) -> (r: Error)
        ensures
            r.kind() == error_type,
            r.pos() == self.pos,
            r.input() == self.input,
    {
        Error::new(error_type, self.pos, self.input.clone())
    }
}

} // verus!
