use vstd::prelude::*;
use crate::tokens::{LexError, Token};

verus! {

/// What stood where it may not: a token, or text that forms no token.
#[derive(Debug, PartialEq, Clone)]
pub enum Unexpected {
    Token(Token),
    Text(LexError),
}

/// What went wrong while reading a program.
#[derive(Debug, PartialEq, Clone)]
pub enum ErrorType {
    UnexpectedToken(Unexpected),
    UnexpectedEndOfFile,
    UnClosedParenthesis,
    ExpectedToken(Token),
}

/// A parse error: its kind, the position where it was found, and the whole source
/// text. Positions count characters, not bytes, from the start of the source.
#[derive(Debug, PartialEq, Clone)]
pub struct Error {
    error_type: ErrorType,
    pos: usize,
    input: String,
}

/// How many newlines `s` holds before position `n`.
pub open spec fn newlines_before(s: Seq<char>, n: int) -> nat
    decreases n,
{
    if n <= 0 {
        0
    } else {
        newlines_before(s, n - 1) + if s[n - 1] == '\n' { 1nat } else { 0nat }
    }
}

/// Where the line that holds position `n` starts.
pub open spec fn line_start(s: Seq<char>, n: int) -> int
    decreases n,
{
    if n <= 0 {
        0
    } else if s[n - 1] == '\n' {
        n
    } else {
        line_start(s, n - 1)
    }
}

/// Where the line that starts at `k` ends (at its newline or at the end of `s`).
pub open spec fn line_end(s: Seq<char>, k: int) -> int
    decreases s.len() - k,
{
    if 0 <= k < s.len() && s[k] != '\n' {
        line_end(s, k + 1)
    } else {
        k
    }
}

proof fn lemma_line_start_bounds(s: Seq<char>, n: int)
    requires
        0 <= n <= s.len(),
    ensures
        0 <= line_start(s, n) <= n,
        newlines_before(s, n) <= n,
    decreases n,
{
    if n > 0 {
        lemma_line_start_bounds(s, n - 1);
    }
}

impl Error {
    pub fn new(error_type: ErrorType, pos: usize, input: String) -> (r: Self)
        ensures
            r.kind() == error_type,
            r.pos() == pos,
            r.input() == input,
    {
        Self { error_type, pos, input }
    }

    pub closed spec fn kind(&self) -> ErrorType {
        self.error_type
    }

    pub closed spec fn pos(&self) -> usize {
        self.pos
    }

    pub closed spec fn input(&self) -> String {
        self.input
    }

    /// The kind of the error.
    pub fn error_type(&self) -> (r: &ErrorType)
        ensures
            *r == self.kind(),
    {
        &self.error_type
    }

    /// The position of the error, counted in characters (not bytes) from the start of
    /// the source.
    pub fn position(&self) -> (r: usize)
        ensures
            r == self.pos(),
    {
        self.pos
    }

    /// The source text in which the error was found.
    pub fn source(&self) -> (r: &String)
        ensures
            *r == self.input(),
    {
        &self.input
    }

    /// The line (from 1) and column (characters before the position on its line)
    /// of the error, together with the text of that line.
    pub fn location(&self) -> (r: (usize, usize, String))
        requires
            self.input()@.len() < usize::MAX,
        ensures
            ({
                let s = self.input()@;
                let p = if self.pos() <= s.len() { self.pos() as int } else { s.len() as int };
                &&& r.0 == newlines_before(s, p) + 1
                &&& r.1 == p - line_start(s, p)
                &&& r.2@ == s.subrange(line_start(s, p), line_end(s, line_start(s, p)))
            }),
    {
        let chars = crate::tokens::chars_of(self.input.as_str());
        let ghost s = chars@;
        let p: usize = if self.pos <= chars.len() { self.pos } else { chars.len() };
        let mut line: usize = 1;
        let mut start: usize = 0;
        let mut k: usize = 0;
        while k < p
            invariant
                s == chars@,
                p <= chars.len(),
                chars.len() < usize::MAX,
                0 <= start <= k <= p,
                line == newlines_before(s, k as int) + 1,
                line <= k + 1,
                start == line_start(s, k as int),
            decreases p - k,
        {
            proof { lemma_line_start_bounds(s, k as int); }
            if chars[k] == '\n' {
                line = line + 1;
                start = k + 1;
            }
            k = k + 1;
        }
        let mut text = String::new();
        let mut e: usize = start;
        while e < chars.len() && chars[e] != '\n'
            invariant
                s == chars@,
                start <= e <= chars.len(),
                line_end(s, start as int) == line_end(s, e as int),
                text@ == s.subrange(start as int, e as int),
            decreases chars.len() - e,
        {
            text.push(chars[e]);
            assert(s.subrange(start as int, e + 1) =~= s.subrange(start as int, e as int).push(s[e as int]));
            e = e + 1;
        }
        (line, p - start, text)
    }
}

} // verus!
