//! A position in a token sequence, with bounded lookahead.
//!
//! A cursor is a plain value: copying it forks it, and a parse that fails on
//! a copy leaves the cursor it was copied from where it was.

use vstd::prelude::*;
use crate::error::{ErrorKind, Parsed, ParseError, SpecError};
use crate::text::text_equals;
use crate::token::{
    clone_tokens, render, render_tokens, view_tokens, Delimiter, LiteralKind, Spacing, SpecLiteral,
    SpecToken, Token,
};

verus! {

/// Whether the token at `at` is the punctuation character `c`.
pub open spec fn is_punct(tokens: Seq<SpecToken>, at: int, c: char) -> bool {
    &&& 0 <= at < tokens.len()
    &&& tokens[at] matches SpecToken::Punct(p, _)
    &&& p == c
}

/// Whether the token at `at` is the punctuation character `c`, joint with
/// the token behind it.
pub open spec fn is_joint(tokens: Seq<SpecToken>, at: int, c: char) -> bool {
    &&& 0 <= at < tokens.len()
    &&& tokens[at] matches SpecToken::Punct(p, spacing)
    &&& p == c
    &&& spacing == Spacing::Joint
}

/// How much of the tokens is left at `pos`, as a measure that shrinks with
/// every token passed.
pub open spec fn left(tokens: Seq<SpecToken>, pos: int) -> nat {
    if 0 <= pos <= tokens.len() {
        (tokens.len() - pos + 1) as nat
    } else {
        0
    }
}

/// Whether the token at `at` is an identifier.
pub open spec fn is_ident(tokens: Seq<SpecToken>, at: int) -> bool {
    &&& 0 <= at < tokens.len()
    &&& tokens[at] is Ident
}

/// Whether the token at `at` is the word `word`, reserved or not.
pub open spec fn is_word(tokens: Seq<SpecToken>, at: int, word: Seq<char>) -> bool {
    &&& 0 <= at < tokens.len()
    &&& match tokens[at] {
        SpecToken::Ident(text) => text == word,
        SpecToken::Keyword(text) => text == word,
        _ => false,
    }
}

/// Whether the token at `at` is a group with the given delimiter.
pub open spec fn is_group(tokens: Seq<SpecToken>, at: int, delimiter: Delimiter) -> bool {
    &&& 0 <= at < tokens.len()
    &&& tokens[at] matches SpecToken::Group(d, _)
    &&& d == delimiter
}

/// The tokens inside the group at `at`.
pub open spec fn group_tokens(tokens: Seq<SpecToken>, at: int) -> Seq<SpecToken>
    recommends
        0 <= at < tokens.len(),
        tokens[at] is Group,
{
    tokens[at]->Group_1
}

/// Whether the token at `at` is an integer literal.
pub open spec fn is_integer(tokens: Seq<SpecToken>, at: int) -> bool {
    &&& 0 <= at < tokens.len()
    &&& tokens[at] matches SpecToken::Literal(lit)
    &&& lit.kind is Integer
}

/// Whether the token at `at` is a floating-point literal.
pub open spec fn is_float(tokens: Seq<SpecToken>, at: int) -> bool {
    &&& 0 <= at < tokens.len()
    &&& tokens[at] matches SpecToken::Literal(lit)
    &&& lit.kind is Float
}

/// Whether the token at `at` is a character literal.
pub open spec fn is_character(tokens: Seq<SpecToken>, at: int) -> bool {
    &&& 0 <= at < tokens.len()
    &&& tokens[at] matches SpecToken::Literal(lit)
    &&& lit.kind is Character
}

/// Whether the token at `at` is a string literal.
pub open spec fn is_string(tokens: Seq<SpecToken>, at: int) -> bool {
    &&& 0 <= at < tokens.len()
    &&& tokens[at] matches SpecToken::Literal(lit)
    &&& lit.kind is Str
}

/// The literal at `at`.
pub open spec fn literal_at(tokens: Seq<SpecToken>, at: int) -> SpecLiteral
    recommends
        0 <= at < tokens.len(),
        tokens[at] is Literal,
{
    tokens[at]->Literal_0
}

/// The text of the identifier or reserved word at `at`.
pub open spec fn word_at(tokens: Seq<SpecToken>, at: int) -> Seq<char>
    recommends
        0 <= at < tokens.len(),
{
    match tokens[at] {
        SpecToken::Ident(text) => text,
        SpecToken::Keyword(text) => text,
        _ => Seq::empty(),
    }
}

/// The tokens from `at` to the end.
pub open spec fn rest_of(tokens: Seq<SpecToken>, at: int) -> Seq<SpecToken>
    recommends
        0 <= at <= tokens.len(),
{
    tokens.subrange(at, tokens.len() as int)
}

/// The outcome of a production that must cover all `len` tokens: tokens
/// left over are a failure at the first of them.
pub open spec fn whole<V>(outcome: Parsed<V>, len: int) -> Result<V, SpecError> {
    match outcome {
        Ok((v, n)) => if n == len {
            Ok(v)
        } else {
            Err(SpecError { kind: ErrorKind::UnexpectedToken, position: n as int })
        },
        Err(e) => Err(e),
    }
}

/// What parsing a source text gives, where `tokens` is what the lexer makes
/// of the text: a failure where the text does not lex, else the outcome of
/// the production `production` over all of its tokens.
pub open spec fn parse_source<V>(
    tokens: Option<Seq<SpecToken>>,
    production: spec_fn(Seq<SpecToken>, int) -> Parsed<V>,
) -> Result<V, SpecError> {
    match tokens {
        None => Err(SpecError { kind: ErrorKind::InvalidSource, position: 0 }),
        Some(ts) => whole(production(ts, 0), ts.len() as int),
    }
}

/// Whether `got` is the outcome `expected`: the same node, or the same
/// failure.
pub open spec fn same_outcome<T: View>(
    got: Result<T, ParseError>,
    expected: Result<T::V, SpecError>,
) -> bool {
    match got {
        Ok(node) => expected == Ok::<T::V, SpecError>(node@),
        Err(e) => expected == Err::<T::V, SpecError>(e@),
    }
}

/// The node of a production that started at the beginning of the tokens, if
/// it covers them all.
pub(crate) fn complete<'a, T: View>(
    start: Cursor<'a>,
    parsed: Result<(T, Cursor<'a>), ParseError>,
    Ghost(expected): Ghost<Parsed<T::V>>,
) -> (r: Result<T, ParseError>)
    requires
        start.index() == 0,
        start.yields(parsed, expected),
    ensures
        same_outcome(r, whole(expected, start@.len() as int)),
{
    match parsed {
        Ok((node, rest)) => {
            if rest.is_empty() {
                Ok(node)
            } else {
                Err(rest.error(ErrorKind::UnexpectedToken))
            }
        },
        Err(e) => Err(e),
    }
}

/// A position in a borrowed token sequence.
#[derive(Clone, Copy, Debug)]
pub struct Cursor<'a> {
    tokens: &'a Vec<Token>,
    pos: usize,
}

impl<'a> View for Cursor<'a> {
    type V = Seq<SpecToken>;

    /// The whole token sequence the cursor walks over.
    closed spec fn view(&self) -> Seq<SpecToken> {
        view_tokens(self.tokens@)
    }
}

impl<'a> Cursor<'a> {
    #[verifier::type_invariant]
    spec fn in_bounds(self) -> bool {
        self.pos <= self.tokens@.len()
    }

    /// The number of tokens already passed.
    pub closed spec fn index(self) -> nat {
        self.pos as nat
    }

    /// The sequence this cursor borrows.
    pub closed spec fn source(self) -> &'a Vec<Token> {
        self.tokens
    }

    /// `self` is `start` moved `n` tokens on, in the same sequence.
    pub open spec fn follows(self, start: Cursor<'a>, n: nat) -> bool {
        &&& self.source() == start.source()
        &&& self@ == start@
        &&& self.index() == start.index() + n
        &&& self.index() <= self@.len()
    }

    /// Whether `got`, the outcome of a production that started at `self`, is
    /// the outcome `expected`: the same node and a cursor behind the tokens
    /// it covers, or the same failure.
    pub open spec fn yields<T: View>(
        self,
        got: Result<(T, Cursor<'a>), ParseError>,
        expected: Parsed<T::V>,
    ) -> bool {
        match got {
            Ok((node, rest)) => {
                &&& expected matches Ok((v, n))
                &&& node@ == v
                &&& rest.follows(self, n)
            },
            Err(e) => expected == Err::<(T::V, nat), SpecError>(e@),
        }
    }

    /// Whether `got`, the outcome of a production that started at `self`, is
    /// the outcome `expected`, where `view` gives the view of the node.
    pub open spec fn yields_as<T, V>(
        self,
        got: Result<(T, Cursor<'a>), ParseError>,
        view: spec_fn(T) -> V,
        expected: Parsed<V>,
    ) -> bool {
        match got {
            Ok((node, rest)) => {
                &&& expected matches Ok((v, n))
                &&& view(node) == v
                &&& rest.follows(self, n)
            },
            Err(e) => expected == Err::<(V, nat), SpecError>(e@),
        }
    }

    /// A failure of the given kind at this position.
    pub fn error(&self, kind: ErrorKind) -> (e: ParseError)
        ensures
            e@ == (SpecError { kind, position: self.index() as int }),
    {
        ParseError { kind, position: self.pos }
    }

    /// A cursor at the start of `tokens`.
    pub fn new(tokens: &'a Vec<Token>) -> (cursor: Cursor<'a>)
        ensures
            cursor@ == view_tokens(tokens@),
            cursor.source() == tokens,
            cursor.index() == 0,
    {
        Cursor { tokens, pos: 0 }
    }

    /// The number of tokens already passed.
    pub fn position(&self) -> (p: usize)
        ensures
            p == self.index(),
            p <= self@.len(),
    {
        proof {
            use_type_invariant(self);
        }
        self.pos
    }

    /// The number of tokens still ahead.
    pub fn remaining(&self) -> (n: usize)
        ensures
            n == self@.len() - self.index(),
    {
        proof {
            use_type_invariant(self);
        }
        self.tokens.len() - self.pos
    }

    /// Whether no token is left.
    pub fn is_empty(&self) -> (empty: bool)
        ensures
            empty == (self.index() >= self@.len()),
            self.index() <= self@.len(),
    {
        proof {
            use_type_invariant(self);
        }
        self.pos >= self.tokens.len()
    }

    /// An independent copy of this cursor: moving the copy leaves `self`
    /// where it is.
    pub fn fork(&self) -> (copy: Cursor<'a>)
        ensures
            copy == *self,
            copy.follows(*self, 0),
    {
        proof {
            use_type_invariant(self);
        }
        *self
    }

    /// The `k`-th token ahead, counting from 1, if there is one.
    pub fn peek(&self, k: usize) -> (found: Option<&'a Token>)
        ensures
            found is Some <==> 1 <= k && self.index() + k <= self@.len(),
            found matches Some(token) ==> token@ == self@[self.index() + k - 1],
    {
        proof {
            use_type_invariant(self);
        }
        let tokens: &'a Vec<Token> = self.tokens;
        if k >= 1 && k - 1 < tokens.len() - self.pos {
            Some(&tokens[self.pos + (k - 1)])
        } else {
            None
        }
    }

    /// Whether the `k`-th token ahead is the punctuation character `c`.
    pub fn peek_punct(&self, k: usize, c: char) -> (yes: bool)
        requires
            k >= 1,
        ensures
            yes == is_punct(self@, self.index() + k - 1, c),
    {
        match self.peek(k) {
            Some(Token::Punct(p, _)) => *p == c,
            _ => false,
        }
    }

    /// Whether the `k`-th token ahead is the punctuation character `c`,
    /// joint with the token behind it.
    pub fn peek_joint(&self, k: usize, c: char) -> (yes: bool)
        requires
            k >= 1,
        ensures
            yes == is_joint(self@, self.index() + k - 1, c),
    {
        match self.peek(k) {
            Some(Token::Punct(p, Spacing::Joint)) => *p == c,
            _ => false,
        }
    }

    /// Whether the `k`-th token ahead is an identifier.
    pub fn peek_ident(&self, k: usize) -> (yes: bool)
        requires
            k >= 1,
        ensures
            yes == is_ident(self@, self.index() + k - 1),
    {
        match self.peek(k) {
            Some(Token::Ident(_)) => true,
            _ => false,
        }
    }

    /// Whether the `k`-th token ahead is the word `word`.
    pub fn peek_word(&self, k: usize, word: &str) -> (yes: bool)
        requires
            k >= 1,
        ensures
            yes == is_word(self@, self.index() + k - 1, word@),
    {
        match self.peek(k) {
            Some(Token::Ident(text)) => text_equals(text.as_str(), word),
            Some(Token::Keyword(text)) => text_equals(text.as_str(), word),
            _ => false,
        }
    }

    /// Whether the `k`-th token ahead is a group with the given delimiter.
    pub fn peek_group(&self, k: usize, delimiter: Delimiter) -> (yes: bool)
        requires
            k >= 1,
        ensures
            yes == is_group(self@, self.index() + k - 1, delimiter),
    {
        match self.peek(k) {
            Some(Token::Group(d, _)) => *d == delimiter,
            _ => false,
        }
    }

    /// Whether the `k`-th token ahead is an integer literal.
    pub fn peek_integer(&self, k: usize) -> (yes: bool)
        requires
            k >= 1,
        ensures
            yes == is_integer(self@, self.index() + k - 1),
    {
        match self.peek(k) {
            Some(Token::Literal(lit)) => match &lit.kind {
                LiteralKind::Integer => true,
                _ => false,
            },
            _ => false,
        }
    }

    /// Whether the `k`-th token ahead is a floating-point literal.
    pub fn peek_float(&self, k: usize) -> (yes: bool)
        requires
            k >= 1,
        ensures
            yes == is_float(self@, self.index() + k - 1),
    {
        match self.peek(k) {
            Some(Token::Literal(lit)) => match &lit.kind {
                LiteralKind::Float(_) => true,
                _ => false,
            },
            _ => false,
        }
    }

    /// Whether the `k`-th token ahead is a character literal.
    pub fn peek_character(&self, k: usize) -> (yes: bool)
        requires
            k >= 1,
        ensures
            yes == is_character(self@, self.index() + k - 1),
    {
        match self.peek(k) {
            Some(Token::Literal(lit)) => match &lit.kind {
                LiteralKind::Character(_) => true,
                _ => false,
            },
            _ => false,
        }
    }

    /// Whether the `k`-th token ahead is a string literal.
    pub fn peek_string(&self, k: usize) -> (yes: bool)
        requires
            k >= 1,
        ensures
            yes == is_string(self@, self.index() + k - 1),
    {
        match self.peek(k) {
            Some(Token::Literal(lit)) => match &lit.kind {
                LiteralKind::Str(_) => true,
                _ => false,
            },
            _ => false,
        }
    }

    /// The cursor `n` tokens further on.
    pub fn advance(self, n: usize) -> (next: Cursor<'a>)
        requires
            self.index() + n <= self@.len(),
        ensures
            next.follows(self, n as nat),
            next@ == self@,
    {
        proof {
            use_type_invariant(self);
        }
        let len = self.tokens.len();
        Cursor { tokens: self.tokens, pos: self.pos + n }
    }

    /// Opens the group with the given delimiter that is next: a cursor at the
    /// start of its contents, and the cursor behind the group. `None` if no
    /// such group is next.
    pub fn enter(self, delimiter: Delimiter) -> (opened: Option<(Cursor<'a>, Cursor<'a>)>)
        ensures
            opened is Some <==> is_group(self@, self.index() as int, delimiter),
            opened matches Some((inner, after)) ==> {
                &&& inner@ == group_tokens(self@, self.index() as int)
                &&& inner.index() == 0
                &&& after.follows(self, 1)
                &&& after@ == self@
            },
    {
        proof {
            use_type_invariant(self);
        }
        let len = self.tokens.len();
        match self.peek(1) {
            Some(Token::Group(d, contents)) => {
                if *d == delimiter {
                    Some((Cursor { tokens: contents, pos: 0 }, Cursor { tokens: self.tokens, pos: self.pos + 1 }))
                } else {
                    None
                }
            },
            _ => None,
        }
    }

    /// The source text of the tokens that are left.
    pub fn render_rest(&self) -> (text: String)
        ensures
            text@ == render(rest_of(self@, self.index() as int)),
    {
        proof {
            use_type_invariant(self);
        }
        render_tokens(self.tokens, self.pos)
    }

    /// A copy of the next `n` tokens.
    pub fn take(&self, n: usize) -> (taken: Vec<Token>)
        requires
            self.index() + n <= self@.len(),
        ensures
            view_tokens(taken@) == self@.subrange(self.index() as int, self.index() + n),
    {
        proof {
            use_type_invariant(self);
        }
        let len = self.tokens.len();
        clone_tokens(self.tokens, self.pos, self.pos + n)
    }
}

} // verus!
