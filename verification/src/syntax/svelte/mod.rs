//! Structured control blocks.
//!
//! A block has the shape `{#keyword ...} ... {/keyword}`; dividers of the
//! shape `{:keyword ...}` split its body into parts.
//!
//! - `{#if ...}` with `{:else if ...}` and `{:else}`
//! - `{#match ...}` with `{:case pattern}`

use vstd::prelude::*;
use crate::cursor::{group_tokens, is_group, is_punct, is_word, Cursor};
use crate::error::{enclosed, fail, ErrorKind, Parsed, ParseError, SpecError};
use crate::syntax::embedded::{parse_whole_expression, Expression};
use crate::token::{Delimiter, SpecToken};

pub mod blocks;

verus! {

/// Something whose presence at a position can be told without consuming it.
pub trait Peek {
    /// Whether it starts at `pos`.
    spec fn peeks(tokens: Seq<SpecToken>, pos: int) -> bool;

    /// Whether it is next.
    fn peek<'a>(input: Cursor<'a>) -> (yes: bool)
        ensures
            yes == Self::peeks(input@, input.index() as int),
    ;
}

/// One of two things that can be peeked: it is next where either is.
pub enum Either<A, B> {
    First(A),
    Second(B),
}

impl<A: Peek, B: Peek> Peek for Either<A, B> {
    open spec fn peeks(tokens: Seq<SpecToken>, pos: int) -> bool {
        A::peeks(tokens, pos) || B::peeks(tokens, pos)
    }

    fn peek<'a>(input: Cursor<'a>) -> (yes: bool) {
        A::peek(input) || B::peek(input)
    }
}

/// A divider: one brace group that starts a further part of a block.
pub trait Divider: Peek + View + Sized {
    /// The divider that the token at `pos` is, or why it is none.
    spec fn parses(tokens: Seq<SpecToken>, pos: int) -> Result<Self::V, SpecError>;

    /// Parses the divider; it covers one token.
    fn parse<'a>(input: Cursor<'a>) -> (r: Result<(Self, Cursor<'a>), ParseError>)
        ensures
            input.yields(r, one(Self::parses(input@, input.index() as int))),
    ;
}

/// The outcome of a production that covers one token.
pub open spec fn one<V>(outcome: Result<V, SpecError>) -> Parsed<V> {
    match outcome {
        Ok(v) => Ok((v, 1)),
        Err(e) => Err(e),
    }
}

/// Whether a brace group is at `pos` whose first token is the punctuation
/// character `first` and whose second is the word `word`.
pub open spec fn braces_start(
    tokens: Seq<SpecToken>,
    pos: int,
    first: char,
    word: Seq<char>,
) -> bool {
    &&& is_group(tokens, pos, Delimiter::Brace)
    &&& is_punct(group_tokens(tokens, pos), 0, first)
    &&& is_word(group_tokens(tokens, pos), 1, word)
}

/// A cursor at the start of the brace group that is next, without consuming
/// anything from `input`.
pub fn inside_braces<'a>(input: Cursor<'a>) -> (r: Result<Cursor<'a>, ParseError>)
    ensures
        match r {
            Ok(inner) => {
                &&& is_group(input@, input.index() as int, Delimiter::Brace)
                &&& inner@ == group_tokens(input@, input.index() as int)
                &&& inner.index() == 0
            },
            Err(e) => {
                &&& !is_group(input@, input.index() as int, Delimiter::Brace)
                &&& e@ == (SpecError {
                    kind: ErrorKind::ExpectedBraces,
                    position: input.index() as int,
                })
            },
        },
{
    match input.fork().enter(Delimiter::Brace) {
        Some((inner, _)) => Ok(inner),
        None => Err(input.error(ErrorKind::ExpectedBraces)),
    }
}

/// Whether a brace group is next whose first token is the punctuation
/// character `first` and whose second is the word `word`.
pub fn peek_braces<'a>(input: Cursor<'a>, first: char, word: &str) -> (yes: bool)
    ensures
        yes == braces_start(input@, input.index() as int, first, word@),
{
    match inside_braces(input) {
        Ok(inner) => inner.peek_punct(1, first) && inner.peek_word(2, word),
        Err(_) => false,
    }
}

/// The brace group at `pos` that holds the punctuation character `first`,
/// the word `word` and an expression that reaches to its end: the
/// expression. `missing` is the failure where the word is not there.
pub open spec fn parse_braced_expression(
    tokens: Seq<SpecToken>,
    pos: int,
    first: char,
    word: Seq<char>,
    missing: ErrorKind,
) -> Parsed<Seq<SpecToken>> {
    if !is_group(tokens, pos, Delimiter::Brace) {
        fail(ErrorKind::ExpectedBraces, pos)
    } else if !is_punct(group_tokens(tokens, pos), 0, first) {
        fail(ErrorKind::ExpectedPunct(first), pos)
    } else if !is_word(group_tokens(tokens, pos), 1, word) {
        fail(missing, pos)
    } else {
        enclosed(pos, parse_whole_expression(group_tokens(tokens, pos), 2))
    }
}

/// The brace group at `pos` that holds the punctuation character `first`,
/// the word `word` and nothing else. `missing` is the failure where the word
/// is not there.
pub open spec fn parse_braced_word(
    tokens: Seq<SpecToken>,
    pos: int,
    first: char,
    word: Seq<char>,
    missing: ErrorKind,
) -> Parsed<()> {
    if !is_group(tokens, pos, Delimiter::Brace) {
        fail(ErrorKind::ExpectedBraces, pos)
    } else if !is_punct(group_tokens(tokens, pos), 0, first) {
        fail(ErrorKind::ExpectedPunct(first), pos)
    } else if !is_word(group_tokens(tokens, pos), 1, word) {
        fail(missing, pos)
    } else if group_tokens(tokens, pos).len() != 2 {
        fail(ErrorKind::UnexpectedToken, pos)
    } else {
        Ok(((), 1))
    }
}

/// Parses `{ first word expression }`.
pub fn braced_expression<'a>(
    input: Cursor<'a>,
    first: char,
    word: &str,
    missing: ErrorKind,
) -> (r: Result<(Expression, Cursor<'a>), ParseError>)
    ensures
        input.yields(
            r,
            parse_braced_expression(input@, input.index() as int, first, word@, missing),
        ),
{
    let (inner, rest) = match input.enter(Delimiter::Brace) {
        Some(opened) => opened,
        None => {
            return Err(input.error(ErrorKind::ExpectedBraces));
        },
    };
    if !inner.peek_punct(1, first) {
        return Err(input.error(ErrorKind::ExpectedPunct(first)));
    }
    if !inner.peek_word(2, word) {
        return Err(input.error(missing));
    }
    match Expression::parse_whole(inner.advance(2)) {
        Ok((expression, _)) => Ok((expression, rest)),
        Err(e) => Err(input.error(e.kind)),
    }
}

/// Parses `{ first word }`; the cursor behind the group.
pub fn braced_word<'a>(input: Cursor<'a>, first: char, word: &str, missing: ErrorKind) -> (r:
    Result<((), Cursor<'a>), ParseError>)
    ensures
        input.yields(r, parse_braced_word(input@, input.index() as int, first, word@, missing)),
{
    let (inner, rest) = match input.enter(Delimiter::Brace) {
        Some(opened) => opened,
        None => {
            return Err(input.error(ErrorKind::ExpectedBraces));
        },
    };
    if !inner.peek_punct(1, first) {
        return Err(input.error(ErrorKind::ExpectedPunct(first)));
    }
    if !inner.peek_word(2, word) {
        return Err(input.error(missing));
    }
    if inner.remaining() != 2 {
        return Err(input.error(ErrorKind::UnexpectedToken));
    }
    Ok(((), rest))
}

} // verus!
