//! Expressions and patterns of the host language.
//!
//! The template grammar does not look inside them: it asks the host
//! language's parser how far one reaches, and keeps the tokens it covers.

use vstd::prelude::*;
use crate::cursor::{rest_of, Cursor};
use crate::error::{fail, to_end, ErrorKind, Parsed, ParseError};
use crate::host::{expression_end, expression_rest, pattern_end, pattern_rest};
use crate::token::{render, view_tokens, SpecToken, Token};

verus! {

/// An expression of the host language: the tokens it is made of.
#[derive(Debug, PartialEq, Eq)]
pub struct Expression {
    pub tokens: Vec<Token>,
}

/// A pattern of the host language: the tokens it is made of.
#[derive(Debug, PartialEq, Eq)]
pub struct Pattern {
    pub tokens: Vec<Token>,
}

impl View for Expression {
    type V = Seq<SpecToken>;

    open spec fn view(&self) -> Seq<SpecToken> {
        view_tokens(self.tokens@)
    }
}

impl View for Pattern {
    type V = Seq<SpecToken>;

    open spec fn view(&self) -> Seq<SpecToken> {
        view_tokens(self.tokens@)
    }
}

/// The view of an optional expression.
pub open spec fn view_optional_expression(e: Option<Expression>) -> Option<Seq<SpecToken>> {
    match e {
        Some(e) => Some(e@),
        None => None,
    }
}

/// How many of `available` tokens a host production covers that leaves
/// `rest` of them: at least one, or the production does not apply.
pub open spec fn extent(rest: Option<nat>, available: int) -> Option<nat> {
    match rest {
        Some(r) => if r < available {
            Some((available - r) as nat)
        } else {
            None
        },
        None => None,
    }
}

/// How many tokens the expression at `pos` covers, if one starts there.
pub open spec fn expression_extent(tokens: Seq<SpecToken>, pos: int) -> Option<nat> {
    extent(expression_rest(render(rest_of(tokens, pos))), tokens.len() - pos)
}

/// How many tokens the pattern at `pos` covers, if one starts there.
pub open spec fn pattern_extent(tokens: Seq<SpecToken>, pos: int) -> Option<nat> {
    extent(pattern_rest(render(rest_of(tokens, pos))), tokens.len() - pos)
}

/// The expression at `pos`: the tokens that the host parser covers.
pub open spec fn parse_expression(tokens: Seq<SpecToken>, pos: int) -> Parsed<Seq<SpecToken>> {
    match expression_extent(tokens, pos) {
        Some(n) => Ok((tokens.subrange(pos, pos + n), n)),
        None => fail(ErrorKind::ExpectedExpression, pos),
    }
}

/// The pattern at `pos`: the tokens that the host parser covers.
pub open spec fn parse_pattern(tokens: Seq<SpecToken>, pos: int) -> Parsed<Seq<SpecToken>> {
    match pattern_extent(tokens, pos) {
        Some(n) => Ok((tokens.subrange(pos, pos + n), n)),
        None => fail(ErrorKind::ExpectedPattern, pos),
    }
}

/// The expression that reaches from `pos` to the end of the tokens.
pub open spec fn parse_whole_expression(tokens: Seq<SpecToken>, pos: int) -> Parsed<
    Seq<SpecToken>,
> {
    to_end(parse_expression(tokens, pos), pos, tokens.len() as int)
}

/// How many of the tokens that are left a host production covers, given how
/// many it leaves.
pub fn covered(input: &Cursor, rest: Option<usize>) -> (n: Option<usize>)
    ensures
        match n {
            Some(n) => extent(
                match rest {
                    Some(r) => Some(r as nat),
                    None => None,
                },
                input@.len() - input.index(),
            ) == Some(n as nat) && input.index() + n <= input@.len(),
            None => extent(
                match rest {
                    Some(r) => Some(r as nat),
                    None => None,
                },
                input@.len() - input.index(),
            ) is None,
        },
{
    let available = input.remaining();
    match rest {
        Some(r) => if r < available {
            Some(available - r)
        } else {
            None
        },
        None => None,
    }
}

impl Expression {
    /// Parses one expression: asks the host parser how far it reaches and
    /// keeps the tokens it covers.
    pub fn parse<'a>(input: Cursor<'a>) -> (r: Result<(Expression, Cursor<'a>), ParseError>)
        ensures
            input.yields(r, parse_expression(input@, input.index() as int)),
    {
        let text = input.render_rest();
        match covered(&input, expression_end(text.as_str())) {
            Some(n) => Ok((Expression { tokens: input.take(n) }, input.advance(n))),
            None => Err(input.error(ErrorKind::ExpectedExpression)),
        }
    }

    /// Parses one expression that must reach the end of the input.
    pub fn parse_whole<'a>(input: Cursor<'a>) -> (r: Result<
        (Expression, Cursor<'a>),
        ParseError,
    >)
        ensures
            input.yields(r, parse_whole_expression(input@, input.index() as int)),
    {
        match Expression::parse(input) {
            Ok((expression, rest)) => {
                if rest.is_empty() {
                    Ok((expression, rest))
                } else {
                    Err(rest.error(ErrorKind::UnexpectedToken))
                }
            },
            Err(e) => Err(e),
        }
    }
}

impl Pattern {
    /// Parses one pattern, with alternatives and an optional leading `|`:
    /// asks the host parser how far it reaches and keeps the tokens it
    /// covers.
    pub fn parse<'a>(input: Cursor<'a>) -> (r: Result<(Pattern, Cursor<'a>), ParseError>)
        ensures
            input.yields(r, parse_pattern(input@, input.index() as int)),
    {
        let text = input.render_rest();
        match covered(&input, pattern_end(text.as_str())) {
            Some(n) => Ok((Pattern { tokens: input.take(n) }, input.advance(n))),
            None => Err(input.error(ErrorKind::ExpectedPattern)),
        }
    }
}

} // verus!
