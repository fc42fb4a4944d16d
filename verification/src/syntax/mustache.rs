//! Interpolations: `{ expression }` and `{ expression : formatting }`.

use vstd::prelude::*;
use crate::cursor::{complete, group_tokens, is_group, is_punct, parse_source, same_outcome, Cursor};
use crate::error::{enclosed, fail, to_end, ErrorKind, Parsed, ParseError};
use crate::lexer::{source_tokens, tokenize};
use crate::syntax::embedded::{parse_expression, Expression};
use crate::syntax::formatting::{parse_formatting, Formatting, SpecFormatting};
use crate::token::{Delimiter, SpecToken};

verus! {

/// A formatting specifier behind its colon.
#[derive(Debug, PartialEq, Eq)]
pub struct FormattingGroup {
    pub formatting: Formatting,
}

/// An interpolation: an expression, and how its value is formatted.
#[derive(Debug, PartialEq, Eq)]
pub struct Mustache {
    pub expr: Expression,
    pub formatting: Option<FormattingGroup>,
}

/// The view of an interpolation.
pub struct SpecMustache {
    pub expr: Seq<SpecToken>,
    pub formatting: Option<SpecFormatting>,
}

impl View for FormattingGroup {
    type V = SpecFormatting;

    open spec fn view(&self) -> SpecFormatting {
        self.formatting@
    }
}

impl View for Mustache {
    type V = SpecMustache;

    open spec fn view(&self) -> SpecMustache {
        SpecMustache {
            expr: self.expr@,
            formatting: match self.formatting {
                Some(group) => Some(group@),
                None => None,
            },
        }
    }
}

/// The colon at `pos` and the formatting specifier behind it.
pub open spec fn parse_formatting_group(tokens: Seq<SpecToken>, pos: int) -> Parsed<
    SpecFormatting,
> {
    if is_punct(tokens, pos, ':') {
        match parse_formatting(tokens, pos + 1) {
            Ok((formatting, n)) => Ok((formatting, n + 1)),
            Err(e) => Err(e),
        }
    } else {
        fail(ErrorKind::ExpectedPunct(':'), pos)
    }
}

/// What stands between the braces of an interpolation: an expression, then,
/// where a colon follows it, a formatting specifier; nothing may be left.
pub open spec fn parse_mustache_body(inner: Seq<SpecToken>) -> Parsed<SpecMustache> {
    match parse_expression(inner, 0) {
        Err(e) => Err(e),
        Ok((expr, n)) => if is_punct(inner, n as int, ':') {
            match to_end(parse_formatting_group(inner, n as int), n as int, inner.len() as int) {
                Ok((formatting, m)) => Ok(
                    (SpecMustache { expr, formatting: Some(formatting) }, n + m),
                ),
                Err(e) => Err(e),
            }
        } else {
            to_end(Ok((SpecMustache { expr, formatting: None }, n)), 0, inner.len() as int)
        },
    }
}

/// The interpolation at `pos`: one brace group.
pub open spec fn parse_mustache(tokens: Seq<SpecToken>, pos: int) -> Parsed<SpecMustache> {
    if is_group(tokens, pos, Delimiter::Brace) {
        enclosed(pos, parse_mustache_body(group_tokens(tokens, pos)))
    } else {
        fail(ErrorKind::ExpectedBraces, pos)
    }
}

impl FormattingGroup {
    /// Parses a colon and a formatting specifier.
    pub fn parse<'a>(input: Cursor<'a>) -> (r: Result<(FormattingGroup, Cursor<'a>), ParseError>)
        ensures
            input.yields(r, parse_formatting_group(input@, input.index() as int)),
    {
        if !input.peek_punct(1, ':') {
            return Err(input.error(ErrorKind::ExpectedPunct(':')));
        }
        match Formatting::parse(input.advance(1)) {
            Ok((formatting, rest)) => Ok((FormattingGroup { formatting }, rest)),
            Err(e) => Err(e),
        }
    }
}

impl Mustache {
    /// Parses what stands between the braces.
    fn parse_body<'a>(inner: Cursor<'a>) -> (r: Result<(Mustache, Cursor<'a>), ParseError>)
        requires
            inner.index() == 0,
        ensures
            inner.yields(r, parse_mustache_body(inner@)),
    {
        let (expr, behind) = match Expression::parse(inner) {
            Ok(found) => found,
            Err(e) => {
                return Err(e);
            },
        };
        let (formatting, rest) = if behind.peek_punct(1, ':') {
            match FormattingGroup::parse(behind) {
                Ok((group, rest)) => (Some(group), rest),
                Err(e) => {
                    return Err(e);
                },
            }
        } else {
            (None, behind)
        };
        if rest.is_empty() {
            Ok((Mustache { expr, formatting }, rest))
        } else {
            Err(rest.error(ErrorKind::UnexpectedToken))
        }
    }

    /// Parses `{ expression }` or `{ expression : formatting }`.
    pub fn parse<'a>(input: Cursor<'a>) -> (r: Result<(Mustache, Cursor<'a>), ParseError>)
        ensures
            input.yields(r, parse_mustache(input@, input.index() as int)),
    {
        match input.enter(Delimiter::Brace) {
            None => Err(input.error(ErrorKind::ExpectedBraces)),
            Some((inner, rest)) => match Mustache::parse_body(inner) {
                Ok((mustache, _)) => Ok((mustache, rest)),
                Err(e) => Err(input.error(e.kind)),
            },
        }
    }

    /// Parses a source text that holds an interpolation and nothing else.
    pub fn parse_str(source: &str) -> (r: Result<Mustache, ParseError>)
        ensures
            same_outcome(
                r,
                parse_source(
                    source_tokens(source@),
                    |tokens: Seq<SpecToken>, pos: int| parse_mustache(tokens, pos),
                ),
            ),
    {
        match tokenize(source) {
            Ok(tokens) => {
                let input = Cursor::new(&tokens);
                complete(input, Mustache::parse(input), Ghost(parse_mustache(input@, 0)))
            },
            Err(e) => Err(e),
        }
    }
}

} // verus!
