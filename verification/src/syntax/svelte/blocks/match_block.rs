//! `{#match expression} {:case pattern} ... {:case pattern if guard} ... {/match}`.
//!
//! Only comments may stand before the first case.

use vstd::prelude::*;
use crate::cursor::{
    complete, group_tokens, is_group, is_punct, is_word, left, parse_source, same_outcome, Cursor,
};
use crate::error::{enclosed, fail, marking, ErrorKind, Parsed, ParseError, SpecError};
use crate::lexer::{source_tokens, tokenize};
use crate::syntax::embedded::{
    parse_pattern, parse_whole_expression, view_optional_expression, Expression, Pattern,
};
use crate::syntax::jsx::{
    comments_until, parse_comments_until, view_comments, Child, Comment, SpecChild,
};
use crate::syntax::svelte::{
    braced_expression, braced_word, braces_start, parse_braced_expression, parse_braced_word,
    peek_braces, Divider, Either, Peek,
};
use crate::syntax::svelte::blocks::{
    children_until, divided_until, divided_until_first, divided_until_none, parse_divided_until,
    view_parts,
};
use crate::token::{Delimiter, SpecToken};

verus! {

/// `{#match expression}`.
#[derive(Debug, PartialEq, Eq)]
pub struct MatchOpening {
    pub expr: Expression,
}

/// `{/match}`.
#[derive(Clone, Copy, Debug, PartialEq, Eq)]
pub struct MatchClosing;

/// `{:case pattern}` or `{:case pattern if guard}`.
#[derive(Debug, PartialEq, Eq)]
pub struct CaseDivider {
    pub pattern: Pattern,
    pub guard: Option<Expression>,
}

/// A `match` block: the expression, the comments before the first case, and
/// the cases, in source order.
#[derive(Debug, PartialEq, Eq)]
pub struct MatchBlock {
    pub opening: MatchOpening,
    pub children: Vec<Comment>,
    pub cases: Vec<(CaseDivider, Vec<Child>)>,
    pub closing: MatchClosing,
}

/// The view of a case divider.
pub struct SpecCaseDivider {
    pub pattern: Seq<SpecToken>,
    pub guard: Option<Seq<SpecToken>>,
}

/// The view of a `match` block.
pub struct SpecMatchBlock {
    pub expr: Seq<SpecToken>,
    pub comments: Seq<Seq<SpecToken>>,
    pub cases: Seq<(SpecCaseDivider, Seq<SpecChild>)>,
}

impl View for MatchOpening {
    type V = Seq<SpecToken>;

    open spec fn view(&self) -> Seq<SpecToken> {
        self.expr@
    }
}

impl View for MatchClosing {
    type V = MatchClosing;

    open spec fn view(&self) -> MatchClosing {
        *self
    }
}

impl View for CaseDivider {
    type V = SpecCaseDivider;

    open spec fn view(&self) -> SpecCaseDivider {
        SpecCaseDivider { pattern: self.pattern@, guard: view_optional_expression(self.guard) }
    }
}

/// The view of a `match` block.
pub open spec fn view_match_block(block: MatchBlock) -> SpecMatchBlock
    decreases block,
{
    SpecMatchBlock {
        expr: block.opening@,
        comments: view_comments(block.children@),
        cases: view_parts(block.cases@),
    }
}

impl View for MatchBlock {
    type V = SpecMatchBlock;

    open spec fn view(&self) -> SpecMatchBlock {
        view_match_block(*self)
    }
}

/// Whether `{#match` is at `pos`.
pub open spec fn match_opening_peek(tokens: Seq<SpecToken>, pos: int) -> bool {
    braces_start(tokens, pos, '#', "match"@)
}

/// Whether `{/match` is at `pos`.
pub open spec fn match_closing_peek(tokens: Seq<SpecToken>, pos: int) -> bool {
    braces_start(tokens, pos, '/', "match"@)
}

/// Whether `{:case` is at `pos`.
pub open spec fn case_peek(tokens: Seq<SpecToken>, pos: int) -> bool {
    braces_start(tokens, pos, ':', "case"@)
}

/// `{#match expression}` at `pos`: the expression.
pub open spec fn parse_match_opening(tokens: Seq<SpecToken>, pos: int) -> Parsed<
    Seq<SpecToken>,
> {
    parse_braced_expression(tokens, pos, '#', "match"@, ErrorKind::ExpectedMatch)
}

/// `{/match}` at `pos`.
pub open spec fn parse_match_closing(tokens: Seq<SpecToken>, pos: int) -> Parsed<()> {
    parse_braced_word(tokens, pos, '/', "match"@, ErrorKind::ExpectedMatch)
}

/// The guard at `pos`: none where nothing is left, else `if` and an
/// expression that reaches to the end.
pub open spec fn parse_guard(tokens: Seq<SpecToken>, pos: int) -> Parsed<Option<Seq<SpecToken>>> {
    if pos >= tokens.len() {
        Ok((None, 0))
    } else if !is_word(tokens, pos, "if"@) {
        fail(ErrorKind::ExpectedIf, pos)
    } else {
        match parse_whole_expression(tokens, pos + 1) {
            Ok((guard, n)) => Ok((Some(guard), n + 1)),
            Err(e) => Err(e),
        }
    }
}

/// What stands behind `:case` in a case divider, from position 2 of the
/// group on: a pattern and an optional guard.
pub open spec fn parse_case_body(inner: Seq<SpecToken>) -> Parsed<SpecCaseDivider> {
    match parse_pattern(inner, 2) {
        Err(e) => Err(e),
        Ok((pattern, n)) => match parse_guard(inner, 2 + n as int) {
            Err(e) => Err(e),
            Ok((guard, m)) => Ok((SpecCaseDivider { pattern, guard }, n + m)),
        },
    }
}

/// `{:case pattern}` or `{:case pattern if guard}` at `pos`.
pub open spec fn parse_case(tokens: Seq<SpecToken>, pos: int) -> Parsed<SpecCaseDivider> {
    if !is_group(tokens, pos, Delimiter::Brace) {
        fail(ErrorKind::ExpectedBraces, pos)
    } else if !is_punct(group_tokens(tokens, pos), 0, ':') {
        fail(ErrorKind::ExpectedPunct(':'), pos)
    } else if !is_word(group_tokens(tokens, pos), 1, "case"@) {
        fail(ErrorKind::ExpectedCase, pos)
    } else {
        enclosed(pos, parse_case_body(group_tokens(tokens, pos)))
    }
}

impl Peek for MatchOpening {
    open spec fn peeks(tokens: Seq<SpecToken>, pos: int) -> bool {
        match_opening_peek(tokens, pos)
    }

    fn peek<'a>(input: Cursor<'a>) -> (yes: bool) {
        peek_braces(input, '#', "match")
    }
}

impl Peek for MatchClosing {
    open spec fn peeks(tokens: Seq<SpecToken>, pos: int) -> bool {
        match_closing_peek(tokens, pos)
    }

    fn peek<'a>(input: Cursor<'a>) -> (yes: bool) {
        peek_braces(input, '/', "match")
    }
}

impl Peek for CaseDivider {
    open spec fn peeks(tokens: Seq<SpecToken>, pos: int) -> bool {
        case_peek(tokens, pos)
    }

    fn peek<'a>(input: Cursor<'a>) -> (yes: bool) {
        peek_braces(input, ':', "case")
    }
}

impl Peek for MatchBlock {
    open spec fn peeks(tokens: Seq<SpecToken>, pos: int) -> bool {
        match_opening_peek(tokens, pos)
    }

    fn peek<'a>(input: Cursor<'a>) -> (yes: bool) {
        MatchOpening::peek(input)
    }
}

impl MatchOpening {
    /// Parses `{#match expression}`.
    pub fn parse<'a>(input: Cursor<'a>) -> (r: Result<(MatchOpening, Cursor<'a>), ParseError>)
        ensures
            input.yields(r, parse_match_opening(input@, input.index() as int)),
    {
        match braced_expression(input, '#', "match", ErrorKind::ExpectedMatch) {
            Ok((expr, rest)) => Ok((MatchOpening { expr }, rest)),
            Err(e) => Err(e),
        }
    }
}

impl MatchClosing {
    /// Parses `{/match}`.
    pub fn parse<'a>(input: Cursor<'a>) -> (r: Result<(MatchClosing, Cursor<'a>), ParseError>)
        ensures
            input.yields(r, marking(parse_match_closing(input@, input.index() as int), MatchClosing)),
    {
        match braced_word(input, '/', "match", ErrorKind::ExpectedMatch) {
            Ok((_, rest)) => Ok((MatchClosing, rest)),
            Err(e) => Err(e),
        }
    }
}

/// Parses the guard of a case: none where nothing is left, else `if` and an
/// expression that reaches to the end.
pub fn guard_parse<'a>(input: Cursor<'a>) -> (r: Result<
    (Option<Expression>, Cursor<'a>),
    ParseError,
>)
    ensures
        match r {
            Ok((guard, rest)) => {
                &&& parse_guard(input@, input.index() as int) matches Ok((v, n))
                &&& view_optional_expression(guard) == v
                &&& rest.follows(input, n)
            },
            Err(e) => parse_guard(input@, input.index() as int) == Err::<
                (Option<Seq<SpecToken>>, nat),
                SpecError,
            >(e@),
        },
{
    if input.is_empty() {
        return Ok((None, input));
    }
    if !input.peek_word(1, "if") {
        return Err(input.error(ErrorKind::ExpectedIf));
    }
    match Expression::parse_whole(input.advance(1)) {
        Ok((guard, rest)) => Ok((Some(guard), rest)),
        Err(e) => Err(e),
    }
}

impl Divider for CaseDivider {
    open spec fn parses(tokens: Seq<SpecToken>, pos: int) -> Result<SpecCaseDivider, SpecError> {
        match parse_case(tokens, pos) {
            Ok((divider, _)) => Ok(divider),
            Err(e) => Err(e),
        }
    }

    fn parse<'a>(input: Cursor<'a>) -> (r: Result<(CaseDivider, Cursor<'a>), ParseError>) {
        let (inner, rest) = match input.enter(Delimiter::Brace) {
            Some(opened) => opened,
            None => {
                return Err(input.error(ErrorKind::ExpectedBraces));
            },
        };
        if !inner.peek_punct(1, ':') {
            return Err(input.error(ErrorKind::ExpectedPunct(':')));
        }
        if !inner.peek_word(2, "case") {
            return Err(input.error(ErrorKind::ExpectedCase));
        }
        let (pattern, behind) = match Pattern::parse(inner.advance(2)) {
            Ok(found) => found,
            Err(e) => {
                return Err(input.error(e.kind));
            },
        };
        match guard_parse(behind) {
            Ok((guard, _)) => Ok((CaseDivider { pattern, guard }, rest)),
            Err(e) => Err(input.error(e.kind)),
        }
    }
}

/// The `match` block at `pos`: `{#match expression}`, comments up to the
/// first case or `{/match}`, the cases, and `{/match}`.
pub open spec fn parse_match_block(tokens: Seq<SpecToken>, pos: int) -> Parsed<SpecMatchBlock>
    decreases left(tokens, pos), 0nat,
{
    match parse_match_opening(tokens, pos) {
        Err(e) => Err(e),
        Ok((expr, _)) => match comments_until::<Either<MatchClosing, CaseDivider>>(
            tokens,
            pos + 1,
        ) {
            Err(e) => Err(e),
            Ok((comments, n)) => match divided_until::<CaseDivider, MatchClosing>(
                tokens,
                pos + 1 + n,
            ) {
                Err(e) => Err(e),
                Ok((cases, m)) => match parse_match_closing(tokens, pos + 1 + n + m) {
                    Err(e) => Err(e),
                    Ok(_) => Ok((SpecMatchBlock { expr, comments, cases }, 1 + n + m + 1)),
                },
            },
        },
    }
}

impl MatchBlock {
    /// Parses `{#match expression}`, the comments before the first case,
    /// the cases, and `{/match}`.
    pub fn parse<'a>(input: Cursor<'a>) -> (r: Result<(MatchBlock, Cursor<'a>), ParseError>)
        ensures
            input.yields(r, parse_match_block(input@, input.index() as int)),
        decreases left(input@, input.index() as int), 0nat,
    {
        let (opening, at) = match MatchOpening::parse(input) {
            Ok(found) => found,
            Err(e) => {
                return Err(e);
            },
        };
        let (children, at) = match parse_comments_until::<Either<MatchClosing, CaseDivider>>(at) {
            Ok(found) => found,
            Err(e) => {
                return Err(e);
            },
        };
        let (cases, at) = match parse_divided_until::<CaseDivider, MatchClosing>(at) {
            Ok(found) => found,
            Err(e) => {
                return Err(e);
            },
        };
        match MatchClosing::parse(at) {
            Ok((closing, rest)) => Ok((MatchBlock { opening, children, cases, closing }, rest)),
            Err(e) => Err(e),
        }
    }

    /// Parses a source text that holds a `match` block and nothing else.
    pub fn parse_str(source: &str) -> (r: Result<MatchBlock, ParseError>)
        ensures
            same_outcome(
                r,
                parse_source(
                    source_tokens(source@),
                    |tokens: Seq<SpecToken>, pos: int| parse_match_block(tokens, pos),
                ),
            ),
    {
        match tokenize(source) {
            Ok(tokens) => {
                let input = Cursor::new(&tokens);
                complete(input, MatchBlock::parse(input), Ghost(parse_match_block(input@, 0)))
            },
            Err(e) => Err(e),
        }
    }
}

/// A case has no guard where its pattern reaches the end of the group, and
/// otherwise the guard is the expression behind the `if` that follows the
/// pattern.
pub proof fn guard_follows_if(tokens: Seq<SpecToken>, pos: int)
    ensures
        parse_case(tokens, pos) matches Ok((divider, _)) ==> {
            &&& parse_pattern(group_tokens(tokens, pos), 2) matches Ok((pattern, n))
            &&& divider.pattern == pattern
            &&& divider.guard is None <==> 2 + n >= group_tokens(tokens, pos).len()
            &&& divider.guard matches Some(guard) ==> {
                &&& is_word(group_tokens(tokens, pos), 2 + n as int, "if"@)
                &&& parse_whole_expression(group_tokens(tokens, pos), 3 + n as int) matches Ok(
                    (expression, _),
                )
                &&& guard == expression
            }
        },
{
}

/// A `match` block with the cases `first` and `second`, in this order in
/// the source, parses to the cases `[first, second]`, in this order.
pub proof fn match_cases_in_order(
    tokens: Seq<SpecToken>,
    pos: int,
    expr: Seq<SpecToken>,
    comments: Seq<Seq<SpecToken>>,
    n0: nat,
    first: SpecCaseDivider,
    b1: Seq<SpecChild>,
    n1: nat,
    second: SpecCaseDivider,
    b2: Seq<SpecChild>,
    n2: nat,
)
    requires
        parse_match_opening(tokens, pos) == Ok::<(Seq<SpecToken>, nat), SpecError>((expr, 1)),
        comments_until::<Either<MatchClosing, CaseDivider>>(tokens, pos + 1) == Ok::<
            (Seq<Seq<SpecToken>>, nat),
            SpecError,
        >((comments, n0)),
        parse_case(tokens, pos + 1 + n0) == Ok::<(SpecCaseDivider, nat), SpecError>((first, 1)),
        children_until::<Either<CaseDivider, MatchClosing>>(tokens, pos + 2 + n0) == Ok::<
            (Seq<SpecChild>, nat),
            SpecError,
        >((b1, n1)),
        parse_case(tokens, pos + 2 + n0 + n1) == Ok::<(SpecCaseDivider, nat), SpecError>(
            (second, 1),
        ),
        children_until::<Either<CaseDivider, MatchClosing>>(tokens, pos + 3 + n0 + n1) == Ok::<
            (Seq<SpecChild>, nat),
            SpecError,
        >((b2, n2)),
        parse_match_closing(tokens, pos + 3 + n0 + n1 + n2) is Ok,
    ensures
        parse_match_block(tokens, pos) == Ok::<(SpecMatchBlock, nat), SpecError>(
            (
                SpecMatchBlock { expr, comments, cases: seq![(first, b1), (second, b2)] },
                4 + n0 + n1 + n2,
            ),
        ),
{
    let one = pos + 1 + n0;
    let two = pos + 2 + n0 + n1;
    let end = pos + 3 + n0 + n1 + n2;
    divided_until_none::<CaseDivider, MatchClosing>(tokens, end);
    divided_until_first::<CaseDivider, MatchClosing>(tokens, two, second, b2, n2, Seq::empty(), 0);
    divided_until_first::<CaseDivider, MatchClosing>(
        tokens,
        one,
        first,
        b1,
        n1,
        seq![(second, b2)] + Seq::empty(),
        1 + n2,
    );
    assert(seq![(first, b1)] + (seq![(second, b2)] + Seq::empty()) =~= seq![
        (first, b1),
        (second, b2),
    ]);
}

} // verus!
