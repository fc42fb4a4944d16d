//! `{#if condition} ... {:else if condition} ... {:else} ... {/if}`.

use vstd::prelude::*;
use crate::cursor::{
    complete, group_tokens, is_group, is_punct, is_word, left, parse_source, same_outcome, Cursor,
};
use crate::error::{enclosed, fail, marking, ErrorKind, Parsed, ParseError, SpecError};
use crate::lexer::{source_tokens, tokenize};
use crate::syntax::embedded::{parse_whole_expression, Expression};
use crate::syntax::jsx::{view_children, Child, SpecChild};
use crate::syntax::svelte::{
    braced_expression, braced_word, braces_start, inside_braces, parse_braced_expression,
    parse_braced_word, peek_braces, Divider, Either, Peek,
};
use crate::syntax::svelte::blocks::{
    children_until, divided_until, divided_until_first, divided_until_none, parse_divided_until,
    parse_until, view_parts,
};
use crate::token::{Delimiter, SpecToken};

verus! {

/// `{#if condition}`.
#[derive(Debug, PartialEq, Eq)]
pub struct IfOpening {
    pub expr: Expression,
}

/// `{/if}`.
#[derive(Clone, Copy, Debug, PartialEq, Eq)]
pub struct IfClosing;

/// `{:else}`.
#[derive(Clone, Copy, Debug, PartialEq, Eq)]
pub struct ElseDivider;

/// `{:else if condition}`.
#[derive(Debug, PartialEq, Eq)]
pub struct ElseIfDivider {
    pub expr: Expression,
}

/// What starts a further part of an `if` block.
#[derive(Debug, PartialEq, Eq)]
pub enum IfDivider {
    Else(ElseDivider),
    ElseIf(ElseIfDivider),
}

/// An `if` block: the condition, the body, and the parts behind each
/// divider, in source order.
#[derive(Debug, PartialEq, Eq)]
pub struct IfBlock {
    pub opening: IfOpening,
    pub children: Vec<Child>,
    pub dividers: Vec<(IfDivider, Vec<Child>)>,
    pub closing: IfClosing,
}

/// The view of a divider of an `if` block.
pub enum SpecIfDivider {
    Else,
    ElseIf(Seq<SpecToken>),
}

/// The view of an `if` block.
pub struct SpecIfBlock {
    pub condition: Seq<SpecToken>,
    pub children: Seq<SpecChild>,
    pub dividers: Seq<(SpecIfDivider, Seq<SpecChild>)>,
}

impl View for IfOpening {
    type V = Seq<SpecToken>;

    open spec fn view(&self) -> Seq<SpecToken> {
        self.expr@
    }
}

impl View for IfClosing {
    type V = IfClosing;

    open spec fn view(&self) -> IfClosing {
        *self
    }
}

impl View for ElseDivider {
    type V = ElseDivider;

    open spec fn view(&self) -> ElseDivider {
        *self
    }
}

impl View for ElseIfDivider {
    type V = Seq<SpecToken>;

    open spec fn view(&self) -> Seq<SpecToken> {
        self.expr@
    }
}

impl View for IfDivider {
    type V = SpecIfDivider;

    open spec fn view(&self) -> SpecIfDivider {
        match self {
            IfDivider::Else(_) => SpecIfDivider::Else,
            IfDivider::ElseIf(divider) => SpecIfDivider::ElseIf(divider@),
        }
    }
}

/// The view of an `if` block.
pub open spec fn view_if_block(block: IfBlock) -> SpecIfBlock
    decreases block,
{
    SpecIfBlock {
        condition: block.opening@,
        children: view_children(block.children@),
        dividers: view_parts(block.dividers@),
    }
}

impl View for IfBlock {
    type V = SpecIfBlock;

    open spec fn view(&self) -> SpecIfBlock {
        view_if_block(*self)
    }
}

/// Whether `{#if` is at `pos`.
pub open spec fn if_opening_peek(tokens: Seq<SpecToken>, pos: int) -> bool {
    braces_start(tokens, pos, '#', "if"@)
}

/// Whether `{/if` is at `pos`.
pub open spec fn if_closing_peek(tokens: Seq<SpecToken>, pos: int) -> bool {
    braces_start(tokens, pos, '/', "if"@)
}

/// Whether `{:else` is at `pos`, without an `if` behind it.
pub open spec fn else_peek(tokens: Seq<SpecToken>, pos: int) -> bool {
    braces_start(tokens, pos, ':', "else"@) && !is_word(group_tokens(tokens, pos), 2, "if"@)
}

/// Whether `{:else if` is at `pos`.
pub open spec fn else_if_peek(tokens: Seq<SpecToken>, pos: int) -> bool {
    braces_start(tokens, pos, ':', "else"@) && is_word(group_tokens(tokens, pos), 2, "if"@)
}

/// Whether a divider of an `if` block is at `pos`.
pub open spec fn if_divider_peek(tokens: Seq<SpecToken>, pos: int) -> bool {
    else_peek(tokens, pos) || else_if_peek(tokens, pos)
}

/// `{#if condition}` at `pos`: the condition.
pub open spec fn parse_if_opening(tokens: Seq<SpecToken>, pos: int) -> Parsed<Seq<SpecToken>> {
    parse_braced_expression(tokens, pos, '#', "if"@, ErrorKind::ExpectedIf)
}

/// `{/if}` at `pos`.
pub open spec fn parse_if_closing(tokens: Seq<SpecToken>, pos: int) -> Parsed<()> {
    parse_braced_word(tokens, pos, '/', "if"@, ErrorKind::ExpectedIf)
}

/// `{:else}` at `pos`.
pub open spec fn parse_else(tokens: Seq<SpecToken>, pos: int) -> Parsed<()> {
    parse_braced_word(tokens, pos, ':', "else"@, ErrorKind::ExpectedElse)
}

/// `{:else if condition}` at `pos`: the condition.
pub open spec fn parse_else_if(tokens: Seq<SpecToken>, pos: int) -> Parsed<Seq<SpecToken>> {
    if !is_group(tokens, pos, Delimiter::Brace) {
        fail(ErrorKind::ExpectedBraces, pos)
    } else if !is_punct(group_tokens(tokens, pos), 0, ':') {
        fail(ErrorKind::ExpectedPunct(':'), pos)
    } else if !is_word(group_tokens(tokens, pos), 1, "else"@) {
        fail(ErrorKind::ExpectedElse, pos)
    } else if !is_word(group_tokens(tokens, pos), 2, "if"@) {
        fail(ErrorKind::ExpectedIf, pos)
    } else {
        enclosed(pos, parse_whole_expression(group_tokens(tokens, pos), 3))
    }
}

/// The divider of an `if` block at `pos`: `{:else if ...}` where that is
/// next, else `{:else}` where that is next.
pub open spec fn parse_if_divider(tokens: Seq<SpecToken>, pos: int) -> Result<
    SpecIfDivider,
    SpecError,
> {
    if else_if_peek(tokens, pos) {
        match parse_else_if(tokens, pos) {
            Ok((condition, _)) => Ok(SpecIfDivider::ElseIf(condition)),
            Err(e) => Err(e),
        }
    } else if else_peek(tokens, pos) {
        match parse_else(tokens, pos) {
            Ok(_) => Ok(SpecIfDivider::Else),
            Err(e) => Err(e),
        }
    } else {
        Err(SpecError { kind: ErrorKind::ExpectedDivider, position: pos })
    }
}

impl Peek for IfOpening {
    open spec fn peeks(tokens: Seq<SpecToken>, pos: int) -> bool {
        if_opening_peek(tokens, pos)
    }

    fn peek<'a>(input: Cursor<'a>) -> (yes: bool) {
        peek_braces(input, '#', "if")
    }
}

impl Peek for IfClosing {
    open spec fn peeks(tokens: Seq<SpecToken>, pos: int) -> bool {
        if_closing_peek(tokens, pos)
    }

    fn peek<'a>(input: Cursor<'a>) -> (yes: bool) {
        peek_braces(input, '/', "if")
    }
}

impl Peek for ElseDivider {
    open spec fn peeks(tokens: Seq<SpecToken>, pos: int) -> bool {
        else_peek(tokens, pos)
    }

    fn peek<'a>(input: Cursor<'a>) -> (yes: bool) {
        match inside_braces(input) {
            Ok(inner) => inner.peek_punct(1, ':') && inner.peek_word(2, "else") && !inner.peek_word(
                3,
                "if",
            ),
            Err(_) => false,
        }
    }
}

impl Peek for ElseIfDivider {
    open spec fn peeks(tokens: Seq<SpecToken>, pos: int) -> bool {
        else_if_peek(tokens, pos)
    }

    fn peek<'a>(input: Cursor<'a>) -> (yes: bool) {
        match inside_braces(input) {
            Ok(inner) => inner.peek_punct(1, ':') && inner.peek_word(2, "else") && inner.peek_word(
                3,
                "if",
            ),
            Err(_) => false,
        }
    }
}

impl Peek for IfDivider {
    open spec fn peeks(tokens: Seq<SpecToken>, pos: int) -> bool {
        if_divider_peek(tokens, pos)
    }

    fn peek<'a>(input: Cursor<'a>) -> (yes: bool) {
        ElseDivider::peek(input) || ElseIfDivider::peek(input)
    }
}

impl Peek for IfBlock {
    open spec fn peeks(tokens: Seq<SpecToken>, pos: int) -> bool {
        if_opening_peek(tokens, pos)
    }

    fn peek<'a>(input: Cursor<'a>) -> (yes: bool) {
        IfOpening::peek(input)
    }
}

impl IfOpening {
    /// Parses `{#if condition}`.
    pub fn parse<'a>(input: Cursor<'a>) -> (r: Result<(IfOpening, Cursor<'a>), ParseError>)
        ensures
            input.yields(r, parse_if_opening(input@, input.index() as int)),
    {
        match braced_expression(input, '#', "if", ErrorKind::ExpectedIf) {
            Ok((expr, rest)) => Ok((IfOpening { expr }, rest)),
            Err(e) => Err(e),
        }
    }
}

impl IfClosing {
    /// Parses `{/if}`.
    pub fn parse<'a>(input: Cursor<'a>) -> (r: Result<(IfClosing, Cursor<'a>), ParseError>)
        ensures
            input.yields(r, marking(parse_if_closing(input@, input.index() as int), IfClosing)),
    {
        match braced_word(input, '/', "if", ErrorKind::ExpectedIf) {
            Ok((_, rest)) => Ok((IfClosing, rest)),
            Err(e) => Err(e),
        }
    }
}

impl ElseDivider {
    /// Parses `{:else}`.
    pub fn parse<'a>(input: Cursor<'a>) -> (r: Result<(ElseDivider, Cursor<'a>), ParseError>)
        ensures
            input.yields(r, marking(parse_else(input@, input.index() as int), ElseDivider)),
    {
        match braced_word(input, ':', "else", ErrorKind::ExpectedElse) {
            Ok((_, rest)) => Ok((ElseDivider, rest)),
            Err(e) => Err(e),
        }
    }
}

impl ElseIfDivider {
    /// Parses `{:else if condition}`.
    pub fn parse<'a>(input: Cursor<'a>) -> (r: Result<(ElseIfDivider, Cursor<'a>), ParseError>)
        ensures
            input.yields(r, parse_else_if(input@, input.index() as int)),
    {
        let (inner, rest) = match input.enter(Delimiter::Brace) {
            Some(opened) => opened,
            None => {
                return Err(input.error(ErrorKind::ExpectedBraces));
            },
        };
        if !inner.peek_punct(1, ':') {
            return Err(input.error(ErrorKind::ExpectedPunct(':')));
        }
        if !inner.peek_word(2, "else") {
            return Err(input.error(ErrorKind::ExpectedElse));
        }
        if !inner.peek_word(3, "if") {
            return Err(input.error(ErrorKind::ExpectedIf));
        }
        match Expression::parse_whole(inner.advance(3)) {
            Ok((expr, _)) => Ok((ElseIfDivider { expr }, rest)),
            Err(e) => Err(input.error(e.kind)),
        }
    }
}

impl Divider for IfDivider {
    open spec fn parses(tokens: Seq<SpecToken>, pos: int) -> Result<SpecIfDivider, SpecError> {
        parse_if_divider(tokens, pos)
    }

    fn parse<'a>(input: Cursor<'a>) -> (r: Result<(IfDivider, Cursor<'a>), ParseError>) {
        if ElseIfDivider::peek(input) {
            return match ElseIfDivider::parse(input) {
                Ok((divider, rest)) => Ok((IfDivider::ElseIf(divider), rest)),
                Err(e) => Err(e),
            };
        }
        if ElseDivider::peek(input) {
            return match ElseDivider::parse(input) {
                Ok((divider, rest)) => Ok((IfDivider::Else(divider), rest)),
                Err(e) => Err(e),
            };
        }
        Err(input.error(ErrorKind::ExpectedDivider))
    }
}

/// The `if` block at `pos`: `{#if condition}`, the body up to the first
/// divider or `{/if}`, the parts behind the dividers, and `{/if}`.
pub open spec fn parse_if_block(tokens: Seq<SpecToken>, pos: int) -> Parsed<SpecIfBlock>
    decreases left(tokens, pos), 0nat,
{
    match parse_if_opening(tokens, pos) {
        Err(e) => Err(e),
        Ok((condition, _)) => match children_until::<Either<IfDivider, IfClosing>>(
            tokens,
            pos + 1,
        ) {
            Err(e) => Err(e),
            Ok((children, n)) => match divided_until::<IfDivider, IfClosing>(
                tokens,
                pos + 1 + n,
            ) {
                Err(e) => Err(e),
                Ok((dividers, m)) => match parse_if_closing(tokens, pos + 1 + n + m) {
                    Err(e) => Err(e),
                    Ok(_) => Ok((SpecIfBlock { condition, children, dividers }, 1 + n + m + 1)),
                },
            },
        },
    }
}

/// Whether the dividers of an `if` block stand in order: `{:else}` comes at
/// most once, and then as the last divider.
pub open spec fn dividers_ordered(dividers: Seq<(SpecIfDivider, Seq<SpecChild>)>) -> bool {
    forall|i: int| 0 <= i < dividers.len() - 1 ==> !((#[trigger] dividers[i]).0 is Else)
}

impl IfBlock {
    /// Whether the dividers stand in order: `{:else}` comes at most once,
    /// and then as the last divider. Parsing accepts the dividers in any
    /// order; this is the check to make on its result.
    pub fn dividers_in_order(&self) -> (ok: bool)
        ensures
            ok == dividers_ordered(self@.dividers),
    {
        let ghost parts = view_parts(self.dividers@);
        let len = self.dividers.len();
        let mut i: usize = 0;
        while i < len && i + 1 < len
            invariant
                len == self.dividers@.len(),
                parts == view_parts(self.dividers@),
                forall|k: int| 0 <= k < i ==> !((#[trigger] parts[k]).0 is Else),
            decreases self.dividers@.len() - i,
        {
            match &self.dividers[i].0 {
                IfDivider::Else(_) => {
                    assert(parts[i as int].0 is Else);
                    return false;
                },
                IfDivider::ElseIf(_) => {},
            }
            i += 1;
        }
        true
    }

    /// Parses `{#if condition}`, the body, the parts behind the dividers,
    /// and `{/if}`.
    pub fn parse<'a>(input: Cursor<'a>) -> (r: Result<(IfBlock, Cursor<'a>), ParseError>)
        ensures
            input.yields(r, parse_if_block(input@, input.index() as int)),
        decreases left(input@, input.index() as int), 0nat,
    {
        let (opening, at) = match IfOpening::parse(input) {
            Ok(found) => found,
            Err(e) => {
                return Err(e);
            },
        };
        let (children, at) = match parse_until::<Either<IfDivider, IfClosing>>(at) {
            Ok(found) => found,
            Err(e) => {
                return Err(e);
            },
        };
        let (dividers, at) = match parse_divided_until::<IfDivider, IfClosing>(at) {
            Ok(found) => found,
            Err(e) => {
                return Err(e);
            },
        };
        match IfClosing::parse(at) {
            Ok((closing, rest)) => Ok((IfBlock { opening, children, dividers, closing }, rest)),
            Err(e) => Err(e),
        }
    }

    /// Parses a source text that holds an `if` block and nothing else.
    pub fn parse_str(source: &str) -> (r: Result<IfBlock, ParseError>)
        ensures
            same_outcome(
                r,
                parse_source(
                    source_tokens(source@),
                    |tokens: Seq<SpecToken>, pos: int| parse_if_block(tokens, pos),
                ),
            ),
    {
        match tokenize(source) {
            Ok(tokens) => {
                let input = Cursor::new(&tokens);
                complete(input, IfBlock::parse(input), Ghost(parse_if_block(input@, 0)))
            },
            Err(e) => Err(e),
        }
    }
}

/// An `if` block with the body `b1`, one `{:else if other}` with the body
/// `b2` and a final `{:else}` with the body `b3` parses to the dividers
/// `[(ElseIf(other), b2), (Else, b3)]`, in this order.
pub proof fn if_else_if_else(
    tokens: Seq<SpecToken>,
    pos: int,
    condition: Seq<SpecToken>,
    b1: Seq<SpecChild>,
    n1: nat,
    other: Seq<SpecToken>,
    b2: Seq<SpecChild>,
    n2: nat,
    b3: Seq<SpecChild>,
    n3: nat,
)
    requires
        parse_if_opening(tokens, pos) == Ok::<(Seq<SpecToken>, nat), SpecError>((condition, 1)),
        children_until::<Either<IfDivider, IfClosing>>(tokens, pos + 1) == Ok::<
            (Seq<SpecChild>, nat),
            SpecError,
        >((b1, n1)),
        parse_if_divider(tokens, pos + 1 + n1) == Ok::<SpecIfDivider, SpecError>(
            SpecIfDivider::ElseIf(other),
        ),
        children_until::<Either<IfDivider, IfClosing>>(tokens, pos + 2 + n1) == Ok::<
            (Seq<SpecChild>, nat),
            SpecError,
        >((b2, n2)),
        parse_if_divider(tokens, pos + 2 + n1 + n2) == Ok::<SpecIfDivider, SpecError>(
            SpecIfDivider::Else,
        ),
        children_until::<Either<IfDivider, IfClosing>>(tokens, pos + 3 + n1 + n2) == Ok::<
            (Seq<SpecChild>, nat),
            SpecError,
        >((b3, n3)),
        parse_if_closing(tokens, pos + 3 + n1 + n2 + n3) is Ok,
    ensures
        parse_if_block(tokens, pos) == Ok::<(SpecIfBlock, nat), SpecError>(
            (
                SpecIfBlock {
                    condition,
                    children: b1,
                    dividers: seq![(SpecIfDivider::ElseIf(other), b2), (SpecIfDivider::Else, b3)],
                },
                4 + n1 + n2 + n3,
            ),
        ),
{
    let first = pos + 1 + n1;
    let second = pos + 2 + n1 + n2;
    let end = pos + 3 + n1 + n2 + n3;
    divided_until_none::<IfDivider, IfClosing>(tokens, end);
    divided_until_first::<IfDivider, IfClosing>(
        tokens,
        second,
        SpecIfDivider::Else,
        b3,
        n3,
        Seq::empty(),
        0,
    );
    divided_until_first::<IfDivider, IfClosing>(
        tokens,
        first,
        SpecIfDivider::ElseIf(other),
        b2,
        n2,
        seq![(SpecIfDivider::Else, b3)] + Seq::empty(),
        1 + n3,
    );
    assert(seq![(SpecIfDivider::ElseIf(other), b2)] + (seq![(SpecIfDivider::Else, b3)]
        + Seq::empty()) =~= seq![(SpecIfDivider::ElseIf(other), b2), (SpecIfDivider::Else, b3)]);
}

} // verus!
