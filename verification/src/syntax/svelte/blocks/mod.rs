//! Blocks, and the two combinators that both kinds of block are built from.

use vstd::prelude::*;
use crate::cursor::{complete, left, parse_source, same_outcome, Cursor};
use crate::error::{
    extend, extend_by_nothing, extend_by_one, extend_nothing, fail, ErrorKind, Parsed, ParseError,
    SpecError,
};
use crate::lexer::{source_tokens, tokenize};
use crate::syntax::jsx::{
    child_with_tokens_is_no_empty_text, no_empty_text, no_empty_text_extended, parse_child,
    view_children, Child, SpecChild,
};
use crate::syntax::svelte::{Divider, Either, Peek};
use crate::syntax::svelte::blocks::if_block::{
    if_opening_peek, parse_if_block, view_if_block, IfBlock, SpecIfBlock,
};
use crate::syntax::svelte::blocks::match_block::{
    match_opening_peek, parse_match_block, view_match_block, MatchBlock, SpecMatchBlock,
};
use crate::token::SpecToken;

pub mod if_block;
pub mod match_block;

verus! {

/// A control block.
#[derive(Debug, PartialEq, Eq)]
pub enum Block {
    If(IfBlock),
    Match(MatchBlock),
}

/// The view of a block.
pub enum SpecBlock {
    If(SpecIfBlock),
    Match(SpecMatchBlock),
}

/// The view of a block.
pub open spec fn view_block(block: Block) -> SpecBlock
    decreases block,
{
    match block {
        Block::If(if_block) => SpecBlock::If(view_if_block(if_block)),
        Block::Match(match_block) => SpecBlock::Match(view_match_block(match_block)),
    }
}

impl View for Block {
    type V = SpecBlock;

    open spec fn view(&self) -> SpecBlock {
        view_block(*self)
    }
}

/// The view of the parts of a block behind its dividers.
pub open spec fn view_parts<D: View>(parts: Seq<(D, Vec<Child>)>) -> Seq<(D::V, Seq<SpecChild>)>
    decreases parts,
{
    Seq::new(
        parts.len(),
        |i: int|
            if 0 <= i < parts.len() {
                (parts[i].0@, view_children(parts[i].1@))
            } else {
                arbitrary()
            },
    )
}

/// Whether a block opens at `pos`.
pub open spec fn block_peek(tokens: Seq<SpecToken>, pos: int) -> bool {
    if_opening_peek(tokens, pos) || match_opening_peek(tokens, pos)
}

/// The children from `pos` on, up to the place where `S` is next. Every
/// child covers at least one token: where the tokens end, or a token comes
/// that no child starts with, before `S` is next, that is a failure.
pub open spec fn children_until<S: Peek>(tokens: Seq<SpecToken>, pos: int) -> Parsed<
    Seq<SpecChild>,
>
    decreases left(tokens, pos), 3nat,
{
    if S::peeks(tokens, pos) {
        Ok((Seq::empty(), 0))
    } else if !(0 <= pos < tokens.len()) {
        fail(ErrorKind::UnexpectedEnd, pos)
    } else {
        match parse_child(tokens, pos) {
            Err(e) => Err(e),
            Ok((child, n)) => if n == 0 {
                fail(ErrorKind::UnexpectedToken, pos)
            } else {
                extend(seq![child], n, children_until::<S>(tokens, pos + n))
            },
        }
    }
}

/// The parts from `pos` on, each a divider `D` and the children behind it
/// up to the next divider, up to the place where `S` is next.
pub open spec fn divided_until<D: Divider, S: Peek>(tokens: Seq<SpecToken>, pos: int) -> Parsed<
    Seq<(D::V, Seq<SpecChild>)>,
>
    decreases left(tokens, pos), 4nat,
{
    if S::peeks(tokens, pos) {
        Ok((Seq::empty(), 0))
    } else if !(0 <= pos < tokens.len()) {
        fail(ErrorKind::UnexpectedEnd, pos)
    } else {
        match D::parses(tokens, pos) {
            Err(e) => Err(e),
            Ok(divider) => match children_until::<Either<D, S>>(tokens, pos + 1) {
                Err(e) => Err(e),
                Ok((children, n)) => extend(
                    seq![(divider, children)],
                    1 + n,
                    divided_until::<D, S>(tokens, pos + 1 + n),
                ),
            },
        }
    }
}

/// The block at `pos`: an `if` block or a `match` block.
pub open spec fn parse_block(tokens: Seq<SpecToken>, pos: int) -> Parsed<SpecBlock>
    decreases left(tokens, pos), 1nat,
{
    if if_opening_peek(tokens, pos) {
        match parse_if_block(tokens, pos) {
            Ok((block, n)) => Ok((SpecBlock::If(block), n)),
            Err(e) => Err(e),
        }
    } else if match_opening_peek(tokens, pos) {
        match parse_match_block(tokens, pos) {
            Ok((block, n)) => Ok((SpecBlock::Match(block), n)),
            Err(e) => Err(e),
        }
    } else {
        fail(ErrorKind::UnknownBlock, pos)
    }
}

/// Where the children end, `S` is next.
pub proof fn children_until_stops<S: Peek>(tokens: Seq<SpecToken>, pos: int)
    ensures
        children_until::<S>(tokens, pos) matches Ok((_, n)) ==> S::peeks(tokens, pos + n),
    decreases left(tokens, pos),
{
    if !S::peeks(tokens, pos) && 0 <= pos < tokens.len() {
        if let Ok((_, n)) = parse_child(tokens, pos) {
            if n > 0 {
                children_until_stops::<S>(tokens, pos + n);
            }
        }
    }
}

/// In the body of a fragment or of a block no text is empty: every child
/// covers at least one token.
pub proof fn children_hold_no_empty_text<S: Peek>(tokens: Seq<SpecToken>, pos: int)
    ensures
        children_until::<S>(tokens, pos) matches Ok((children, _)) ==> no_empty_text(children),
    decreases left(tokens, pos),
{
    if !S::peeks(tokens, pos) && 0 <= pos < tokens.len() {
        if let Ok((child, n)) = parse_child(tokens, pos) {
            if n > 0 {
                child_with_tokens_is_no_empty_text(tokens, pos);
                children_hold_no_empty_text::<S>(tokens, pos + n);
                if let Ok((others, _)) = children_until::<S>(tokens, pos + n) {
                    no_empty_text_extended(child, others);
                }
            }
        }
    }
}

/// The parts of a block come in source order: where a divider stands at
/// `pos`, it and the children behind it are the first part, and the parts
/// that follow in the source follow in the sequence.
pub proof fn divided_until_first<D: Divider, S: Peek>(
    tokens: Seq<SpecToken>,
    pos: int,
    divider: D::V,
    children: Seq<SpecChild>,
    n: nat,
    others: Seq<(D::V, Seq<SpecChild>)>,
    m: nat,
)
    requires
        0 <= pos < tokens.len(),
        !S::peeks(tokens, pos),
        D::parses(tokens, pos) == Ok::<D::V, SpecError>(divider),
        children_until::<Either<D, S>>(tokens, pos + 1) == Ok::<(Seq<SpecChild>, nat), SpecError>(
            (children, n),
        ),
        divided_until::<D, S>(tokens, pos + 1 + n) == Ok::<
            (Seq<(D::V, Seq<SpecChild>)>, nat),
            SpecError,
        >((others, m)),
    ensures
        divided_until::<D, S>(tokens, pos) == Ok::<(Seq<(D::V, Seq<SpecChild>)>, nat), SpecError>(
            (seq![(divider, children)] + others, 1 + n + m),
        ),
{
}

/// Where `S` is next, there are no parts.
pub proof fn divided_until_none<D: Divider, S: Peek>(tokens: Seq<SpecToken>, pos: int)
    requires
        S::peeks(tokens, pos),
    ensures
        divided_until::<D, S>(tokens, pos) == Ok::<(Seq<(D::V, Seq<SpecChild>)>, nat), SpecError>(
            (Seq::empty(), 0),
        ),
{
}

impl Peek for Block {
    open spec fn peeks(tokens: Seq<SpecToken>, pos: int) -> bool {
        block_peek(tokens, pos)
    }

    fn peek<'a>(input: Cursor<'a>) -> (yes: bool) {
        IfBlock::peek(input) || MatchBlock::peek(input)
    }
}

/// Parses children up to the place where `S` is next.
pub fn parse_until<'a, S: Peek>(input: Cursor<'a>) -> (r: Result<
    (Vec<Child>, Cursor<'a>),
    ParseError,
>)
    ensures
        input.yields_as(
            r,
            |children: Vec<Child>| view_children(children@),
            children_until::<S>(input@, input.index() as int),
        ),
    decreases left(input@, input.index() as int), 3nat,
{
    let mut children: Vec<Child> = Vec::new();
    let mut at = input.fork();
    let ghost tokens = input@;
    let ghost start = input.index() as int;
    proof {
        extend_nothing(children_until::<S>(tokens, start));
        assert(view_children(children@) =~= Seq::empty());
    }
    loop
        invariant
            at.follows(input, (at.index() - input.index()) as nat),
            input.index() <= at.index(),
            tokens == input@,
            start == input.index(),
            children_until::<S>(tokens, start) == extend(
                view_children(children@),
                (at.index() - start) as nat,
                children_until::<S>(tokens, at.index() as int),
            ),
        decreases left(tokens, at.index() as int),
    {
        if S::peek(at) {
            proof {
                extend_by_nothing(view_children(children@), (at.index() - start) as nat);
            }
            return Ok((children, at));
        }
        if at.is_empty() {
            return Err(at.error(ErrorKind::UnexpectedEnd));
        }
        match Child::parse(at) {
            Err(e) => {
                return Err(e);
            },
            Ok((child, rest)) => {
                if rest.position() == at.position() {
                    return Err(at.error(ErrorKind::UnexpectedToken));
                }
                proof {
                    let n = (rest.index() - at.index()) as nat;
                    extend_by_one(
                        view_children(children@),
                        (at.index() - start) as nat,
                        child@,
                        n,
                        children_until::<S>(tokens, rest.index() as int),
                    );
                    assert(view_children(children@.push(child)) =~= view_children(
                        children@,
                    ).push(child@));
                }
                children.push(child);
                at = rest;
            },
        }
    }
}

/// Parses parts, each a divider `D` and the children behind it up to the
/// next divider, up to the place where `S` is next.
pub fn parse_divided_until<'a, D: Divider, S: Peek>(input: Cursor<'a>) -> (r: Result<
    (Vec<(D, Vec<Child>)>, Cursor<'a>),
    ParseError,
>)
    ensures
        input.yields_as(
            r,
            |parts: Vec<(D, Vec<Child>)>| view_parts(parts@),
            divided_until::<D, S>(input@, input.index() as int),
        ),
    decreases left(input@, input.index() as int), 4nat,
{
    let mut parts: Vec<(D, Vec<Child>)> = Vec::new();
    let mut at = input.fork();
    let ghost tokens = input@;
    let ghost start = input.index() as int;
    proof {
        extend_nothing(divided_until::<D, S>(tokens, start));
        assert(view_parts(parts@) =~= Seq::empty());
    }
    loop
        invariant
            at.follows(input, (at.index() - input.index()) as nat),
            input.index() <= at.index(),
            tokens == input@,
            start == input.index(),
            divided_until::<D, S>(tokens, start) == extend(
                view_parts(parts@),
                (at.index() - start) as nat,
                divided_until::<D, S>(tokens, at.index() as int),
            ),
        decreases left(tokens, at.index() as int),
    {
        if S::peek(at) {
            proof {
                extend_by_nothing(view_parts(parts@), (at.index() - start) as nat);
            }
            return Ok((parts, at));
        }
        if at.is_empty() {
            return Err(at.error(ErrorKind::UnexpectedEnd));
        }
        let (divider, behind) = match D::parse(at) {
            Ok(found) => found,
            Err(e) => {
                return Err(e);
            },
        };
        match parse_until::<Either<D, S>>(behind) {
            Err(e) => {
                return Err(e);
            },
            Ok((children, rest)) => {
                proof {
                    let n = (rest.index() - at.index()) as nat;
                    extend_by_one(
                        view_parts(parts@),
                        (at.index() - start) as nat,
                        (divider@, view_children(children@)),
                        n,
                        divided_until::<D, S>(tokens, rest.index() as int),
                    );
                    assert(view_parts(parts@.push((divider, children))) =~= view_parts(
                        parts@,
                    ).push((divider@, view_children(children@))));
                }
                parts.push((divider, children));
                at = rest;
            },
        }
    }
}

impl Block {
    /// Parses a block: an `if` block or a `match` block.
    pub fn parse<'a>(input: Cursor<'a>) -> (r: Result<(Block, Cursor<'a>), ParseError>)
        ensures
            input.yields(r, parse_block(input@, input.index() as int)),
        decreases left(input@, input.index() as int), 1nat,
    {
        if IfBlock::peek(input) {
            return match IfBlock::parse(input) {
                Ok((block, rest)) => Ok((Block::If(block), rest)),
                Err(e) => Err(e),
            };
        }
        if MatchBlock::peek(input) {
            return match MatchBlock::parse(input) {
                Ok((block, rest)) => Ok((Block::Match(block), rest)),
                Err(e) => Err(e),
            };
        }
        Err(input.error(ErrorKind::UnknownBlock))
    }

    /// Parses a source text that holds a block and nothing else.
    pub fn parse_str(source: &str) -> (r: Result<Block, ParseError>)
        ensures
            same_outcome(
                r,
                parse_source(
                    source_tokens(source@),
                    |tokens: Seq<SpecToken>, pos: int| parse_block(tokens, pos),
                ),
            ),
    {
        match tokenize(source) {
            Ok(tokens) => {
                let input = Cursor::new(&tokens);
                complete(input, Block::parse(input), Ghost(parse_block(input@, 0)))
            },
            Err(e) => Err(e),
        }
    }
}

} // verus!
