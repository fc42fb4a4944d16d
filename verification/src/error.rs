//! The one error type of the parser.

use vstd::prelude::*;
use vstd::string::*;

verus! {

/// What the parser expected, or what it found instead.
#[derive(Clone, Copy, Debug, PartialEq, Eq, Structural)]
pub enum ErrorKind {
    /// The source text could not be split into tokens.
    InvalidSource,
    /// The input ended where a token was required.
    UnexpectedEnd,
    /// A token that no production accepts at this place, or tokens left over
    /// after a complete production.
    UnexpectedToken,
    /// The given punctuation character was required.
    ExpectedPunct(char),
    /// An identifier was required.
    ExpectedIdentifier,
    /// A brace group was required.
    ExpectedBraces,
    /// The word `if` was required.
    ExpectedIf,
    /// The word `else` was required.
    ExpectedElse,
    /// The word `match` was required.
    ExpectedMatch,
    /// The word `case` was required.
    ExpectedCase,
    /// An expression was required.
    ExpectedExpression,
    /// A pattern was required.
    ExpectedPattern,
    /// An element name was required.
    ExpectedName,
    /// One of `<`, `^`, `>` was required.
    ExpectedAlignment,
    /// `+` or `-` was required.
    ExpectedSign,
    /// A width, optionally with a leading zero and a precision, was required.
    ExpectedNumbers,
    /// A width may have at most one leading zero.
    MultipleLeadingZeros,
    /// An integer or a parameter `name$` was required.
    ExpectedCount,
    /// Only `x` or `X` may stand before `?`.
    ExpectedHexFlag,
    /// Neither an element nor a fragment starts here.
    ExpectedRoot,
    /// Neither a spread nor a named attribute starts here.
    ExpectedAttribute,
    /// Neither a string literal nor a braced expression starts here.
    ExpectedAttributeValue,
    /// No closing tag was found for an element; the position is that of its
    /// opening tag.
    UnclosedElement,
    /// Neither `{:else if ...}` nor `{:else}` starts here.
    ExpectedDivider,
    /// A block that is neither `{#if ...}` nor `{#match ...}`.
    UnknownBlock,
}

/// A parse failure: what went wrong, and the position of the offending token
/// in the token sequence that was handed to the parser. A failure inside a
/// delimited group is reported at the position of the group.
#[derive(Clone, Copy, Debug, PartialEq, Eq, Structural)]
pub struct ParseError {
    pub kind: ErrorKind,
    pub position: usize,
}

/// What a failure of the given kind says, but for the character that
/// `ExpectedPunct` names.
pub open spec fn message_text(kind: ErrorKind) -> Seq<char> {
    match kind {
        ErrorKind::InvalidSource => "The source is not a sequence of tokens"@,
        ErrorKind::UnexpectedEnd => "Unexpected end of input"@,
        ErrorKind::UnexpectedToken => "Unexpected token"@,
        ErrorKind::ExpectedPunct(_) => "Expected the character "@,
        ErrorKind::ExpectedIdentifier => "Expected an identifier here"@,
        ErrorKind::ExpectedBraces => "Expected curly braces here"@,
        ErrorKind::ExpectedIf => "Expected `if` here"@,
        ErrorKind::ExpectedElse => "Expected `else` here"@,
        ErrorKind::ExpectedMatch => "Expected `match` here"@,
        ErrorKind::ExpectedCase => "Expected `case` here"@,
        ErrorKind::ExpectedExpression => "Expected an expression here"@,
        ErrorKind::ExpectedPattern => "Expected a pattern here"@,
        ErrorKind::ExpectedName => "Expected an element name here"@,
        ErrorKind::ExpectedAlignment => "Expected one of `>`, `^`, `<` here"@,
        ErrorKind::ExpectedSign => "Expected `+` or `-` here!"@,
        ErrorKind::ExpectedNumbers => "Expected [`0`] [INT] [. INT] here"@,
        ErrorKind::MultipleLeadingZeros => "Expected maximum one leading `0` here"@,
        ErrorKind::ExpectedCount => "Expected either integer or parameter `var$` here"@,
        ErrorKind::ExpectedHexFlag => "Expected either `x` or `X` here!"@,
        ErrorKind::ExpectedRoot => "Expected either element or fragment here"@,
        ErrorKind::ExpectedAttribute => "Expected either a spread attribute or a named attribute here"@,
        ErrorKind::ExpectedAttributeValue => "Expected either a string literal or an attribute value here"@,
        ErrorKind::UnclosedElement => "Did not find appropriate closing tag for the element that opens here"@,
        ErrorKind::ExpectedDivider => "Expected either `{:else if ...}`, or `{:else}` here"@,
        ErrorKind::UnknownBlock => "Expected either `{#if ...}` or `{#match ...}` here"@,
    }
}

/// What a failure of the given kind says: for `ExpectedPunct`, the text and
/// the character; else the text.
pub open spec fn message_of(kind: ErrorKind) -> Seq<char> {
    match kind {
        ErrorKind::ExpectedPunct(c) => message_text(kind).push(c),
        _ => message_text(kind),
    }
}

impl ErrorKind {
    /// The text of the message, but for the character that `ExpectedPunct`
    /// names.
    fn text(&self) -> (text: &'static str)
        ensures
            text@ == message_text(*self),
    {
        match self {
            ErrorKind::InvalidSource => "The source is not a sequence of tokens",
            ErrorKind::UnexpectedEnd => "Unexpected end of input",
            ErrorKind::UnexpectedToken => "Unexpected token",
            ErrorKind::ExpectedPunct(_) => "Expected the character ",
            ErrorKind::ExpectedIdentifier => "Expected an identifier here",
            ErrorKind::ExpectedBraces => "Expected curly braces here",
            ErrorKind::ExpectedIf => "Expected `if` here",
            ErrorKind::ExpectedElse => "Expected `else` here",
            ErrorKind::ExpectedMatch => "Expected `match` here",
            ErrorKind::ExpectedCase => "Expected `case` here",
            ErrorKind::ExpectedExpression => "Expected an expression here",
            ErrorKind::ExpectedPattern => "Expected a pattern here",
            ErrorKind::ExpectedName => "Expected an element name here",
            ErrorKind::ExpectedAlignment => "Expected one of `>`, `^`, `<` here",
            ErrorKind::ExpectedSign => "Expected `+` or `-` here!",
            ErrorKind::ExpectedNumbers => "Expected [`0`] [INT] [. INT] here",
            ErrorKind::MultipleLeadingZeros => "Expected maximum one leading `0` here",
            ErrorKind::ExpectedCount => "Expected either integer or parameter `var$` here",
            ErrorKind::ExpectedHexFlag => "Expected either `x` or `X` here!",
            ErrorKind::ExpectedRoot => "Expected either element or fragment here",
            ErrorKind::ExpectedAttribute => "Expected either a spread attribute or a named attribute here",
            ErrorKind::ExpectedAttributeValue => "Expected either a string literal or an attribute value here",
            ErrorKind::UnclosedElement => "Did not find appropriate closing tag for the element that opens here",
            ErrorKind::ExpectedDivider => "Expected either `{:else if ...}`, or `{:else}` here",
            ErrorKind::UnknownBlock => "Expected either `{#if ...}` or `{#match ...}` here",
        }
    }
}

impl ParseError {
    /// What went wrong, in words.
    pub fn message(&self) -> (text: String)
        ensures
            text@ == message_of(self.kind),
    {
        let mut text = String::from_str(self.kind.text());
        if let ErrorKind::ExpectedPunct(c) = self.kind {
            text.push(c);
        }
        text
    }
}

/// The mathematical view of a parse failure.
pub struct SpecError {
    pub kind: ErrorKind,
    pub position: int,
}

impl View for ParseError {
    type V = SpecError;

    open spec fn view(&self) -> SpecError {
        SpecError { kind: self.kind, position: self.position as int }
    }
}

/// The outcome of a production at some position: the node and the number of
/// tokens it covers, or the failure.
pub type Parsed<V> = Result<(V, nat), SpecError>;

/// A failure of the given kind at the given position.
pub open spec fn fail<V>(kind: ErrorKind, position: int) -> Parsed<V> {
    Err(SpecError { kind, position })
}

/// The outcome of a production that only checks tokens, with the node that
/// stands for them where it succeeds.
pub open spec fn marking<V>(outcome: Parsed<()>, node: V) -> Parsed<V> {
    match outcome {
        Ok((_, n)) => Ok((node, n)),
        Err(e) => Err(e),
    }
}

/// The outcome of a production that ran inside the group at `position`: the
/// group is the one token it covers, and its failures are reported at the
/// group.
pub open spec fn enclosed<V>(position: int, outcome: Parsed<V>) -> Parsed<V> {
    match outcome {
        Ok((v, _)) => Ok((v, 1)),
        Err(e) => Err(SpecError { kind: e.kind, position }),
    }
}

/// The outcome of a production that must reach the end of the `len` tokens
/// it runs over: tokens left over are a failure at the first of them.
pub open spec fn to_end<V>(outcome: Parsed<V>, pos: int, len: int) -> Parsed<V> {
    match outcome {
        Ok((v, n)) => if pos + n == len {
            Ok((v, n))
        } else {
            fail(ErrorKind::UnexpectedToken, pos + n)
        },
        Err(e) => Err(e),
    }
}

/// The outcome of a list of which `acc`, covering `used` tokens, is already
/// there and `tail` is the outcome of the rest.
pub open spec fn extend<V>(acc: Seq<V>, used: nat, tail: Parsed<Seq<V>>) -> Parsed<Seq<V>> {
    match tail {
        Ok((items, n)) => Ok((acc + items, used + n)),
        Err(e) => Err(e),
    }
}

/// Nothing in front changes nothing.
pub proof fn extend_nothing<V>(tail: Parsed<Seq<V>>)
    ensures
        extend(Seq::empty(), 0, tail) == tail,
{
    match tail {
        Ok((items, n)) => {
            assert(Seq::<V>::empty() + items =~= items);
        },
        Err(_) => {},
    }
}

/// An empty rest leaves what is there.
pub proof fn extend_by_nothing<V>(acc: Seq<V>, used: nat)
    ensures
        extend(acc, used, Ok((Seq::empty(), 0))) == Ok::<(Seq<V>, nat), SpecError>((acc, used)),
{
    assert(acc + Seq::<V>::empty() =~= acc);
}

/// One more item in front of the rest is one more item behind what is there.
pub proof fn extend_by_one<V>(acc: Seq<V>, used: nat, item: V, n: nat, tail: Parsed<Seq<V>>)
    ensures
        extend(acc, used, extend(seq![item], n, tail)) == extend(acc.push(item), used + n, tail),
{
    match tail {
        Ok((items, m)) => {
            assert(acc + (seq![item] + items) =~= acc.push(item) + items);
        },
        Err(_) => {},
    }
}

} // verus!
