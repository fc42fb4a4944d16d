//! The formatting mini-language that may follow `:` in an interpolation.
//!
//! ```text
//! FormatSpec := Align? Sign? Pretty? Numbers? Type
//! Align      := fill_char? ('<' | '^' | '>')
//! Sign       := '+' | '-'
//! Pretty     := '#'
//! Numbers    := IntegerLiteral ('.' Precision)?
//!             | FloatLiteral Precision?
//! Precision  := '*' | IntegerLiteral | Identifier '$'
//! Type       := ε | '?' | Identifier '?' | Identifier
//! ```

use vstd::prelude::*;
use vstd::string::*;
use crate::cursor::{
    complete, is_character, is_float, is_ident, is_integer, is_punct, literal_at, parse_source,
    same_outcome, word_at, Cursor,
};
use crate::error::{fail, ErrorKind, Parsed, ParseError, SpecError};
use crate::lexer::{source_tokens, tokenize};
use crate::text::{find_char, first_index, first_index_unique, slice_text, text_equals};
use crate::token::{LiteralKind, SpecToken, Token};

verus! {

/// Turns an optional outcome into the outcome of an optional value: a
/// failure of a step that was taken is a failure, a step that was not taken
/// is a success without a value.
pub fn flip<T, E>(o: Option<Result<T, E>>) -> (flipped: Result<Option<T>, E>)
    ensures
        flipped == match o {
            Some(Ok(x)) => Ok::<Option<T>, E>(Some(x)),
            Some(Err(e)) => Err(e),
            None => Ok(None),
        },
{
    match o {
        Some(Ok(x)) => Ok(Some(x)),
        Some(Err(e)) => Err(e),
        None => Ok(None),
    }
}

/// To which side a value is aligned in its field.
#[derive(Clone, Copy, Debug, PartialEq, Eq)]
pub enum AlignDirection {
    Right,
    Center,
    Left,
}

/// Alignment, with the character that fills the field if one is given.
#[derive(Clone, Copy, Debug, PartialEq, Eq)]
pub struct Align {
    pub fill: Option<char>,
    pub direction: AlignDirection,
}

/// Which sign is printed.
#[derive(Clone, Copy, Debug, PartialEq, Eq)]
pub enum Sign {
    Positive,
    Negative,
}

/// The `#` flag.
#[derive(Clone, Copy, Debug, PartialEq, Eq)]
pub struct Pretty;

/// The zero-padding flag: literally a `0`.
#[derive(Clone, Copy, Debug, PartialEq, Eq)]
pub struct Zero;

/// The width of the field: the digits as they were written.
#[derive(Clone, Debug, PartialEq, Eq)]
pub struct Width(pub String);

/// A named parameter, written `name$`.
#[derive(Clone, Debug, PartialEq, Eq)]
pub struct Parameter(pub String);

/// A count: a named parameter or an integer as it was written.
#[derive(Clone, Debug, PartialEq, Eq)]
pub enum Count {
    Parameter(Parameter),
    Integer(String),
}

/// A precision: `*`, supplied where the value is used, or a count.
#[derive(Clone, Debug, PartialEq, Eq)]
pub enum Precision {
    Star,
    Count(Count),
}

/// A precision behind its decimal point.
#[derive(Clone, Debug, PartialEq, Eq)]
pub struct DecimalPrecision {
    pub precision: Precision,
}

/// How the value is printed.
#[derive(Clone, Debug, PartialEq, Eq)]
pub enum FormatType {
    Display,
    Debug,
    DebugLowerHex,
    DebugUpperHex,
    Other(String),
}

/// The numeric part of a formatting specifier: zero flag, width, precision.
#[derive(Clone, Debug, PartialEq, Eq)]
pub struct Numbers(pub Option<Zero>, pub Option<Width>, pub Option<DecimalPrecision>);

/// A formatting specifier.
#[derive(Clone, Debug, PartialEq, Eq)]
pub struct Formatting {
    pub align: Option<Align>,
    pub sign: Option<Sign>,
    pub pretty: Option<Pretty>,
    pub zero: Option<Zero>,
    pub width: Option<Width>,
    pub precision: Option<DecimalPrecision>,
    pub _type: FormatType,
}

/// The view of a count.
pub enum SpecCount {
    Parameter(Seq<char>),
    Integer(Seq<char>),
}

/// The view of a precision.
pub enum SpecPrecision {
    Star,
    Count(SpecCount),
}

/// The view of a format type.
pub enum SpecFormatType {
    Display,
    Debug,
    DebugLowerHex,
    DebugUpperHex,
    Other(Seq<char>),
}

/// The view of the numeric part of a formatting specifier.
pub struct SpecNumbers {
    pub zero: Option<Zero>,
    pub width: Option<Seq<char>>,
    pub precision: Option<SpecPrecision>,
}

/// The view of a formatting specifier.
pub struct SpecFormatting {
    pub align: Option<Align>,
    pub sign: Option<Sign>,
    pub pretty: Option<Pretty>,
    pub zero: Option<Zero>,
    pub width: Option<Seq<char>>,
    pub precision: Option<SpecPrecision>,
    pub _type: SpecFormatType,
}

impl View for AlignDirection {
    type V = AlignDirection;

    open spec fn view(&self) -> AlignDirection {
        *self
    }
}

impl View for Align {
    type V = Align;

    open spec fn view(&self) -> Align {
        *self
    }
}

impl View for Sign {
    type V = Sign;

    open spec fn view(&self) -> Sign {
        *self
    }
}

impl View for Pretty {
    type V = Pretty;

    open spec fn view(&self) -> Pretty {
        *self
    }
}

impl View for Zero {
    type V = Zero;

    open spec fn view(&self) -> Zero {
        *self
    }
}

impl View for Width {
    type V = Seq<char>;

    open spec fn view(&self) -> Seq<char> {
        self.0@
    }
}

impl View for Parameter {
    type V = Seq<char>;

    open spec fn view(&self) -> Seq<char> {
        self.0@
    }
}

impl View for Count {
    type V = SpecCount;

    open spec fn view(&self) -> SpecCount {
        match self {
            Count::Parameter(p) => SpecCount::Parameter(p@),
            Count::Integer(digits) => SpecCount::Integer(digits@),
        }
    }
}

impl View for Precision {
    type V = SpecPrecision;

    open spec fn view(&self) -> SpecPrecision {
        match self {
            Precision::Star => SpecPrecision::Star,
            Precision::Count(c) => SpecPrecision::Count(c@),
        }
    }
}

impl View for DecimalPrecision {
    type V = SpecPrecision;

    open spec fn view(&self) -> SpecPrecision {
        self.precision@
    }
}

impl View for FormatType {
    type V = SpecFormatType;

    open spec fn view(&self) -> SpecFormatType {
        match self {
            FormatType::Display => SpecFormatType::Display,
            FormatType::Debug => SpecFormatType::Debug,
            FormatType::DebugLowerHex => SpecFormatType::DebugLowerHex,
            FormatType::DebugUpperHex => SpecFormatType::DebugUpperHex,
            FormatType::Other(name) => SpecFormatType::Other(name@),
        }
    }
}

/// The view of an optional width.
pub open spec fn view_width(width: Option<Width>) -> Option<Seq<char>> {
    match width {
        Some(w) => Some(w@),
        None => None,
    }
}

/// The view of an optional precision.
pub open spec fn view_precision(precision: Option<DecimalPrecision>) -> Option<SpecPrecision> {
    match precision {
        Some(p) => Some(p@),
        None => None,
    }
}

impl View for Numbers {
    type V = SpecNumbers;

    open spec fn view(&self) -> SpecNumbers {
        SpecNumbers {
            zero: self.0,
            width: view_width(self.1),
            precision: view_precision(self.2),
        }
    }
}

impl View for Formatting {
    type V = SpecFormatting;

    open spec fn view(&self) -> SpecFormatting {
        SpecFormatting {
            align: self.align,
            sign: self.sign,
            pretty: self.pretty,
            zero: self.zero,
            width: view_width(self.width),
            precision: view_precision(self.precision),
            _type: self._type@,
        }
    }
}

/// Whether the token at `at` is one of `<`, `^`, `>`.
pub open spec fn is_direction(tokens: Seq<SpecToken>, at: int) -> bool {
    is_punct(tokens, at, '<') || is_punct(tokens, at, '^') || is_punct(tokens, at, '>')
}

/// The direction that the token at `at` stands for.
pub open spec fn direction_at(tokens: Seq<SpecToken>, at: int) -> AlignDirection {
    if is_punct(tokens, at, '>') {
        AlignDirection::Right
    } else if is_punct(tokens, at, '^') {
        AlignDirection::Center
    } else {
        AlignDirection::Left
    }
}

/// Whether an alignment starts at `pos`: the first or the second token is a
/// direction, so that a fill character may stand before it.
pub open spec fn align_peek(tokens: Seq<SpecToken>, pos: int) -> bool {
    is_direction(tokens, pos) || is_direction(tokens, pos + 1)
}

/// The direction at `pos`.
pub open spec fn parse_direction(tokens: Seq<SpecToken>, pos: int) -> Parsed<AlignDirection> {
    if is_direction(tokens, pos) {
        Ok((direction_at(tokens, pos), 1))
    } else {
        fail(ErrorKind::ExpectedAlignment, pos)
    }
}

/// The alignment at `pos`: a character literal, if one is next, is the fill;
/// a direction must follow.
pub open spec fn parse_align(tokens: Seq<SpecToken>, pos: int) -> Parsed<Align> {
    if is_character(tokens, pos) {
        match parse_direction(tokens, pos + 1) {
            Ok((direction, _)) => Ok(
                (Align { fill: Some(literal_at(tokens, pos).kind->Character_0), direction }, 2),
            ),
            Err(e) => Err(e),
        }
    } else {
        match parse_direction(tokens, pos) {
            Ok((direction, _)) => Ok((Align { fill: None, direction }, 1)),
            Err(e) => Err(e),
        }
    }
}

/// Whether a sign starts at `pos`.
pub open spec fn sign_peek(tokens: Seq<SpecToken>, pos: int) -> bool {
    is_punct(tokens, pos, '+') || is_punct(tokens, pos, '-')
}

/// The sign at `pos`.
pub open spec fn parse_sign(tokens: Seq<SpecToken>, pos: int) -> Parsed<Sign> {
    if is_punct(tokens, pos, '+') {
        Ok((Sign::Positive, 1))
    } else if is_punct(tokens, pos, '-') {
        Ok((Sign::Negative, 1))
    } else {
        fail(ErrorKind::ExpectedSign, pos)
    }
}

/// Whether the `#` flag is at `pos`.
pub open spec fn pretty_peek(tokens: Seq<SpecToken>, pos: int) -> bool {
    is_punct(tokens, pos, '#')
}

/// The `#` flag at `pos`.
pub open spec fn parse_pretty(tokens: Seq<SpecToken>, pos: int) -> Parsed<Pretty> {
    if is_punct(tokens, pos, '#') {
        Ok((Pretty, 1))
    } else {
        fail(ErrorKind::ExpectedPunct('#'), pos)
    }
}

/// Whether an integer literal that starts with `0` is at `pos`.
pub open spec fn zero_peek(tokens: Seq<SpecToken>, pos: int) -> bool {
    &&& is_integer(tokens, pos)
    &&& literal_at(tokens, pos).text.len() > 0
    &&& literal_at(tokens, pos).text[0] == '0'
}

/// The parameter at `pos`: an identifier and `$`.
pub open spec fn parse_parameter(tokens: Seq<SpecToken>, pos: int) -> Parsed<Seq<char>> {
    if !is_ident(tokens, pos) {
        fail(ErrorKind::ExpectedIdentifier, pos)
    } else if !is_punct(tokens, pos + 1, '$') {
        fail(ErrorKind::ExpectedPunct('$'), pos + 1)
    } else {
        Ok((word_at(tokens, pos), 2))
    }
}

/// The count at `pos`: an integer literal, or an identifier followed by `$`.
pub open spec fn parse_count(tokens: Seq<SpecToken>, pos: int) -> Parsed<SpecCount> {
    if is_integer(tokens, pos) {
        Ok((SpecCount::Integer(literal_at(tokens, pos).text), 1))
    } else if is_ident(tokens, pos) && is_punct(tokens, pos + 1, '$') {
        Ok((SpecCount::Parameter(word_at(tokens, pos)), 2))
    } else {
        fail(ErrorKind::ExpectedCount, pos)
    }
}

/// The precision at `pos`: `*`, or a count.
pub open spec fn parse_precision(tokens: Seq<SpecToken>, pos: int) -> Parsed<SpecPrecision> {
    if is_punct(tokens, pos, '*') {
        Ok((SpecPrecision::Star, 1))
    } else {
        match parse_count(tokens, pos) {
            Ok((count, n)) => Ok((SpecPrecision::Count(count), n)),
            Err(e) => Err(e),
        }
    }
}

/// Whether a decimal point is at `pos`.
pub open spec fn decimal_peek(tokens: Seq<SpecToken>, pos: int) -> bool {
    is_punct(tokens, pos, '.')
}

/// The decimal point at `pos` and the precision behind it.
pub open spec fn parse_decimal_precision(tokens: Seq<SpecToken>, pos: int) -> Parsed<
    SpecPrecision,
> {
    if is_punct(tokens, pos, '.') {
        match parse_precision(tokens, pos + 1) {
            Ok((precision, n)) => Ok((precision, n + 1)),
            Err(e) => Err(e),
        }
    } else {
        fail(ErrorKind::ExpectedPunct('.'), pos)
    }
}

/// Splits the digits before the decimal point into the zero flag and the
/// width: one leading zero, with more digits behind it, is the flag; a
/// second leading zero is refused (`None`).
pub open spec fn split_width(digits: Seq<char>) -> Option<(Option<Zero>, Seq<char>)> {
    if digits.len() > 1 && digits[0] == '0' {
        if digits[1] == '0' {
            None
        } else {
            Some((Some(Zero), digits.subrange(1, digits.len() as int)))
        }
    } else {
        Some((None, digits))
    }
}

/// The numeric part, once its digits before the decimal point and the
/// outcome of its precision are known. A failure of the precision comes
/// before a refusal of the digits.
pub open spec fn finish_numbers(
    digits: Seq<char>,
    precision: Parsed<Option<SpecPrecision>>,
    pos: int,
) -> Parsed<SpecNumbers> {
    match precision {
        Err(e) => Err(e),
        Ok((precision, n)) => match split_width(digits) {
            None => fail(ErrorKind::MultipleLeadingZeros, pos),
            Some((zero, width)) => Ok((SpecNumbers { zero, width: Some(width), precision }, n + 1)),
        },
    }
}

/// The precision that may follow an integer literal: present where a
/// decimal point is next.
pub open spec fn parse_optional_precision(tokens: Seq<SpecToken>, pos: int) -> Parsed<
    Option<SpecPrecision>,
> {
    if decimal_peek(tokens, pos) {
        match parse_decimal_precision(tokens, pos) {
            Ok((precision, n)) => Ok((Some(precision), n)),
            Err(e) => Err(e),
        }
    } else {
        Ok((None, 0))
    }
}

/// The precision of a float literal with the fraction `fraction`: the
/// fraction itself, or, where it is empty, the precision that follows the
/// literal.
pub open spec fn parse_fraction_precision(
    tokens: Seq<SpecToken>,
    pos: int,
    fraction: Seq<char>,
) -> Parsed<Option<SpecPrecision>> {
    if fraction.len() == 0 {
        match parse_precision(tokens, pos) {
            Ok((precision, n)) => Ok((Some(precision), n)),
            Err(e) => Err(e),
        }
    } else {
        Ok((Some(SpecPrecision::Count(SpecCount::Integer(fraction))), 0))
    }
}

/// Whether a numeric part starts at `pos`.
pub open spec fn numbers_peek(tokens: Seq<SpecToken>, pos: int) -> bool {
    is_integer(tokens, pos) || is_float(tokens, pos)
}

/// The numeric part at `pos`. An integer literal is the width, and a decimal
/// point with a precision may follow. A float literal without a suffix is
/// the width before its decimal point and the precision behind it.
pub open spec fn parse_numbers(tokens: Seq<SpecToken>, pos: int) -> Parsed<SpecNumbers> {
    if is_integer(tokens, pos) {
        finish_numbers(
            literal_at(tokens, pos).text,
            parse_optional_precision(tokens, pos + 1),
            pos,
        )
    } else if is_float(tokens, pos) {
        let text = literal_at(tokens, pos).text;
        if literal_at(tokens, pos).kind->Float_0.len() > 0 {
            fail(ErrorKind::ExpectedNumbers, pos)
        } else {
            match first_index(text, '.') {
                None => fail(ErrorKind::ExpectedNumbers, pos),
                Some(dot) => finish_numbers(
                    text.subrange(0, dot),
                    parse_fraction_precision(
                        tokens,
                        pos + 1,
                        text.subrange(dot + 1, text.len() as int),
                    ),
                    pos,
                ),
            }
        }
    } else {
        fail(ErrorKind::ExpectedNumbers, pos)
    }
}

/// The format type at `pos`: nothing left is `Display`, `?` is `Debug`, an
/// identifier before `?` must be `x` or `X`, any other identifier is kept.
pub open spec fn parse_format_type(tokens: Seq<SpecToken>, pos: int) -> Parsed<SpecFormatType> {
    if pos >= tokens.len() {
        Ok((SpecFormatType::Display, 0))
    } else if is_punct(tokens, pos, '?') {
        Ok((SpecFormatType::Debug, 1))
    } else if !is_ident(tokens, pos) {
        fail(ErrorKind::ExpectedIdentifier, pos)
    } else if is_punct(tokens, pos + 1, '?') {
        if word_at(tokens, pos) == seq!['x'] {
            Ok((SpecFormatType::DebugLowerHex, 2))
        } else if word_at(tokens, pos) == seq!['X'] {
            Ok((SpecFormatType::DebugUpperHex, 2))
        } else {
            fail(ErrorKind::ExpectedHexFlag, pos)
        }
    } else {
        Ok((SpecFormatType::Other(word_at(tokens, pos)), 1))
    }
}

/// The outcome of an optional production: taken where `peek` holds.
pub open spec fn optional<V>(peek: bool, outcome: Parsed<V>) -> Parsed<Option<V>> {
    if peek {
        match outcome {
            Ok((v, n)) => Ok((Some(v), n)),
            Err(e) => Err(e),
        }
    } else {
        Ok((None, 0))
    }
}

/// The numeric part at `pos` if one starts there, else an empty one.
pub open spec fn parse_optional_numbers(tokens: Seq<SpecToken>, pos: int) -> Parsed<SpecNumbers> {
    if numbers_peek(tokens, pos) {
        parse_numbers(tokens, pos)
    } else {
        Ok((SpecNumbers { zero: None, width: None, precision: None }, 0))
    }
}

/// The formatting specifier at `pos`: alignment, sign, `#`, numbers and
/// type, each optional but the type, in this order.
pub open spec fn parse_formatting(tokens: Seq<SpecToken>, pos: int) -> Parsed<SpecFormatting> {
    match optional(align_peek(tokens, pos), parse_align(tokens, pos)) {
        Err(e) => Err(e),
        Ok((align, n1)) => match optional(
            sign_peek(tokens, pos + n1),
            parse_sign(tokens, pos + n1),
        ) {
            Err(e) => Err(e),
            Ok((sign, n2)) => match optional(
                pretty_peek(tokens, pos + n1 + n2),
                parse_pretty(tokens, pos + n1 + n2),
            ) {
                Err(e) => Err(e),
                Ok((pretty, n3)) => match parse_optional_numbers(tokens, pos + n1 + n2 + n3) {
                    Err(e) => Err(e),
                    Ok((numbers, n4)) => match parse_format_type(
                        tokens,
                        pos + n1 + n2 + n3 + n4,
                    ) {
                        Err(e) => Err(e),
                        Ok((_type, n5)) => Ok(
                            (
                                SpecFormatting {
                                    align,
                                    sign,
                                    pretty,
                                    zero: numbers.zero,
                                    width: numbers.width,
                                    precision: numbers.precision,
                                    _type,
                                },
                                n1 + n2 + n3 + n4 + n5,
                            ),
                        ),
                    },
                },
            },
        },
    }
}

impl AlignDirection {
    /// Whether a direction is next.
    pub fn peek(input: Cursor) -> (yes: bool)
        ensures
            yes == is_direction(input@, input.index() as int),
    {
        input.peek_punct(1, '<') || input.peek_punct(1, '^') || input.peek_punct(1, '>')
    }

    /// Parses one of `>`, `^`, `<`.
    pub fn parse<'a>(input: Cursor<'a>) -> (r: Result<(AlignDirection, Cursor<'a>), ParseError>)
        ensures
            input.yields(r, parse_direction(input@, input.index() as int)),
    {
        if input.peek_punct(1, '>') {
            Ok((AlignDirection::Right, input.advance(1)))
        } else if input.peek_punct(1, '^') {
            Ok((AlignDirection::Center, input.advance(1)))
        } else if input.peek_punct(1, '<') {
            Ok((AlignDirection::Left, input.advance(1)))
        } else {
            Err(input.error(ErrorKind::ExpectedAlignment))
        }
    }
}

impl Align {
    /// Whether an alignment is next: the first or the second token is a
    /// direction.
    pub fn peek(input: Cursor) -> (yes: bool)
        ensures
            yes == align_peek(input@, input.index() as int),
    {
        input.peek_punct(1, '<') || input.peek_punct(1, '^') || input.peek_punct(1, '>')
            || input.peek_punct(2, '<') || input.peek_punct(2, '^') || input.peek_punct(2, '>')
    }

    /// Parses an optional fill character and a direction.
    pub fn parse<'a>(input: Cursor<'a>) -> (r: Result<(Align, Cursor<'a>), ParseError>)
        ensures
            input.yields(r, parse_align(input@, input.index() as int)),
    {
        let mut fill: Option<char> = None;
        let mut at = input;
        if let Some(Token::Literal(lit)) = input.peek(1) {
            if let LiteralKind::Character(c) = &lit.kind {
                fill = Some(*c);
                at = input.advance(1);
            }
        }
        match AlignDirection::parse(at) {
            Ok((direction, rest)) => Ok((Align { fill, direction }, rest)),
            Err(e) => Err(e),
        }
    }
}

impl Sign {
    /// Whether a sign is next.
    pub fn peek(input: Cursor) -> (yes: bool)
        ensures
            yes == sign_peek(input@, input.index() as int),
    {
        input.peek_punct(1, '+') || input.peek_punct(1, '-')
    }

    /// Parses `+` or `-`.
    pub fn parse<'a>(input: Cursor<'a>) -> (r: Result<(Sign, Cursor<'a>), ParseError>)
        ensures
            input.yields(r, parse_sign(input@, input.index() as int)),
    {
        if input.peek_punct(1, '+') {
            return Ok((Sign::Positive, input.advance(1)));
        }
        if input.peek_punct(1, '-') {
            return Ok((Sign::Negative, input.advance(1)));
        }
        Err(input.error(ErrorKind::ExpectedSign))
    }
}

impl Pretty {
    /// Whether `#` is next.
    pub fn peek(input: Cursor) -> (yes: bool)
        ensures
            yes == pretty_peek(input@, input.index() as int),
    {
        input.peek_punct(1, '#')
    }

    /// Parses `#`.
    pub fn parse<'a>(input: Cursor<'a>) -> (r: Result<(Pretty, Cursor<'a>), ParseError>)
        ensures
            input.yields(r, parse_pretty(input@, input.index() as int)),
    {
        if input.peek_punct(1, '#') {
            Ok((Pretty, input.advance(1)))
        } else {
            Err(input.error(ErrorKind::ExpectedPunct('#')))
        }
    }
}

impl Zero {
    /// Whether an integer literal that starts with `0` is next.
    pub fn peek(input: Cursor) -> (yes: bool)
        ensures
            yes == zero_peek(input@, input.index() as int),
    {
        match input.peek(1) {
            Some(Token::Literal(lit)) => match &lit.kind {
                LiteralKind::Integer => {
                    let text = lit.text.as_str();
                    text.unicode_len() > 0 && text.get_char(0) == '0'
                },
                _ => false,
            },
            _ => false,
        }
    }
}

impl Parameter {
    /// Parses an identifier and `$`.
    pub fn parse<'a>(input: Cursor<'a>) -> (r: Result<(Parameter, Cursor<'a>), ParseError>)
        ensures
            input.yields(r, parse_parameter(input@, input.index() as int)),
    {
        let name = match input.peek(1) {
            Some(Token::Ident(name)) => name,
            _ => {
                return Err(input.error(ErrorKind::ExpectedIdentifier));
            },
        };
        if !input.peek_punct(2, '$') {
            return Err(input.advance(1).error(ErrorKind::ExpectedPunct('$')));
        }
        Ok((Parameter(name.clone()), input.advance(2)))
    }
}

impl Count {
    /// Parses an integer literal, or an identifier followed by `$`.
    pub fn parse<'a>(input: Cursor<'a>) -> (r: Result<(Count, Cursor<'a>), ParseError>)
        ensures
            input.yields(r, parse_count(input@, input.index() as int)),
    {
        if let Some(Token::Literal(lit)) = input.peek(1) {
            if let LiteralKind::Integer = &lit.kind {
                return Ok((Count::Integer(lit.text.clone()), input.advance(1)));
            }
        }
        if input.peek_ident(1) && input.peek_punct(2, '$') {
            return match Parameter::parse(input) {
                Ok((parameter, rest)) => Ok((Count::Parameter(parameter), rest)),
                Err(e) => Err(e),
            };
        }
        Err(input.error(ErrorKind::ExpectedCount))
    }
}

impl Precision {
    /// Parses `*` or a count.
    pub fn parse<'a>(input: Cursor<'a>) -> (r: Result<(Precision, Cursor<'a>), ParseError>)
        ensures
            input.yields(r, parse_precision(input@, input.index() as int)),
    {
        if input.peek_punct(1, '*') {
            return Ok((Precision::Star, input.advance(1)));
        }
        match Count::parse(input) {
            Ok((count, rest)) => Ok((Precision::Count(count), rest)),
            Err(e) => Err(e),
        }
    }
}

impl DecimalPrecision {
    /// Whether a decimal point is next.
    pub fn peek(input: Cursor) -> (yes: bool)
        ensures
            yes == decimal_peek(input@, input.index() as int),
    {
        input.peek_punct(1, '.')
    }

    /// Parses a decimal point and the precision behind it.
    pub fn parse<'a>(input: Cursor<'a>) -> (r: Result<
        (DecimalPrecision, Cursor<'a>),
        ParseError,
    >)
        ensures
            input.yields(r, parse_decimal_precision(input@, input.index() as int)),
    {
        if !input.peek_punct(1, '.') {
            return Err(input.error(ErrorKind::ExpectedPunct('.')));
        }
        match Precision::parse(input.advance(1)) {
            Ok((precision, rest)) => Ok((DecimalPrecision { precision }, rest)),
            Err(e) => Err(e),
        }
    }
}

/// Splits the digits before the decimal point into the zero flag and the
/// width; `None` where there are two leading zeros.
pub fn split_leading_zero(digits: &str) -> (parts: Option<(Option<Zero>, Width)>)
    ensures
        match parts {
            Some((zero, width)) => split_width(digits@) == Some((zero, width@)),
            None => split_width(digits@) is None,
        },
{
    let len = digits.unicode_len();
    if len > 1 && digits.get_char(0) == '0' {
        if digits.get_char(1) == '0' {
            None
        } else {
            Some((Some(Zero), Width(slice_text(digits, 1, len))))
        }
    } else {
        let width = slice_text(digits, 0, len);
        assert(digits@.subrange(0, len as int) =~= digits@);
        Some((None, Width(width)))
    }
}

impl Numbers {
    /// Whether an integer or a float literal is next.
    pub fn peek(input: Cursor) -> (yes: bool)
        ensures
            yes == numbers_peek(input@, input.index() as int),
    {
        input.peek_integer(1) || input.peek_float(1)
    }

    /// Puts the numeric part together from the digits before the decimal
    /// point and the precision that was found.
    fn finish<'a>(
        input: Cursor<'a>,
        digits: &str,
        precision: Option<DecimalPrecision>,
        rest: Cursor<'a>,
        Ghost(n): Ghost<nat>,
    ) -> (r: Result<(Numbers, Cursor<'a>), ParseError>)
        requires
            rest.follows(input, n + 1),
        ensures
            input.yields(
                r,
                finish_numbers(digits@, Ok((view_precision(precision), n)), input.index() as int),
            ),
    {
        match split_leading_zero(digits) {
            None => Err(input.error(ErrorKind::MultipleLeadingZeros)),
            Some((zero, width)) => Ok((Numbers(zero, Some(width), precision), rest)),
        }
    }

    /// Parses the width with its optional leading zero and precision.
    pub fn parse<'a>(input: Cursor<'a>) -> (r: Result<(Numbers, Cursor<'a>), ParseError>)
        ensures
            input.yields(r, parse_numbers(input@, input.index() as int)),
    {
        let lit = match input.peek(1) {
            Some(Token::Literal(lit)) => lit,
            _ => {
                return Err(input.error(ErrorKind::ExpectedNumbers));
            },
        };
        let behind = input.advance(1);
        match &lit.kind {
            LiteralKind::Integer => {
                if DecimalPrecision::peek(behind) {
                    match DecimalPrecision::parse(behind) {
                        Ok((precision, rest)) => {
                            let ghost n = (rest.index() - behind.index()) as nat;
                            Numbers::finish(input, lit.text.as_str(), Some(precision), rest, Ghost(n))
                        },
                        Err(e) => Err(e),
                    }
                } else {
                    Numbers::finish(input, lit.text.as_str(), None, behind, Ghost(0))
                }
            },
            LiteralKind::Float(suffix) => {
                if suffix.as_str().unicode_len() > 0 {
                    return Err(input.error(ErrorKind::ExpectedNumbers));
                }
                let text = lit.text.as_str();
                let dot = match find_char(text, '.') {
                    Some(dot) => dot,
                    None => {
                        return Err(input.error(ErrorKind::ExpectedNumbers));
                    },
                };
                proof {
                    crate::text::first_index_is_least(text@, '.');
                }
                let len = text.unicode_len();
                let whole = slice_text(text, 0, dot);
                if dot + 1 == len {
                    assert(text@.subrange(dot + 1, len as int).len() == 0);
                    match Precision::parse(behind) {
                        Ok((precision, rest)) => {
                            let ghost n = (rest.index() - behind.index()) as nat;
                            Numbers::finish(
                                input,
                                whole.as_str(),
                                Some(DecimalPrecision { precision }),
                                rest,
                                Ghost(n),
                            )
                        },
                        Err(e) => Err(e),
                    }
                } else {
                    let fraction = slice_text(text, dot + 1, len);
                    let precision = DecimalPrecision {
                        precision: Precision::Count(Count::Integer(fraction)),
                    };
                    Numbers::finish(input, whole.as_str(), Some(precision), behind, Ghost(0))
                }
            },
            _ => Err(input.error(ErrorKind::ExpectedNumbers)),
        }
    }
}

impl FormatType {
    /// Parses the type at the end of a formatting specifier.
    pub fn parse<'a>(input: Cursor<'a>) -> (r: Result<(FormatType, Cursor<'a>), ParseError>)
        ensures
            input.yields(r, parse_format_type(input@, input.index() as int)),
    {
        if input.is_empty() {
            return Ok((FormatType::Display, input));
        }
        if input.peek_punct(1, '?') {
            return Ok((FormatType::Debug, input.advance(1)));
        }
        let name = match input.peek(1) {
            Some(Token::Ident(name)) => name,
            _ => {
                return Err(input.error(ErrorKind::ExpectedIdentifier));
            },
        };
        if input.peek_punct(2, '?') {
            proof {
                reveal_strlit("x");
                reveal_strlit("X");
                assert("x"@ =~= seq!['x']);
                assert("X"@ =~= seq!['X']);
            }
            if text_equals(name.as_str(), "x") {
                Ok((FormatType::DebugLowerHex, input.advance(2)))
            } else if text_equals(name.as_str(), "X") {
                Ok((FormatType::DebugUpperHex, input.advance(2)))
            } else {
                Err(input.error(ErrorKind::ExpectedHexFlag))
            }
        } else {
            Ok((FormatType::Other(name.clone()), input.advance(1)))
        }
    }
}

impl Formatting {
    /// Parses a formatting specifier: alignment, sign, `#`, numbers and
    /// type, in this order.
    pub fn parse<'a>(input: Cursor<'a>) -> (r: Result<(Formatting, Cursor<'a>), ParseError>)
        ensures
            input.yields(r, parse_formatting(input@, input.index() as int)),
    {
        let (align, at) = if Align::peek(input) {
            match Align::parse(input) {
                Ok((align, rest)) => (Some(align), rest),
                Err(e) => {
                    return Err(e);
                },
            }
        } else {
            (None, input)
        };
        let (sign, at) = if Sign::peek(at) {
            match Sign::parse(at) {
                Ok((sign, rest)) => (Some(sign), rest),
                Err(e) => {
                    return Err(e);
                },
            }
        } else {
            (None, at)
        };
        let (pretty, at) = if Pretty::peek(at) {
            match Pretty::parse(at) {
                Ok((pretty, rest)) => (Some(pretty), rest),
                Err(e) => {
                    return Err(e);
                },
            }
        } else {
            (None, at)
        };
        let (numbers, at) = if Numbers::peek(at) {
            match Numbers::parse(at) {
                Ok((numbers, rest)) => (numbers, rest),
                Err(e) => {
                    return Err(e);
                },
            }
        } else {
            (Numbers(None, None, None), at)
        };
        match FormatType::parse(at) {
            Ok((_type, rest)) => {
                let Numbers(zero, width, precision) = numbers;
                Ok((Formatting { align, sign, pretty, zero, width, precision, _type }, rest))
            },
            Err(e) => Err(e),
        }
    }

    /// Parses a source text that holds a formatting specifier and nothing
    /// else.
    pub fn parse_str(source: &str) -> (r: Result<Formatting, ParseError>)
        ensures
            same_outcome(
                r,
                parse_source(
                    source_tokens(source@),
                    |tokens: Seq<SpecToken>, pos: int| parse_formatting(tokens, pos),
                ),
            ),
    {
        match tokenize(source) {
            Ok(tokens) => {
                let input = Cursor::new(&tokens);
                complete(input, Formatting::parse(input), Ghost(parse_formatting(input@, 0)))
            },
            Err(e) => Err(e),
        }
    }
}

/// A `0` in front of digits that do not start with another `0` is the zero
/// flag, and the digits are the width.
pub proof fn one_leading_zero_is_the_flag(digits: Seq<char>)
    requires
        digits.len() > 0,
        digits[0] != '0',
    ensures
        split_width(seq!['0'] + digits) == Some((Some(Zero), digits)),
{
    let text = seq!['0'] + digits;
    assert(text.subrange(1, text.len() as int) =~= digits);
}

/// An integer literal `0` followed by digits that do not start with another
/// `0` parses as the zero flag and those digits as the width, whatever
/// precision follows; it fails only where the precision behind it fails.
pub proof fn leading_zero_literal(tokens: Seq<SpecToken>, pos: int, digits: Seq<char>)
    requires
        is_integer(tokens, pos),
        literal_at(tokens, pos).text == seq!['0'] + digits,
        digits.len() > 0,
        digits[0] != '0',
    ensures
        match parse_optional_precision(tokens, pos + 1) {
            Ok((precision, n)) => parse_numbers(tokens, pos) == Ok::<(SpecNumbers, nat), SpecError>(
                (SpecNumbers { zero: Some(Zero), width: Some(digits), precision }, n + 1),
            ),
            Err(e) => parse_numbers(tokens, pos) == Err::<(SpecNumbers, nat), SpecError>(e),
        },
{
    one_leading_zero_is_the_flag(digits);
}

/// A numeric literal whose digits before the decimal point start with two
/// zeros never parses.
pub proof fn two_leading_zeros_fail(tokens: Seq<SpecToken>, pos: int)
    requires
        numbers_peek(tokens, pos),
        literal_at(tokens, pos).text.len() >= 2,
        literal_at(tokens, pos).text[0] == '0',
        literal_at(tokens, pos).text[1] == '0',
    ensures
        parse_numbers(tokens, pos) is Err,
        parse_formatting(tokens, pos) is Err,
{
    let text = literal_at(tokens, pos).text;
    if is_float(tokens, pos) {
        if let Some(dot) = first_index(text, '.') {
            crate::text::first_index_is_least(text, '.');
            let whole = text.subrange(0, dot);
            assert(dot >= 2);
            assert(whole[0] == '0' && whole[1] == '0');
        }
    }
    assert(parse_numbers(tokens, pos) is Err);
    if align_peek(tokens, pos) {
        assert(parse_align(tokens, pos) is Err);
    } else {
        assert(!sign_peek(tokens, pos));
        assert(!pretty_peek(tokens, pos));
    }
}

/// A float literal `W.F` without a suffix, where `F` is not empty, parses
/// as the width that `W` gives and the precision `F`.
pub proof fn float_literal_is_width_and_precision(
    tokens: Seq<SpecToken>,
    pos: int,
    whole: Seq<char>,
    fraction: Seq<char>,
)
    requires
        is_float(tokens, pos),
        literal_at(tokens, pos).kind->Float_0.len() == 0,
        literal_at(tokens, pos).text == whole + seq!['.'] + fraction,
        forall|i: int| 0 <= i < whole.len() ==> whole[i] != '.',
        fraction.len() > 0,
    ensures
        match split_width(whole) {
            Some((zero, width)) => parse_numbers(tokens, pos) == Ok::<
                (SpecNumbers, nat),
                SpecError,
            >(
                (
                    SpecNumbers {
                        zero,
                        width: Some(width),
                        precision: Some(SpecPrecision::Count(SpecCount::Integer(fraction))),
                    },
                    1,
                ),
            ),
            None => parse_numbers(tokens, pos) is Err,
        },
        !(whole.len() > 1 && whole[0] == '0') ==> split_width(whole) == Some(
            (None::<Zero>, whole),
        ),
{
    let text = literal_at(tokens, pos).text;
    let dot = whole.len() as int;
    assert(text[dot] == '.');
    assert forall|k: int| 0 <= k < dot implies text[k] != '.' by {
        assert(text[k] == whole[k]);
    }
    first_index_unique(text, '.', dot);
    assert(text.subrange(0, dot) =~= whole);
    assert(text.subrange(dot + 1, text.len() as int) =~= fraction);
}

/// A float literal `W.` without a suffix takes its precision from the
/// tokens behind it.
pub proof fn float_literal_with_empty_fraction(
    tokens: Seq<SpecToken>,
    pos: int,
    whole: Seq<char>,
)
    requires
        is_float(tokens, pos),
        literal_at(tokens, pos).kind->Float_0.len() == 0,
        literal_at(tokens, pos).text == whole + seq!['.'],
        forall|i: int| 0 <= i < whole.len() ==> whole[i] != '.',
    ensures
        match parse_precision(tokens, pos + 1) {
            Ok((precision, n)) => match split_width(whole) {
                Some((zero, width)) => parse_numbers(tokens, pos) == Ok::<
                    (SpecNumbers, nat),
                    SpecError,
                >((SpecNumbers { zero, width: Some(width), precision: Some(precision) }, n + 1)),
                None => parse_numbers(tokens, pos) is Err,
            },
            Err(e) => parse_numbers(tokens, pos) == Err::<(SpecNumbers, nat), SpecError>(e),
        },
{
    let text = literal_at(tokens, pos).text;
    let dot = whole.len() as int;
    assert(text[dot] == '.');
    assert forall|k: int| 0 <= k < dot implies text[k] != '.' by {
        assert(text[k] == whole[k]);
    }
    first_index_unique(text, '.', dot);
    assert(text.subrange(0, dot) =~= whole);
    assert(text.subrange(dot + 1, text.len() as int) =~= Seq::<char>::empty());
}

} // verus!
