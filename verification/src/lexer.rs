//! From source text to tokens: the host lexer splits the text, and every
//! word and literal is then told apart as the host parser tells it.

use vstd::prelude::*;
use crate::error::{ErrorKind, ParseError, SpecError};
use crate::host::{
    char_literal_value, char_value, float_literal_suffix, float_suffix, identifier, integer_literal,
    is_identifier, is_integer, lex, lexed, string_literal_value, string_value,
};
use crate::token::{
    view_tokens, Delimiter, Literal, LiteralKind, Spacing, SpecLiteral, SpecLiteralKind, SpecToken,
    Token,
};

verus! {

/// One token tree as the lexer hands it out: words are not yet told from
/// reserved words, and literals are text.
#[derive(Debug, PartialEq, Eq)]
pub enum RawToken {
    /// A word, reserved or not.
    Word(String),
    /// A single punctuation character.
    Punct(char, Spacing),
    /// A literal, as it was written.
    Literal(String),
    /// A delimited group of tokens.
    Group(Delimiter, Vec<RawToken>),
}

/// The view of a raw token tree.
pub enum SpecRawToken {
    Word(Seq<char>),
    Punct(char, Spacing),
    Literal(Seq<char>),
    Group(Delimiter, Seq<SpecRawToken>),
}

impl View for RawToken {
    type V = SpecRawToken;

    open spec fn view(&self) -> SpecRawToken
        decreases self,
    {
        match self {
            RawToken::Word(text) => SpecRawToken::Word(text@),
            RawToken::Punct(c, spacing) => SpecRawToken::Punct(*c, *spacing),
            RawToken::Literal(text) => SpecRawToken::Literal(text@),
            RawToken::Group(delimiter, inner) => SpecRawToken::Group(
                *delimiter,
                view_raw_tokens(inner@),
            ),
        }
    }
}

/// The view of a sequence of raw tokens: the view of each, in order.
pub open spec fn view_raw_tokens(tokens: Seq<RawToken>) -> Seq<SpecRawToken>
    decreases tokens,
{
    Seq::new(
        tokens.len(),
        |i: int|
            if 0 <= i < tokens.len() {
                tokens[i].view()
            } else {
                SpecRawToken::Word(Seq::empty())
            },
    )
}

/// The kind of the literal with the text `text`: the first of integer,
/// float, character and string that the host parser takes it for, else
/// another kind.
pub open spec fn literal_kind(text: Seq<char>) -> SpecLiteralKind {
    if integer_literal(text) {
        SpecLiteralKind::Integer
    } else if let Some(suffix) = float_literal_suffix(text) {
        SpecLiteralKind::Float(suffix)
    } else if let Some(c) = char_literal_value(text) {
        SpecLiteralKind::Character(c)
    } else if let Some(value) = string_literal_value(text) {
        SpecLiteralKind::Str(value)
    } else {
        SpecLiteralKind::Other
    }
}

/// A raw token as a token: a word is an identifier where the host parser
/// takes it for one, else a reserved word; a literal gets its kind.
pub open spec fn classified(raw: SpecRawToken) -> SpecToken
    decreases raw,
{
    match raw {
        SpecRawToken::Word(text) => if identifier(text) {
            SpecToken::Ident(text)
        } else {
            SpecToken::Keyword(text)
        },
        SpecRawToken::Punct(c, spacing) => SpecToken::Punct(c, spacing),
        SpecRawToken::Literal(text) => SpecToken::Literal(
            SpecLiteral { text, kind: literal_kind(text) },
        ),
        SpecRawToken::Group(delimiter, inner) => SpecToken::Group(delimiter, all_classified(inner)),
    }
}

/// Raw tokens as tokens, each in its place.
pub open spec fn all_classified(raws: Seq<SpecRawToken>) -> Seq<SpecToken>
    decreases raws,
{
    Seq::new(
        raws.len(),
        |i: int|
            if 0 <= i < raws.len() {
                classified(raws[i])
            } else {
                SpecToken::Ident(Seq::empty())
            },
    )
}

/// The tokens of a source text, or `None` where the lexer rejects it.
pub open spec fn source_tokens(source: Seq<char>) -> Option<Seq<SpecToken>> {
    match lexed(source) {
        Some(raws) => Some(all_classified(raws)),
        None => None,
    }
}

/// Tells the kind of a literal from its text.
pub fn classify_literal(text: &str) -> (kind: LiteralKind)
    ensures
        kind@ == literal_kind(text@),
{
    if is_integer(text) {
        return LiteralKind::Integer;
    }
    if let Some(suffix) = float_suffix(text) {
        return LiteralKind::Float(suffix);
    }
    if let Some(c) = char_value(text) {
        return LiteralKind::Character(c);
    }
    if let Some(value) = string_value(text) {
        return LiteralKind::Str(value);
    }
    LiteralKind::Other
}

/// Turns a raw token into a token.
pub fn classify(raw: &RawToken) -> (token: Token)
    ensures
        token@ == classified(raw@),
    decreases raw,
{
    match raw {
        RawToken::Word(text) => {
            if is_identifier(text.as_str()) {
                Token::Ident(text.clone())
            } else {
                Token::Keyword(text.clone())
            }
        },
        RawToken::Punct(c, spacing) => Token::Punct(*c, *spacing),
        RawToken::Literal(text) => Token::Literal(
            Literal { text: text.clone(), kind: classify_literal(text.as_str()) },
        ),
        RawToken::Group(delimiter, inner) => Token::Group(*delimiter, classify_all(inner)),
    }
}

/// Turns raw tokens into tokens, each in its place.
pub fn classify_all(raws: &Vec<RawToken>) -> (tokens: Vec<Token>)
    ensures
        view_tokens(tokens@) == all_classified(view_raw_tokens(raws@)),
    decreases raws,
{
    let mut tokens: Vec<Token> = Vec::new();
    let mut i: usize = 0;
    while i < raws.len()
        invariant
            i <= raws@.len(),
            tokens@.len() == i,
            forall|k: int| 0 <= k < i ==> (#[trigger] tokens@[k])@ == classified(raws@[k]@),
        decreases raws@.len() - i,
    {
        tokens.push(classify(&raws[i]));
        i += 1;
    }
    assert(view_tokens(tokens@) =~= all_classified(view_raw_tokens(raws@)));
    tokens
}

/// Splits a source text into tokens, or fails where the lexer rejects it.
pub fn tokenize(source: &str) -> (r: Result<Vec<Token>, ParseError>)
    ensures
        match r {
            Ok(tokens) => source_tokens(source@) == Some(view_tokens(tokens@)),
            Err(e) => source_tokens(source@) is None && e@ == (SpecError {
                kind: ErrorKind::InvalidSource,
                position: 0,
            }),
        },
{
    match lex(source) {
        Some(raws) => Ok(classify_all(&raws)),
        None => Err(ParseError { kind: ErrorKind::InvalidSource, position: 0 }),
    }
}

} // verus!
