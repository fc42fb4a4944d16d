//! The host language's lexer and its expression, pattern and path parsers.
//!
//! Everything here is a thin call into `proc_macro2` or `syn`. Nothing in
//! this module is proved: each function states what the call returns, and
//! the parser is proved against those statements.

use vstd::prelude::*;
use crate::lexer::{view_raw_tokens, RawToken, SpecRawToken};
use crate::token::{Delimiter, Spacing};

verus! {

/// `proc_macro2::TokenStream`: nothing is known of what is inside.
#[verifier::external_type_specification]
#[verifier::external_body]
pub struct ExTokenStream(proc_macro2::TokenStream);

/// `proc_macro2::TokenTree`: nothing is known of what is inside.
#[verifier::external_type_specification]
#[verifier::external_body]
pub struct ExTokenTree(proc_macro2::TokenTree);

/// The token trees that `proc_macro2` lexes from a source text, or `None`
/// where it rejects the text.
pub uninterp spec fn lexed(source: Seq<char>) -> Option<Seq<SpecRawToken>>;

/// Whether `syn` parses a text as one identifier, that is, as a word that it
/// does not refuse as a keyword.
pub uninterp spec fn identifier(text: Seq<char>) -> bool;

/// Whether `syn` parses a text as one integer literal.
pub uninterp spec fn integer_literal(text: Seq<char>) -> bool;

/// The suffix of the float literal that `syn` parses a text as (empty where
/// it has none), or `None` where the text is no float literal.
pub uninterp spec fn float_literal_suffix(text: Seq<char>) -> Option<Seq<char>>;

/// The character that the character literal denotes that `syn` parses a
/// text as, or `None` where the text is no character literal.
pub uninterp spec fn char_literal_value(text: Seq<char>) -> Option<char>;

/// The text that the string literal denotes that `syn` parses a text as, or
/// `None` where the text is no string literal.
pub uninterp spec fn string_literal_value(text: Seq<char>) -> Option<Seq<char>>;

/// How many of the tokens lexed from a source text are left after `syn` has
/// parsed one expression from its front, or `None` where the text does not
/// lex or does not start with an expression.
pub uninterp spec fn expression_rest(source: Seq<char>) -> Option<nat>;

/// How many of the tokens lexed from a source text are left after `syn` has
/// parsed one pattern, with alternatives and an optional leading `|`, from
/// its front, or `None` where the text does not lex or does not start with a
/// pattern.
pub uninterp spec fn pattern_rest(source: Seq<char>) -> Option<nat>;

/// The identifiers of the segments of the path that `syn` parses from the
/// front of a source text, and how many of the tokens lexed from it are left
/// after the path, or `None` where the text does not lex or does not start
/// with a path.
pub uninterp spec fn path_shape(source: Seq<char>) -> Option<(Seq<Seq<char>>, nat)>;

/// The view of a list of names.
pub open spec fn view_names(names: Seq<String>) -> Seq<Seq<char>> {
    Seq::new(names.len(), |i: int| names[i]@)
}

/// The delimiter of a `proc_macro2::Group`, one for one.
#[verifier::external_body]
fn convert_delimiter(tree: &proc_macro2::TokenTree) -> Delimiter {
    match tree {
        proc_macro2::TokenTree::Group(g) => match g.delimiter() {
            proc_macro2::Delimiter::Parenthesis => Delimiter::Parenthesis,
            proc_macro2::Delimiter::Brace => Delimiter::Brace,
            proc_macro2::Delimiter::Bracket => Delimiter::Bracket,
            proc_macro2::Delimiter::None => Delimiter::Invisible,
        },
        _ => Delimiter::Invisible,
    }
}

/// The spacing of a `proc_macro2::Punct`, one for one.
#[verifier::external_body]
fn convert_spacing(tree: &proc_macro2::TokenTree) -> Spacing {
    match tree {
        proc_macro2::TokenTree::Punct(p) => match p.spacing() {
            proc_macro2::Spacing::Alone => Spacing::Alone,
            proc_macro2::Spacing::Joint => Spacing::Joint,
        },
        _ => Spacing::Alone,
    }
}

/// `proc_macro2::TokenTree` as a raw token, one for one: the text of a word
/// and of a literal is what `to_string` gives.
#[verifier::external_body]
fn convert_tree(tree: proc_macro2::TokenTree) -> RawToken {
    match &tree {
        proc_macro2::TokenTree::Group(g) => RawToken::Group(
            convert_delimiter(&tree),
            convert_stream(g.stream()),
        ),
        proc_macro2::TokenTree::Ident(i) => RawToken::Word(i.to_string()),
        proc_macro2::TokenTree::Punct(p) => RawToken::Punct(p.as_char(), convert_spacing(&tree)),
        proc_macro2::TokenTree::Literal(l) => RawToken::Literal(l.to_string()),
    }
}

/// `proc_macro2::TokenStream` as a list of raw tokens, in order.
#[verifier::external_body]
fn convert_stream(stream: proc_macro2::TokenStream) -> Vec<RawToken> {
    stream.into_iter().map(convert_tree).collect()
}

/// `proc_macro2::TokenStream::from_str`: the token trees of `source`, or
/// `None` where the lexer rejects it.
#[verifier::external_body]
pub(crate) fn lex(source: &str) -> (tokens: Option<Vec<RawToken>>)
    ensures
        match tokens {
            Some(ts) => lexed(source@) == Some(view_raw_tokens(ts@)),
            None => lexed(source@) is None,
        },
{
    match source.parse::<proc_macro2::TokenStream>() {
        Ok(stream) => Some(convert_stream(stream)),
        Err(_) => None,
    }
}

/// `syn::parse_str::<syn::Ident>`: whether `text` is one identifier that is
/// no keyword.
#[verifier::external_body]
pub(crate) fn is_identifier(text: &str) -> (yes: bool)
    ensures
        yes == identifier(text@),
{
    syn::parse_str::<syn::Ident>(text).is_ok()
}

/// `syn::parse_str::<syn::LitInt>`: whether `text` is one integer literal.
#[verifier::external_body]
pub(crate) fn is_integer(text: &str) -> (yes: bool)
    ensures
        yes == integer_literal(text@),
{
    syn::parse_str::<syn::LitInt>(text).is_ok()
}

/// `syn::parse_str::<syn::LitFloat>` and `syn::LitFloat::suffix`: the
/// suffix of the float literal that `text` is.
#[verifier::external_body]
pub(crate) fn float_suffix(text: &str) -> (suffix: Option<String>)
    ensures
        match suffix {
            Some(s) => float_literal_suffix(text@) == Some(s@),
            None => float_literal_suffix(text@) is None,
        },
{
    match syn::parse_str::<syn::LitFloat>(text) {
        Ok(literal) => Some(literal.suffix().to_string()),
        Err(_) => None,
    }
}

/// `syn::parse_str::<syn::LitChar>` and `syn::LitChar::value`: the
/// character that the character literal `text` denotes.
#[verifier::external_body]
pub(crate) fn char_value(text: &str) -> (value: Option<char>)
    ensures
        value == char_literal_value(text@),
{
    match syn::parse_str::<syn::LitChar>(text) {
        Ok(literal) => Some(literal.value()),
        Err(_) => None,
    }
}

/// `syn::parse_str::<syn::LitStr>` and `syn::LitStr::value`: the text that
/// the string literal `text` denotes.
#[verifier::external_body]
pub(crate) fn string_value(text: &str) -> (value: Option<String>)
    ensures
        match value {
            Some(v) => string_literal_value(text@) == Some(v@),
            None => string_literal_value(text@) is None,
        },
{
    match syn::parse_str::<syn::LitStr>(text) {
        Ok(literal) => Some(literal.value()),
        Err(_) => None,
    }
}

/// `syn::Expr::parse` on the tokens of `source`: the number of tokens left
/// behind the expression.
#[verifier::external_body]
pub(crate) fn expression_end(source: &str) -> (rest: Option<usize>)
    ensures
        match rest {
            Some(n) => expression_rest(source@) == Some(n as nat),
            None => expression_rest(source@) is None,
        },
{
    let parser = |input: syn::parse::ParseStream| {
        input.parse::<syn::Expr>()?;
        input.parse::<proc_macro2::TokenStream>()
    };
    match syn::parse::Parser::parse_str(parser, source) {
        Ok(rest) => Some(rest.into_iter().count()),
        Err(_) => None,
    }
}

/// `syn::Pat::parse_multi_with_leading_vert` on the tokens of `source`: the
/// number of tokens left behind the pattern.
#[verifier::external_body]
pub(crate) fn pattern_end(source: &str) -> (rest: Option<usize>)
    ensures
        match rest {
            Some(n) => pattern_rest(source@) == Some(n as nat),
            None => pattern_rest(source@) is None,
        },
{
    let parser = |input: syn::parse::ParseStream| {
        syn::Pat::parse_multi_with_leading_vert(input)?;
        input.parse::<proc_macro2::TokenStream>()
    };
    match syn::parse::Parser::parse_str(parser, source) {
        Ok(rest) => Some(rest.into_iter().count()),
        Err(_) => None,
    }
}

/// `syn::Path::parse` on the tokens of `source`: the identifiers of the
/// path's segments, and the number of tokens left behind the path.
#[verifier::external_body]
pub(crate) fn path_end(source: &str) -> (shape: Option<(Vec<String>, usize)>)
    ensures
        match shape {
            Some((names, n)) => path_shape(source@) == Some((view_names(names@), n as nat)),
            None => path_shape(source@) is None,
        },
{
    let parser = |input: syn::parse::ParseStream| {
        Ok((input.parse::<syn::Path>()?, input.parse::<proc_macro2::TokenStream>()?))
    };
    match syn::parse::Parser::parse_str(parser, source) {
        Ok((path, rest)) => Some((
            path.segments.iter().map(|s| s.ident.to_string()).collect(),
            rest.into_iter().count(),
        )),
        Err(_) => None,
    }
}

} // verus!
