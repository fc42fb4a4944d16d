//! Tokens: the alphabet the parser works on.

use vstd::prelude::*;
use vstd::string::*;

verus! {

/// Whether a punctuation character is glued to the one that follows it.
#[derive(Clone, Copy, Debug, PartialEq, Eq, Structural)]
pub enum Spacing {
    Alone,
    Joint,
}

/// The bracket pair around a group of tokens.
#[derive(Clone, Copy, Debug, PartialEq, Eq, Structural)]
pub enum Delimiter {
    Parenthesis,
    Brace,
    Bracket,
    /// No visible bracket: a group that only holds its tokens together.
    Invisible,
}

/// What kind of literal a token is, with the values the grammar reads.
#[derive(Clone, Debug, PartialEq, Eq)]
pub enum LiteralKind {
    /// An integer literal.
    Integer,
    /// A floating-point literal, with its type suffix (empty if none).
    Float(String),
    /// A character literal, with the character it denotes.
    Character(char),
    /// A string literal, with the text it denotes.
    Str(String),
    /// Any other literal.
    Other,
}

/// The view of a literal's kind.
pub enum SpecLiteralKind {
    Integer,
    Float(Seq<char>),
    Character(char),
    Str(Seq<char>),
    Other,
}

/// A literal token: its source text and its kind.
#[derive(Clone, Debug, PartialEq, Eq)]
pub struct Literal {
    pub text: String,
    pub kind: LiteralKind,
}

/// The view of a literal.
pub struct SpecLiteral {
    pub text: Seq<char>,
    pub kind: SpecLiteralKind,
}

/// One token tree.
#[derive(Debug, PartialEq, Eq)]
pub enum Token {
    /// An identifier that is not a reserved word.
    Ident(String),
    /// A reserved word, such as `if`, `else` or `match`.
    Keyword(String),
    /// A single punctuation character.
    Punct(char, Spacing),
    /// A literal.
    Literal(Literal),
    /// A delimited group of tokens.
    Group(Delimiter, Vec<Token>),
}

/// The view of a token tree.
pub enum SpecToken {
    Ident(Seq<char>),
    Keyword(Seq<char>),
    Punct(char, Spacing),
    Literal(SpecLiteral),
    Group(Delimiter, Seq<SpecToken>),
}

impl View for LiteralKind {
    type V = SpecLiteralKind;

    open spec fn view(&self) -> SpecLiteralKind {
        match self {
            LiteralKind::Integer => SpecLiteralKind::Integer,
            LiteralKind::Float(suffix) => SpecLiteralKind::Float(suffix@),
            LiteralKind::Character(c) => SpecLiteralKind::Character(*c),
            LiteralKind::Str(value) => SpecLiteralKind::Str(value@),
            LiteralKind::Other => SpecLiteralKind::Other,
        }
    }
}

impl View for Literal {
    type V = SpecLiteral;

    open spec fn view(&self) -> SpecLiteral {
        SpecLiteral { text: self.text@, kind: self.kind@ }
    }
}

impl View for Token {
    type V = SpecToken;

    open spec fn view(&self) -> SpecToken
        decreases self,
    {
        match self {
            Token::Ident(text) => SpecToken::Ident(text@),
            Token::Keyword(text) => SpecToken::Keyword(text@),
            Token::Punct(c, spacing) => SpecToken::Punct(*c, *spacing),
            Token::Literal(lit) => SpecToken::Literal(lit@),
            Token::Group(delimiter, inner) => SpecToken::Group(*delimiter, view_tokens(inner@)),
        }
    }
}

/// The view of a sequence of tokens: the view of each, in order.
pub open spec fn view_tokens(tokens: Seq<Token>) -> Seq<SpecToken>
    decreases tokens,
{
    Seq::new(
        tokens.len(),
        |i: int|
            if 0 <= i < tokens.len() {
                tokens[i].view()
            } else {
                SpecToken::Ident(Seq::empty())
            },
    )
}

/// Copies a literal.
pub fn clone_literal(lit: &Literal) -> (copy: Literal)
    ensures
        copy@ == lit@,
{
    let kind = match &lit.kind {
        LiteralKind::Integer => LiteralKind::Integer,
        LiteralKind::Float(suffix) => LiteralKind::Float(suffix.clone()),
        LiteralKind::Character(c) => LiteralKind::Character(*c),
        LiteralKind::Str(value) => LiteralKind::Str(value.clone()),
        LiteralKind::Other => LiteralKind::Other,
    };
    Literal { text: lit.text.clone(), kind }
}

/// Copies one token tree.
pub fn clone_token(token: &Token) -> (copy: Token)
    ensures
        copy@ == token@,
    decreases token,
{
    match token {
        Token::Ident(text) => Token::Ident(text.clone()),
        Token::Keyword(text) => Token::Keyword(text.clone()),
        Token::Punct(c, spacing) => Token::Punct(*c, *spacing),
        Token::Literal(lit) => Token::Literal(clone_literal(lit)),
        Token::Group(delimiter, inner) => {
            let copy = clone_tokens(inner, 0, inner.len());
            assert(view_tokens(inner@).subrange(0, inner@.len() as int) =~= view_tokens(inner@));
            Token::Group(*delimiter, copy)
        },
    }
}

/// Copies the tokens at positions `from..to`.
pub fn clone_tokens(tokens: &Vec<Token>, from: usize, to: usize) -> (copy: Vec<Token>)
    requires
        from <= to <= tokens@.len(),
    ensures
        view_tokens(copy@) == view_tokens(tokens@).subrange(from as int, to as int),
    decreases tokens,
{
    let mut copy: Vec<Token> = Vec::new();
    let mut i: usize = from;
    while i < to
        invariant
            from <= i <= to <= tokens@.len(),
            copy@.len() == i - from,
            forall|k: int| 0 <= k < copy@.len() ==> (#[trigger] copy@[k])@ == tokens@[from + k]@,
        decreases to - i,
    {
        copy.push(clone_token(&tokens[i]));
        i += 1;
    }
    assert(view_tokens(copy@) =~= view_tokens(tokens@).subrange(from as int, to as int));
    copy
}

/// The opening bracket of a delimiter, as text.
pub open spec fn opening_text(delimiter: Delimiter) -> Seq<char> {
    match delimiter {
        Delimiter::Parenthesis => seq!['(', ' '],
        Delimiter::Brace => seq!['{', ' '],
        Delimiter::Bracket => seq!['[', ' '],
        Delimiter::Invisible => seq![],
    }
}

/// The closing bracket of a delimiter, as text.
pub open spec fn closing_text(delimiter: Delimiter) -> Seq<char> {
    match delimiter {
        Delimiter::Parenthesis => seq![')', ' '],
        Delimiter::Brace => seq!['}', ' '],
        Delimiter::Bracket => seq![']', ' '],
        Delimiter::Invisible => seq![],
    }
}

/// The source text of one token. Every token is followed by a space, except
/// a punctuation character that is joint with the next.
pub open spec fn render_token(token: SpecToken) -> Seq<char>
    decreases token,
{
    match token {
        SpecToken::Ident(text) => text.push(' '),
        SpecToken::Keyword(text) => text.push(' '),
        SpecToken::Punct(c, Spacing::Alone) => seq![c, ' '],
        SpecToken::Punct(c, Spacing::Joint) => seq![c],
        SpecToken::Literal(lit) => lit.text.push(' '),
        SpecToken::Group(delimiter, inner) => opening_text(delimiter) + render(inner)
            + closing_text(delimiter),
    }
}

/// The source text of a sequence of tokens: the text of each, in order.
pub open spec fn render(tokens: Seq<SpecToken>) -> Seq<char>
    decreases tokens,
{
    if tokens.len() == 0 {
        Seq::empty()
    } else {
        render(tokens.drop_last()) + render_token(tokens.last())
    }
}

/// `String::push` appends one character.
pub assume_specification[ String::push ](s: &mut String, c: char)
    ensures
        final(s)@ == old(s)@.push(c),
;

/// Appends the source text of one token to `out`.
pub fn write_token(token: &Token, out: &mut String)
    ensures
        final(out)@ == old(out)@ + render_token(token@),
    decreases token,
{
    match token {
        Token::Ident(text) => {
            out.append(text.as_str());
            out.push(' ');
            assert(final(out)@ =~= old(out)@ + text@.push(' '));
        },
        Token::Keyword(text) => {
            out.append(text.as_str());
            out.push(' ');
            assert(final(out)@ =~= old(out)@ + text@.push(' '));
        },
        Token::Punct(c, spacing) => {
            out.push(*c);
            match spacing {
                Spacing::Alone => {
                    out.push(' ');
                    assert(final(out)@ =~= old(out)@ + seq![*c, ' ']);
                },
                Spacing::Joint => {
                    assert(final(out)@ =~= old(out)@ + seq![*c]);
                },
            }
        },
        Token::Literal(lit) => {
            out.append(lit.text.as_str());
            out.push(' ');
            assert(final(out)@ =~= old(out)@ + lit.text@.push(' '));
        },
        Token::Group(delimiter, inner) => {
            match delimiter {
                Delimiter::Parenthesis => {
                    out.push('(');
                    out.push(' ');
                },
                Delimiter::Brace => {
                    out.push('{');
                    out.push(' ');
                },
                Delimiter::Bracket => {
                    out.push('[');
                    out.push(' ');
                },
                Delimiter::Invisible => {},
            }
            assert(out@ =~= old(out)@ + opening_text(*delimiter));
            write_tokens(inner, 0, out);
            assert(view_tokens(inner@).subrange(0, inner@.len() as int) =~= view_tokens(inner@));
            let ghost middle = out@;
            match delimiter {
                Delimiter::Parenthesis => {
                    out.push(')');
                    out.push(' ');
                },
                Delimiter::Brace => {
                    out.push('}');
                    out.push(' ');
                },
                Delimiter::Bracket => {
                    out.push(']');
                    out.push(' ');
                },
                Delimiter::Invisible => {},
            }
            assert(final(out)@ =~= middle + closing_text(*delimiter));
            assert(final(out)@ =~= old(out)@ + (opening_text(*delimiter) + render(
                view_tokens(inner@),
            ) + closing_text(*delimiter)));
        },
    }
}

/// Appends the source text of the tokens from position `from` on to `out`.
pub fn write_tokens(tokens: &Vec<Token>, from: usize, out: &mut String)
    requires
        from <= tokens@.len(),
    ensures
        final(out)@ == old(out)@ + render(
            view_tokens(tokens@).subrange(from as int, tokens@.len() as int),
        ),
    decreases tokens,
{
    let ghost all = view_tokens(tokens@);
    let mut i: usize = from;
    assert(render(all.subrange(from as int, from as int)) =~= Seq::<char>::empty());
    assert(out@ =~= old(out)@ + Seq::<char>::empty());
    while i < tokens.len()
        invariant
            from <= i <= tokens@.len(),
            all == view_tokens(tokens@),
            out@ == old(out)@ + render(all.subrange(from as int, i as int)),
        decreases tokens@.len() - i,
    {
        let ghost before = out@;
        write_token(&tokens[i], out);
        proof {
            let next = all.subrange(from as int, i + 1);
            assert(next.drop_last() =~= all.subrange(from as int, i as int));
            assert(next.last() == tokens@[i as int]@);
            assert(out@ =~= old(out)@ + render(next));
        }
        i += 1;
    }
}

/// The source text of the tokens from position `from` on.
pub fn render_tokens(tokens: &Vec<Token>, from: usize) -> (text: String)
    requires
        from <= tokens@.len(),
    ensures
        text@ == render(view_tokens(tokens@).subrange(from as int, tokens@.len() as int)),
{
    let mut text = String::new();
    write_tokens(tokens, from, &mut text);
    assert(Seq::<char>::empty() + render(
        view_tokens(tokens@).subrange(from as int, tokens@.len() as int),
    ) =~= render(view_tokens(tokens@).subrange(from as int, tokens@.len() as int)));
    text
}

} // verus!
