//! The grammar: formatting specifiers, markup, interpolations and blocks.

pub mod embedded;
pub mod formatting;
pub mod jsx;
pub mod mustache;
pub mod round_trip;
pub mod svelte;

use vstd::prelude::*;
use vstd::string::*;
use crate::text::{replace_all, replaced};
use crate::token::{view_tokens, Delimiter, SpecToken, Token};

verus! {

/// How one punctuation character is printed.
pub open spec fn pretty_punct(c: char) -> Seq<char> {
    if c == '.' {
        seq!['.']
    } else if c == '|' {
        seq!['|']
    } else if c == ':' {
        seq![':', ' ']
    } else if c == ';' {
        seq![';', '\n']
    } else if c == ',' {
        seq![',', ' ']
    } else {
        seq![' ', c, ' ']
    }
}

/// The bracket that opens a group, as it is printed.
pub open spec fn pretty_opening(delimiter: Delimiter) -> Seq<char> {
    match delimiter {
        Delimiter::Parenthesis => seq!['('],
        Delimiter::Brace => seq!['{'],
        Delimiter::Bracket => seq!['['],
        Delimiter::Invisible => seq![],
    }
}

/// The bracket that closes a group, as it is printed.
pub open spec fn pretty_closing(delimiter: Delimiter) -> Seq<char> {
    match delimiter {
        Delimiter::Parenthesis => seq![')'],
        Delimiter::Brace => seq!['}'],
        Delimiter::Bracket => seq![']'],
        Delimiter::Invisible => seq![],
    }
}

/// How one token is printed: a space before a word, a literal as it was
/// written, a group as its brackets around its tokens printed in full.
pub open spec fn pretty_token(token: SpecToken) -> Seq<char>
    decreases token, 0nat,
{
    match token {
        SpecToken::Ident(text) => seq![' '] + text,
        SpecToken::Keyword(text) => seq![' '] + text,
        SpecToken::Punct(c, _) => pretty_punct(c),
        SpecToken::Literal(lit) => lit.text,
        SpecToken::Group(delimiter, inner) => pretty_opening(delimiter) + pretty(inner)
            + pretty_closing(delimiter),
    }
}

/// The tokens printed one after the other.
pub open spec fn pretty_tokens(tokens: Seq<SpecToken>) -> Seq<char>
    decreases tokens, 0nat,
{
    if tokens.len() == 0 {
        Seq::empty()
    } else {
        pretty_tokens(tokens.drop_last()) + pretty_token(tokens.last())
    }
}

/// Printed text with the spaces taken out that split what belongs together:
/// `=>`, `.`, `(`, `==`, `::`, `|` and `||`.
pub open spec fn tidied(text: Seq<char>) -> Seq<char> {
    let text = replaced(text, "= >"@, "=>"@);
    let text = replaced(text, ". "@, "."@);
    let text = replaced(text, "( "@, "("@);
    let text = replaced(text, "= ="@, "="@);
    let text = replaced(text, ": : "@, "::"@);
    let text = replaced(text, ":: "@, "::"@);
    let text = replaced(text, " |"@, "|"@);
    replaced(text, "| |"@, "||"@)
}

/// Tokens of the host language printed in a readable way.
pub open spec fn pretty(tokens: Seq<SpecToken>) -> Seq<char>
    decreases tokens, 1nat,
{
    tidied(pretty_tokens(tokens))
}

/// Appends one token, printed, to `out`.
fn write_pretty(token: &Token, out: &mut String)
    ensures
        final(out)@ == old(out)@ + pretty_token(token@),
    decreases token,
{
    match token {
        Token::Ident(text) => {
            out.push(' ');
            out.append(text.as_str());
            assert(final(out)@ =~= old(out)@ + (seq![' '] + text@));
        },
        Token::Keyword(text) => {
            out.push(' ');
            out.append(text.as_str());
            assert(final(out)@ =~= old(out)@ + (seq![' '] + text@));
        },
        Token::Punct(c, _) => {
            let c = *c;
            if c == '.' || c == '|' {
                out.push(c);
            } else if c == ':' {
                out.push(':');
                out.push(' ');
            } else if c == ';' {
                out.push(';');
                out.push('\n');
            } else if c == ',' {
                out.push(',');
                out.push(' ');
            } else {
                out.push(' ');
                out.push(c);
                out.push(' ');
            }
            assert(final(out)@ =~= old(out)@ + pretty_punct(c));
        },
        Token::Literal(lit) => {
            out.append(lit.text.as_str());
        },
        Token::Group(delimiter, inner) => {
            match delimiter {
                Delimiter::Parenthesis => {
                    out.push('(');
                },
                Delimiter::Brace => {
                    out.push('{');
                },
                Delimiter::Bracket => {
                    out.push('[');
                },
                Delimiter::Invisible => {},
            }
            assert(out@ =~= old(out)@ + pretty_opening(*delimiter));
            let inside = pretty_rust(inner);
            out.append(inside.as_str());
            let ghost middle = out@;
            match delimiter {
                Delimiter::Parenthesis => {
                    out.push(')');
                },
                Delimiter::Brace => {
                    out.push('}');
                },
                Delimiter::Bracket => {
                    out.push(']');
                },
                Delimiter::Invisible => {},
            }
            assert(final(out)@ =~= middle + pretty_closing(*delimiter));
            assert(final(out)@ =~= old(out)@ + (pretty_opening(*delimiter) + pretty(
                view_tokens(inner@),
            ) + pretty_closing(*delimiter)));
        },
    }
}

/// Prints tokens of the host language in a readable way.
pub fn pretty_rust(tokens: &Vec<Token>) -> (out: String)
    ensures
        out@ == pretty(view_tokens(tokens@)),
    decreases tokens,
{
    let ghost all = view_tokens(tokens@);
    let mut out = String::new();
    let mut i: usize = 0;
    assert(all.subrange(0, 0) =~= Seq::<SpecToken>::empty());
    while i < tokens.len()
        invariant
            i <= tokens@.len(),
            all == view_tokens(tokens@),
            out@ == pretty_tokens(all.subrange(0, i as int)),
        decreases tokens@.len() - i,
    {
        write_pretty(&tokens[i], &mut out);
        proof {
            let next = all.subrange(0, i + 1);
            assert(next.drop_last() =~= all.subrange(0, i as int));
            assert(next.last() == tokens@[i as int]@);
        }
        i += 1;
    }
    assert(all.subrange(0, tokens@.len() as int) =~= all);
    proof {
        reveal_strlit("= >");
        reveal_strlit(". ");
        reveal_strlit("( ");
        reveal_strlit("= =");
        reveal_strlit(": : ");
        reveal_strlit(":: ");
        reveal_strlit(" |");
        reveal_strlit("| |");
    }
    let out = replace_all(out.as_str(), "= >", "=>");
    let out = replace_all(out.as_str(), ". ", ".");
    let out = replace_all(out.as_str(), "( ", "(");
    let out = replace_all(out.as_str(), "= =", "=");
    let out = replace_all(out.as_str(), ": : ", "::");
    let out = replace_all(out.as_str(), ":: ", "::");
    let out = replace_all(out.as_str(), " |", "|");
    replace_all(out.as_str(), "| |", "||")
}

} // verus!
