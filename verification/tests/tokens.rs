use template_syntax::cursor::Cursor;
use template_syntax::lexer::{classify, classify_all, classify_literal, tokenize, RawToken};
use template_syntax::error::ErrorKind;
use template_syntax::text::{find_char, slice_text, text_equals};
use template_syntax::token::{
    clone_token, clone_tokens, render_tokens, Delimiter, LiteralKind, Spacing, Token,
};

#[test]
fn tokenize_splits_text_into_token_trees() {
    let tokens = tokenize("<a href=\"x\">{b:05}</a>").expect("lexes");
    assert_eq!(tokens.len(), 11);
    assert!(matches!(&tokens[0], Token::Punct('<', Spacing::Alone)));
    assert!(matches!(&tokens[1], Token::Ident(name) if name == "a"));
    assert!(matches!(&tokens[4], Token::Literal(lit) if lit.text == "\"x\"" && matches!(&lit.kind, LiteralKind::Str(v) if v == "x")));
    match &tokens[6] {
        Token::Group(Delimiter::Brace, inner) => {
            assert_eq!(inner.len(), 3);
            assert!(matches!(&inner[2], Token::Literal(lit) if lit.text == "05" && matches!(lit.kind, LiteralKind::Integer)));
        }
        other => panic!("expected a brace group, found {other:?}"),
    }
}

#[test]
fn tokenize_tells_reserved_words_from_identifiers() {
    let tokens = tokenize("if case _ x").expect("lexes");
    assert!(matches!(&tokens[0], Token::Keyword(w) if w == "if"));
    assert!(matches!(&tokens[1], Token::Ident(w) if w == "case"));
    assert!(matches!(&tokens[2], Token::Keyword(w) if w == "_"));
    assert!(matches!(&tokens[3], Token::Ident(w) if w == "x"));
}

#[test]
fn tokenize_tells_the_kinds_of_literals() {
    let tokens = tokenize("5 6.5 6.5f32 '0' \"s\" b'x' 1e3").expect("lexes");
    let kinds: Vec<LiteralKind> = tokens
        .iter()
        .map(|t| match t {
            Token::Literal(lit) => lit.kind.clone(),
            other => panic!("expected a literal, found {other:?}"),
        })
        .collect();
    assert_eq!(
        kinds,
        vec![
            LiteralKind::Integer,
            LiteralKind::Float(String::new()),
            LiteralKind::Float("f32".to_string()),
            LiteralKind::Character('0'),
            LiteralKind::Str("s".to_string()),
            LiteralKind::Other,
            LiteralKind::Float(String::new()),
        ]
    );
}

#[test]
fn tokenize_keeps_spacing_and_delimiters() {
    let tokens = tokenize("a == (b) [c] ..").expect("lexes");
    assert!(matches!(&tokens[1], Token::Punct('=', Spacing::Joint)));
    assert!(matches!(&tokens[2], Token::Punct('=', Spacing::Alone)));
    assert!(matches!(&tokens[3], Token::Group(Delimiter::Parenthesis, inner) if inner.len() == 1));
    assert!(matches!(&tokens[4], Token::Group(Delimiter::Bracket, inner) if inner.len() == 1));
    assert!(matches!(&tokens[5], Token::Punct('.', Spacing::Joint)));
    assert!(matches!(&tokens[6], Token::Punct('.', Spacing::Alone)));
}

#[test]
fn tokenize_rejects_unbalanced_text() {
    assert_eq!(tokenize("{ a").map_err(|e| (e.kind, e.position)), Err((ErrorKind::InvalidSource, 0)));
    assert!(tokenize("a )").is_err());
}

#[test]
fn rendered_tokens_lex_to_the_same_tokens() {
    for source in [
        "<a href=\"x\">{b:05}</a>",
        "{#if let Some(x) = y.z(|w| w == 1..=2)} it's {x:#?} {/if}",
        "a :: b -> c => d += 'e' + 1.5e3 - r#type",
    ] {
        let tokens = tokenize(source).expect("lexes");
        let text = render_tokens(&tokens, 0);
        assert_eq!(tokenize(&text).expect("lexes"), tokens, "{source}");
    }
    let tokens = tokenize("a == b . c").expect("lexes");
    assert_eq!(render_tokens(&tokens, 0), "a == b . c ");
    assert_eq!(render_tokens(&tokens, 3), "b . c ");
    assert_eq!(render_tokens(&tokens, 6), "");
    let tokens = tokenize("f(x, [y]) {z}").expect("lexes");
    assert_eq!(render_tokens(&tokens, 0), "f ( x , [ y ] ) { z } ");
}

#[test]
fn clones_are_equal_to_what_they_copy() {
    let tokens = tokenize("a (b [c {d}]) 'e' 1.5").expect("lexes");
    assert_eq!(clone_tokens(&tokens, 0, tokens.len()), tokens);
    assert_eq!(clone_tokens(&tokens, 1, 3), tokens[1..3]);
    assert_eq!(clone_token(&tokens[1]), tokens[1]);
}

#[test]
fn cursor_peeks_without_consuming() {
    let tokens = tokenize("< a > {b} 5 if").expect("lexes");
    let cursor = Cursor::new(&tokens);
    assert_eq!(cursor.position(), 0);
    assert_eq!(cursor.remaining(), 6);
    assert!(!cursor.is_empty());
    assert!(cursor.peek_punct(1, '<') && cursor.peek_ident(2) && cursor.peek_punct(3, '>'));
    assert!(!cursor.peek_punct(2, '<') && !cursor.peek_ident(1));
    assert!(cursor.peek_group(4, Delimiter::Brace) && !cursor.peek_group(4, Delimiter::Bracket));
    assert!(cursor.peek_integer(5) && !cursor.peek_float(5));
    assert!(cursor.peek_word(6, "if") && !cursor.peek_ident(6) && cursor.peek_word(2, "a"));
    assert!(cursor.peek(6).is_some() && cursor.peek(7).is_none() && cursor.peek(0).is_none());
    assert_eq!(cursor.position(), 0);
}

#[test]
fn moving_a_fork_leaves_the_cursor_in_place() {
    let tokens = tokenize("a b {c d} e").expect("lexes");
    let cursor = Cursor::new(&tokens);
    let fork = cursor.fork().advance(2);
    assert_eq!(fork.position(), 2);
    assert_eq!(cursor.position(), 0);
    let (inner, after) = fork.enter(Delimiter::Brace).expect("a brace group");
    assert_eq!((inner.position(), inner.remaining()), (0, 2));
    assert_eq!(after.position(), 3);
    assert_eq!(fork.position(), 2);
    assert!(cursor.enter(Delimiter::Brace).is_none());
    assert!(fork.enter(Delimiter::Parenthesis).is_none());
    assert!(after.advance(1).is_empty());
    assert_eq!(cursor.render_rest(), "a b { c d } e ");
    assert_eq!(after.render_rest(), "e ");
    assert_eq!(cursor.take(2), tokens[0..2]);
}

#[test]
fn text_helpers() {
    assert!(text_equals("abc", "abc"));
    assert!(!text_equals("abc", "abd"));
    assert!(!text_equals("abc", "ab"));
    assert!(text_equals("", ""));
    assert_eq!(find_char("12.34.5", '.'), Some(2));
    assert_eq!(find_char("1234", '.'), None);
    assert_eq!(find_char("é.x", '.'), Some(1));
    assert_eq!(slice_text("héllo", 1, 3), "él");
    assert_eq!(slice_text("abc", 3, 3), "");
}

#[test]
fn literals_are_told_apart_by_their_text() {
    assert_eq!(classify_literal("5"), LiteralKind::Integer);
    assert_eq!(classify_literal("0x1f_u8"), LiteralKind::Integer);
    assert_eq!(classify_literal("5.0"), LiteralKind::Float(String::new()));
    assert_eq!(classify_literal("5."), LiteralKind::Float(String::new()));
    assert_eq!(classify_literal("5.0f32"), LiteralKind::Float("f32".to_string()));
    assert_eq!(classify_literal("'a'"), LiteralKind::Character('a'));
    assert_eq!(classify_literal("'\\n'"), LiteralKind::Character('\n'));
    assert_eq!(classify_literal("\"a\\tb\""), LiteralKind::Str("a\tb".to_string()));
    assert_eq!(classify_literal("r\"a\""), LiteralKind::Str("a".to_string()));
    assert_eq!(classify_literal("b'x'"), LiteralKind::Other);
    assert_eq!(classify_literal("b\"x\""), LiteralKind::Other);
    assert_eq!(classify_literal("word"), LiteralKind::Other);
    assert_eq!(classify_literal(""), LiteralKind::Other);
}

#[test]
fn raw_tokens_keep_their_shape_when_classified() {
    let raw = RawToken::Group(
        Delimiter::Brace,
        vec![
            RawToken::Word("match".to_string()),
            RawToken::Word("matching".to_string()),
            RawToken::Punct('#', Spacing::Joint),
            RawToken::Literal("07".to_string()),
            RawToken::Group(Delimiter::Invisible, vec![RawToken::Word("self".to_string())]),
        ],
    );
    let expected = Token::Group(
        Delimiter::Brace,
        vec![
            Token::Keyword("match".to_string()),
            Token::Ident("matching".to_string()),
            Token::Punct('#', Spacing::Joint),
            Token::Literal(template_syntax::token::Literal {
                text: "07".to_string(),
                kind: LiteralKind::Integer,
            }),
            Token::Group(Delimiter::Invisible, vec![Token::Keyword("self".to_string())]),
        ],
    );
    assert_eq!(classify(&raw), expected);
    assert_eq!(classify_all(&vec![raw]), vec![expected]);
    assert!(classify_all(&Vec::new()).is_empty());
}
