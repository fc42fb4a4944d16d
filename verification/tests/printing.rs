use template_syntax::error::{ErrorKind, ParseError};
use template_syntax::lexer::tokenize;
use template_syntax::syntax::pretty_rust;
use template_syntax::text::replace_all;

fn pretty(source: &str) -> String {
    pretty_rust(&tokenize(source).expect("lexes"))
}

#[test]
fn replace_all_replaces_from_left_to_right() {
    assert_eq!(replace_all("a. b. c", ". ", "."), "a.b.c");
    assert_eq!(replace_all("aaa", "aa", "b"), "ba");
    assert_eq!(replace_all("abc", "abcd", "x"), "abc");
    assert_eq!(replace_all("", "a", "x"), "");
    assert_eq!(replace_all("xyz", "z", ""), "xy");
    assert_eq!(replace_all("é: : é", ": : ", "::"), "é: : é".replace(": : ", "::"));
    for (text, from, to) in [("= = = =", "= =", "="), ("| | |", "| |", "||"), ("a  |b |", " |", "|")] {
        assert_eq!(replace_all(text, from, to), text.replace(from, to));
    }
}

#[test]
fn pretty_rust_prints_tokens_readably() {
    assert_eq!(pretty("bowl.has_fruit()"), " bowl.has_fruit()");
    assert_eq!(pretty("a::b"), " a::b");
    assert_eq!(pretty("f(x, y)"), " f(x,  y)");
    assert_eq!(pretty("a; b"), " a;\n b");
    assert_eq!(pretty("|a| a"), "| a| a");
    assert_eq!(pretty("x[1] + \"s\""), " x[1] + \"s\"");
    assert_eq!(pretty("a { b: c }"), " a{ b:  c}");
    assert_eq!(pretty(""), "");
}

#[test]
fn messages_say_what_was_expected() {
    let message = |kind| ParseError { kind, position: 0 }.message();
    assert_eq!(message(ErrorKind::ExpectedSign), "Expected `+` or `-` here!");
    assert_eq!(message(ErrorKind::MultipleLeadingZeros), "Expected maximum one leading `0` here");
    assert_eq!(message(ErrorKind::ExpectedNumbers), "Expected [`0`] [INT] [. INT] here");
    assert_eq!(message(ErrorKind::ExpectedCount), "Expected either integer or parameter `var$` here");
    assert_eq!(message(ErrorKind::ExpectedHexFlag), "Expected either `x` or `X` here!");
    assert_eq!(message(ErrorKind::ExpectedRoot), "Expected either element or fragment here");
    assert_eq!(message(ErrorKind::ExpectedDivider), "Expected either `{:else if ...}`, or `{:else}` here");
    assert_eq!(message(ErrorKind::ExpectedPunct('<')), "Expected the character <");
    assert_eq!(message(ErrorKind::UnexpectedEnd), "Unexpected end of input");
}
