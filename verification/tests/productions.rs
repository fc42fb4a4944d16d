use template_syntax::cursor::Cursor;
use template_syntax::lexer::tokenize;
use template_syntax::error::ErrorKind;
use template_syntax::syntax::embedded::{covered, Expression, Pattern};
use template_syntax::syntax::formatting::{
    Align, AlignDirection, Count, DecimalPrecision, FormatType, Numbers, Parameter, Precision,
    Pretty, Sign, Width, Zero,
};
use template_syntax::syntax::jsx::{
    parse_attrs, parse_comments_until, parse_fragment_children, Attribute, AttributeInitializer,
    AttributeValue, Child, CloseComment, ClosingElement, ElementName, FragmentClosing,
    FragmentOpening, OpenComment, OpeningElement,
};
use template_syntax::syntax::mustache::FormattingGroup;
use template_syntax::syntax::svelte::blocks::if_block::{
    ElseDivider, ElseIfDivider, IfClosing, IfDivider, IfOpening,
};
use template_syntax::syntax::svelte::blocks::match_block::{
    guard_parse, CaseDivider, MatchClosing, MatchOpening,
};
use template_syntax::syntax::svelte::blocks::{parse_divided_until, parse_until};
use template_syntax::syntax::svelte::{braced_expression, braced_word, peek_braces, Divider, Either, Peek};
use template_syntax::token::{render_tokens, Token};

fn lex(source: &str) -> Vec<Token> {
    tokenize(source).expect("lexes")
}

#[test]
fn sign_pretty_and_direction_alone() {
    let tokens = lex("+ - # > 5");
    let at = |i: usize| Cursor::new(&tokens).advance(i);
    let (sign, rest) = Sign::parse(at(0)).expect("Valid parse");
    assert_eq!((sign, rest.position()), (Sign::Positive, 1));
    let (sign, rest) = Sign::parse(at(1)).expect("Valid parse");
    assert_eq!((sign, rest.position()), (Sign::Negative, 2));
    let e = Sign::parse(at(4)).expect_err("Invalid parse");
    assert_eq!((e.kind, e.position), (ErrorKind::ExpectedSign, 4));
    assert!(Sign::peek(at(0)) && Sign::peek(at(1)) && !Sign::peek(at(2)));

    let (_, rest) = Pretty::parse(at(2)).expect("Valid parse");
    assert_eq!(rest.position(), 3);
    let e = Pretty::parse(at(3)).expect_err("Invalid parse");
    assert_eq!((e.kind, e.position), (ErrorKind::ExpectedPunct('#'), 3));
    assert!(Pretty::peek(at(2)) && !Pretty::peek(at(3)));

    let (direction, rest) = AlignDirection::parse(at(3)).expect("Valid parse");
    assert_eq!((direction, rest.position()), (AlignDirection::Right, 4));
    let e = AlignDirection::parse(at(4)).expect_err("Invalid parse");
    assert_eq!((e.kind, e.position), (ErrorKind::ExpectedAlignment, 4));
    assert!(Align::peek(at(2)) && Align::peek(at(3)) && !Align::peek(at(4)) && !Align::peek(at(1)));
    assert!(AlignDirection::peek(at(3)) && !AlignDirection::peek(at(2)));
}

#[test]
fn numbers_alone() {
    let tokens = lex("012.3 x");
    let (numbers, rest) = Numbers::parse(Cursor::new(&tokens)).expect("Valid parse");
    assert_eq!(
        numbers,
        Numbers(
            Some(Zero),
            Some(Width("12".to_string())),
            Some(DecimalPrecision { precision: Precision::Count(Count::Integer("3".to_string())) })
        )
    );
    assert_eq!(rest.position(), 1);
    let e = Numbers::parse(rest).expect_err("Invalid parse");
    assert_eq!((e.kind, e.position), (ErrorKind::ExpectedNumbers, 1));
    assert!(Numbers::peek(Cursor::new(&tokens)) && !Numbers::peek(rest));
    assert!(Zero::peek(Cursor::new(&tokens)) == false);

    let tokens = lex("07 7 0 x");
    let at = |i: usize| Cursor::new(&tokens).advance(i);
    assert!(Zero::peek(at(0)) && !Zero::peek(at(1)) && Zero::peek(at(2)) && !Zero::peek(at(3)));
}

#[test]
fn precision_and_count_alone() {
    let tokens = lex("* 5 n $ n . 5");
    let at = |i: usize| Cursor::new(&tokens).advance(i);
    let (precision, rest) = Precision::parse(at(0)).expect("Valid parse");
    assert_eq!((precision, rest.position()), (Precision::Star, 1));
    let (precision, rest) = Precision::parse(at(1)).expect("Valid parse");
    assert_eq!((precision, rest.position()), (Precision::Count(Count::Integer("5".to_string())), 2));
    let (count, rest) = Count::parse(at(2)).expect("Valid parse");
    assert_eq!((count, rest.position()), (Count::Parameter(Parameter("n".to_string())), 4));
    let e = Count::parse(at(4)).expect_err("Invalid parse");
    assert_eq!((e.kind, e.position), (ErrorKind::ExpectedCount, 4));
    let e = Count::parse(at(0)).expect_err("Invalid parse");
    assert_eq!((e.kind, e.position), (ErrorKind::ExpectedCount, 0));
    let (precision, rest) = DecimalPrecision::parse(at(5)).expect("Valid parse");
    assert_eq!(precision.precision, Precision::Count(Count::Integer("5".to_string())));
    assert_eq!(rest.position(), 7);
    let e = DecimalPrecision::parse(at(4)).expect_err("Invalid parse");
    assert_eq!((e.kind, e.position), (ErrorKind::ExpectedPunct('.'), 4));
    assert!(DecimalPrecision::peek(at(5)) && !DecimalPrecision::peek(at(4)));
    let (parameter, rest) = Parameter::parse(at(2)).expect("Valid parse");
    assert_eq!((parameter, rest.position()), (Parameter("n".to_string()), 4));
    let e = Parameter::parse(at(4)).expect_err("Invalid parse");
    assert_eq!((e.kind, e.position), (ErrorKind::ExpectedPunct('$'), 5));
    let e = Parameter::parse(at(1)).expect_err("Invalid parse");
    assert_eq!((e.kind, e.position), (ErrorKind::ExpectedIdentifier, 1));
    let (format_type, rest) = FormatType::parse(at(4)).expect("Valid parse");
    assert_eq!((format_type, rest.position()), (FormatType::Other("n".to_string()), 5));
}

#[test]
fn formatting_group_needs_its_colon() {
    let tokens = lex(": #? ?");
    let (group, rest) = FormattingGroup::parse(Cursor::new(&tokens)).expect("Valid parse");
    assert_eq!(group.formatting.pretty, Some(Pretty));
    assert_eq!(group.formatting._type, FormatType::Debug);
    assert_eq!(rest.position(), 3);
    let e = FormattingGroup::parse(rest).expect_err("Invalid parse");
    assert_eq!((e.kind, e.position), (ErrorKind::ExpectedPunct(':'), 3));
}

#[test]
fn expressions_and_patterns_reach_as_far_as_the_host_parser_says() {
    let tokens = lex("a + b(c) : d");
    let (expression, rest) = Expression::parse(Cursor::new(&tokens)).expect("Valid parse");
    assert_eq!(render_tokens(&expression.tokens, 0), "a + b ( c ) ");
    assert_eq!(rest.position(), 4);
    let e = Expression::parse_whole(Cursor::new(&tokens)).expect_err("Invalid parse");
    assert_eq!((e.kind, e.position), (ErrorKind::UnexpectedToken, 4));
    let e = Expression::parse(rest).expect_err("Invalid parse");
    assert_eq!((e.kind, e.position), (ErrorKind::ExpectedExpression, 4));
    let (expression, rest) = Expression::parse_whole(rest.advance(1)).expect("Valid parse");
    assert_eq!(render_tokens(&expression.tokens, 0), "d ");
    assert!(rest.is_empty());
    let e = Expression::parse(rest).expect_err("Invalid parse");
    assert_eq!((e.kind, e.position), (ErrorKind::ExpectedExpression, 6));

    let tokens = lex("Some(x) | None if y");
    let (pattern, rest) = Pattern::parse(Cursor::new(&tokens)).expect("Valid parse");
    assert_eq!(render_tokens(&pattern.tokens, 0), "Some ( x ) | None ");
    assert_eq!(rest.position(), 4);
    let e = Pattern::parse(rest).expect_err("Invalid parse");
    assert_eq!((e.kind, e.position), (ErrorKind::ExpectedPattern, 4));
}

#[test]
fn covered_is_what_is_left_less_the_rest() {
    let tokens = lex("a b c d e");
    let cursor = Cursor::new(&tokens).advance(1);
    assert_eq!(covered(&cursor, Some(0)), Some(4));
    assert_eq!(covered(&cursor, Some(3)), Some(1));
    assert_eq!(covered(&cursor, Some(4)), None);
    assert_eq!(covered(&cursor, Some(9)), None);
    assert_eq!(covered(&cursor, None), None);
}

#[test]
fn names_and_tags_alone() {
    let tokens = lex("a::b c </a::b> </x> < a");
    let at = |i: usize| Cursor::new(&tokens).advance(i);
    let (name, rest) = ElementName::parse(at(0)).expect("Valid parse");
    assert_eq!(name.segments, vec!["a".to_string(), "b".to_string()]);
    assert_eq!(render_tokens(&name.tokens, 0), "a :: b ");
    assert_eq!(rest.position(), 4);
    let e = ElementName::parse(at(5)).expect_err("Invalid parse");
    assert_eq!((e.kind, e.position), (ErrorKind::ExpectedName, 5));

    assert!(ClosingElement::peek(at(5), &name));
    assert!(!ClosingElement::peek(at(12), &name));
    assert!(!ClosingElement::peek(at(16), &name));
    assert!(!ClosingElement::peek(at(0), &name));
    let (closing, rest) = ClosingElement::parse(at(5)).expect("Valid parse");
    assert_eq!(closing.name, name);
    assert_eq!(rest.position(), 12);
    let e = ClosingElement::parse(at(16)).expect_err("Invalid parse");
    assert_eq!((e.kind, e.position), (ErrorKind::ExpectedPunct('/'), 17));
    let e = ClosingElement::parse(at(0)).expect_err("Invalid parse");
    assert_eq!((e.kind, e.position), (ErrorKind::ExpectedPunct('<'), 0));

    let tokens = lex("<a b c={d}> <e");
    let (opening, rest) = OpeningElement::parse(Cursor::new(&tokens)).expect("Valid parse");
    assert_eq!(opening.name.segments, vec!["a".to_string()]);
    assert_eq!(opening.attributes.len(), 2);
    assert_eq!(rest.position(), 7);
    let e = OpeningElement::parse(rest).expect_err("Invalid parse");
    assert_eq!((e.kind, e.position), (ErrorKind::ExpectedAttribute, 9));
    let (head, rest) = OpeningElement::parse_head(Cursor::new(&tokens)).expect("Valid parse");
    assert_eq!((head.attributes.len(), rest.position()), (2, 6));
}

#[test]
fn attributes_alone() {
    let tokens = lex("a b=\"c\" {..d} e={f} > g");
    let (attributes, rest) = parse_attrs(Cursor::new(&tokens)).expect("Valid parse");
    assert_eq!(attributes.len(), 4);
    assert!(matches!(&attributes[0], Attribute::Named(n) if n.key == "a" && n.initializer.is_none()));
    assert!(matches!(&attributes[2], Attribute::Spread(_)));
    assert_eq!(rest.position(), 8);
    let (attributes, rest) = parse_attrs(rest).expect("Valid parse");
    assert!(attributes.is_empty());
    assert_eq!(rest.position(), 8);

    let at = |i: usize| Cursor::new(&tokens).advance(i);
    let (initializer, rest) = AttributeInitializer::parse(at(2)).expect("Valid parse");
    assert!(matches!(initializer.value, AttributeValue::LitStr(_)));
    assert_eq!(rest.position(), 4);
    let e = AttributeInitializer::parse(at(1)).expect_err("Invalid parse");
    assert_eq!((e.kind, e.position), (ErrorKind::ExpectedPunct('='), 1));
    let e = AttributeValue::parse(at(0)).expect_err("Invalid parse");
    assert_eq!((e.kind, e.position), (ErrorKind::ExpectedAttributeValue, 0));
    let e = Attribute::parse(at(8)).expect_err("Invalid parse");
    assert_eq!((e.kind, e.position), (ErrorKind::ExpectedAttribute, 8));
}

#[test]
fn children_up_to_a_mark() {
    let tokens = lex("a <b/> {c} </> d");
    let (children, rest) = parse_fragment_children(Cursor::new(&tokens)).expect("Valid parse");
    assert_eq!(children.len(), 3);
    assert!(matches!(&children[0], Child::Text(_)));
    assert!(matches!(&children[1], Child::Element(_)));
    assert!(matches!(&children[2], Child::Mustache(_)));
    assert_eq!(rest.position(), 6);
    assert!(FragmentClosing::peek(rest) && !FragmentClosing::peek(Cursor::new(&tokens)));
    let (children, same) = parse_until::<FragmentClosing>(rest).expect("Valid parse");
    assert!(children.is_empty());
    assert_eq!(same.position(), 6);
    let e = parse_until::<FragmentClosing>(rest.advance(3)).expect_err("Invalid parse");
    assert_eq!((e.kind, e.position), (ErrorKind::UnexpectedEnd, 10));

    let tokens = lex("a {/if} b {:else} c");
    let (children, rest) = parse_until::<Either<IfDivider, IfClosing>>(Cursor::new(&tokens)).expect("Valid parse");
    assert_eq!((children.len(), rest.position()), (1, 1));
    let e = parse_until::<IfDivider>(Cursor::new(&tokens)).expect_err("Invalid parse");
    assert_eq!((e.kind, e.position), (ErrorKind::ExpectedExpression, 1));
    let (children, rest) = parse_until::<IfDivider>(rest.advance(1)).expect("Valid parse");
    assert_eq!((children.len(), rest.position()), (1, 3));
    assert!(<Either<IfDivider, IfClosing>>::peek(rest));
    assert!(!<Either<IfDivider, IfClosing>>::peek(rest.advance(1)));
}

#[test]
fn comments_up_to_a_mark() {
    let tokens = lex("<!-- a --> <!-- b --> {:case c} <!-- d --> e");
    let (comments, rest) =
        parse_comments_until::<Either<MatchClosing, CaseDivider>>(Cursor::new(&tokens)).expect("Valid parse");
    assert_eq!(comments.len(), 2);
    assert_eq!(render_tokens(&comments[1].contents, 0), "b ");
    assert_eq!(rest.position(), 16);
    let e = parse_comments_until::<MatchClosing>(rest.advance(1)).expect_err("Invalid parse");
    assert_eq!((e.kind, e.position), (ErrorKind::ExpectedPunct('<'), 25));
}

#[test]
fn parts_up_to_a_mark() {
    let tokens = lex("{:else if a} b {:else} {/if} c");
    let (parts, rest) = parse_divided_until::<IfDivider, IfClosing>(Cursor::new(&tokens)).expect("Valid parse");
    assert_eq!(parts.len(), 2);
    assert!(matches!(&parts[0], (IfDivider::ElseIf(_), body) if body.len() == 1));
    assert!(matches!(&parts[1], (IfDivider::Else(_), body) if body.is_empty()));
    assert_eq!(rest.position(), 3);
    let (parts, same) = parse_divided_until::<IfDivider, IfClosing>(rest).expect("Valid parse");
    assert!(parts.is_empty());
    assert_eq!(same.position(), 3);
    let e = parse_divided_until::<IfDivider, IfClosing>(rest.advance(1)).expect_err("Invalid parse");
    assert_eq!((e.kind, e.position), (ErrorKind::ExpectedDivider, 4));
    let e = parse_divided_until::<IfDivider, IfClosing>(rest.advance(2)).expect_err("Invalid parse");
    assert_eq!((e.kind, e.position), (ErrorKind::UnexpectedEnd, 5));
    let e = parse_divided_until::<CaseDivider, MatchClosing>(Cursor::new(&tokens)).expect_err("Invalid parse");
    assert_eq!((e.kind, e.position), (ErrorKind::ExpectedCase, 0));
}

#[test]
fn dividers_and_marks_alone() {
    let tokens = lex("{:else} {:else if a} {:x} {x} {#if b} {/if} {#match c} {/match} {:case d if e} {:case}");
    let at = |i: usize| Cursor::new(&tokens).advance(i);
    let (_, rest) = ElseDivider::parse(at(0)).expect("Valid parse");
    assert_eq!(rest.position(), 1);
    let e = ElseDivider::parse(at(1)).expect_err("Invalid parse");
    assert_eq!((e.kind, e.position), (ErrorKind::UnexpectedToken, 1));
    let e = ElseDivider::parse(at(2)).expect_err("Invalid parse");
    assert_eq!((e.kind, e.position), (ErrorKind::ExpectedElse, 2));
    let e = ElseDivider::parse(at(3)).expect_err("Invalid parse");
    assert_eq!((e.kind, e.position), (ErrorKind::ExpectedPunct(':'), 3));

    let (divider, rest) = ElseIfDivider::parse(at(1)).expect("Valid parse");
    assert_eq!(render_tokens(&divider.expr.tokens, 0), "a ");
    assert_eq!(rest.position(), 2);
    let e = ElseIfDivider::parse(at(0)).expect_err("Invalid parse");
    assert_eq!((e.kind, e.position), (ErrorKind::ExpectedIf, 0));
    let e = ElseIfDivider::parse(at(2)).expect_err("Invalid parse");
    assert_eq!((e.kind, e.position), (ErrorKind::ExpectedElse, 2));

    assert!(matches!(IfDivider::parse(at(0)), Ok((IfDivider::Else(_), _))));
    assert!(matches!(IfDivider::parse(at(1)), Ok((IfDivider::ElseIf(_), _))));
    for i in [2, 3, 4, 5] {
        let e = IfDivider::parse(at(i)).expect_err("Invalid parse");
        assert_eq!((e.kind, e.position), (ErrorKind::ExpectedDivider, i));
    }
    assert!(ElseDivider::peek(at(0)) && !ElseDivider::peek(at(1)));
    assert!(ElseIfDivider::peek(at(1)) && !ElseIfDivider::peek(at(0)));

    let (opening, rest) = IfOpening::parse(at(4)).expect("Valid parse");
    assert_eq!(render_tokens(&opening.expr.tokens, 0), "b ");
    assert_eq!(rest.position(), 5);
    assert!(IfOpening::peek(at(4)) && !IfOpening::peek(at(5)) && IfClosing::peek(at(5)));
    let (_, rest) = IfClosing::parse(at(5)).expect("Valid parse");
    assert_eq!(rest.position(), 6);
    let e = IfClosing::parse(at(4)).expect_err("Invalid parse");
    assert_eq!((e.kind, e.position), (ErrorKind::ExpectedPunct('/'), 4));

    let (opening, rest) = MatchOpening::parse(at(6)).expect("Valid parse");
    assert_eq!(render_tokens(&opening.expr.tokens, 0), "c ");
    assert_eq!(rest.position(), 7);
    assert!(MatchOpening::peek(at(6)) && MatchClosing::peek(at(7)) && !MatchClosing::peek(at(5)));
    let (_, rest) = MatchClosing::parse(at(7)).expect("Valid parse");
    assert_eq!(rest.position(), 8);
    let e = MatchClosing::parse(at(5)).expect_err("Invalid parse");
    assert_eq!((e.kind, e.position), (ErrorKind::ExpectedMatch, 5));

    let (case, rest) = CaseDivider::parse(at(8)).expect("Valid parse");
    assert_eq!(render_tokens(&case.pattern.tokens, 0), "d ");
    assert_eq!(render_tokens(&case.guard.expect("a guard").tokens, 0), "e ");
    assert_eq!(rest.position(), 9);
    assert!(CaseDivider::peek(at(8)) && CaseDivider::peek(at(9)) && !CaseDivider::peek(at(0)));
    let e = CaseDivider::parse(at(9)).expect_err("Invalid parse");
    assert_eq!((e.kind, e.position), (ErrorKind::ExpectedPattern, 9));
    let e = CaseDivider::parse(at(2)).expect_err("Invalid parse");
    assert_eq!((e.kind, e.position), (ErrorKind::ExpectedCase, 2));
    let e = CaseDivider::parse(at(3)).expect_err("Invalid parse");
    assert_eq!((e.kind, e.position), (ErrorKind::ExpectedPunct(':'), 3));
    let e = CaseDivider::parse(at(10)).expect_err("Invalid parse");
    assert_eq!((e.kind, e.position), (ErrorKind::ExpectedBraces, 10));
}

#[test]
fn guard_alone() {
    let tokens = lex("if a b");
    let (guard, rest) = guard_parse(Cursor::new(&tokens).advance(3)).expect("Valid parse");
    assert!(guard.is_none());
    assert_eq!(rest.position(), 3);
    let e = guard_parse(Cursor::new(&tokens)).expect_err("Invalid parse");
    assert_eq!((e.kind, e.position), (ErrorKind::UnexpectedToken, 2));
    let e = guard_parse(Cursor::new(&tokens).advance(1)).expect_err("Invalid parse");
    assert_eq!((e.kind, e.position), (ErrorKind::ExpectedIf, 1));
    let tokens = lex("if a");
    let (guard, rest) = guard_parse(Cursor::new(&tokens)).expect("Valid parse");
    assert_eq!(render_tokens(&guard.expect("a guard").tokens, 0), "a ");
    assert_eq!(rest.position(), 2);
}

#[test]
fn marks_alone() {
    let tokens = lex("<> </> <!-- --> <! <");
    let at = |i: usize| Cursor::new(&tokens).advance(i);
    let (_, rest) = FragmentOpening::parse(at(0)).expect("Valid parse");
    assert_eq!(rest.position(), 2);
    let e = FragmentOpening::parse(at(2)).expect_err("Invalid parse");
    assert_eq!((e.kind, e.position), (ErrorKind::ExpectedPunct('>'), 3));
    let (_, rest) = FragmentClosing::parse(at(2)).expect("Valid parse");
    assert_eq!(rest.position(), 5);
    let e = FragmentClosing::parse(at(0)).expect_err("Invalid parse");
    assert_eq!((e.kind, e.position), (ErrorKind::ExpectedPunct('/'), 1));
    let e = FragmentClosing::parse(at(1)).expect_err("Invalid parse");
    assert_eq!((e.kind, e.position), (ErrorKind::ExpectedPunct('<'), 1));
    let (_, rest) = OpenComment::parse(at(5)).expect("Valid parse");
    assert_eq!(rest.position(), 9);
    let e = OpenComment::parse(at(12)).expect_err("Invalid parse");
    assert_eq!((e.kind, e.position), (ErrorKind::ExpectedPunct('-'), 14));
    let e = OpenComment::parse(at(14)).expect_err("Invalid parse");
    assert_eq!((e.kind, e.position), (ErrorKind::ExpectedPunct('!'), 15));
    let (_, rest) = CloseComment::parse(at(9)).expect("Valid parse");
    assert_eq!(rest.position(), 12);
    let e = CloseComment::parse(at(8)).expect_err("Invalid parse");
    assert_eq!((e.kind, e.position), (ErrorKind::ExpectedPunct('>'), 10));
    let e = CloseComment::parse(at(0)).expect_err("Invalid parse");
    assert_eq!((e.kind, e.position), (ErrorKind::ExpectedPunct('-'), 0));
}

#[test]
fn braces_with_a_mark_and_a_word() {
    let tokens = lex("{#if a} {/if} {#if} {/ if b} x");
    let at = |i: usize| Cursor::new(&tokens).advance(i);
    assert!(peek_braces(at(0), '#', "if") && !peek_braces(at(0), '/', "if") && !peek_braces(at(0), '#', "match"));
    assert!(peek_braces(at(2), '#', "if") && peek_braces(at(3), '/', "if") && !peek_braces(at(4), '#', "if"));
    let (expression, rest) = braced_expression(at(0), '#', "if", ErrorKind::ExpectedIf).expect("Valid parse");
    assert_eq!(render_tokens(&expression.tokens, 0), "a ");
    assert_eq!(rest.position(), 1);
    let e = braced_expression(at(2), '#', "if", ErrorKind::ExpectedIf).expect_err("Invalid parse");
    assert_eq!((e.kind, e.position), (ErrorKind::ExpectedExpression, 2));
    let e = braced_expression(at(0), '#', "match", ErrorKind::ExpectedMatch).expect_err("Invalid parse");
    assert_eq!((e.kind, e.position), (ErrorKind::ExpectedMatch, 0));
    let (_, rest) = braced_word(at(1), '/', "if", ErrorKind::ExpectedIf).expect("Valid parse");
    assert_eq!(rest.position(), 2);
    let e = braced_word(at(3), '/', "if", ErrorKind::ExpectedIf).expect_err("Invalid parse");
    assert_eq!((e.kind, e.position), (ErrorKind::UnexpectedToken, 3));
    let e = braced_word(at(4), '/', "if", ErrorKind::ExpectedIf).expect_err("Invalid parse");
    assert_eq!((e.kind, e.position), (ErrorKind::ExpectedBraces, 4));
}
