use template_syntax::error::ErrorKind;
use template_syntax::cursor::Cursor;
use template_syntax::lexer::tokenize;
use template_syntax::syntax::formatting::{Align, AlignDirection, FormatType, Width};
use template_syntax::syntax::jsx::{
    Attribute, AttributeValue, Child, ClosedElement, Comment, Element, Fragment, Root,
    SelfClosingElement, Text,
};
use template_syntax::syntax::mustache::Mustache;
use template_syntax::token::{render_tokens, LiteralKind, Token};

fn text_of(tokens: &Vec<Token>) -> String {
    render_tokens(tokens, 0)
}

#[test]
fn parse_element() {
    let _: SelfClosingElement = SelfClosingElement::parse_str(r#"
            <Button cool willToLive={8*8*8==4} {..stuff} />
        "#).expect("Valid parse");

    let el: ClosedElement = ClosedElement::parse_str(r#"
            <Button onClick={|| count += 1}>
                Clicked {count:'0'>3?} times!
            </Button>
        "#).expect("Valid parse");

    println!("{el:#?}")
}

#[test]
fn parse_comment() {
    let _: Comment = Comment::parse_str(r#"<!-- Hello world! -->"#).expect("Valid parse");

    let _: Comment = Comment::parse_str(r#"<!-- <Button primary>Commented out element.</Button> -->"#).expect("Valid parse");

    let _: Element = Element::parse_str(r#"<Button primary={true}>
            <!-- FIXME: CVE in the hashing/salting code! -->
            Log In 
        </Button>"#).expect("Valid parse");
}

#[test]
fn pretty_print_test() {
    let x: Root = Root::parse_str(r#"
            <Modal>
                <Title>Confirm Transaction</Title>
                <Body>
                    Are you sure you want to spend $1 000.00 on Bitcoin?
                </Body>
                <Footer>
                    <Action primary>Yes</Action>
                    <Action secondary>No</Action>
                </Footer>
            </Modal>
        "#).expect("Valid parse");

    println!("{x:#?}");
}

#[test]
fn element_path_test() {
    let _: Element = Element::parse_str(r#"<icon::Cactus color="green" />"#).expect("Valid parse");
    let _: Element = Element::parse_str(r#"<model::Button>Hello World!</model::Button>"#).expect("Valid parse");
    let _: Element = Element::parse_str(r#"<model::Button primary>Hello World!</model::Button>"#).expect("Valid parse");
}

#[test]
fn mustache_parse() {
    let m: Mustache = Mustache::parse_str(r"{apple:'2'>?}").unwrap();
    println!("{m:?}")
}

#[test]
fn self_closing_element_has_name_and_attributes() {
    let el = Element::parse_str("<a/>").expect("Valid parse");
    match el {
        Element::SelfClosing(el) => {
            assert_eq!(el.name.segments, vec!["a".to_string()]);
            assert!(el.attributes.is_empty());
        }
        other => panic!("expected a self-closing element, found {other:?}"),
    }

    let el = SelfClosingElement::parse_str(r#"<Button cool willToLive={8*8*8==4} {..stuff} label="hi" />"#)
        .expect("Valid parse");
    assert_eq!(el.name.segments, vec!["Button".to_string()]);
    assert_eq!(el.attributes.len(), 4);
    assert!(matches!(&el.attributes[0], Attribute::Named(n) if n.key == "cool" && n.initializer.is_none()));
    match &el.attributes[1] {
        Attribute::Named(n) => {
            assert_eq!(n.key, "willToLive");
            match &n.initializer.as_ref().expect("a value").value {
                AttributeValue::Expr(e) => assert_eq!(text_of(&e.expr.tokens), "8 * 8 * 8 == 4 "),
                other => panic!("expected an expression, found {other:?}"),
            }
        }
        other => panic!("expected a named attribute, found {other:?}"),
    }
    assert!(matches!(&el.attributes[2], Attribute::Spread(s) if text_of(&s.expr.tokens) == "stuff "));
    match &el.attributes[3] {
        Attribute::Named(n) => match &n.initializer.as_ref().expect("a value").value {
            AttributeValue::LitStr(lit) => {
                assert_eq!(lit.text, "\"hi\"");
                assert_eq!(lit.kind, LiteralKind::Str("hi".to_string()));
            }
            other => panic!("expected a string, found {other:?}"),
        },
        other => panic!("expected a named attribute, found {other:?}"),
    }
}

#[test]
fn closed_element_holds_children_in_order() {
    let el = Element::parse_str("<a><b/></a>").expect("Valid parse");
    match el {
        Element::Closed(el) => {
            assert_eq!(el.opening.name.segments, vec!["a".to_string()]);
            assert_eq!(el.closing.name.segments, vec!["a".to_string()]);
            assert_eq!(el.children.len(), 1);
            assert!(matches!(
                &el.children[0],
                Child::Element(Element::SelfClosing(b)) if b.name.segments == vec!["b".to_string()] && b.attributes.is_empty()
            ));
        }
        other => panic!("expected a closed element, found {other:?}"),
    }

    let el = ClosedElement::parse_str("<p>one {two} <!-- three --> <br/> <>four</> five</p>").expect("Valid parse");
    assert_eq!(el.children.len(), 6);
    assert!(matches!(&el.children[0], Child::Text(Text(t)) if text_of(t) == "one "));
    assert!(matches!(&el.children[1], Child::Mustache(m) if text_of(&m.expr.tokens) == "two " && m.formatting.is_none()));
    assert!(matches!(&el.children[2], Child::Comment(c) if text_of(&c.contents) == "three "));
    assert!(matches!(&el.children[3], Child::Element(Element::SelfClosing(_))));
    assert!(matches!(&el.children[4], Child::Fragment(f) if f.children.len() == 1));
    assert!(matches!(&el.children[5], Child::Text(Text(t)) if text_of(t) == "five "));
}

#[test]
fn closing_name_agrees_with_opening_name() {
    let el = ClosedElement::parse_str("<model::Button>Hello World!</model::Button>").expect("Valid parse");
    assert_eq!(el.opening.name.segments, vec!["model".to_string(), "Button".to_string()]);
    assert_eq!(el.closing.name.segments, el.opening.name.segments);
    assert!(el.closing.name.agrees_with(&el.opening.name));

    // Names are compared segment by segment as far as both reach.
    let el = ClosedElement::parse_str("<a::b>x</a>").expect("Valid parse");
    assert_eq!(el.opening.name.segments.len(), 2);
    assert_eq!(el.closing.name.segments, vec!["a".to_string()]);
}

#[test]
fn unclosed_element_is_reported_at_its_opening_tag() {
    let e = Element::parse_str("<a><b>text</b>").expect_err("Invalid parse");
    assert_eq!((e.kind, e.position), (ErrorKind::UnclosedElement, 0));

    let e = Element::parse_str("<a><b/>").expect_err("Invalid parse");
    assert_eq!((e.kind, e.position), (ErrorKind::UnclosedElement, 0));

    // Text that runs into the end of the input fails as text.
    let e = Element::parse_str("<a>text").expect_err("Invalid parse");
    assert_eq!((e.kind, e.position), (ErrorKind::UnexpectedEnd, 4));

    // A closing tag of another name closes nothing.
    let e = Element::parse_str("<a><b>text</c></a>").expect_err("Invalid parse");
    assert_eq!((e.kind, e.position), (ErrorKind::UnclosedElement, 3));

    let e = Element::parse_str("<a>x > y</a>").expect_err("Invalid parse");
    assert_eq!((e.kind, e.position), (ErrorKind::UnclosedElement, 0));
}

#[test]
fn root_is_element_or_fragment() {
    assert!(matches!(Root::parse_str("<a/>"), Ok(Root::Element(Element::SelfClosing(_)))));
    assert!(matches!(Root::parse_str("<a></a>"), Ok(Root::Element(Element::Closed(_)))));
    assert!(matches!(Root::parse_str("<></>"), Ok(Root::Fragment(f)) if f.children.is_empty()));
    assert!(matches!(Root::parse_str("<>a<b/></>"), Ok(Root::Fragment(f)) if f.children.len() == 2));
    for source in ["", "a", "{a}", "< 5 >", "</a>"] {
        let e = Root::parse_str(source).expect_err("Invalid parse");
        assert_eq!((e.kind, e.position), (ErrorKind::ExpectedRoot, 0), "{source}");
    }
    let e = Root::parse_str("<a/> <b/>").expect_err("Invalid parse");
    assert_eq!((e.kind, e.position), (ErrorKind::UnexpectedToken, 4));
}

#[test]
fn fragment_errors() {
    let e = Fragment::parse_str("<>abc").expect_err("Invalid parse");
    assert_eq!((e.kind, e.position), (ErrorKind::UnexpectedEnd, 3));
    let e = Fragment::parse_str("<> </a> </>").expect_err("Invalid parse");
    assert_eq!((e.kind, e.position), (ErrorKind::UnexpectedToken, 2));
    let e = Fragment::parse_str("< a").expect_err("Invalid parse");
    assert_eq!((e.kind, e.position), (ErrorKind::ExpectedPunct('>'), 1));
}

#[test]
fn attribute_errors() {
    let e = Element::parse_str("<a 5 />").expect_err("Invalid parse");
    assert_eq!((e.kind, e.position), (ErrorKind::ExpectedAttribute, 2));
    let e = Element::parse_str("<a b=5 />").expect_err("Invalid parse");
    assert_eq!((e.kind, e.position), (ErrorKind::ExpectedAttributeValue, 4));
    let e = Element::parse_str("<a {b} />").expect_err("Invalid parse");
    assert_eq!((e.kind, e.position), (ErrorKind::ExpectedPunct('.'), 2));
    let e = Element::parse_str("<a b={} />").expect_err("Invalid parse");
    assert_eq!((e.kind, e.position), (ErrorKind::ExpectedExpression, 4));
    let e = Element::parse_str("<a b={c d} />").expect_err("Invalid parse");
    assert_eq!((e.kind, e.position), (ErrorKind::UnexpectedToken, 4));
    let e = Element::parse_str("<a b").expect_err("Invalid parse");
    assert_eq!((e.kind, e.position), (ErrorKind::ExpectedAttribute, 3));
    let e = Element::parse_str("<a / b").expect_err("Invalid parse");
    assert_eq!((e.kind, e.position), (ErrorKind::ExpectedPunct('>'), 3));
    let e = SelfClosingElement::parse_str("<a>").expect_err("Invalid parse");
    assert_eq!((e.kind, e.position), (ErrorKind::ExpectedPunct('/'), 2));
    let e = ClosedElement::parse_str("<a/>").expect_err("Invalid parse");
    assert_eq!((e.kind, e.position), (ErrorKind::ExpectedPunct('>'), 2));
    let e = Element::parse_str("<5/>").expect_err("Invalid parse");
    assert_eq!((e.kind, e.position), (ErrorKind::ExpectedName, 1));
}

#[test]
fn comment_holds_what_stands_between_its_marks() {
    let c = Comment::parse_str("<!-- a - b -- c -->").expect("Valid parse");
    assert_eq!(text_of(&c.contents), "a - b -- c ");
    let c = Comment::parse_str("<!---->").expect("Valid parse");
    assert!(c.contents.is_empty());
    let e = Comment::parse_str("<!-- a").expect_err("Invalid parse");
    assert_eq!((e.kind, e.position), (ErrorKind::UnexpectedEnd, 5));
    let e = Comment::parse_str("<!- a -->").expect_err("Invalid parse");
    assert_eq!((e.kind, e.position), (ErrorKind::ExpectedPunct('-'), 3));
}

#[test]
fn text_stops_before_markup_and_braces() {
    let tokens = tokenize("a , (<) [>] b {c}").expect("lexes");
    let (text, rest) = Text::parse(Cursor::new(&tokens)).expect("Valid parse");
    assert_eq!(text_of(&text.0), "a , ( < ) [ > ] b ");
    assert_eq!(rest.position(), 5);

    let tokens = tokenize("<a/>").expect("lexes");
    let (text, rest) = Text::parse(Cursor::new(&tokens)).expect("Valid parse");
    assert!(text.0.is_empty());
    assert_eq!(rest.position(), 0);

    let tokens = tokenize("a b").expect("lexes");
    let e = Text::parse(Cursor::new(&tokens)).expect_err("Invalid parse");
    assert_eq!((e.kind, e.position), (ErrorKind::UnexpectedEnd, 2));
}

#[test]
fn interpolation_with_and_without_formatting() {
    let m = Mustache::parse_str("{count}").expect("Valid parse");
    assert_eq!(text_of(&m.expr.tokens), "count ");
    assert!(m.formatting.is_none());

    let m = Mustache::parse_str("{a.b(c) + 1:'0'>3?}").expect("Valid parse");
    assert_eq!(text_of(&m.expr.tokens), "a . b ( c ) + 1 ");
    let f = m.formatting.expect("formatting").formatting;
    assert_eq!(f.align, Some(Align { fill: Some('0'), direction: AlignDirection::Right }));
    assert_eq!(f.width, Some(Width("3".to_string())));
    assert_eq!(f._type, FormatType::Debug);

    let m = Mustache::parse_str("{a:}").expect("Valid parse");
    assert_eq!(m.formatting.expect("formatting").formatting._type, FormatType::Display);

    let e = Mustache::parse_str("{}").expect_err("Invalid parse");
    assert_eq!((e.kind, e.position), (ErrorKind::ExpectedExpression, 0));
    let e = Mustache::parse_str("{a b}").expect_err("Invalid parse");
    assert_eq!((e.kind, e.position), (ErrorKind::UnexpectedToken, 0));
    let e = Mustache::parse_str("{a:? b}").expect_err("Invalid parse");
    assert_eq!((e.kind, e.position), (ErrorKind::UnexpectedToken, 0));
    let e = Mustache::parse_str("{a:o?}").expect_err("Invalid parse");
    assert_eq!((e.kind, e.position), (ErrorKind::ExpectedHexFlag, 0));
    let e = Mustache::parse_str("a").expect_err("Invalid parse");
    assert_eq!((e.kind, e.position), (ErrorKind::ExpectedBraces, 0));
}

#[test]
fn element_name_may_carry_more_than_identifiers() {
    let el = Element::parse_str("<List<Item> items={x} />").expect("Valid parse");
    match el {
        Element::SelfClosing(el) => {
            assert_eq!(el.name.segments, vec!["List".to_string()]);
            assert_eq!(text_of(&el.name.tokens), "List < Item > ");
            assert_eq!(el.attributes.len(), 1);
        }
        other => panic!("expected a self-closing element, found {other:?}"),
    }
}
