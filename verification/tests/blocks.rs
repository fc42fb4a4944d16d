use template_syntax::error::ErrorKind;
use template_syntax::cursor::Cursor;
use template_syntax::lexer::tokenize;
use template_syntax::syntax::jsx::{Child, Element, Root, Text};
use template_syntax::syntax::svelte::blocks::if_block::{ElseDivider, IfBlock, IfDivider};
use template_syntax::syntax::svelte::blocks::match_block::MatchBlock;
use template_syntax::syntax::svelte::blocks::Block;
use template_syntax::syntax::svelte::{inside_braces, Peek};
use template_syntax::token::{render_tokens, Token};

fn text_of(tokens: &Vec<Token>) -> String {
    render_tokens(tokens, 0)
}

fn texts(children: &Vec<Child>) -> Vec<String> {
    children
        .iter()
        .map(|c| match c {
            Child::Text(Text(t)) => text_of(t),
            other => panic!("expected text, found {other:?}"),
        })
        .collect()
}

#[test]
fn block_if_block_parsing() {
    let _blank: IfBlock =
        IfBlock::parse_str(r#"{#if bowl.has_fruit()}{/if}"#).expect("Valid parse");

    let _else: IfBlock = IfBlock::parse_str(
        r#"
        {#if bowl.has_fruit()}
            <FruitBowl fruits={bowl.fruits} />
        {:else}
            No fruit!
        {/if}"#,
    )
    .expect("Valid parse");

    let _else_if: IfBlock = IfBlock::parse_str(
        r#"
        {#if bowl.has_fruit()}
            <FruitBowl fruits={bowl.fruits} />
        {:else if bowl.has_vegetable()}
            <!-- You don't store vegetables in a bowl... -->
            <VegetableBowl vegetables={bowl.vegetables} />
        {:else}
            Nothing in this bowl!
        {/if}"#,
    )
    .expect("Valid parse");

    let _nested: IfBlock = IfBlock::parse_str(
        r#"{#if rainbow.burns(&sky.stars)}
                {#if ocean.covers(mountains.high().every())}
                    {#if Dolphin.flies() && Parrot.lives(Sea)}
                        {#if we.dream_of(Life) && Life == A(Dream)}
                            {#if Day == Night && Night == Day}
                                {#if trees.up_and_fly_away() && seas.up_and_fly_away()}
                                    {#if 8 * 8 * 8 == 4}
                                        {#if the_day().that_is(the_day().that_are(NoMore))}
                                            {#if the_earth().turning(Direction::RightToLeft)}
                                                {#if the_earth().just_for(the_sun()).denies(the_earth())}
                                                    {#if mother_nature().says("My work is through.")}
                                                        {#if the_day().that(|_| you() == me() && I() == you())}
                                                            Not loving you anymore.
                                                        {/if}
                                                    {/if}
                                                {/if}
                                            {/if}
                                        {/if}
                                    {/if}
                                {/if}
                            {/if}
                        {/if}
                    {/if}
                {/if}
            {/if}
            "#
    ).expect("Valid parse");

    println!("{_nested:#?}")
}

#[test]
fn if_block_if_block_parsing() {
    let _blank: IfBlock =
        IfBlock::parse_str(r#"{#if bowl.has_fruit()}{/if}"#).expect("Valid parse");

    let _else: IfBlock = IfBlock::parse_str(
        r#"
        {#if bowl.has_fruit()}
            <FruitBowl fruits={bowl.fruits} />
        {:else}
            No fruit!
        {/if}"#,
    )
    .expect("Valid parse");

    let _else_if: IfBlock = IfBlock::parse_str(
        r#"
        {#if bowl.has_fruit()}
            <FruitBowl fruits={bowl.fruits} />
        {:else if bowl.has_vegetable()}
            <!-- You don't store vegetables in a bowl... -->
            <VegetableBowl vegetables={bowl.vegetables} />
        {:else}
            Nothing in this bowl!
        {/if}"#,
    )
    .expect("Valid parse");

    let _nested: IfBlock = IfBlock::parse_str(
        r#"{#if rainbow.burns(&sky.stars)}
              {#if ocean.covers(mountains.high().every())}
                {#if Dolphin.flies() && Parrot.lives(Sea)}
                  {#if we.dream_of(Life) && Life == A(Dream)}
                    {#if Day == Night && Night == Day}
                      {#if trees.up_and_fly_away() && seas.up_and_fly_away()}
                        {#if 8 * 8 * 8 == 4}
                          {#if the_day().that_is(the_day().that_are(NoMore))}
                            {#if the_earth().turning(Direction::RightToLeft)}
                              {#if the_earth().just_for(the_sun()).denies(the_earth())}
                                {#if mother_nature().says("My work is through.")}
                                  {#if the_day().that(|_| you() == me() && I() == you())}
                                    Not loving you anymore.
                                  {/if}
                                {/if}
                              {/if}
                            {/if}
                          {/if}
                        {/if}
                      {/if}
                    {/if}
                  {/if}
                {/if}
              {/if}
            {/if}"#
    ).expect("Valid parse");

    let _pattern_syntax: IfBlock = IfBlock::parse_str(
     r#"{#if let Some(apple) = fruit.iter().filter_map(|f| f.as_apple()).next()}
                How'd you like this apple: {apple:?} ?
            {:else}
                No apples.
            {/if}"#
    ).expect("Valid parse");

    println!("{_pattern_syntax:?}");
}

#[test]
fn parse_match_test() {
    // Empty match block -- syntactically valid, but not semantically.
    let _empty: MatchBlock = MatchBlock::parse_str(
        r#"{#match true}{/match}"#
    ).expect("Valid parse");

    // Empty match block with comments.
    let _empty_comment: MatchBlock = MatchBlock::parse_str(
        r#"{#match 8*8*8}
                <!-- Seriously, you need to stop with the Stevie Wonder reference -- It's not funny. -->
            {/match}"#
    ).expect("Valid parse");

    // Single case divider
    let _single_case: MatchBlock = MatchBlock::parse_str(
        r#"{#match singleton_enum}
                {:case SingletonEnum::SingleVariant}
                    Single variant.
            {/match}"#
    ).expect("Valid parse");

    // Single case divider, with if guard.

    let _single_case_guard: MatchBlock = MatchBlock::parse_str(
        r#"{#match text}
                {:case Text::Ascii(l) if l == 'a'}
                    Lowercase <mono>a</mono>.
            {/match}"#
    ).expect("Valid parse");


    // Multiple case dividers.
    let _multi_case: MatchBlock = MatchBlock::parse_str(
        r#"{#match example}
                {:case Example::First}
                    First place.
                {:case Example::Second}
                    Second place.
                {:case Example::Third}
                    Third place.
                {:case _}
                    Loser variant!
            {/match}"#
    ).expect("Valid parse");

    // Complex nestsed example.
    let _nested: MatchBlock = MatchBlock::parse_str(
        r#"{#match outer}
                <!-- Outer enum match-->
                {:case Outer::Acceptable(acceptable_value)}
                    <Success>
                        {#match acceptable_value}
                            <!-- Inner enum match -->
                            {:case Acceptable::Text(txt) if !txt.is_ascii()}
                                Text contains non-ASCII characters, so we'll try our best: {txt}
                            {:case Acceptable::Text(txt) if txt.is_ascii()}
                                Acceptable text value: {txt}
                        {/match}
                    </Success>
                {:case Outer::Unacceptable(unacceptable_value)}
                    <Error>
                        {#match unacceptable_value}
                            {:case (Reason::ConnectionLost, partial)}
                                <Header>Connection lost.</Header>
                                Here's what we got before you lost connection: {partial:?}
                            {:case (Reason::Banned, partial)}
                                <Header>You were banned.</Header>
                                You tried to send {partial:?}, which is against our acceptable language guidelines.
                        {/match}
                    </Error>
            {/match}"#
    ).expect("Valid parse");
}

#[test]
fn empty_if_block_scenario() {
    let block = IfBlock::parse_str("{#if a}{/if}").expect("Valid parse");
    assert_eq!(text_of(&block.opening.expr.tokens), "a ");
    assert!(block.children.is_empty());
    assert!(block.dividers.is_empty());
}

#[test]
fn if_block_keeps_dividers_in_source_order() {
    let block = IfBlock::parse_str("{#if a} one {:else if b} two {:else} three {/if}").expect("Valid parse");
    assert_eq!(text_of(&block.opening.expr.tokens), "a ");
    assert_eq!(texts(&block.children), vec!["one "]);
    assert_eq!(block.dividers.len(), 2);
    match &block.dividers[0] {
        (IfDivider::ElseIf(divider), body) => {
            assert_eq!(text_of(&divider.expr.tokens), "b ");
            assert_eq!(texts(body), vec!["two "]);
        }
        other => panic!("expected an else-if part, found {other:?}"),
    }
    match &block.dividers[1] {
        (IfDivider::Else(ElseDivider), body) => assert_eq!(texts(body), vec!["three "]),
        other => panic!("expected an else part, found {other:?}"),
    }
    assert!(block.dividers_in_order());
}

#[test]
fn else_before_another_divider_parses_but_is_out_of_order() {
    let block = IfBlock::parse_str("{#if a}{:else} x {:else if b} y {/if}").expect("Valid parse");
    assert_eq!(block.dividers.len(), 2);
    assert!(matches!(&block.dividers[0].0, IfDivider::Else(_)));
    assert!(matches!(&block.dividers[1].0, IfDivider::ElseIf(_)));
    assert!(!block.dividers_in_order());

    let block = IfBlock::parse_str("{#if a}{:else}{:else}{/if}").expect("Valid parse");
    assert!(!block.dividers_in_order());
    let block = IfBlock::parse_str("{#if a}{:else if b}{:else if c}{/if}").expect("Valid parse");
    assert!(block.dividers_in_order());
}

#[test]
fn match_block_keeps_cases_in_source_order() {
    let block = MatchBlock::parse_str(
        "{#match x} <!-- first --> <!-- second --> {:case 0} zero {:case n if n > 0} more {:case _} {/match}",
    )
    .expect("Valid parse");
    assert_eq!(text_of(&block.opening.expr.tokens), "x ");
    assert_eq!(block.children.len(), 2);
    assert_eq!(text_of(&block.children[0].contents), "first ");
    assert_eq!(text_of(&block.children[1].contents), "second ");
    assert_eq!(block.cases.len(), 3);

    assert_eq!(text_of(&block.cases[0].0.pattern.tokens), "0 ");
    assert!(block.cases[0].0.guard.is_none());
    assert_eq!(texts(&block.cases[0].1), vec!["zero "]);

    assert_eq!(text_of(&block.cases[1].0.pattern.tokens), "n ");
    assert_eq!(text_of(&block.cases[1].0.guard.as_ref().expect("a guard").tokens), "n > 0 ");
    assert_eq!(texts(&block.cases[1].1), vec!["more "]);

    assert_eq!(text_of(&block.cases[2].0.pattern.tokens), "_ ");
    assert!(block.cases[2].0.guard.is_none());
    assert!(block.cases[2].1.is_empty());
}

#[test]
fn case_pattern_may_have_alternatives() {
    let block = MatchBlock::parse_str("{#match x}{:case | 1 | 2 if y}{/match}").expect("Valid parse");
    assert_eq!(text_of(&block.cases[0].0.pattern.tokens), "| 1 | 2 ");
    assert_eq!(text_of(&block.cases[0].0.guard.as_ref().expect("a guard").tokens), "y ");
}

#[test]
fn only_comments_may_stand_before_the_first_case() {
    let e = MatchBlock::parse_str("{#match x} text {:case 0} {/match}").expect_err("Invalid parse");
    assert_eq!((e.kind, e.position), (ErrorKind::ExpectedPunct('<'), 1));
    let e = MatchBlock::parse_str("{#match x} <a/> {:case 0} {/match}").expect_err("Invalid parse");
    assert_eq!((e.kind, e.position), (ErrorKind::ExpectedPunct('!'), 2));
}

#[test]
fn block_errors() {
    let e = IfBlock::parse_str("{#if a} x").expect_err("Invalid parse");
    assert_eq!((e.kind, e.position), (ErrorKind::UnexpectedEnd, 2));
    let e = IfBlock::parse_str("{#if} {/if}").expect_err("Invalid parse");
    assert_eq!((e.kind, e.position), (ErrorKind::ExpectedExpression, 0));
    let e = IfBlock::parse_str("{#if a b} {/if}").expect_err("Invalid parse");
    assert_eq!((e.kind, e.position), (ErrorKind::UnexpectedToken, 0));
    let e = IfBlock::parse_str("{#match a} {/match}").expect_err("Invalid parse");
    assert_eq!((e.kind, e.position), (ErrorKind::ExpectedIf, 0));
    let e = IfBlock::parse_str("{if a} {/if}").expect_err("Invalid parse");
    assert_eq!((e.kind, e.position), (ErrorKind::ExpectedPunct('#'), 0));
    let e = IfBlock::parse_str("a").expect_err("Invalid parse");
    assert_eq!((e.kind, e.position), (ErrorKind::ExpectedBraces, 0));
    let e = IfBlock::parse_str("{#if a} {/if x}").expect_err("Invalid parse");
    assert_eq!((e.kind, e.position), (ErrorKind::UnexpectedToken, 1));
    let e = IfBlock::parse_str("{#if a} {:else x} {/if}").expect_err("Invalid parse");
    assert_eq!((e.kind, e.position), (ErrorKind::UnexpectedToken, 1));
    let e = IfBlock::parse_str("{#if a} {:else if} {/if}").expect_err("Invalid parse");
    assert_eq!((e.kind, e.position), (ErrorKind::ExpectedExpression, 1));
    let e = MatchBlock::parse_str("{#match a} {:case} {/match}").expect_err("Invalid parse");
    assert_eq!((e.kind, e.position), (ErrorKind::ExpectedPattern, 1));
    let e = MatchBlock::parse_str("{#match a} {:case 1 when b} {/match}").expect_err("Invalid parse");
    assert_eq!((e.kind, e.position), (ErrorKind::ExpectedIf, 1));
    let e = MatchBlock::parse_str("{#if a} {/if}").expect_err("Invalid parse");
    assert_eq!((e.kind, e.position), (ErrorKind::ExpectedMatch, 0));
    let e = Block::parse_str("{#for a} {/for}").expect_err("Invalid parse");
    assert_eq!((e.kind, e.position), (ErrorKind::UnknownBlock, 0));
    let e = Block::parse_str("{a}").expect_err("Invalid parse");
    assert_eq!((e.kind, e.position), (ErrorKind::UnknownBlock, 0));
}

#[test]
fn blocks_nest_in_elements_and_elements_in_blocks() {
    let root = Root::parse_str("<ul>{#if a}<li>{#match b}{:case 1}<b>one</b>{/match}</li>{:else}none{/if}</ul>")
        .expect("Valid parse");
    let ul = match root {
        Root::Element(Element::Closed(ul)) => ul,
        other => panic!("expected a closed element, found {other:?}"),
    };
    assert_eq!(ul.children.len(), 1);
    let if_block = match &ul.children[0] {
        Child::Block(Block::If(block)) => block,
        other => panic!("expected an if block, found {other:?}"),
    };
    assert_eq!(if_block.children.len(), 1);
    assert_eq!(if_block.dividers.len(), 1);
    let li = match &if_block.children[0] {
        Child::Element(Element::Closed(li)) => li,
        other => panic!("expected a closed element, found {other:?}"),
    };
    assert!(matches!(&li.children[0], Child::Block(Block::Match(m)) if m.cases.len() == 1));
}

#[test]
fn a_brace_group_that_opens_no_block_is_an_interpolation() {
    let root = Root::parse_str("<p>{iffy}{#if a}{/if}</p>").expect("Valid parse");
    match root {
        Root::Element(Element::Closed(p)) => {
            assert!(matches!(&p.children[0], Child::Mustache(_)));
            assert!(matches!(&p.children[1], Child::Block(Block::If(_))));
        }
        other => panic!("expected a closed element, found {other:?}"),
    }
}

#[test]
fn peeks_look_inside_braces_without_consuming() {
    let tokens = tokenize("{#if a} {/if} {:else} {:else if b} {#match c} {/match} {:case d} x").expect("lexes");
    let at = |i: usize| Cursor::new(&tokens).advance(i);
    assert!(IfBlock::peek(at(0)) && Block::peek(at(0)) && !MatchBlock::peek(at(0)));
    assert!(IfDivider::peek(at(2)) && IfDivider::peek(at(3)) && !IfDivider::peek(at(1)));
    assert!(MatchBlock::peek(at(4)) && Block::peek(at(4)));
    assert!(!Block::peek(at(7)) && !Block::peek(at(8)));
    let inner = inside_braces(at(3)).expect("a brace group");
    assert_eq!(inner.position(), 0);
    assert_eq!(inner.remaining(), 4);
    assert_eq!(at(3).position(), 3);
    let e = inside_braces(at(7)).err().expect("no brace group");
    assert_eq!((e.kind, e.position), (ErrorKind::ExpectedBraces, 7));
}
