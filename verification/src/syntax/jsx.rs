//! Markup: elements, fragments, attributes, text and comments.

use vstd::prelude::*;
use crate::cursor::{
    complete, group_tokens, is_group, is_ident, is_joint, is_punct, is_string, left, literal_at,
    parse_source, rest_of, same_outcome, word_at, Cursor,
};
use crate::error::{
    enclosed, extend, extend_by_nothing, extend_by_one, extend_nothing, fail, ErrorKind, Parsed,
    ParseError, SpecError,
};
use crate::host::{path_end, path_shape, view_names};
use crate::lexer::{source_tokens, tokenize};
use crate::syntax::embedded::{covered, extent, parse_whole_expression, Expression};
use crate::syntax::mustache::{parse_mustache, Mustache, SpecMustache};
use crate::syntax::svelte::Peek;
use crate::syntax::svelte::blocks::{
    block_peek, children_until, children_until_stops, parse_block, parse_until, view_block, Block,
    SpecBlock,
};
use crate::token::{
    clone_literal, render, view_tokens, Delimiter, Literal, SpecLiteral, SpecToken, Token,
};

verus! {

/// The entry point of a parse: an element or a fragment.
#[derive(Debug, PartialEq, Eq)]
pub enum Root {
    Element(Element),
    Fragment(Fragment),
}

/// `<>`.
#[derive(Clone, Copy, Debug, PartialEq, Eq)]
pub struct FragmentOpening;

/// `</>`.
#[derive(Clone, Copy, Debug, PartialEq, Eq)]
pub struct FragmentClosing;

/// Children without a name or attributes: `<> ... </>`.
#[derive(Debug, PartialEq, Eq)]
pub struct Fragment {
    pub opening: FragmentOpening,
    pub children: Children,
    pub closing: FragmentClosing,
}

/// An element: closed by a matching tag, or closing itself.
#[derive(Debug, PartialEq, Eq)]
pub enum Element {
    Closed(ClosedElement),
    SelfClosing(SelfClosingElement),
}

/// `<Name ...> ... </Name>`.
#[derive(Debug, PartialEq, Eq)]
pub struct ClosedElement {
    pub opening: OpeningElement,
    pub children: Children,
    pub closing: ClosingElement,
}

/// `<Name ... />`.
#[derive(Debug, PartialEq, Eq)]
pub struct SelfClosingElement {
    pub name: ElementName,
    pub attributes: Attributes,
}

/// `<Name ...>`.
#[derive(Debug, PartialEq, Eq)]
pub struct OpeningElement {
    pub name: ElementName,
    pub attributes: Attributes,
}

/// `</Name>`.
#[derive(Debug, PartialEq, Eq)]
pub struct ClosingElement {
    pub name: ElementName,
}

/// The name of an element, a single identifier or a path: the identifiers
/// of its segments, and the tokens it is written with.
#[derive(Debug, PartialEq, Eq)]
pub struct ElementName {
    pub segments: Vec<String>,
    pub tokens: Vec<Token>,
}

/// The attributes of an element, in source order.
pub type Attributes = Vec<Attribute>;

/// An identifier, as text.
pub type Identifier = String;

/// One attribute of an element.
#[derive(Debug, PartialEq, Eq)]
pub enum Attribute {
    Spread(SpreadAttribute),
    Named(NamedAttribute),
}

/// `{..expression}`.
#[derive(Debug, PartialEq, Eq)]
pub struct SpreadAttribute {
    pub expr: Expression,
}

/// `key` or `key=value`. Without a value the attribute is a flag.
#[derive(Debug, PartialEq, Eq)]
pub struct NamedAttribute {
    pub key: Identifier,
    pub initializer: Option<AttributeInitializer>,
}

/// `=value`.
#[derive(Debug, PartialEq, Eq)]
pub struct AttributeInitializer {
    pub value: AttributeValue,
}

/// The value of an attribute: a string literal or a braced expression.
#[derive(Debug, PartialEq, Eq)]
pub enum AttributeValue {
    LitStr(Literal),
    Expr(ExprAttributeValue),
}

/// `{expression}` as the value of an attribute.
#[derive(Debug, PartialEq, Eq)]
pub struct ExprAttributeValue {
    pub expr: Expression,
}

/// Children, in source order.
pub type Children = Vec<Child>;

/// One node between the tags of an element, or in the body of a block.
#[derive(Debug, PartialEq, Eq)]
pub enum Child {
    Text(Text),
    Element(Element),
    Fragment(Fragment),
    Mustache(Mustache),
    Comment(Comment),
    Block(Block),
}

/// A run of tokens, none of which is `<`, `>` or a brace group.
#[derive(Debug, PartialEq, Eq)]
pub struct Text(pub Vec<Token>);

/// `<!--`.
#[derive(Clone, Copy, Debug, PartialEq, Eq)]
pub struct OpenComment;

/// `-->`.
#[derive(Clone, Copy, Debug, PartialEq, Eq)]
pub struct CloseComment;

/// A comment: `<!-- anything -->`.
#[derive(Debug, PartialEq, Eq)]
pub struct Comment {
    pub open: OpenComment,
    pub contents: Vec<Token>,
    pub closing: CloseComment,
}

/// The view of an element name.
pub struct SpecElementName {
    pub segments: Seq<Seq<char>>,
    pub tokens: Seq<SpecToken>,
}

/// The view of an attribute value.
pub enum SpecAttributeValue {
    LitStr(SpecLiteral),
    Expr(Seq<SpecToken>),
}

/// The view of an attribute.
pub enum SpecAttribute {
    Spread(Seq<SpecToken>),
    Named(Seq<char>, Option<SpecAttributeValue>),
}

/// The view of an opening tag.
pub struct SpecOpeningElement {
    pub name: SpecElementName,
    pub attributes: Seq<SpecAttribute>,
}

/// The view of a closed element.
pub struct SpecClosedElement {
    pub opening: SpecOpeningElement,
    pub children: Seq<SpecChild>,
    pub closing: SpecElementName,
}

/// The view of a self-closing element.
pub struct SpecSelfClosingElement {
    pub name: SpecElementName,
    pub attributes: Seq<SpecAttribute>,
}

/// The view of an element.
pub enum SpecElement {
    Closed(SpecClosedElement),
    SelfClosing(SpecSelfClosingElement),
}

/// The view of a fragment.
pub struct SpecFragment {
    pub children: Seq<SpecChild>,
}

/// The view of a root.
pub enum SpecRoot {
    Element(SpecElement),
    Fragment(SpecFragment),
}

/// The view of a child.
pub enum SpecChild {
    Text(Seq<SpecToken>),
    Element(SpecElement),
    Fragment(SpecFragment),
    Mustache(SpecMustache),
    Comment(Seq<SpecToken>),
    Block(SpecBlock),
}

impl View for FragmentOpening {
    type V = FragmentOpening;

    open spec fn view(&self) -> FragmentOpening {
        *self
    }
}

impl View for FragmentClosing {
    type V = FragmentClosing;

    open spec fn view(&self) -> FragmentClosing {
        *self
    }
}

impl View for OpenComment {
    type V = OpenComment;

    open spec fn view(&self) -> OpenComment {
        *self
    }
}

impl View for CloseComment {
    type V = CloseComment;

    open spec fn view(&self) -> CloseComment {
        *self
    }
}

impl View for ElementName {
    type V = SpecElementName;

    open spec fn view(&self) -> SpecElementName {
        SpecElementName { segments: view_names(self.segments@), tokens: view_tokens(self.tokens@) }
    }
}

impl View for ExprAttributeValue {
    type V = Seq<SpecToken>;

    open spec fn view(&self) -> Seq<SpecToken> {
        self.expr@
    }
}

impl View for AttributeValue {
    type V = SpecAttributeValue;

    open spec fn view(&self) -> SpecAttributeValue {
        match self {
            AttributeValue::LitStr(lit) => SpecAttributeValue::LitStr(lit@),
            AttributeValue::Expr(value) => SpecAttributeValue::Expr(value@),
        }
    }
}

impl View for AttributeInitializer {
    type V = SpecAttributeValue;

    open spec fn view(&self) -> SpecAttributeValue {
        self.value@
    }
}

impl View for SpreadAttribute {
    type V = Seq<SpecToken>;

    open spec fn view(&self) -> Seq<SpecToken> {
        self.expr@
    }
}

impl View for NamedAttribute {
    type V = SpecAttribute;

    open spec fn view(&self) -> SpecAttribute {
        SpecAttribute::Named(
            self.key@,
            match self.initializer {
                Some(initializer) => Some(initializer@),
                None => None,
            },
        )
    }
}

impl View for Attribute {
    type V = SpecAttribute;

    open spec fn view(&self) -> SpecAttribute {
        match self {
            Attribute::Spread(spread) => SpecAttribute::Spread(spread@),
            Attribute::Named(named) => named@,
        }
    }
}

/// The view of a list of attributes.
pub open spec fn view_attributes(attributes: Seq<Attribute>) -> Seq<SpecAttribute> {
    Seq::new(attributes.len(), |i: int| attributes[i]@)
}

impl View for OpeningElement {
    type V = SpecOpeningElement;

    open spec fn view(&self) -> SpecOpeningElement {
        SpecOpeningElement { name: self.name@, attributes: view_attributes(self.attributes@) }
    }
}

impl View for ClosingElement {
    type V = SpecElementName;

    open spec fn view(&self) -> SpecElementName {
        self.name@
    }
}

impl View for SelfClosingElement {
    type V = SpecSelfClosingElement;

    open spec fn view(&self) -> SpecSelfClosingElement {
        SpecSelfClosingElement { name: self.name@, attributes: view_attributes(self.attributes@) }
    }
}

impl View for Text {
    type V = Seq<SpecToken>;

    open spec fn view(&self) -> Seq<SpecToken> {
        view_tokens(self.0@)
    }
}

impl View for Comment {
    type V = Seq<SpecToken>;

    open spec fn view(&self) -> Seq<SpecToken> {
        view_tokens(self.contents@)
    }
}

/// The view of a list of comments.
pub open spec fn view_comments(comments: Seq<Comment>) -> Seq<Seq<SpecToken>> {
    Seq::new(comments.len(), |i: int| comments[i]@)
}

/// The view of a child.
pub open spec fn view_child(child: Child) -> SpecChild
    decreases child,
{
    match child {
        Child::Text(text) => SpecChild::Text(text@),
        Child::Element(element) => SpecChild::Element(view_element(element)),
        Child::Fragment(fragment) => SpecChild::Fragment(view_fragment(fragment)),
        Child::Mustache(mustache) => SpecChild::Mustache(mustache@),
        Child::Comment(comment) => SpecChild::Comment(comment@),
        Child::Block(block) => SpecChild::Block(view_block(block)),
    }
}

/// The view of a list of children: the view of each, in order.
pub open spec fn view_children(children: Seq<Child>) -> Seq<SpecChild>
    decreases children,
{
    Seq::new(
        children.len(),
        |i: int|
            if 0 <= i < children.len() {
                view_child(children[i])
            } else {
                SpecChild::Text(Seq::empty())
            },
    )
}

/// The view of an element.
pub open spec fn view_element(element: Element) -> SpecElement
    decreases element,
{
    match element {
        Element::Closed(closed) => SpecElement::Closed(
            SpecClosedElement {
                opening: closed.opening@,
                children: view_children(closed.children@),
                closing: closed.closing@,
            },
        ),
        Element::SelfClosing(element) => SpecElement::SelfClosing(element@),
    }
}

/// The view of a fragment.
pub open spec fn view_fragment(fragment: Fragment) -> SpecFragment
    decreases fragment,
{
    SpecFragment { children: view_children(fragment.children@) }
}

impl View for Child {
    type V = SpecChild;

    open spec fn view(&self) -> SpecChild {
        view_child(*self)
    }
}

impl View for Element {
    type V = SpecElement;

    open spec fn view(&self) -> SpecElement {
        view_element(*self)
    }
}

impl View for ClosedElement {
    type V = SpecClosedElement;

    open spec fn view(&self) -> SpecClosedElement {
        SpecClosedElement {
            opening: self.opening@,
            children: view_children(self.children@),
            closing: self.closing@,
        }
    }
}

impl View for Fragment {
    type V = SpecFragment;

    open spec fn view(&self) -> SpecFragment {
        view_fragment(*self)
    }
}

impl View for Root {
    type V = SpecRoot;

    open spec fn view(&self) -> SpecRoot {
        match self {
            Root::Element(element) => SpecRoot::Element(element@),
            Root::Fragment(fragment) => SpecRoot::Fragment(fragment@),
        }
    }
}

/// The element name at `pos`: the path that the host parser finds there.
pub open spec fn parse_name(tokens: Seq<SpecToken>, pos: int) -> Parsed<SpecElementName> {
    match path_shape(render(rest_of(tokens, pos))) {
        Some((segments, rest)) => match extent(Some(rest), tokens.len() - pos) {
            Some(n) => Ok(
                (SpecElementName { segments, tokens: tokens.subrange(pos, pos + n) }, n),
            ),
            None => fail(ErrorKind::ExpectedName, pos),
        },
        None => fail(ErrorKind::ExpectedName, pos),
    }
}

/// `{..expression}` at `pos`: the expression.
pub open spec fn parse_spread(tokens: Seq<SpecToken>, pos: int) -> Parsed<Seq<SpecToken>> {
    if !is_group(tokens, pos, Delimiter::Brace) {
        fail(ErrorKind::ExpectedBraces, pos)
    } else if !(is_joint(group_tokens(tokens, pos), 0, '.') && is_punct(
        group_tokens(tokens, pos),
        1,
        '.',
    )) {
        fail(ErrorKind::ExpectedPunct('.'), pos)
    } else {
        enclosed(pos, parse_whole_expression(group_tokens(tokens, pos), 2))
    }
}

/// `{expression}` at `pos`, as the value of an attribute: the expression.
pub open spec fn parse_braced_value(tokens: Seq<SpecToken>, pos: int) -> Parsed<Seq<SpecToken>> {
    if !is_group(tokens, pos, Delimiter::Brace) {
        fail(ErrorKind::ExpectedBraces, pos)
    } else {
        enclosed(pos, parse_whole_expression(group_tokens(tokens, pos), 0))
    }
}

/// The attribute value at `pos`: a string literal, or a braced expression.
pub open spec fn parse_attribute_value(tokens: Seq<SpecToken>, pos: int) -> Parsed<
    SpecAttributeValue,
> {
    if is_string(tokens, pos) {
        Ok((SpecAttributeValue::LitStr(literal_at(tokens, pos)), 1))
    } else if is_group(tokens, pos, Delimiter::Brace) {
        match parse_braced_value(tokens, pos) {
            Ok((expression, n)) => Ok((SpecAttributeValue::Expr(expression), n)),
            Err(e) => Err(e),
        }
    } else {
        fail(ErrorKind::ExpectedAttributeValue, pos)
    }
}

/// `=value` at `pos`.
pub open spec fn parse_initializer(tokens: Seq<SpecToken>, pos: int) -> Parsed<
    SpecAttributeValue,
> {
    if !is_punct(tokens, pos, '=') {
        fail(ErrorKind::ExpectedPunct('='), pos)
    } else {
        match parse_attribute_value(tokens, pos + 1) {
            Ok((value, n)) => Ok((value, n + 1)),
            Err(e) => Err(e),
        }
    }
}

/// `key` or `key=value` at `pos`.
pub open spec fn parse_named(tokens: Seq<SpecToken>, pos: int) -> Parsed<SpecAttribute> {
    if !is_ident(tokens, pos) {
        fail(ErrorKind::ExpectedIdentifier, pos)
    } else if is_punct(tokens, pos + 1, '=') {
        match parse_initializer(tokens, pos + 1) {
            Ok((value, n)) => Ok((SpecAttribute::Named(word_at(tokens, pos), Some(value)), n + 1)),
            Err(e) => Err(e),
        }
    } else {
        Ok((SpecAttribute::Named(word_at(tokens, pos), None), 1))
    }
}

/// The attribute at `pos`: a spread where a brace group is next, a named
/// attribute where an identifier is next.
pub open spec fn parse_attribute(tokens: Seq<SpecToken>, pos: int) -> Parsed<SpecAttribute> {
    if is_group(tokens, pos, Delimiter::Brace) {
        match parse_spread(tokens, pos) {
            Ok((expression, n)) => Ok((SpecAttribute::Spread(expression), n)),
            Err(e) => Err(e),
        }
    } else if is_ident(tokens, pos) {
        parse_named(tokens, pos)
    } else {
        fail(ErrorKind::ExpectedAttribute, pos)
    }
}

/// Whether the list of attributes ends at `pos`: `>` or `/` is next.
pub open spec fn attributes_end(tokens: Seq<SpecToken>, pos: int) -> bool {
    is_punct(tokens, pos, '>') || is_punct(tokens, pos, '/')
}

/// The attributes from `pos` on, up to the `>` or `/` that ends them.
pub open spec fn parse_attributes(tokens: Seq<SpecToken>, pos: int) -> Parsed<Seq<SpecAttribute>>
    decreases left(tokens, pos),
{
    if attributes_end(tokens, pos) {
        Ok((Seq::empty(), 0))
    } else {
        match parse_attribute(tokens, pos) {
            Err(e) => Err(e),
            Ok((attribute, n)) => extend(seq![attribute], n, parse_attributes(tokens, pos + n)),
        }
    }
}

/// Where a list of attributes ends, `>` or `/` is next.
pub proof fn attributes_stop(tokens: Seq<SpecToken>, pos: int)
    ensures
        parse_attributes(tokens, pos) matches Ok((_, n)) ==> attributes_end(tokens, pos + n),
    decreases left(tokens, pos),
{
    if !attributes_end(tokens, pos) {
        if let Ok((_, n)) = parse_attribute(tokens, pos) {
            attributes_stop(tokens, pos + n);
        }
    }
}

/// `<`, a name and attributes at `pos`: what an opening tag and a
/// self-closing element start with.
pub open spec fn parse_tag_head(tokens: Seq<SpecToken>, pos: int) -> Parsed<SpecOpeningElement> {
    if !is_punct(tokens, pos, '<') {
        fail(ErrorKind::ExpectedPunct('<'), pos)
    } else {
        match parse_name(tokens, pos + 1) {
            Err(e) => Err(e),
            Ok((name, n)) => match parse_attributes(tokens, pos + 1 + n) {
                Err(e) => Err(e),
                Ok((attributes, m)) => Ok((SpecOpeningElement { name, attributes }, 1 + n + m)),
            },
        }
    }
}

/// `<Name ...>` at `pos`.
pub open spec fn parse_opening(tokens: Seq<SpecToken>, pos: int) -> Parsed<SpecOpeningElement> {
    match parse_tag_head(tokens, pos) {
        Err(e) => Err(e),
        Ok((head, n)) => if is_punct(tokens, pos + n, '>') {
            Ok((head, n + 1))
        } else {
            fail(ErrorKind::ExpectedPunct('>'), pos + n)
        },
    }
}

/// `<Name ... />` at `pos`.
pub open spec fn parse_self_closing(tokens: Seq<SpecToken>, pos: int) -> Parsed<
    SpecSelfClosingElement,
> {
    match parse_tag_head(tokens, pos) {
        Err(e) => Err(e),
        Ok((head, n)) => if !is_punct(tokens, pos + n, '/') {
            fail(ErrorKind::ExpectedPunct('/'), pos + n)
        } else if !is_punct(tokens, pos + n + 1, '>') {
            fail(ErrorKind::ExpectedPunct('>'), pos + n + 1)
        } else {
            Ok((SpecSelfClosingElement { name: head.name, attributes: head.attributes }, n + 2))
        },
    }
}

/// `</Name>` at `pos`: the name.
pub open spec fn parse_closing(tokens: Seq<SpecToken>, pos: int) -> Parsed<SpecElementName> {
    if !is_punct(tokens, pos, '<') {
        fail(ErrorKind::ExpectedPunct('<'), pos)
    } else if !is_punct(tokens, pos + 1, '/') {
        fail(ErrorKind::ExpectedPunct('/'), pos + 1)
    } else {
        match parse_name(tokens, pos + 2) {
            Err(e) => Err(e),
            Ok((name, n)) => if is_punct(tokens, pos + 2 + n, '>') {
                Ok((name, n + 3))
            } else {
                fail(ErrorKind::ExpectedPunct('>'), pos + 2 + n)
            },
        }
    }
}

/// Whether two names agree: segment by segment their identifiers are equal,
/// as far as both reach.
pub open spec fn names_agree(a: Seq<Seq<char>>, b: Seq<Seq<char>>) -> bool {
    forall|i: int| 0 <= i < a.len() && 0 <= i < b.len() ==> a[i] == b[i]
}

/// Whether the closing tag of an element with the name `name` is at `pos`:
/// `<`, `/` and an identifier are next, and the name that starts there
/// agrees with `name`.
pub open spec fn closing_tag_peek(tokens: Seq<SpecToken>, pos: int, name: Seq<Seq<char>>) -> bool {
    &&& is_punct(tokens, pos, '<')
    &&& is_punct(tokens, pos + 1, '/')
    &&& is_ident(tokens, pos + 2)
    &&& parse_name(tokens, pos + 2) matches Ok((closing, _))
    &&& names_agree(closing.segments, name)
}

/// Whether a run of text stops at `pos`: `<`, `>` or a brace group is next.
pub open spec fn text_end(tokens: Seq<SpecToken>, pos: int) -> bool {
    is_punct(tokens, pos, '<') || is_punct(tokens, pos, '>') || is_group(
        tokens,
        pos,
        Delimiter::Brace,
    )
}

/// How many tokens the run of text at `pos` holds, or `None` where the
/// tokens end before the text does.
pub open spec fn text_run(tokens: Seq<SpecToken>, pos: int) -> Option<nat>
    decreases left(tokens, pos),
{
    if !(0 <= pos < tokens.len()) {
        None
    } else if text_end(tokens, pos) {
        Some(0)
    } else {
        match text_run(tokens, pos + 1) {
            Some(n) => Some(n + 1),
            None => None,
        }
    }
}

/// The text at `pos`: the tokens up to the next `<`, `>` or brace group.
pub open spec fn parse_text(tokens: Seq<SpecToken>, pos: int) -> Parsed<Seq<SpecToken>> {
    match text_run(tokens, pos) {
        Some(n) => Ok((tokens.subrange(pos, pos + n), n)),
        None => fail(ErrorKind::UnexpectedEnd, tokens.len() as int),
    }
}

/// Whether `<!--` is at `pos`.
pub open spec fn comment_peek(tokens: Seq<SpecToken>, pos: int) -> bool {
    &&& is_punct(tokens, pos, '<')
    &&& is_punct(tokens, pos + 1, '!')
    &&& is_punct(tokens, pos + 2, '-')
    &&& is_punct(tokens, pos + 3, '-')
}

/// Whether `-->` is at `pos`.
pub open spec fn comment_end(tokens: Seq<SpecToken>, pos: int) -> bool {
    &&& is_punct(tokens, pos, '-')
    &&& is_punct(tokens, pos + 1, '-')
    &&& is_punct(tokens, pos + 2, '>')
}

/// How many tokens stand between `pos` and the next `-->`, or `None` where
/// there is none.
pub open spec fn comment_run(tokens: Seq<SpecToken>, pos: int) -> Option<nat>
    decreases left(tokens, pos),
{
    if !(0 <= pos < tokens.len()) {
        None
    } else if comment_end(tokens, pos) {
        Some(0)
    } else {
        match comment_run(tokens, pos + 1) {
            Some(n) => Some(n + 1),
            None => None,
        }
    }
}

/// `<!--` at `pos`.
pub open spec fn parse_open_comment(tokens: Seq<SpecToken>, pos: int) -> Parsed<OpenComment> {
    if !is_punct(tokens, pos, '<') {
        fail(ErrorKind::ExpectedPunct('<'), pos)
    } else if !is_punct(tokens, pos + 1, '!') {
        fail(ErrorKind::ExpectedPunct('!'), pos + 1)
    } else if !is_punct(tokens, pos + 2, '-') {
        fail(ErrorKind::ExpectedPunct('-'), pos + 2)
    } else if !is_punct(tokens, pos + 3, '-') {
        fail(ErrorKind::ExpectedPunct('-'), pos + 3)
    } else {
        Ok((OpenComment, 4))
    }
}

/// `-->` at `pos`.
pub open spec fn parse_close_comment(tokens: Seq<SpecToken>, pos: int) -> Parsed<CloseComment> {
    if !is_punct(tokens, pos, '-') {
        fail(ErrorKind::ExpectedPunct('-'), pos)
    } else if !is_punct(tokens, pos + 1, '-') {
        fail(ErrorKind::ExpectedPunct('-'), pos + 1)
    } else if !is_punct(tokens, pos + 2, '>') {
        fail(ErrorKind::ExpectedPunct('>'), pos + 2)
    } else {
        Ok((CloseComment, 3))
    }
}

/// `<>` at `pos`.
pub open spec fn parse_fragment_opening(tokens: Seq<SpecToken>, pos: int) -> Parsed<
    FragmentOpening,
> {
    if !is_punct(tokens, pos, '<') {
        fail(ErrorKind::ExpectedPunct('<'), pos)
    } else if !is_punct(tokens, pos + 1, '>') {
        fail(ErrorKind::ExpectedPunct('>'), pos + 1)
    } else {
        Ok((FragmentOpening, 2))
    }
}

/// `</>` at `pos`.
pub open spec fn parse_fragment_closing(tokens: Seq<SpecToken>, pos: int) -> Parsed<
    FragmentClosing,
> {
    if !is_punct(tokens, pos, '<') {
        fail(ErrorKind::ExpectedPunct('<'), pos)
    } else if !is_punct(tokens, pos + 1, '/') {
        fail(ErrorKind::ExpectedPunct('/'), pos + 1)
    } else if !is_punct(tokens, pos + 2, '>') {
        fail(ErrorKind::ExpectedPunct('>'), pos + 2)
    } else {
        Ok((FragmentClosing, 3))
    }
}

/// The comment at `pos`: the tokens between `<!--` and the next `-->`.
pub open spec fn parse_comment(tokens: Seq<SpecToken>, pos: int) -> Parsed<Seq<SpecToken>> {
    match parse_open_comment(tokens, pos) {
        Err(e) => Err(e),
        Ok(_) => match comment_run(tokens, pos + 4) {
            Some(n) => Ok((tokens.subrange(pos + 4, pos + 4 + n), 4 + n + 3)),
            None => fail(ErrorKind::UnexpectedEnd, tokens.len() as int),
        },
    }
}

/// The comments from `pos` on, up to the place where `S` is next.
pub open spec fn comments_until<S: Peek>(tokens: Seq<SpecToken>, pos: int) -> Parsed<
    Seq<Seq<SpecToken>>,
>
    decreases left(tokens, pos),
{
    if S::peeks(tokens, pos) {
        Ok((Seq::empty(), 0))
    } else {
        match parse_comment(tokens, pos) {
            Err(e) => Err(e),
            Ok((comment, n)) => extend(seq![comment], n, comments_until::<S>(tokens, pos + n)),
        }
    }
}

/// Whether `</>` is at `pos`.
pub open spec fn fragment_closing_peek(tokens: Seq<SpecToken>, pos: int) -> bool {
    &&& is_punct(tokens, pos, '<')
    &&& is_punct(tokens, pos + 1, '/')
    &&& is_punct(tokens, pos + 2, '>')
}

impl Peek for FragmentClosing {
    open spec fn peeks(tokens: Seq<SpecToken>, pos: int) -> bool {
        fragment_closing_peek(tokens, pos)
    }

    fn peek<'a>(input: Cursor<'a>) -> (yes: bool) {
        input.peek_punct(1, '<') && input.peek_punct(2, '/') && input.peek_punct(3, '>')
    }
}

/// The child at `pos`. The first of these that applies decides: `<>` starts
/// a fragment, `<` and an identifier an element, a brace group that opens
/// no block an interpolation, `<!--` a comment, a brace group that opens a
/// block a block; anything else is text.
pub open spec fn parse_child(tokens: Seq<SpecToken>, pos: int) -> Parsed<SpecChild>
    decreases left(tokens, pos), 2nat,
{
    if is_punct(tokens, pos, '<') && is_punct(tokens, pos + 1, '>') {
        match parse_fragment(tokens, pos) {
            Ok((fragment, n)) => Ok((SpecChild::Fragment(fragment), n)),
            Err(e) => Err(e),
        }
    } else if is_punct(tokens, pos, '<') && is_ident(tokens, pos + 1) {
        match parse_element(tokens, pos) {
            Ok((element, n)) => Ok((SpecChild::Element(element), n)),
            Err(e) => Err(e),
        }
    } else if is_group(tokens, pos, Delimiter::Brace) && !block_peek(tokens, pos) {
        match parse_mustache(tokens, pos) {
            Ok((mustache, n)) => Ok((SpecChild::Mustache(mustache), n)),
            Err(e) => Err(e),
        }
    } else if comment_peek(tokens, pos) {
        match parse_comment(tokens, pos) {
            Ok((comment, n)) => Ok((SpecChild::Comment(comment), n)),
            Err(e) => Err(e),
        }
    } else if block_peek(tokens, pos) {
        match parse_block(tokens, pos) {
            Ok((block, n)) => Ok((SpecChild::Block(block), n)),
            Err(e) => Err(e),
        }
    } else {
        match parse_text(tokens, pos) {
            Ok((text, n)) => Ok((SpecChild::Text(text), n)),
            Err(e) => Err(e),
        }
    }
}

/// The fragment at `pos`: `<>`, children up to `</>`, and `</>`.
pub open spec fn parse_fragment(tokens: Seq<SpecToken>, pos: int) -> Parsed<SpecFragment>
    decreases left(tokens, pos), 1nat,
{
    if !is_punct(tokens, pos, '<') {
        fail(ErrorKind::ExpectedPunct('<'), pos)
    } else if !is_punct(tokens, pos + 1, '>') {
        fail(ErrorKind::ExpectedPunct('>'), pos + 1)
    } else {
        match children_until::<FragmentClosing>(tokens, pos + 2) {
            Err(e) => Err(e),
            Ok((children, n)) => Ok((SpecFragment { children }, 2 + n + 3)),
        }
    }
}

/// The element at `pos`. What follows `<`, the name and the attributes
/// decides: `/` makes it self-closing; else it is `>`, which makes it
/// closed.
pub open spec fn parse_element(tokens: Seq<SpecToken>, pos: int) -> Parsed<SpecElement>
    decreases left(tokens, pos), 1nat,
{
    match parse_tag_head(tokens, pos) {
        Err(e) => Err(e),
        Ok((_, n)) => if is_punct(tokens, pos + n, '/') {
            match parse_self_closing(tokens, pos) {
                Ok((element, m)) => Ok((SpecElement::SelfClosing(element), m)),
                Err(e) => Err(e),
            }
        } else {
            match parse_closed(tokens, pos) {
                Ok((element, m)) => Ok((SpecElement::Closed(element), m)),
                Err(e) => Err(e),
            }
        },
    }
}

/// The children of the element that opened at `opened` with the name
/// `name`, from `pos` on, up to its closing tag. Where the tokens end, or a
/// token comes that no child starts with, before that tag is found, the
/// element is unclosed.
pub open spec fn closed_children(
    tokens: Seq<SpecToken>,
    pos: int,
    name: Seq<Seq<char>>,
    opened: int,
) -> Parsed<Seq<SpecChild>>
    decreases left(tokens, pos), 3nat,
{
    if !(0 <= pos < tokens.len()) {
        fail(ErrorKind::UnclosedElement, opened)
    } else if closing_tag_peek(tokens, pos, name) {
        Ok((Seq::empty(), 0))
    } else {
        match parse_child(tokens, pos) {
            Err(e) => Err(e),
            Ok((child, n)) => if n == 0 {
                fail(ErrorKind::UnclosedElement, opened)
            } else {
                extend(seq![child], n, closed_children(tokens, pos + n, name, opened))
            },
        }
    }
}

/// The closed element at `pos`: an opening tag, children, and the closing
/// tag whose name agrees with that of the opening tag.
pub open spec fn parse_closed(tokens: Seq<SpecToken>, pos: int) -> Parsed<SpecClosedElement>
    decreases left(tokens, pos), 0nat,
{
    match parse_opening(tokens, pos) {
        Err(e) => Err(e),
        Ok((opening, n)) => match closed_children(tokens, pos + n, opening.name.segments, pos) {
            Err(e) => Err(e),
            Ok((children, m)) => match parse_closing(tokens, pos + n + m) {
                Err(e) => Err(e),
                Ok((closing, k)) => Ok(
                    (SpecClosedElement { opening, children, closing }, n + m + k),
                ),
            },
        },
    }
}

/// The root at `pos`: `<>` starts a fragment, `<` and an identifier an
/// element.
pub open spec fn parse_root(tokens: Seq<SpecToken>, pos: int) -> Parsed<SpecRoot> {
    if is_punct(tokens, pos, '<') && is_punct(tokens, pos + 1, '>') {
        match parse_fragment(tokens, pos) {
            Ok((fragment, n)) => Ok((SpecRoot::Fragment(fragment), n)),
            Err(e) => Err(e),
        }
    } else if is_punct(tokens, pos, '<') && is_ident(tokens, pos + 1) {
        match parse_element(tokens, pos) {
            Ok((element, n)) => Ok((SpecRoot::Element(element), n)),
            Err(e) => Err(e),
        }
    } else {
        fail(ErrorKind::ExpectedRoot, pos)
    }
}

impl ElementName {
    /// Parses the name of an element: asks the host parser for the path
    /// that starts here, and keeps its identifiers and the tokens it covers.
    pub fn parse<'a>(input: Cursor<'a>) -> (r: Result<(ElementName, Cursor<'a>), ParseError>)
        ensures
            input.yields(r, parse_name(input@, input.index() as int)),
    {
        let text = input.render_rest();
        match path_end(text.as_str()) {
            Some((segments, rest)) => match covered(&input, Some(rest)) {
                Some(n) => Ok(
                    (ElementName { segments, tokens: input.take(n) }, input.advance(n)),
                ),
                None => Err(input.error(ErrorKind::ExpectedName)),
            },
            None => Err(input.error(ErrorKind::ExpectedName)),
        }
    }

    /// Whether this name and `other` agree: segment by segment their
    /// identifiers are equal, as far as both reach.
    pub fn agrees_with(&self, other: &ElementName) -> (yes: bool)
        ensures
            yes == names_agree(self@.segments, other@.segments),
    {
        let mut i: usize = 0;
        while i < self.segments.len() && i < other.segments.len()
            invariant
                forall|k: int|
                    0 <= k < i ==> (#[trigger] self.segments@[k])@ == other.segments@[k]@,
            decreases self.segments@.len() - i,
        {
            if self.segments[i] != other.segments[i] {
                assert(self@.segments[i as int] != other@.segments[i as int]);
                return false;
            }
            i += 1;
        }
        true
    }
}

impl SpreadAttribute {
    /// Parses `{..expression}`.
    pub fn parse<'a>(input: Cursor<'a>) -> (r: Result<(SpreadAttribute, Cursor<'a>), ParseError>)
        ensures
            input.yields(r, parse_spread(input@, input.index() as int)),
    {
        let (inner, rest) = match input.enter(Delimiter::Brace) {
            Some(opened) => opened,
            None => {
                return Err(input.error(ErrorKind::ExpectedBraces));
            },
        };
        if !(inner.peek_joint(1, '.') && inner.peek_punct(2, '.')) {
            return Err(input.error(ErrorKind::ExpectedPunct('.')));
        }
        match Expression::parse_whole(inner.advance(2)) {
            Ok((expr, _)) => Ok((SpreadAttribute { expr }, rest)),
            Err(e) => Err(input.error(e.kind)),
        }
    }
}

impl ExprAttributeValue {
    /// Parses `{expression}`.
    pub fn parse<'a>(input: Cursor<'a>) -> (r: Result<
        (ExprAttributeValue, Cursor<'a>),
        ParseError,
    >)
        ensures
            input.yields(r, parse_braced_value(input@, input.index() as int)),
    {
        let (inner, rest) = match input.enter(Delimiter::Brace) {
            Some(opened) => opened,
            None => {
                return Err(input.error(ErrorKind::ExpectedBraces));
            },
        };
        match Expression::parse_whole(inner) {
            Ok((expr, _)) => Ok((ExprAttributeValue { expr }, rest)),
            Err(e) => Err(input.error(e.kind)),
        }
    }
}

impl AttributeValue {
    /// Parses a string literal or a braced expression.
    pub fn parse<'a>(input: Cursor<'a>) -> (r: Result<(AttributeValue, Cursor<'a>), ParseError>)
        ensures
            input.yields(r, parse_attribute_value(input@, input.index() as int)),
    {
        if input.peek_string(1) {
            if let Some(Token::Literal(lit)) = input.peek(1) {
                return Ok((AttributeValue::LitStr(clone_literal(lit)), input.advance(1)));
            }
        }
        if input.peek_group(1, Delimiter::Brace) {
            return match ExprAttributeValue::parse(input) {
                Ok((value, rest)) => Ok((AttributeValue::Expr(value), rest)),
                Err(e) => Err(e),
            };
        }
        Err(input.error(ErrorKind::ExpectedAttributeValue))
    }
}

impl AttributeInitializer {
    /// Parses `=value`.
    pub fn parse<'a>(input: Cursor<'a>) -> (r: Result<
        (AttributeInitializer, Cursor<'a>),
        ParseError,
    >)
        ensures
            input.yields(r, parse_initializer(input@, input.index() as int)),
    {
        if !input.peek_punct(1, '=') {
            return Err(input.error(ErrorKind::ExpectedPunct('=')));
        }
        match AttributeValue::parse(input.advance(1)) {
            Ok((value, rest)) => Ok((AttributeInitializer { value }, rest)),
            Err(e) => Err(e),
        }
    }
}

impl NamedAttribute {
    /// Parses `key` or `key=value`.
    pub fn parse<'a>(input: Cursor<'a>) -> (r: Result<(NamedAttribute, Cursor<'a>), ParseError>)
        ensures
            input.yields(r, parse_named(input@, input.index() as int)),
    {
        let key = match input.peek(1) {
            Some(Token::Ident(name)) => name.clone(),
            _ => {
                return Err(input.error(ErrorKind::ExpectedIdentifier));
            },
        };
        let behind = input.advance(1);
        if behind.peek_punct(1, '=') {
            match AttributeInitializer::parse(behind) {
                Ok((initializer, rest)) => Ok(
                    (NamedAttribute { key, initializer: Some(initializer) }, rest),
                ),
                Err(e) => Err(e),
            }
        } else {
            Ok((NamedAttribute { key, initializer: None }, behind))
        }
    }
}

impl Attribute {
    /// Parses one attribute: a spread where a brace group is next, a named
    /// attribute where an identifier is next.
    pub fn parse<'a>(input: Cursor<'a>) -> (r: Result<(Attribute, Cursor<'a>), ParseError>)
        ensures
            input.yields(r, parse_attribute(input@, input.index() as int)),
    {
        if input.peek_group(1, Delimiter::Brace) {
            return match SpreadAttribute::parse(input) {
                Ok((spread, rest)) => Ok((Attribute::Spread(spread), rest)),
                Err(e) => Err(e),
            };
        }
        if input.peek_ident(1) {
            return match NamedAttribute::parse(input) {
                Ok((named, rest)) => Ok((Attribute::Named(named), rest)),
                Err(e) => Err(e),
            };
        }
        Err(input.error(ErrorKind::ExpectedAttribute))
    }
}

/// Parses attributes up to the `>` or `/` that ends them.
pub fn parse_attrs<'a>(input: Cursor<'a>) -> (r: Result<(Vec<Attribute>, Cursor<'a>), ParseError>)
    ensures
        input.yields_as(
            r,
            |attributes: Vec<Attribute>| view_attributes(attributes@),
            parse_attributes(input@, input.index() as int),
        ),
{
    let mut attributes: Vec<Attribute> = Vec::new();
    let mut at = input.fork();
    let ghost tokens = input@;
    let ghost start = input.index() as int;
    proof {
        extend_nothing(parse_attributes(tokens, start));
        assert(view_attributes(attributes@) =~= Seq::empty());
    }
    loop
        invariant
            at.follows(input, (at.index() - input.index()) as nat),
            input.index() <= at.index(),
            tokens == input@,
            start == input.index(),
            parse_attributes(tokens, start) == extend(
                view_attributes(attributes@),
                (at.index() - start) as nat,
                parse_attributes(tokens, at.index() as int),
            ),
        decreases left(tokens, at.index() as int),
    {
        if at.peek_punct(1, '>') || at.peek_punct(1, '/') {
            proof {
                extend_by_nothing(view_attributes(attributes@), (at.index() - start) as nat);
            }
            return Ok((attributes, at));
        }
        match Attribute::parse(at) {
            Err(e) => {
                return Err(e);
            },
            Ok((attribute, rest)) => {
                proof {
                    let n = (rest.index() - at.index()) as nat;
                    extend_by_one(
                        view_attributes(attributes@),
                        (at.index() - start) as nat,
                        attribute@,
                        n,
                        parse_attributes(tokens, rest.index() as int),
                    );
                    assert(view_attributes(attributes@.push(attribute)) =~= view_attributes(
                        attributes@,
                    ).push(attribute@));
                }
                attributes.push(attribute);
                at = rest;
            },
        }
    }
}

impl OpeningElement {
    /// Parses `<`, a name and attributes.
    pub fn parse_head<'a>(input: Cursor<'a>) -> (r: Result<
        (OpeningElement, Cursor<'a>),
        ParseError,
    >)
        ensures
            input.yields(r, parse_tag_head(input@, input.index() as int)),
    {
        if !input.peek_punct(1, '<') {
            return Err(input.error(ErrorKind::ExpectedPunct('<')));
        }
        let (name, behind) = match ElementName::parse(input.advance(1)) {
            Ok(found) => found,
            Err(e) => {
                return Err(e);
            },
        };
        match parse_attrs(behind) {
            Ok((attributes, rest)) => Ok((OpeningElement { name, attributes }, rest)),
            Err(e) => Err(e),
        }
    }

    /// Parses `<Name ...>`.
    pub fn parse<'a>(input: Cursor<'a>) -> (r: Result<(OpeningElement, Cursor<'a>), ParseError>)
        ensures
            input.yields(r, parse_opening(input@, input.index() as int)),
    {
        match OpeningElement::parse_head(input) {
            Ok((opening, rest)) => {
                if rest.peek_punct(1, '>') {
                    Ok((opening, rest.advance(1)))
                } else {
                    Err(rest.error(ErrorKind::ExpectedPunct('>')))
                }
            },
            Err(e) => Err(e),
        }
    }
}

impl SelfClosingElement {
    /// Parses `<Name ... />`.
    pub fn parse<'a>(input: Cursor<'a>) -> (r: Result<
        (SelfClosingElement, Cursor<'a>),
        ParseError,
    >)
        ensures
            input.yields(r, parse_self_closing(input@, input.index() as int)),
    {
        match OpeningElement::parse_head(input) {
            Ok((head, rest)) => {
                if !rest.peek_punct(1, '/') {
                    return Err(rest.error(ErrorKind::ExpectedPunct('/')));
                }
                if !rest.peek_punct(2, '>') {
                    return Err(rest.advance(1).error(ErrorKind::ExpectedPunct('>')));
                }
                Ok(
                    (
                        SelfClosingElement { name: head.name, attributes: head.attributes },
                        rest.advance(2),
                    ),
                )
            },
            Err(e) => Err(e),
        }
    }

    /// Parses a source text that holds a self-closing element and nothing else.
    pub fn parse_str(source: &str) -> (r: Result<SelfClosingElement, ParseError>)
        ensures
            same_outcome(
                r,
                parse_source(
                    source_tokens(source@),
                    |tokens: Seq<SpecToken>, pos: int| parse_self_closing(tokens, pos),
                ),
            ),
    {
        match tokenize(source) {
            Ok(tokens) => {
                let input = Cursor::new(&tokens);
                complete(input, SelfClosingElement::parse(input), Ghost(parse_self_closing(input@, 0)))
            },
            Err(e) => Err(e),
        }
    }
}

impl ClosingElement {
    /// Parses `</Name>`.
    pub fn parse<'a>(input: Cursor<'a>) -> (r: Result<(ClosingElement, Cursor<'a>), ParseError>)
        ensures
            input.yields(r, parse_closing(input@, input.index() as int)),
    {
        if !input.peek_punct(1, '<') {
            return Err(input.error(ErrorKind::ExpectedPunct('<')));
        }
        if !input.peek_punct(2, '/') {
            return Err(input.advance(1).error(ErrorKind::ExpectedPunct('/')));
        }
        match ElementName::parse(input.advance(2)) {
            Ok((name, rest)) => {
                if rest.peek_punct(1, '>') {
                    Ok((ClosingElement { name }, rest.advance(1)))
                } else {
                    Err(rest.error(ErrorKind::ExpectedPunct('>')))
                }
            },
            Err(e) => Err(e),
        }
    }

    /// Whether the closing tag of the element with the name `name` is next.
    pub fn peek<'a>(input: Cursor<'a>, name: &ElementName) -> (yes: bool)
        ensures
            yes == closing_tag_peek(input@, input.index() as int, name@.segments),
    {
        if !(input.peek_punct(1, '<') && input.peek_punct(2, '/') && input.peek_ident(3)) {
            return false;
        }
        match ElementName::parse(input.fork().advance(2)) {
            Ok((closing, _)) => closing.agrees_with(name),
            Err(_) => false,
        }
    }
}

impl FragmentOpening {
    /// Parses `<>`.
    pub fn parse<'a>(input: Cursor<'a>) -> (r: Result<(FragmentOpening, Cursor<'a>), ParseError>)
        ensures
            input.yields(r, parse_fragment_opening(input@, input.index() as int)),
    {
        if !input.peek_punct(1, '<') {
            return Err(input.error(ErrorKind::ExpectedPunct('<')));
        }
        if !input.peek_punct(2, '>') {
            return Err(input.advance(1).error(ErrorKind::ExpectedPunct('>')));
        }
        Ok((FragmentOpening, input.advance(2)))
    }
}

impl FragmentClosing {
    /// Parses `</>`.
    pub fn parse<'a>(input: Cursor<'a>) -> (r: Result<(FragmentClosing, Cursor<'a>), ParseError>)
        ensures
            input.yields(r, parse_fragment_closing(input@, input.index() as int)),
    {
        if !input.peek_punct(1, '<') {
            return Err(input.error(ErrorKind::ExpectedPunct('<')));
        }
        if !input.peek_punct(2, '/') {
            return Err(input.advance(1).error(ErrorKind::ExpectedPunct('/')));
        }
        if !input.peek_punct(3, '>') {
            return Err(input.advance(2).error(ErrorKind::ExpectedPunct('>')));
        }
        Ok((FragmentClosing, input.advance(3)))
    }
}

impl OpenComment {
    /// Parses `<!--`.
    pub fn parse<'a>(input: Cursor<'a>) -> (r: Result<(OpenComment, Cursor<'a>), ParseError>)
        ensures
            input.yields(r, parse_open_comment(input@, input.index() as int)),
    {
        if !input.peek_punct(1, '<') {
            return Err(input.error(ErrorKind::ExpectedPunct('<')));
        }
        if !input.peek_punct(2, '!') {
            return Err(input.advance(1).error(ErrorKind::ExpectedPunct('!')));
        }
        if !input.peek_punct(3, '-') {
            return Err(input.advance(2).error(ErrorKind::ExpectedPunct('-')));
        }
        if !input.peek_punct(4, '-') {
            return Err(input.advance(3).error(ErrorKind::ExpectedPunct('-')));
        }
        Ok((OpenComment, input.advance(4)))
    }
}

impl CloseComment {
    /// Parses `-->`.
    pub fn parse<'a>(input: Cursor<'a>) -> (r: Result<(CloseComment, Cursor<'a>), ParseError>)
        ensures
            input.yields(r, parse_close_comment(input@, input.index() as int)),
    {
        if !input.peek_punct(1, '-') {
            return Err(input.error(ErrorKind::ExpectedPunct('-')));
        }
        if !input.peek_punct(2, '-') {
            return Err(input.advance(1).error(ErrorKind::ExpectedPunct('-')));
        }
        if !input.peek_punct(3, '>') {
            return Err(input.advance(2).error(ErrorKind::ExpectedPunct('>')));
        }
        Ok((CloseComment, input.advance(3)))
    }
}

impl Text {
    /// Parses a run of tokens up to the next `<`, `>` or brace group.
    pub fn parse<'a>(input: Cursor<'a>) -> (r: Result<(Text, Cursor<'a>), ParseError>)
        ensures
            input.yields(r, parse_text(input@, input.index() as int)),
    {
        let mut at = input.fork();
        let ghost tokens = input@;
        let ghost start = input.index() as int;
        loop
            invariant
                at.follows(input, (at.index() - input.index()) as nat),
                input.index() <= at.index(),
                tokens == input@,
                start == input.index(),
                text_run(tokens, start) == match text_run(tokens, at.index() as int) {
                    Some(n) => Some((n + at.index() - start) as nat),
                    None => None,
                },
            decreases left(tokens, at.index() as int),
        {
            if at.is_empty() {
                return Err(at.error(ErrorKind::UnexpectedEnd));
            }
            if at.peek_punct(1, '<') || at.peek_punct(1, '>') || at.peek_group(
                1,
                Delimiter::Brace,
            ) {
                let n = at.position() - input.position();
                return Ok((Text(input.take(n)), at));
            }
            at = at.advance(1);
        }
    }
}

impl Comment {
    /// Whether `<!--` is next.
    pub fn peek<'a>(input: Cursor<'a>) -> (yes: bool)
        ensures
            yes == comment_peek(input@, input.index() as int),
    {
        let fork = input.fork();
        if !fork.peek_punct(1, '<') {
            return false;
        }
        let fork = fork.advance(1);
        fork.peek_punct(1, '!') && fork.peek_punct(2, '-') && fork.peek_punct(3, '-')
    }

    /// Parses `<!--`, anything up to the next `-->`, and `-->`.
    pub fn parse<'a>(input: Cursor<'a>) -> (r: Result<(Comment, Cursor<'a>), ParseError>)
        ensures
            input.yields(r, parse_comment(input@, input.index() as int)),
    {
        let (open, inside) = match OpenComment::parse(input) {
            Ok(found) => found,
            Err(e) => {
                return Err(e);
            },
        };
        let mut at = inside.fork();
        let ghost tokens = input@;
        let ghost start = inside.index() as int;
        loop
            invariant
                at.follows(inside, (at.index() - inside.index()) as nat),
                inside.follows(input, 4),
                inside.index() <= at.index(),
                parse_open_comment(tokens, input.index() as int) is Ok,
                tokens == input@,
                start == inside.index(),
                comment_run(tokens, start) == match comment_run(tokens, at.index() as int) {
                    Some(n) => Some((n + at.index() - start) as nat),
                    None => None,
                },
            decreases left(tokens, at.index() as int),
        {
            if at.is_empty() {
                return Err(at.error(ErrorKind::UnexpectedEnd));
            }
            if at.peek_punct(1, '-') && at.peek_punct(2, '-') && at.peek_punct(3, '>') {
                let n = at.position() - inside.position();
                let contents = inside.take(n);
                return match CloseComment::parse(at) {
                    Ok((closing, rest)) => Ok((Comment { open, contents, closing }, rest)),
                    Err(e) => Err(e),
                };
            }
            at = at.advance(1);
        }
    }

    /// Parses a source text that holds a comment and nothing else.
    pub fn parse_str(source: &str) -> (r: Result<Comment, ParseError>)
        ensures
            same_outcome(
                r,
                parse_source(
                    source_tokens(source@),
                    |tokens: Seq<SpecToken>, pos: int| parse_comment(tokens, pos),
                ),
            ),
    {
        match tokenize(source) {
            Ok(tokens) => {
                let input = Cursor::new(&tokens);
                complete(input, Comment::parse(input), Ghost(parse_comment(input@, 0)))
            },
            Err(e) => Err(e),
        }
    }
}

/// Parses comments up to the place where `S` is next.
pub fn parse_comments_until<'a, S: Peek>(input: Cursor<'a>) -> (r: Result<
    (Vec<Comment>, Cursor<'a>),
    ParseError,
>)
    ensures
        input.yields_as(
            r,
            |comments: Vec<Comment>| view_comments(comments@),
            comments_until::<S>(input@, input.index() as int),
        ),
{
    let mut comments: Vec<Comment> = Vec::new();
    let mut at = input.fork();
    let ghost tokens = input@;
    let ghost start = input.index() as int;
    proof {
        extend_nothing(comments_until::<S>(tokens, start));
        assert(view_comments(comments@) =~= Seq::empty());
    }
    loop
        invariant
            at.follows(input, (at.index() - input.index()) as nat),
            input.index() <= at.index(),
            tokens == input@,
            start == input.index(),
            comments_until::<S>(tokens, start) == extend(
                view_comments(comments@),
                (at.index() - start) as nat,
                comments_until::<S>(tokens, at.index() as int),
            ),
        decreases left(tokens, at.index() as int),
    {
        if S::peek(at) {
            proof {
                extend_by_nothing(view_comments(comments@), (at.index() - start) as nat);
            }
            return Ok((comments, at));
        }
        match Comment::parse(at) {
            Err(e) => {
                return Err(e);
            },
            Ok((comment, rest)) => {
                proof {
                    let n = (rest.index() - at.index()) as nat;
                    extend_by_one(
                        view_comments(comments@),
                        (at.index() - start) as nat,
                        comment@,
                        n,
                        comments_until::<S>(tokens, rest.index() as int),
                    );
                    assert(view_comments(comments@.push(comment)) =~= view_comments(
                        comments@,
                    ).push(comment@));
                }
                comments.push(comment);
                at = rest;
            },
        }
    }
}

/// Parses the children of a fragment: children up to `</>`.
pub fn parse_fragment_children<'a>(input: Cursor<'a>) -> (r: Result<
    (Vec<Child>, Cursor<'a>),
    ParseError,
>)
    ensures
        input.yields_as(
            r,
            |children: Vec<Child>| view_children(children@),
            children_until::<FragmentClosing>(input@, input.index() as int),
        ),
    decreases left(input@, input.index() as int), 4nat,
{
    parse_until::<FragmentClosing>(input)
}

impl Fragment {
    /// Parses `<>`, children up to `</>`, and `</>`.
    pub fn parse<'a>(input: Cursor<'a>) -> (r: Result<(Fragment, Cursor<'a>), ParseError>)
        ensures
            input.yields(r, parse_fragment(input@, input.index() as int)),
        decreases left(input@, input.index() as int), 1nat,
    {
        let (opening, at) = match FragmentOpening::parse(input) {
            Ok(found) => found,
            Err(e) => {
                return Err(e);
            },
        };
        let (children, at) = match parse_until::<FragmentClosing>(at) {
            Ok(found) => found,
            Err(e) => {
                return Err(e);
            },
        };
        proof {
            children_until_stops::<FragmentClosing>(input@, input.index() as int + 2);
        }
        match FragmentClosing::parse(at) {
            Ok((closing, rest)) => Ok((Fragment { opening, children, closing }, rest)),
            Err(e) => Err(e),
        }
    }

    /// Parses a source text that holds a fragment and nothing else.
    pub fn parse_str(source: &str) -> (r: Result<Fragment, ParseError>)
        ensures
            same_outcome(
                r,
                parse_source(
                    source_tokens(source@),
                    |tokens: Seq<SpecToken>, pos: int| parse_fragment(tokens, pos),
                ),
            ),
    {
        match tokenize(source) {
            Ok(tokens) => {
                let input = Cursor::new(&tokens);
                complete(input, Fragment::parse(input), Ghost(parse_fragment(input@, 0)))
            },
            Err(e) => Err(e),
        }
    }
}

impl ClosedElement {
    /// Parses the children of the element with the name `name` that opened
    /// at `start`, from `input` on, up to its closing tag.
    fn parse_children<'a>(start: Cursor<'a>, name: &ElementName, input: Cursor<'a>) -> (r: Result<
        (Vec<Child>, Cursor<'a>),
        ParseError,
    >)
        requires
            input@ == start@,
        ensures
            input.yields_as(
                r,
                |children: Vec<Child>| view_children(children@),
                closed_children(
                    input@,
                    input.index() as int,
                    name@.segments,
                    start.index() as int,
                ),
            ),
        decreases left(input@, input.index() as int), 3nat,
    {
        let mut children: Vec<Child> = Vec::new();
        let mut at = input.fork();
        let ghost tokens = input@;
        let ghost from = input.index() as int;
        let ghost opened = start.index() as int;
        proof {
            extend_nothing(closed_children(tokens, from, name@.segments, opened));
            assert(view_children(children@) =~= Seq::empty());
        }
        loop
            invariant
                at.follows(input, (at.index() - input.index()) as nat),
                input.index() <= at.index(),
                tokens == input@,
                from == input.index(),
                opened == start.index(),
                closed_children(tokens, from, name@.segments, opened) == extend(
                    view_children(children@),
                    (at.index() - from) as nat,
                    closed_children(tokens, at.index() as int, name@.segments, opened),
                ),
            decreases left(tokens, at.index() as int),
        {
            if at.is_empty() {
                return Err(start.error(ErrorKind::UnclosedElement));
            }
            if ClosingElement::peek(at, name) {
                proof {
                    extend_by_nothing(view_children(children@), (at.index() - from) as nat);
                }
                return Ok((children, at));
            }
            match Child::parse(at) {
                Err(e) => {
                    return Err(e);
                },
                Ok((child, rest)) => {
                    if rest.position() == at.position() {
                        return Err(start.error(ErrorKind::UnclosedElement));
                    }
                    proof {
                        let n = (rest.index() - at.index()) as nat;
                        extend_by_one(
                            view_children(children@),
                            (at.index() - from) as nat,
                            child@,
                            n,
                            closed_children(tokens, rest.index() as int, name@.segments, opened),
                        );
                        assert(view_children(children@.push(child)) =~= view_children(
                            children@,
                        ).push(child@));
                    }
                    children.push(child);
                    at = rest;
                },
            }
        }
    }

    /// Parses what follows the opening tag `opening`, which was found at
    /// `start` and ends where `input` stands: children and the closing tag.
    fn parse_behind<'a>(
        start: Cursor<'a>,
        opening: OpeningElement,
        input: Cursor<'a>,
        Ghost(n): Ghost<nat>,
    ) -> (r: Result<(ClosedElement, Cursor<'a>), ParseError>)
        requires
            parse_opening(start@, start.index() as int) == Ok::<
                (SpecOpeningElement, nat),
                SpecError,
            >((opening@, n)),
            input.follows(start, n),
        ensures
            start.yields(r, parse_closed(start@, start.index() as int)),
        decreases left(input@, input.index() as int), 4nat,
    {
        let (children, behind) = match ClosedElement::parse_children(start, &opening.name, input) {
            Ok(found) => found,
            Err(e) => {
                return Err(e);
            },
        };
        match ClosingElement::parse(behind) {
            Ok((closing, rest)) => Ok((ClosedElement { opening, children, closing }, rest)),
            Err(e) => Err(e),
        }
    }

    /// Parses `<Name ...>`, children, and the closing tag `</Name>`.
    pub fn parse<'a>(input: Cursor<'a>) -> (r: Result<(ClosedElement, Cursor<'a>), ParseError>)
        ensures
            input.yields(r, parse_closed(input@, input.index() as int)),
        decreases left(input@, input.index() as int), 0nat,
    {
        match OpeningElement::parse(input) {
            Ok((opening, rest)) => {
                let ghost n = (rest.index() - input.index()) as nat;
                ClosedElement::parse_behind(input, opening, rest, Ghost(n))
            },
            Err(e) => Err(e),
        }
    }

    /// Parses a source text that holds a closed element and nothing else.
    pub fn parse_str(source: &str) -> (r: Result<ClosedElement, ParseError>)
        ensures
            same_outcome(
                r,
                parse_source(
                    source_tokens(source@),
                    |tokens: Seq<SpecToken>, pos: int| parse_closed(tokens, pos),
                ),
            ),
    {
        match tokenize(source) {
            Ok(tokens) => {
                let input = Cursor::new(&tokens);
                complete(input, ClosedElement::parse(input), Ghost(parse_closed(input@, 0)))
            },
            Err(e) => Err(e),
        }
    }
}

impl Element {
    /// Parses an element. What follows `<`, the name and the attributes
    /// decides: `/` makes it self-closing; else it is `>`, which makes it
    /// closed. The tag is read once, on a fork, to find that out.
    pub fn parse<'a>(input: Cursor<'a>) -> (r: Result<(Element, Cursor<'a>), ParseError>)
        ensures
            input.yields(r, parse_element(input@, input.index() as int)),
        decreases left(input@, input.index() as int), 1nat,
    {
        let (head, behind) = match OpeningElement::parse_head(input.fork()) {
            Ok(found) => found,
            Err(e) => {
                return Err(e);
            },
        };
        if behind.peek_punct(1, '/') {
            if !behind.peek_punct(2, '>') {
                return Err(behind.advance(1).error(ErrorKind::ExpectedPunct('>')));
            }
            let element = SelfClosingElement { name: head.name, attributes: head.attributes };
            return Ok((Element::SelfClosing(element), behind.advance(2)));
        }
        proof {
            let name = parse_name(input@, input.index() as int + 1);
            attributes_stop(input@, input.index() as int + 1 + name->Ok_0.1);
        }
        let ghost n = (behind.index() + 1 - input.index()) as nat;
        match ClosedElement::parse_behind(input, head, behind.advance(1), Ghost(n)) {
            Ok((element, rest)) => Ok((Element::Closed(element), rest)),
            Err(e) => Err(e),
        }
    }

    /// Parses a source text that holds an element and nothing else.
    pub fn parse_str(source: &str) -> (r: Result<Element, ParseError>)
        ensures
            same_outcome(
                r,
                parse_source(
                    source_tokens(source@),
                    |tokens: Seq<SpecToken>, pos: int| parse_element(tokens, pos),
                ),
            ),
    {
        match tokenize(source) {
            Ok(tokens) => {
                let input = Cursor::new(&tokens);
                complete(input, Element::parse(input), Ghost(parse_element(input@, 0)))
            },
            Err(e) => Err(e),
        }
    }
}

impl Child {
    /// Parses one child. The first of these that applies decides: `<>`
    /// starts a fragment, `<` and an identifier an element, a brace group
    /// that opens no block an interpolation, `<!--` a comment, a brace
    /// group that opens a block a block; anything else is text.
    pub fn parse<'a>(input: Cursor<'a>) -> (r: Result<(Child, Cursor<'a>), ParseError>)
        ensures
            input.yields(r, parse_child(input@, input.index() as int)),
        decreases left(input@, input.index() as int), 2nat,
    {
        if input.peek_punct(1, '<') && input.peek_punct(2, '>') {
            return match Fragment::parse(input) {
                Ok((fragment, rest)) => Ok((Child::Fragment(fragment), rest)),
                Err(e) => Err(e),
            };
        }
        if input.peek_punct(1, '<') && input.peek_ident(2) {
            return match Element::parse(input) {
                Ok((element, rest)) => Ok((Child::Element(element), rest)),
                Err(e) => Err(e),
            };
        }
        if input.peek_group(1, Delimiter::Brace) && !Block::peek(input) {
            return match Mustache::parse(input) {
                Ok((mustache, rest)) => Ok((Child::Mustache(mustache), rest)),
                Err(e) => Err(e),
            };
        }
        if Comment::peek(input) {
            return match Comment::parse(input) {
                Ok((comment, rest)) => Ok((Child::Comment(comment), rest)),
                Err(e) => Err(e),
            };
        }
        if Block::peek(input) {
            return match Block::parse(input) {
                Ok((block, rest)) => Ok((Child::Block(block), rest)),
                Err(e) => Err(e),
            };
        }
        match Text::parse(input) {
            Ok((text, rest)) => Ok((Child::Text(text), rest)),
            Err(e) => Err(e),
        }
    }
}

impl Root {
    /// Parses a root: `<>` starts a fragment, `<` and an identifier an
    /// element.
    pub fn parse<'a>(input: Cursor<'a>) -> (r: Result<(Root, Cursor<'a>), ParseError>)
        ensures
            input.yields(r, parse_root(input@, input.index() as int)),
    {
        if input.peek_punct(1, '<') {
            if input.peek_punct(2, '>') {
                return match Fragment::parse(input) {
                    Ok((fragment, rest)) => Ok((Root::Fragment(fragment), rest)),
                    Err(e) => Err(e),
                };
            }
            if input.peek_ident(2) {
                return match Element::parse(input) {
                    Ok((element, rest)) => Ok((Root::Element(element), rest)),
                    Err(e) => Err(e),
                };
            }
        }
        Err(input.error(ErrorKind::ExpectedRoot))
    }

    /// Parses a source text that holds a root and nothing else.
    pub fn parse_str(source: &str) -> (r: Result<Root, ParseError>)
        ensures
            same_outcome(
                r,
                parse_source(
                    source_tokens(source@),
                    |tokens: Seq<SpecToken>, pos: int| parse_root(tokens, pos),
                ),
            ),
    {
        match tokenize(source) {
            Ok(tokens) => {
                let input = Cursor::new(&tokens);
                complete(input, Root::parse(input), Ghost(parse_root(input@, 0)))
            },
            Err(e) => Err(e),
        }
    }
}

/// Where the children of a closed element end, its closing tag is next.
pub proof fn closed_children_stop(
    tokens: Seq<SpecToken>,
    pos: int,
    name: Seq<Seq<char>>,
    opened: int,
)
    ensures
        closed_children(tokens, pos, name, opened) matches Ok((_, n)) ==> closing_tag_peek(
            tokens,
            pos + n,
            name,
        ),
    decreases left(tokens, pos),
{
    if 0 <= pos < tokens.len() && !closing_tag_peek(tokens, pos, name) {
        if let Ok((_, n)) = parse_child(tokens, pos) {
            if n > 0 {
                closed_children_stop(tokens, pos + n, name, opened);
            }
        }
    }
}

/// Names that agree and have the same number of segments are equal.
pub proof fn agreeing_names_of_equal_length(a: Seq<Seq<char>>, b: Seq<Seq<char>>)
    requires
        names_agree(a, b),
        a.len() == b.len(),
    ensures
        a == b,
{
    assert(a =~= b);
}

/// In every closed element that parses, the name of the closing tag agrees
/// with the name of the opening tag: segment by segment their identifiers
/// are equal, as far as both reach. With the same number of segments, the
/// two sequences of identifiers are equal.
pub proof fn closed_element_names_agree(tokens: Seq<SpecToken>, pos: int)
    ensures
        parse_closed(tokens, pos) matches Ok((element, _)) ==> {
            &&& names_agree(element.closing.segments, element.opening.name.segments)
            &&& element.closing.segments.len() == element.opening.name.segments.len()
                ==> element.closing.segments == element.opening.name.segments
        },
{
    if let Ok((opening, n)) = parse_opening(tokens, pos) {
        closed_children_stop(tokens, pos + n, opening.name.segments, pos);
        if let Ok((_, m)) = closed_children(tokens, pos + n, opening.name.segments, pos) {
            if let Ok((closing, _)) = parse_closing(tokens, pos + n + m) {
                if closing.segments.len() == opening.name.segments.len() {
                    agreeing_names_of_equal_length(closing.segments, opening.name.segments);
                }
            }
        }
    }
}

/// An element that parses is self-closing, without children, or closed with
/// a closing tag whose name agrees with that of its opening tag.
pub proof fn element_names_agree(tokens: Seq<SpecToken>, pos: int)
    ensures
        parse_element(tokens, pos) matches Ok((SpecElement::Closed(element), _)) ==> {
            &&& names_agree(element.closing.segments, element.opening.name.segments)
            &&& element.closing.segments.len() == element.opening.name.segments.len()
                ==> element.closing.segments == element.opening.name.segments
        },
{
    closed_element_names_agree(tokens, pos);
}

/// A run of text ends on a token: it stays within the tokens.
pub proof fn text_run_ends_on_a_token(tokens: Seq<SpecToken>, pos: int)
    ensures
        text_run(tokens, pos) matches Some(n) ==> 0 <= pos && pos + n < tokens.len() && text_end(
            tokens,
            pos + n,
        ),
    decreases left(tokens, pos),
{
    if 0 <= pos < tokens.len() && !text_end(tokens, pos) {
        text_run_ends_on_a_token(tokens, pos + 1);
    }
}

/// Whether no text among `children` is empty.
pub open spec fn no_empty_text(children: Seq<SpecChild>) -> bool {
    forall|i: int|
        0 <= i < children.len() ==> (#[trigger] children[i] matches SpecChild::Text(text)
            ==> text.len() > 0)
}

/// A child that covers at least one token is no empty text.
pub proof fn child_with_tokens_is_no_empty_text(tokens: Seq<SpecToken>, pos: int)
    ensures
        parse_child(tokens, pos) matches Ok((SpecChild::Text(text), n)) ==> text.len() == n,
{
    text_run_ends_on_a_token(tokens, pos);
}

/// One child that is no empty text in front of children that hold no empty
/// text.
pub proof fn no_empty_text_extended(child: SpecChild, others: Seq<SpecChild>)
    requires
        child matches SpecChild::Text(text) ==> text.len() > 0,
        no_empty_text(others),
    ensures
        no_empty_text(seq![child] + others),
{
    let all = seq![child] + others;
    assert forall|i: int| 0 <= i < all.len() implies (#[trigger] all[i] matches SpecChild::Text(
        text,
    ) ==> text.len() > 0) by {
        if i > 0 {
            assert(all[i] == others[i - 1]);
        }
    }
}

/// Between the tags of a closed element no text is empty: every child
/// covers at least one token.
pub proof fn closed_children_hold_no_empty_text(
    tokens: Seq<SpecToken>,
    pos: int,
    name: Seq<Seq<char>>,
    opened: int,
)
    ensures
        closed_children(tokens, pos, name, opened) matches Ok((children, _)) ==> no_empty_text(
            children,
        ),
    decreases left(tokens, pos),
{
    if 0 <= pos < tokens.len() && !closing_tag_peek(tokens, pos, name) {
        if let Ok((child, n)) = parse_child(tokens, pos) {
            if n > 0 {
                child_with_tokens_is_no_empty_text(tokens, pos);
                closed_children_hold_no_empty_text(tokens, pos + n, name, opened);
                if let Ok((others, _)) = closed_children(tokens, pos + n, name, opened) {
                    no_empty_text_extended(child, others);
                }
            }
        }
    }
}

} // verus!
