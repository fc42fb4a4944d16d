//! Spelling a formatting specifier as tokens, and the law that parsing the
//! spelling gives the specifier back.

use vstd::prelude::*;
use crate::cursor::{is_character, is_integer, is_punct};
use crate::error::SpecError;
use crate::syntax::formatting::{
    align_peek, decimal_peek, float_literal_is_width_and_precision,
    float_literal_with_empty_fraction, is_direction, numbers_peek, one_leading_zero_is_the_flag,
    optional, parse_align, parse_format_type, parse_formatting, parse_optional_numbers,
    parse_precision, parse_pretty, parse_sign, pretty_peek, sign_peek, split_width, Align,
    AlignDirection, Pretty, Sign, SpecCount, SpecFormatting, SpecFormatType, SpecNumbers,
    SpecPrecision, Zero,
};
use crate::token::{Spacing, SpecLiteral, SpecLiteralKind, SpecToken};

verus! {

/// A punctuation character that stands alone.
pub open spec fn punct(c: char) -> SpecToken {
    SpecToken::Punct(c, Spacing::Alone)
}

/// An integer literal with the given text.
pub open spec fn integer(text: Seq<char>) -> SpecToken {
    SpecToken::Literal(SpecLiteral { text, kind: SpecLiteralKind::Integer })
}

/// A float literal with the given text and no suffix.
pub open spec fn float(text: Seq<char>) -> SpecToken {
    SpecToken::Literal(SpecLiteral { text, kind: SpecLiteralKind::Float(Seq::empty()) })
}

/// A character literal with the given text that denotes `c`.
pub open spec fn character(text: Seq<char>, c: char) -> SpecToken {
    SpecToken::Literal(SpecLiteral { text, kind: SpecLiteralKind::Character(c) })
}

/// The character that stands for a direction.
pub open spec fn direction_char(direction: AlignDirection) -> char {
    match direction {
        AlignDirection::Left => '<',
        AlignDirection::Center => '^',
        AlignDirection::Right => '>',
    }
}

/// An alignment as tokens. `fill_text` is the source text of the character
/// literal that holds the fill.
pub open spec fn spell_align(align: Option<Align>, fill_text: Seq<char>) -> Seq<SpecToken> {
    match align {
        None => seq![],
        Some(align) => match align.fill {
            None => seq![punct(direction_char(align.direction))],
            Some(c) => seq![character(fill_text, c), punct(direction_char(align.direction))],
        },
    }
}

/// A sign as tokens.
pub open spec fn spell_sign(sign: Option<Sign>) -> Seq<SpecToken> {
    match sign {
        None => seq![],
        Some(Sign::Positive) => seq![punct('+')],
        Some(Sign::Negative) => seq![punct('-')],
    }
}

/// The `#` flag as tokens.
pub open spec fn spell_pretty(pretty: Option<Pretty>) -> Seq<SpecToken> {
    match pretty {
        None => seq![],
        Some(_) => seq![punct('#')],
    }
}

/// A precision as tokens.
pub open spec fn spell_precision(precision: SpecPrecision) -> Seq<SpecToken> {
    match precision {
        SpecPrecision::Star => seq![punct('*')],
        SpecPrecision::Count(SpecCount::Integer(digits)) => seq![integer(digits)],
        SpecPrecision::Count(SpecCount::Parameter(name)) => seq![
            SpecToken::Ident(name),
            punct('$'),
        ],
    }
}

/// The digits of a width, behind a `0` where the zero flag is set.
pub open spec fn spell_digits(zero: Option<Zero>, width: Seq<char>) -> Seq<char> {
    match zero {
        Some(_) => seq!['0'] + width,
        None => width,
    }
}

/// The numeric part as tokens. Where `joined` holds, the digits and the
/// decimal point behind them are written as one float literal, together
/// with a precision that is an integer; else they are an integer literal
/// and a decimal point.
pub open spec fn spell_numbers(numbers: SpecNumbers, joined: bool) -> Seq<SpecToken> {
    match numbers.width {
        None => seq![],
        Some(width) => match numbers.precision {
            None => seq![integer(spell_digits(numbers.zero, width))],
            Some(precision) => if joined {
                match precision {
                    SpecPrecision::Count(SpecCount::Integer(digits)) => seq![
                        float(spell_digits(numbers.zero, width) + seq!['.'] + digits),
                    ],
                    _ => seq![float(spell_digits(numbers.zero, width) + seq!['.'])]
                        + spell_precision(precision),
                }
            } else {
                seq![integer(spell_digits(numbers.zero, width)), punct('.')] + spell_precision(
                    precision,
                )
            },
        },
    }
}

/// A format type as tokens.
pub open spec fn spell_type(_type: SpecFormatType) -> Seq<SpecToken> {
    match _type {
        SpecFormatType::Display => seq![],
        SpecFormatType::Debug => seq![punct('?')],
        SpecFormatType::DebugLowerHex => seq![SpecToken::Ident(seq!['x']), punct('?')],
        SpecFormatType::DebugUpperHex => seq![SpecToken::Ident(seq!['X']), punct('?')],
        SpecFormatType::Other(name) => seq![SpecToken::Ident(name)],
    }
}

/// The numeric part of a formatting specifier.
pub open spec fn numbers_of(f: SpecFormatting) -> SpecNumbers {
    SpecNumbers { zero: f.zero, width: f.width, precision: f.precision }
}

/// A formatting specifier as tokens: its parts in the order of the grammar.
pub open spec fn spell(f: SpecFormatting, fill_text: Seq<char>, joined: bool) -> Seq<SpecToken> {
    spell_align(f.align, fill_text) + (spell_sign(f.sign) + (spell_pretty(f.pretty) + (
    spell_numbers(numbers_of(f), joined) + spell_type(f._type))))
}

/// Whether a numeric part can be written down: the zero flag and the
/// precision need a width; the width is not empty and does not itself pass
/// for a leading zero; in a float literal the width holds no decimal point
/// and an integer precision is not empty.
pub open spec fn numbers_spellable(numbers: SpecNumbers, joined: bool) -> bool {
    match numbers.width {
        None => numbers.zero is None && numbers.precision is None,
        Some(width) => {
            &&& width.len() > 0
            &&& numbers.zero is Some ==> width[0] != '0'
            &&& numbers.zero is None ==> !(width.len() > 1 && width[0] == '0')
            &&& joined && numbers.precision is Some ==> {
                &&& forall|i: int| 0 <= i < width.len() ==> width[i] != '.'
                &&& numbers.precision matches Some(SpecPrecision::Count(SpecCount::Integer(digits)))
                    ==> digits.len() > 0
            }
        },
    }
}

/// Whether a formatting specifier can be written down. `Other("x")` and
/// `Other("X")` can: alone they are no hexadecimal flags.
pub open spec fn spellable(f: SpecFormatting, joined: bool) -> bool {
    numbers_spellable(numbers_of(f), joined)
}

/// Whether no token of `tokens` is a punctuation character for which `bad`
/// holds.
pub open spec fn avoids(tokens: Seq<SpecToken>, bad: spec_fn(char) -> bool) -> bool {
    forall|i: int|
        0 <= i < tokens.len() ==> (#[trigger] tokens[i] matches SpecToken::Punct(c, _) ==> !bad(c))
}

/// Whether no token of `tokens` is a literal.
pub open spec fn no_literal(tokens: Seq<SpecToken>) -> bool {
    forall|i: int| 0 <= i < tokens.len() ==> !(#[trigger] tokens[i] is Literal)
}

/// Two sequences that avoid `bad` avoid it together.
proof fn avoids_both(a: Seq<SpecToken>, b: Seq<SpecToken>, bad: spec_fn(char) -> bool)
    requires
        avoids(a, bad),
        avoids(b, bad),
    ensures
        avoids(a + b, bad),
{
    assert forall|i: int| 0 <= i < (a + b).len() implies (#[trigger] (a + b)[i] matches SpecToken::Punct(
        c,
        _,
    ) ==> !bad(c)) by {
        if i < a.len() {
            assert((a + b)[i] == a[i]);
        } else {
            assert((a + b)[i] == b[i - a.len()]);
        }
    }
}

/// The token at place `i` of the middle one of three sequences.
proof fn within(before: Seq<SpecToken>, part: Seq<SpecToken>, after: Seq<SpecToken>, i: int)
    requires
        0 <= i < part.len(),
    ensures
        (before + part + after)[before.len() + i] == part[i],
        before.len() + i < (before + part + after).len(),
{
}

/// The token at place `i` of the last one of three sequences.
proof fn beyond(before: Seq<SpecToken>, part: Seq<SpecToken>, after: Seq<SpecToken>, i: int)
    requires
        0 <= i < after.len(),
    ensures
        (before + part + after)[before.len() + part.len() + i] == after[i],
        before.len() + part.len() + i < (before + part + after).len(),
{
}

/// The first token behind the middle part is no punctuation character for
/// which `bad` holds.
proof fn next_avoids(
    before: Seq<SpecToken>,
    part: Seq<SpecToken>,
    after: Seq<SpecToken>,
    i: int,
    bad: spec_fn(char) -> bool,
    c: char,
)
    requires
        avoids(after, bad),
        bad(c),
        0 <= i,
    ensures
        !is_punct(before + part + after, before.len() + part.len() + i, c),
        (before + part + after).len() == before.len() + part.len() + after.len(),
{
    if i < after.len() {
        beyond(before, part, after, i);
        assert(after[i] matches SpecToken::Punct(p, _) ==> !bad(p));
    }
}

/// An alignment that was written down parses where it stands, whatever
/// stands before it, if no direction stands behind it.
proof fn align_part(
    before: Seq<SpecToken>,
    align: Option<Align>,
    fill_text: Seq<char>,
    after: Seq<SpecToken>,
)
    requires
        avoids(after, |c: char| c == '<' || c == '^' || c == '>'),
    ensures
        optional(
            align_peek(before + spell_align(align, fill_text) + after, before.len() as int),
            parse_align(before + spell_align(align, fill_text) + after, before.len() as int),
        ) == Ok::<(Option<Align>, nat), SpecError>((align, spell_align(align, fill_text).len())),
{
    let part = spell_align(align, fill_text);
    let tokens = before + part + after;
    let pos = before.len() as int;
    let bad = |c: char| c == '<' || c == '^' || c == '>';
    match align {
        None => {
            assert(part.len() == 0);
            next_avoids(before, part, after, 0, bad, '<');
            next_avoids(before, part, after, 0, bad, '^');
            next_avoids(before, part, after, 0, bad, '>');
            next_avoids(before, part, after, 1, bad, '<');
            next_avoids(before, part, after, 1, bad, '^');
            next_avoids(before, part, after, 1, bad, '>');
        },
        Some(align) => {
            match align.fill {
                None => {
                    assert(part.len() == 1);
                    within(before, part, after, 0);
                    assert(is_direction(tokens, pos));
                    assert(!is_character(tokens, pos));
                },
                Some(c) => {
                    assert(part.len() == 2);
                    within(before, part, after, 0);
                    within(before, part, after, 1);
                    assert(is_direction(tokens, pos + 1));
                    assert(is_character(tokens, pos));
                },
            }
        },
    }
}

/// A sign that was written down parses where it stands, if no sign stands
/// behind it.
proof fn sign_part(before: Seq<SpecToken>, sign: Option<Sign>, after: Seq<SpecToken>)
    requires
        avoids(after, |c: char| c == '+' || c == '-'),
    ensures
        optional(
            sign_peek(before + spell_sign(sign) + after, before.len() as int),
            parse_sign(before + spell_sign(sign) + after, before.len() as int),
        ) == Ok::<(Option<Sign>, nat), SpecError>((sign, spell_sign(sign).len())),
{
    let part = spell_sign(sign);
    let bad = |c: char| c == '+' || c == '-';
    match sign {
        None => {
            assert(part.len() == 0);
            next_avoids(before, part, after, 0, bad, '+');
            next_avoids(before, part, after, 0, bad, '-');
        },
        Some(_) => {
            assert(part.len() == 1);
            within(before, part, after, 0);
        },
    }
}

/// A `#` flag that was written down parses where it stands, if no `#`
/// stands behind it.
proof fn pretty_part(before: Seq<SpecToken>, pretty: Option<Pretty>, after: Seq<SpecToken>)
    requires
        avoids(after, |c: char| c == '#'),
    ensures
        optional(
            pretty_peek(before + spell_pretty(pretty) + after, before.len() as int),
            parse_pretty(before + spell_pretty(pretty) + after, before.len() as int),
        ) == Ok::<(Option<Pretty>, nat), SpecError>((pretty, spell_pretty(pretty).len())),
{
    let part = spell_pretty(pretty);
    let bad = |c: char| c == '#';
    match pretty {
        None => {
            assert(part.len() == 0);
            next_avoids(before, part, after, 0, bad, '#');
        },
        Some(flag) => {
            assert(flag == Pretty);
            assert(part.len() == 1);
            within(before, part, after, 0);
        },
    }
}

/// A precision that was written down parses where it stands.
proof fn precision_part(tokens: Seq<SpecToken>, pos: int, precision: SpecPrecision)
    requires
        0 <= pos,
        pos + spell_precision(precision).len() <= tokens.len(),
        forall|i: int|
            0 <= i < spell_precision(precision).len() ==> tokens[pos + i] == #[trigger] spell_precision(
                precision,
            )[i],
    ensures
        parse_precision(tokens, pos) == Ok::<(SpecPrecision, nat), SpecError>(
            (precision, spell_precision(precision).len()),
        ),
{
    let part = spell_precision(precision);
    assert(tokens[pos] == part[0]);
    match precision {
        SpecPrecision::Count(SpecCount::Parameter(name)) => {
            assert(part.len() == 2);
            assert(tokens[pos + 1] == part[1]);
            assert(is_punct(tokens, pos + 1, '$'));
        },
        _ => {
            assert(part.len() == 1);
        },
    }
}

/// The digits that were written down split into the zero flag and the width.
proof fn digits_split(numbers: SpecNumbers, joined: bool)
    requires
        numbers_spellable(numbers, joined),
        numbers.width is Some,
    ensures
        split_width(spell_digits(numbers.zero, numbers.width->0)) == Some(
            (numbers.zero, numbers.width->0),
        ),
{
    if numbers.zero is Some {
        one_leading_zero_is_the_flag(numbers.width->0);
    }
}

/// A numeric part that was written down parses where it stands, if neither
/// a literal nor a decimal point stands behind it.
proof fn numbers_part(
    before: Seq<SpecToken>,
    numbers: SpecNumbers,
    joined: bool,
    after: Seq<SpecToken>,
)
    requires
        numbers_spellable(numbers, joined),
        no_literal(after),
        avoids(after, |c: char| c == '.'),
    ensures
        parse_optional_numbers(
            before + spell_numbers(numbers, joined) + after,
            before.len() as int,
        ) == Ok::<(SpecNumbers, nat), SpecError>((numbers, spell_numbers(numbers, joined).len())),
{
    let part = spell_numbers(numbers, joined);
    let tokens = before + part + after;
    let pos = before.len() as int;
    let bad = |c: char| c == '.';
    match numbers.width {
        None => {
            assert(part.len() == 0);
            if 0 < after.len() {
                beyond(before, part, after, 0);
            }
            assert(!numbers_peek(tokens, pos));
        },
        Some(width) => {
            digits_split(numbers, joined);
            let digits = spell_digits(numbers.zero, width);
            match numbers.precision {
                None => {
                    assert(part.len() == 1);
                    within(before, part, after, 0);
                    assert(is_integer(tokens, pos));
                    next_avoids(before, part, after, 0, bad, '.');
                    assert(!decimal_peek(tokens, pos + 1));
                },
                Some(precision) => {
                    let behind = spell_precision(precision);
                    if joined {
                        assert forall|i: int| 0 <= i < digits.len() implies digits[i] != '.' by {
                            if numbers.zero is Some && i > 0 {
                                assert(digits[i] == width[i - 1]);
                            }
                        }
                        match precision {
                            SpecPrecision::Count(SpecCount::Integer(fraction)) => {
                                assert(part.len() == 1);
                                within(before, part, after, 0);
                                float_literal_is_width_and_precision(tokens, pos, digits, fraction);
                            },
                            _ => {
                                assert(part.len() == 1 + behind.len());
                                within(before, part, after, 0);
                                assert forall|i: int| 0 <= i < behind.len() implies tokens[pos + 1
                                    + i] == #[trigger] behind[i] by {
                                    within(before, part, after, 1 + i);
                                }
                                precision_part(tokens, pos + 1, precision);
                                float_literal_with_empty_fraction(tokens, pos, digits);
                            },
                        }
                    } else {
                        assert(part.len() == 2 + behind.len());
                        within(before, part, after, 0);
                        within(before, part, after, 1);
                        assert(is_integer(tokens, pos));
                        assert(decimal_peek(tokens, pos + 1));
                        assert forall|i: int| 0 <= i < behind.len() implies tokens[pos + 2 + i]
                            == #[trigger] behind[i] by {
                            within(before, part, after, 2 + i);
                        }
                        precision_part(tokens, pos + 2, precision);
                    }
                },
            }
        },
    }
}

/// A format type that was written down parses where it stands, at the end
/// of the tokens.
proof fn type_part(before: Seq<SpecToken>, _type: SpecFormatType)
    ensures
        parse_format_type(before + spell_type(_type), before.len() as int) == Ok::<
            (SpecFormatType, nat),
            SpecError,
        >((_type, spell_type(_type).len())),
{
    let part = spell_type(_type);
    let tokens = before + part;
    let pos = before.len() as int;
    match _type {
        SpecFormatType::Display => {
            assert(part.len() == 0);
        },
        SpecFormatType::Debug => {
            assert(part.len() == 1);
            assert(tokens[pos] == part[0]);
        },
        SpecFormatType::Other(name) => {
            assert(part.len() == 1);
            assert(tokens[pos] == part[0]);
        },
        _ => {
            assert(part.len() == 2);
            assert(tokens[pos] == part[0]);
            assert(tokens[pos + 1] == part[1]);
            assert(is_punct(tokens, pos + 1, '?'));
            assert(seq!['x'] != seq!['X']) by {
                assert(seq!['x'][0] != seq!['X'][0]);
            }
        },
    }
}

/// A precision holds only `*` and `$` as punctuation.
proof fn precision_avoids(precision: SpecPrecision, bad: spec_fn(char) -> bool)
    requires
        !bad('*'),
        !bad('$'),
    ensures
        avoids(spell_precision(precision), bad),
{
}

/// A numeric part holds only `.`, `*` and `$` as punctuation.
proof fn numbers_avoid(numbers: SpecNumbers, joined: bool, bad: spec_fn(char) -> bool)
    requires
        !bad('*'),
        !bad('$'),
        !bad('.'),
    ensures
        avoids(spell_numbers(numbers, joined), bad),
{
    match numbers.width {
        None => {},
        Some(width) => match numbers.precision {
            None => {},
            Some(precision) => {
                let digits = spell_digits(numbers.zero, width);
                precision_avoids(precision, bad);
                if joined {
                    match precision {
                        SpecPrecision::Count(SpecCount::Integer(_)) => {},
                        _ => {
                            let head = seq![float(digits + seq!['.'])];
                            assert(avoids(head, bad));
                            avoids_both(head, spell_precision(precision), bad);
                        },
                    }
                } else {
                    let head = seq![integer(digits), punct('.')];
                    assert(avoids(head, bad));
                    avoids_both(head, spell_precision(precision), bad);
                }
            },
        },
    }
}

/// What stands behind the alignment holds none of `<`, `^`, `>`; what
/// stands behind the sign neither `+` nor `-`; what stands behind the `#`
/// flag no `#`; and the type holds neither a literal nor a decimal point.
proof fn parts_do_not_clash(f: SpecFormatting, joined: bool)
    ensures
        avoids(
            spell_sign(f.sign) + (spell_pretty(f.pretty) + (spell_numbers(numbers_of(f), joined)
                + spell_type(f._type))),
            |c: char| c == '<' || c == '^' || c == '>',
        ),
        avoids(
            spell_pretty(f.pretty) + (spell_numbers(numbers_of(f), joined) + spell_type(f._type)),
            |c: char| c == '+' || c == '-',
        ),
        avoids(
            spell_numbers(numbers_of(f), joined) + spell_type(f._type),
            |c: char| c == '#',
        ),
        avoids(spell_type(f._type), |c: char| c == '.'),
        no_literal(spell_type(f._type)),
{
    let s = spell_sign(f.sign);
    let p = spell_pretty(f.pretty);
    let n = spell_numbers(numbers_of(f), joined);
    let t = spell_type(f._type);
    let directions = |c: char| c == '<' || c == '^' || c == '>';
    let signs = |c: char| c == '+' || c == '-';
    let hash = |c: char| c == '#';
    numbers_avoid(numbers_of(f), joined, directions);
    numbers_avoid(numbers_of(f), joined, signs);
    numbers_avoid(numbers_of(f), joined, hash);
    assert(avoids(t, directions) && avoids(t, signs) && avoids(t, hash));
    assert(avoids(p, directions) && avoids(p, signs));
    assert(avoids(s, directions));
    avoids_both(n, t, hash);
    avoids_both(n, t, signs);
    avoids_both(n, t, directions);
    avoids_both(p, n + t, signs);
    avoids_both(p, n + t, directions);
    avoids_both(s, p + (n + t), directions);
}

/// The alignment of a formatting specifier that was written down parses at
/// the start.
proof fn align_stage(f: SpecFormatting, fill_text: Seq<char>, joined: bool)
    ensures
        optional(
            align_peek(spell(f, fill_text, joined), 0),
            parse_align(spell(f, fill_text, joined), 0),
        ) == Ok::<(Option<Align>, nat), SpecError>(
            (f.align, spell_align(f.align, fill_text).len()),
        ),
{
    let a = spell_align(f.align, fill_text);
    let rest = spell_sign(f.sign) + (spell_pretty(f.pretty) + (spell_numbers(
        numbers_of(f),
        joined,
    ) + spell_type(f._type)));
    let empty = Seq::<SpecToken>::empty();
    parts_do_not_clash(f, joined);
    assert(spell(f, fill_text, joined) =~= empty + a + rest);
    align_part(empty, f.align, fill_text, rest);
}

/// The sign of a formatting specifier that was written down parses behind
/// the alignment.
proof fn sign_stage(f: SpecFormatting, fill_text: Seq<char>, joined: bool)
    ensures
        optional(
            sign_peek(
                spell(f, fill_text, joined),
                spell_align(f.align, fill_text).len() as int,
            ),
            parse_sign(
                spell(f, fill_text, joined),
                spell_align(f.align, fill_text).len() as int,
            ),
        ) == Ok::<(Option<Sign>, nat), SpecError>((f.sign, spell_sign(f.sign).len())),
{
    let a = spell_align(f.align, fill_text);
    let s = spell_sign(f.sign);
    let rest = spell_pretty(f.pretty) + (spell_numbers(numbers_of(f), joined) + spell_type(
        f._type,
    ));
    parts_do_not_clash(f, joined);
    assert(spell(f, fill_text, joined) =~= a + s + rest);
    sign_part(a, f.sign, rest);
}

/// The `#` flag of a formatting specifier that was written down parses
/// behind the sign.
proof fn pretty_stage(f: SpecFormatting, fill_text: Seq<char>, joined: bool)
    ensures
        optional(
            pretty_peek(
                spell(f, fill_text, joined),
                (spell_align(f.align, fill_text).len() + spell_sign(f.sign).len()) as int,
            ),
            parse_pretty(
                spell(f, fill_text, joined),
                (spell_align(f.align, fill_text).len() + spell_sign(f.sign).len()) as int,
            ),
        ) == Ok::<(Option<Pretty>, nat), SpecError>((f.pretty, spell_pretty(f.pretty).len())),
{
    let before = spell_align(f.align, fill_text) + spell_sign(f.sign);
    let p = spell_pretty(f.pretty);
    let rest = spell_numbers(numbers_of(f), joined) + spell_type(f._type);
    parts_do_not_clash(f, joined);
    assert(spell(f, fill_text, joined) =~= before + p + rest);
    pretty_part(before, f.pretty, rest);
}

/// The numeric part of a formatting specifier that was written down parses
/// behind the `#` flag.
proof fn numbers_stage(f: SpecFormatting, fill_text: Seq<char>, joined: bool)
    requires
        spellable(f, joined),
    ensures
        parse_optional_numbers(
            spell(f, fill_text, joined),
            (spell_align(f.align, fill_text).len() + spell_sign(f.sign).len() + spell_pretty(
                f.pretty,
            ).len()) as int,
        ) == Ok::<(SpecNumbers, nat), SpecError>(
            (numbers_of(f), spell_numbers(numbers_of(f), joined).len()),
        ),
{
    let before = spell_align(f.align, fill_text) + spell_sign(f.sign) + spell_pretty(f.pretty);
    let n = spell_numbers(numbers_of(f), joined);
    let rest = spell_type(f._type);
    parts_do_not_clash(f, joined);
    assert(spell(f, fill_text, joined) =~= before + n + rest);
    numbers_part(before, numbers_of(f), joined, rest);
}

/// The type of a formatting specifier that was written down parses behind
/// the numeric part, and nothing is left.
proof fn type_stage(f: SpecFormatting, fill_text: Seq<char>, joined: bool)
    ensures
        parse_format_type(
            spell(f, fill_text, joined),
            (spell_align(f.align, fill_text).len() + spell_sign(f.sign).len() + spell_pretty(
                f.pretty,
            ).len() + spell_numbers(numbers_of(f), joined).len()) as int,
        ) == Ok::<(SpecFormatType, nat), SpecError>((f._type, spell_type(f._type).len())),
        spell(f, fill_text, joined).len() == spell_align(f.align, fill_text).len() + spell_sign(
            f.sign,
        ).len() + spell_pretty(f.pretty).len() + spell_numbers(numbers_of(f), joined).len()
            + spell_type(f._type).len(),
{
    let before = spell_align(f.align, fill_text) + spell_sign(f.sign) + spell_pretty(f.pretty)
        + spell_numbers(numbers_of(f), joined);
    assert(spell(f, fill_text, joined) =~= before + spell_type(f._type));
    type_part(before, f._type);
}

/// Writing a formatting specifier down as tokens, its parts in the order of
/// the grammar, and parsing those tokens gives the specifier back, and the
/// parse covers all of the tokens.
pub proof fn formatting_round_trip(f: SpecFormatting, fill_text: Seq<char>, joined: bool)
    requires
        spellable(f, joined),
    ensures
        parse_formatting(spell(f, fill_text, joined), 0) == Ok::<(SpecFormatting, nat), SpecError>(
            (f, spell(f, fill_text, joined).len()),
        ),
{
    align_stage(f, fill_text, joined);
    sign_stage(f, fill_text, joined);
    pretty_stage(f, fill_text, joined);
    numbers_stage(f, fill_text, joined);
    type_stage(f, fill_text, joined);
}

} // verus!
