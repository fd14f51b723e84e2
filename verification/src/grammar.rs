//! The grammar of the language, as functions on a sequence of characters.
//!
//! ```text
//! file        := command* END
//! command     := definition | query_get | query_count
//! definition  := "DEFINE" "bike" string "{" (property ("," property)*)? "}"
//! property    := ident ":" value
//! query_get   := "GET" "BIKES" where?
//! query_count := "COUNT" "BIKES" where?
//! where       := "WHERE" ident operator value
//! operator    := "=" | ">" | "<"
//! value       := digits "cc" | digits | string | ident
//! string      := '"' (any character but '"')* '"'
//! ident       := letter (letter | digit | '_')*
//! ```
//!
//! Blanks and line comments (`//` up to the end of the line) may stand
//! between any two tokens and mean nothing. Each function here takes the
//! whole text and a position, and gives what stands at that position and
//! where it ends, or the position at which the text stops conforming.

use vstd::prelude::*;
use crate::ast::{CommandView, ConditionView, MotorcycleView, QueryView, ValueView};
use crate::error::{Expected, SyntaxError};

verus! {

pub open spec fn is_space(c: char) -> bool {
    c == ' ' || c == '\t' || c == '\n' || c == '\r'
}

pub open spec fn is_letter(c: char) -> bool {
    ('a' <= c && c <= 'z') || ('A' <= c && c <= 'Z')
}

pub open spec fn is_digit(c: char) -> bool {
    '0' <= c && c <= '9'
}

pub open spec fn is_ident_char(c: char) -> bool {
    is_letter(c) || is_digit(c) || c == '_'
}

pub open spec fn is_operator(c: char) -> bool {
    c == '=' || c == '>' || c == '<'
}

/// The result of recognizing something at a position: its value and the
/// position behind it, or the error.
pub open spec fn fail<T>(at: int, expected: Expected) -> Result<(T, int), SyntaxError> {
    Err(SyntaxError { position: at as usize, expected })
}

/// Whether `lit` stands in `s` at position `i`.
pub open spec fn has_lit(s: Seq<char>, i: int, lit: Seq<char>) -> bool {
    0 <= i && i + lit.len() <= s.len() && s.subrange(i, i + lit.len()) == lit
}

/// The first position at or behind `i` that holds a line feed, or the end.
pub open spec fn line_end(s: Seq<char>, i: int) -> int
    decreases s.len() - i,
{
    if 0 <= i < s.len() && s[i] != '\n' {
        line_end(s, i + 1)
    } else {
        i
    }
}

/// Whether a line comment starts at `i`.
pub open spec fn starts_comment(s: Seq<char>, i: int) -> bool {
    0 <= i && i + 1 < s.len() && s[i] == '/' && s[i + 1] == '/'
}

/// The first position at or behind `i` that is neither a blank nor inside a
/// line comment.
pub open spec fn skip_trivia(s: Seq<char>, i: int) -> int
    decreases s.len() - i,
{
    if 0 <= i < s.len() && is_space(s[i]) {
        skip_trivia(s, i + 1)
    } else if starts_comment(s, i) {
        let e = line_end(s, i + 2);
        if i < e <= s.len() {
            skip_trivia(s, e)
        } else {
            i
        }
    } else {
        i
    }
}

/// The end of the run of identifier characters that starts at `i`.
pub open spec fn ident_end(s: Seq<char>, i: int) -> int
    decreases s.len() - i,
{
    if 0 <= i < s.len() && is_ident_char(s[i]) {
        ident_end(s, i + 1)
    } else {
        i
    }
}

/// The end of the run of digits that starts at `i`.
pub open spec fn digits_end(s: Seq<char>, i: int) -> int
    decreases s.len() - i,
{
    if 0 <= i < s.len() && is_digit(s[i]) {
        digits_end(s, i + 1)
    } else {
        i
    }
}

/// The first position at or behind `i` that holds a double quote, or the end.
pub open spec fn quote_pos(s: Seq<char>, i: int) -> int
    decreases s.len() - i,
{
    if 0 <= i < s.len() && s[i] != '"' {
        quote_pos(s, i + 1)
    } else {
        i
    }
}

/// The number that a run of digits denotes.
pub open spec fn digits_value(digits: Seq<char>) -> nat
    decreases digits.len(),
{
    if digits.len() == 0 {
        0
    } else {
        digits_value(digits.drop_last()) * 10 + (digits.last() as u32 - '0' as u32) as nat
    }
}

/// The number that a run of digits stands for in a program: its value, or 0
/// where the value does not fit in 32 bits.
pub open spec fn number_of(digits: Seq<char>) -> u32 {
    if digits_value(digits) <= u32::MAX {
        digits_value(digits) as u32
    } else {
        0
    }
}

/// A string literal at `i`: the text between its quotes.
pub open spec fn string_at(s: Seq<char>, i: int) -> Result<(Seq<char>, int), SyntaxError> {
    if !(0 <= i < s.len() && s[i] == '"') {
        fail(i, Expected::StringLiteral)
    } else {
        let q = quote_pos(s, i + 1);
        if 0 <= q < s.len() {
            Ok((s.subrange(i + 1, q), q + 1))
        } else {
            fail(q, Expected::ClosingQuote)
        }
    }
}

/// A value at `i`: digits with or without the unit `cc`, a string literal,
/// or a bare identifier.
pub open spec fn value_at(s: Seq<char>, i: int) -> Result<(ValueView, int), SyntaxError> {
    if 0 <= i < s.len() && is_digit(s[i]) {
        let e = digits_end(s, i);
        let n = number_of(s.subrange(i, e));
        if 0 <= e && e + 1 < s.len() && s[e] == 'c' && s[e + 1] == 'c' {
            Ok((ValueView::Number(n), e + 2))
        } else {
            Ok((ValueView::Number(n), e))
        }
    } else if 0 <= i < s.len() && s[i] == '"' {
        match string_at(s, i) {
            Ok((text, n)) => Ok((ValueView::StringLiteral(text), n)),
            Err(e) => Err(e),
        }
    } else if 0 <= i < s.len() && is_letter(s[i]) {
        let e = ident_end(s, i + 1);
        Ok((ValueView::StringType(s.subrange(i, e)), e))
    } else {
        fail(i, Expected::Value)
    }
}

/// A condition at `i`: field name, operator and value, taken as written.
pub open spec fn condition_at(s: Seq<char>, i: int) -> Result<(ConditionView, int), SyntaxError> {
    if !(0 <= i < s.len() && is_letter(s[i])) {
        fail(i, Expected::Field)
    } else {
        let e = ident_end(s, i + 1);
        let o = skip_trivia(s, e);
        if !(0 <= o < s.len() && is_operator(s[o])) {
            fail(o, Expected::Operator)
        } else {
            match value_at(s, skip_trivia(s, o + 1)) {
                Ok((value, n)) => Ok(
                    (
                        ConditionView {
                            field: s.subrange(i, e),
                            operator: s.subrange(o, o + 1),
                            value,
                        },
                        n,
                    ),
                ),
                Err(e) => Err(e),
            }
        }
    }
}

/// What stands behind `GET` or `COUNT`: the keyword `BIKES`, then a
/// condition if `WHERE` follows.
pub open spec fn query_at(s: Seq<char>, i: int) -> Result<(QueryView, int), SyntaxError> {
    let a = skip_trivia(s, i);
    if !has_lit(s, a, "BIKES"@) {
        fail(a, Expected::BikesKeyword)
    } else {
        let b = a + "BIKES"@.len();
        let w = skip_trivia(s, b);
        if has_lit(s, w, "WHERE"@) {
            match condition_at(s, skip_trivia(s, w + "WHERE"@.len())) {
                Ok((c, n)) => Ok((QueryView { condition: Some(c) }, n)),
                Err(e) => Err(e),
            }
        } else {
            Ok((QueryView { condition: None }, b))
        }
    }
}

/// The record after a property: `year` and `engine` take the value as a
/// number, `type` takes it as text, any other name changes nothing.
pub open spec fn apply_property(bike: MotorcycleView, field: Seq<char>, value: ValueView)
    -> MotorcycleView {
    if field == "year"@ {
        MotorcycleView { year: Some(value.as_number()), ..bike }
    } else if field == "engine"@ {
        MotorcycleView { engine_cc: Some(value.as_number()), ..bike }
    } else if field == "type"@ {
        MotorcycleView { bike_type: Some(value.as_text()), ..bike }
    } else {
        bike
    }
}

/// A property at `p`: its name and its value.
pub open spec fn property_at(s: Seq<char>, p: int) -> Result<
    ((Seq<char>, ValueView), int),
    SyntaxError,
> {
    if !(0 <= p < s.len() && is_letter(s[p])) {
        fail(p, Expected::Property)
    } else {
        let e = ident_end(s, p + 1);
        let colon = skip_trivia(s, e);
        if !(0 <= colon < s.len() && s[colon] == ':') {
            fail(colon, Expected::Colon)
        } else {
            match value_at(s, skip_trivia(s, colon + 1)) {
                Ok((value, n)) => Ok(((s.subrange(p, e), value), n)),
                Err(err) => Err(err),
            }
        }
    }
}

/// The properties from the one at `p` up to the closing brace, applied to
/// `bike` from left to right.
pub open spec fn properties_at(s: Seq<char>, p: int, bike: MotorcycleView) -> Result<
    (MotorcycleView, int),
    SyntaxError,
>
    decreases s.len() - p,
{
    match property_at(s, p) {
        Err(err) => Err(err),
        Ok((property, n)) => {
            let next = apply_property(bike, property.0, property.1);
            let t = skip_trivia(s, n);
            if 0 <= t < s.len() && s[t] == '}' {
                Ok((next, t + 1))
            } else if 0 <= t < s.len() && s[t] == ',' {
                let u = skip_trivia(s, t + 1);
                if p < u <= s.len() {
                    properties_at(s, u, next)
                } else {
                    fail(u, Expected::Property)
                }
            } else {
                fail(t, Expected::CommaOrCloseBrace)
            }
        },
    }
}

/// What stands behind `DEFINE`: the keyword `bike`, the name, and the
/// property block.
pub open spec fn definition_at(s: Seq<char>, i: int) -> Result<(MotorcycleView, int), SyntaxError> {
    let a = skip_trivia(s, i);
    if !has_lit(s, a, "bike"@) {
        fail(a, Expected::BikeKeyword)
    } else {
        match string_at(s, skip_trivia(s, a + "bike"@.len())) {
            Err(e) => Err(e),
            Ok((name, d)) => {
                let o = skip_trivia(s, d);
                if !(0 <= o < s.len() && s[o] == '{') {
                    fail(o, Expected::OpenBrace)
                } else {
                    let p = skip_trivia(s, o + 1);
                    let bike = MotorcycleView {
                        name,
                        year: None,
                        engine_cc: None,
                        bike_type: None,
                    };
                    if 0 <= p < s.len() && s[p] == '}' {
                        Ok((bike, p + 1))
                    } else if 0 <= p < s.len() && is_letter(s[p]) {
                        properties_at(s, p, bike)
                    } else {
                        fail(p, Expected::PropertyOrCloseBrace)
                    }
                }
            },
        }
    }
}

/// A command at `i`.
pub open spec fn command_at(s: Seq<char>, i: int) -> Result<(CommandView, int), SyntaxError> {
    if has_lit(s, i, "DEFINE"@) {
        match definition_at(s, i + "DEFINE"@.len()) {
            Ok((m, n)) => Ok((CommandView::Definition(m), n)),
            Err(e) => Err(e),
        }
    } else if has_lit(s, i, "GET"@) {
        match query_at(s, i + "GET"@.len()) {
            Ok((q, n)) => Ok((CommandView::Get(q), n)),
            Err(e) => Err(e),
        }
    } else if has_lit(s, i, "COUNT"@) {
        match query_at(s, i + "COUNT"@.len()) {
            Ok((q, n)) => Ok((CommandView::Count(q), n)),
            Err(e) => Err(e),
        }
    } else {
        fail(i, Expected::CommandOrEnd)
    }
}

/// The commands from `i` to the end of the text, appended to `acc`.
pub open spec fn commands_from(s: Seq<char>, i: int, acc: Seq<CommandView>) -> Result<
    Seq<CommandView>,
    SyntaxError,
>
    decreases s.len() - i,
{
    let a = skip_trivia(s, i);
    if !(0 <= a < s.len()) {
        Ok(acc)
    } else {
        match command_at(s, a) {
            Err(e) => Err(e),
            Ok((c, n)) => if i < n <= s.len() {
                commands_from(s, n, acc.push(c))
            } else {
                Err(SyntaxError { position: a as usize, expected: Expected::CommandOrEnd })
            },
        }
    }
}

/// The program that a whole text denotes, or the error that rejects it.
pub open spec fn recognize(s: Seq<char>) -> Result<Seq<CommandView>, SyntaxError> {
    commands_from(s, 0, Seq::empty())
}

/// An executable result agrees with what the grammar gives.
pub open spec fn agrees<T: View>(
    r: Result<(T, usize), SyntaxError>,
    m: Result<(T::V, int), SyntaxError>,
) -> bool {
    match (r, m) {
        (Ok(a), Ok(b)) => a.0@ == b.0 && a.1 == b.1,
        (Err(e), Err(f)) => e == f,
        _ => false,
    }
}

} // verus!
