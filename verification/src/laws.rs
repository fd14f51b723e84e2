//! Laws of the interpreter, and what the grammar reads back from written
//! numbers, strings and identifiers.

use vstd::prelude::*;
use crate::ast::{CommandView, ConditionView, MotorcycleView, QueryView, ValueView};
use crate::garage::{run_output, run_store, selected};
use crate::error::SyntaxError;
use crate::grammar::{digits_end, digits_value, has_lit, ident_end, is_digit,
    is_ident_char, is_letter, is_space, line_end, number_of, quote_pos, skip_trivia,
    starts_comment, string_at, value_at};
use crate::text::{decimal, digit_char};

verus! {

/// Every command of the program is a definition.
pub open spec fn only_definitions(program: Seq<CommandView>) -> bool {
    forall|k: int| 0 <= k < program.len() ==> (#[trigger] program[k]) is Definition
}

/// A program that holds only definitions produces no output line, from
/// whatever store it starts, and stores one record per command.
pub proof fn lemma_definitions_are_silent(store: Seq<MotorcycleView>, program: Seq<CommandView>)
    requires
        only_definitions(program),
    ensures
        run_output(store, program) == Seq::<Seq<char>>::empty(),
        run_store(store, program).len() == store.len() + program.len(),
    decreases program.len(),
{
    if program.len() > 0 {
        lemma_definitions_are_silent(store, program.drop_last());
        assert(program.last() is Definition);
        assert(run_output(store, program) =~= Seq::<Seq<char>>::empty());
    }
}

/// A query without a condition selects every record of the store, in
/// insertion order.
pub proof fn lemma_absent_condition_selects_all(store: Seq<MotorcycleView>)
    ensures
        selected(store, QueryView { condition: None }) == store,
    decreases store.len(),
{
    let q = QueryView { condition: None };
    if store.len() == 0 {
        store.lemma_filter_len(q.predicate());
        assert(store.filter(q.predicate()) =~= store);
    } else {
        lemma_absent_condition_selects_all(store.drop_last());
        store.drop_last().lemma_filter_push(store.last(), q.predicate());
        assert(store.drop_last().push(store.last()) =~= store);
    }
}

/// Running the same program from two fresh stores gives the same output
/// and the same final store.
pub proof fn lemma_fresh_runs_agree(
    first: Seq<MotorcycleView>,
    second: Seq<MotorcycleView>,
    program: Seq<CommandView>,
)
    requires
        first.len() == 0,
        second.len() == 0,
    ensures
        run_output(first, program) == run_output(second, program),
        run_store(first, program) == run_store(second, program),
{
    assert(first =~= second);
}

/// A condition on a field other than `type`, `year` and `engine` matches no
/// record and selects nothing, whatever the store holds.
pub proof fn lemma_unknown_field_selects_nothing(store: Seq<MotorcycleView>, c: ConditionView)
    requires
        c.field != "type"@,
        c.field != "year"@,
        c.field != "engine"@,
    ensures
        forall|m: MotorcycleView| !m.matches(c),
        selected(store, QueryView { condition: Some(c) }) == Seq::<MotorcycleView>::empty(),
{
    let q = QueryView { condition: Some(c) };
    let found = store.filter(q.predicate());
    if found.len() > 0 {
        store.lemma_filter_pred(q.predicate(), 0);
        assert(found[0].matches(c));
    }
    assert(found =~= Seq::<MotorcycleView>::empty());
}

/// The digits of a number's decimal form are digits, and they denote it.
pub proof fn lemma_decimal_denotes(n: nat)
    ensures
        decimal(n).len() > 0,
        forall|k: int| 0 <= k < decimal(n).len() ==> is_digit(#[trigger] decimal(n)[k]),
        digits_value(decimal(n)) == n,
    decreases n,
{
    if n < 10 {
        assert(decimal(n).drop_last() =~= Seq::<char>::empty());
        assert(decimal(n).last() == digit_char(n));
        assert(digits_value(decimal(n).drop_last()) == 0);
    } else {
        lemma_decimal_denotes(n / 10);
        assert(decimal(n).drop_last() =~= decimal(n / 10));
        assert(decimal(n).last() == digit_char(n % 10));
    }
}

/// A number written in decimal is read back as itself.
pub proof fn lemma_number_round_trip(n: u32)
    ensures
        number_of(decimal(n as nat)) == n,
{
    lemma_decimal_denotes(n as nat);
}

/// Skipping blanks and comments moves forward, stays inside the text, and
/// stops at its end or at a character that is neither a blank nor the
/// start of a comment; skipping again from there changes nothing.
pub proof fn lemma_skip_trivia_stops(s: Seq<char>, i: int)
    requires
        0 <= i <= s.len(),
    ensures
        i <= skip_trivia(s, i) <= s.len(),
        skip_trivia(s, i) < s.len() ==> !is_space(s[skip_trivia(s, i)]) && !starts_comment(
            s,
            skip_trivia(s, i),
        ),
        skip_trivia(s, skip_trivia(s, i)) == skip_trivia(s, i),
    decreases s.len() - i,
{
    if i < s.len() && is_space(s[i]) {
        lemma_skip_trivia_stops(s, i + 1);
    } else if starts_comment(s, i) {
        lemma_line_end_bounds(s, i + 2);
        lemma_skip_trivia_stops(s, line_end(s, i + 2));
    }
}

/// The end of a line lies at or behind the position it is sought from, and
/// inside the text.
pub proof fn lemma_line_end_bounds(s: Seq<char>, i: int)
    requires
        0 <= i <= s.len(),
    ensures
        i <= line_end(s, i) <= s.len(),
    decreases s.len() - i,
{
    if i < s.len() && s[i] != '\n' {
        lemma_line_end_bounds(s, i + 1);
    }
}

/// A run of digits from `i` up to `j` that no digit follows ends at `j`.
pub proof fn lemma_digits_end(s: Seq<char>, i: int, j: int)
    requires
        0 <= i <= j <= s.len(),
        forall|k: int| i <= k < j ==> is_digit(#[trigger] s[k]),
        j < s.len() ==> !is_digit(s[j]),
    ensures
        digits_end(s, i) == j,
    decreases j - i,
{
    if i < j {
        lemma_digits_end(s, i + 1, j);
    }
}

/// A run of identifier characters from `i` up to `j` that none follows ends
/// at `j`.
pub proof fn lemma_ident_end(s: Seq<char>, i: int, j: int)
    requires
        0 <= i <= j <= s.len(),
        forall|k: int| i <= k < j ==> is_ident_char(#[trigger] s[k]),
        j < s.len() ==> !is_ident_char(s[j]),
    ensures
        ident_end(s, i) == j,
    decreases j - i,
{
    if i < j {
        lemma_ident_end(s, i + 1, j);
    }
}

/// The first double quote at or behind `i` stands at `j` where none stands
/// between them.
pub proof fn lemma_quote_pos(s: Seq<char>, i: int, j: int)
    requires
        0 <= i <= j <= s.len(),
        forall|k: int| i <= k < j ==> #[trigger] s[k] != '"',
        j < s.len() ==> s[j] == '"',
    ensures
        quote_pos(s, i) == j,
    decreases j - i,
{
    if i < j {
        lemma_quote_pos(s, i + 1, j);
    }
}

/// The characters of a part that stands in `s` at `i` are those of `s`.
pub proof fn lemma_part_chars(s: Seq<char>, i: int, part: Seq<char>)
    requires
        has_lit(s, i, part),
    ensures
        forall|k: int| i <= k < i + part.len() ==> #[trigger] s[k] == part[k - i],
{
    assert forall|k: int| i <= k < i + part.len() implies #[trigger] s[k] == part[k - i] by {
        assert(s.subrange(i, i + part.len())[k - i] == s[k]);
    }
}

/// Whether `t` is an identifier: a letter, then letters, digits and `_`.
pub open spec fn is_identifier(t: Seq<char>) -> bool {
    &&& t.len() > 0
    &&& is_letter(t[0])
    &&& forall|k: int| 0 <= k < t.len() ==> is_ident_char(#[trigger] t[k])
}

/// A number written in decimal at `i`, with no digit behind it, is read back
/// as that number; the unit `cc` behind it is taken with it.
pub proof fn lemma_number_read_back(s: Seq<char>, i: int, n: u32)
    requires
        has_lit(s, i, decimal(n as nat)),
        i + decimal(n as nat).len() < s.len() ==> !is_digit(s[i + decimal(n as nat).len()]),
    ensures
        ({
            let j = i + decimal(n as nat).len();
            let unit = j + 1 < s.len() && s[j] == 'c' && s[j + 1] == 'c';
            value_at(s, i) == Ok::<(ValueView, int), SyntaxError>(
                (ValueView::Number(n), if unit { j + 2 } else { j }),
            )
        }),
{
    let digits = decimal(n as nat);
    let j = i + digits.len();
    lemma_decimal_denotes(n as nat);
    lemma_part_chars(s, i, digits);
    assert forall|k: int| i <= k < j implies is_digit(#[trigger] s[k]) by {
        assert(is_digit(digits[k - i]));
    }
    assert(is_digit(s[i]));
    lemma_digits_end(s, i, j);
}

/// A quoted text at `i` whose inside holds no double quote is read back as
/// that inside.
pub proof fn lemma_string_read_back(s: Seq<char>, i: int, inside: Seq<char>)
    requires
        0 <= i,
        i + inside.len() + 2 <= s.len(),
        s[i] == '"',
        has_lit(s, i + 1, inside),
        s[i + 1 + inside.len()] == '"',
        forall|k: int| 0 <= k < inside.len() ==> #[trigger] inside[k] != '"',
    ensures
        string_at(s, i) == Ok::<(Seq<char>, int), SyntaxError>((inside, i + inside.len() + 2)),
        value_at(s, i) == Ok::<(ValueView, int), SyntaxError>(
            (ValueView::StringLiteral(inside), i + inside.len() + 2),
        ),
{
    lemma_part_chars(s, i + 1, inside);
    assert forall|k: int| i + 1 <= k < i + 1 + inside.len() implies #[trigger] s[k] != '"' by {
        assert(inside[k - (i + 1)] != '"');
    }
    lemma_quote_pos(s, i + 1, i + 1 + inside.len());
}

/// An identifier at `i`, with no identifier character behind it, is read
/// back as that identifier.
pub proof fn lemma_identifier_read_back(s: Seq<char>, i: int, t: Seq<char>)
    requires
        is_identifier(t),
        has_lit(s, i, t),
        i + t.len() < s.len() ==> !is_ident_char(s[i + t.len()]),
    ensures
        ident_end(s, i + 1) == i + t.len(),
        value_at(s, i) == Ok::<(ValueView, int), SyntaxError>(
            (ValueView::StringType(t), i + t.len()),
        ),
{
    lemma_part_chars(s, i, t);
    assert forall|k: int| i <= k < i + t.len() implies is_ident_char(#[trigger] s[k]) by {
        assert(is_ident_char(t[k - i]));
    }
    assert(s[i] == t[0]);
    lemma_ident_end(s, i + 1, i + t.len());
}

} // verus!
