//! Writing a definition out as text and recognizing it again gives the
//! definition back.

use vstd::prelude::*;
use crate::ast::{CommandView, MotorcycleView, ValueView};
use crate::error::SyntaxError;
use crate::grammar::{apply_property, command_at, commands_from, definition_at, has_lit,
    properties_at, property_at, recognize, skip_trivia, value_at};
use crate::laws::{is_identifier, lemma_decimal_denotes, lemma_identifier_read_back,
    lemma_number_read_back, lemma_part_chars, lemma_string_read_back};
use crate::text::decimal;

verus! {

/// A property as written: its name and its value.
pub type PropertyView = (Seq<char>, ValueView);

/// The text of a value: a number in decimal, an identifier as it is, a
/// string between double quotes.
pub open spec fn render_value(v: ValueView) -> Seq<char> {
    match v {
        ValueView::Number(n) => decimal(n as nat),
        ValueView::StringType(t) => t,
        ValueView::StringLiteral(t) => seq!['"'] + t + seq!['"'],
    }
}

/// Whether a value can be written so that it is read back: a bare text must
/// be an identifier, a quoted text must hold no double quote.
pub open spec fn renderable(v: ValueView) -> bool {
    match v {
        ValueView::Number(_) => true,
        ValueView::StringType(t) => is_identifier(t),
        ValueView::StringLiteral(t) => forall|k: int| 0 <= k < t.len() ==> #[trigger] t[k] != '"',
    }
}

/// Every property has an identifier as its name and a value that can be
/// written.
pub open spec fn writable(props: Seq<PropertyView>) -> bool {
    forall|k: int|
        0 <= k < props.len() ==> is_identifier((#[trigger] props[k]).0) && renderable(props[k].1)
}

/// The text of a property block behind its opening brace: the properties,
/// separated by commas, and the closing brace.
pub open spec fn render_properties(props: Seq<PropertyView>) -> Seq<char>
    decreases props.len(),
{
    if props.len() == 0 {
        seq!['}']
    } else if props.len() == 1 {
        props[0].0 + seq![':'] + render_value(props[0].1) + seq!['}']
    } else {
        props[0].0 + seq![':'] + render_value(props[0].1) + seq![','] + render_properties(
            props.drop_first(),
        )
    }
}

/// The text of a definition.
pub open spec fn render_definition(name: Seq<char>, props: Seq<PropertyView>) -> Seq<char> {
    "DEFINE"@ + " bike"@ + seq![' ', '"'] + name + seq!['"', ' ', '{'] + render_properties(props)
}

/// The record after the properties, applied from left to right.
pub open spec fn apply_properties(bike: MotorcycleView, props: Seq<PropertyView>) -> MotorcycleView
    decreases props.len(),
{
    if props.len() == 0 {
        bike
    } else {
        apply_properties(apply_property(bike, props[0].0, props[0].1), props.drop_first())
    }
}

/// The record that holds a name and nothing else.
pub open spec fn bare(name: Seq<char>) -> MotorcycleView {
    MotorcycleView { name, year: None, engine_cc: None, bike_type: None }
}

/// Where `a + b` stands at `i`, `a` stands at `i` and `b` behind it.
pub proof fn lemma_split(s: Seq<char>, i: int, a: Seq<char>, b: Seq<char>)
    requires
        has_lit(s, i, a + b),
    ensures
        has_lit(s, i, a),
        has_lit(s, i + a.len(), b),
{
    lemma_part_chars(s, i, a + b);
    assert(s.subrange(i, i + a.len()) =~= a) by {
        assert forall|k: int| 0 <= k < a.len() implies s.subrange(i, i + a.len())[k] == a[k] by {
            assert(s[i + k] == (a + b)[i + k - i]);
        }
    }
    assert(s.subrange(i + a.len(), i + a.len() + b.len()) =~= b) by {
        assert forall|k: int| 0 <= k < b.len() implies s.subrange(
            i + a.len(),
            i + a.len() + b.len(),
        )[k] == b[k] by {
            assert(s[i + a.len() + k] == (a + b)[i + a.len() + k - i]);
        }
    }
}

/// A written value that a comma or a closing brace follows is read back.
pub proof fn lemma_value_read_back(s: Seq<char>, i: int, v: ValueView)
    requires
        renderable(v),
        has_lit(s, i, render_value(v)),
        i + render_value(v).len() < s.len(),
        s[i + render_value(v).len()] == ',' || s[i + render_value(v).len()] == '}',
    ensures
        render_value(v).len() > 0,
        !(s[i] == ' ' || s[i] == '\t' || s[i] == '\n' || s[i] == '\r' || s[i] == '/'),
        value_at(s, i) == Ok::<(ValueView, int), SyntaxError>((v, i + render_value(v).len())),
{
    let text = render_value(v);
    lemma_part_chars(s, i, text);
    match v {
        ValueView::Number(n) => {
            lemma_decimal_denotes(n as nat);
            assert(s[i] == text[0]);
            lemma_number_read_back(s, i, n);
        },
        ValueView::StringType(t) => {
            assert(s[i] == t[0]);
            lemma_identifier_read_back(s, i, t);
        },
        ValueView::StringLiteral(t) => {
            assert(s[i] == text[0]);
            assert(s[i + 1 + t.len()] == text[1 + t.len() as int]);
            lemma_split(s, i, seq!['"'] + t, seq!['"']);
            lemma_split(s, i, seq!['"'], t);
            lemma_string_read_back(s, i, t);
        },
    }
}

/// A written property block is read back as its properties, applied in
/// order.
pub proof fn lemma_properties_read_back(
    s: Seq<char>,
    p: int,
    props: Seq<PropertyView>,
    bike: MotorcycleView,
)
    requires
        props.len() > 0,
        writable(props),
        has_lit(s, p, render_properties(props)),
    ensures
        properties_at(s, p, bike) == Ok::<(MotorcycleView, int), SyntaxError>(
            (apply_properties(bike, props), p + render_properties(props).len()),
        ),
    decreases props.len(),
{
    let field = props[0].0;
    let value = props[0].1;
    let text = render_value(value);
    let head = field + seq![':'] + text;
    let colon = p + field.len();
    let n = colon + 1 + text.len();
    let next = apply_property(bike, field, value);
    let rest = props.drop_first();
    if props.len() == 1 {
        lemma_split(s, p, head, seq!['}']);
        lemma_part_chars(s, n, seq!['}']);
        assert(s[n] == '}');
        assert(apply_properties(next, rest) == next);
    } else {
        lemma_split(s, p, head + seq![','], render_properties(rest));
        lemma_split(s, p, head, seq![',']);
        lemma_part_chars(s, n, seq![',']);
        assert(s[n] == ',');
        assert(writable(rest)) by {
            assert forall|k: int| 0 <= k < rest.len() implies is_identifier(
                (#[trigger] rest[k]).0,
            ) && renderable(rest[k].1) by {
                assert(rest[k] == props[k + 1]);
            }
        }
        lemma_properties_read_back(s, n + 1, rest, next);
        // the next property starts with a letter
        let after = render_properties(rest);
        lemma_part_chars(s, n + 1, after);
        assert(after[0] == rest[0].0[0]);
        assert(s[n + 1] == after[0]);
        assert(skip_trivia(s, n + 1) == n + 1);
    }
    lemma_split(s, p, field + seq![':'], text);
    lemma_split(s, p, field, seq![':']);
    lemma_part_chars(s, colon, seq![':']);
    assert(s[colon] == ':');
    lemma_identifier_read_back(s, p, field);
    lemma_part_chars(s, p, field);
    assert(s[p] == field[0]);
    assert(s.subrange(p, colon) == field);
    assert(skip_trivia(s, colon) == colon);
    lemma_value_read_back(s, colon + 1, value);
    assert(skip_trivia(s, colon + 1) == colon + 1);
    assert(property_at(s, p) == Ok::<(PropertyView, int), SyntaxError>(((field, value), n)));
    assert(skip_trivia(s, n) == n);
}

/// How the text of a definition is laid out: the keywords, the quoted
/// name, the opening brace and the property block, each at its place.
pub open spec fn laid_out(s: Seq<char>, name: Seq<char>, block: Seq<char>) -> bool {
    &&& s.len() == 16 + name.len() + block.len()
    &&& has_lit(s, 0, "DEFINE"@)
    &&& s[6] == ' '
    &&& has_lit(s, 7, "bike"@)
    &&& s[11] == ' '
    &&& s[12] == '"'
    &&& has_lit(s, 13, name)
    &&& s[13int + name.len()] == '"'
    &&& s[14int + name.len()] == ' '
    &&& s[15int + name.len()] == '{'
    &&& has_lit(s, 16int + name.len(), block)
}

/// The text of a definition is laid out as `laid_out` says.
pub proof fn lemma_layout(name: Seq<char>, props: Seq<PropertyView>)
    ensures
        "DEFINE"@.len() == 6,
        "bike"@.len() == 4,
        laid_out(render_definition(name, props), name, render_properties(props)),
{
    reveal_strlit("DEFINE");
    reveal_strlit(" bike");
    reveal_strlit("bike");
    let s = render_definition(name, props);
    let block = render_properties(props);
    let head = "DEFINE"@ + " bike"@ + seq![' ', '"'] + name + seq!['"', ' ', '{'];
    assert(s.subrange(0, s.len() as int) =~= s);
    assert(has_lit(s, 0, head + block));
    lemma_split(s, 0, head, block);
    lemma_split(s, 0, "DEFINE"@ + " bike"@ + seq![' ', '"'] + name, seq!['"', ' ', '{']);
    lemma_split(s, 0, "DEFINE"@ + " bike"@ + seq![' ', '"'], name);
    lemma_split(s, 0, "DEFINE"@ + " bike"@, seq![' ', '"']);
    lemma_split(s, 0, "DEFINE"@, " bike"@);
    lemma_part_chars(s, 6, " bike"@);
    lemma_part_chars(s, 11, seq![' ', '"']);
    lemma_part_chars(s, 13int + name.len(), seq!['"', ' ', '{']);
    assert(s[6] == " bike"@[0]);
    assert(s[11] == seq![' ', '"'][0]);
    assert(s[12] == seq![' ', '"'][1]);
    assert(s[13int + name.len()] == seq!['"', ' ', '{'][0]);
    assert(s[14int + name.len()] == seq!['"', ' ', '{'][1]);
    assert(s[15int + name.len()] == seq!['"', ' ', '{'][2]);
    assert(s.subrange(7, 11) =~= "bike"@) by {
        assert forall|k: int| 0 <= k < 4 implies s.subrange(7, 11)[k] == "bike"@[k] by {
            assert(s[7 + k] == " bike"@[7 + k - 6]);
        }
    }
}

/// What stands behind `DEFINE` in a text laid out as a definition is read
/// back as the record with that name and those properties.
pub proof fn lemma_definition_read_back(s: Seq<char>, name: Seq<char>, props: Seq<PropertyView>)
    requires
        "bike"@.len() == 4,
        laid_out(s, name, render_properties(props)),
        forall|k: int| 0 <= k < name.len() ==> #[trigger] name[k] != '"',
        writable(props),
    ensures
        definition_at(s, 6) == Ok::<(MotorcycleView, int), SyntaxError>(
            (apply_properties(bare(name), props), s.len() as int),
        ),
{
    let block = render_properties(props);
    let open: int = 15int + name.len();
    let p: int = open + 1;
    lemma_part_chars(s, 7, "bike"@);
    assert(s[7] == "bike"@[0]);
    assert(skip_trivia(s, 7) == 7) by {
        reveal_strlit("bike");
    }
    assert(skip_trivia(s, 6) == 7);
    assert(skip_trivia(s, 12) == 12);
    assert(skip_trivia(s, 11) == 12);
    lemma_string_read_back(s, 12, name);
    assert(skip_trivia(s, open) == open);
    assert(skip_trivia(s, open - 1) == open);
    lemma_part_chars(s, p, block);
    assert(s[p] == block[0]);
    if props.len() == 0 {
        assert(skip_trivia(s, p) == p);
    } else {
        assert(block[0] == props[0].0[0]);
        assert(skip_trivia(s, p) == p);
        lemma_properties_read_back(s, p, props, bare(name));
    }
}

/// Recognizing the text of a definition gives the one command that defines
/// the record with that name and those properties.
pub proof fn lemma_definition_round_trip(name: Seq<char>, props: Seq<PropertyView>)
    requires
        forall|k: int| 0 <= k < name.len() ==> #[trigger] name[k] != '"',
        writable(props),
    ensures
        recognize(render_definition(name, props)) == Ok::<Seq<CommandView>, SyntaxError>(
            seq![CommandView::Definition(apply_properties(bare(name), props))],
        ),
{
    let s = render_definition(name, props);
    lemma_layout(name, props);
    lemma_definition_read_back(s, name, props);
    let end = s.len() as int;
    let done = seq![CommandView::Definition(apply_properties(bare(name), props))];
    lemma_part_chars(s, 0, "DEFINE"@);
    assert(s[0] == "DEFINE"@[0]);
    assert(skip_trivia(s, 0) == 0) by {
        reveal_strlit("DEFINE");
    }
    assert(command_at(s, 0) == Ok::<(CommandView, int), SyntaxError>((done[0], end)));
    assert(skip_trivia(s, end) == end);
    assert(Seq::<CommandView>::empty().push(done[0]) =~= done);
    assert(commands_from(s, end, done) == Ok::<Seq<CommandView>, SyntaxError>(done));
}

/// Applying `a + b` is applying `a`, then `b`.
pub proof fn lemma_apply_concat(bike: MotorcycleView, a: Seq<PropertyView>, b: Seq<PropertyView>)
    ensures
        apply_properties(bike, a + b) == apply_properties(apply_properties(bike, a), b),
    decreases a.len(),
{
    if a.len() == 0 {
        assert(a + b =~= b);
    } else {
        assert((a + b).drop_first() =~= a.drop_first() + b);
        assert((a + b)[0] == a[0]);
        lemma_apply_concat(apply_property(bike, a[0].0, a[0].1), a.drop_first(), b);
    }
}

/// The three field names are identifiers, and no two of them are equal.
pub proof fn lemma_field_names()
    ensures
        is_identifier("year"@),
        is_identifier("engine"@),
        is_identifier("type"@),
        "year"@ != "engine"@,
        "year"@ != "type"@,
        "engine"@ != "type"@,
{
    reveal_strlit("year");
    reveal_strlit("engine");
    reveal_strlit("type");
    assert("year"@.len() == 4 && "type"@.len() == 4 && "engine"@.len() == 6);
    assert("year"@[0] == 'y' && "year"@[1] == 'e' && "year"@[2] == 'a' && "year"@[3] == 'r');
    assert("type"@[0] == 't' && "type"@[1] == 'y' && "type"@[2] == 'p' && "type"@[3] == 'e');
    assert("engine"@[0] == 'e' && "engine"@[1] == 'n' && "engine"@[2] == 'g' && "engine"@[3]
        == 'i' && "engine"@[4] == 'n' && "engine"@[5] == 'e');
}

/// The properties that write a record out: `year`, `engine` and `type`, in
/// this order, each only where the record has the field.
pub open spec fn properties_of(m: MotorcycleView) -> Seq<PropertyView> {
    let year = match m.year {
        Some(y) => seq![("year"@, ValueView::Number(y))],
        None => Seq::empty(),
    };
    let engine = match m.engine_cc {
        Some(e) => seq![("engine"@, ValueView::Number(e))],
        None => Seq::empty(),
    };
    let kind = match m.bike_type {
        Some(t) => seq![("type"@, ValueView::StringType(t))],
        None => Seq::empty(),
    };
    year + engine + kind
}

/// Whether a record can be written out so that it is read back: its name
/// holds no double quote, and its type, where it has one, is an identifier.
pub open spec fn recordable(m: MotorcycleView) -> bool {
    &&& forall|k: int| 0 <= k < m.name.len() ==> #[trigger] m.name[k] != '"'
    &&& match m.bike_type {
        Some(t) => is_identifier(t),
        None => true,
    }
}

/// The properties that write a record out can be written, and applied to
/// the bare record of its name they give the record.
pub proof fn lemma_properties_of(m: MotorcycleView)
    requires
        recordable(m),
    ensures
        writable(properties_of(m)),
        apply_properties(bare(m.name), properties_of(m)) == m,
{
    lemma_field_names();
    let year = match m.year {
        Some(y) => seq![("year"@, ValueView::Number(y))],
        None => Seq::empty(),
    };
    let engine = match m.engine_cc {
        Some(e) => seq![("engine"@, ValueView::Number(e))],
        None => Seq::empty(),
    };
    let kind = match m.bike_type {
        Some(t) => seq![("type"@, ValueView::StringType(t))],
        None => Seq::empty(),
    };
    let b0 = bare(m.name);
    let b1 = apply_properties(b0, year);
    let b2 = apply_properties(b1, engine);
    let b3 = apply_properties(b2, kind);
    lemma_apply_concat(b0, year + engine, kind);
    lemma_apply_concat(b0, year, engine);
    assert(b1 == MotorcycleView { year: m.year, ..b0 }) by {
        if m.year is Some {
            assert(year.drop_first().len() == 0);
            assert(apply_properties(apply_property(b0, year[0].0, year[0].1), year.drop_first())
                == apply_property(b0, year[0].0, year[0].1));
        }
    }
    assert(b2 == MotorcycleView { engine_cc: m.engine_cc, ..b1 }) by {
        if m.engine_cc is Some {
            assert(engine.drop_first().len() == 0);
            assert(apply_properties(
                apply_property(b1, engine[0].0, engine[0].1),
                engine.drop_first(),
            ) == apply_property(b1, engine[0].0, engine[0].1));
        }
    }
    assert(b3 == MotorcycleView { bike_type: m.bike_type, ..b2 }) by {
        if m.bike_type is Some {
            assert(kind.drop_first().len() == 0);
            assert(apply_properties(apply_property(b2, kind[0].0, kind[0].1), kind.drop_first())
                == apply_property(b2, kind[0].0, kind[0].1));
        }
    }
    let all = properties_of(m);
    assert forall|k: int| 0 <= k < all.len() implies is_identifier((#[trigger] all[k]).0)
        && renderable(all[k].1) by {
        if k < year.len() {
            assert(all[k] == year[k]);
        } else if k < year.len() + engine.len() {
            assert(all[k] == engine[k - year.len()]);
        } else {
            assert(all[k] == kind[k - year.len() - engine.len()]);
        }
    }
}

/// Writing a record out as a definition and recognizing the text gives the
/// one command that defines that very record: name, year, engine and type
/// come back exactly, the absent ones absent.
pub proof fn lemma_record_round_trip(m: MotorcycleView)
    requires
        recordable(m),
    ensures
        recognize(render_definition(m.name, properties_of(m))) == Ok::<
            Seq<CommandView>,
            SyntaxError,
        >(seq![CommandView::Definition(m)]),
{
    lemma_properties_of(m);
    lemma_definition_round_trip(m.name, properties_of(m));
}

} // verus!
