//! The recognizer: turns source text into a program, following the grammar.

use vstd::prelude::*;
use crate::ast::{program_view, Command, CommandView, Condition, Motorcycle, Query, Value};
use crate::error::{Expected, MotoError, SyntaxError};
use crate::grammar::{agrees, apply_property, command_at, commands_from, condition_at,
    definition_at, digits_end, digits_value, has_lit, ident_end, is_digit, is_ident_char,
    is_letter, is_operator, is_space, line_end, number_of, properties_at, property_at, query_at,
    quote_pos, recognize, skip_trivia, string_at, value_at};
use crate::text::same_text;

verus! {

fn space(c: char) -> (r: bool)
    ensures
        r == is_space(c),
{
    c == ' ' || c == '\t' || c == '\n' || c == '\r'
}

fn letter(c: char) -> (r: bool)
    ensures
        r == is_letter(c),
{
    ('a' <= c && c <= 'z') || ('A' <= c && c <= 'Z')
}

fn digit(c: char) -> (r: bool)
    ensures
        r == is_digit(c),
{
    '0' <= c && c <= '9'
}

fn ident_char(c: char) -> (r: bool)
    ensures
        r == is_ident_char(c),
{
    letter(c) || digit(c) || c == '_'
}

fn operator(c: char) -> (r: bool)
    ensures
        r == is_operator(c),
{
    c == '=' || c == '>' || c == '<'
}

fn error<T>(position: usize, expected: Expected) -> (r: Result<T, SyntaxError>)
    ensures
        r == Err::<T, SyntaxError>(SyntaxError { position, expected }),
{
    Err(SyntaxError { position, expected })
}

/// A source text, held for recognition.
#[derive(Debug)]
pub struct MotogarageParser {
    text: String,
    chars: Vec<char>,
}

impl View for MotogarageParser {
    type V = Seq<char>;

    closed spec fn view(&self) -> Seq<char> {
        self.text@
    }
}

impl MotogarageParser {
    /// The characters are those of the text.
    pub closed spec fn wf(&self) -> bool {
        self.chars@ == self.text@
    }

    /// Holds `input` for recognition.
    pub fn new(input: &str) -> (p: MotogarageParser)
        ensures
            p.wf(),
            p@ == input@,
    {
        let mut chars: Vec<char> = Vec::new();
        for c in it: input.chars()
            invariant
                it.seq() == input@,
                chars@ == input@.take(it.index() as int),
        {
            proof {
                assert(input@.take(it.index() as int + 1) =~= input@.take(it.index() as int).push(
                    c,
                ));
            }
            chars.push(c);
        }
        proof {
            assert(input@.take(input@.len() as int) =~= input@);
        }
        MotogarageParser { text: String::from_str(input), chars }
    }

    /// The number of characters of the text.
    pub fn len(&self) -> (n: usize)
        requires
            self.wf(),
        ensures
            n == self@.len(),
    {
        self.chars.len()
    }

    /// The text from `from` up to `to`.
    fn slice(&self, from: usize, to: usize) -> (t: String)
        requires
            self.wf(),
            from <= to <= self@.len(),
        ensures
            t@ == self@.subrange(from as int, to as int),
    {
        String::from_str(self.text.as_str().substring_char(from, to))
    }

    fn line_end(&self, i: usize) -> (r: usize)
        requires
            self.wf(),
            i <= self@.len(),
        ensures
            r == line_end(self@, i as int),
            i <= r <= self@.len(),
    {
        let mut p: usize = i;
        while p < self.chars.len() && self.chars[p] != '\n'
            invariant
                self.wf(),
                i <= p <= self@.len(),
                line_end(self@, i as int) == line_end(self@, p as int),
            decreases self@.len() - p,
        {
            p += 1;
        }
        p
    }

    /// Skips blanks and line comments from `i` on.
    pub fn skip_trivia(&self, i: usize) -> (r: usize)
        requires
            self.wf(),
            i <= self@.len(),
        ensures
            r == skip_trivia(self@, i as int),
            i <= r <= self@.len(),
    {
        let n = self.chars.len();
        let mut p: usize = i;
        loop
            invariant
                self.wf(),
                n == self@.len(),
                i <= p <= n,
                skip_trivia(self@, i as int) == skip_trivia(self@, p as int),
            decreases n - p,
        {
            if p < n && space(self.chars[p]) {
                p += 1;
            } else if p < n && p + 1 < n && self.chars[p] == '/' && self.chars[p + 1] == '/' {
                p = self.line_end(p + 2);
            } else {
                return p;
            }
        }
    }

    /// Where the keyword `kw` ends if it stands at `i`.
    fn keyword_end(&self, i: usize, kw: &str) -> (r: Option<usize>)
        requires
            self.wf(),
            i <= self@.len(),
        ensures
            r is Some == has_lit(self@, i as int, kw@),
            r is Some ==> r->Some_0 == i + kw@.len(),
    {
        let n = kw.unicode_len();
        if n > self.chars.len() - i {
            return None;
        }
        let mut j: usize = 0;
        while j < n
            invariant
                self.wf(),
                n == kw@.len(),
                i + n <= self.chars.len(),
                j <= n,
                forall|k: int| 0 <= k < j ==> self@[i + k] == kw@[k],
            decreases n - j,
        {
            if self.chars[i + j] != kw.get_char(j) {
                proof {
                    assert(self@.subrange(i as int, i + n)[j as int] != kw@[j as int]);
                }
                return None;
            }
            j += 1;
        }
        proof {
            assert(self@.subrange(i as int, i + n) =~= kw@);
        }
        Some(i + n)
    }

    fn ident_end(&self, i: usize) -> (r: usize)
        requires
            self.wf(),
            i <= self@.len(),
        ensures
            r == ident_end(self@, i as int),
            i <= r <= self@.len(),
    {
        let mut p: usize = i;
        while p < self.chars.len() && ident_char(self.chars[p])
            invariant
                self.wf(),
                i <= p <= self@.len(),
                ident_end(self@, i as int) == ident_end(self@, p as int),
            decreases self@.len() - p,
        {
            p += 1;
        }
        p
    }

    fn digits_end(&self, i: usize) -> (r: usize)
        requires
            self.wf(),
            i <= self@.len(),
        ensures
            r == digits_end(self@, i as int),
            i <= r <= self@.len(),
            forall|k: int| i <= k < r ==> is_digit(self@[k]),
    {
        let mut p: usize = i;
        while p < self.chars.len() && digit(self.chars[p])
            invariant
                self.wf(),
                i <= p <= self@.len(),
                digits_end(self@, i as int) == digits_end(self@, p as int),
                forall|k: int| i <= k < p ==> is_digit(self@[k]),
            decreases self@.len() - p,
        {
            p += 1;
        }
        p
    }

    fn quote_pos(&self, i: usize) -> (r: usize)
        requires
            self.wf(),
            i <= self@.len(),
        ensures
            r == quote_pos(self@, i as int),
            i <= r <= self@.len(),
    {
        let mut p: usize = i;
        while p < self.chars.len() && self.chars[p] != '"'
            invariant
                self.wf(),
                i <= p <= self@.len(),
                quote_pos(self@, i as int) == quote_pos(self@, p as int),
            decreases self@.len() - p,
        {
            p += 1;
        }
        p
    }

    /// The number that the digits from `from` up to `to` stand for: their
    /// value, or 0 where it does not fit in 32 bits.
    fn number(&self, from: usize, to: usize) -> (n: u32)
        requires
            self.wf(),
            from <= to <= self@.len(),
            forall|k: int| from <= k < to ==> is_digit(self@[k]),
        ensures
            n == number_of(self@.subrange(from as int, to as int)),
    {
        let mut acc: u64 = 0;
        let mut over = false;
        let mut k: usize = from;
        proof {
            assert(self@.subrange(from as int, from as int).len() == 0);
        }
        while k < to
            invariant
                self.wf(),
                from <= k <= to <= self@.len(),
                forall|j: int| from <= j < to ==> is_digit(self@[j]),
                !over ==> acc == digits_value(self@.subrange(from as int, k as int)) && acc
                    <= u32::MAX,
                over ==> digits_value(self@.subrange(from as int, k as int)) > u32::MAX,
            decreases to - k,
        {
            let c = self.chars[k];
            let d: u64 = (c as u32 - '0' as u32) as u64;
            proof {
                let next = self@.subrange(from as int, k + 1);
                assert(next.drop_last() =~= self@.subrange(from as int, k as int));
                assert(next.last() == c);
            }
            if !over {
                let v: u64 = acc * 10 + d;
                if v > 4294967295u64 {
                    over = true;
                } else {
                    acc = v;
                }
            }
            k += 1;
        }
        if over {
            0
        } else {
            acc as u32
        }
    }

    /// Recognizes a string literal at `i` and strips its quotes.
    pub fn parse_string_literal(&self, i: usize) -> (r: Result<(String, usize), SyntaxError>)
        requires
            self.wf(),
            i <= self@.len(),
        ensures
            agrees(r, string_at(self@, i as int)),
            r is Ok ==> i < r->Ok_0.1 <= self@.len(),
    {
        if !(i < self.chars.len() && self.chars[i] == '"') {
            return error(i, Expected::StringLiteral);
        }
        let q = self.quote_pos(i + 1);
        if q < self.chars.len() {
            Ok((self.slice(i + 1, q), q + 1))
        } else {
            error(q, Expected::ClosingQuote)
        }
    }

    /// Recognizes a value at `i`.
    pub fn parse_value(&self, i: usize) -> (r: Result<(Value, usize), SyntaxError>)
        requires
            self.wf(),
            i <= self@.len(),
        ensures
            agrees(r, value_at(self@, i as int)),
            r is Ok ==> i < r->Ok_0.1 <= self@.len(),
    {
        let n = self.chars.len();
        if i < n && digit(self.chars[i]) {
            let e = self.digits_end(i + 1);
            let number = self.number(i, e);
            if e < n && e + 1 < n && self.chars[e] == 'c' && self.chars[e + 1] == 'c' {
                Ok((Value::Number(number), e + 2))
            } else {
                Ok((Value::Number(number), e))
            }
        } else if i < n && self.chars[i] == '"' {
            match self.parse_string_literal(i) {
                Ok((text, end)) => Ok((Value::StringLiteral(text), end)),
                Err(e) => Err(e),
            }
        } else if i < n && letter(self.chars[i]) {
            let e = self.ident_end(i + 1);
            Ok((Value::StringType(self.slice(i, e)), e))
        } else {
            error(i, Expected::Value)
        }
    }

    /// Recognizes a property at `i`: its name and its value.
    pub fn parse_property(&self, i: usize) -> (r: Result<((String, Value), usize), SyntaxError>)
        requires
            self.wf(),
            i <= self@.len(),
        ensures
            agrees(r, property_at(self@, i as int)),
            r is Ok ==> i < r->Ok_0.1 <= self@.len(),
    {
        let n = self.chars.len();
        if !(i < n && letter(self.chars[i])) {
            return error(i, Expected::Property);
        }
        let e = self.ident_end(i + 1);
        let colon = self.skip_trivia(e);
        if !(colon < n && self.chars[colon] == ':') {
            return error(colon, Expected::Colon);
        }
        let v = self.skip_trivia(colon + 1);
        match self.parse_value(v) {
            Ok((value, end)) => Ok(((self.slice(i, e), value), end)),
            Err(e) => Err(e),
        }
    }

    /// Recognizes a condition at `i`.
    pub fn parse_condition(&self, i: usize) -> (r: Result<(Condition, usize), SyntaxError>)
        requires
            self.wf(),
            i <= self@.len(),
        ensures
            agrees(r, condition_at(self@, i as int)),
            r is Ok ==> i < r->Ok_0.1 <= self@.len(),
    {
        let n = self.chars.len();
        if !(i < n && letter(self.chars[i])) {
            return error(i, Expected::Field);
        }
        let e = self.ident_end(i + 1);
        let o = self.skip_trivia(e);
        if !(o < n && operator(self.chars[o])) {
            return error(o, Expected::Operator);
        }
        let v = self.skip_trivia(o + 1);
        match self.parse_value(v) {
            Ok((value, end)) => Ok(
                (Condition { field: self.slice(i, e), operator: self.slice(o, o + 1), value }, end),
            ),
            Err(e) => Err(e),
        }
    }

    /// Recognizes what stands behind `GET` or `COUNT`, from `i` on.
    pub fn parse_query(&self, i: usize) -> (r: Result<(Query, usize), SyntaxError>)
        requires
            self.wf(),
            i <= self@.len(),
        ensures
            agrees(r, query_at(self@, i as int)),
            r is Ok ==> i <= r->Ok_0.1 <= self@.len(),
    {
        let a = self.skip_trivia(i);
        let b = match self.keyword_end(a, "BIKES") {
            Some(b) => b,
            None => {
                return error(a, Expected::BikesKeyword);
            },
        };
        let w = self.skip_trivia(b);
        match self.keyword_end(w, "WHERE") {
            Some(c) => {
                let at = self.skip_trivia(c);
                match self.parse_condition(at) {
                    Ok((condition, end)) => Ok((Query { condition: Some(condition) }, end)),
                    Err(e) => Err(e),
                }
            },
            None => Ok((Query { condition: None }, b)),
        }
    }

    /// Recognizes what stands behind `DEFINE`, from `i` on.
    pub fn parse_definition(&self, i: usize) -> (r: Result<(Motorcycle, usize), SyntaxError>)
        requires
            self.wf(),
            i <= self@.len(),
        ensures
            agrees(r, definition_at(self@, i as int)),
            r is Ok ==> i < r->Ok_0.1 <= self@.len(),
    {
        let n = self.chars.len();
        let a = self.skip_trivia(i);
        let b = match self.keyword_end(a, "bike") {
            Some(b) => b,
            None => {
                return error(a, Expected::BikeKeyword);
            },
        };
        let c = self.skip_trivia(b);
        let (name, d) = match self.parse_string_literal(c) {
            Ok(found) => found,
            Err(e) => {
                return Err(e);
            },
        };
        let o = self.skip_trivia(d);
        if !(o < n && self.chars[o] == '{') {
            return error(o, Expected::OpenBrace);
        }
        let mut bike = Motorcycle { name, year: None, engine_cc: None, bike_type: None };
        let mut p = self.skip_trivia(o + 1);
        if p < n && self.chars[p] == '}' {
            return Ok((bike, p + 1));
        }
        if !(p < n && letter(self.chars[p])) {
            return error(p, Expected::PropertyOrCloseBrace);
        }
        loop
            invariant
                self.wf(),
                n == self@.len(),
                i < p <= n,
                definition_at(self@, i as int) == properties_at(self@, p as int, bike@),
            decreases n - p,
        {
            let ((field, value), end) = match self.parse_property(p) {
                Ok(found) => found,
                Err(e) => {
                    return Err(e);
                },
            };
            let ghost before = bike@;
            if same_text(field.as_str(), "year") {
                bike.year = Some(value.value_as_number());
            } else if same_text(field.as_str(), "engine") {
                bike.engine_cc = Some(value.value_as_number());
            } else if same_text(field.as_str(), "type") {
                bike.bike_type = Some(value.value_as_string());
            }
            assert(bike@ == apply_property(before, field@, value@));
            let t = self.skip_trivia(end);
            if t < n && self.chars[t] == '}' {
                return Ok((bike, t + 1));
            }
            if !(t < n && self.chars[t] == ',') {
                return error(t, Expected::CommaOrCloseBrace);
            }
            p = self.skip_trivia(t + 1);
        }
    }

    /// Recognizes a command at `i`.
    pub fn parse_command(&self, i: usize) -> (r: Result<(Command, usize), SyntaxError>)
        requires
            self.wf(),
            i <= self@.len(),
        ensures
            agrees(r, command_at(self@, i as int)),
            r is Ok ==> i < r->Ok_0.1 <= self@.len(),
    {
        proof {
            reveal_strlit("GET");
            reveal_strlit("COUNT");
        }
        if let Some(b) = self.keyword_end(i, "DEFINE") {
            match self.parse_definition(b) {
                Ok((bike, end)) => Ok((Command::Definition(bike), end)),
                Err(e) => Err(e),
            }
        } else if let Some(b) = self.keyword_end(i, "GET") {
            match self.parse_query(b) {
                Ok((query, end)) => Ok((Command::Get(query), end)),
                Err(e) => Err(e),
            }
        } else if let Some(b) = self.keyword_end(i, "COUNT") {
            match self.parse_query(b) {
                Ok((query, end)) => Ok((Command::Count(query), end)),
                Err(e) => Err(e),
            }
        } else {
            error(i, Expected::CommandOrEnd)
        }
    }

    /// Recognizes the whole text: the program it denotes, or the first
    /// position at which it stops conforming.
    pub fn parse(&self) -> (r: Result<Vec<Command>, SyntaxError>)
        requires
            self.wf(),
        ensures
            match r {
                Ok(program) => recognize(self@) == Ok::<Seq<CommandView>, SyntaxError>(
                    program_view(program@),
                ),
                Err(e) => recognize(self@) == Err::<Seq<CommandView>, SyntaxError>(e),
            },
    {
        let n = self.chars.len();
        let mut program: Vec<Command> = Vec::new();
        let mut i: usize = 0;
        proof {
            assert(program_view(program@) =~= Seq::<CommandView>::empty());
        }
        loop
            invariant
                self.wf(),
                n == self@.len(),
                i <= n,
                recognize(self@) == commands_from(self@, i as int, program_view(program@)),
            decreases n - i,
        {
            let a = self.skip_trivia(i);
            if a >= n {
                return Ok(program);
            }
            let (command, end) = match self.parse_command(a) {
                Ok(found) => found,
                Err(e) => {
                    return Err(e);
                },
            };
            let ghost before = program_view(program@);
            let ghost c = command@;
            program.push(command);
            proof {
                assert(program_view(program@) =~= before.push(c));
            }
            i = end;
        }
    }
}

/// What `parse_moto_file` returns on a text whose recognition gave `m`.
pub open spec fn file_result(
    r: Result<Vec<Command>, MotoError>,
    m: Result<Seq<CommandView>, SyntaxError>,
) -> bool {
    match (r, m) {
        (Ok(program), Ok(commands)) => program_view(program@) == commands,
        (Err(e), Err(f)) => e == MotoError::ParseError(f),
        _ => false,
    }
}

/// Turns source text into a program. Fails with a `ParseError` exactly when
/// the text does not conform to the grammar.
pub fn parse_moto_file(input: &str) -> (r: Result<Vec<Command>, MotoError>)
    ensures
        file_result(r, recognize(input@)),
{
    let parser = MotogarageParser::new(input);
    match parser.parse() {
        Ok(program) => Ok(program),
        Err(e) => Err(MotoError::ParseError(e)),
    }
}

} // verus!
