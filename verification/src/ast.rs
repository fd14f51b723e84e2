//! The typed program model and its mathematical views.

use vstd::prelude::*;

verus! {

/// A value as written in a property or a condition.
#[derive(Debug, Clone, PartialEq)]
pub enum Value {
    /// An unsigned number, e.g. `2020` or `600cc`.
    Number(u32),
    /// A bare identifier, e.g. `sport`.
    StringType(String),
    /// A quoted string, without its quotes.
    StringLiteral(String),
}

/// The mathematical value of a [`Value`].
pub enum ValueView {
    Number(u32),
    StringType(Seq<char>),
    StringLiteral(Seq<char>),
}

impl ValueView {
    /// The wrapped number, or 0 for the text variants.
    pub open spec fn as_number(self) -> u32 {
        match self {
            ValueView::Number(n) => n,
            _ => 0,
        }
    }

    /// The wrapped text, or the empty text for a number.
    pub open spec fn as_text(self) -> Seq<char> {
        match self {
            ValueView::Number(_) => Seq::empty(),
            ValueView::StringType(s) => s,
            ValueView::StringLiteral(s) => s,
        }
    }
}

impl View for Value {
    type V = ValueView;

    open spec fn view(&self) -> ValueView {
        match self {
            Value::Number(n) => ValueView::Number(*n),
            Value::StringType(s) => ValueView::StringType(s@),
            Value::StringLiteral(s) => ValueView::StringLiteral(s@),
        }
    }
}

impl Value {
    /// Returns the number, or 0 if the value is not a number.
    pub fn value_as_number(&self) -> (n: u32)
        ensures
            n == self@.as_number(),
    {
        match self {
            Value::Number(n) => *n,
            _ => 0,
        }
    }

    /// Returns the text, or the empty string if the value is a number.
    pub fn value_as_string(&self) -> (s: String)
        ensures
            s@ == self@.as_text(),
    {
        match self {
            Value::StringType(s) => s.clone(),
            Value::StringLiteral(s) => s.clone(),
            _ => String::new(),
        }
    }
}

/// One motorcycle record.
#[derive(Debug, Clone, Default, PartialEq)]
pub struct Motorcycle {
    pub name: String,
    pub year: Option<u32>,
    pub engine_cc: Option<u32>,
    pub bike_type: Option<String>,
}

/// The mathematical value of a [`Motorcycle`].
pub struct MotorcycleView {
    pub name: Seq<char>,
    pub year: Option<u32>,
    pub engine_cc: Option<u32>,
    pub bike_type: Option<Seq<char>>,
}

impl View for Motorcycle {
    type V = MotorcycleView;

    open spec fn view(&self) -> MotorcycleView {
        MotorcycleView {
            name: self.name@,
            year: self.year,
            engine_cc: self.engine_cc,
            bike_type: match self.bike_type {
                Some(t) => Some(t@),
                None => None,
            },
        }
    }
}

/// A single filter predicate: field, operator and value.
#[derive(Debug, Clone, PartialEq)]
pub struct Condition {
    pub field: String,
    pub operator: String,
    pub value: Value,
}

/// The mathematical value of a [`Condition`].
pub struct ConditionView {
    pub field: Seq<char>,
    pub operator: Seq<char>,
    pub value: ValueView,
}

impl View for Condition {
    type V = ConditionView;

    open spec fn view(&self) -> ConditionView {
        ConditionView { field: self.field@, operator: self.operator@, value: self.value@ }
    }
}

/// A query: an optional condition, whose absence matches every record.
#[derive(Debug, Clone, PartialEq)]
pub struct Query {
    pub condition: Option<Condition>,
}

/// The mathematical value of a [`Query`].
pub struct QueryView {
    pub condition: Option<ConditionView>,
}

impl View for Query {
    type V = QueryView;

    open spec fn view(&self) -> QueryView {
        QueryView {
            condition: match self.condition {
                Some(c) => Some(c@),
                None => None,
            },
        }
    }
}

/// One instruction of a program.
#[derive(Debug, Clone, PartialEq)]
pub enum Command {
    /// Append a record to the store.
    Definition(Motorcycle),
    /// List the names of the matching records.
    Get(Query),
    /// Count the matching records.
    Count(Query),
}

/// The mathematical value of a [`Command`].
pub enum CommandView {
    Definition(MotorcycleView),
    Get(QueryView),
    Count(QueryView),
}

impl View for Command {
    type V = CommandView;

    open spec fn view(&self) -> CommandView {
        match self {
            Command::Definition(m) => CommandView::Definition(m@),
            Command::Get(q) => CommandView::Get(q@),
            Command::Count(q) => CommandView::Count(q@),
        }
    }
}

/// The mathematical value of a program: the views of its commands, in order.
pub open spec fn program_view(program: Seq<Command>) -> Seq<CommandView> {
    program.map_values(|c: Command| c@)
}

} // verus!
