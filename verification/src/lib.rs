//! A small language for declaring motorcycles and querying them: the typed
//! program model, the recognizer that turns source text into a program, and
//! the interpreter that runs a program against an append-only record store.

pub mod ast;
pub mod error;
pub mod garage;
pub mod grammar;
pub mod laws;
pub mod parser;
pub mod roundtrip;
pub mod text;

pub use ast::{Command, CommandView, Condition, ConditionView, Motorcycle, MotorcycleView, Query,
    QueryView, Value, ValueView};
pub use error::{Expected, MotoError, SyntaxError};
pub use garage::{compare, Garage};
pub use parser::{parse_moto_file, MotogarageParser};
