//! The record store and the interpreter that runs a program against it.

use vstd::prelude::*;
use crate::ast::{program_view, Command, CommandView, Condition, ConditionView, Motorcycle,
    MotorcycleView, Query, QueryView};
use crate::error::MotoError;
use crate::text::{decimal, decimal_string, same_text};

verus! {

/// The comparison that an operator denotes: `=`, `>` or `<`; any other
/// operator holds of no pair of numbers.
pub open spec fn compare_spec(a: u32, op: Seq<char>, b: u32) -> bool {
    if op == "="@ {
        a == b
    } else if op == ">"@ {
        a > b
    } else if op == "<"@ {
        a < b
    } else {
        false
    }
}

/// Compares a stored number `a` with a query-side number `b` under `op`.
pub fn compare(a: u32, op: &str, b: u32) -> (r: bool)
    ensures
        r == compare_spec(a, op@, b),
{
    if same_text(op, "=") {
        a == b
    } else if same_text(op, ">") {
        a > b
    } else if same_text(op, "<") {
        a < b
    } else {
        false
    }
}

impl MotorcycleView {
    /// Whether the record satisfies the condition: dispatch on the field
    /// name; an absent field, or a field name outside the vocabulary, never
    /// matches.
    pub open spec fn matches(self, c: ConditionView) -> bool {
        if c.field == "type"@ {
            match self.bike_type {
                Some(t) => t == c.value.as_text(),
                None => false,
            }
        } else if c.field == "year"@ {
            match self.year {
                Some(y) => compare_spec(y, c.operator, c.value.as_number()),
                None => false,
            }
        } else if c.field == "engine"@ {
            match self.engine_cc {
                Some(e) => compare_spec(e, c.operator, c.value.as_number()),
                None => false,
            }
        } else {
            false
        }
    }
}

impl QueryView {
    /// Whether the query selects the record: an absent condition selects
    /// every record.
    pub open spec fn admits(self, m: MotorcycleView) -> bool {
        match self.condition {
            Some(c) => m.matches(c),
            None => true,
        }
    }

    /// `admits` as a predicate on records.
    pub open spec fn predicate(self) -> spec_fn(MotorcycleView) -> bool {
        |m: MotorcycleView| self.admits(m)
    }
}

impl Motorcycle {
    /// Whether this record satisfies `condition`.
    pub fn matches(&self, condition: &Condition) -> (r: bool)
        ensures
            r == self@.matches(condition@),
    {
        let field = condition.field.as_str();
        if same_text(field, "type") {
            match &self.bike_type {
                Some(t) => {
                    let wanted = condition.value.value_as_string();
                    *t == wanted
                },
                None => false,
            }
        } else if same_text(field, "year") {
            match self.year {
                Some(y) => compare(y, condition.operator.as_str(), condition.value.value_as_number()),
                None => false,
            }
        } else if same_text(field, "engine") {
            match self.engine_cc {
                Some(e) => compare(e, condition.operator.as_str(), condition.value.value_as_number()),
                None => false,
            }
        } else {
            false
        }
    }
}

/// The records of `store` that `q` selects, in store order.
pub open spec fn selected(store: Seq<MotorcycleView>, q: QueryView) -> Seq<MotorcycleView> {
    store.filter(q.predicate())
}

/// The names of the records, in order.
pub open spec fn names(bikes: Seq<MotorcycleView>) -> Seq<Seq<char>> {
    bikes.map_values(|m: MotorcycleView| m.name)
}

/// The output line of a count of `n` records.
pub open spec fn count_line(n: nat) -> Seq<char> {
    "Bikes found: "@ + decimal(n)
}

/// The output lines that one command produces against `store`.
pub open spec fn command_output(store: Seq<MotorcycleView>, c: CommandView) -> Seq<Seq<char>> {
    match c {
        CommandView::Definition(_) => Seq::empty(),
        CommandView::Get(q) => names(selected(store, q)),
        CommandView::Count(q) => seq![count_line(selected(store, q).len())],
    }
}

/// The store after one command: a definition appends its record, a query
/// leaves the store as it is.
pub open spec fn store_after(store: Seq<MotorcycleView>, c: CommandView) -> Seq<MotorcycleView> {
    match c {
        CommandView::Definition(m) => store.push(m),
        _ => store,
    }
}

/// The store after running `program` from `store`, command by command.
pub open spec fn run_store(store: Seq<MotorcycleView>, program: Seq<CommandView>) -> Seq<
    MotorcycleView,
>
    decreases program.len(),
{
    if program.len() == 0 {
        store
    } else {
        store_after(run_store(store, program.drop_last()), program.last())
    }
}

/// The output of running `program` from `store`: the lines of each command,
/// in program order, each command seeing the records defined before it.
pub open spec fn run_output(store: Seq<MotorcycleView>, program: Seq<CommandView>) -> Seq<
    Seq<char>,
>
    decreases program.len(),
{
    if program.len() == 0 {
        Seq::empty()
    } else {
        run_output(store, program.drop_last()) + command_output(
            run_store(store, program.drop_last()),
            program.last(),
        )
    }
}

/// The texts of a sequence of strings.
pub open spec fn lines_view(lines: Seq<String>) -> Seq<Seq<char>> {
    lines.map_values(|s: String| s@)
}

/// The views of a sequence of borrowed records.
pub open spec fn records_view(records: Seq<&Motorcycle>) -> Seq<MotorcycleView> {
    records.map_values(|m: &Motorcycle| m@)
}

/// The interpreter: an ordered, append-only store of records.
#[derive(Debug)]
pub struct Garage {
    bikes: Vec<Motorcycle>,
}

impl View for Garage {
    type V = Seq<MotorcycleView>;

    closed spec fn view(&self) -> Seq<MotorcycleView> {
        self.bikes@.map_values(|m: Motorcycle| m@)
    }
}

impl Default for Garage {
    fn default() -> (g: Garage)
        ensures
            g@ == Seq::<MotorcycleView>::empty(),
    {
        Garage::new()
    }
}

impl Garage {
    /// An empty store.
    pub fn new() -> (g: Garage)
        ensures
            g@ == Seq::<MotorcycleView>::empty(),
    {
        let g = Garage { bikes: Vec::new() };
        proof {
            assert(g@ =~= Seq::<MotorcycleView>::empty());
        }
        g
    }

    /// The number of records in the store.
    pub fn len(&self) -> (n: usize)
        ensures
            n == self@.len(),
    {
        self.bikes.len()
    }

    /// The records that `query` selects, in insertion order.
    pub fn filter_bikes<'a>(&'a self, query: &Query) -> (found: Vec<&'a Motorcycle>)
        ensures
            records_view(found@) == selected(self@, query@),
    {
        let mut found: Vec<&'a Motorcycle> = Vec::new();
        let mut i: usize = 0;
        proof {
            assert(self@.take(0) =~= Seq::<MotorcycleView>::empty());
            assert(records_view(found@) =~= Seq::<MotorcycleView>::empty());
            reveal(Seq::filter);
        }
        while i < self.bikes.len()
            invariant
                i <= self.bikes.len(),
                records_view(found@) == selected(self@.take(i as int), query@),
            decreases self.bikes.len() - i,
        {
            let bike = &self.bikes[i];
            let hit = match &query.condition {
                Some(c) => bike.matches(c),
                None => true,
            };
            proof {
                assert(self@.take(i as int + 1) =~= self@.take(i as int).push(bike@));
                self@.take(i as int).lemma_filter_push(bike@, query@.predicate());
                assert(hit == (query@.predicate())(bike@));
            }
            let ghost before = found@;
            if hit {
                found.push(bike);
                proof {
                    assert(records_view(found@) =~= records_view(before).push(bike@));
                }
            }
            i += 1;
        }
        proof {
            assert(self@.take(i as int) =~= self@);
        }
        found
    }

    /// The names of the records that `query` selects, in insertion order.
    pub fn run_query_get(&self, query: Query) -> (out: Vec<String>)
        ensures
            lines_view(out@) == names(selected(self@, query@)),
    {
        let found = self.filter_bikes(&query);
        let mut out: Vec<String> = Vec::new();
        let mut i: usize = 0;
        while i < found.len()
            invariant
                i <= found.len(),
                out@.len() == i,
                forall|k: int| 0 <= k < i ==> (#[trigger] out@[k])@ == found@[k]@.name,
            decreases found.len() - i,
        {
            out.push(found[i].name.clone());
            i += 1;
        }
        proof {
            assert(lines_view(out@) =~= names(records_view(found@)));
        }
        out
    }

    /// Runs `program` against the store, command by command: a definition
    /// appends its record, a `Get` yields the names of the records it
    /// selects, a `Count` yields one line with their number. Never fails.
    pub fn execute(&mut self, program: Vec<Command>) -> (r: Result<Vec<String>, MotoError>)
        ensures
            r is Ok,
            final(self)@ == run_store(old(self)@, program_view(program@)),
            lines_view(r->Ok_0@) == run_output(old(self)@, program_view(program@)),
    {
        let ghost prog = program_view(program@);
        let ghost start = self@;
        let mut results: Vec<String> = Vec::new();
        proof {
            assert(prog.take(0) =~= Seq::<CommandView>::empty());
            assert(lines_view(results@) =~= Seq::<Seq<char>>::empty());
        }
        for command in it: program
            invariant
                it.seq().len() == prog.len(),
                forall|k: int| 0 <= k < prog.len() ==> (#[trigger] it.seq()[k])@ == prog[k],
                self@ == run_store(start, prog.take(it.index() as int)),
                lines_view(results@) == run_output(start, prog.take(it.index() as int)),
        {
            let ghost done = prog.take(it.index() as int);
            let ghost next = prog.take(it.index() as int + 1);
            let ghost lines = lines_view(results@);
            let ghost store = self@;
            proof {
                assert(next.drop_last() =~= done);
                assert(next.last() == command@);
            }
            match command {
                Command::Definition(bike) => {
                    self.bikes.push(bike);
                    proof {
                        assert(self@ =~= store.push(bike@));
                        assert(lines + Seq::<Seq<char>>::empty() =~= lines);
                    }
                },
                Command::Get(query) => {
                    let mut names = self.run_query_get(query);
                    let ghost added = lines_view(names@);
                    results.append(&mut names);
                    proof {
                        assert(lines_view(results@) =~= lines + added);
                    }
                },
                Command::Count(query) => {
                    let found = self.filter_bikes(&query);
                    let count = found.len();
                    let mut line = String::from_str("Bikes found: ");
                    line.append(decimal_string(count).as_str());
                    results.push(line);
                    proof {
                        assert(records_view(found@).len() == found@.len());
                        assert(lines_view(results@) =~= lines + seq![count_line(count as nat)]);
                    }
                },
            }
        }
        proof {
            assert(prog.take(prog.len() as int) =~= prog);
        }
        Ok(results)
    }
}

} // verus!
