use motogarage_parser::text::{decimal_string, same_text};
use motogarage_parser::{
    compare, parse_moto_file, Command, Condition, Garage, Motorcycle, Query, Value,
};

fn run(source: &str) -> Vec<String> {
    let program = parse_moto_file(source).unwrap();
    Garage::new().execute(program).unwrap()
}

fn bike(name: &str, year: Option<u32>, engine_cc: Option<u32>, bike_type: Option<&str>) -> Motorcycle {
    Motorcycle {
        name: name.to_string(),
        year,
        engine_cc,
        bike_type: bike_type.map(|t| t.to_string()),
    }
}

fn cond(field: &str, operator: &str, value: Value) -> Condition {
    Condition { field: field.to_string(), operator: operator.to_string(), value }
}

#[test]
fn definition_then_get_by_type() {
    let out = run(
        "DEFINE bike \"Honda CBR600RR\" { year: 2021, engine: 599cc, type: sport }\nGET BIKES WHERE type = sport",
    );
    assert_eq!(out, vec!["Honda CBR600RR".to_string()]);
}

#[test]
fn count_with_numeric_comparison() {
    let out = run(
        "DEFINE bike \"Old\" { year: 2010 }\nDEFINE bike \"New\" { year: 2022 }\nCOUNT BIKES WHERE year > 2015",
    );
    assert_eq!(out, vec!["Bikes found: 1".to_string()]);
}

#[test]
fn unknown_property_leaves_only_the_name() {
    let program = parse_moto_file("DEFINE bike \"X\" { color: red }\nCOUNT BIKES").unwrap();
    assert_eq!(program[0], Command::Definition(bike("X", None, None, None)));
    let mut garage = Garage::new();
    let out = garage.execute(program).unwrap();
    assert_eq!(out, vec!["Bikes found: 1".to_string()]);
    assert_eq!(garage.len(), 1);
}

#[test]
fn definitions_alone_give_no_output() {
    let mut garage = Garage::new();
    let out = garage
        .execute(vec![
            Command::Definition(bike("A", Some(1), None, None)),
            Command::Definition(bike("B", None, Some(2), None)),
        ])
        .unwrap();
    assert!(out.is_empty());
    assert_eq!(garage.len(), 2);
}

#[test]
fn absent_condition_returns_all_in_insertion_order() {
    let out = run(
        "DEFINE bike \"C\" {}\nDEFINE bike \"A\" {}\nDEFINE bike \"B\" {}\nGET BIKES\nCOUNT BIKES",
    );
    assert_eq!(out, vec!["C", "A", "B", "Bikes found: 3"]);
}

#[test]
fn same_program_on_fresh_stores_gives_same_output() {
    let source = "DEFINE bike \"A\" { year: 2000, type: naked }\nGET BIKES WHERE year = 2000\nCOUNT BIKES WHERE type = naked";
    let first = run(source);
    let second = run(source);
    assert_eq!(first, vec!["A", "Bikes found: 1"]);
    assert_eq!(first, second);
}

#[test]
fn unrecognized_field_matches_nothing() {
    let out = run(
        "DEFINE bike \"A\" { year: 2000, engine: 500cc, type: naked }\nGET BIKES WHERE color = red\nCOUNT BIKES WHERE name = A",
    );
    assert_eq!(out, vec!["Bikes found: 0"]);
}

#[test]
fn queries_see_only_earlier_definitions() {
    let out = run(
        "COUNT BIKES\nDEFINE bike \"A\" {}\nCOUNT BIKES\nDEFINE bike \"B\" {}\nGET BIKES",
    );
    assert_eq!(out, vec!["Bikes found: 0", "Bikes found: 1", "A", "B"]);
}

#[test]
fn store_persists_across_executions() {
    let mut garage = Garage::new();
    garage.execute(parse_moto_file("DEFINE bike \"A\" {}").unwrap()).unwrap();
    let out = garage.execute(parse_moto_file("GET BIKES").unwrap()).unwrap();
    assert_eq!(out, vec!["A"]);
}

#[test]
fn absent_fields_never_match() {
    let out = run(
        "DEFINE bike \"A\" {}\nCOUNT BIKES WHERE year = 0\nCOUNT BIKES WHERE engine < 10\nCOUNT BIKES WHERE type = \"\"",
    );
    assert_eq!(out, vec!["Bikes found: 0", "Bikes found: 0", "Bikes found: 0"]);
}

#[test]
fn engine_comparisons() {
    let out = run(
        "DEFINE bike \"S\" { engine: 125cc }\nDEFINE bike \"M\" { engine: 650cc }\nDEFINE bike \"L\" { engine: 1200 }\nGET BIKES WHERE engine < 650cc\nGET BIKES WHERE engine = 650\nGET BIKES WHERE engine > 650",
    );
    assert_eq!(out, vec!["S", "M", "L"]);
}

#[test]
fn type_matches_quoted_and_bare_alike() {
    let out = run(
        "DEFINE bike \"A\" { type: \"sport\" }\nDEFINE bike \"B\" { type: sport }\nGET BIKES WHERE type = sport\nGET BIKES WHERE type > \"sport\"",
    );
    assert_eq!(out, vec!["A", "B", "A", "B"]);
}

#[test]
fn compare_by_operator() {
    assert!(compare(3, "=", 3));
    assert!(!compare(3, "=", 4));
    assert!(compare(4, ">", 3));
    assert!(!compare(3, ">", 3));
    assert!(compare(2, "<", 3));
    assert!(!compare(3, "<", 3));
    assert!(!compare(3, "==", 3));
    assert!(!compare(3, "", 3));
    assert!(!compare(3, ">=", 3));
}

#[test]
fn matches_dispatches_on_field() {
    let b = bike("A", Some(2020), Some(600), Some("sport"));
    assert!(b.matches(&cond("year", "=", Value::Number(2020))));
    assert!(b.matches(&cond("engine", ">", Value::Number(599))));
    assert!(b.matches(&cond("type", "=", Value::StringLiteral("sport".to_string()))));
    assert!(!b.matches(&cond("type", "=", Value::Number(1))));
    assert!(!b.matches(&cond("year", "!", Value::Number(2020))));
    assert!(!b.matches(&cond("Year", "=", Value::Number(2020))));
    assert!(!b.matches(&cond("year", "=", Value::StringType("2020".to_string()))));
    let zero = bike("Z", Some(0), None, None);
    assert!(zero.matches(&cond("year", "=", Value::StringType("x".to_string()))));
}

#[test]
fn filter_bikes_and_run_query_get() {
    let mut garage = Garage::new();
    garage
        .execute(vec![
            Command::Definition(bike("A", Some(2001), None, None)),
            Command::Definition(bike("B", Some(1990), None, None)),
            Command::Definition(bike("C", Some(2010), None, None)),
        ])
        .unwrap();
    let query = Query { condition: Some(cond("year", ">", Value::Number(2000))) };
    let found = garage.filter_bikes(&query);
    assert_eq!(found.len(), 2);
    assert_eq!(found[0].name, "A");
    assert_eq!(found[1].name, "C");
    assert_eq!(garage.run_query_get(query), vec!["A", "C"]);
    assert_eq!(garage.filter_bikes(&Query { condition: None }).len(), 3);
}

#[test]
fn value_accessors() {
    assert_eq!(Value::Number(7).value_as_number(), 7);
    assert_eq!(Value::StringType("a".to_string()).value_as_number(), 0);
    assert_eq!(Value::StringLiteral("9".to_string()).value_as_number(), 0);
    assert_eq!(Value::Number(7).value_as_string(), "");
    assert_eq!(Value::StringType("a".to_string()).value_as_string(), "a");
    assert_eq!(Value::StringLiteral("b c".to_string()).value_as_string(), "b c");
}

#[test]
fn decimal_rendering() {
    assert_eq!(decimal_string(0), "0");
    assert_eq!(decimal_string(9), "9");
    assert_eq!(decimal_string(10), "10");
    assert_eq!(decimal_string(1234567890), "1234567890");
    assert_eq!(decimal_string(usize::MAX), usize::MAX.to_string());
}

#[test]
fn same_text_compares_characters() {
    assert!(same_text("", ""));
    assert!(same_text("type", "type"));
    assert!(!same_text("type", "typo"));
    assert!(!same_text("type", "types"));
    assert!(same_text("\u{e9}t\u{e9}", "\u{e9}t\u{e9}"));
    assert!(!same_text("\u{e9}", "e"));
}

#[test]
fn count_of_twelve_records() {
    let mut source = String::new();
    for i in 0..12 {
        source.push_str(&format!("DEFINE bike \"b{}\" {{ year: {} }}\n", i, 2000 + i));
    }
    source.push_str("COUNT BIKES\nCOUNT BIKES WHERE year > 2000");
    assert_eq!(run(&source), vec!["Bikes found: 12", "Bikes found: 11"]);
}
