use motogarage_parser::{
    parse_moto_file, Command, Condition, Expected, MotoError, MotogarageParser, Motorcycle, Query,
    SyntaxError, Value,
};

#[test]
fn test_parse_comment() {
    let input = r#"
        // This is a comment
        DEFINE bike "Test Bike" { year: 2000 }
        // Another comment
    "#;
    let ast = parse_moto_file(input).unwrap();
    assert_eq!(ast.len(), 1);
    assert!(matches!(ast[0], Command::Definition(_)));
}

#[test]
fn test_parse_atoms() {
    let parser = MotogarageParser::new("my_field");
    assert_eq!(
        parser.parse_value(0),
        Ok((Value::StringType("my_field".to_string()), 8))
    );
    let parser = MotogarageParser::new("12345");
    assert_eq!(parser.parse_value(0), Ok((Value::Number(12345), 5)));
    let parser = MotogarageParser::new("600cc");
    assert_eq!(parser.parse_value(0), Ok((Value::Number(600), 5)));
    let parser = MotogarageParser::new(r#""Hello World""#);
    assert_eq!(
        parser.parse_string_literal(0),
        Ok(("Hello World".to_string(), 13))
    );
}

#[test]
fn test_parse_property() {
    let parser = MotogarageParser::new("year: 2020");
    let ((name, value), end) = parser.parse_property(0).unwrap();
    assert_eq!(name, "year");
    assert_eq!(value, Value::Number(2020));
    assert_eq!(end, 10);
}

#[test]
fn test_parse_definition() {
    let input = r#"
        DEFINE bike "Honda CBR600RR" {
            year: 2021,
            engine: 599cc,
            type: sport
        }
    "#;
    let ast = parse_moto_file(input).unwrap();
    assert_eq!(ast.len(), 1);
    assert!(matches!(&ast[0], Command::Definition(bike) if
        bike == &Motorcycle {
            name: "Honda CBR600RR".to_string(),
            year: Some(2021),
            engine_cc: Some(599),
            bike_type: Some("sport".to_string()),
        }
    ));
}

#[test]
fn test_parse_query_get() {
    let input = "GET BIKES WHERE type = sport";
    let ast = parse_moto_file(input).unwrap();
    assert_eq!(ast.len(), 1);
    assert!(matches!(&ast[0], Command::Get(query) if
        query == &Query {
            condition: Some(Condition {
                field: "type".to_string(),
                operator: "=".to_string(),
                value: Value::StringType("sport".to_string()),
            })
        }
    ));
}

#[test]
fn test_parse_query_count() {
    let input = "COUNT BIKES WHERE year > 2020";
    let ast = parse_moto_file(input).unwrap();
    assert_eq!(ast.len(), 1);
    assert!(matches!(&ast[0], Command::Count(query) if
        query == &Query {
            condition: Some(Condition {
                field: "year".to_string(),
                operator: ">".to_string(),
                value: Value::Number(2020),
            })
        }
    ));
}

#[test]
fn test_parse_full_file() {
    let input = r#"
        DEFINE bike "Bike 1" { year: 2010 }
        
        // Comment
        GET BIKES WHERE year > 2000

        DEFINE bike "Bike 2" { type: cruiser }

        COUNT BIKES
    "#;
    let ast = parse_moto_file(input).unwrap();
    assert_eq!(ast.len(), 4);
    assert!(matches!(&ast[0], Command::Definition(_)));
    assert!(matches!(&ast[1], Command::Get(_)));
    assert!(matches!(&ast[2], Command::Definition(_)));
    assert!(matches!(&ast[3], Command::Count(_)));
}

#[test]
fn test_parse_error() {
    let input = "DEFINE bike { year: 2000 }";
    let result = parse_moto_file(input);
    assert!(result.is_err());
    assert!(matches!(result.unwrap_err(), MotoError::ParseError(_)));
}

fn syntax_error(input: &str) -> SyntaxError {
    match parse_moto_file(input) {
        Err(MotoError::ParseError(e)) => e,
        other => panic!("no syntax error: {:?}", other),
    }
}

#[test]
fn missing_name_is_reported_at_the_brace() {
    assert_eq!(
        syntax_error("DEFINE bike { year: 2000 }"),
        SyntaxError { position: 12, expected: Expected::StringLiteral }
    );
}

#[test]
fn each_expectation_has_an_input() {
    let cases = [
        ("hello", 0, Expected::CommandOrEnd),
        ("DEFINE \"x\" {}", 7, Expected::BikeKeyword),
        ("GET bikes", 4, Expected::BikesKeyword),
        ("DEFINE bike x {}", 12, Expected::StringLiteral),
        ("DEFINE bike \"x {}", 17, Expected::ClosingQuote),
        ("DEFINE bike \"x\" year: 1", 16, Expected::OpenBrace),
        ("DEFINE bike \"x\" { 1 }", 18, Expected::PropertyOrCloseBrace),
        ("DEFINE bike \"x\" { year: 1, }", 27, Expected::Property),
        ("DEFINE bike \"x\" { year 1 }", 23, Expected::Colon),
        ("DEFINE bike \"x\" { year: }", 24, Expected::Value),
        ("DEFINE bike \"x\" { year: 1 type: a }", 26, Expected::CommaOrCloseBrace),
        ("GET BIKES WHERE = 1", 16, Expected::Field),
        ("GET BIKES WHERE year 1", 21, Expected::Operator),
        ("GET BIKES WHERE year >", 22, Expected::Value),
    ];
    for (input, position, expected) in cases {
        assert_eq!(syntax_error(input), SyntaxError { position, expected }, "{}", input);
    }
}

#[test]
fn empty_and_blank_inputs_are_empty_programs() {
    assert_eq!(parse_moto_file("").unwrap(), vec![]);
    assert_eq!(parse_moto_file(" \t\r\n// only a comment").unwrap(), vec![]);
}

#[test]
fn empty_property_block_gives_a_bare_record() {
    let ast = parse_moto_file("DEFINE bike \"Solo\" { }").unwrap();
    assert_eq!(
        ast,
        vec![Command::Definition(Motorcycle {
            name: "Solo".to_string(),
            year: None,
            engine_cc: None,
            bike_type: None,
        })]
    );
}

#[test]
fn unknown_property_is_ignored() {
    let ast = parse_moto_file("DEFINE bike \"X\" { color: red }").unwrap();
    assert_eq!(
        ast,
        vec![Command::Definition(Motorcycle {
            name: "X".to_string(),
            year: None,
            engine_cc: None,
            bike_type: None,
        })]
    );
}

#[test]
fn later_property_overrides_earlier() {
    let ast = parse_moto_file("DEFINE bike \"X\" { year: 1999, year: 2005 }").unwrap();
    assert!(matches!(&ast[0], Command::Definition(b) if b.year == Some(2005)));
}

#[test]
fn number_that_does_not_fit_becomes_zero() {
    let parser = MotogarageParser::new("4294967295");
    assert_eq!(parser.parse_value(0), Ok((Value::Number(4294967295), 10)));
    let parser = MotogarageParser::new("4294967296");
    assert_eq!(parser.parse_value(0), Ok((Value::Number(0), 10)));
    let parser = MotogarageParser::new("99999999999999999999999999cc");
    assert_eq!(parser.parse_value(0), Ok((Value::Number(0), 28)));
    let parser = MotogarageParser::new("007");
    assert_eq!(parser.parse_value(0), Ok((Value::Number(7), 3)));
}

#[test]
fn text_values_coerce_to_defaults() {
    let ast = parse_moto_file("DEFINE bike \"X\" { year: old, type: 7, engine: \"big\" }").unwrap();
    assert_eq!(
        ast,
        vec![Command::Definition(Motorcycle {
            name: "X".to_string(),
            year: Some(0),
            engine_cc: Some(0),
            bike_type: Some(String::new()),
        })]
    );
}

#[test]
fn quoted_value_is_a_string_literal() {
    let ast = parse_moto_file("GET BIKES WHERE type = \"sport touring\"").unwrap();
    assert_eq!(
        ast,
        vec![Command::Get(Query {
            condition: Some(Condition {
                field: "type".to_string(),
                operator: "=".to_string(),
                value: Value::StringLiteral("sport touring".to_string()),
            })
        })]
    );
}

#[test]
fn non_ascii_text_in_names_and_comments() {
    let ast = parse_moto_file("// caf\u{e9}\nDEFINE bike \"Z\u{fc}ndapp \u{1F3CD}\" { year: 1950 }").unwrap();
    assert_eq!(
        ast,
        vec![Command::Definition(Motorcycle {
            name: "Z\u{fc}ndapp \u{1F3CD}".to_string(),
            year: Some(1950),
            engine_cc: None,
            bike_type: None,
        })]
    );
}

#[test]
fn skip_trivia_stops_at_the_first_token() {
    let parser = MotogarageParser::new("  // c\n\t GET");
    assert_eq!(parser.len(), 12);
    assert_eq!(parser.skip_trivia(0), 9);
    assert_eq!(parser.skip_trivia(9), 9);
    assert_eq!(parser.skip_trivia(12), 12);
}

#[test]
fn comments_and_blank_lines_change_nothing() {
    let with = r#"
        // garage
        DEFINE bike "A" { year: 2001 } // trailing

        // a query

        GET BIKES WHERE year < 2005
    "#;
    let without = "DEFINE bike \"A\" { year: 2001 }\nGET BIKES WHERE year < 2005";
    assert_eq!(parse_moto_file(with).unwrap(), parse_moto_file(without).unwrap());
}

#[test]
fn blanks_between_tokens_are_optional() {
    let tight = parse_moto_file("DEFINEbike\"A\"{year:2000,engine:125cc}GETBIKESWHEREyear>1999").unwrap();
    let loose = parse_moto_file(
        "DEFINE bike \"A\" {\n  year : 2000 ,\n  engine : 125cc\n}\n\nGET BIKES WHERE year > 1999\n",
    )
    .unwrap();
    assert_eq!(tight, loose);
    assert_eq!(tight.len(), 2);
}

#[test]
fn slashes_inside_a_string_are_text() {
    let ast = parse_moto_file("DEFINE bike \"a // b\" { type: \"x // y\" }").unwrap();
    assert_eq!(
        ast,
        vec![Command::Definition(Motorcycle {
            name: "a // b".to_string(),
            year: None,
            engine_cc: None,
            bike_type: Some("x // y".to_string()),
        })]
    );
}

#[test]
fn comment_may_end_the_input() {
    assert_eq!(parse_moto_file("COUNT BIKES // all of them").unwrap().len(), 1);
    assert_eq!(parse_moto_file("COUNT BIKES //").unwrap().len(), 1);
}

#[test]
fn unit_must_touch_the_digits() {
    assert_eq!(
        syntax_error("DEFINE bike \"A\" { engine: 125 cc }"),
        SyntaxError { position: 30, expected: Expected::CommaOrCloseBrace }
    );
    assert_eq!(
        syntax_error("DEFINE bike \"A\" { engine: 125c }"),
        SyntaxError { position: 29, expected: Expected::CommaOrCloseBrace }
    );
}

#[test]
fn single_slash_is_no_comment() {
    assert_eq!(
        syntax_error("/ COUNT BIKES"),
        SyntaxError { position: 0, expected: Expected::CommandOrEnd }
    );
}

#[test]
fn condition_operator_is_one_character() {
    let ast = parse_moto_file("COUNT BIKES WHERE engine<600cc").unwrap();
    assert_eq!(
        ast,
        vec![Command::Count(Query {
            condition: Some(Condition {
                field: "engine".to_string(),
                operator: "<".to_string(),
                value: Value::Number(600),
            })
        })]
    );
    assert_eq!(
        syntax_error("COUNT BIKES WHERE engine >= 600"),
        SyntaxError { position: 26, expected: Expected::Value }
    );
}
