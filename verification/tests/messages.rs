use motogarage_parser::{parse_moto_file, Command, Expected, MotoError, Motorcycle, SyntaxError};

#[test]
fn syntax_error_message() {
    let e = SyntaxError { position: 12, expected: Expected::StringLiteral };
    assert_eq!(e.message(), "at character 12: expected a string literal");
    assert_eq!(
        MotoError::ParseError(e).message(),
        "Parsing error: at character 12: expected a string literal"
    );
}

#[test]
fn interpreter_error_message() {
    assert_eq!(
        MotoError::InterpreterError("no such bike".to_string()).message(),
        "Interp error: no such bike"
    );
}

#[test]
fn every_expectation_is_described() {
    let all = [
        (Expected::CommandOrEnd, "DEFINE, GET, COUNT or the end of the input"),
        (Expected::BikeKeyword, "the keyword bike"),
        (Expected::BikesKeyword, "the keyword BIKES"),
        (Expected::StringLiteral, "a string literal"),
        (Expected::ClosingQuote, "a closing double quote"),
        (Expected::OpenBrace, "an opening brace"),
        (Expected::PropertyOrCloseBrace, "a property or a closing brace"),
        (Expected::Property, "a property"),
        (Expected::Colon, "a colon"),
        (Expected::Value, "a number, a string literal or an identifier"),
        (Expected::CommaOrCloseBrace, "a comma or a closing brace"),
        (Expected::Field, "a field name"),
        (Expected::Operator, "one of the operators =, > and <"),
    ];
    for (expected, text) in all {
        assert_eq!(expected.describe(), text);
    }
}

#[test]
fn message_of_a_rejected_file() {
    let e = parse_moto_file("GET BIKES WHERE year ! 3").unwrap_err();
    assert_eq!(
        e.message(),
        "Parsing error: at character 21: expected one of the operators =, > and <"
    );
}

fn written(m: &Motorcycle) -> String {
    let mut props: Vec<String> = Vec::new();
    if let Some(y) = m.year {
        props.push(format!("year:{}", y));
    }
    if let Some(e) = m.engine_cc {
        props.push(format!("engine:{}", e));
    }
    if let Some(t) = &m.bike_type {
        props.push(format!("type:{}", t));
    }
    format!("DEFINE bike \"{}\" {{{}}}", m.name, props.join(","))
}

#[test]
fn written_definition_is_read_back() {
    let records = [
        Motorcycle {
            name: "Honda CBR600RR".to_string(),
            year: Some(2021),
            engine_cc: Some(599),
            bike_type: Some("sport".to_string()),
        },
        Motorcycle { name: "Bare".to_string(), year: None, engine_cc: None, bike_type: None },
        Motorcycle {
            name: String::new(),
            year: Some(0),
            engine_cc: Some(u32::MAX),
            bike_type: None,
        },
        Motorcycle {
            name: "T".to_string(),
            year: None,
            engine_cc: None,
            bike_type: Some("dual_sport2".to_string()),
        },
    ];
    for m in records {
        let text = written(&m);
        assert_eq!(parse_moto_file(&text).unwrap(), vec![Command::Definition(m)], "{}", text);
    }
}

#[test]
fn written_definition_text() {
    let m = Motorcycle {
        name: "A".to_string(),
        year: Some(1999),
        engine_cc: None,
        bike_type: Some("naked".to_string()),
    };
    assert_eq!(written(&m), "DEFINE bike \"A\" {year:1999,type:naked}");
}
