use faber::options::{parse_parameters, NumberReading, ParamValue};
use faber::table::Table;

/// Parses parameters, each read as a number in the way of the standard library.
fn parse(params: &[&str]) -> Result<Table<ParamValue>, String> {
    let list: Vec<String> = params.iter().map(|p| p.to_string()).collect();
    let mut readings: Vec<NumberReading> = Vec::new();
    for p in params {
        let value = p.split_once('=').map(|(_, v)| v).unwrap_or("");
        readings.push(match value.parse::<f64>() {
            Ok(n) if n.is_finite() => NumberReading::Finite,
            Ok(_) => NumberReading::NotFinite,
            Err(_) => NumberReading::NotANumber,
        });
    }
    parse_parameters(&list, &readings)
}

/// The JSON value of a parameter.
fn json(table: &Table<ParamValue>, name: &str) -> serde_json::Value {
    match table.get(name).unwrap() {
        ParamValue::Number(text) => serde_json::Value::from(text.parse::<f64>().unwrap()),
        ParamValue::Bool(b) => serde_json::Value::from(*b),
        ParamValue::Null => serde_json::Value::Null,
        ParamValue::Text(t) => serde_json::Value::from(t.as_str()),
    }
}

#[test]
fn test_parse_parameters_number() {
    let params = parse(&["temperature=0.7"]).unwrap();
    assert_eq!(json(&params, "temperature"), serde_json::Value::from(0.7));
}

#[test]
fn test_parse_parameters_integer() {
    let params = parse(&["count=42"]).unwrap();
    assert_eq!(json(&params, "count"), serde_json::Value::from(42.0));
}

#[test]
fn test_parse_parameters_bool() {
    let params = parse(&["stream=true"]).unwrap();
    assert_eq!(json(&params, "stream"), serde_json::Value::from(true));
}

#[test]
fn test_parse_parameters_null() {
    let params = parse(&["val=null"]).unwrap();
    assert_eq!(json(&params, "val"), serde_json::Value::Null);
}

#[test]
fn test_parse_parameters_string() {
    let params = parse(&["name=hello world"]).unwrap();
    assert_eq!(json(&params, "name"), serde_json::Value::from("hello world"));
}

#[test]
fn test_parse_parameters_nan_becomes_string() {
    let params = parse(&["val=NaN"]).unwrap();
    assert_eq!(json(&params, "val"), serde_json::Value::from("NaN"));
}

#[test]
fn test_parse_parameters_infinity_becomes_string() {
    let params = parse(&["val=inf"]).unwrap();
    assert_eq!(json(&params, "val"), serde_json::Value::from("inf"));

    let params = parse(&["val=Infinity"]).unwrap();
    assert_eq!(json(&params, "val"), serde_json::Value::from("Infinity"));
}

#[test]
fn test_parse_parameters_invalid_format() {
    let result = parse(&["noequals"]);
    assert!(result.is_err());
}

#[test]
fn test_parse_parameters_empty() {
    let params = parse(&[]).unwrap();
    assert!(params.len() == 0);
}
