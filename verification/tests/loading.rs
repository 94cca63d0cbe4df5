use currency::{load_rates, rates_from_document, LoadError, RateTable};

fn table_of(text: &str) -> RateTable {
    match load_rates(text) {
        Ok(table) => table,
        Err(error) => panic!("no table: {:?}", error),
    }
}

fn error_of(text: &str) -> LoadError {
    match load_rates(text) {
        Ok(table) => panic!("a table: {:?}", table),
        Err(error) => error,
    }
}

#[test]
fn two_rates_are_loaded() {
    let table = table_of("{\"rates\":{\"USD\":1.1,\"EUR\":1.0}}");
    assert_eq!(table.len(), 2);
    assert_eq!(table.codes(), vec!["EUR", "USD"]);
    assert_eq!(table.get("USD").map(f64::from_bits), Some(1.1));
    assert_eq!(table.get("EUR").map(f64::from_bits), Some(1.0));
}

#[test]
fn other_fields_are_ignored() {
    let table = table_of(
        "{\"base\":\"EUR\",\"date\":\"2020-01-01\",\"rates\":{\"GBP\":0.85},\"more\":[1,2,{\"rates\":3}]}",
    );
    assert_eq!(table.len(), 1);
    assert_eq!(table.get("GBP").map(f64::from_bits), Some(0.85));
    assert_eq!(table.get("base"), None);
}

#[test]
fn whole_numbers_are_rates_too() {
    let table = table_of("{\"rates\":{\"JPY\":130,\"NEG\":-2,\"BIG\":18446744073709551615,\"EXP\":1e3}}");
    assert_eq!(table.get("JPY").map(f64::from_bits), Some(130.0));
    assert_eq!(table.get("NEG").map(f64::from_bits), Some(-2.0));
    assert_eq!(table.get("BIG").map(f64::from_bits), Some(18446744073709551615.0));
    assert_eq!(table.get("EXP").map(f64::from_bits), Some(1000.0));
}

#[test]
fn last_rate_of_a_repeated_code_stands() {
    let table = table_of("{\"rates\":{\"USD\":1.5,\"EUR\":1.0,\"USD\":2.5}}");
    assert_eq!(table.len(), 2);
    assert_eq!(table.get("USD").map(f64::from_bits), Some(2.5));
}

#[test]
fn last_rates_field_stands() {
    let table = table_of("{\"rates\":{\"USD\":1.5},\"rates\":{\"EUR\":1.0}}");
    assert_eq!(table.codes(), vec!["EUR"]);
}

#[test]
fn white_space_between_tokens_is_ignored() {
    let table = table_of(" {\n  \"rates\" : {\n    \"USD\" : 1.25 ,\n    \"EUR\" : 1\n  }\n}\n");
    assert_eq!(table.len(), 2);
    assert_eq!(table.get("USD").map(f64::from_bits), Some(1.25));
}

#[test]
fn empty_rates_give_an_empty_table() {
    let table = table_of("{\"rates\":{}}");
    assert_eq!(table.len(), 0);
}

#[test]
fn codes_are_kept_as_written() {
    let table = table_of("{\"rates\":{\"usd\":1.0,\"\":2.0,\"\\u20ac\":3.0}}");
    assert_eq!(table.len(), 3);
    assert_eq!(table.get("usd").map(f64::from_bits), Some(1.0));
    assert_eq!(table.get("USD"), None);
    assert_eq!(table.get("").map(f64::from_bits), Some(2.0));
    assert_eq!(table.get("\u{20ac}").map(f64::from_bits), Some(3.0));
}

#[test]
fn empty_text_is_refused() {
    assert_eq!(error_of(""), LoadError::Empty);
}

#[test]
fn text_that_is_no_json_is_refused() {
    assert_eq!(error_of("rates"), LoadError::Parse);
    assert_eq!(error_of(" "), LoadError::Parse);
    assert_eq!(error_of("{\"rates\":{\"USD\":1.1}"), LoadError::Parse);
    assert_eq!(error_of("{\"rates\":{\"USD\":1.1}} x"), LoadError::Parse);
    assert_eq!(error_of("{\"rates\":{\"USD\":1e999}}"), LoadError::Parse);
}

#[test]
fn document_without_rates_is_refused() {
    assert_eq!(error_of("{}"), LoadError::Structure);
    assert_eq!(error_of("{\"Rates\":{\"USD\":1.1}}"), LoadError::Structure);
    assert_eq!(error_of("{\"data\":{\"rates\":{\"USD\":1.1}}}"), LoadError::Structure);
}

#[test]
fn document_that_is_no_object_is_refused() {
    assert_eq!(error_of("[]"), LoadError::Structure);
    assert_eq!(error_of("null"), LoadError::Structure);
    assert_eq!(error_of("12"), LoadError::Structure);
    assert_eq!(error_of("\"rates\""), LoadError::Structure);
    assert_eq!(error_of("[{\"rates\":{\"USD\":1.1}}]"), LoadError::Structure);
}

#[test]
fn rates_that_are_no_object_are_refused() {
    assert_eq!(error_of("{\"rates\":[1,2]}"), LoadError::Structure);
    assert_eq!(error_of("{\"rates\":1.5}"), LoadError::Structure);
    assert_eq!(error_of("{\"rates\":null}"), LoadError::Structure);
    assert_eq!(error_of("{\"rates\":\"USD\"}"), LoadError::Structure);
}

#[test]
fn rate_that_is_no_number_is_refused() {
    assert_eq!(error_of("{\"rates\":{\"USD\":\"1.1\"}}"), LoadError::Structure);
    assert_eq!(error_of("{\"rates\":{\"EUR\":1.0,\"USD\":null}}"), LoadError::Structure);
    assert_eq!(error_of("{\"rates\":{\"AUD\":true,\"EUR\":1.0}}"), LoadError::Structure);
    assert_eq!(error_of("{\"rates\":{\"EUR\":1.0,\"ZAR\":{\"rate\":2}}}"), LoadError::Structure);
    assert_eq!(error_of("{\"rates\":{\"EUR\":[1.0]}}"), LoadError::Structure);
}

#[test]
fn table_is_built_from_a_document() {
    let mut rates = serde_json::Map::new();
    rates.insert("USD".to_string(), serde_json::Value::from(1.1));
    rates.insert("EUR".to_string(), serde_json::Value::from(1u64));
    let mut top = serde_json::Map::new();
    top.insert("rates".to_string(), serde_json::Value::Object(rates));
    top.insert("base".to_string(), serde_json::Value::from("EUR"));
    let table = rates_from_document(&serde_json::Value::Object(top)).unwrap();
    assert_eq!(table.len(), 2);
    assert_eq!(table.get("USD").map(f64::from_bits), Some(1.1));
    assert_eq!(table.get("EUR").map(f64::from_bits), Some(1.0));
}

#[test]
fn document_with_a_wrong_rate_gives_no_table() {
    let mut rates = serde_json::Map::new();
    rates.insert("USD".to_string(), serde_json::Value::from(1.1));
    rates.insert("EUR".to_string(), serde_json::Value::from("one"));
    let mut top = serde_json::Map::new();
    top.insert("rates".to_string(), serde_json::Value::Object(rates));
    assert_eq!(
        rates_from_document(&serde_json::Value::Object(top)).err(),
        Some(LoadError::Structure)
    );
    assert_eq!(
        rates_from_document(&serde_json::Value::Null).err(),
        Some(LoadError::Structure)
    );
    assert_eq!(
        rates_from_document(&serde_json::Value::Array(Vec::new())).err(),
        Some(LoadError::Structure)
    );
}
