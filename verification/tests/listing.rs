use currency::{all_rates, load_rates, usual_rates, NamedCurrency, RateTable};

fn sample() -> RateTable {
    load_rates("{\"rates\":{\"USD\":1.1,\"XYZ\":3.0,\"EUR\":1.0,\"BTC\":0.00002,\"CHF\":0.97,\"eur\":1.0}}")
        .unwrap()
}

fn named(code: &str, name: &str) -> NamedCurrency {
    NamedCurrency { code: code.to_string(), name: name.to_string() }
}

#[test]
fn full_listing_holds_every_code_in_order() {
    assert_eq!(all_rates(&sample()), vec!["BTC", "CHF", "EUR", "USD", "XYZ", "eur"]);
}

#[test]
fn usual_listing_leaves_out_codes_without_a_name() {
    assert_eq!(
        usual_rates(&sample()),
        vec![named("CHF", "Swiss Franc"), named("EUR", "Euro"), named("USD", "US Dollar")]
    );
}

#[test]
fn unknown_code_is_listed_in_full_only() {
    let table = sample();
    assert!(all_rates(&table).iter().any(|code| code == "XYZ"));
    assert!(usual_rates(&table).iter().all(|entry| entry.code != "XYZ"));
    assert!(usual_rates(&table).iter().all(|entry| entry.name != "Unknown"));
}

#[test]
fn listings_of_an_empty_table_are_empty() {
    let table = RateTable::new();
    assert!(all_rates(&table).is_empty());
    assert!(usual_rates(&table).is_empty());
}

#[test]
fn table_of_unknown_codes_has_no_usual_listing() {
    let mut table = RateTable::new();
    table.insert("AAA".to_string(), 1);
    table.insert("zar".to_string(), 2);
    assert_eq!(all_rates(&table), vec!["AAA", "zar"]);
    assert!(usual_rates(&table).is_empty());
}

#[test]
fn every_usual_code_is_listed_with_its_name() {
    let codes = [
        "ZAR", "THB", "SGD", "PHP", "NZD", "MYR", "MXN", "KRW", "INR", "ILS", "IDR", "HKD", "CNY",
        "CAD", "BRL", "AUD", "TRY", "NOK", "ISK", "CHF", "SEK", "RON", "PLN", "HUF", "GBP", "DKK",
        "CZK", "BGN", "JPY", "USD", "EUR",
    ];
    let mut table = RateTable::new();
    for code in codes {
        table.insert(code.to_string(), 1);
    }
    let listed = usual_rates(&table);
    assert_eq!(listed.len(), 31);
    let mut sorted: Vec<&str> = codes.to_vec();
    sorted.sort();
    let got: Vec<&str> = listed.iter().map(|entry| entry.code.as_str()).collect();
    assert_eq!(got, sorted);
    for entry in &listed {
        assert_eq!(entry.name, currency::get_currency_name(&entry.code));
    }
}
