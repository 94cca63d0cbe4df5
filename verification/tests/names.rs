use currency::get_currency_name;

#[test]
fn known_codes_have_their_names() {
    let table = [
        ("EUR", "Euro"),
        ("USD", "US Dollar"),
        ("JPY", "Japanese Yen"),
        ("BGN", "Bulgarian Lev"),
        ("CZK", "Czech Koruna"),
        ("DKK", "Danish Krone"),
        ("GBP", "Pound Sterling"),
        ("HUF", "Hungarian Forint"),
        ("PLN", "Polish Zloty"),
        ("RON", "Romanian Leu"),
        ("SEK", "Swedish Krona"),
        ("CHF", "Swiss Franc"),
        ("ISK", "Islandic Krona"),
        ("NOK", "Norwegian Krone"),
        ("TRY", "Turkish Lira"),
        ("AUD", "Australian Dollar"),
        ("BRL", "Brazilian Real"),
        ("CAD", "Canadian Dollar"),
        ("CNY", "Chinese Yuan Renmimbi"),
        ("HKD", "Hong Kong Dollar"),
        ("IDR", "Indonesian Rupiah"),
        ("ILS", "Israeli Shekel"),
        ("INR", "Indian Rupee"),
        ("KRW", "South Korean Won"),
        ("MXN", "Mexican Peso"),
        ("MYR", "Malaysian Ringgit"),
        ("NZD", "New Zealand Dollar"),
        ("PHP", "Philippine Peso"),
        ("SGD", "Singapore Dollar"),
        ("THB", "Thai Baht"),
        ("ZAR", "South African Rand"),
    ];
    for (code, name) in table {
        assert_eq!(get_currency_name(code), name, "{}", code);
    }
}

#[test]
fn unmapped_code_is_unknown() {
    assert_eq!(get_currency_name("XYZ"), "Unknown");
}

#[test]
fn names_are_matched_in_upper_case_only() {
    assert_eq!(get_currency_name("eur"), "Unknown");
    assert_eq!(get_currency_name("Eur"), "Unknown");
}

#[test]
fn near_misses_are_unknown() {
    assert_eq!(get_currency_name(""), "Unknown");
    assert_eq!(get_currency_name("EU"), "Unknown");
    assert_eq!(get_currency_name("EURO"), "Unknown");
    assert_eq!(get_currency_name(" EUR"), "Unknown");
}
