//! Display names of the well-known currencies.

use crate::text::same_text;
use vstd::prelude::*;

verus! {

/// The display name of a currency code; `"Unknown"` for a code that has none.
pub open spec fn currency_name(code: Seq<char>) -> Seq<char> {
    if code == "EUR"@ {
        "Euro"@
    } else if code == "USD"@ {
        "US Dollar"@
    } else if code == "JPY"@ {
        "Japanese Yen"@
    } else if code == "BGN"@ {
        "Bulgarian Lev"@
    } else if code == "CZK"@ {
        "Czech Koruna"@
    } else if code == "DKK"@ {
        "Danish Krone"@
    } else if code == "GBP"@ {
        "Pound Sterling"@
    } else if code == "HUF"@ {
        "Hungarian Forint"@
    } else if code == "PLN"@ {
        "Polish Zloty"@
    } else if code == "RON"@ {
        "Romanian Leu"@
    } else if code == "SEK"@ {
        "Swedish Krona"@
    } else if code == "CHF"@ {
        "Swiss Franc"@
    } else if code == "ISK"@ {
        "Islandic Krona"@
    } else if code == "NOK"@ {
        "Norwegian Krone"@
    } else if code == "TRY"@ {
        "Turkish Lira"@
    } else if code == "AUD"@ {
        "Australian Dollar"@
    } else if code == "BRL"@ {
        "Brazilian Real"@
    } else if code == "CAD"@ {
        "Canadian Dollar"@
    } else if code == "CNY"@ {
        "Chinese Yuan Renmimbi"@
    } else if code == "HKD"@ {
        "Hong Kong Dollar"@
    } else if code == "IDR"@ {
        "Indonesian Rupiah"@
    } else if code == "ILS"@ {
        "Israeli Shekel"@
    } else if code == "INR"@ {
        "Indian Rupee"@
    } else if code == "KRW"@ {
        "South Korean Won"@
    } else if code == "MXN"@ {
        "Mexican Peso"@
    } else if code == "MYR"@ {
        "Malaysian Ringgit"@
    } else if code == "NZD"@ {
        "New Zealand Dollar"@
    } else if code == "PHP"@ {
        "Philippine Peso"@
    } else if code == "SGD"@ {
        "Singapore Dollar"@
    } else if code == "THB"@ {
        "Thai Baht"@
    } else if code == "ZAR"@ {
        "South African Rand"@
    } else {
        "Unknown"@
    }
}

/// Whether a code has a display name, and so belongs to the usual currencies.
pub open spec fn is_usual(code: Seq<char>) -> bool {
    currency_name(code) != "Unknown"@
}

/// Looks up the display name of a currency code. The codes are matched as
/// written, in upper case; any other text gets the name `"Unknown"`.
pub fn get_currency_name(currency: &str) -> (name: String)
    ensures
        name@ == currency_name(currency@),
{
    if same_text(currency, "EUR") {
        "Euro".to_owned()
    } else if same_text(currency, "USD") {
        "US Dollar".to_owned()
    } else if same_text(currency, "JPY") {
        "Japanese Yen".to_owned()
    } else if same_text(currency, "BGN") {
        "Bulgarian Lev".to_owned()
    } else if same_text(currency, "CZK") {
        "Czech Koruna".to_owned()
    } else if same_text(currency, "DKK") {
        "Danish Krone".to_owned()
    } else if same_text(currency, "GBP") {
        "Pound Sterling".to_owned()
    } else if same_text(currency, "HUF") {
        "Hungarian Forint".to_owned()
    } else if same_text(currency, "PLN") {
        "Polish Zloty".to_owned()
    } else if same_text(currency, "RON") {
        "Romanian Leu".to_owned()
    } else if same_text(currency, "SEK") {
        "Swedish Krona".to_owned()
    } else if same_text(currency, "CHF") {
        "Swiss Franc".to_owned()
    } else if same_text(currency, "ISK") {
        "Islandic Krona".to_owned()
    } else if same_text(currency, "NOK") {
        "Norwegian Krone".to_owned()
    } else if same_text(currency, "TRY") {
        "Turkish Lira".to_owned()
    } else if same_text(currency, "AUD") {
        "Australian Dollar".to_owned()
    } else if same_text(currency, "BRL") {
        "Brazilian Real".to_owned()
    } else if same_text(currency, "CAD") {
        "Canadian Dollar".to_owned()
    } else if same_text(currency, "CNY") {
        "Chinese Yuan Renmimbi".to_owned()
    } else if same_text(currency, "HKD") {
        "Hong Kong Dollar".to_owned()
    } else if same_text(currency, "IDR") {
        "Indonesian Rupiah".to_owned()
    } else if same_text(currency, "ILS") {
        "Israeli Shekel".to_owned()
    } else if same_text(currency, "INR") {
        "Indian Rupee".to_owned()
    } else if same_text(currency, "KRW") {
        "South Korean Won".to_owned()
    } else if same_text(currency, "MXN") {
        "Mexican Peso".to_owned()
    } else if same_text(currency, "MYR") {
        "Malaysian Ringgit".to_owned()
    } else if same_text(currency, "NZD") {
        "New Zealand Dollar".to_owned()
    } else if same_text(currency, "PHP") {
        "Philippine Peso".to_owned()
    } else if same_text(currency, "SGD") {
        "Singapore Dollar".to_owned()
    } else if same_text(currency, "THB") {
        "Thai Baht".to_owned()
    } else if same_text(currency, "ZAR") {
        "South African Rand".to_owned()
    } else {
        "Unknown".to_owned()
    }
}

} // verus!
