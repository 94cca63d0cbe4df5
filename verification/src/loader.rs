//! From the cached document to the rate table.
//!
//! The document is a JSON object with a field `rates`, itself an object that
//! gives each currency code its rate: `{ "rates": { "USD": 1.1, .. }, .. }`.
//! Other fields of the document are ignored.

use crate::json::{as_number, as_object, entries, fields_of, get_field, json_of, json_of_text, parse_document, Json};
use crate::table::RateTable;
use vstd::prelude::*;

verus! {

/// Why a cached document gives no rate table.
#[derive(Clone, Copy, Debug, PartialEq, Eq, Structural)]
pub enum LoadError {
    /// The cache file cannot be read. The caller that reads the file reports
    /// this; no text gives it.
    Unreadable,
    /// The cache holds no text.
    Empty,
    /// The text is no JSON document.
    Parse,
    /// The document is no object, has no object `rates`, or one of the rates
    /// is no number.
    Structure,
}

/// The bits of a number; zero for a document that is no number.
pub open spec fn number_bits(document: Json) -> u64 {
    match document {
        Json::Number(bits) => bits,
        _ => 0,
    }
}

/// Whether every field of an object is a number.
pub open spec fn all_numbers(fields: Map<Seq<char>, Json>) -> bool {
    forall|name: Seq<char>| fields.contains_key(name) ==> #[trigger] fields[name] is Number
}

/// The rates that a document gives.
pub open spec fn rates_of(document: Json) -> Result<Map<Seq<char>, u64>, LoadError> {
    match document {
        Json::Object(fields) => if fields.contains_key("rates"@) {
            match fields["rates"@] {
                Json::Object(rates) => if all_numbers(rates) {
                    Ok(
                        Map::new(
                            |code: Seq<char>| rates.contains_key(code),
                            |code: Seq<char>| number_bits(rates[code]),
                        ),
                    )
                } else {
                    Err(LoadError::Structure)
                },
                _ => Err(LoadError::Structure),
            }
        } else {
            Err(LoadError::Structure)
        },
        _ => Err(LoadError::Structure),
    }
}

/// The rates that the text of a cache file gives.
pub open spec fn loaded(text: Seq<char>) -> Result<Map<Seq<char>, u64>, LoadError> {
    if text.len() == 0 {
        Err(LoadError::Empty)
    } else {
        match json_of_text(text) {
            Some(document) => rates_of(document),
            None => Err(LoadError::Parse),
        }
    }
}

/// The mathematical value of a load result.
pub open spec fn outcome_of(result: Result<RateTable, LoadError>) -> Result<
    Map<Seq<char>, u64>,
    LoadError,
> {
    match result {
        Ok(table) => Ok(table@),
        Err(error) => Err(error),
    }
}

/// Builds the rate table that a parsed document gives.
pub fn rates_from_document(document: &serde_json::Value) -> (result: Result<RateTable, LoadError>)
    ensures
        outcome_of(result) == rates_of(json_of(*document)),
{
    let top = match as_object(document) {
        Some(top) => top,
        None => {
            return Err(LoadError::Structure);
        },
    };
    let field = match get_field(top, "rates") {
        Some(field) => field,
        None => {
            return Err(LoadError::Structure);
        },
    };
    let rates = match as_object(field) {
        Some(rates) => rates,
        None => {
            return Err(LoadError::Structure);
        },
    };
    let ghost given = fields_of(*rates);
    let list = entries(rates);
    let mut table = RateTable::new();
    let mut i: usize = 0;
    while i < list.len()
        invariant
            i <= list@.len(),
            json_of(*document) == Json::Object(fields_of(*top)),
            fields_of(*top).contains_key("rates"@),
            fields_of(*top)["rates"@] == Json::Object(given),
            forall|j: int|
                0 <= j < list@.len() ==> given.contains_key((#[trigger] list@[j]).0@) && given[list@[j].0@]
                    == json_of(*list@[j].1),
            forall|j: int, k: int|
                0 <= j < k < list@.len() ==> (#[trigger] list@[j]).0@ != (#[trigger] list@[k]).0@,
            forall|j: int|
                0 <= j < i ==> table@.contains_key((#[trigger] list@[j]).0@) && given[list@[j].0@]
                    == Json::Number(table@[list@[j].0@]),
            forall|code: Seq<char>| table@.contains_key(code) ==> given.contains_key(code),
        decreases list@.len() - i,
    {
        let bits = match as_number(list[i].1) {
            Some(bits) => bits,
            None => {
                proof {
                    assert(!(given[list@[i as int].0@] is Number));
                }
                return Err(LoadError::Structure);
            },
        };
        let ghost before = table@;
        table.insert(list[i].0.clone(), bits);
        proof {
            assert forall|j: int| 0 <= j < i + 1 implies table@.contains_key(
                (#[trigger] list@[j]).0@,
            ) && given[list@[j].0@] == Json::Number(table@[list@[j].0@]) by {
                if j < i {
                    assert(list@[j].0@ != list@[i as int].0@);
                    assert(before.contains_key(list@[j].0@));
                }
            }
        }
        i += 1;
    }
    proof {
        assert forall|name: Seq<char>| given.contains_key(name) implies table@.contains_key(name)
            && #[trigger] given[name] == Json::Number(table@[name]) by {
            let j = choose|j: int| 0 <= j < list@.len() && (#[trigger] list@[j]).0@ == name;
            assert(table@.contains_key(list@[j].0@));
        }
        assert(all_numbers(given));
        assert(table@ =~= Map::new(
            |code: Seq<char>| given.contains_key(code),
            |code: Seq<char>| number_bits(given[code]),
        ));
    }
    Ok(table)
}

/// Reads the text of the cache file into a rate table. Where the document
/// names a code twice, the rate that comes last stands.
pub fn load_rates(content: &str) -> (result: Result<RateTable, LoadError>)
    ensures
        outcome_of(result) == loaded(content@),
{
    if content.is_empty() {
        return Err(LoadError::Empty);
    }
    match parse_document(content) {
        Ok(document) => rates_from_document(&document),
        Err(_) => Err(LoadError::Parse),
    }
}

} // verus!
