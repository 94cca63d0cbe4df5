//! Currency conversion from a cached table of exchange rates.
//!
//! The crate holds the rules of the converter: when the cached table is
//! still fresh, how the cached document becomes a rate table, how the command
//! line is read, and which currencies are listed. Floating-point values pass
//! through as their IEEE-754 bit patterns; the arithmetic on them, the
//! download and all file access belong to the program around this library.

pub mod text;
pub mod names;
pub mod table;
pub mod args;
pub mod cache;
pub mod json;
pub mod loader;
pub mod listing;
pub mod exchange;
pub mod program;

pub use args::{parse_arguments, Argument, ArgumentError, ArgumentOutcome, ConversionRequest};
pub use cache::{is_fresh, CacheState};
pub use exchange::{find_rates, LookupError, Quote};
pub use listing::{all_rates, usual_rates, NamedCurrency};
pub use loader::{load_rates, rates_from_document, LoadError};
pub use names::get_currency_name;
pub use program::{exit_code, respond, run, Outcome};
pub use table::RateTable;
