use currency::args::{DEFAULT_AMOUNT, ZERO_AMOUNT};
use currency::{parse_arguments, Argument, ArgumentError, ArgumentOutcome, ConversionRequest};

fn words(list: &[&str]) -> Vec<Argument> {
    list.iter()
        .map(|word| Argument {
            text: word.to_string(),
            number: word.parse::<f64>().ok().map(f64::to_bits),
        })
        .collect()
}

fn request_of(list: &[&str]) -> ConversionRequest {
    match parse_arguments(&words(list)) {
        ArgumentOutcome::Convert(request) => request,
        other => panic!("no request: {:?}", other),
    }
}

#[test]
fn two_words_ask_for_the_default_amount() {
    let request = request_of(&["EUR", "usd"]);
    assert_eq!(request.from, "EUR");
    assert_eq!(request.to, "USD");
    assert_eq!(f64::from_bits(request.amount), 1.0);
}

#[test]
fn third_word_is_the_amount() {
    let request = request_of(&["eur", "usd", "50"]);
    assert_eq!(request.from, "EUR");
    assert_eq!(request.to, "USD");
    assert_eq!(f64::from_bits(request.amount), 50.0);
}

#[test]
fn amount_may_have_a_fraction() {
    let request = request_of(&["chf", "gbp", "12.75"]);
    assert_eq!(f64::from_bits(request.amount), 12.75);
}

#[test]
fn word_that_is_no_number_counts_as_zero() {
    let request = request_of(&["eur", "usd", "fifty"]);
    assert_eq!(f64::from_bits(request.amount), 0.0);
    assert_eq!(request.amount, ZERO_AMOUNT);
}

#[test]
fn default_amount_is_one() {
    assert_eq!(f64::from_bits(DEFAULT_AMOUNT), 1.0);
    assert_eq!(f64::from_bits(ZERO_AMOUNT), 0.0);
}

#[test]
fn empty_command_line_is_an_error() {
    assert_eq!(
        parse_arguments(&words(&[])),
        ArgumentOutcome::Error(ArgumentError::NoArguments)
    );
}

#[test]
fn list_all_ends_the_reading() {
    assert_eq!(parse_arguments(&words(&["--list-all"])), ArgumentOutcome::ListAll);
    assert_eq!(
        parse_arguments(&words(&["--list-all", "eur", "--help", "-x", "a", "b", "c", "d"])),
        ArgumentOutcome::ListAll
    );
    assert_eq!(parse_arguments(&words(&["-la", "--version"])), ArgumentOutcome::ListAll);
}

#[test]
fn every_flag_is_known() {
    assert_eq!(parse_arguments(&words(&["-h"])), ArgumentOutcome::Help);
    assert_eq!(parse_arguments(&words(&["--help"])), ArgumentOutcome::Help);
    assert_eq!(parse_arguments(&words(&["-V"])), ArgumentOutcome::Version);
    assert_eq!(parse_arguments(&words(&["--version"])), ArgumentOutcome::Version);
    assert_eq!(parse_arguments(&words(&["-l"])), ArgumentOutcome::ListUsual);
    assert_eq!(parse_arguments(&words(&["--list"])), ArgumentOutcome::ListUsual);
    assert_eq!(parse_arguments(&words(&["-lu"])), ArgumentOutcome::ListUsual);
    assert_eq!(parse_arguments(&words(&["--list-usual"])), ArgumentOutcome::ListUsual);
    assert_eq!(parse_arguments(&words(&["-la"])), ArgumentOutcome::ListAll);
    assert_eq!(parse_arguments(&words(&["--list-all"])), ArgumentOutcome::ListAll);
}

#[test]
fn flags_are_matched_as_written() {
    assert_eq!(
        parse_arguments(&words(&["-H"])),
        ArgumentOutcome::Error(ArgumentError::UnknownFlag("-H".to_string()))
    );
    assert_eq!(
        parse_arguments(&words(&["-v"])),
        ArgumentOutcome::Error(ArgumentError::UnknownFlag("-v".to_string()))
    );
    assert_eq!(
        parse_arguments(&words(&["--list-al"])),
        ArgumentOutcome::Error(ArgumentError::UnknownFlag("--list-al".to_string()))
    );
}

#[test]
fn unknown_flag_is_an_error() {
    assert_eq!(
        parse_arguments(&words(&["eur", "-x", "usd"])),
        ArgumentOutcome::Error(ArgumentError::UnknownFlag("-x".to_string()))
    );
    assert_eq!(
        parse_arguments(&words(&["-"])),
        ArgumentOutcome::Error(ArgumentError::UnknownFlag("-".to_string()))
    );
}

#[test]
fn negative_amount_reads_as_a_flag() {
    assert_eq!(
        parse_arguments(&words(&["eur", "usd", "-5"])),
        ArgumentOutcome::Error(ArgumentError::UnknownFlag("-5".to_string()))
    );
}

#[test]
fn fourth_word_is_one_too_many() {
    assert_eq!(
        parse_arguments(&words(&["eur", "usd", "5", "6"])),
        ArgumentOutcome::Error(ArgumentError::TooManyArguments)
    );
    assert_eq!(
        parse_arguments(&words(&["eur", "usd", "5", "6", "--help"])),
        ArgumentOutcome::Error(ArgumentError::TooManyArguments)
    );
}

#[test]
fn flag_after_three_words_still_decides() {
    assert_eq!(parse_arguments(&words(&["eur", "usd", "5", "--help"])), ArgumentOutcome::Help);
    assert_eq!(parse_arguments(&words(&["eur", "-V", "5"])), ArgumentOutcome::Version);
    assert_eq!(parse_arguments(&words(&["eur", "usd", "-l"])), ArgumentOutcome::ListUsual);
}

#[test]
fn one_word_is_not_enough() {
    assert_eq!(
        parse_arguments(&words(&["eur"])),
        ArgumentOutcome::Error(ArgumentError::NotEnoughArguments)
    );
}

#[test]
fn codes_are_put_in_ascii_upper_case() {
    let request = request_of(&["uSd", "z\u{e9}r1"]);
    assert_eq!(request.from, "USD");
    assert_eq!(request.to, "Z\u{e9}R1");
}

#[test]
fn empty_word_fills_a_place() {
    let request = request_of(&["", "usd"]);
    assert_eq!(request.from, "");
    assert_eq!(request.to, "USD");
}
