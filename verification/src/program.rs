//! One run of the converter, from the cached text and the command line to
//! what is to be shown and the exit status.

use crate::args::{parse_arguments, Argument, ArgumentError, ArgumentOutcome, ConversionRequest, Misuse, Reading, reading};
use crate::exchange::{find_rates, quote_of, LookupError, Quote};
use crate::listing::{all_rates, is_full_listing, is_usual_listing, usual_rates, NamedCurrency};
use crate::loader::{load_rates, loaded, LoadError};
use crate::table::RateTable;
use vstd::prelude::*;

verus! {

/// How a run ends.
#[derive(Debug, PartialEq, Eq)]
pub enum Outcome {
    /// The rates could not be downloaded.
    DownloadFailed,
    /// The cache file could not be read, or gives no rate table.
    LoadFailed(LoadError),
    /// The command line could not be read.
    Usage(ArgumentError),
    /// The usage text is asked for.
    Help,
    /// The program's name and version are asked for.
    Version,
    /// The usual currencies are asked for.
    UsualRates(Vec<NamedCurrency>),
    /// All currencies are asked for.
    AllRates(Vec<String>),
    /// The table lacks a currency of the request.
    NotFound(ConversionRequest, LookupError),
    /// A conversion, with the rates of its two currencies.
    Exchange(ConversionRequest, Quote),
}

/// The exit status of a run.
pub open spec fn exit_status(outcome: Outcome) -> i32 {
    match outcome {
        Outcome::DownloadFailed => 1,
        Outcome::LoadFailed(_) => 2,
        Outcome::Usage(ArgumentError::NoArguments) => 1,
        Outcome::Usage(ArgumentError::NotEnoughArguments) => 1,
        Outcome::Usage(ArgumentError::UnknownFlag(_)) => 3,
        Outcome::Usage(ArgumentError::TooManyArguments) => 3,
        Outcome::NotFound(_, LookupError::FromMissing) => 4,
        Outcome::NotFound(_, LookupError::ToMissing) => 5,
        _ => 0,
    }
}

/// Whether an outcome answers what the command line asks of a table.
pub open spec fn answers(outcome: Outcome, rates: Map<Seq<char>, u64>, asked: Reading) -> bool {
    match asked {
        Reading::Error(misuse) => outcome matches Outcome::Usage(error) && error@ == misuse,
        Reading::Help => outcome is Help,
        Reading::Version => outcome is Version,
        Reading::ListUsual => outcome matches Outcome::UsualRates(list) && is_usual_listing(
            list@,
            rates,
        ),
        Reading::ListAll => outcome matches Outcome::AllRates(list) && is_full_listing(list@, rates),
        Reading::Convert(request) => match quote_of(rates, request) {
            Ok(quote) => outcome matches Outcome::Exchange(asked_for, found) && asked_for@
                == request && found == quote,
            Err(missing) => outcome matches Outcome::NotFound(asked_for, error) && asked_for@
                == request && error == missing,
        },
    }
}

/// The exit status that a command line has on a table.
pub open spec fn status_of(rates: Map<Seq<char>, u64>, asked: Reading) -> i32 {
    match asked {
        Reading::Error(Misuse::NoArguments) => 1,
        Reading::Error(Misuse::NotEnoughArguments) => 1,
        Reading::Error(Misuse::UnknownFlag(_)) => 3,
        Reading::Error(Misuse::TooManyArguments) => 3,
        Reading::Convert(request) => if !rates.contains_key(request.from) {
            4
        } else if !rates.contains_key(request.to) {
            5
        } else {
            0
        },
        _ => 0,
    }
}

/// The exit status of an answer is settled by the command line and the codes
/// of the table. A request whose first currency the table lacks ends with 4,
/// whether or not it holds the second; one that lacks the second only, with 5.
pub proof fn lemma_status_of_answer(outcome: Outcome, rates: Map<Seq<char>, u64>, asked: Reading)
    requires
        answers(outcome, rates, asked),
    ensures
        exit_status(outcome) == status_of(rates, asked),
{
}

/// An empty command line ends with status 1 on every table.
pub proof fn lemma_status_of_empty_line(outcome: Outcome, rates: Map<Seq<char>, u64>)
    requires
        answers(outcome, rates, reading(Seq::<Argument>::empty())),
    ensures
        exit_status(outcome) == 1,
{
}

/// The exit status of a run: 0 for a conversion, a listing, the usage text
/// or the version; 1 where the download failed or the command line holds too
/// little; 2 where the cache gives no table; 3 for an unknown flag or a word
/// too many; 4 and 5 where the table lacks the first or the second currency.
pub fn exit_code(outcome: &Outcome) -> (status: i32)
    ensures
        status == exit_status(*outcome),
{
    match outcome {
        Outcome::DownloadFailed => 1,
        Outcome::LoadFailed(_) => 2,
        Outcome::Usage(error) => match error {
            ArgumentError::NoArguments => 1,
            ArgumentError::NotEnoughArguments => 1,
            ArgumentError::UnknownFlag(_) => 3,
            ArgumentError::TooManyArguments => 3,
        },
        Outcome::NotFound(_, missing) => match missing {
            LookupError::FromMissing => 4,
            LookupError::ToMissing => 5,
        },
        _ => 0,
    }
}

/// Answers the command line from a loaded table.
pub fn respond(table: &RateTable, args: &Vec<Argument>) -> (outcome: Outcome)
    ensures
        answers(outcome, table@, reading(args@)),
{
    match parse_arguments(args) {
        ArgumentOutcome::Error(error) => Outcome::Usage(error),
        ArgumentOutcome::Help => Outcome::Help,
        ArgumentOutcome::Version => Outcome::Version,
        ArgumentOutcome::ListUsual => Outcome::UsualRates(usual_rates(table)),
        ArgumentOutcome::ListAll => Outcome::AllRates(all_rates(table)),
        ArgumentOutcome::Convert(request) => match find_rates(table, &request) {
            Ok(quote) => Outcome::Exchange(request, quote),
            Err(missing) => Outcome::NotFound(request, missing),
        },
    }
}

/// Runs the converter on the text of the cache file and the command line.
/// The table is loaded first: a cache that gives none ends the run, whatever
/// the command line holds.
pub fn run(content: &str, args: &Vec<Argument>) -> (outcome: Outcome)
    ensures
        match loaded(content@) {
            Ok(rates) => answers(outcome, rates, reading(args@)),
            Err(error) => outcome == Outcome::LoadFailed(error),
        },
{
    match load_rates(content) {
        Ok(table) => respond(&table, args),
        Err(error) => Outcome::LoadFailed(error),
    }
}

} // verus!
