//! Reading the command line.
//!
//! The words are taken in order. Words without a leading dash fill the three
//! places FROM, TO and AMOUNT; the first word with a leading dash decides the
//! outcome and ends the reading, whatever follows it.

use crate::text::{begins_with_dash, dashed, same_text, to_upper, upper_text};
use vstd::prelude::*;

verus! {

/// The amount of a request that names none: 1.0 as an IEEE-754 bit pattern.
pub const DEFAULT_AMOUNT: u64 = 0x3FF0_0000_0000_0000;

/// The amount taken for a word that is no number: 0.0 as an IEEE-754 bit pattern.
pub const ZERO_AMOUNT: u64 = 0;

/// One word of the command line. `number` is the word read as a decimal
/// number, as the IEEE-754 bit pattern of a 64-bit float; `None` where the
/// word is no number.
#[derive(Debug, PartialEq, Eq)]
pub struct Argument {
    pub text: String,
    pub number: Option<u64>,
}

/// A conversion that the command line asks for. The codes are in upper case;
/// the amount is the IEEE-754 bit pattern of a 64-bit float.
#[derive(Debug, PartialEq, Eq)]
pub struct ConversionRequest {
    pub from: String,
    pub to: String,
    pub amount: u64,
}

/// Why a command line could not be read.
#[derive(Debug, PartialEq, Eq)]
pub enum ArgumentError {
    /// The command line holds no word at all.
    NoArguments,
    /// A word with a leading dash that is no known flag.
    UnknownFlag(String),
    /// A fourth word without a leading dash.
    TooManyArguments,
    /// Fewer than two words, none of them with a leading dash.
    NotEnoughArguments,
}

/// What a command line asks for.
#[derive(Debug, PartialEq, Eq)]
pub enum ArgumentOutcome {
    Convert(ConversionRequest),
    ListUsual,
    ListAll,
    Help,
    Version,
    Error(ArgumentError),
}

/// The mathematical value of a `ConversionRequest`.
pub struct Request {
    pub from: Seq<char>,
    pub to: Seq<char>,
    pub amount: u64,
}

/// The mathematical value of an `ArgumentError`.
pub enum Misuse {
    NoArguments,
    UnknownFlag(Seq<char>),
    TooManyArguments,
    NotEnoughArguments,
}

/// The mathematical value of an `ArgumentOutcome`.
pub enum Reading {
    Convert(Request),
    ListUsual,
    ListAll,
    Help,
    Version,
    Error(Misuse),
}

impl View for ConversionRequest {
    type V = Request;

    open spec fn view(&self) -> Request {
        Request { from: self.from@, to: self.to@, amount: self.amount }
    }
}

impl View for ArgumentError {
    type V = Misuse;

    open spec fn view(&self) -> Misuse {
        match self {
            ArgumentError::NoArguments => Misuse::NoArguments,
            ArgumentError::UnknownFlag(word) => Misuse::UnknownFlag(word@),
            ArgumentError::TooManyArguments => Misuse::TooManyArguments,
            ArgumentError::NotEnoughArguments => Misuse::NotEnoughArguments,
        }
    }
}

impl View for ArgumentOutcome {
    type V = Reading;

    open spec fn view(&self) -> Reading {
        match self {
            ArgumentOutcome::Convert(request) => Reading::Convert(request@),
            ArgumentOutcome::ListUsual => Reading::ListUsual,
            ArgumentOutcome::ListAll => Reading::ListAll,
            ArgumentOutcome::Help => Reading::Help,
            ArgumentOutcome::Version => Reading::Version,
            ArgumentOutcome::Error(error) => Reading::Error(error@),
        }
    }
}

/// The number of words before the first word with a leading dash; the number
/// of all words where none has one.
pub open spec fn plain_prefix(args: Seq<Argument>) -> int
    decreases args.len(),
{
    if args.len() == 0 || dashed(args[0].text@) {
        0
    } else {
        1 + plain_prefix(args.drop_first())
    }
}

/// What a word with a leading dash asks for.
pub open spec fn flag_reading(word: Seq<char>) -> Reading {
    if word == "-h"@ || word == "--help"@ {
        Reading::Help
    } else if word == "-V"@ || word == "--version"@ {
        Reading::Version
    } else if word == "-lu"@ || word == "--list-usual"@ || word == "-l"@ || word == "--list"@ {
        Reading::ListUsual
    } else if word == "-la"@ || word == "--list-all"@ {
        Reading::ListAll
    } else {
        Reading::Error(Misuse::UnknownFlag(word))
    }
}

/// The amount that the third word stands for.
pub open spec fn amount_of(number: Option<u64>) -> u64 {
    match number {
        Some(bits) => bits,
        None => ZERO_AMOUNT,
    }
}

/// What a command line asks for.
///
/// An empty line is an error. A fourth word before any word with a dash is an
/// error. Otherwise the first word with a dash decides. Without such a word,
/// two words are a request for the default amount, three a request for the
/// amount that the third word gives, and fewer than two are an error.
pub open spec fn reading(args: Seq<Argument>) -> Reading {
    let plain = plain_prefix(args);
    if args.len() == 0 {
        Reading::Error(Misuse::NoArguments)
    } else if plain > 3 {
        Reading::Error(Misuse::TooManyArguments)
    } else if plain < args.len() {
        flag_reading(args[plain].text@)
    } else if plain < 2 {
        Reading::Error(Misuse::NotEnoughArguments)
    } else {
        Reading::Convert(
            Request {
                from: upper_text(args[0].text@),
                to: upper_text(args[1].text@),
                amount: if plain == 2 {
                    DEFAULT_AMOUNT
                } else {
                    amount_of(args[2].number)
                },
            },
        )
    }
}

/// The plain prefix ends at the first word with a dash, or at the end.
pub proof fn lemma_plain_prefix(args: Seq<Argument>, n: int)
    requires
        0 <= n <= args.len(),
        forall|j: int| 0 <= j < n ==> !dashed(#[trigger] args[j].text@),
        n < args.len() ==> dashed(args[n].text@),
    ensures
        plain_prefix(args) == n,
    decreases n,
{
    if n > 0 {
        let rest = args.drop_first();
        assert(!dashed(args[0].text@));
        assert forall|j: int| 0 <= j < n - 1 implies !dashed(#[trigger] rest[j].text@) by {
            assert(!dashed(args[j + 1].text@));
        }
        lemma_plain_prefix(rest, n - 1);
    }
}

/// The plain prefix is a prefix of words without a dash, ended by a word with one.
pub proof fn lemma_plain_prefix_is_first(args: Seq<Argument>)
    ensures
        0 <= plain_prefix(args) <= args.len(),
        forall|j: int| 0 <= j < plain_prefix(args) ==> !dashed(#[trigger] args[j].text@),
        plain_prefix(args) < args.len() ==> dashed(args[plain_prefix(args)].text@),
    decreases args.len(),
{
    if args.len() > 0 && !dashed(args[0].text@) {
        let rest = args.drop_first();
        lemma_plain_prefix_is_first(rest);
        assert forall|j: int| 0 <= j < plain_prefix(args) implies !dashed(
            #[trigger] args[j].text@,
        ) by {
            if j > 0 {
                assert(!dashed(rest[j - 1].text@));
            }
        }
    }
}

/// Words after the first word with a dash change nothing: a command line that
/// holds such a word among its first four reads as it does with any other
/// words after that one.
pub proof fn lemma_flag_ends_reading(args: Seq<Argument>, other: Seq<Argument>)
    requires
        plain_prefix(args) < args.len(),
        plain_prefix(args) <= 3,
    ensures
        reading(args.take(plain_prefix(args) + 1) + other) == reading(args),
{
    let n = plain_prefix(args);
    lemma_plain_prefix_is_first(args);
    let cut = args.take(n + 1) + other;
    assert forall|j: int| 0 <= j < n implies !dashed(#[trigger] cut[j].text@) by {
        assert(cut[j] == args[j]);
    }
    assert(cut[n] == args[n]);
    lemma_plain_prefix(cut, n);
}

/// A command line whose first word is `--list-all` asks for the full list,
/// whatever follows.
pub proof fn lemma_list_all_first(args: Seq<Argument>)
    requires
        args.len() > 0,
        args[0].text@ == "--list-all"@,
    ensures
        reading(args) == Reading::ListAll,
{
    reveal_flags();
    lemma_plain_prefix(args, 0);
}

/// What the flags are made of, character by character.
proof fn reveal_flags()
    ensures
        "-h"@ == seq!['-', 'h'],
        "--help"@ == seq!['-', '-', 'h', 'e', 'l', 'p'],
        "-V"@ == seq!['-', 'V'],
        "--version"@ == seq!['-', '-', 'v', 'e', 'r', 's', 'i', 'o', 'n'],
        "-lu"@ == seq!['-', 'l', 'u'],
        "--list-usual"@ == seq!['-', '-', 'l', 'i', 's', 't', '-', 'u', 's', 'u', 'a', 'l'],
        "-l"@ == seq!['-', 'l'],
        "--list"@ == seq!['-', '-', 'l', 'i', 's', 't'],
        "-la"@ == seq!['-', 'l', 'a'],
        "--list-all"@ == seq!['-', '-', 'l', 'i', 's', 't', '-', 'a', 'l', 'l'],
{
    reveal_strlit("-h");
    reveal_strlit("--help");
    reveal_strlit("-V");
    reveal_strlit("--version");
    reveal_strlit("-lu");
    reveal_strlit("--list-usual");
    reveal_strlit("-l");
    reveal_strlit("--list");
    reveal_strlit("-la");
    reveal_strlit("--list-all");
    assert("-h"@ =~= seq!['-', 'h']);
    assert("--help"@ =~= seq!['-', '-', 'h', 'e', 'l', 'p']);
    assert("-V"@ =~= seq!['-', 'V']);
    assert("--version"@ =~= seq!['-', '-', 'v', 'e', 'r', 's', 'i', 'o', 'n']);
    assert("-lu"@ =~= seq!['-', 'l', 'u']);
    assert("--list-usual"@ =~= seq!['-', '-', 'l', 'i', 's', 't', '-', 'u', 's', 'u', 'a', 'l']);
    assert("-l"@ =~= seq!['-', 'l']);
    assert("--list"@ =~= seq!['-', '-', 'l', 'i', 's', 't']);
    assert("-la"@ =~= seq!['-', 'l', 'a']);
    assert("--list-all"@ =~= seq!['-', '-', 'l', 'i', 's', 't', '-', 'a', 'l', 'l']);
}

/// Every known flag begins with a dash.
proof fn lemma_flags_are_dashed(word: Seq<char>)
    requires
        !(flag_reading(word) matches Reading::Error(_)),
    ensures
        dashed(word),
{
    reveal_flags();
}

/// What a word asks for if it is a known flag.
fn known_flag(word: &str) -> (flag: Option<ArgumentOutcome>)
    ensures
        match flag {
            Some(outcome) => outcome@ == flag_reading(word@) && !(outcome is Error),
            None => flag_reading(word@) == Reading::Error(Misuse::UnknownFlag(word@)),
        },
{
    if same_text(word, "-h") || same_text(word, "--help") {
        Some(ArgumentOutcome::Help)
    } else if same_text(word, "-V") || same_text(word, "--version") {
        Some(ArgumentOutcome::Version)
    } else if same_text(word, "-lu") || same_text(word, "--list-usual") || same_text(word, "-l")
        || same_text(word, "--list") {
        Some(ArgumentOutcome::ListUsual)
    } else if same_text(word, "-la") || same_text(word, "--list-all") {
        Some(ArgumentOutcome::ListAll)
    } else {
        None
    }
}

/// Reads the command line, the program's own name left out.
pub fn parse_arguments(args: &Vec<Argument>) -> (outcome: ArgumentOutcome)
    ensures
        outcome@ == reading(args@),
{
    if args.len() == 0 {
        return ArgumentOutcome::Error(ArgumentError::NoArguments);
    }
    let mut from = String::new();
    let mut to = String::new();
    let mut amount: u64 = DEFAULT_AMOUNT;
    let mut filled: usize = 0;
    while filled < args.len()
        invariant
            args@.len() > 0,
            filled <= args@.len(),
            filled <= 3,
            forall|j: int| 0 <= j < filled ==> !dashed(#[trigger] args@[j].text@),
            filled >= 1 ==> from@ == upper_text(args@[0].text@),
            filled >= 2 ==> to@ == upper_text(args@[1].text@),
            filled <= 2 ==> amount == DEFAULT_AMOUNT,
            filled == 3 ==> amount == amount_of(args@[2].number),
        decreases args@.len() - filled,
    {
        let word = &args[filled];
        match known_flag(word.text.as_str()) {
            Some(outcome) => {
                proof {
                    lemma_flags_are_dashed(word.text@);
                    lemma_plain_prefix(args@, filled as int);
                }
                return outcome;
            },
            None => {},
        }
        if begins_with_dash(word.text.as_str()) {
            proof {
                lemma_plain_prefix(args@, filled as int);
            }
            return ArgumentOutcome::Error(ArgumentError::UnknownFlag(word.text.clone()));
        }
        if filled == 0 {
            from = to_upper(word.text.as_str());
        } else if filled == 1 {
            to = to_upper(word.text.as_str());
        } else if filled == 2 {
            amount = match word.number {
                Some(bits) => bits,
                None => ZERO_AMOUNT,
            };
        } else {
            proof {
                lemma_plain_prefix_is_first(args@);
                if plain_prefix(args@) <= 3 {
                    assert(!dashed(args@[plain_prefix(args@)].text@));
                }
            }
            return ArgumentOutcome::Error(ArgumentError::TooManyArguments);
        }
        filled += 1;
    }
    proof {
        lemma_plain_prefix(args@, filled as int);
    }
    if filled < 2 {
        return ArgumentOutcome::Error(ArgumentError::NotEnoughArguments);
    }
    ArgumentOutcome::Convert(ConversionRequest { from, to, amount })
}

} // verus!
