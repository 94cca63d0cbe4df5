//! The two listings of the currencies in a rate table.

use crate::names::{currency_name, get_currency_name, is_usual};
use crate::table::{ascending, lemma_ascending_unique, texts, RateTable};
use crate::text::{same_text, text_before};
use vstd::prelude::*;

verus! {

/// A currency code with its display name.
#[derive(Debug, PartialEq, Eq)]
pub struct NamedCurrency {
    pub code: String,
    pub name: String,
}

/// The codes of a list of named currencies.
pub open spec fn named_codes(list: Seq<NamedCurrency>) -> Seq<Seq<char>> {
    list.map_values(|entry: NamedCurrency| entry.code@)
}

/// Whether a list is the full listing of a table: its codes, each once, in
/// ascending order.
pub open spec fn is_full_listing(list: Seq<String>, rates: Map<Seq<char>, u64>) -> bool {
    &&& ascending(texts(list))
    &&& forall|code: Seq<char>|
        #![trigger texts(list).contains(code)]
        #![trigger rates.contains_key(code)]
        texts(list).contains(code) <==> rates.contains_key(code)
}

/// Whether a list is the usual listing of a table: those of its codes that
/// have a display name, each once, in ascending order and with its name.
pub open spec fn is_usual_listing(list: Seq<NamedCurrency>, rates: Map<Seq<char>, u64>) -> bool {
    &&& ascending(named_codes(list))
    &&& forall|code: Seq<char>|
        #![trigger named_codes(list).contains(code)]
        #![trigger rates.contains_key(code)]
        named_codes(list).contains(code) <==> rates.contains_key(code) && is_usual(code)
    &&& forall|i: int|
        0 <= i < list.len() ==> (#[trigger] list[i]).name@ == currency_name(list[i].code@)
}

/// A table has one full listing only.
pub proof fn lemma_full_listing_unique(
    first: Seq<String>,
    second: Seq<String>,
    rates: Map<Seq<char>, u64>,
)
    requires
        is_full_listing(first, rates),
        is_full_listing(second, rates),
    ensures
        texts(first) == texts(second),
{
    lemma_ascending_unique(texts(first), texts(second));
}

/// A table has one usual listing only: the same codes with the same names.
pub proof fn lemma_usual_listing_unique(
    first: Seq<NamedCurrency>,
    second: Seq<NamedCurrency>,
    rates: Map<Seq<char>, u64>,
)
    requires
        is_usual_listing(first, rates),
        is_usual_listing(second, rates),
    ensures
        named_codes(first) == named_codes(second),
        first.len() == second.len(),
        forall|i: int| 0 <= i < first.len() ==> (#[trigger] first[i]).name@ == second[i].name@,
{
    lemma_ascending_unique(named_codes(first), named_codes(second));
    assert forall|i: int| 0 <= i < first.len() implies (#[trigger] first[i]).name@
        == second[i].name@ by {
        assert(named_codes(first)[i] == named_codes(second)[i]);
    }
}

/// A code of the table that has no display name stands in the full listing
/// and not in the usual one.
pub proof fn lemma_unnamed_code_in_full_listing_only(
    all: Seq<String>,
    usual: Seq<NamedCurrency>,
    rates: Map<Seq<char>, u64>,
    code: Seq<char>,
)
    requires
        is_full_listing(all, rates),
        is_usual_listing(usual, rates),
        rates.contains_key(code),
        currency_name(code) == "Unknown"@,
    ensures
        texts(all).contains(code),
        !named_codes(usual).contains(code),
{
}

/// No entry of a usual listing has the name `"Unknown"`.
pub proof fn lemma_usual_listing_has_names(usual: Seq<NamedCurrency>, rates: Map<Seq<char>, u64>)
    requires
        is_usual_listing(usual, rates),
    ensures
        forall|i: int| 0 <= i < usual.len() ==> (#[trigger] usual[i]).name@ != "Unknown"@,
{
    assert forall|i: int| 0 <= i < usual.len() implies (#[trigger] usual[i]).name@
        != "Unknown"@ by {
        assert(named_codes(usual)[i] == usual[i].code@);
        assert(named_codes(usual).contains(usual[i].code@));
    }
}

/// Every code of the table, in ascending order.
pub fn all_rates(table: &RateTable) -> (list: Vec<String>)
    ensures
        is_full_listing(list@, table@),
{
    table.codes()
}

/// The codes of the table that have a display name, in ascending order, each
/// with its name. A code without a name is left out.
pub fn usual_rates(table: &RateTable) -> (list: Vec<NamedCurrency>)
    ensures
        is_usual_listing(list@, table@),
{
    let codes = table.codes();
    let ghost all = texts(codes@);
    let mut list: Vec<NamedCurrency> = Vec::new();
    let ghost mut origin: Seq<int> = Seq::empty();
    let mut i: usize = 0;
    while i < codes.len()
        invariant
            i <= codes@.len(),
            all == texts(codes@),
            ascending(all),
            origin.len() == list@.len(),
            forall|a: int| 0 <= a < origin.len() ==> 0 <= #[trigger] origin[a] < i,
            forall|a: int, b: int|
                0 <= a < b < origin.len() ==> #[trigger] origin[a] < #[trigger] origin[b],
            forall|a: int|
                0 <= a < list@.len() ==> (#[trigger] list@[a]).code@ == all[origin[a]] && is_usual(
                    list@[a].code@,
                ) && list@[a].name@ == currency_name(list@[a].code@),
            forall|j: int|
                0 <= j < i && is_usual(#[trigger] all[j]) ==> exists|a: int|
                    0 <= a < origin.len() && #[trigger] origin[a] == j,
        decreases codes@.len() - i,
    {
        let name = get_currency_name(codes[i].as_str());
        if !same_text(name.as_str(), "Unknown") {
            list.push(NamedCurrency { code: codes[i].clone(), name });
            proof {
                let ghost earlier = origin;
                origin = origin.push(i as int);
                assert forall|j: int| 0 <= j < i + 1 && is_usual(#[trigger] all[j]) implies exists|
                    a: int,
                |
                    0 <= a < origin.len() && #[trigger] origin[a] == j by {
                    if j < i {
                        let a = choose|a: int| 0 <= a < earlier.len() && #[trigger] earlier[a] == j;
                        assert(origin[a] == j);
                    } else {
                        assert(origin[earlier.len() as int] == j);
                    }
                }
            }
        }
        i += 1;
    }
    proof {
        let found = named_codes(list@);
        assert forall|a: int, b: int| 0 <= a < b < found.len() implies text_before(
            #[trigger] found[a],
            #[trigger] found[b],
        ) by {
            assert(origin[a] < origin[b]);
            assert(found[a] == all[origin[a]]);
            assert(found[b] == all[origin[b]]);
        }
        assert forall|code: Seq<char>| found.contains(code) <==> table@.contains_key(code)
            && is_usual(code) by {
            if found.contains(code) {
                let a = choose|a: int| 0 <= a < found.len() && found[a] == code;
                assert(list@[a].code@ == all[origin[a]]);
                assert(all.contains(code));
            }
            if table@.contains_key(code) && is_usual(code) {
                assert(all.contains(code));
                let j = choose|j: int| 0 <= j < all.len() && all[j] == code;
                let a = choose|a: int| 0 <= a < origin.len() && #[trigger] origin[a] == j;
                assert(found[a] == code);
            }
        }
    }
    list
}

} // verus!
