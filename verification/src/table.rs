//! The rate table: a map from currency code to rate, kept in the order of
//! its codes.

use crate::text::{
    comes_before, lemma_text_before_irreflexive, lemma_text_before_total,
    lemma_text_before_transitive, same_text, text_before,
};
use vstd::prelude::*;

verus! {

/// The character sequences of a list of strings.
pub open spec fn texts(list: Seq<String>) -> Seq<Seq<char>> {
    list.map_values(|s: String| s@)
}

/// Strictly ascending in the order of strings; such a list holds no text twice.
pub open spec fn ascending(list: Seq<Seq<char>>) -> bool {
    forall|i: int, j: int| 0 <= i < j < list.len() ==> text_before(#[trigger] list[i], #[trigger] list[j])
}

/// An ascending list holds each of its texts at one index only.
pub proof fn lemma_ascending_distinct(list: Seq<Seq<char>>)
    requires
        ascending(list),
    ensures
        list.no_duplicates(),
{
    assert forall|i: int, j: int| 0 <= i < list.len() && 0 <= j < list.len() && i != j implies list[i]
        != list[j] by {
        lemma_text_before_irreflexive(list[i]);
        if i < j {
            assert(text_before(list[i], list[j]));
        } else {
            assert(text_before(list[j], list[i]));
        }
    }
}

/// Two ascending lists of the same texts are the same list.
pub proof fn lemma_ascending_unique(a: Seq<Seq<char>>, b: Seq<Seq<char>>)
    requires
        ascending(a),
        ascending(b),
        forall|k: Seq<char>| #![trigger a.contains(k)] #![trigger b.contains(k)] a.contains(k) <==> b.contains(k),
    ensures
        a == b,
    decreases a.len(),
{
    lemma_ascending_distinct(a);
    lemma_ascending_distinct(b);
    if a.len() == 0 {
        if b.len() > 0 {
            assert(b.contains(b[0]));
        }
        assert(a =~= b);
    } else if b.len() == 0 {
        assert(a.contains(a[0]));
    } else {
        // the first text of either list is the least of the shared texts
        assert(a.contains(a[0]));
        assert(b.contains(b[0]));
        let i = choose|i: int| 0 <= i < b.len() && b[i] == a[0];
        let j = choose|j: int| 0 <= j < a.len() && a[j] == b[0];
        lemma_text_before_irreflexive(a[0]);
        if i > 0 {
            assert(text_before(b[0], b[i]));
            if j > 0 {
                assert(text_before(a[0], a[j]));
                lemma_text_before_transitive(a[0], b[0], a[0]);
            }
        }
        assert(a[0] == b[0]);
        let a1 = a.drop_first();
        let b1 = b.drop_first();
        assert forall|k: Seq<char>| a1.contains(k) <==> b1.contains(k) by {
            if a1.contains(k) {
                let p = choose|p: int| 0 <= p < a1.len() && a1[p] == k;
                assert(a[p + 1] == k);
                assert(a.contains(k));
                let q = choose|q: int| 0 <= q < b.len() && b[q] == k;
                assert(q != 0);
                assert(b1[q - 1] == k);
            }
            if b1.contains(k) {
                let p = choose|p: int| 0 <= p < b1.len() && b1[p] == k;
                assert(b[p + 1] == k);
                assert(b.contains(k));
                let q = choose|q: int| 0 <= q < a.len() && a[q] == k;
                assert(q != 0);
                assert(a1[q - 1] == k);
            }
        }
        assert forall|i: int, j: int| 0 <= i < j < a1.len() implies text_before(
            #[trigger] a1[i],
            #[trigger] a1[j],
        ) by {
            assert(text_before(a[i + 1], a[j + 1]));
        }
        assert forall|i: int, j: int| 0 <= i < j < b1.len() implies text_before(
            #[trigger] b1[i],
            #[trigger] b1[j],
        ) by {
            assert(text_before(b[i + 1], b[j + 1]));
        }
        lemma_ascending_unique(a1, b1);
        assert(a =~= seq![a[0]] + a1);
        assert(b =~= seq![b[0]] + b1);
    }
}

/// One entry of the table.
#[derive(Debug)]
struct Rate {
    code: String,
    bits: u64,
}

/// The codes of a list of entries.
spec fn codes_of(entries: Seq<Rate>) -> Seq<Seq<char>> {
    entries.map_values(|e: Rate| e.code@)
}

/// Exchange rates by currency code. A rate is held as the IEEE-754 bit
/// pattern of a 64-bit float and is never interpreted here.
#[derive(Debug)]
pub struct RateTable {
    entries: Vec<Rate>,
}

impl View for RateTable {
    type V = Map<Seq<char>, u64>;

    closed spec fn view(&self) -> Map<Seq<char>, u64> {
        Map::new(
            |k: Seq<char>| self.keys().contains(k),
            |k: Seq<char>| self.entries@[self.keys().index_of(k)].bits,
        )
    }
}

impl RateTable {
    /// The codes of the entries, in their order in the table.
    spec fn keys(&self) -> Seq<Seq<char>> {
        codes_of(self.entries@)
    }

    /// The entries stand in ascending order of their codes.
    #[verifier::type_invariant]
    spec fn ordered(&self) -> bool {
        ascending(self.keys())
    }

    /// What the view holds, entry by entry.
    proof fn lemma_view(&self)
        requires
            self.ordered(),
        ensures
            self.keys().len() == self.entries@.len(),
            forall|j: int| 0 <= j < self.entries@.len() ==> #[trigger] self.keys()[j] == self.entries@[j].code@,
            forall|j: int|
                0 <= j < self.entries@.len() ==> self@.contains_key(#[trigger] self.keys()[j])
                    && self@[self.keys()[j]] == self.entries@[j].bits,
            forall|k: Seq<char>| self@.contains_key(k) <==> self.keys().contains(k),
    {
        let codes = self.keys();
        lemma_ascending_distinct(codes);
        assert forall|j: int| 0 <= j < self.entries@.len() implies self@.contains_key(
            #[trigger] codes[j],
        ) && self@[codes[j]] == self.entries@[j].bits by {
            assert(codes.contains(codes[j]));
            let at = codes.index_of(codes[j]);
            assert(codes[at] == codes[j]);
        }
    }

    /// An empty table.
    pub fn new() -> (table: RateTable)
        ensures
            table@ == Map::<Seq<char>, u64>::empty(),
    {
        let table = RateTable { entries: Vec::new() };
        assert(table@ =~= Map::<Seq<char>, u64>::empty());
        table
    }

    /// The index of the first entry whose code does not come before `code`.
    fn position(&self, code: &str) -> (at: usize)
        ensures
            at <= self.entries@.len(),
            forall|j: int| 0 <= j < at ==> text_before(#[trigger] self.keys()[j], code@),
            forall|j: int|
                at <= j < self.entries@.len() ==> !text_before(#[trigger] self.keys()[j], code@),
    {
        proof {
            use_type_invariant(self);
            self.lemma_view();
        }
        let mut low: usize = 0;
        let mut high: usize = self.entries.len();
        while low < high
            invariant
                low <= high <= self.entries@.len(),
                self.keys().len() == self.entries@.len(),
                ascending(self.keys()),
                forall|j: int|
                    0 <= j < self.entries@.len() ==> #[trigger] self.keys()[j]
                        == self.entries@[j].code@,
                forall|j: int| 0 <= j < low ==> text_before(#[trigger] self.keys()[j], code@),
                forall|j: int|
                    high <= j < self.entries@.len() ==> !text_before(
                        #[trigger] self.keys()[j],
                        code@,
                    ),
            decreases high - low,
        {
            let mid = low + (high - low) / 2;
            if comes_before(self.entries[mid].code.as_str(), code) {
                proof {
                    let codes = self.keys();
                    assert(text_before(codes[mid as int], code@));
                    assert forall|j: int| 0 <= j < mid + 1 implies text_before(
                        #[trigger] codes[j],
                        code@,
                    ) by {
                        if j < mid {
                            assert(text_before(codes[j], codes[mid as int]));
                            lemma_text_before_transitive(codes[j], codes[mid as int], code@);
                        }
                    }
                }
                low = mid + 1;
            } else {
                proof {
                    let codes = self.keys();
                    assert(!text_before(codes[mid as int], code@));
                    assert forall|j: int| mid <= j < self.entries@.len() implies !text_before(
                        #[trigger] codes[j],
                        code@,
                    ) by {
                        if j > mid && text_before(codes[j], code@) {
                            assert(text_before(codes[mid as int], codes[j]));
                            lemma_text_before_transitive(codes[mid as int], codes[j], code@);
                        }
                    }
                }
                high = mid;
            }
        }
        low
    }

    /// The rate of a code, if the table holds the code.
    pub fn get(&self, code: &str) -> (rate: Option<u64>)
        ensures
            rate == (if self@.contains_key(code@) {
                Some(self@[code@])
            } else {
                None
            }),
    {
        proof {
            use_type_invariant(self);
            self.lemma_view();
        }
        let at = self.position(code);
        if at < self.entries.len() && same_text(self.entries[at].code.as_str(), code) {
            proof {
                assert(self.keys()[at as int] == code@);
            }
            Some(self.entries[at].bits)
        } else {
            proof {
                let codes = self.keys();
                if codes.contains(code@) {
                    let j = codes.index_of(code@);
                    assert(codes[j] == code@);
                    lemma_text_before_irreflexive(code@);
                    if j > at {
                        assert(text_before(codes[at as int], codes[j]));
                    }
                }
            }
            None
        }
    }

    /// Sets the rate of a code; a rate that the code had before is replaced.
    pub fn insert(&mut self, code: String, bits: u64)
        ensures
            final(self)@ == old(self)@.insert(code@, bits),
    {
        proof {
            use_type_invariant(&*self);
            self.lemma_view();
        }
        let ghost before = *self;
        let ghost old_codes = self.keys();
        let at = self.position(code.as_str());
        let found = at < self.entries.len() && same_text(
            self.entries[at].code.as_str(),
            code.as_str(),
        );
        let mut entries: Vec<Rate> = Vec::new();
        std::mem::swap(&mut entries, &mut self.entries);
        if found {
            entries[at].bits = bits;
        } else {
            entries.insert(at, Rate { code, bits });
        }
        proof {
            let new_codes = codes_of(entries@);
            if found {
                assert(new_codes =~= old_codes);
            } else {
                assert(new_codes =~= old_codes.insert(at as int, code@));
                before.lemma_after(at as int, code@);
                assert forall|i: int, j: int| 0 <= i < j < new_codes.len() implies text_before(
                    #[trigger] new_codes[i],
                    #[trigger] new_codes[j],
                ) by {
                    if j < at {
                        assert(text_before(old_codes[i], old_codes[j]));
                    } else if j == at {
                        assert(text_before(old_codes[i], code@));
                    } else if i < at {
                        assert(text_before(old_codes[i], old_codes[j - 1]));
                    } else if i == at {
                        assert(text_before(code@, old_codes[j - 1]));
                    } else {
                        assert(text_before(old_codes[i - 1], old_codes[j - 1]));
                    }
                }
            }
        }
        self.entries = entries;
        proof {
            let new_codes = self.keys();
            self.lemma_view();
            lemma_ascending_distinct(new_codes);
            let wanted = before@.insert(code@, bits);
            assert(new_codes[at as int] == code@);
            assert(self@[new_codes[at as int]] == bits);
            assert forall|k: Seq<char>| self@.contains_key(k) implies wanted.contains_key(k)
                && self@[k] == wanted[k] by {
                let j = new_codes.index_of(k);
                assert(new_codes[j] == k);
                assert(self@[new_codes[j]] == self.entries@[j].bits);
                if j != at {
                    let i = if found || j < at {
                        j
                    } else {
                        j - 1
                    };
                    assert(old_codes[i] == k);
                    assert(before@[old_codes[i]] == before.entries@[i].bits);
                }
            }
            assert forall|k: Seq<char>| wanted.contains_key(k) implies self@.contains_key(k) by {
                if k != code@ {
                    let i = old_codes.index_of(k);
                    assert(old_codes[i] == k);
                    let j = if found || i < at {
                        i
                    } else {
                        i + 1
                    };
                    assert(new_codes[j] == k);
                }
            }
            assert(self@ =~= wanted);
        }
    }

    /// Codes from the place of a missing code on come after that code.
    proof fn lemma_after(&self, at: int, code: Seq<char>)
        requires
            self.ordered(),
            0 <= at <= self.keys().len(),
            forall|j: int| at <= j < self.keys().len() ==> !text_before(#[trigger] self.keys()[j], code),
            at < self.keys().len() ==> self.keys()[at] != code,
        ensures
            forall|j: int| at <= j < self.keys().len() ==> text_before(code, #[trigger] self.keys()[j]),
    {
        let codes = self.keys();
        assert forall|j: int| at <= j < codes.len() implies text_before(code, #[trigger] codes[j]) by {
            if codes[j] == code {
                assert(j > at);
                assert(text_before(codes[at], codes[j]));
            }
            lemma_text_before_total(code, codes[j]);
        }
    }

    /// The number of codes in the table.
    pub fn len(&self) -> (count: usize)
        ensures
            self@.dom().finite(),
            count == self@.len(),
    {
        proof {
            use_type_invariant(self);
            self.lemma_view();
            let codes = self.keys();
            lemma_ascending_distinct(codes);
            codes.unique_seq_to_set();
            assert(self@.dom() =~= codes.to_set());
        }
        self.entries.len()
    }

    /// The codes of the table, in ascending order.
    pub fn codes(&self) -> (list: Vec<String>)
        ensures
            ascending(texts(list@)),
            forall|k: Seq<char>| texts(list@).contains(k) <==> self@.contains_key(k),
    {
        proof {
            use_type_invariant(self);
            self.lemma_view();
        }
        let mut list: Vec<String> = Vec::new();
        let mut i: usize = 0;
        while i < self.entries.len()
            invariant
                i <= self.entries@.len(),
                list@.len() == i,
                forall|j: int| 0 <= j < i ==> (#[trigger] list@[j])@ == self.entries@[j].code@,
            decreases self.entries@.len() - i,
        {
            list.push(self.entries[i].code.clone());
            i += 1;
        }
        proof {
            assert(texts(list@) =~= self.keys());
        }
        list
    }

    /// Whether the table holds a code.
    pub fn contains(&self, code: &str) -> (held: bool)
        ensures
            held == self@.contains_key(code@),
    {
        self.get(code).is_some()
    }
}

} // verus!
