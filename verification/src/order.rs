//! The order in which names are listed.

use vstd::prelude::*;
use vstd::seq_lib::to_multiset_insert;
use crate::text::{chars_of, strings_view};

verus! {

/// Whether what `a` holds from index `i` on comes before what `b` holds
/// from there on, or is the same.
pub open spec fn le_from(a: Seq<char>, b: Seq<char>, i: int) -> bool
    decreases a.len() - i,
{
    if i < 0 || i >= a.len() {
        true
    } else if i >= b.len() {
        false
    } else if a[i] != b[i] {
        a[i] < b[i]
    } else {
        le_from(a, b, i + 1)
    }
}

/// Whether `a` comes before `b` or is `b`: texts are ordered by the first
/// character in which they differ, and a text comes before every text that
/// it starts.
pub open spec fn text_le(a: Seq<char>, b: Seq<char>) -> bool {
    le_from(a, b, 0)
}

/// Whether each text comes before or is the same as all that follow it.
pub open spec fn ordered(s: Seq<Seq<char>>) -> bool {
    forall|i: int, j: int| 0 <= i < j < s.len() ==> text_le(#[trigger] s[i], #[trigger] s[j])
}

/// Of two texts one comes before the other, or they are the same.
pub proof fn lemma_le_total(a: Seq<char>, b: Seq<char>, i: int)
    requires
        0 <= i,
    ensures
        le_from(a, b, i) || le_from(b, a, i),
    decreases a.len() - i,
{
    if i < a.len() && i < b.len() && a[i] == b[i] {
        lemma_le_total(a, b, i + 1);
    }
}

/// What comes before a text comes before all that the text comes before.
pub proof fn lemma_le_transitive(a: Seq<char>, b: Seq<char>, c: Seq<char>, i: int)
    requires
        0 <= i,
        le_from(a, b, i),
        le_from(b, c, i),
    ensures
        le_from(a, c, i),
    decreases a.len() - i,
{
    if i < a.len() && a[i] == b[i] && b[i] == c[i] {
        lemma_le_transitive(a, b, c, i + 1);
    }
}

/// Whether `a` comes before `b` or is `b`.
pub fn comes_first(a: &str, b: &str) -> (r: bool)
    ensures
        r == text_le(a@, b@),
{
    let a = chars_of(a);
    let b = chars_of(b);
    let mut i: usize = 0;
    while i < a.len() && i < b.len() && a[i] == b[i]
        invariant
            i <= a@.len(),
            i <= b@.len(),
            text_le(a@, b@) == le_from(a@, b@, i as int),
        decreases a@.len() - i,
    {
        i += 1;
    }
    if i >= a.len() {
        true
    } else if i >= b.len() {
        false
    } else {
        a[i] < b[i]
    }
}

/// The same names in order. Names that occur more than once stay as often
/// as they occur.
pub fn sort_names(names: &Vec<String>) -> (sorted: Vec<String>)
    ensures
        ordered(strings_view(sorted@)),
        strings_view(sorted@).to_multiset() == strings_view(names@).to_multiset(),
{
    let ghost all = strings_view(names@);
    let mut sorted: Vec<String> = Vec::new();
    let mut i: usize = 0;
    assert(all.take(0) =~= strings_view(sorted@));
    while i < names.len()
        invariant
            i <= names@.len(),
            all == strings_view(names@),
            ordered(strings_view(sorted@)),
            strings_view(sorted@).to_multiset() == all.take(i as int).to_multiset(),
        decreases names@.len() - i,
    {
        let name = names[i].clone();
        let ghost before = strings_view(sorted@);
        let mut at: usize = 0;
        while at < sorted.len() && comes_first(sorted[at].as_str(), name.as_str())
            invariant
                at <= sorted@.len(),
                before == strings_view(sorted@),
                forall|j: int| 0 <= j < at ==> text_le(#[trigger] before[j], name@),
            decreases sorted@.len() - at,
        {
            at += 1;
        }
        sorted.insert(at, name);
        proof {
            let after = strings_view(sorted@);
            assert(after =~= before.insert(at as int, name@));
            to_multiset_insert(before, at as int, name@);
            assert(all.take(i + 1) =~= all.take(i as int).push(name@));
            vstd::seq_lib::to_multiset_build(all.take(i as int), name@);
            assert forall|j: int, k: int| 0 <= j < k < after.len() implies text_le(
                #[trigger] after[j],
                #[trigger] after[k],
            ) by {
                if k < at {
                    assert(after[j] == before[j] && after[k] == before[k]);
                } else if k == at {
                    assert(after[j] == before[j]);
                } else if j > at {
                    assert(after[j] == before[j - 1] && after[k] == before[k - 1]);
                } else if j < at {
                    assert(after[j] == before[j] && after[k] == before[k - 1]);
                } else {
                    assert(after[j] == name@ && after[k] == before[k - 1]);
                    assert(!text_le(before[at as int], name@));
                    lemma_le_total(before[at as int], name@, 0);
                    if k - 1 > at {
                        assert(text_le(before[at as int], before[k - 1]));
                        lemma_le_transitive(name@, before[at as int], before[k - 1], 0);
                    }
                }
            }
        }
        i += 1;
    }
    assert(all.take(names@.len() as int) =~= all);
    sorted
}

} // verus!
