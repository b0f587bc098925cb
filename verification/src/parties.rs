//! Lists of party and name strings in which nothing occurs twice.

use vstd::prelude::*;

verus! {

/// In a list without repetition every entry is found at its own position.
pub proof fn lemma_found_at(parties: Seq<Seq<char>>, at: int)
    requires
        parties.no_duplicates(),
        0 <= at < parties.len(),
    ensures
        parties.contains(parties[at]),
        parties.index_of(parties[at]) == at,
{
    assert(parties.contains(parties[at]));
}

/// Appending an entry that does not occur yet keeps a list free of
/// repetition, and keeps every earlier entry where it was.
pub proof fn lemma_push_fresh(parties: Seq<Seq<char>>, fresh: Seq<char>)
    requires
        parties.no_duplicates(),
        !parties.contains(fresh),
    ensures
        parties.push(fresh).no_duplicates(),
        parties.push(fresh).contains(fresh),
        parties.push(fresh).index_of(fresh) == parties.len(),
        forall|who: Seq<char>|
            parties.contains(who) ==> parties.push(fresh).contains(who) && parties.push(
                fresh,
            ).index_of(who) == parties.index_of(who),
        forall|who: Seq<char>|
            parties.push(fresh).contains(who) ==> who == fresh || parties.contains(who),
{
    let longer = parties.push(fresh);
    assert forall|a: int, b: int|
        0 <= a < longer.len() && 0 <= b < longer.len() && a != b implies longer[a]
        != longer[b] by {
        if a < parties.len() {
            assert(parties.contains(parties[a]));
        }
        if b < parties.len() {
            assert(parties.contains(parties[b]));
        }
    }
    lemma_found_at(longer, parties.len() as int);
    assert forall|who: Seq<char>| parties.contains(who) implies longer.contains(who)
        && longer.index_of(who) == parties.index_of(who) by {
        let at = parties.index_of(who);
        assert(longer[at] == who);
        lemma_found_at(longer, at);
    }
    assert forall|who: Seq<char>| longer.contains(who) implies who == fresh || parties.contains(
        who,
    ) by {
        let at = longer.index_of(who);
        if at < parties.len() {
            assert(parties[at] == who);
        }
    }
}

/// The position of `who` in `parties`.
pub fn position(parties: &Vec<String>, who: &String) -> (at: Option<usize>)
    ensures
        at is None <==> !parties.deep_view().contains(who@),
        at matches Some(i) ==> i < parties.deep_view().len() && parties.deep_view()[i as int]
            == who@,
        at matches Some(i) ==> forall|j: int| 0 <= j < i ==> parties.deep_view()[j] != who@,
{
    let mut i: usize = 0;
    while i < parties.len()
        invariant
            i <= parties.len(),
            forall|j: int| 0 <= j < i ==> parties.deep_view()[j] != who@,
        decreases parties.len() - i,
    {
        if parties[i] == *who {
            assert(parties.deep_view()[i as int] == who@);
            return Some(i);
        }
        i = i + 1;
    }
    None
}

} // verus!
