//! String-keyed entry lists and the maps they denote.
//!
//! Both the label maps of the wire schema and the descriptor cache keep
//! their entries in a vector with pairwise-distinct keys; their contracts
//! speak of the denoted `Map`.

use vstd::prelude::*;

verus! {

/// The map denoted by an entry list, later entries winning.
pub open spec fn entries_map<V>(s: Seq<(String, V)>) -> Map<Seq<char>, V>
    decreases s.len(),
{
    if s.len() == 0 {
        Map::empty()
    } else {
        entries_map(s.drop_last()).insert(s.last().0@, s.last().1)
    }
}

pub open spec fn unique_entry_keys<V>(s: Seq<(String, V)>) -> bool {
    forall|i: int, j: int| #![trigger s[i].0@, s[j].0@] 0 <= i < j < s.len() ==> s[i].0@ != s[j].0@
}

pub proof fn lemma_entries_map_contains<V>(s: Seq<(String, V)>, k: Seq<char>)
    ensures
        entries_map(s).contains_key(k) <==> exists|i: int| 0 <= i < s.len() && s[i].0@ == k,
    decreases s.len(),
{
    if s.len() > 0 {
        lemma_entries_map_contains(s.drop_last(), k);
        if entries_map(s).contains_key(k) {
            if s.last().0@ == k {
                assert(s[s.len() - 1].0@ == k);
            } else {
                let i = choose|i: int| 0 <= i < s.drop_last().len() && s.drop_last()[i].0@ == k;
                assert(s[i].0@ == k);
            }
        }
        if exists|i: int| 0 <= i < s.len() && s[i].0@ == k {
            let i = choose|i: int| 0 <= i < s.len() && s[i].0@ == k;
            if i < s.len() - 1 {
                assert(s.drop_last()[i].0@ == k);
            }
        }
    }
}

pub proof fn lemma_unique_drop_last<V>(s: Seq<(String, V)>)
    requires
        unique_entry_keys(s),
        s.len() > 0,
    ensures
        unique_entry_keys(s.drop_last()),
{
    assert forall|x: int, y: int|
        #![trigger s.drop_last()[x].0@, s.drop_last()[y].0@]
        0 <= x < y < s.drop_last().len() implies s.drop_last()[x].0@ != s.drop_last()[y].0@ by {
        assert(s.drop_last()[x] == s[x]);
        assert(s.drop_last()[y] == s[y]);
        assert(s[x].0@ != s[y].0@);
    }
}

pub proof fn lemma_entries_map_index<V>(s: Seq<(String, V)>, i: int)
    requires
        unique_entry_keys(s),
        0 <= i < s.len(),
    ensures
        entries_map(s).contains_key(s[i].0@),
        entries_map(s)[s[i].0@] == s[i].1,
    decreases s.len(),
{
    lemma_entries_map_contains(s, s[i].0@);
    if i == s.len() - 1 {
    } else {
        lemma_unique_drop_last(s);
        assert(s.drop_last()[i] == s[i]);
        lemma_entries_map_index(s.drop_last(), i);
        assert(s[i].0@ != s.last().0@);
    }
}

pub proof fn lemma_entries_map_remove<V>(s: Seq<(String, V)>, i: int)
    requires
        unique_entry_keys(s),
        0 <= i < s.len(),
    ensures
        entries_map(s.remove(i)) =~= entries_map(s).remove(s[i].0@),
    decreases s.len(),
{
    lemma_entries_map_contains(s.drop_last(), s[i].0@);
    if i == s.len() - 1 {
        assert(s.remove(i) =~= s.drop_last());
        assert(!entries_map(s.drop_last()).contains_key(s[i].0@));
        assert(entries_map(s.drop_last()).insert(s.last().0@, s.last().1).remove(s[i].0@)
            =~= entries_map(s.drop_last()));
    } else {
        lemma_unique_drop_last(s);
        assert(s.drop_last()[i] == s[i]);
        lemma_entries_map_remove(s.drop_last(), i);
        assert(s.remove(i).drop_last() =~= s.drop_last().remove(i));
        assert(s.remove(i).last() == s.last());
        assert(s[i].0@ != s.last().0@);
        assert(entries_map(s.remove(i)) == entries_map(s.drop_last().remove(i)).insert(
            s.last().0@,
            s.last().1,
        ));
    }
}

} // verus!
