//! Name-keyed collections built from a list of `(name, value)` pairs in which a
//! later pair replaces an earlier one under the same name.

use vstd::prelude::*;

verus! {

/// The value of the last pair in `pairs` that stands under `name`, if there is one.
pub open spec fn last_given<V>(pairs: Seq<(Seq<char>, V)>, name: Seq<char>) -> Option<V>
    decreases pairs.len(),
{
    if pairs.len() == 0 {
        None
    } else if pairs.last().0 == name {
        Some(pairs.last().1)
    } else {
        last_given(pairs.drop_last(), name)
    }
}

/// The map that `pairs` describes: its keys are the names that occur, and each
/// key carries the value of its last occurrence.
pub open spec fn last_wins<V>(pairs: Seq<(Seq<char>, V)>) -> Map<Seq<char>, V> {
    Map::new(
        |name: Seq<char>| last_given(pairs, name) is Some,
        |name: Seq<char>| last_given(pairs, name)->0,
    )
}

/// No name occurs twice in `pairs`.
pub open spec fn distinct_names<V>(pairs: Seq<(Seq<char>, V)>) -> bool {
    forall|i: int, j: int|
        0 <= i < j < pairs.len() ==> (#[trigger] pairs[i]).0 != (#[trigger] pairs[j]).0
}

/// `i` is the position of the last pair under `name`.
pub open spec fn is_last_occurrence<V>(pairs: Seq<(Seq<char>, V)>, name: Seq<char>, i: int) -> bool {
    &&& 0 <= i < pairs.len()
    &&& pairs[i].0 == name
    &&& forall|j: int| i < j < pairs.len() ==> (#[trigger] pairs[j]).0 != name
}

/// A name has a value exactly when some pair stands under it, and the value is
/// that of the last such pair.
pub proof fn lemma_last_given<V>(pairs: Seq<(Seq<char>, V)>, name: Seq<char>)
    ensures
        last_given(pairs, name) is Some <==> exists|i: int|
            0 <= i < pairs.len() && (#[trigger] pairs[i]).0 == name,
        last_given(pairs, name) is Some ==> exists|i: int|
            #[trigger] is_last_occurrence(pairs, name, i) && pairs[i].1 == last_given(pairs, name)->0,
    decreases pairs.len(),
{
    if pairs.len() == 0 {
    } else if pairs.last().0 == name {
        let i = pairs.len() - 1;
        assert(pairs[i].0 == name);
        assert(is_last_occurrence(pairs, name, i));
    } else {
        let front = pairs.drop_last();
        lemma_last_given(front, name);
        if last_given(front, name) is Some {
            let i = choose|i: int|
                #[trigger] is_last_occurrence(front, name, i) && front[i].1 == last_given(
                    front,
                    name,
                )->0;
            assert(pairs[i] == front[i]);
            assert forall|j: int| i < j < pairs.len() implies (#[trigger] pairs[j]).0 != name by {
                if j < front.len() {
                    assert(pairs[j] == front[j]);
                }
            }
            assert(is_last_occurrence(pairs, name, i));
        } else {
            assert forall|i: int| 0 <= i < pairs.len() implies (#[trigger] pairs[i]).0 != name by {
                if i < front.len() {
                    assert(pairs[i] == front[i]);
                }
            }
        }
        if exists|i: int| 0 <= i < pairs.len() && (#[trigger] pairs[i]).0 == name {
            let i = choose|i: int| 0 <= i < pairs.len() && (#[trigger] pairs[i]).0 == name;
            assert(i < front.len());
            assert(front[i].0 == name);
        }
    }
}

/// One more pair at the end is one insertion into the map.
pub proof fn lemma_last_wins_push<V>(pairs: Seq<(Seq<char>, V)>, name: Seq<char>, value: V)
    ensures
        last_wins(pairs.push((name, value))) == last_wins(pairs).insert(name, value),
{
    let longer = pairs.push((name, value));
    assert(longer.drop_last() == pairs);
    assert(longer.last() == (name, value));
    assert forall|n: Seq<char>| #[trigger] last_given(longer, n) == (if n == name {
        Some(value)
    } else {
        last_given(pairs, n)
    }) by {}
    assert(last_wins(longer) =~= last_wins(pairs).insert(name, value));
}

/// No pairs, no entries.
pub proof fn lemma_last_wins_empty<V>()
    ensures
        last_wins(Seq::<(Seq<char>, V)>::empty()) == Map::<Seq<char>, V>::empty(),
{
    assert(last_wins(Seq::<(Seq<char>, V)>::empty()) =~= Map::<Seq<char>, V>::empty());
}

/// The map has finitely many entries, no more than there are pairs.
pub proof fn lemma_last_wins_len<V>(pairs: Seq<(Seq<char>, V)>)
    ensures
        last_wins(pairs).dom().finite(),
        last_wins(pairs).len() <= pairs.len(),
    decreases pairs.len(),
{
    if pairs.len() == 0 {
        lemma_last_wins_empty::<V>();
        assert(pairs == Seq::<(Seq<char>, V)>::empty());
    } else {
        let front = pairs.drop_last();
        lemma_last_wins_len(front);
        lemma_last_wins_push(front, pairs.last().0, pairs.last().1);
        assert(front.push((pairs.last().0, pairs.last().1)) == pairs);
    }
}

/// Where no name occurs twice, every pair has an entry of its own.
pub proof fn lemma_last_wins_distinct<V>(pairs: Seq<(Seq<char>, V)>)
    requires
        distinct_names(pairs),
    ensures
        last_wins(pairs).len() == pairs.len(),
        forall|i: int|
            0 <= i < pairs.len() ==> last_wins(pairs).contains_key((#[trigger] pairs[i]).0)
                && last_wins(pairs)[pairs[i].0] == pairs[i].1,
    decreases pairs.len(),
{
    if pairs.len() == 0 {
        lemma_last_wins_empty::<V>();
        assert(pairs == Seq::<(Seq<char>, V)>::empty());
    } else {
        let front = pairs.drop_last();
        let last = pairs.last();
        assert forall|i: int, j: int| 0 <= i < j < front.len() implies (#[trigger] front[i]).0 != (
        #[trigger] front[j]).0 by {
            assert(front[i] == pairs[i]);
            assert(front[j] == pairs[j]);
        }
        lemma_last_wins_distinct(front);
        lemma_last_wins_len(front);
        lemma_last_wins_push(front, last.0, last.1);
        assert(front.push((last.0, last.1)) == pairs);
        lemma_last_given(front, last.0);
        if last_given(front, last.0) is Some {
            let i = choose|i: int| 0 <= i < front.len() && (#[trigger] front[i]).0 == last.0;
            assert(front[i] == pairs[i]);
            assert(pairs[pairs.len() - 1] == last);
            assert(false);
        }
        assert(!last_wins(front).contains_key(last.0));
        assert forall|i: int| 0 <= i < pairs.len() implies last_wins(pairs).contains_key(
            (#[trigger] pairs[i]).0,
        ) && last_wins(pairs)[pairs[i].0] == pairs[i].1 by {
            if i < front.len() {
                assert(front[i] == pairs[i]);
                assert(pairs[pairs.len() - 1] == last);
            }
        }
    }
}

} // verus!
