//! Lists of entries keyed by a string, with distinct keys, read as maps.
//! The task store and the process registry keep their entries this way.

use vstd::prelude::*;

verus! {

pub open spec fn distinct_keys<V>(s: Seq<(Seq<char>, V)>) -> bool {
    forall|i: int, j: int| 0 <= i < s.len() && 0 <= j < s.len() && i != j ==> s[i].0 != s[j].0
}

pub open spec fn has_key<V>(s: Seq<(Seq<char>, V)>, k: Seq<char>) -> bool {
    exists|i: int| 0 <= i < s.len() && s[i].0 == k
}

/// The entries as a map from key to value.
pub open spec fn to_map<V>(s: Seq<(Seq<char>, V)>) -> Map<Seq<char>, V> {
    Map::new(
        |k: Seq<char>| has_key(s, k),
        |k: Seq<char>| s[choose|i: int| 0 <= i < s.len() && s[i].0 == k].1,
    )
}

pub proof fn lemma_to_map_index<V>(s: Seq<(Seq<char>, V)>, i: int)
    requires
        distinct_keys(s),
        0 <= i < s.len(),
    ensures
        to_map(s).contains_key(s[i].0),
        to_map(s)[s[i].0] == s[i].1,
{
    let k = s[i].0;
    assert(has_key(s, k));
    let j = choose|j: int| 0 <= j < s.len() && s[j].0 == k;
    assert(j == i);
}

pub proof fn lemma_to_map_all<V>(s: Seq<(Seq<char>, V)>)
    requires
        distinct_keys(s),
    ensures
        forall|i: int| 0 <= i < s.len() ==> #[trigger] to_map(s).contains_key(s[i].0) && to_map(s)[s[i].0] == s[i].1,
        forall|k: Seq<char>| #[trigger] to_map(s).contains_key(k) <==> has_key(s, k),
{
    assert forall|i: int| 0 <= i < s.len() implies #[trigger] to_map(s).contains_key(s[i].0) && to_map(s)[s[i].0] == s[i].1 by {
        lemma_to_map_index(s, i);
    }
}

/// Replacing the value at `i` replaces it in the map.
pub proof fn lemma_to_map_update<V>(s: Seq<(Seq<char>, V)>, i: int, v: V)
    requires
        distinct_keys(s),
        0 <= i < s.len(),
    ensures
        distinct_keys(s.update(i, (s[i].0, v))),
        to_map(s.update(i, (s[i].0, v))) =~= to_map(s).insert(s[i].0, v),
{
    let t = s.update(i, (s[i].0, v));
    assert(distinct_keys(t));
    lemma_to_map_all(s);
    lemma_to_map_all(t);
    assert forall|k: Seq<char>| #[trigger] to_map(t).contains_key(k) <==> to_map(s).insert(s[i].0, v).contains_key(k) by {
        if has_key(s, k) {
            let j = choose|j: int| 0 <= j < s.len() && s[j].0 == k;
            assert(t[j].0 == k);
        }
        if has_key(t, k) {
            let j = choose|j: int| 0 <= j < t.len() && t[j].0 == k;
            assert(s[j].0 == k);
        }
    }
    assert forall|k: Seq<char>| #[trigger] to_map(t).contains_key(k) implies to_map(t)[k] == to_map(s).insert(s[i].0, v)[k] by {
        let j = choose|j: int| 0 <= j < t.len() && t[j].0 == k;
        assert(to_map(t)[t[j].0] == t[j].1);
        if j != i {
            assert(to_map(s)[s[j].0] == s[j].1);
        }
    }
}

/// Appending an entry with a new key inserts it into the map.
pub proof fn lemma_to_map_push<V>(s: Seq<(Seq<char>, V)>, k: Seq<char>, v: V)
    requires
        distinct_keys(s),
        !has_key(s, k),
    ensures
        distinct_keys(s.push((k, v))),
        to_map(s.push((k, v))) =~= to_map(s).insert(k, v),
{
    let t = s.push((k, v));
    assert(distinct_keys(t));
    lemma_to_map_all(s);
    lemma_to_map_all(t);
    assert forall|q: Seq<char>| #[trigger] to_map(t).contains_key(q) <==> to_map(s).insert(k, v).contains_key(q) by {
        if has_key(s, q) {
            let j = choose|j: int| 0 <= j < s.len() && s[j].0 == q;
            assert(t[j].0 == q);
        }
        if has_key(t, q) && q != k {
            let j = choose|j: int| 0 <= j < t.len() && t[j].0 == q;
            assert(s[j].0 == q);
        }
        if q == k {
            assert(t[s.len() as int].0 == q);
        }
    }
    assert forall|q: Seq<char>| #[trigger] to_map(t).contains_key(q) implies to_map(t)[q] == to_map(s).insert(k, v)[q] by {
        let j = choose|j: int| 0 <= j < t.len() && t[j].0 == q;
        assert(to_map(t)[t[j].0] == t[j].1);
        if j < s.len() {
            assert(to_map(s)[s[j].0] == s[j].1);
        }
    }
}

/// Inserting an entry with a new key at position `p` inserts it into the map.
pub proof fn lemma_to_map_insert_at<V>(s: Seq<(Seq<char>, V)>, p: int, k: Seq<char>, v: V)
    requires
        distinct_keys(s),
        !has_key(s, k),
        0 <= p <= s.len(),
    ensures
        distinct_keys(s.insert(p, (k, v))),
        to_map(s.insert(p, (k, v))) =~= to_map(s).insert(k, v),
{
    let t = s.insert(p, (k, v));
    assert forall|i: int, j: int| 0 <= i < t.len() && 0 <= j < t.len() && i != j implies t[i].0 != t[j].0 by {
        let si = if i < p { i } else { i - 1 };
        let sj = if j < p { j } else { j - 1 };
        if i != p && j != p {
            assert(t[i] == s[si]);
            assert(t[j] == s[sj]);
        } else if i == p {
            assert(t[j] == s[sj]);
        } else {
            assert(t[i] == s[si]);
        }
    }
    lemma_to_map_all(s);
    lemma_to_map_all(t);
    assert forall|q: Seq<char>| #[trigger] to_map(t).contains_key(q) <==> to_map(s).insert(k, v).contains_key(q) by {
        if has_key(s, q) {
            let j = choose|j: int| 0 <= j < s.len() && s[j].0 == q;
            if j < p {
                assert(t[j].0 == q);
            } else {
                assert(t[j + 1].0 == q);
            }
        }
        if has_key(t, q) && q != k {
            let j = choose|j: int| 0 <= j < t.len() && t[j].0 == q;
            if j < p {
                assert(s[j].0 == q);
            } else {
                assert(s[j - 1].0 == q);
            }
        }
        if q == k {
            assert(t[p].0 == q);
        }
    }
    assert forall|q: Seq<char>| #[trigger] to_map(t).contains_key(q) implies to_map(t)[q] == to_map(s).insert(k, v)[q] by {
        let j = choose|j: int| 0 <= j < t.len() && t[j].0 == q;
        assert(to_map(t)[t[j].0] == t[j].1);
        if j < p {
            assert(to_map(s)[s[j].0] == s[j].1);
        } else if j > p {
            assert(t[j] == s[j - 1]);
            assert(to_map(s)[s[j - 1].0] == s[j - 1].1);
        }
    }
}

/// Removing the entry at `i` removes its key from the map.
pub proof fn lemma_to_map_remove<V>(s: Seq<(Seq<char>, V)>, i: int)
    requires
        distinct_keys(s),
        0 <= i < s.len(),
    ensures
        distinct_keys(s.remove(i)),
        to_map(s.remove(i)) =~= to_map(s).remove(s[i].0),
{
    let t = s.remove(i);
    let k = s[i].0;
    assert forall|a: int, b: int| 0 <= a < t.len() && 0 <= b < t.len() && a != b implies t[a].0 != t[b].0 by {
        let sa = if a < i { a } else { a + 1 };
        let sb = if b < i { b } else { b + 1 };
        assert(t[a] == s[sa]);
        assert(t[b] == s[sb]);
    }
    lemma_to_map_all(s);
    lemma_to_map_all(t);
    assert forall|q: Seq<char>| #[trigger] to_map(t).contains_key(q) <==> to_map(s).remove(k).contains_key(q) by {
        if has_key(t, q) {
            let j = choose|j: int| 0 <= j < t.len() && t[j].0 == q;
            let sj = if j < i { j } else { j + 1 };
            assert(t[j] == s[sj]);
            assert(s[sj].0 == q);
        }
        if has_key(s, q) && q != k {
            let j = choose|j: int| 0 <= j < s.len() && s[j].0 == q;
            if j < i {
                assert(t[j].0 == q);
            } else {
                assert(j != i);
                assert(t[j - 1].0 == q);
            }
        }
    }
    assert forall|q: Seq<char>| #[trigger] to_map(t).contains_key(q) implies to_map(t)[q] == to_map(s).remove(k)[q] by {
        let j = choose|j: int| 0 <= j < t.len() && t[j].0 == q;
        let sj = if j < i { j } else { j + 1 };
        assert(t[j] == s[sj]);
        assert(to_map(t)[t[j].0] == t[j].1);
        assert(to_map(s)[s[sj].0] == s[sj].1);
    }
}

} // verus!
