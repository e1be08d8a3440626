//! Code point order on strings, which for UTF-8 text is the byte order that
//! `String`'s `Ord` uses, and strictly sorted lists of strings.

use vstd::prelude::*;

verus! {

/// `a` sorts before `b`.
pub open spec fn seq_lt(a: Seq<char>, b: Seq<char>) -> bool
    decreases a.len(),
{
    if a.len() == 0 {
        b.len() > 0
    } else if b.len() == 0 {
        false
    } else if a[0] != b[0] {
        a[0] < b[0]
    } else {
        seq_lt(a.drop_first(), b.drop_first())
    }
}

pub proof fn lemma_lt_irreflexive(a: Seq<char>)
    ensures
        !seq_lt(a, a),
    decreases a.len(),
{
    if a.len() > 0 {
        lemma_lt_irreflexive(a.drop_first());
    }
}

pub proof fn lemma_lt_asymmetric(a: Seq<char>, b: Seq<char>)
    ensures
        seq_lt(a, b) ==> !seq_lt(b, a),
    decreases a.len(),
{
    if a.len() > 0 && b.len() > 0 && a[0] == b[0] {
        lemma_lt_asymmetric(a.drop_first(), b.drop_first());
    }
}

pub proof fn lemma_lt_transitive(a: Seq<char>, b: Seq<char>, c: Seq<char>)
    requires
        seq_lt(a, b),
        seq_lt(b, c),
    ensures
        seq_lt(a, c),
    decreases a.len(),
{
    if a.len() > 0 && b.len() > 0 && c.len() > 0 && a[0] == b[0] && b[0] == c[0] {
        lemma_lt_transitive(a.drop_first(), b.drop_first(), c.drop_first());
    }
}

pub proof fn lemma_lt_total(a: Seq<char>, b: Seq<char>)
    ensures
        a == b || seq_lt(a, b) || seq_lt(b, a),
    decreases a.len(),
{
    if a.len() > 0 && b.len() > 0 && a[0] == b[0] {
        lemma_lt_total(a.drop_first(), b.drop_first());
        if a.drop_first() == b.drop_first() {
            assert(a =~= seq![a[0]] + a.drop_first());
            assert(b =~= seq![b[0]] + b.drop_first());
        }
    } else if a.len() == 0 && b.len() == 0 {
        assert(a =~= b);
    } else if a.len() > 0 && b.len() > 0 {
        assert(a[0] != b[0]);
    }
}

/// Whether `a` sorts before `b`.
pub fn chars_less(a: &Vec<char>, b: &Vec<char>) -> (r: bool)
    ensures
        r == seq_lt(a@, b@),
{
    let mut k: usize = 0;
    assert(a@.skip(0) =~= a@);
    assert(b@.skip(0) =~= b@);
    while k < a.len() && k < b.len() && a[k] == b[k]
        invariant
            k <= a.len(),
            k <= b.len(),
            seq_lt(a@, b@) == seq_lt(a@.skip(k as int), b@.skip(k as int)),
        decreases a.len() - k,
    {
        assert(a@.skip(k as int).drop_first() =~= a@.skip(k + 1));
        assert(b@.skip(k as int).drop_first() =~= b@.skip(k + 1));
        k = k + 1;
    }
    if k == a.len() {
        k < b.len()
    } else if k == b.len() {
        false
    } else {
        a[k] < b[k]
    }
}

pub open spec fn strictly_sorted(s: Seq<Seq<char>>) -> bool {
    forall|i: int, j: int| 0 <= i < j < s.len() ==> seq_lt(#[trigger] s[i], #[trigger] s[j])
}

pub proof fn lemma_sorted_distinct(s: Seq<Seq<char>>, i: int, j: int)
    requires
        strictly_sorted(s),
        0 <= i < s.len(),
        0 <= j < s.len(),
        i != j,
    ensures
        s[i] != s[j],
{
    if i < j {
        if s[i] == s[j] {
            lemma_lt_irreflexive(s[i]);
        }
    } else {
        if s[i] == s[j] {
            lemma_lt_irreflexive(s[i]);
        }
    }
}

/// Inserting `x` where everything before it is smaller and everything from
/// there on larger keeps the list strictly sorted.
pub proof fn lemma_sorted_insert(s: Seq<Seq<char>>, p: int, x: Seq<char>)
    requires
        strictly_sorted(s),
        0 <= p <= s.len(),
        forall|i: int| 0 <= i < p ==> seq_lt(#[trigger] s[i], x),
        forall|i: int| p <= i < s.len() ==> seq_lt(x, #[trigger] s[i]),
    ensures
        strictly_sorted(s.insert(p, x)),
{
    let t = s.insert(p, x);
    assert forall|i: int, j: int| 0 <= i < j < t.len() implies seq_lt(#[trigger] t[i], #[trigger] t[j]) by {
        if i < p && j < p {
            assert(t[i] == s[i] && t[j] == s[j]);
        } else if i < p && j == p {
            assert(t[i] == s[i]);
        } else if i < p {
            assert(t[i] == s[i] && t[j] == s[j - 1]);
            lemma_lt_transitive(s[i], x, s[j - 1]);
        } else if i == p {
            assert(t[j] == s[j - 1]);
        } else {
            assert(t[i] == s[i - 1] && t[j] == s[j - 1]);
        }
    }
}

/// Removing an entry keeps the list strictly sorted.
pub proof fn lemma_sorted_remove(s: Seq<Seq<char>>, p: int)
    requires
        strictly_sorted(s),
        0 <= p < s.len(),
    ensures
        strictly_sorted(s.remove(p)),
{
    let t = s.remove(p);
    assert forall|i: int, j: int| 0 <= i < j < t.len() implies seq_lt(#[trigger] t[i], #[trigger] t[j]) by {
        let si = if i < p { i } else { i + 1 };
        let sj = if j < p { j } else { j + 1 };
        assert(t[i] == s[si] && t[j] == s[sj]);
    }
}

pub open spec fn string_views(v: Seq<String>) -> Seq<Seq<char>> {
    v.map_values(|s: String| s@)
}

/// Where `x` belongs in the sorted list `v`: the first entry not before it.
pub fn sorted_position(v: &Vec<String>, x: &Vec<char>) -> (p: usize)
    requires
        strictly_sorted(string_views(v@)),
    ensures
        p <= v.len(),
        forall|i: int| 0 <= i < p ==> seq_lt(#[trigger] string_views(v@)[i], x@),
        forall|i: int| p <= i < v.len() ==> !seq_lt(#[trigger] string_views(v@)[i], x@),
{
    let mut p: usize = 0;
    while p < v.len()
        invariant
            p <= v.len(),
            strictly_sorted(string_views(v@)),
            forall|i: int| 0 <= i < p ==> seq_lt(#[trigger] string_views(v@)[i], x@),
        decreases v.len() - p,
    {
        let item = crate::text::str_to_chars(v[p].as_str());
        if !chars_less(&item, x) {
            assert forall|i: int| p <= i < v.len() implies !seq_lt(#[trigger] string_views(v@)[i], x@) by {
                if i > p && seq_lt(string_views(v@)[i], x@) {
                    assert(seq_lt(string_views(v@)[p as int], string_views(v@)[i]));
                    lemma_lt_transitive(string_views(v@)[p as int], string_views(v@)[i], x@);
                }
            }
            return p;
        }
        p = p + 1;
    }
    p
}

/// Adds `x` to the strictly sorted list `v` unless it is there already;
/// reports whether it was added.
pub fn sorted_insert(v: &mut Vec<String>, x: String) -> (inserted: bool)
    requires
        strictly_sorted(string_views(old(v)@)),
    ensures
        strictly_sorted(string_views(final(v)@)),
        inserted == !string_views(old(v)@).contains(x@),
        string_views(final(v)@).to_set() == string_views(old(v)@).to_set().insert(x@),
        !inserted ==> final(v)@ == old(v)@,
{
    let xv = crate::text::str_to_chars(x.as_str());
    let p = sorted_position(v, &xv);
    let ghost s = string_views(v@);
    if p < v.len() && v[p] == x {
        assert(s.contains(x@)) by {
            assert(s[p as int] == x@);
        }
        assert(s.to_set().insert(x@) =~= s.to_set());
        return false;
    }
    proof {
        assert forall|i: int| p <= i < s.len() implies seq_lt(x@, #[trigger] s[i]) by {
            lemma_lt_total(s[i], x@);
            if i == p {
                assert(s[i] != x@);
            } else {
                assert(seq_lt(s[p as int], s[i]));
                if s[i] == x@ {
                    lemma_lt_total(s[p as int], x@);
                    lemma_lt_asymmetric(s[p as int], x@);
                }
            }
        }
        assert(!s.contains(x@)) by {
            if s.contains(x@) {
                let k = choose|k: int| 0 <= k < s.len() && s[k] == x@;
                lemma_lt_irreflexive(x@);
            }
        }
        lemma_sorted_insert(s, p as int, x@);
    }
    v.insert(p, x);
    proof {
        assert(string_views(v@) =~= s.insert(p as int, x@));
        assert(s.insert(p as int, x@).to_set() =~= s.to_set().insert(x@)) by {
            let t = s.insert(p as int, x@);
            assert forall|y: Seq<char>| t.contains(y) implies s.to_set().insert(x@).contains(y) by {
                let k = choose|k: int| 0 <= k < t.len() && t[k] == y;
                if k < p {
                    assert(s[k] == y);
                } else if k > p {
                    assert(s[k - 1] == y);
                }
            }
            assert forall|y: Seq<char>| s.to_set().insert(x@).contains(y) implies t.contains(y) by {
                if y == x@ {
                    assert(t[p as int] == y);
                } else {
                    let k = choose|k: int| 0 <= k < s.len() && s[k] == y;
                    if k < p {
                        assert(t[k] == y);
                    } else {
                        assert(t[k + 1] == y);
                    }
                }
            }
        }
    }
    true
}

} // verus!
