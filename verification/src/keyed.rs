//! Sequences of (path, value) pairs read as maps keyed by path.
use vstd::prelude::*;

verus! {

pub open spec fn keys_unique<V>(s: Seq<(Seq<char>, V)>) -> bool {
    forall|i: int, j: int|
        0 <= i < s.len() && 0 <= j < s.len() && i != j ==> #[trigger] s[i].0 != #[trigger] s[j].0
}

/// The map holding each value of `s` under its key.
pub open spec fn keyed_map<V>(s: Seq<(Seq<char>, V)>) -> Map<Seq<char>, V>
    decreases s.len(),
{
    if s.len() == 0 {
        Map::empty()
    } else {
        keyed_map(s.drop_last()).insert(s.last().0, s.last().1)
    }
}

pub proof fn lemma_keyed_dom<V>(s: Seq<(Seq<char>, V)>, k: Seq<char>)
    ensures
        keyed_map(s).contains_key(k) <==> exists|i: int| 0 <= i < s.len() && #[trigger] s[i].0 == k,
    decreases s.len(),
{
    if s.len() > 0 {
        lemma_keyed_dom(s.drop_last(), k);
        if keyed_map(s.drop_last()).contains_key(k) {
            let i = choose|i: int| 0 <= i < s.drop_last().len() && #[trigger] s.drop_last()[i].0 == k;
            assert(s[i].0 == k);
        }
        if exists|i: int| 0 <= i < s.len() && #[trigger] s[i].0 == k {
            let i = choose|i: int| 0 <= i < s.len() && #[trigger] s[i].0 == k;
            if i < s.len() - 1 {
                assert(s.drop_last()[i].0 == k);
            }
        }
    }
}

pub proof fn lemma_keyed_index<V>(s: Seq<(Seq<char>, V)>, i: int)
    requires
        keys_unique(s),
        0 <= i < s.len(),
    ensures
        keyed_map(s).contains_key(s[i].0),
        keyed_map(s)[s[i].0] == s[i].1,
    decreases s.len(),
{
    if i < s.len() - 1 {
        assert(keys_unique(s.drop_last()));
        lemma_keyed_index(s.drop_last(), i);
        assert(s.drop_last()[i] == s[i]);
        assert(s[i].0 != s[s.len() - 1].0);
    }
}

pub proof fn lemma_keyed_update<V>(s: Seq<(Seq<char>, V)>, i: int, v: V)
    requires
        keys_unique(s),
        0 <= i < s.len(),
    ensures
        keys_unique(s.update(i, (s[i].0, v))),
        keyed_map(s.update(i, (s[i].0, v))) =~= keyed_map(s).insert(s[i].0, v),
    decreases s.len(),
{
    let x = (s[i].0, v);
    let t = s.update(i, x);
    assert(keys_unique(t)) by {
        assert forall|a: int, b: int| 0 <= a < t.len() && 0 <= b < t.len() && a != b implies #[trigger] t[a].0
            != #[trigger] t[b].0 by {
            assert(s[a].0 != s[b].0);
        }
    }
    if i == s.len() - 1 {
        assert(t.drop_last() =~= s.drop_last());
    } else {
        assert(keys_unique(s.drop_last()));
        lemma_keyed_update(s.drop_last(), i, v);
        assert(t.drop_last() =~= s.drop_last().update(i, x));
        assert(s[i].0 != s.last().0);
    }
}

pub proof fn lemma_keyed_push<V>(s: Seq<(Seq<char>, V)>, k: Seq<char>, v: V)
    requires
        keys_unique(s),
        !keyed_map(s).contains_key(k),
    ensures
        keys_unique(s.push((k, v))),
        keyed_map(s.push((k, v))) == keyed_map(s).insert(k, v),
{
    let t = s.push((k, v));
    assert(t.drop_last() =~= s);
    lemma_keyed_dom(s, k);
    assert forall|a: int, b: int| 0 <= a < t.len() && 0 <= b < t.len() && a != b implies #[trigger] t[a].0
        != #[trigger] t[b].0 by {
        if a < s.len() && b < s.len() {
            assert(s[a].0 != s[b].0);
        } else if a < s.len() {
            assert(s[a].0 != k);
        } else {
            assert(s[b].0 != k);
        }
    }
}

pub proof fn lemma_keyed_remove<V>(s: Seq<(Seq<char>, V)>, i: int)
    requires
        keys_unique(s),
        0 <= i < s.len(),
    ensures
        keys_unique(s.remove(i)),
        keyed_map(s.remove(i)) =~= keyed_map(s).remove(s[i].0),
    decreases s.len(),
{
    let t = s.remove(i);
    let k = s[i].0;
    assert(keys_unique(t)) by {
        assert forall|a: int, b: int| 0 <= a < t.len() && 0 <= b < t.len() && a != b implies #[trigger] t[a].0
            != #[trigger] t[b].0 by {
            let a2 = if a < i { a } else { a + 1 };
            let b2 = if b < i { b } else { b + 1 };
            assert(t[a] == s[a2] && t[b] == s[b2]);
            assert(s[a2].0 != s[b2].0);
        }
    }
    if i == s.len() - 1 {
        assert(t =~= s.drop_last());
        assert(keys_unique(s.drop_last()));
        lemma_keyed_dom(s.drop_last(), k);
        if keyed_map(s.drop_last()).contains_key(k) {
            let j = choose|j: int| 0 <= j < s.drop_last().len() && #[trigger] s.drop_last()[j].0 == k;
            assert(s[j].0 == s[i].0);
        }
    } else {
        assert(keys_unique(s.drop_last()));
        lemma_keyed_remove(s.drop_last(), i);
        assert(t.drop_last() =~= s.drop_last().remove(i));
        assert(t.last() == s.last());
        assert(s.last().0 != k);
    }
}

} // verus!
