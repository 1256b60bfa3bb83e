use vstd::prelude::*;

verus! {

/// No key appears twice in an association list.
pub open spec fn keys_unique<K, V>(s: Seq<(K, V)>) -> bool {
    forall|i: int, j: int| 0 <= i < j < s.len() ==> s[i].0 != s[j].0
}

/// The map an association list with unique keys stands for.
pub open spec fn map_of<K, V>(s: Seq<(K, V)>) -> Map<K, V> {
    Map::new(
        |k: K| exists|i: int| 0 <= i < s.len() && s[i].0 == k,
        |k: K| s[choose|i: int| 0 <= i < s.len() && s[i].0 == k].1,
    )
}

pub proof fn lemma_map_of_at<K, V>(s: Seq<(K, V)>, i: int)
    requires
        keys_unique(s),
        0 <= i < s.len(),
    ensures
        map_of(s).contains_key(s[i].0),
        map_of(s)[s[i].0] == s[i].1,
{
    let k = s[i].0;
    assert(exists|j: int| 0 <= j < s.len() && s[j].0 == k);
    let j = choose|j: int| 0 <= j < s.len() && s[j].0 == k;
    assert(i == j) by {
        if i < j {
        } else if j < i {
        }
    }
}

pub proof fn lemma_map_of_set<K, V>(s: Seq<(K, V)>, j: int, v: V)
    requires
        keys_unique(s),
        0 <= j < s.len(),
    ensures
        keys_unique(s.update(j, (s[j].0, v))),
        map_of(s.update(j, (s[j].0, v))) == map_of(s).insert(s[j].0, v),
{
    let t = s.update(j, (s[j].0, v));
    assert(keys_unique(t));
    let a = map_of(t);
    let b = map_of(s).insert(s[j].0, v);
    assert forall|k: K| a.contains_key(k) <==> b.contains_key(k) by {
        if a.contains_key(k) {
            let i = choose|i: int| 0 <= i < t.len() && t[i].0 == k;
            assert(s[i].0 == k);
        }
        if map_of(s).contains_key(k) {
            let i = choose|i: int| 0 <= i < s.len() && s[i].0 == k;
            assert(t[i].0 == k);
        }
    }
    assert forall|k: K| #[trigger] a.contains_key(k) implies a[k] == b[k] by {
        let i = choose|i: int| 0 <= i < t.len() && t[i].0 == k;
        lemma_map_of_at(t, i);
        if i != j {
            lemma_map_of_at(s, i);
        }
    }
    assert(a =~= b);
}

pub proof fn lemma_map_of_push<K, V>(s: Seq<(K, V)>, k: K, v: V)
    requires
        keys_unique(s),
        !map_of(s).contains_key(k),
    ensures
        keys_unique(s.push((k, v))),
        map_of(s.push((k, v))) == map_of(s).insert(k, v),
{
    let t = s.push((k, v));
    assert forall|i: int, j: int| 0 <= i < j < t.len() implies t[i].0 != t[j].0 by {
        if j == s.len() {
            assert(s[i].0 == t[i].0);
        }
    }
    let a = map_of(t);
    let b = map_of(s).insert(k, v);
    assert forall|q: K| a.contains_key(q) <==> b.contains_key(q) by {
        if a.contains_key(q) && q != k {
            let i = choose|i: int| 0 <= i < t.len() && t[i].0 == q;
            assert(s[i].0 == q);
        }
        if map_of(s).contains_key(q) {
            let i = choose|i: int| 0 <= i < s.len() && s[i].0 == q;
            assert(t[i].0 == q);
        }
        if q == k {
            assert(t[s.len() as int].0 == q);
        }
    }
    assert forall|q: K| #[trigger] a.contains_key(q) implies a[q] == b[q] by {
        let i = choose|i: int| 0 <= i < t.len() && t[i].0 == q;
        lemma_map_of_at(t, i);
        if i < s.len() {
            lemma_map_of_at(s, i);
        }
    }
    assert(a =~= b);
}

pub proof fn lemma_map_of_remove<K, V>(s: Seq<(K, V)>, j: int)
    requires
        keys_unique(s),
        0 <= j < s.len(),
    ensures
        keys_unique(s.remove(j)),
        map_of(s.remove(j)) == map_of(s).remove(s[j].0),
{
    let t = s.remove(j);
    assert forall|a: int, b: int| 0 <= a < b < t.len() implies t[a].0 != t[b].0 by {
        let a2 = if a < j { a } else { a + 1 };
        let b2 = if b < j { b } else { b + 1 };
        assert(t[a] == s[a2] && t[b] == s[b2]);
    }
    let k = s[j].0;
    let x = map_of(t);
    let y = map_of(s).remove(k);
    assert forall|q: K| x.contains_key(q) <==> y.contains_key(q) by {
        if x.contains_key(q) {
            let i = choose|i: int| 0 <= i < t.len() && t[i].0 == q;
            let i2 = if i < j { i } else { i + 1 };
            assert(s[i2].0 == q);
        }
        if y.contains_key(q) {
            let i = choose|i: int| 0 <= i < s.len() && s[i].0 == q;
            assert(i != j);
            let i2 = if i < j { i } else { i - 1 };
            assert(t[i2].0 == q);
        }
    }
    assert forall|q: K| #[trigger] x.contains_key(q) implies x[q] == y[q] by {
        let i = choose|i: int| 0 <= i < t.len() && t[i].0 == q;
        lemma_map_of_at(t, i);
        let i2 = if i < j { i } else { i + 1 };
        assert(t[i] == s[i2]);
        lemma_map_of_at(s, i2);
    }
    assert(x =~= y);
}

} // verus!
