//! Maps represented as a list of distinct keys beside a list of values, and
//! the facts that relate list edits to map edits.

use vstd::prelude::*;

verus! {

/// The map from each key to the value at the same position.
pub open spec fn kv_map<K, V>(ks: Seq<K>, vs: Seq<V>) -> Map<K, V> {
    Map::new(|k: K| ks.contains(k), |k: K| vs[ks.index_of(k)])
}

/// The keys are distinct and paired one-to-one with the values.
pub open spec fn kv_wf<K, V>(ks: Seq<K>, vs: Seq<V>) -> bool {
    ks.len() == vs.len() && ks.no_duplicates()
}

/// The value at position `i` is the map's value for the key at `i`.
pub proof fn lemma_kv_at<K, V>(ks: Seq<K>, vs: Seq<V>, i: int)
    requires
        kv_wf(ks, vs),
        0 <= i < ks.len(),
    ensures
        kv_map(ks, vs).contains_key(ks[i]),
        kv_map(ks, vs)[ks[i]] == vs[i],
        ks.index_of(ks[i]) == i,
{
    assert(ks.contains(ks[i]));
    let j = ks.index_of(ks[i]);
    assert(0 <= j < ks.len() && ks[j] == ks[i]);
}

/// A key missing from the list is missing from the map.
pub proof fn lemma_kv_absent<K, V>(ks: Seq<K>, vs: Seq<V>, k: K)
    requires
        !ks.contains(k),
    ensures
        !kv_map(ks, vs).contains_key(k),
{
}

/// Appending a fresh key inserts it into the map.
pub proof fn lemma_kv_push<K, V>(ks: Seq<K>, vs: Seq<V>, k: K, v: V)
    requires
        kv_wf(ks, vs),
        !ks.contains(k),
    ensures
        kv_wf(ks.push(k), vs.push(v)),
        kv_map(ks.push(k), vs.push(v)) == kv_map(ks, vs).insert(k, v),
{
    let ks2 = ks.push(k);
    let vs2 = vs.push(v);
    assert(ks2.no_duplicates()) by {
        assert forall|i: int, j: int| 0 <= i < ks2.len() && 0 <= j < ks2.len() && i != j implies ks2[i]
            != ks2[j] by {
            if i < ks.len() && j < ks.len() {
            } else if i == ks.len() {
                assert(ks[j] == ks2[j]);
            } else {
                assert(ks[i] == ks2[i]);
            }
        }
    }
    assert forall|x: K| #[trigger] kv_map(ks2, vs2).contains_key(x) == kv_map(
        ks,
        vs,
    ).insert(k, v).contains_key(x) by {
        if ks2.contains(x) && x != k {
            let j = choose|j: int| 0 <= j < ks2.len() && ks2[j] == x;
            assert(j < ks.len());
            assert(ks.contains(x));
        }
        if ks.contains(x) {
            let j = choose|j: int| 0 <= j < ks.len() && ks[j] == x;
            assert(ks2[j] == x);
        }
        if x == k {
            assert(ks2[ks.len() as int] == k);
        }
    }
    assert forall|x: K| #[trigger] kv_map(ks2, vs2).contains_key(x) implies kv_map(
        ks2,
        vs2,
    )[x] == kv_map(ks, vs).insert(k, v)[x] by {
        if x == k {
            lemma_kv_at(ks2, vs2, ks.len() as int);
        } else {
            let j = choose|j: int| 0 <= j < ks2.len() && ks2[j] == x;
            assert(j < ks.len());
            lemma_kv_at(ks2, vs2, j);
            lemma_kv_at(ks, vs, j);
        }
    }
    assert(kv_map(ks2, vs2) =~= kv_map(ks, vs).insert(k, v));
}

/// Removing position `i` removes its key from the map.
pub proof fn lemma_kv_remove<K, V>(ks: Seq<K>, vs: Seq<V>, i: int)
    requires
        kv_wf(ks, vs),
        0 <= i < ks.len(),
    ensures
        kv_wf(ks.remove(i), vs.remove(i)),
        kv_map(ks.remove(i), vs.remove(i)) == kv_map(ks, vs).remove(ks[i]),
{
    let ks2 = ks.remove(i);
    let vs2 = vs.remove(i);
    ks.remove_ensures(i);
    vs.remove_ensures(i);
    let back = |j: int| if j < i { j } else { j + 1 };
    assert(ks2.no_duplicates()) by {
        assert forall|a: int, b: int| 0 <= a < ks2.len() && 0 <= b < ks2.len() && a != b implies ks2[a]
            != ks2[b] by {
            assert(ks2[a] == ks[back(a)]);
            assert(ks2[b] == ks[back(b)]);
        }
    }
    assert forall|x: K| #[trigger] kv_map(ks2, vs2).contains_key(x) == kv_map(
        ks,
        vs,
    ).remove(ks[i]).contains_key(x) by {
        if ks2.contains(x) {
            let j = choose|j: int| 0 <= j < ks2.len() && ks2[j] == x;
            assert(ks[back(j)] == x);
            assert(ks.contains(x));
            assert(back(j) != i);
        }
        if ks.contains(x) && x != ks[i] {
            let j = choose|j: int| 0 <= j < ks.len() && ks[j] == x;
            assert(j != i);
            if j < i {
                assert(ks2[j] == x);
            } else {
                assert(ks2[j - 1] == x);
            }
        }
    }
    assert forall|x: K| #[trigger] kv_map(ks2, vs2).contains_key(x) implies kv_map(
        ks2,
        vs2,
    )[x] == kv_map(ks, vs).remove(ks[i])[x] by {
        let j = choose|j: int| 0 <= j < ks2.len() && ks2[j] == x;
        lemma_kv_at(ks2, vs2, j);
        lemma_kv_at(ks, vs, back(j));
    }
    assert(kv_map(ks2, vs2) =~= kv_map(ks, vs).remove(ks[i]));
}

/// Replacing the value at position `i` replaces its key's value.
pub proof fn lemma_kv_update<K, V>(ks: Seq<K>, vs: Seq<V>, i: int, v: V)
    requires
        kv_wf(ks, vs),
        0 <= i < ks.len(),
    ensures
        kv_wf(ks, vs.update(i, v)),
        kv_map(ks, vs.update(i, v)) == kv_map(ks, vs).insert(ks[i], v),
{
    let vs2 = vs.update(i, v);
    assert forall|x: K| #[trigger] kv_map(ks, vs2).contains_key(x) implies kv_map(ks, vs2)[x]
        == kv_map(ks, vs).insert(ks[i], v)[x] by {
        let j = choose|j: int| 0 <= j < ks.len() && ks[j] == x;
        lemma_kv_at(ks, vs2, j);
        lemma_kv_at(ks, vs, j);
    }
    assert forall|x: K| #[trigger] kv_map(ks, vs2).contains_key(x) == kv_map(ks, vs).insert(
        ks[i],
        v,
    ).contains_key(x) by {
        assert(ks.contains(ks[i]));
    }
    assert(kv_map(ks, vs2) =~= kv_map(ks, vs).insert(ks[i], v));
}

/// The map has as many entries as the list.
pub proof fn lemma_kv_len<K, V>(ks: Seq<K>, vs: Seq<V>)
    requires
        kv_wf(ks, vs),
    ensures
        kv_map(ks, vs).dom() == ks.to_set(),
        kv_map(ks, vs).len() == ks.len(),
{
    assert(kv_map(ks, vs).dom() =~= ks.to_set());
    ks.unique_seq_to_set();
}

/// Extending a prefix by one element: the longer prefix holds exactly the
/// shorter one's elements and the next one, which the shorter one lacks when
/// nothing repeats.
pub proof fn lemma_take_next<A>(s: Seq<A>, i: int)
    requires
        0 <= i < s.len(),
    ensures
        forall|x: A| #[trigger] s.take(i + 1).contains(x) <==> (s.take(i).contains(x) || x == s[i]),
        s.no_duplicates() ==> !s.take(i).contains(s[i]),
{
    let pre = s.take(i);
    let nt = s.take(i + 1);
    assert forall|x: A| #[trigger] nt.contains(x) <==> (pre.contains(x) || x == s[i]) by {
        if nt.contains(x) {
            let q = choose|q: int| 0 <= q < nt.len() && nt[q] == x;
            if q < pre.len() {
                assert(pre[q] == x);
            }
        }
        if pre.contains(x) {
            let q = choose|q: int| 0 <= q < pre.len() && pre[q] == x;
            assert(nt[q] == x);
        }
        if x == s[i] {
            assert(nt[i] == s[i]);
        }
    }
    if s.no_duplicates() && pre.contains(s[i]) {
        let q = choose|q: int| 0 <= q < pre.len() && pre[q] == s[i];
        assert(s[q] == s[i]);
    }
}

/// Appending one element: the longer sequence holds exactly the old
/// elements and the new one, and repeats nothing when neither did.
pub proof fn lemma_push_contains<A>(s: Seq<A>, a: A)
    ensures
        forall|x: A| #[trigger] s.push(a).contains(x) <==> (s.contains(x) || x == a),
        s.no_duplicates() && !s.contains(a) ==> s.push(a).no_duplicates(),
{
    let r = s.push(a);
    assert forall|x: A| #[trigger] r.contains(x) <==> (s.contains(x) || x == a) by {
        if r.contains(x) {
            let q = choose|q: int| 0 <= q < r.len() && r[q] == x;
            if q < s.len() {
                assert(s[q] == x);
            }
        }
        if s.contains(x) {
            let q = choose|q: int| 0 <= q < s.len() && s[q] == x;
            assert(r[q] == x);
        }
        if x == a {
            assert(r[s.len() as int] == a);
        }
    }
    if s.no_duplicates() && !s.contains(a) {
        assert forall|i: int, j: int| 0 <= i < r.len() && 0 <= j < r.len() && i != j implies r[i] != r[j] by {
            if i < s.len() && j < s.len() {
                assert(s[i] != s[j]);
            } else if i == s.len() {
                assert(r[j] == s[j]);
            } else {
                assert(r[i] == s[i]);
            }
        }
    }
}

} // verus!
