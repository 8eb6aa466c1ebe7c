use vstd::prelude::*;

verus! {

/// No name is kept twice.
pub open spec fn unique_keys<V>(s: Seq<(String, V)>) -> bool {
    forall|i: int, j: int| 0 <= i < j < s.len() ==> (#[trigger] s[i]).0@ != (#[trigger] s[j]).0@
}

/// The map from name to value that a list of named values describes.
pub open spec fn keyed_map<V>(s: Seq<(String, V)>) -> Map<Seq<char>, V>
    decreases s.len(),
{
    if s.len() == 0 {
        Map::empty()
    } else {
        keyed_map(s.drop_last()).insert(s.last().0@, s.last().1)
    }
}

/// A list without repeated names maps each name it holds to the value kept with it.
pub proof fn lemma_keyed_map<V>(s: Seq<(String, V)>, k: Seq<char>)
    requires
        unique_keys(s),
    ensures
        keyed_map(s).contains_key(k) <==> exists|i: int| 0 <= i < s.len() && (#[trigger] s[i]).0@ == k,
        forall|i: int| 0 <= i < s.len() && (#[trigger] s[i]).0@ == k ==> keyed_map(s)[k] == s[i].1,
    decreases s.len(),
{
    if s.len() > 0 {
        let t = s.drop_last();
        assert forall|i: int, j: int| 0 <= i < j < t.len() implies (#[trigger] t[i]).0@ != (#[trigger] t[j]).0@ by {
            assert(t[i] == s[i] && t[j] == s[j]);
        }
        lemma_keyed_map(t, k);
        assert forall|i: int| 0 <= i < t.len() implies #[trigger] t[i] == s[i] by {}
        if keyed_map(s).contains_key(k) && s.last().0@ != k {
            let i = choose|i: int| 0 <= i < t.len() && (#[trigger] t[i]).0@ == k;
            assert(s[i].0@ == k);
        }
        if exists|i: int| 0 <= i < s.len() && (#[trigger] s[i]).0@ == k {
            let i = choose|i: int| 0 <= i < s.len() && (#[trigger] s[i]).0@ == k;
            if i < s.len() - 1 {
                assert(t[i].0@ == k);
            }
        }
    }
}

/// Pushing a value under a new name adds it to the map.
pub proof fn lemma_keyed_push<V>(s: Seq<(String, V)>, e: (String, V))
    requires
        unique_keys(s),
        !keyed_map(s).contains_key(e.0@),
    ensures
        unique_keys(s.push(e)),
        keyed_map(s.push(e)) == keyed_map(s).insert(e.0@, e.1),
{
    let t = s.push(e);
    assert(t.drop_last() == s);
    assert forall|i: int, j: int| 0 <= i < j < t.len() implies (#[trigger] t[i]).0@ != (#[trigger] t[j]).0@ by {
        if j == s.len() {
            lemma_keyed_map(s, e.0@);
            assert(s[i].0@ != e.0@);
        }
    }
}

/// Taking out the value at `i` takes its name out of the map.
pub proof fn lemma_keyed_remove<V>(s: Seq<(String, V)>, i: int)
    requires
        unique_keys(s),
        0 <= i < s.len(),
    ensures
        unique_keys(s.remove(i)),
        keyed_map(s.remove(i)) == keyed_map(s).remove(s[i].0@),
{
    let t = s.remove(i);
    assert forall|a: int, b: int| 0 <= a < b < t.len() implies (#[trigger] t[a]).0@ != (#[trigger] t[b]).0@ by {
        let a2 = if a < i { a } else { a + 1 };
        let b2 = if b < i { b } else { b + 1 };
        assert(t[a] == s[a2] && t[b] == s[b2]);
    }
    assert forall|k: Seq<char>| #[trigger] keyed_map(t).contains_key(k) == keyed_map(s).remove(s[i].0@).contains_key(k)
        && (keyed_map(t).contains_key(k) ==> keyed_map(t)[k] == keyed_map(s).remove(s[i].0@)[k]) by {
        lemma_keyed_map(s, k);
        lemma_keyed_map(t, k);
        if keyed_map(t).contains_key(k) {
            let a = choose|a: int| 0 <= a < t.len() && (#[trigger] t[a]).0@ == k;
            let a2 = if a < i { a } else { a + 1 };
            assert(t[a] == s[a2]);
            assert(s[a2].0@ != s[i].0@);
        }
        if keyed_map(s).contains_key(k) && k != s[i].0@ {
            let a = choose|a: int| 0 <= a < s.len() && (#[trigger] s[a]).0@ == k;
            let a2 = if a < i { a } else { a - 1 };
            assert(s[a] == t[a2]);
        }
    }
    assert(keyed_map(t) =~= keyed_map(s).remove(s[i].0@));
}

/// Replacing the value at `i` (under the same name) replaces it in the map.
pub proof fn lemma_keyed_update<V>(s: Seq<(String, V)>, i: int, v: V)
    requires
        unique_keys(s),
        0 <= i < s.len(),
    ensures
        unique_keys(s.update(i, (s[i].0, v))),
        keyed_map(s.update(i, (s[i].0, v))) == keyed_map(s).insert(s[i].0@, v),
{
    let t = s.update(i, (s[i].0, v));
    assert forall|a: int, b: int| 0 <= a < b < t.len() implies (#[trigger] t[a]).0@ != (#[trigger] t[b]).0@ by {
        assert(t[a].0 == s[a].0 && t[b].0 == s[b].0);
    }
    assert forall|k: Seq<char>| #[trigger] keyed_map(t).contains_key(k) == keyed_map(s).insert(s[i].0@, v).contains_key(k)
        && (keyed_map(t).contains_key(k) ==> keyed_map(t)[k] == keyed_map(s).insert(s[i].0@, v)[k]) by {
        lemma_keyed_map(s, k);
        lemma_keyed_map(t, k);
        assert(t[i].0@ == s[i].0@);
        if keyed_map(t).contains_key(k) {
            let a = choose|a: int| 0 <= a < t.len() && (#[trigger] t[a]).0@ == k;
            assert(t[a].0 == s[a].0);
        }
        if keyed_map(s).contains_key(k) {
            let a = choose|a: int| 0 <= a < s.len() && (#[trigger] s[a]).0@ == k;
            assert(t[a].0 == s[a].0);
        }
    }
    assert(keyed_map(t) =~= keyed_map(s).insert(s[i].0@, v));
}

/// Where the value named `k` is kept, if it is.
pub fn key_position<V>(v: &Vec<(String, V)>, k: &String) -> (r: Option<usize>)
    requires
        unique_keys(v@),
    ensures
        match r {
            Some(i) => i < v@.len() && v@[i as int].0@ == k@ && keyed_map(v@).contains_key(k@)
                && keyed_map(v@)[k@] == v@[i as int].1,
            None => !keyed_map(v@).contains_key(k@),
        },
{
    proof { lemma_keyed_map(v@, k@); }
    let n = v.len();
    for i in 0..n
        invariant
            n == v@.len(),
            unique_keys(v@),
            forall|j: int| 0 <= j < i ==> (#[trigger] v@[j]).0@ != k@,
    {
        if v[i].0 == *k {
            proof { lemma_keyed_map(v@, k@); }
            return Some(i);
        }
    }
    None
}

/// Keeps `val` under the name `k`: in place of the value named so, or else at the end.
pub fn put_keyed<V>(v: &mut Vec<(String, V)>, k: String, val: V)
    requires
        unique_keys(old(v)@),
    ensures
        unique_keys(final(v)@),
        keyed_map(final(v)@) == keyed_map(old(v)@).insert(k@, val),
{
    match key_position(v, &k) {
        Some(i) => {
            let ghost before = v@;
            proof { lemma_keyed_update(before, i as int, val); }
            let (name, _) = v.remove(i);
            v.insert(i, (name, val));
            assert(v@ == before.update(i as int, (before[i as int].0, val)));
        },
        None => {
            proof { lemma_keyed_push(v@, (k, val)); }
            v.push((k, val));
        },
    }
}

/// The names of a list of named values, in order.
pub fn key_names<V>(v: &Vec<(String, V)>) -> (names: Vec<String>)
    ensures
        names@.len() == v@.len(),
        forall|i: int| 0 <= i < v@.len() ==> (#[trigger] names@[i])@ == v@[i].0@,
{
    let mut names: Vec<String> = Vec::new();
    let n = v.len();
    for i in 0..n
        invariant
            n == v@.len(),
            names@.len() == i,
            forall|j: int| 0 <= j < i ==> (#[trigger] names@[j])@ == v@[j].0@,
    {
        names.push(v[i].0.clone());
    }
    names
}

} // verus!
