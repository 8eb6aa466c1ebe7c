use vstd::prelude::*;
use vstd::string::*;
use crate::keyed::unique_keys;

verus! {

/// The pieces of `s` between separators, as `str::split` gives them: `k` separators give
/// `k + 1` pieces, empty ones included. The separators are '/' and, when `backslash` holds, '\\'.
pub open spec fn path_parts(s: Seq<char>, backslash: bool) -> Seq<Seq<char>>
    decreases s.len(),
{
    if s.len() == 0 {
        seq![Seq::empty()]
    } else {
        let rest = path_parts(s.drop_last(), backslash);
        if is_separator(s.last(), backslash) {
            rest.push(Seq::empty())
        } else {
            rest.update(rest.len() - 1, rest.last().push(s.last()))
        }
    }
}

pub open spec fn is_separator(c: char, backslash: bool) -> bool {
    c == '/' || (backslash && c == '\\')
}

proof fn lemma_parts_not_empty(s: Seq<char>, backslash: bool)
    ensures
        path_parts(s, backslash).len() >= 1,
    decreases s.len(),
{
    if s.len() > 0 {
        lemma_parts_not_empty(s.drop_last(), backslash);
    }
}

/// Splits `path` into the pieces between separators.
pub fn split_path(path: &str, backslash: bool) -> (parts: Vec<String>)
    ensures
        parts@.map_values(|p: String| p@) == path_parts(path@, backslash),
{
    let len = path.unicode_len();
    let mut parts: Vec<String> = Vec::new();
    let mut start: usize = 0;
    proof {
        assert(path@.take(0) =~= Seq::<char>::empty());
        assert(parts@.map_values(|p: String| p@).push(path@.subrange(0, 0)) =~= seq![Seq::<char>::empty()]);
    }
    for i in 0..len
        invariant
            len == path@.len(),
            start <= i,
            parts@.map_values(|p: String| p@).push(path@.subrange(start as int, i as int))
                == path_parts(path@.take(i as int), backslash),
    {
        let c = path.get_char(i);
        let ghost before = parts@.map_values(|p: String| p@);
        proof {
            assert(path@.take(i + 1).drop_last() == path@.take(i as int));
            assert(path@.take(i + 1).last() == c);
            lemma_parts_not_empty(path@.take(i as int), backslash);
        }
        if c == '/' || (backslash && c == '\\') {
            let piece = path.substring_char(start, i).to_owned();
            parts.push(piece);
            start = i + 1;
            proof {
                assert(parts@.map_values(|p: String| p@) == before.push(piece@));
                assert(path@.subrange(start as int, i + 1) == Seq::<char>::empty());
            }
        } else {
            proof {
                assert(path@.subrange(start as int, i + 1) == path@.subrange(start as int, i as int).push(c));
                assert(before.push(path@.subrange(start as int, i + 1))
                    == before.push(path@.subrange(start as int, i as int)).update(before.len() as int, path@.subrange(start as int, i as int).push(c)));
            }
        }
    }
    let piece = path.substring_char(start, len).to_owned();
    let ghost before = parts@.map_values(|p: String| p@);
    parts.push(piece);
    proof {
        assert(path@.take(len as int) == path@);
        assert(parts@.map_values(|p: String| p@) == before.push(piece@));
    }
    parts
}

/// A tree-like data structure that holds values and folders of values.
pub struct Registry<T> {
    /// The top folder's entries, each under its name.
    pub tree: Vec<(String, RegistryNode<T>)>,
}

/// A value, or a folder of named entries.
pub enum RegistryNode<T> {
    Value(T),
    SubRegistry(Vec<(String, RegistryNode<T>)>),
}

/// Whether a node holds a folder whose names are unique at every depth (a value always does).
pub open spec fn node_names_unique<T>(n: RegistryNode<T>) -> bool
    decreases n,
{
    match n {
        RegistryNode::Value(_) => true,
        RegistryNode::SubRegistry(sub) => names_unique(sub@),
    }
}

/// No folder holds two entries of one name, at any depth.
pub open spec fn names_unique<T>(entries: Seq<(String, RegistryNode<T>)>) -> bool
    decreases entries,
{
    &&& unique_keys(entries)
    &&& forall|i: int| 0 <= i < entries.len() ==> node_names_unique(#[trigger] entries[i].1)
}

/// Putting an entry in place of the one at `j`, under the same name, keeps names unique.
proof fn lemma_names_update<T>(s: Seq<(String, RegistryNode<T>)>, j: int, e: (String, RegistryNode<T>))
    requires
        names_unique(s),
        0 <= j < s.len(),
        e.0@ == s[j].0@,
        node_names_unique(e.1),
    ensures
        names_unique(s.update(j, e)),
{
    let t = s.update(j, e);
    assert forall|a: int, b: int| 0 <= a < b < t.len() implies (#[trigger] t[a]).0@ != (#[trigger] t[b]).0@ by {
        assert(s[a].0@ != s[b].0@);
    }
    assert forall|a: int| 0 <= a < t.len() implies node_names_unique(#[trigger] t[a].1) by {
        if a != j {
            assert(t[a] == s[a]);
        }
    }
}

/// Adding an entry under a name no entry has keeps names unique.
proof fn lemma_names_push<T>(s: Seq<(String, RegistryNode<T>)>, e: (String, RegistryNode<T>))
    requires
        names_unique(s),
        forall|a: int| 0 <= a < s.len() ==> (#[trigger] s[a]).0@ != e.0@,
        node_names_unique(e.1),
    ensures
        names_unique(s.push(e)),
{
    let t = s.push(e);
    assert forall|a: int, b: int| 0 <= a < b < t.len() implies (#[trigger] t[a]).0@ != (#[trigger] t[b]).0@ by {
        if b == s.len() {
            assert(t[a] == s[a]);
        } else {
            assert(t[a] == s[a] && t[b] == s[b]);
        }
    }
    assert forall|a: int| 0 <= a < t.len() implies node_names_unique(#[trigger] t[a].1) by {
        if a < s.len() {
            assert(t[a] == s[a]);
        }
    }
}

/// The place of the first entry of `entries` named `key`.
pub open spec fn first_index<T>(entries: Seq<(String, RegistryNode<T>)>, key: Seq<char>) -> Option<int>
    decreases entries.len(),
{
    if entries.len() == 0 {
        None
    } else {
        match first_index(entries.drop_last(), key) {
            Some(i) => Some(i),
            None => if entries.last().0@ == key { Some(entries.len() - 1) } else { None },
        }
    }
}

/// The node reached by following `keys` from the folder with `entries`: each key names an
/// entry of the folder reached so far, and every key but the last a folder.
pub open spec fn find_node<T>(entries: Seq<(String, RegistryNode<T>)>, keys: Seq<Seq<char>>) -> Option<RegistryNode<T>>
    decreases keys.len(),
{
    if keys.len() == 0 {
        None
    } else {
        match first_index(entries, keys[0]) {
            None => None,
            Some(i) => if keys.len() == 1 {
                Some(entries[i].1)
            } else {
                match entries[i].1 {
                    RegistryNode::Value(_) => None,
                    RegistryNode::SubRegistry(sub) => find_node(sub@, keys.drop_first()),
                }
            },
        }
    }
}

/// Whether following `keys` meets a value before the last key.
pub open spec fn blocked<T>(entries: Seq<(String, RegistryNode<T>)>, keys: Seq<Seq<char>>) -> bool
    decreases keys.len(),
{
    if keys.len() <= 1 {
        false
    } else {
        match first_index(entries, keys[0]) {
            None => false,
            Some(i) => match entries[i].1 {
                RegistryNode::Value(_) => true,
                RegistryNode::SubRegistry(sub) => blocked(sub@, keys.drop_first()),
            },
        }
    }
}

/// `p` is a proper prefix of `q`.
pub open spec fn proper_prefix(p: Seq<Seq<char>>, q: Seq<Seq<char>>) -> bool {
    p.len() < q.len() && q.take(p.len() as int) == p
}

pub open spec fn is_folder<T>(n: Option<RegistryNode<T>>) -> bool {
    n matches Some(RegistryNode::SubRegistry(_))
}

/// `b` is what registering `value` along `keys` makes of `a`, when nothing blocks: the value at
/// `keys`, a folder at each key before it, nothing below it, and every other path as it was.
pub open spec fn registered<T>(a: Seq<(String, RegistryNode<T>)>, b: Seq<(String, RegistryNode<T>)>, keys: Seq<Seq<char>>, value: T) -> bool {
    &&& find_node(b, keys) == Some(RegistryNode::Value(value))
    &&& forall|p: Seq<Seq<char>>| #[trigger] proper_prefix(p, keys) && p.len() > 0 ==> is_folder(find_node(b, p))
    &&& forall|p: Seq<Seq<char>>| #[trigger] proper_prefix(keys, p) ==> find_node(b, p) is None
    &&& forall|p: Seq<Seq<char>>| p != keys && !proper_prefix(p, keys) && !proper_prefix(keys, p)
        ==> #[trigger] find_node(b, p) == find_node(a, p)
}

/// The names of `keys`.
pub open spec fn key_texts(keys: Seq<String>) -> Seq<Seq<char>> {
    keys.map_values(|k: String| k@)
}

proof fn lemma_first_index<T>(s: Seq<(String, RegistryNode<T>)>, k: Seq<char>)
    ensures
        match first_index(s, k) {
            Some(i) => 0 <= i < s.len() && s[i].0@ == k && forall|j: int| 0 <= j < i ==> (#[trigger] s[j]).0@ != k,
            None => forall|j: int| 0 <= j < s.len() ==> (#[trigger] s[j]).0@ != k,
        },
    decreases s.len(),
{
    if s.len() > 0 {
        lemma_first_index(s.drop_last(), k);
        assert forall|j: int| 0 <= j < s.len() - 1 implies s.drop_last()[j] == #[trigger] s[j] by {}
    }
}

/// `b` holds the entries of `a` in the same places under the same names, each one not named
/// `k` unchanged, and after them only entries named `k`.
pub open spec fn agrees_but<T>(a: Seq<(String, RegistryNode<T>)>, b: Seq<(String, RegistryNode<T>)>, k: Seq<char>) -> bool {
    &&& a.len() <= b.len()
    &&& forall|i: int| 0 <= i < a.len() ==> (#[trigger] b[i]).0@ == a[i].0@ && (b[i].0@ != k ==> b[i] == a[i])
    &&& forall|i: int| a.len() <= i < b.len() ==> (#[trigger] b[i]).0@ == k
}

/// Changing only entries named `k` leaves every path that starts elsewhere as it was.
proof fn lemma_find_elsewhere<T>(a: Seq<(String, RegistryNode<T>)>, b: Seq<(String, RegistryNode<T>)>, k: Seq<char>, p: Seq<Seq<char>>)
    requires
        agrees_but(a, b, k),
        p.len() > 0 ==> p[0] != k,
    ensures
        find_node(b, p) == find_node(a, p),
{
    if p.len() > 0 {
        let x = p[0];
        lemma_first_index(a, x);
        lemma_first_index(b, x);
        match first_index(a, x) {
            Some(i) => {
                assert(b[i].0@ == x);
                match first_index(b, x) {
                    Some(i2) => {
                        if i2 < i {
                            assert(b[i2].0@ == a[i2].0@);
                        }
                        if i < i2 {
                            assert(b[i].0@ == x);
                        }
                        assert(i2 == i);
                        assert(b[i] == a[i]);
                    },
                    None => {
                        assert(b[i].0@ != x);
                    },
                }
            },
            None => {
                match first_index(b, x) {
                    Some(i2) => {
                        if i2 < a.len() {
                            assert(a[i2].0@ == x);
                        } else {
                            assert(b[i2].0@ == k);
                        }
                    },
                    None => {},
                }
            },
        }
    }
}

fn entry_index<T>(entries: &Vec<(String, RegistryNode<T>)>, key: &String) -> (r: Option<usize>)
    ensures
        match r {
            Some(i) => first_index(entries@, key@) == Some(i as int),
            None => first_index(entries@, key@) is None,
        },
{
    proof { lemma_first_index(entries@, key@); }
    let n = entries.len();
    for i in 0..n
        invariant
            n == entries@.len(),
            forall|j: int| 0 <= j < i ==> (#[trigger] entries@[j]).0@ != key@,
            match first_index(entries@, key@) {
                Some(f) => 0 <= f < entries@.len() && entries@[f].0@ == key@ && forall|j: int| 0 <= j < f ==> (#[trigger] entries@[j]).0@ != key@,
                None => forall|j: int| 0 <= j < entries@.len() ==> (#[trigger] entries@[j]).0@ != key@,
            },
    {
        if entries[i].0 == *key {
            proof {
                match first_index(entries@, key@) {
                    Some(f) => {
                        if f < i { assert(entries@[f].0@ != key@); }
                        if i < f { assert(entries@[i as int].0@ != key@); }
                    },
                    None => { assert(entries@[i as int].0@ != key@); },
                }
            }
            return Some(i);
        }
    }
    proof {
        match first_index(entries@, key@) {
            Some(f) => { assert(entries@[f].0@ != key@); },
            None => {},
        }
    }
    None
}

impl<T> Registry<T> {
    /// No folder holds two entries of one name.
    pub open spec fn wf(&self) -> bool {
        names_unique(self.tree@)
    }

    pub fn new() -> (r: Self)
        ensures
            r.tree@.len() == 0,
            r.wf(),
    {
        Self { tree: Vec::new() }
    }

    /// Gets the node at the specified `path`: its pieces between '/' name an entry of each
    /// folder in turn.
    pub fn get(&self, path: &str) -> (r: Option<&RegistryNode<T>>)
        ensures
            match r {
                Some(n) => find_node(self.tree@, path_parts(path@, false)) == Some(*n),
                None => find_node(self.tree@, path_parts(path@, false)) is None,
            },
    {
        let split = split_path(path, false);
        let ghost keys = key_texts(split@);
        proof {
            assert(keys == path_parts(path@, false));
            lemma_parts_not_empty(path@, false);
        }
        let n = split.len();
        let mut current: &Vec<(String, RegistryNode<T>)> = &self.tree;
        let mut i: usize = 0;
        assert(keys.skip(0) == keys);
        while i < n
            invariant
                n == split@.len(),
                keys == key_texts(split@),
                keys == path_parts(path@, false),
                n >= 1,
                i < n,
                find_node(self.tree@, keys) == find_node(current@, keys.skip(i as int)),
            decreases n - i,
        {
            let ghost rest = keys.skip(i as int);
            assert(rest[0] == split@[i as int]@);
            match entry_index(current, &split[i]) {
                Some(j) => {
                    proof { lemma_first_index(current@, split@[i as int]@); }
                    assert(first_index(current@, rest[0]) == Some(j as int));
                    if i == n - 1 {
                        assert(rest.len() == 1);
                        assert(find_node(current@, rest) == Some(current@[j as int].1));
                        return Some(&current[j].1);
                    }
                    match &current[j].1 {
                        RegistryNode::Value(_) => {
                            assert(rest.len() > 1);
                            assert(find_node(current@, rest) is None);
                            return None;
                        },
                        RegistryNode::SubRegistry(map) => {
                            assert(rest.drop_first() == keys.skip(i + 1));
                            current = map;
                        },
                    }
                },
                None => {
                    return None;
                },
            }
            i = i + 1;
        }
        None
    }

    /// Gets the value at the node at `path`, if it exists.
    pub fn get_value(&self, path: &str) -> (r: Option<&T>)
        ensures
            match find_node(self.tree@, path_parts(path@, false)) {
                Some(RegistryNode::Value(v)) => r == Some(&v),
                _ => r is None,
            },
    {
        match self.get(path) {
            Some(node) => {
                match node {
                    RegistryNode::Value(value) => Some(value),
                    _ => None,
                }
            },
            None => None,
        }
    }

    /// Inserts a `value` at `path`, whose pieces are separated by '/' or '\\', making each
    /// missing folder on the way. Fails, changing nothing, when a value stands where a folder
    /// is needed.
    pub fn register(&mut self, path: &str, value: T) -> (r: Result<(), ()>)
        ensures
            r is Ok <==> !blocked(old(self).tree@, path_parts(path@, true)),
            r is Ok ==> registered(old(self).tree@, final(self).tree@, path_parts(path@, true), value),
            r is Err ==> *final(self) == *old(self),
            old(self).wf() ==> final(self).wf(),
    {
        let split = split_path(path, true);
        proof {
            lemma_parts_not_empty(path@, true);
            assert(key_texts(split@).skip(0) == path_parts(path@, true));
        }
        if is_blocked(&self.tree, &split, 0) {
            return Err(());
        }
        register_in(&mut self.tree, &split, 0, value);
        Ok(())
    }
}

/// Whether following the keys from the `i`-th on, in the folder with `entries`, meets a value
/// before the last key.
fn is_blocked<T>(entries: &Vec<(String, RegistryNode<T>)>, keys: &Vec<String>, i: usize) -> (b: bool)
    requires
        i < keys@.len(),
    ensures
        b == blocked(entries@, key_texts(keys@).skip(i as int)),
    decreases keys@.len() - i,
{
    let ghost ks = key_texts(keys@).skip(i as int);
    assert(ks[0] == keys@[i as int]@);
    if i >= keys.len() - 1 {
        return false;
    }
    assert(ks.drop_first() == key_texts(keys@).skip(i + 1));
    let found = entry_index(entries, &keys[i]);
    proof { lemma_first_index(entries@, keys@[i as int]@); }
    match found {
        None => false,
        Some(j) => match &entries[j].1 {
            RegistryNode::Value(_) => true,
            RegistryNode::SubRegistry(sub) => is_blocked(sub, keys, i + 1),
        },
    }
}

/// Registers `value` along the keys from the `i`-th on, in the folder with `entries`.
fn register_in<T>(entries: &mut Vec<(String, RegistryNode<T>)>, keys: &Vec<String>, i: usize, value: T) -> (ok: bool)
    requires
        i < keys@.len(),
    ensures
        ok == !blocked(old(entries)@, key_texts(keys@).skip(i as int)),
        ok ==> registered(old(entries)@, final(entries)@, key_texts(keys@).skip(i as int), value),
        names_unique(old(entries)@) ==> names_unique(final(entries)@),
    decreases keys@.len() - i,
{
    let ghost ks = key_texts(keys@).skip(i as int);
    let ghost before = entries@;
    let key = &keys[i];
    let ghost k = key@;
    assert(ks[0] == k);
    let found = entry_index(entries, key);
    proof { lemma_first_index(before, k); }
    let len = keys.len();
    if i + 1 == len {
        match found {
            Some(j) => {
                let _replaced = entries.remove(j);
                let e = (key.clone(), RegistryNode::Value(value));
                entries.insert(j, e);
                assert(entries@[j as int].0@ == k);
                proof {
                    assert(entries@ == before.update(j as int, e));
                    if names_unique(before) {
                        lemma_names_update(before, j as int, e);
                    }
                }
            },
            None => {
                let e = (key.clone(), RegistryNode::Value(value));
                entries.push(e);
                assert(entries@[before.len() as int].0@ == k);
                proof {
                    assert(entries@ == before.push(e));
                    if names_unique(before) {
                        lemma_names_push(before, e);
                    }
                }
            },
        }
        proof {
            assert(ks.len() == 1);
            let after = entries@;
            assert(agrees_but(before, after, k));
            lemma_first_index(after, k);
            assert(first_index(after, k) is Some);
            assert forall|p: Seq<Seq<char>>| #[trigger] proper_prefix(ks, p) implies find_node(after, p) is None by {
                assert(p[0] == ks[0]);
            }
            assert forall|p: Seq<Seq<char>>| p != ks && !proper_prefix(p, ks) && !proper_prefix(ks, p)
                implies #[trigger] find_node(after, p) == find_node(before, p) by {
                if p.len() > 0 && p[0] == k {
                    if p.len() == 1 {
                        assert(p == ks);
                    } else {
                        assert(p.take(1) == ks);
                    }
                }
                lemma_find_elsewhere(before, after, k, p);
            }
        }
        return true;
    }
    let j = match found {
        Some(j) => j,
        None => {
            let e = (key.clone(), RegistryNode::SubRegistry(Vec::new()));
            let ghost ge = e;
            entries.push(e);
            proof {
                assert(entries@ == before.push(ge));
                if names_unique(before) {
                    if let RegistryNode::SubRegistry(v) = ge.1 {
                        assert(v@.len() == 0);
                        assert(names_unique(v@));
                    }
                    lemma_names_push(before, ge);
                }
            }
            entries.len() - 1
        },
    };
    let ghost mid = entries@;
    proof {
        assert(agrees_but(before, mid, k));
        lemma_first_index(mid, k);
        assert(first_index(mid, k) == Some(j as int));
    }
    let (name, node) = entries.remove(j);
    match node {
        RegistryNode::Value(v) => {
            entries.insert(j, (name, RegistryNode::Value(v)));
            proof {
                assert(entries@ == mid);
                assert(found is Some);
                assert(mid == before);
            }
            false
        },
        RegistryNode::SubRegistry(mut sub) => {
            let ghost old_sub = sub@;
            let ok = register_in(&mut sub, keys, i + 1, value);
            entries.insert(j, (name, RegistryNode::SubRegistry(sub)));
            proof {
                let after = entries@;
                let rest = key_texts(keys@).skip(i + 1);
                assert(ks.drop_first() == rest);
                assert(after == mid.update(j as int, (name, RegistryNode::SubRegistry(sub))));
                assert(name == mid[j as int].0);
                if names_unique(before) {
                    assert(names_unique(mid));
                    assert(node_names_unique(mid[j as int].1));
                    assert(names_unique(old_sub));
                    lemma_names_update(mid, j as int, (name, RegistryNode::SubRegistry(sub)));
                }
                assert(agrees_but(before, after, k));
                lemma_first_index(after, k);
                match first_index(after, k) {
                    Some(f) => {
                        if f < j { assert(after[f] == mid[f]); }
                        if j < f { assert(after[j as int].0@ == k); }
                    },
                    None => { assert(after[j as int].0@ == k); },
                }
                assert(first_index(after, k) == Some(j as int));
                if found is None {
                    assert(old_sub.len() == 0);
                    assert forall|q: Seq<Seq<char>>| #[trigger] find_node(old_sub, q) is None by {
                        if q.len() > 0 { lemma_first_index(old_sub, q[0]); }
                    }
                    assert(!blocked(old_sub, rest)) by {
                        if rest.len() > 1 { lemma_first_index(old_sub, rest[0]); }
                    }
                }
                assert(ok == !blocked(before, ks));
                // Paths through the folder at `k` follow what happened inside it.
                assert forall|p: Seq<Seq<char>>| p.len() >= 2 && p[0] == k implies
                    #[trigger] find_node(after, p) == find_node(sub@, p.drop_first())
                    && find_node(before, p) == find_node(old_sub, p.drop_first()) by {
                    if found is None {
                        assert(first_index(before, k) is None);
                        assert(find_node(old_sub, p.drop_first()) is None);
                    }
                }
                if ok {
                    assert(find_node(after, ks) == find_node(sub@, rest));
                    assert forall|p: Seq<Seq<char>>| #[trigger] proper_prefix(p, ks) && p.len() > 0 implies is_folder(find_node(after, p)) by {
                        assert(p[0] == ks[0]);
                        if p.len() >= 2 {
                            assert(proper_prefix(p.drop_first(), rest)) by {
                                assert(rest.take(p.drop_first().len() as int) == p.drop_first());
                            }
                        }
                    }
                    assert forall|p: Seq<Seq<char>>| #[trigger] proper_prefix(ks, p) implies find_node(after, p) is None by {
                        assert(p[0] == ks[0]);
                        assert(proper_prefix(rest, p.drop_first())) by {
                            assert(p.drop_first().take(rest.len() as int) == rest);
                        }
                    }
                    assert forall|p: Seq<Seq<char>>| p != ks && !proper_prefix(p, ks) && !proper_prefix(ks, p)
                        implies #[trigger] find_node(after, p) == find_node(before, p) by {
                        if p.len() > 0 && p[0] == k {
                            if p.len() == 1 {
                                assert(proper_prefix(p, ks)) by { assert(ks.take(1) == p); }
                            } else {
                                let q = p.drop_first();
                                if q == rest {
                                    assert(p =~= seq![k] + q);
                                    assert(ks =~= seq![k] + rest);
                                }
                                if proper_prefix(q, rest) {
                                    assert(p =~= seq![k] + q);
                                    assert(ks =~= seq![k] + rest);
                                    assert(ks.take(p.len() as int) =~= seq![k] + rest.take(q.len() as int));
                                    assert(ks.take(p.len() as int) == p);
                                }
                                if proper_prefix(rest, q) {
                                    assert(p =~= seq![k] + q);
                                    assert(ks =~= seq![k] + rest);
                                    assert(p.take(ks.len() as int) =~= seq![k] + q.take(rest.len() as int));
                                    assert(p.take(ks.len() as int) == ks);
                                }
                            }
                        } else {
                            lemma_find_elsewhere(before, after, k, p);
                        }
                    }
                }
            }
            ok
        },
    }
}

/// Without backslashes, splitting on '/' alone or on both separators gives the same pieces.
proof fn lemma_parts_without_backslash(s: Seq<char>)
    requires
        !s.contains('\\'),
    ensures
        path_parts(s, true) == path_parts(s, false),
    decreases s.len(),
{
    if s.len() > 0 {
        assert(!s.drop_last().contains('\\')) by {
            if s.drop_last().contains('\\') {
                let i = choose|i: int| 0 <= i < s.drop_last().len() && s.drop_last()[i] == '\\';
                assert(s[i] == '\\');
            }
        }
        lemma_parts_without_backslash(s.drop_last());
        assert(s.last() != '\\') by {
            assert(s[s.len() - 1] == s.last());
        }
    }
}

/// What a successful `register` put at a path is what `get_value` finds there, for a path
/// without backslashes (which `get` does not treat as separators).
pub proof fn registered_value_is_read_back<T>(a: Registry<T>, b: Registry<T>, path: Seq<char>, value: T)
    requires
        !path.contains('\\'),
        registered(a.tree@, b.tree@, path_parts(path, true), value),
    ensures
        find_node(b.tree@, path_parts(path, false)) == Some(RegistryNode::Value(value)),
{
    lemma_parts_without_backslash(path);
}

/// The pieces of a path put back together with '/' between them.
pub open spec fn join_parts(parts: Seq<Seq<char>>) -> Seq<char>
    decreases parts.len(),
{
    if parts.len() == 0 {
        Seq::empty()
    } else if parts.len() == 1 {
        parts[0]
    } else {
        join_parts(parts.drop_last()) + seq!['/'] + parts.last()
    }
}

/// Splitting on '/' and joining again gives the path back.
proof fn lemma_join_split(s: Seq<char>)
    ensures
        join_parts(path_parts(s, false)) == s,
    decreases s.len(),
{
    if s.len() > 0 {
        let t = s.drop_last();
        lemma_join_split(t);
        lemma_parts_not_empty(t, false);
        let rest = path_parts(t, false);
        if is_separator(s.last(), false) {
            assert(path_parts(s, false) == rest.push(Seq::<char>::empty()));
            assert(rest.push(Seq::<char>::empty()).drop_last() == rest);
            assert(join_parts(rest) + seq!['/'] + Seq::<char>::empty() =~= s);
        } else {
            let n = rest.len() as int;
            let u = rest.update(n - 1, rest.last().push(s.last()));
            assert(path_parts(s, false) == u);
            if n == 1 {
                assert(join_parts(u) == rest[0].push(s.last()));
                assert(join_parts(rest) == rest[0]);
                assert(rest[0].push(s.last()) =~= s);
            } else {
                assert(u.drop_last() == rest.drop_last());
                assert(join_parts(u) == join_parts(rest.drop_last()) + seq!['/'] + rest.last().push(s.last()));
                assert(join_parts(rest.drop_last()) + seq!['/'] + rest.last().push(s.last())
                    =~= (join_parts(rest.drop_last()) + seq!['/'] + rest.last()).push(s.last()));
            }
        }
    }
}

/// Joining `p` followed by more pieces starts with `p` joined and a '/'.
proof fn lemma_join_extends(p: Seq<Seq<char>>, more: Seq<Seq<char>>)
    requires
        p.len() >= 1,
        more.len() >= 1,
    ensures
        (join_parts(p) + seq!['/']).is_prefix_of(join_parts(p + more)),
    decreases more.len(),
{
    let whole = p + more;
    assert(whole.drop_last() == p + more.drop_last());
    assert(whole.last() == more.last());
    if more.len() == 1 {
        assert(whole.drop_last() == p);
        assert(join_parts(whole) == join_parts(p) + seq!['/'] + more.last());
        let pre = join_parts(p) + seq!['/'];
        assert(join_parts(whole).subrange(0, pre.len() as int) =~= pre);
    } else {
        lemma_join_extends(p, more.drop_last());
        let pre = join_parts(p) + seq!['/'];
        let mid = join_parts(p + more.drop_last());
        assert(join_parts(whole) == mid + seq!['/'] + more.last());
        assert(mid.subrange(0, pre.len() as int) == pre);
        assert(join_parts(whole).subrange(0, pre.len() as int) =~= mid.subrange(0, pre.len() as int));
    }
}

/// With nothing blocking the way to `keys`, no proper prefix of them leads to a value.
proof fn lemma_unblocked_prefix<T>(entries: Seq<(String, RegistryNode<T>)>, keys: Seq<Seq<char>>, p: Seq<Seq<char>>)
    requires
        !blocked(entries, keys),
        proper_prefix(p, keys),
        p.len() > 0,
    ensures
        !(find_node(entries, p) matches Some(RegistryNode::Value(_))),
    decreases p.len(),
{
    assert(p[0] == keys[0]);
    match first_index(entries, keys[0]) {
        None => {},
        Some(i) => {
            if p.len() > 1 {
                match entries[i].1 {
                    RegistryNode::Value(_) => {},
                    RegistryNode::SubRegistry(sub) => {
                        assert(proper_prefix(p.drop_first(), keys.drop_first())) by {
                            assert(keys.drop_first().take(p.drop_first().len() as int) =~= p.drop_first());
                        }
                        lemma_unblocked_prefix(sub@, keys.drop_first(), p.drop_first());
                    },
                }
            } else {
                assert(keys.len() > 1);
            }
        },
    }
}

/// A successful `register` at `path` (without backslashes) keeps every value that `get_value`
/// found at another path `q`, except under `path` followed by '/'.
pub proof fn register_keeps_other_values<T>(a: Registry<T>, b: Registry<T>, path: Seq<char>, value: T, q: Seq<char>, x: T)
    requires
        !path.contains('\\'),
        !blocked(a.tree@, path_parts(path, true)),
        registered(a.tree@, b.tree@, path_parts(path, true), value),
        q != path,
        !(path + seq!['/']).is_prefix_of(q),
        find_node(a.tree@, path_parts(q, false)) == Some(RegistryNode::Value(x)),
    ensures
        find_node(b.tree@, path_parts(q, false)) == Some(RegistryNode::Value(x)),
{
    lemma_parts_without_backslash(path);
    let ks = path_parts(path, false);
    let p = path_parts(q, false);
    lemma_join_split(path);
    lemma_join_split(q);
    lemma_parts_not_empty(q, false);
    lemma_parts_not_empty(path, false);
    if p == ks {
        assert(q == path);
    }
    if proper_prefix(p, ks) {
        lemma_unblocked_prefix(a.tree@, ks, p);
    }
    if proper_prefix(ks, p) {
        let more = p.skip(ks.len() as int);
        assert(ks + more =~= p);
        lemma_join_extends(ks, more);
    }
}

} // verus!
