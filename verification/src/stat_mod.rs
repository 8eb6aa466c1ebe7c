use vstd::prelude::*;
use vstd::string::*;

verus! {

/// The modifiers of one stat: a running total, and each modifier under the key of where it
/// came from (a proficiency, a class bonus, ...). A modifier is kept in the order it was added.
pub struct StatMod {
    total: i32,
    map: Vec<(String, i32)>,
    temp_id: String,
    temp_amount: i32,
}

/// The map from key to value that a list of entries describes (a later entry wins).
pub open spec fn entries_map(s: Seq<(Seq<char>, i32)>) -> Map<Seq<char>, i32>
    decreases s.len(),
{
    if s.len() == 0 {
        Map::empty()
    } else {
        entries_map(s.drop_last()).insert(s.last().0, s.last().1)
    }
}

/// `s` without the entries whose key is `key`.
pub open spec fn without_key(s: Seq<(Seq<char>, i32)>, key: Seq<char>) -> Seq<(Seq<char>, i32)>
    decreases s.len(),
{
    if s.len() == 0 {
        s
    } else {
        let w = without_key(s.drop_last(), key);
        if s.last().0 == key { w } else { w.push(s.last()) }
    }
}

pub open spec fn unique_keys(s: Seq<(Seq<char>, i32)>) -> bool {
    forall|i: int, j: int| 0 <= i < j < s.len() ==> #[trigger] s[i].0 != #[trigger] s[j].0
}

pub open spec fn sum_values(s: Seq<(Seq<char>, i32)>) -> int
    decreases s.len(),
{
    if s.len() == 0 { 0 } else { sum_values(s.drop_last()) + s.last().1 }
}

proof fn lemma_without_map(s: Seq<(Seq<char>, i32)>, key: Seq<char>)
    ensures
        entries_map(without_key(s, key)) == entries_map(s).remove(key),
    decreases s.len(),
{
    if s.len() > 0 {
        let t = s.drop_last();
        lemma_without_map(t, key);
        let w = without_key(t, key);
        if s.last().0 == key {
            assert(entries_map(s).remove(key) =~= entries_map(t).remove(key));
        } else {
            assert(w.push(s.last()).drop_last() == w);
            assert(entries_map(w.push(s.last())) =~= entries_map(s).remove(key));
        }
    }
}

proof fn lemma_without_contains(s: Seq<(Seq<char>, i32)>, key: Seq<char>, p: (Seq<char>, i32))
    requires
        without_key(s, key).contains(p),
    ensures
        s.contains(p),
        p.0 != key,
    decreases s.len(),
{
    let t = s.drop_last();
    let w = without_key(t, key);
    if s.last().0 == key {
        lemma_without_contains(t, key, p);
        let k = choose|k: int| 0 <= k < t.len() && t[k] == p;
        assert(s[k] == p);
    } else {
        if p == s.last() {
            assert(s[s.len() - 1] == p);
        } else {
            let k = choose|k: int| 0 <= k < w.push(s.last()).len() && w.push(s.last())[k] == p;
            assert(w[k] == p);
            lemma_without_contains(t, key, p);
            let m = choose|m: int| 0 <= m < t.len() && t[m] == p;
            assert(s[m] == p);
        }
    }
}

proof fn lemma_without_unique(s: Seq<(Seq<char>, i32)>, key: Seq<char>)
    requires
        unique_keys(s),
    ensures
        unique_keys(without_key(s, key)),
        forall|i: int| 0 <= i < without_key(s, key).len() ==> #[trigger] without_key(s, key)[i].0 != key,
    decreases s.len(),
{
    if s.len() > 0 {
        let t = s.drop_last();
        assert(unique_keys(t));
        lemma_without_unique(t, key);
        let w = without_key(t, key);
        if s.last().0 != key {
            let r = w.push(s.last());
            assert forall|i: int, j: int| 0 <= i < j < r.len() implies #[trigger] r[i].0 != #[trigger] r[j].0 by {
                if j == r.len() - 1 {
                    assert(w.contains(w[i]));
                    lemma_without_contains(t, key, w[i]);
                    let k = choose|k: int| 0 <= k < t.len() && t[k] == w[i];
                    assert(s[k] == t[k]);
                }
            }
        }
    }
}

/// A key is in the map exactly when some entry has it.
proof fn lemma_map_key(s: Seq<(Seq<char>, i32)>, key: Seq<char>)
    ensures
        entries_map(s).contains_key(key) <==> exists|i: int| 0 <= i < s.len() && #[trigger] s[i].0 == key,
    decreases s.len(),
{
    if s.len() > 0 {
        let t = s.drop_last();
        lemma_map_key(t, key);
        if key == s.last().0 {
            assert(s[s.len() - 1].0 == key);
        } else {
            if entries_map(t).contains_key(key) {
                let i = choose|i: int| 0 <= i < t.len() && #[trigger] t[i].0 == key;
                assert(s[i].0 == key);
            }
            if exists|i: int| 0 <= i < s.len() && #[trigger] s[i].0 == key {
                let i = choose|i: int| 0 <= i < s.len() && #[trigger] s[i].0 == key;
                assert(i < s.len() - 1);
                assert(t[i].0 == key);
            }
        }
    }
}

impl StatMod {
    /// The modifiers, by key.
    pub closed spec fn modifiers(self) -> Map<Seq<char>, i32> {
        entries_map(self.entries())
    }

    /// The modifiers in the order they were added.
    pub closed spec fn entries(self) -> Seq<(Seq<char>, i32)> {
        self.map@.map_values(|p: (String, i32)| (p.0@, p.1))
    }

    pub closed spec fn spec_total(self) -> int {
        self.total as int
    }

    /// The modifier being typed in, not yet applied.
    pub closed spec fn pending(self) -> (Seq<char>, i32) {
        (self.temp_id@, self.temp_amount)
    }

    /// No key occurs twice, and the total is the sum of every modifier.
    pub closed spec fn wf(self) -> bool {
        &&& unique_keys(self.entries())
        &&& self.total as int == sum_values(self.entries())
    }

    /// A stat with no modifier; `initial` is the amount the modifier being typed in starts at.
    pub fn new(initial: i32) -> (m: Self)
        ensures
            m.wf(),
            m.spec_total() == 0,
            m.entries().len() == 0,
            m.modifiers() == Map::<Seq<char>, i32>::empty(),
            m.pending() == (Seq::<char>::empty(), initial),
    {
        let m = Self { total: 0, map: Vec::new(), temp_id: String::new(), temp_amount: initial };
        assert(m.entries() =~= Seq::empty());
        m
    }

    /// Returns the sum of all current modifiers.
    pub fn total(&self) -> (t: i32)
        ensures
            t == self.spec_total(),
            self.wf() ==> t == sum_values(self.entries()),
    {
        self.total
    }

    fn index_of(&self, key: &String) -> (r: Option<usize>)
        requires
            self.wf(),
        ensures
            r matches Some(i) ==> i < self.map@.len() && self.entries()[i as int].0 == key@,
            r is None ==> !self.modifiers().contains_key(key@),
            r matches Some(i) ==> self.modifiers().contains_key(key@) && self.modifiers()[key@] == self.entries()[i as int].1,
    {
        proof { lemma_map_key(self.entries(), key@); }
        let n = self.map.len();
        for i in 0..n
            invariant
                n == self.map@.len(),
                self.wf(),
                forall|j: int| 0 <= j < i ==> #[trigger] self.entries()[j].0 != key@,
        {
            assert(self.entries()[i as int] == (self.map@[i as int].0@, self.map@[i as int].1));
            if self.map[i].0 == *key {
                proof { lemma_unique_lookup(self.entries(), i as int); }
                return Some(i);
            }
        }
        assert(!(exists|i: int| 0 <= i < self.entries().len() && #[trigger] self.entries()[i].0 == key@));
        None
    }

    /// Removes a modifier with the given key, and returns the removed value.
    pub fn remove(&mut self, key: &str) -> (previous: Option<i32>)
        requires
            old(self).wf(),
            old(self).modifiers().contains_key(key@) ==> i32::MIN <= old(self).spec_total() - old(self).modifiers()[key@] <= i32::MAX,
        ensures
            final(self).wf(),
            final(self).modifiers() == old(self).modifiers().remove(key@),
            final(self).entries() == without_key(old(self).entries(), key@),
            old(self).entries().len() > 0 && old(self).entries().last().0 == key@
                ==> final(self).entries() == old(self).entries().drop_last(),
            final(self).pending() == old(self).pending(),
            previous == (if old(self).modifiers().contains_key(key@) { Some(old(self).modifiers()[key@]) } else { None::<i32> }),
            final(self).spec_total() == old(self).spec_total() - (match previous { Some(v) => v as int, None => 0 }),
    {
        let k = key.to_owned();
        let found = self.index_of(&k);
        proof {
            lemma_last_key_removed(self.entries(), key@);
            lemma_without_map(self.entries(), key@);
            lemma_without_unique(self.entries(), key@);
            lemma_without_sum(self.entries(), key@);
        }
        match found {
            None => {
                proof { lemma_without_absent(self.entries(), key@); }
                None
            },
            Some(i) => {
                let ghost before = self.entries();
                let value = self.map[i].1;
                let mut kept: Vec<(String, i32)> = Vec::new();
                let n = self.map.len();
                for j in 0..n
                    invariant
                        n == self.map@.len(),
                        self.entries() == before,
                        k@ == key@,
                        kept@.map_values(|p: (String, i32)| (p.0@, p.1)) == without_key(before.take(j as int), key@),
                {
                    let ghost kv = kept@.map_values(|p: (String, i32)| (p.0@, p.1));
                    proof {
                        assert(before.take(j + 1).drop_last() == before.take(j as int));
                        assert(before.take(j + 1).last() == before[j as int]);
                    }
                    assert(before[j as int] == (self.map@[j as int].0@, self.map@[j as int].1));
                    assert(without_key(before.take(j + 1), key@) == (if before[j as int].0 == key@ {
                        without_key(before.take(j as int), key@) } else {
                        without_key(before.take(j as int), key@).push(before[j as int]) }));
                    if !(self.map[j].0 == k) {
                        let entry = (self.map[j].0.clone(), self.map[j].1);
                        kept.push(entry);
                        assert(kept@.map_values(|p: (String, i32)| (p.0@, p.1)) == kv.push(before[j as int]));
                    } else {
                        assert(before[j as int].0 == key@);
                        assert(kept@.map_values(|p: (String, i32)| (p.0@, p.1)) == kv);
                    }
                }
                assert(before.take(n as int) == before);
                // The total drops by exactly the removed value, which the entries held.
                self.total = self.total - value;
                self.map = kept;
                Some(value)
            },
        }
    }

    /// Adds a modifier with the specified key, and returns the previous modifier at that key.
    pub fn add(&mut self, key: &str, value: i32) -> (previous: Option<i32>)
        requires
            old(self).wf(),
            old(self).modifiers().contains_key(key@) ==> i32::MIN <= old(self).spec_total() - old(self).modifiers()[key@] <= i32::MAX,
            i32::MIN <= old(self).spec_total() - (if old(self).modifiers().contains_key(key@) { old(self).modifiers()[key@] as int } else { 0 }) + value <= i32::MAX,
        ensures
            final(self).wf(),
            final(self).modifiers() == old(self).modifiers().insert(key@, value),
            final(self).entries() == without_key(old(self).entries(), key@).push((key@, value)),
            !old(self).modifiers().contains_key(key@) ==> final(self).entries() == old(self).entries().push((key@, value)),
            final(self).pending() == old(self).pending(),
            previous == (if old(self).modifiers().contains_key(key@) { Some(old(self).modifiers()[key@]) } else { None::<i32> }),
            final(self).spec_total() == old(self).spec_total() - (match previous { Some(v) => v as int, None => 0 }) + value,
    {
        proof {
            if !self.modifiers().contains_key(key@) {
                lemma_without_absent(self.entries(), key@);
            }
        }
        let previous = self.remove(key);
        let ghost mid = self.entries();
        proof {
            lemma_without_map(old(self).entries(), key@);
            lemma_without_unique(old(self).entries(), key@);
        }
        self.map.push((key.to_owned(), value));
        self.total = self.total + value;
        proof {
            assert(self.entries() == mid.push((key@, value)));
            assert forall|i: int, j: int| 0 <= i < j < self.entries().len()
                implies #[trigger] self.entries()[i].0 != #[trigger] self.entries()[j].0 by {
                if j == mid.len() {
                    assert(mid[i].0 != key@);
                }
            }
            assert(self.entries().drop_last() == mid);
            assert(self.modifiers() =~= old(self).modifiers().insert(key@, value));
        }
        previous
    }

    /// Returns true if there is a modifier at the given key.
    pub fn has_modifier(&self, key: &str) -> (b: bool)
        requires
            self.wf(),
        ensures
            b == self.modifiers().contains_key(key@),
            b == exists|i: int| 0 <= i < self.entries().len() && #[trigger] self.entries()[i].0 == key@,
    {
        proof { lemma_map_key(self.entries(), key@); }
        let k = key.to_owned();
        self.index_of(&k).is_some()
    }

    /// Every modifier, in the order they were added.
    pub fn view_all(&self) -> (all: Vec<(String, i32)>)
        ensures
            all@.map_values(|p: (String, i32)| (p.0@, p.1)) == self.entries(),
    {
        let mut all: Vec<(String, i32)> = Vec::new();
        let n = self.map.len();
        for i in 0..n
            invariant
                n == self.map@.len(),
                all@.map_values(|p: (String, i32)| (p.0@, p.1)) == self.entries().take(i as int),
        {
            let ghost before = all@;
            all.push((self.map[i].0.clone(), self.map[i].1));
            assert(all@ == before.push((self.map@[i as int].0, self.map@[i as int].1)));
            assert(all@.map_values(|p: (String, i32)| (p.0@, p.1)) == before.map_values(|p: (String, i32)| (p.0@, p.1)).push(self.entries()[i as int]));
            assert(all@.map_values(|p: (String, i32)| (p.0@, p.1)) == self.entries().take(i + 1));
        }
        assert(self.entries().take(n as int) == self.entries());
        all
    }

    /// The key and amount of the modifier being typed in, to be edited in place.
    pub fn new_mod_state(&mut self) -> (state: (&mut String, &mut i32))
        ensures
            ((*state.0)@, *state.1) == old(self).pending(),
            final(self).pending() == ((*final(state.0))@, *final(state.1)),
            final(self).entries() == old(self).entries(),
            final(self).spec_total() == old(self).spec_total(),
            final(self).wf() == old(self).wf(),
    {
        (&mut self.temp_id, &mut self.temp_amount)
    }

    /// Adds the modifier that was typed in, then clears the key and sets the amount to `reset_val`.
    pub fn apply_new_mod(&mut self, reset_val: i32)
        requires
            old(self).wf(),
            old(self).modifiers().contains_key(old(self).pending().0) ==> i32::MIN <= old(self).spec_total()
                - old(self).modifiers()[old(self).pending().0] <= i32::MAX,
            i32::MIN <= old(self).spec_total() - (if old(self).modifiers().contains_key(old(self).pending().0) {
                old(self).modifiers()[old(self).pending().0] as int } else { 0 }) + old(self).pending().1 <= i32::MAX,
        ensures
            final(self).wf(),
            final(self).modifiers() == old(self).modifiers().insert(old(self).pending().0, old(self).pending().1),
            final(self).entries() == without_key(old(self).entries(), old(self).pending().0).push(old(self).pending()),
            final(self).pending() == (Seq::<char>::empty(), reset_val),
            final(self).spec_total() == old(self).spec_total() - (if old(self).modifiers().contains_key(old(self).pending().0) {
                old(self).modifiers()[old(self).pending().0] as int } else { 0 }) + old(self).pending().1,
    {
        let id = self.temp_id.clone();
        let amount = self.temp_amount;
        self.add(id.as_str(), amount);
        self.temp_id = String::new();
        self.temp_amount = reset_val;
    }
}

/// The total of a stat is an `i32`.
pub proof fn total_fits(s: StatMod)
    ensures
        i32::MIN <= s.spec_total() <= i32::MAX,
{
}

/// Whether a stat holds a modifier at a key is whether one of its entries has that key, so a key
/// is held right after a modifier is added under it and not right after it is removed.
pub proof fn held_after_add_not_after_remove(a: StatMod, b: StatMod, c: StatMod, key: Seq<char>, v: i32)
    requires
        a.wf(),
        b.entries() == without_key(a.entries(), key).push((key, v)),
        c.entries() == without_key(a.entries(), key),
    ensures
        a.modifiers().contains_key(key) <==> exists|i: int| 0 <= i < a.entries().len() && #[trigger] a.entries()[i].0 == key,
        b.modifiers().contains_key(key),
        exists|i: int| 0 <= i < b.entries().len() && #[trigger] b.entries()[i].0 == key,
        !c.modifiers().contains_key(key),
        !exists|i: int| 0 <= i < c.entries().len() && #[trigger] c.entries()[i].0 == key,
{
    lemma_map_key(a.entries(), key);
    lemma_map_key(b.entries(), key);
    lemma_map_key(c.entries(), key);
    lemma_without_map(a.entries(), key);
    assert(b.entries().drop_last() == without_key(a.entries(), key));
    let n = b.entries().len() - 1;
    assert(b.entries()[n].0 == key);
}

/// An entry whose key is not `key` stays when `key` is taken out.
proof fn lemma_without_keeps(s: Seq<(Seq<char>, i32)>, key: Seq<char>, i: int)
    requires
        0 <= i < s.len(),
        s[i].0 != key,
    ensures
        without_key(s, key).contains(s[i]),
    decreases s.len(),
{
    let t = s.drop_last();
    let w = without_key(t, key);
    if i == s.len() - 1 {
        assert(w.push(s.last())[w.len() as int] == s[i]);
    } else {
        assert(t[i] == s[i]);
        lemma_without_keeps(t, key, i);
        if s.last().0 != key {
            let k = choose|k: int| 0 <= k < w.len() && w[k] == s[i];
            assert(w.push(s.last())[k] == s[i]);
        }
    }
}

/// Applying the modifier typed in puts the typed key and amount among the entries (in place of
/// any the key held), moves the total by the difference, and clears what is typed in to the
/// reset amount.
pub proof fn typed_modifier_applied(a: StatMod, b: StatMod, id: Seq<char>, amount: i32, reset_val: i32)
    requires
        a.wf(),
        a.pending() == (id, amount),
        b.entries() == without_key(a.entries(), id).push((id, amount)),
        b.spec_total() == a.spec_total() - (if a.modifiers().contains_key(id) { a.modifiers()[id] as int } else { 0 }) + amount,
        b.pending() == (Seq::<char>::empty(), reset_val),
    ensures
        b.wf(),
        b.modifiers() == a.modifiers().insert(id, amount),
        b.entries().last() == (id, amount),
        forall|i: int| 0 <= i < a.entries().len() && a.entries()[i].0 != id
            ==> b.entries().contains(#[trigger] a.entries()[i]),
        b.pending() == (Seq::<char>::empty(), reset_val),
{
    lemma_without_map(a.entries(), id);
    lemma_without_unique(a.entries(), id);
    lemma_without_sum(a.entries(), id);
    let w = without_key(a.entries(), id);
    assert(b.entries().drop_last() == w);
    assert forall|i: int, j: int| 0 <= i < j < b.entries().len()
        implies #[trigger] b.entries()[i].0 != #[trigger] b.entries()[j].0 by {
        if j == w.len() {
            assert(w.contains(w[i]));
            lemma_without_contains(a.entries(), id, w[i]);
        }
    }
    assert(b.modifiers() =~= a.modifiers().insert(id, amount));
    assert forall|i: int| 0 <= i < a.entries().len() && a.entries()[i].0 != id
        implies b.entries().contains(#[trigger] a.entries()[i]) by {
        lemma_without_keeps(a.entries(), id, i);
        let k = choose|k: int| 0 <= k < w.len() && w[k] == a.entries()[i];
        assert(b.entries()[k] == w[k]);
    }
}

/// Taking a key's entries out takes its value out of the sum.
proof fn lemma_without_sum(s: Seq<(Seq<char>, i32)>, key: Seq<char>)
    requires
        unique_keys(s),
    ensures
        sum_values(without_key(s, key)) == sum_values(s)
            - (if entries_map(s).contains_key(key) { entries_map(s)[key] as int } else { 0 }),
    decreases s.len(),
{
    if s.len() > 0 {
        let t = s.drop_last();
        assert(unique_keys(t)) by {
            assert forall|i: int, j: int| 0 <= i < j < t.len() implies #[trigger] t[i].0 != #[trigger] t[j].0 by {
                assert(t[i] == s[i] && t[j] == s[j]);
            }
        }
        lemma_without_sum(t, key);
        if s.last().0 == key {
            lemma_map_key(t, key);
            if entries_map(t).contains_key(key) {
                let i = choose|i: int| 0 <= i < t.len() && #[trigger] t[i].0 == key;
                assert(s[i].0 == s[s.len() - 1].0);
            }
            lemma_without_absent(t, key);
        } else {
            let w = without_key(t, key);
            assert(w.push(s.last()).drop_last() == w);
        }
    }
}

/// Adding a modifier under a key the stat does not hold and then removing it gives the value
/// back, and leaves the stat's modifiers (in the order they were added) and its total as they
/// were; the key is then held no more, so removing it again gives nothing.
pub proof fn add_then_remove_gives_back(a: StatMod, b: StatMod, c: StatMod, key: Seq<char>, v: i32)
    requires
        a.wf(),
        !a.modifiers().contains_key(key),
        b.entries() == without_key(a.entries(), key).push((key, v)),
        b.spec_total() == a.spec_total() + v,
        c.entries() == without_key(b.entries(), key),
        c.spec_total() == b.spec_total() - b.modifiers()[key],
    ensures
        b.modifiers().contains_key(key) && b.modifiers()[key] == v,
        c.entries() == a.entries(),
        c.spec_total() == a.spec_total(),
        !c.modifiers().contains_key(key),
{
    lemma_without_absent(a.entries(), key);
    let pushed = a.entries().push((key, v));
    assert(pushed.drop_last() == a.entries());
    assert(pushed.last() == (key, v));
    assert(without_key(pushed, key) == without_key(a.entries(), key));
}

/// With unique keys, taking out the key of the last entry takes out just that entry.
proof fn lemma_last_key_removed(s: Seq<(Seq<char>, i32)>, key: Seq<char>)
    requires
        unique_keys(s),
    ensures
        s.len() > 0 && s.last().0 == key ==> without_key(s, key) == s.drop_last(),
{
    if s.len() > 0 && s.last().0 == key {
        let t = s.drop_last();
        lemma_map_key(t, key);
        assert forall|i: int| 0 <= i < t.len() implies #[trigger] t[i].0 != key by {
            assert(s[i] == t[i]);
            assert(s[i].0 != s[s.len() - 1].0);
        }
        lemma_without_absent(t, key);
    }
}

proof fn lemma_without_absent(s: Seq<(Seq<char>, i32)>, key: Seq<char>)
    requires
        !entries_map(s).contains_key(key),
    ensures
        without_key(s, key) == s,
    decreases s.len(),
{
    if s.len() > 0 {
        let t = s.drop_last();
        assert(s.last().0 != key);
        assert(!entries_map(t).contains_key(key));
        lemma_without_absent(t, key);
        assert(s.drop_last().push(s.last()) == s);
    }
}

/// With unique keys, the map holds each entry's value under its key.
proof fn lemma_unique_lookup(s: Seq<(Seq<char>, i32)>, i: int)
    requires
        unique_keys(s),
        0 <= i < s.len(),
    ensures
        entries_map(s).contains_key(s[i].0),
        entries_map(s)[s[i].0] == s[i].1,
    decreases s.len(),
{
    let t = s.drop_last();
    if i < s.len() - 1 {
        assert(unique_keys(t));
        lemma_unique_lookup(t, i);
        assert(t[i] == s[i]);
        assert(s[i].0 != s[s.len() - 1].0);
    }
}

} // verus!
