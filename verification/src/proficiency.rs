use vstd::prelude::*;
use vstd::string::*;

verus! {

/// Data representing a proficiency.
#[derive(Clone)]
pub struct Proficiency {
    pub name: String,
    pub description: String,
    pub is_general: bool,
    pub max_level: u8,
    pub requires_specification: bool,
    /// The specifications allowed, when they are limited; none occurs twice.
    pub valid_specifications: Option<Vec<String>>,
    pub starting_throw: Option<i32>,
}

impl Proficiency {
    pub fn new() -> (p: Self)
        ensures
            p.name@.len() == 0,
            p.description@.len() == 0,
            p.is_general,
            p.max_level == 0,
            !p.requires_specification,
            p.valid_specifications is None,
            p.starting_throw is None,
    {
        Self {
            name: String::new(),
            description: String::new(),
            is_general: true,
            max_level: 0,
            requires_specification: false,
            valid_specifications: None,
            starting_throw: None,
        }
    }
}

/// A *specific* proficiency for a character. This includes the specification (e.g. Craft(Jeweler)),
/// if present. It also stores the proficiency level, in the case that it was taken multiple times.
pub struct ProficiencyInstance {
    pub prof: Proficiency,
    pub prof_level: u8,
    pub specification: Option<String>,
    pub throw: Option<i32>,
}

/// The text of an optional string.
pub open spec fn opt_text(o: Option<String>) -> Option<Seq<char>> {
    match o {
        Some(s) => Some(s@),
        None => None,
    }
}

/// The numeral written after a proficiency taken `n` times (with its leading space); nothing
/// past ten.
pub open spec fn roman(n: int) -> Seq<char> {
    if n == 1 { " I"@ }
    else if n == 2 { " II"@ }
    else if n == 3 { " III"@ }
    else if n == 4 { " IV"@ }
    else if n == 5 { " V"@ }
    else if n == 6 { " VI"@ }
    else if n == 7 { " VII"@ }
    else if n == 8 { " VIII"@ }
    else if n == 9 { " IX"@ }
    else if n == 10 { " X"@ }
    else { ""@ }
}

impl ProficiencyInstance {
    /// A first level instance of `prof`, with an empty specification when it needs one.
    pub fn from_prof(prof: Proficiency) -> (p: Self)
        ensures
            p.prof == prof,
            p.prof_level == 0,
            p.specification == (if prof.requires_specification { Some(p.specification->0) } else { None }),
            prof.requires_specification ==> p.specification->0@.len() == 0,
            p.throw == prof.starting_throw,
    {
        let specification = if prof.requires_specification { Some(String::new()) } else { None };
        let throw = prof.starting_throw;
        Self { specification, prof_level: 0, throw, prof }
    }

    /// The text of the proficiency as a sheet shows it.
    pub open spec fn shown(self) -> Seq<char> {
        self.prof.name@ + match self.specification {
            Some(s) => " ("@ + s@ + ")"@,
            None => ""@,
        } + if self.prof_level > 0 { roman(self.prof_level + 1) } else { ""@ }
    }

    /// The name, the specification in brackets, and the level as a numeral when above the first.
    pub fn display(&self) -> (s: String)
        requires
            self.prof_level < u8::MAX,
        ensures
            s@ == self.shown(),
    {
        proof {
            reveal_strlit(" (");
            reveal_strlit(")");
            reveal_strlit("");
        }
        let mut s = self.prof.name.clone();
        match &self.specification {
            Some(spec) => {
                s.append(" (");
                s.append(spec.as_str());
                s.append(")");
            },
            None => {},
        }
        if self.prof_level > 0 {
            s.append(roman_numeral(self.prof_level + 1));
        }
        s
    }
}

fn roman_numeral(n: u8) -> (s: &'static str)
    ensures
        s@ == roman(n as int),
{
    proof {
        reveal_strlit(" I"); reveal_strlit(" II"); reveal_strlit(" III"); reveal_strlit(" IV");
        reveal_strlit(" V"); reveal_strlit(" VI"); reveal_strlit(" VII"); reveal_strlit(" VIII");
        reveal_strlit(" IX"); reveal_strlit(" X"); reveal_strlit("");
    }
    match n {
        1 => " I",
        2 => " II",
        3 => " III",
        4 => " IV",
        5 => " V",
        6 => " VI",
        7 => " VII",
        8 => " VIII",
        9 => " IX",
        10 => " X",
        _ => "",
    }
}

/// The key a proficiency is held under: its id and its specification.
pub open spec fn key_text(k: (String, Option<String>)) -> (Seq<char>, Option<Seq<char>>) {
    (k.0@, opt_text(k.1))
}

/// `b` holds `prof` under `key` in place of what `a` held there, or after all that `a` holds
/// when `a` held nothing there.
pub open spec fn inserted(a: Proficiencies, b: Proficiencies, key: (Seq<char>, Option<Seq<char>>), prof: ProficiencyInstance) -> bool {
    &&& b.wf()
    &&& b.general_slots == a.general_slots
    &&& b.class_slots == a.class_slots
    &&& if a.keys().contains(key) {
        exists|i: int| 0 <= i < a.keys().len() && a.keys()[i] == key
            && #[trigger] b.entries() == a.entries().update(i, (a.entries()[i].0, prof))
    } else {
        &&& b.entries().len() == a.entries().len() + 1
        &&& b.entries().drop_last() == a.entries()
        &&& key_text(b.entries().last().0) == key
        &&& b.entries().last().1 == prof
    }
}

/// `b` is `a` without what `a` held under `key`.
pub open spec fn taken_out(a: Proficiencies, b: Proficiencies, key: (Seq<char>, Option<Seq<char>>)) -> bool {
    &&& b.wf()
    &&& b.general_slots == a.general_slots
    &&& b.class_slots == a.class_slots
    &&& !b.keys().contains(key)
    &&& if a.keys().contains(key) {
        exists|i: int| 0 <= i < a.keys().len() && a.keys()[i] == key && #[trigger] b.entries() == a.entries().remove(i)
    } else {
        b.entries() == a.entries()
    }
}

/// Taking a proficiency under a key not held, and then giving up what is held under that key,
/// leaves the proficiencies as they were.
pub proof fn insert_then_remove_restores(a: Proficiencies, b: Proficiencies, c: Proficiencies,
    key: (Seq<char>, Option<Seq<char>>), prof: ProficiencyInstance)
    requires
        !a.keys().contains(key),
        inserted(a, b, key, prof),
        taken_out(b, c, key),
    ensures
        c.entries() == a.entries(),
        c.general_slots == a.general_slots,
        c.class_slots == a.class_slots,
{
    let n = a.entries().len() as int;
    assert(b.keys()[n] == key);
    assert(b.keys().contains(key));
    let i = choose|i: int| 0 <= i < b.keys().len() && b.keys()[i] == key && #[trigger] c.entries() == b.entries().remove(i);
    if i != n {
        assert(b.keys()[i] == b.keys()[n]);
    }
    assert(c.entries() =~= a.entries());
}

/// An object for holding proficiencies.
pub struct Proficiencies {
    pub general_slots: u8,
    pub class_slots: u8,
    /// The proficiencies held, each under its id and specification; no key occurs twice.
    pub profs: Vec<((String, Option<String>), ProficiencyInstance)>,
}

impl Proficiencies {
    /// The proficiencies held, with their keys, in the order they were taken.
    pub open spec fn entries(self) -> Seq<((String, Option<String>), ProficiencyInstance)> {
        self.profs@
    }

    /// The keys held, in the same order.
    pub open spec fn keys(self) -> Seq<(Seq<char>, Option<Seq<char>>)> {
        self.entries().map_values(|e: ((String, Option<String>), ProficiencyInstance)| key_text(e.0))
    }

    /// No key is held twice.
    pub open spec fn wf(self) -> bool {
        forall|i: int, j: int| 0 <= i < j < self.keys().len() ==> #[trigger] self.keys()[i] != #[trigger] self.keys()[j]
    }

    pub fn new() -> (p: Self)
        ensures
            p.wf(),
            p.general_slots == 0,
            p.class_slots == 0,
            p.entries().len() == 0,
    {
        Self { general_slots: 0, class_slots: 0, profs: Vec::new() }
    }

    /// The proficiencies held, with their keys.
    pub fn profs(&self) -> (v: &Vec<((String, Option<String>), ProficiencyInstance)>)
        ensures
            v@ == self.entries(),
    {
        &self.profs
    }

    /// Where the proficiency with the given id and specification is held.
    pub fn position(&self, id: &str, spec: &Option<String>) -> (r: Option<usize>)
        ensures
            match r {
                Some(i) => i < self.keys().len() && self.keys()[i as int] == (id@, opt_text(*spec)),
                None => !self.keys().contains((id@, opt_text(*spec))),
            },
    {
        let wanted = id.to_owned();
        let n = self.profs.len();
        for i in 0..n
            invariant
                n == self.profs@.len(),
                wanted@ == id@,
                forall|j: int| 0 <= j < i ==> #[trigger] self.keys()[j] != (id@, opt_text(*spec)),
        {
            let key = &self.profs[i].0;
            assert(self.keys()[i as int] == key_text(*key));
            if key.0 == wanted && same_text(&key.1, spec) {
                return Some(i);
            }
        }
        None
    }

    /// Whether the proficiency with the given id and specification is held.
    pub fn contains(&self, id: &str, spec: &Option<String>) -> (b: bool)
        ensures
            b == self.keys().contains((id@, opt_text(*spec))),
    {
        self.position(id, spec).is_some()
    }

    /// Holds `prof` under `key`, in place of what was held there, and gives back what was.
    pub fn insert(&mut self, key: (String, Option<String>), prof: ProficiencyInstance) -> (previous: Option<ProficiencyInstance>)
        requires
            old(self).wf(),
        ensures
            inserted(*old(self), *final(self), key_text(key), prof),
            final(self).wf(),
            final(self).general_slots == old(self).general_slots,
            final(self).class_slots == old(self).class_slots,
            match previous {
                Some(p) => exists|i: int| 0 <= i < old(self).keys().len()
                    && old(self).keys()[i] == key_text(key)
                    && old(self).entries()[i].1 == p
                    && final(self).entries() == old(self).entries().update(i, (old(self).entries()[i].0, prof)),
                None => !old(self).keys().contains(key_text(key))
                    && final(self).entries() == old(self).entries().push((key, prof)),
            },
    {
        let found = self.position(key.0.as_str(), &key.1);
        match found {
            Some(i) => {
                let ghost before = self.profs@;
                let (k, p) = self.profs.remove(i);
                self.profs.insert(i, (k, prof));
                proof {
                    assert(self.profs@ == before.update(i as int, (before[i as int].0, prof)));
                    assert(self.keys() =~= old(self).keys());
                    assert(old(self).keys().contains(key_text(key)));
                }
                Some(p)
            },
            None => {
                let ghost before = self.keys();
                self.profs.push((key, prof));
                proof {
                    assert(self.keys() =~= before.push(key_text(key)));
                    assert(self.entries().drop_last() =~= old(self).entries());
                }
                None
            },
        }
    }

    /// Gives up the proficiency held under `key`, if there is one.
    pub fn remove(&mut self, key: &(String, Option<String>)) -> (removed: Option<ProficiencyInstance>)
        requires
            old(self).wf(),
        ensures
            taken_out(*old(self), *final(self), key_text(*key)),
            final(self).wf(),
            final(self).general_slots == old(self).general_slots,
            final(self).class_slots == old(self).class_slots,
            match removed {
                Some(p) => exists|i: int| 0 <= i < old(self).keys().len()
                    && old(self).keys()[i] == key_text(*key)
                    && old(self).entries()[i].1 == p
                    && final(self).entries() == old(self).entries().remove(i),
                None => !old(self).keys().contains(key_text(*key)) && final(self).entries() == old(self).entries(),
            },
            !final(self).keys().contains(key_text(*key)),
    {
        let found = self.position(key.0.as_str(), &key.1);
        match found {
            Some(i) => {
                let ghost before = self.keys();
                let (_k, p) = self.profs.remove(i);
                proof {
                    assert(self.keys() =~= before.remove(i as int));
                    if self.keys().contains(key_text(*key)) {
                        let j = choose|j: int| 0 <= j < self.keys().len() && self.keys()[j] == key_text(*key);
                        if j < i {
                            assert(before[j] == before[i as int]);
                        } else {
                            assert(before[j + 1] == before[i as int]);
                        }
                    }
                }
                Some(p)
            },
            None => None,
        }
    }
}

/// Whether two optional strings hold the same text.
fn same_text(a: &Option<String>, b: &Option<String>) -> (r: bool)
    ensures
        r == (opt_text(*a) == opt_text(*b)),
{
    match (a, b) {
        (Some(x), Some(y)) => *x == *y,
        (None, None) => true,
        _ => false,
    }
}

} // verus!
