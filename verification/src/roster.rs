use vstd::prelude::*;

use crate::combat::{Fight, Combatant, CombatantView, Owner, OwnerView};
use crate::map::Room;
use crate::party::Party;
use crate::text::nat_digits;

verus! {

/// A fighter of a fight as plain values: who controls it, and who it is.
pub type Member = (OwnerView, CombatantView);

/// The fighters of a fight.
pub open spec fn members(f: Fight) -> Set<Member> {
    f.combatants@.map_values(|p: (Owner, Combatant)| (p.0@, p.1@)).to_set()
}

/// No fighter is listed twice.
pub open spec fn listed_once(f: Fight) -> bool {
    forall|i: int, j: int| 0 <= i < j < f.combatants@.len()
        ==> ((#[trigger] f.combatants@[i]).0@, f.combatants@[i].1@) != ((#[trigger] f.combatants@[j]).0@, f.combatants@[j].1@)
}

/// Everything of a fight but its fighters.
pub open spec fn same_but_members(a: Fight, b: Fight) -> bool {
    &&& b.started == a.started
    &&& b.declarations == a.declarations
    &&& b.turn_order == a.turn_order
    &&& b.current_turn == a.current_turn
}

/// The enemy `index` of kind `type_id` in `room`, named after its kind: "Goblin", "Goblin 2", ...
pub open spec fn auto_enemy(room: Seq<char>, type_id: Seq<char>, index: int, kind: Seq<char>) -> CombatantView {
    CombatantView::Enemy {
        room,
        type_id,
        index: index as usize,
        display_name: if index == 0 { kind } else { kind + " "@ + nat_digits((index + 1) as nat) },
    }
}

/// The enemies of the groups `0..g` of `room` (and, of group `g`, those before `i`), each fighting for the DM.
pub open spec fn room_members_upto(room_id: Seq<char>, room: Room, g: int, i: int) -> Set<Member> {
    Set::new(|p: Member| exists|j: int, k: int|
        0 <= j < room.enemies@.len() && 0 <= k < room.enemies@[j].1.1@.len() && (j < g || (j == g && k < i))
        && #[trigger] auto_enemy(room_id, room.enemies@[j].0@, k, room.enemies@[j].1.0.name@) == p.1
        && p.0 == OwnerView::DM)
}

/// Every enemy of `room`, each fighting for the DM.
pub open spec fn room_members(room_id: Seq<char>, room: Room) -> Set<Member> {
    room_members_upto(room_id, room, room.enemies@.len() as int, 0)
}

/// The characters of the party's members `0..i`, each fighting for its player.
pub open spec fn party_members_upto(party: Party, i: int) -> Set<Member> {
    Set::new(|p: Member| exists|k: int| 0 <= k < i && k < party.members@.len()
        && p == (OwnerView::Player(#[trigger] party.members@[k].0@), CombatantView::PC { user: party.members@[k].0@, name: party.members@[k].1@ }))
}

/// The characters of the party's members, each fighting for its player.
pub open spec fn party_members(party: Party) -> Set<Member> {
    party_members_upto(party, party.members@.len() as int)
}

impl Fight {
    /// Adds a fighter; one already in the fight is not listed twice.
    pub fn add_combatant(&mut self, owner: Owner, combatant: Combatant)
        requires
            listed_once(*old(self)),
        ensures
            listed_once(*final(self)),
            members(*final(self)) == members(*old(self)).insert((owner@, combatant@)),
            same_but_members(*old(self), *final(self)),
    {
        let ghost pair = (owner@, combatant@);
        let ghost before = self.combatants@;
        let n = self.combatants.len();
        for i in 0..n
            invariant
                n == self.combatants@.len(),
                self.combatants@ == before,
                *self == *old(self),
                listed_once(*old(self)),
                pair == (owner@, combatant@),
                forall|j: int| 0 <= j < i ==> ((#[trigger] self.combatants@[j]).0@, self.combatants@[j].1@) != pair,
        {
            if self.combatants[i].0.same_as(&owner) && self.combatants[i].1.same_as(&combatant) {
                proof {
                    let v = before.map_values(|p: (Owner, Combatant)| (p.0@, p.1@));
                    assert(v[i as int] == (before[i as int].0@, before[i as int].1@));
                    assert(v[i as int] == pair);
                    assert(members(*self).contains(pair));
                    assert(members(*self).insert(pair) =~= members(*self));
                }
                return;
            }
        }
        let ghost v0 = before.map_values(|p: (Owner, Combatant)| (p.0@, p.1@));
        self.combatants.push((owner, combatant));
        proof {
            let v1 = self.combatants@.map_values(|p: (Owner, Combatant)| (p.0@, p.1@));
            assert(v1 == v0.push(pair));
            assert(v1.to_set() =~= v0.to_set().insert(pair)) by {
                assert forall|x: Member| v1.to_set().contains(x) == v0.to_set().insert(pair).contains(x) by {
                    if v1.contains(x) && x != pair {
                        let k = choose|k: int| 0 <= k < v1.len() && v1[k] == x;
                        assert(v0[k] == x);
                    }
                    if v0.contains(x) {
                        let k = choose|k: int| 0 <= k < v0.len() && v0[k] == x;
                        assert(v1[k] == x);
                    }
                    if x == pair {
                        assert(v1[v0.len() as int] == x);
                    }
                }
            }
        }
    }

    /// Takes a fighter out of the fight.
    pub fn remove_combatant(&mut self, owner: &Owner, combatant: &Combatant)
        requires
            listed_once(*old(self)),
        ensures
            listed_once(*final(self)),
            members(*final(self)) == members(*old(self)).remove((owner@, combatant@)),
            same_but_members(*old(self), *final(self)),
    {
        let ghost pair = (owner@, combatant@);
        let ghost before = self.combatants@;
        let ghost v0 = before.map_values(|p: (Owner, Combatant)| (p.0@, p.1@));
        let mut kept: Vec<(Owner, Combatant)> = Vec::new();
        let ghost mut from: Seq<int> = Seq::empty();
        let n = self.combatants.len();
        for i in 0..n
            invariant
                n == self.combatants@.len(),
                self.combatants@ == before,
                v0 == before.map_values(|p: (Owner, Combatant)| (p.0@, p.1@)),
                listed_once(*old(self)),
                old(self).combatants@ == before,
                from.len() == kept@.len(),
                forall|k: int| 0 <= k < from.len() ==> 0 <= #[trigger] from[k] < i && v0[from[k]] != pair
                    && (kept@[k].0@, kept@[k].1@) == v0[from[k]],
                forall|k: int, l: int| 0 <= k < l < from.len() ==> #[trigger] from[k] < #[trigger] from[l],
                forall|j: int| 0 <= j < i && v0[j] != pair ==> exists|k: int| 0 <= k < from.len() && #[trigger] from[k] == j,
                pair == (owner@, combatant@),
        {
            assert(v0[i as int] == (before[i as int].0@, before[i as int].1@));
            if !(self.combatants[i].0.same_as(owner) && self.combatants[i].1.same_as(combatant)) {
                kept.push((self.combatants[i].0.clone(), self.combatants[i].1.clone()));
                proof {
                    assert(v0[i as int] == (before[i as int].0@, before[i as int].1@));
                    let old_from = from;
                    from = from.push(i as int);
                    assert forall|j: int| 0 <= j < i + 1 && v0[j] != pair implies exists|k: int| 0 <= k < from.len() && #[trigger] from[k] == j by {
                        if j < i {
                            let k = choose|k: int| 0 <= k < old_from.len() && #[trigger] old_from[k] == j;
                            assert(from[k] == j);
                        } else {
                            assert(from[old_from.len() as int] == j);
                        }
                    }
                }
            } else {
                proof {
                    assert(v0[i as int] == pair);
                }
            }
        }
        self.combatants = kept;
        proof {
            let v1 = self.combatants@.map_values(|p: (Owner, Combatant)| (p.0@, p.1@));
            assert forall|k: int| 0 <= k < v1.len() implies #[trigger] v1[k] == v0[from[k]] by {}
            assert forall|i: int, j: int| 0 <= i < j < self.combatants@.len()
                implies ((#[trigger] self.combatants@[i]).0@, self.combatants@[i].1@) != ((#[trigger] self.combatants@[j]).0@, self.combatants@[j].1@) by {
                assert(v1[i] == v0[from[i]] && v1[j] == v0[from[j]]);
                assert(from[i] < from[j]);
                assert(v0[from[i]] == (before[from[i]].0@, before[from[i]].1@));
                assert(v0[from[j]] == (before[from[j]].0@, before[from[j]].1@));
            }
            assert forall|x: Member| v1.to_set().contains(x) == v0.to_set().remove(pair).contains(x) by {
                if v1.contains(x) {
                    let k = choose|k: int| 0 <= k < v1.len() && v1[k] == x;
                    assert(v0[from[k]] == x);
                }
                if v0.contains(x) && x != pair {
                    let j = choose|j: int| 0 <= j < v0.len() && v0[j] == x;
                    let k = choose|k: int| 0 <= k < from.len() && #[trigger] from[k] == j;
                    assert(v1[k] == x);
                }
            }
            assert(v1.to_set() =~= v0.to_set().remove(pair));
        }
    }

    /// Adds every enemy of a room, each fighting for the DM and named after its kind.
    pub fn add_room_enemies(&mut self, room_id: &String, room: &Room)
        requires
            listed_once(*old(self)),
            forall|j: int| 0 <= j < room.enemies@.len() ==> (#[trigger] room.enemies@[j]).1.1@.len() < usize::MAX,
        ensures
            listed_once(*final(self)),
            members(*final(self)) == members(*old(self)).union(room_members(room_id@, *room)),
            same_but_members(*old(self), *final(self)),
    {
        let groups = room.enemies.len();
        for g in 0..groups
            invariant
                groups == room.enemies@.len(),
                forall|j: int| 0 <= j < room.enemies@.len() ==> (#[trigger] room.enemies@[j]).1.1@.len() < usize::MAX,
                listed_once(*self),
                same_but_members(*old(self), *self),
                members(*self) == members(*old(self)).union(room_members_upto(room_id@, *room, g as int, 0)),
        {
            let count = room.enemies[g].1.1.len();
            assert(room_members_upto(room_id@, *room, g as int, 0) =~= room_members_upto(room_id@, *room, g as int, 0));
            for i in 0..count
                invariant
                    groups == room.enemies@.len(),
                    g < groups,
                    count == room.enemies@[g as int].1.1@.len(),
                    count < usize::MAX,
                    listed_once(*self),
                    same_but_members(*old(self), *self),
                    members(*self) == members(*old(self)).union(room_members_upto(room_id@, *room, g as int, i as int)),
            {
                let group = &room.enemies[g];
                let c = Combatant::enemy_auto_name(room_id.clone(), group.0.clone(), i, group.1.0.name.clone());
                let ghost m = (OwnerView::DM, c@);
                assert(c@ == auto_enemy(room_id@, room.enemies@[g as int].0@, i as int, room.enemies@[g as int].1.0.name@));
                self.add_combatant(Owner::DM, c);
                proof {
                    assert(room_members_upto(room_id@, *room, g as int, i + 1)
                        =~= room_members_upto(room_id@, *room, g as int, i as int).insert(m)) by {
                        assert forall|p: Member| #[trigger] room_members_upto(room_id@, *room, g as int, i + 1).contains(p)
                            implies room_members_upto(room_id@, *room, g as int, i as int).insert(m).contains(p) by {
                            let (j, k) = choose|j: int, k: int|
                                0 <= j < room.enemies@.len() && 0 <= k < room.enemies@[j].1.1@.len() && (j < g || (j == g && k < i + 1))
                                && #[trigger] auto_enemy(room_id@, room.enemies@[j].0@, k, room.enemies@[j].1.0.name@) == p.1
                                && p.0 == OwnerView::DM;
                            if !(j == g && k == i) {
                                assert(room_members_upto(room_id@, *room, g as int, i as int).contains(p));
                            }
                        }
                        assert forall|p: Member| #[trigger] room_members_upto(room_id@, *room, g as int, i as int).insert(m).contains(p)
                            implies room_members_upto(room_id@, *room, g as int, i + 1).contains(p) by {
                            if p == m {
                                assert(auto_enemy(room_id@, room.enemies@[g as int].0@, i as int, room.enemies@[g as int].1.0.name@) == p.1);
                            } else {
                                let (j, k) = choose|j: int, k: int|
                                    0 <= j < room.enemies@.len() && 0 <= k < room.enemies@[j].1.1@.len() && (j < g || (j == g && k < i))
                                    && #[trigger] auto_enemy(room_id@, room.enemies@[j].0@, k, room.enemies@[j].1.0.name@) == p.1
                                    && p.0 == OwnerView::DM;
                                assert(auto_enemy(room_id@, room.enemies@[j].0@, k, room.enemies@[j].1.0.name@) == p.1);
                            }
                        }
                    }
                    assert(members(*old(self)).union(room_members_upto(room_id@, *room, g as int, i as int)).insert(m)
                        =~= members(*old(self)).union(room_members_upto(room_id@, *room, g as int, i + 1)));
                }
            }
            proof {
                assert(room_members_upto(room_id@, *room, g + 1, 0) =~= room_members_upto(room_id@, *room, g as int, count as int)) by {
                    assert forall|p: Member| #[trigger] room_members_upto(room_id@, *room, g + 1, 0).contains(p)
                        implies room_members_upto(room_id@, *room, g as int, count as int).contains(p) by {
                        let (j, k) = choose|j: int, k: int|
                            0 <= j < room.enemies@.len() && 0 <= k < room.enemies@[j].1.1@.len() && (j < g + 1 || (j == g + 1 && k < 0))
                            && #[trigger] auto_enemy(room_id@, room.enemies@[j].0@, k, room.enemies@[j].1.0.name@) == p.1
                            && p.0 == OwnerView::DM;
                        assert(auto_enemy(room_id@, room.enemies@[j].0@, k, room.enemies@[j].1.0.name@) == p.1);
                    }
                    assert forall|p: Member| #[trigger] room_members_upto(room_id@, *room, g as int, count as int).contains(p)
                        implies room_members_upto(room_id@, *room, g + 1, 0).contains(p) by {
                        let (j, k) = choose|j: int, k: int|
                            0 <= j < room.enemies@.len() && 0 <= k < room.enemies@[j].1.1@.len() && (j < g || (j == g && k < count))
                            && #[trigger] auto_enemy(room_id@, room.enemies@[j].0@, k, room.enemies@[j].1.0.name@) == p.1
                            && p.0 == OwnerView::DM;
                        assert(auto_enemy(room_id@, room.enemies@[j].0@, k, room.enemies@[j].1.0.name@) == p.1);
                    }
                }
            }
        }
    }

    /// Adds the character of every member of a party, each fighting for its player.
    pub fn add_party(&mut self, party: &Party)
        requires
            listed_once(*old(self)),
        ensures
            listed_once(*final(self)),
            members(*final(self)) == members(*old(self)).union(party_members(*party)),
            same_but_members(*old(self), *final(self)),
    {
        let n = party.members.len();
        assert(party_members_upto(*party, 0) =~= Set::<Member>::empty());
        assert(members(*self).union(Set::<Member>::empty()) =~= members(*self));
        for i in 0..n
            invariant
                n == party.members@.len(),
                listed_once(*self),
                same_but_members(*old(self), *self),
                members(*self) == members(*old(self)).union(party_members_upto(*party, i as int)),
        {
            let user = party.members[i].0.clone();
            let name = party.members[i].1.clone();
            let ghost m = (OwnerView::Player(user@), CombatantView::PC { user: user@, name: name@ });
            self.add_combatant(Owner::Player(user.clone()), Combatant::pc(user, name));
            proof {
                assert(party_members_upto(*party, i + 1) =~= party_members_upto(*party, i as int).insert(m)) by {
                    assert forall|p: Member| #[trigger] party_members_upto(*party, i + 1).contains(p)
                        implies party_members_upto(*party, i as int).insert(m).contains(p) by {
                        let k = choose|k: int| 0 <= k < i + 1 && k < party.members@.len()
                            && p == (OwnerView::Player(#[trigger] party.members@[k].0@), CombatantView::PC { user: party.members@[k].0@, name: party.members@[k].1@ });
                        if k < i {
                            assert(party_members_upto(*party, i as int).contains(p));
                        }
                    }
                    assert forall|p: Member| #[trigger] party_members_upto(*party, i as int).insert(m).contains(p)
                        implies party_members_upto(*party, i + 1).contains(p) by {
                        if p != m {
                            let k = choose|k: int| 0 <= k < i && k < party.members@.len()
                                && p == (OwnerView::Player(#[trigger] party.members@[k].0@), CombatantView::PC { user: party.members@[k].0@, name: party.members@[k].1@ });
                            assert(0 <= k < i + 1);
                        } else {
                            assert(p == (OwnerView::Player(party.members@[i as int].0@), CombatantView::PC { user: party.members@[i as int].0@, name: party.members@[i as int].1@ }));
                        }
                    }
                }
                assert(members(*old(self)).union(party_members_upto(*party, i as int)).insert(m)
                    =~= members(*old(self)).union(party_members_upto(*party, i + 1)));
            }
        }
    }
}

} // verus!
