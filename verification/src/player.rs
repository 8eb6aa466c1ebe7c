use vstd::prelude::*;

use crate::character::{Attributes, Attr, Health, SavingThrows, score_modifier, saves_for, average_attributes};
use crate::class::{
    Class, HitDie, SavingThrowProgressionType, DivineValue, ArcaneValue, level_cost, level_cost_fits,
    attack_throw, divine_slots, arcane_slots, repertoire,
};
use crate::combat::{CombatantStats, DamageRoll, StatModifiers, StatusEffects, StatModType, added, can_add, saves_can_add, saves_can_remove, saves_added, saves_removed};
use crate::character::saves_of;
use crate::race::{RaceTable, standard_race, scores_rolled_as, race_score_rolls};
use crate::dice::{DiceRoll, Drop, ModifierType, possible_result, roll_value, all_in_range, sum_rolls, kept_rolls, round_div, abs};
use crate::enemy::AttackRoutine;
use crate::inventory::PlayerInventory;
use crate::proficiency::{Proficiency, Proficiencies, ProficiencyInstance, inserted, taken_out, opt_text, key_text};
use crate::race::Race;

verus! {

/// A divine caster's spells.
pub struct DivineSpellcaster {
    /// form is [(current, maximum); spell_level]
    pub spell_slots: [(u32, u32); 5],
    /// The spells known at each spell level; none twice at a level.
    pub spell_repertoire: [Vec<String>; 5],
}

/// An arcane caster's spells.
pub struct ArcaneSpellcaster {
    /// form is [(current, maximum); spell_level]
    pub spell_slots: [(u32, u32); 6],
    /// The spells known at each spell level (none twice at a level), and how many may be known.
    pub spell_repertoire: [(Vec<String>, u32); 6],
}

/// All the data for a player character, aside from their name. Essentially, this is everything
/// that would go on a character sheet.
pub struct PlayerCharacter {
    pub combat_stats: CombatantStats,
    pub race: Race,
    pub class: Class,
    pub title: String,
    pub level: u8,
    pub xp: u32,
    pub xp_to_level: u32,
    pub inventory: PlayerInventory,
    pub proficiencies: Proficiencies,
    pub divine_spells: Option<DivineSpellcaster>,
    pub arcane_spells: Option<ArcaneSpellcaster>,
    pub notes: String,
}

/// The faces of a hit die.
pub open spec fn die_sides(d: HitDie) -> u32 {
    match d {
        HitDie::D4 => 4,
        HitDie::D6 => 6,
        HitDie::D8 => 8,
        HitDie::D10 => 10,
        HitDie::D12 => 12,
    }
}

/// The roll of one hit die plus the constitution modifier (at least one).
pub open spec fn hit_die_roll(class: Class, attrs: Attributes) -> DiceRoll {
    DiceRoll::spec_simple(1, die_sides(class.hit_die), score_modifier(attrs.constitution as int) as i32, Drop::Nothing)
}

/// The fixed hit points gained per level past the ninth.
pub open spec fn late_hit_points(t: SavingThrowProgressionType) -> int {
    match t {
        SavingThrowProgressionType::Cleric | SavingThrowProgressionType::Mage => 1,
        SavingThrowProgressionType::Fighter | SavingThrowProgressionType::Thief => 2,
    }
}

/// Whether `hp` is what reaching `level` can give: a fixed amount past ninth level, else the
/// hit die roll.
pub open spec fn hit_points_gained(class: Class, level: int, attrs: Attributes, hp: int) -> bool {
    if level > 9 {
        hp == late_hit_points(class.saving_throw_progression_type)
    } else {
        possible_result(hit_die_roll(class, attrs), hp)
    }
}

/// The most hit points that reaching `level` can give.
pub open spec fn most_hit_points(class: Class, level: int, attrs: Attributes) -> int {
    if level > 9 {
        late_hit_points(class.saving_throw_progression_type)
    } else {
        let top = die_sides(class.hit_die) + score_modifier(attrs.constitution as int);
        if top < 1 { 1 } else { top }
    }
}

/// The general proficiency slots gained on reaching `level`.
pub open spec fn general_slot_gain(level: int) -> int {
    if level == 5 || level == 9 || level == 13 { 1 } else { 0 }
}

/// The class proficiency slots gained on reaching `level`.
pub open spec fn class_slot_gain(t: SavingThrowProgressionType, level: int) -> int {
    match t {
        SavingThrowProgressionType::Fighter => if level == 3 || level == 6 || level == 9 || level == 12 { 1 } else { 0 },
        SavingThrowProgressionType::Cleric | SavingThrowProgressionType::Thief => if level == 4 || level == 8 || level == 12 { 1 } else { 0 },
        SavingThrowProgressionType::Mage => if level == 6 || level == 12 { 1 } else { 0 },
    }
}

/// Class proficiency slots come every third level for a fighter, every fourth for a cleric or
/// a thief and every sixth for a mage, up to level 12: levelling up gains one exactly when the new
/// level is such a level.
pub proof fn class_slots_on_level_up(a: PlayerCharacter, b: PlayerCharacter)
    requires
        leveled(a, b),
        a.level < a.class.maximum_level,
    ensures
        b.level == a.level + 1,
        ({
            let every = match a.class.saving_throw_progression_type {
                SavingThrowProgressionType::Fighter => 3int,
                SavingThrowProgressionType::Cleric | SavingThrowProgressionType::Thief => 4int,
                SavingThrowProgressionType::Mage => 6int,
            };
            b.proficiencies.class_slots == a.proficiencies.class_slots
                + if b.level <= 12 && (b.level as int) % every == 0 { 1int } else { 0int }
        }),
{
    let hp = choose|hp: int| hit_points_gained(a.class, a.level + 1, a.combat_stats.attributes, hp) && #[trigger] leveled_with(a, b, hp);
    assert(leveled_with(a, b, hp));
    let l = b.level as int;
    assert(1 <= l);
    if l <= 12 {
        assert(l % 3 == 0 <==> (l == 3 || l == 6 || l == 9 || l == 12));
        assert(l % 4 == 0 <==> (l == 4 || l == 8 || l == 12));
        assert(l % 6 == 0 <==> (l == 6 || l == 12));
    }
}

/// Each slot count as a full pair (current, maximum).
pub open spec fn slot_pairs(s: Seq<u32>) -> Seq<(u32, u32)> {
    s.map_values(|x: u32| (x, x))
}

/// The divine spells after reaching `level`: full slots of that level, the same repertoire.
pub open spec fn divine_after(a: Option<DivineSpellcaster>, b: Option<DivineSpellcaster>, v: DivineValue, level: int) -> bool {
    match (a, b) {
        (Some(d), Some(e)) => e.spell_slots@ == slot_pairs(divine_slots(v, level)) && e.spell_repertoire == d.spell_repertoire,
        (None, None) => true,
        _ => false,
    }
}

/// The arcane spells after reaching `level`: full slots of that level, the same spells known,
/// and room for as many as the repertoire of that level allows.
pub open spec fn arcane_after(a: Option<ArcaneSpellcaster>, b: Option<ArcaneSpellcaster>, v: ArcaneValue, level: int, int_mod: int) -> bool {
    match (a, b) {
        (Some(d), Some(e)) => {
            &&& e.spell_slots@ == slot_pairs(arcane_slots(v, level))
            &&& forall|i: int| 0 <= i < 6 ==> (#[trigger] e.spell_repertoire@[i]).0 == d.spell_repertoire@[i].0
                && e.spell_repertoire@[i].1 == repertoire(arcane_slots(v, level), int_mod)[i]
        },
        (None, None) => true,
        _ => false,
    }
}

/// `b` is `a` one level up, having gained `hp` hit points.
pub open spec fn leveled_with(a: PlayerCharacter, b: PlayerCharacter, hp: int) -> bool {
    let level = a.level + 1;
    let t = a.class.saving_throw_progression_type;
    &&& b.level == level
    &&& b.combat_stats.health.max_hp == a.combat_stats.health.max_hp + hp
    &&& b.combat_stats.health.current_hp == b.combat_stats.health.max_hp as i32
    &&& b.combat_stats.saving_throws == saves_for(t, level as u8, average_attributes())
    &&& b.combat_stats.attack_throw == attack_throw(a.class.attack_throw_progression, level)
    &&& b.combat_stats.attributes == a.combat_stats.attributes
    &&& b.combat_stats.armor_class == a.combat_stats.armor_class
    &&& b.combat_stats.damage == a.combat_stats.damage
    &&& b.combat_stats.attack_index == a.combat_stats.attack_index
    &&& b.combat_stats.status_effects == a.combat_stats.status_effects
    &&& b.combat_stats.modifiers == a.combat_stats.modifiers
    &&& b.xp_to_level == level_cost(a.class.base_xp_cost as int, t, level)
    &&& b.title@ == a.class.titles.title(level)
    &&& b.proficiencies.general_slots == a.proficiencies.general_slots + general_slot_gain(level)
    &&& b.proficiencies.class_slots == a.proficiencies.class_slots + class_slot_gain(t, level)
    &&& b.proficiencies.profs == a.proficiencies.profs
    &&& divine_after(a.divine_spells, b.divine_spells, a.class.divine_value, level)
    &&& arcane_after(a.arcane_spells, b.arcane_spells, a.class.arcane_value, level,
            score_modifier(a.combat_stats.attributes.intelligence as int))
    &&& b.race == a.race
    &&& b.class == a.class
    &&& b.xp == a.xp
    &&& b.inventory == a.inventory
    &&& b.notes == a.notes
}

/// `b` is what levelling `a` up can give: `a` itself at the maximum level, else `a` one level
/// up with hit points its hit die can give.
pub open spec fn leveled(a: PlayerCharacter, b: PlayerCharacter) -> bool {
    if a.level >= a.class.maximum_level {
        b == a
    } else {
        exists|hp: int| hit_points_gained(a.class, a.level + 1, a.combat_stats.attributes, hp) && #[trigger] leveled_with(a, b, hp)
    }
}

/// Whether levelling `c` up keeps every count within its type, whatever the hit die gives.
pub open spec fn can_level_up(c: PlayerCharacter) -> bool {
    let level = c.level + 1;
    let t = c.class.saving_throw_progression_type;
    c.level < c.class.maximum_level ==> {
        &&& level_cost_fits(c.class.base_xp_cost as int, t, level)
        &&& c.combat_stats.health.max_hp + most_hit_points(c.class, level, c.combat_stats.attributes) <= u32::MAX
        &&& c.proficiencies.general_slots + general_slot_gain(level) <= u8::MAX
        &&& c.proficiencies.class_slots + class_slot_gain(t, level) <= u8::MAX
    }
}

/// The lowest modifier among the attributes `s` (not empty).
pub open spec fn least_modifier(attrs: Attributes, s: Seq<Attr>) -> int
    decreases s.len(),
{
    if s.len() <= 1 {
        score_modifier(attrs.score(s[0]) as int)
    } else {
        let m = least_modifier(attrs, s.drop_last());
        let x = score_modifier(attrs.score(s.last()) as int);
        if x < m { x } else { m }
    }
}

/// The experience bonus from the prime requisites, in tenths of a percent: five percent per
/// point of the lowest of their modifiers, nothing without prime requisites.
pub open spec fn prime_req_bonus(attrs: Attributes, reqs: Seq<Attr>) -> int {
    if reqs.len() == 0 { 0 } else { 50 * least_modifier(attrs, reqs) }
}

/// Full spell slots of nothing, and no spells known at any level.
pub open spec fn blank_divine(o: Option<DivineSpellcaster>) -> bool {
    match o {
        Some(d) => d.spell_slots@ == Seq::new(5, |i: int| (0u32, 0u32))
            && forall|i: int| 0 <= i < 5 ==> (#[trigger] d.spell_repertoire@[i])@.len() == 0,
        None => false,
    }
}

/// Full spell slots of nothing, and no spells known nor room for any at any level.
pub open spec fn blank_arcane(o: Option<ArcaneSpellcaster>) -> bool {
    match o {
        Some(d) => d.spell_slots@ == Seq::new(6, |i: int| (0u32, 0u32))
            && forall|i: int| 0 <= i < 6 ==> (#[trigger] d.spell_repertoire@[i]).0@.len() == 0 && d.spell_repertoire@[i].1 == 0,
        None => false,
    }
}

/// The modifier an attribute score gives, as the sheet stores it.
pub open spec fn modifier_of(a: u8) -> i32 {
    score_modifier(a as int) as i32
}

/// `m` is `a` made ready for its first level: saves of its level, the attribute modifiers put
/// on its stats, the prime requisite bonus on its experience, one class slot, one general
/// slot plus a positive intelligence modifier, and blank spellbooks for a caster class.
pub open spec fn prepared(a: PlayerCharacter, m: PlayerCharacter) -> bool {
    let attrs = a.combat_stats.attributes;
    let am = a.combat_stats.modifiers;
    let mm = m.combat_stats.modifiers;
    let str_mod = modifier_of(attrs.strength);
    let dex_mod = modifier_of(attrs.dexterity);
    let wis_mod = modifier_of(attrs.wisdom);
    let int_mod = score_modifier(attrs.intelligence as int);
    &&& m.combat_stats.saving_throws == saves_for(a.class.saving_throw_progression_type, a.level, average_attributes())
    &&& added(am.melee_attack, mm.melee_attack, "strength"@, str_mod)
    &&& added(am.melee_damage, mm.melee_damage, "strength"@, str_mod)
    &&& added(am.missile_attack, mm.missile_attack, "dexterity"@, dex_mod)
    &&& added(am.armor_class, mm.armor_class, "dexterity"@, dex_mod)
    &&& added(am.initiative, mm.initiative, "dexterity"@, dex_mod)
    &&& added(am.save_petrification_paralysis, mm.save_petrification_paralysis, "wisdom"@, wis_mod)
    &&& added(am.save_poison_death, mm.save_poison_death, "wisdom"@, wis_mod)
    &&& added(am.save_blast_breath, mm.save_blast_breath, "wisdom"@, wis_mod)
    &&& added(am.save_staffs_wands, mm.save_staffs_wands, "wisdom"@, wis_mod)
    &&& added(am.save_spells, mm.save_spells, "wisdom"@, wis_mod)
    &&& added(am.xp_gain, mm.xp_gain, "prime_reqs"@, prime_req_bonus(attrs, a.class.prime_reqs@) as i32)
    &&& mm.missile_damage == am.missile_damage
    &&& mm.surprise == am.surprise
    &&& m.proficiencies.class_slots == 1
    &&& m.proficiencies.general_slots == 1 + (if int_mod > 0 { int_mod } else { 0 })
    &&& m.proficiencies.profs == a.proficiencies.profs
    &&& if a.class.divine_value != DivineValue::Nothing { blank_divine(m.divine_spells) } else { m.divine_spells == a.divine_spells }
    &&& if a.class.arcane_value != ArcaneValue::Nothing { blank_arcane(m.arcane_spells) } else { m.arcane_spells == a.arcane_spells }
    &&& m.combat_stats.attributes == attrs
    &&& m.combat_stats.health == a.combat_stats.health
    &&& m.combat_stats.attack_throw == a.combat_stats.attack_throw
    &&& m.combat_stats.armor_class == a.combat_stats.armor_class
    &&& m.combat_stats.damage == a.combat_stats.damage
    &&& m.combat_stats.attack_index == a.combat_stats.attack_index
    &&& m.combat_stats.status_effects == a.combat_stats.status_effects
    &&& m.race == a.race
    &&& m.class == a.class
    &&& m.title == a.title
    &&& m.level == a.level
    &&& m.xp == a.xp
    &&& m.xp_to_level == a.xp_to_level
    &&& m.inventory == a.inventory
    &&& m.notes == a.notes
}

/// Whether making `a` ready keeps every modifier total within an `i32`, and levelling it up then
/// keeps every count within its type.
pub open spec fn can_prepare(a: PlayerCharacter) -> bool {
    let attrs = a.combat_stats.attributes;
    let am = a.combat_stats.modifiers;
    let level = a.level + 1;
    &&& can_add(am.melee_attack, "strength"@, modifier_of(attrs.strength))
    &&& can_add(am.melee_damage, "strength"@, modifier_of(attrs.strength))
    &&& can_add(am.missile_attack, "dexterity"@, modifier_of(attrs.dexterity))
    &&& can_add(am.armor_class, "dexterity"@, modifier_of(attrs.dexterity))
    &&& can_add(am.initiative, "dexterity"@, modifier_of(attrs.dexterity))
    &&& saves_can_add(am, "wisdom"@, modifier_of(attrs.wisdom))
    &&& can_add(am.xp_gain, "prime_reqs"@, prime_req_bonus(attrs, a.class.prime_reqs@) as i32)
    &&& a.level < a.class.maximum_level ==> {
        &&& level_cost_fits(a.class.base_xp_cost as int, a.class.saving_throw_progression_type, level)
        &&& a.combat_stats.health.max_hp + most_hit_points(a.class, level, attrs) <= u32::MAX
    }
}

/// The experience an award of `amount` brings with a bonus of `per_mille` tenths of a percent:
/// the amount plus its bonus part rounded to the nearest point (halves away from zero), as an
/// `i32` sum kept in the sheet's `u32` counter.
pub open spec fn xp_award(amount: u32, per_mille: int) -> u32 {
    ((amount as i32) as int + round_div(amount * per_mille, 1000)) as u32
}

/// Whether the bonus part and the sum fit in an `i32`.
pub open spec fn award_fits(amount: u32, per_mille: int) -> bool {
    let bonus = round_div(amount * per_mille, 1000);
    &&& i32::MIN <= bonus <= i32::MAX
    &&& i32::MIN <= (amount as i32) as int + bonus <= i32::MAX
}

/// The level at which levelling up stops for a character of `class` at `level` with `xp`
/// experience: the first level after `level` whose cost `xp` does not reach, or the maximum.
pub open spec fn stop_level(class: Class, xp: int, level: int) -> int
    decreases class.maximum_level - level,
{
    if level >= class.maximum_level {
        level
    } else if xp < level_cost(class.base_xp_cost as int, class.saving_throw_progression_type, level + 1) {
        level + 1
    } else {
        stop_level(class, xp, level + 1)
    }
}

/// The most hit points that going from `from` to `to` can give.
pub open spec fn hp_room(class: Class, attrs: Attributes, from: int, to: int) -> int
    decreases to - from,
{
    if from >= to { 0 } else { most_hit_points(class, from + 1, attrs) + hp_room(class, attrs, from + 1, to) }
}

/// The general slots gained going from `from` to `to`.
pub open spec fn general_room(from: int, to: int) -> int
    decreases to - from,
{
    if from >= to { 0 } else { general_slot_gain(from + 1) + general_room(from + 1, to) }
}

/// The class slots gained going from `from` to `to`.
pub open spec fn class_room(t: SavingThrowProgressionType, from: int, to: int) -> int
    decreases to - from,
{
    if from >= to { 0 } else { class_slot_gain(t, from + 1) + class_room(t, from + 1, to) }
}

/// Whether levelling `c` up to `target` keeps every count within its type, whatever the hit
/// dice give.
pub open spec fn can_level_to(c: PlayerCharacter, target: int) -> bool {
    let t = c.class.saving_throw_progression_type;
    &&& forall|l: int| c.level < l <= target ==> #[trigger] level_cost_fits(c.class.base_xp_cost as int, t, l)
    &&& c.combat_stats.health.max_hp + hp_room(c.class, c.combat_stats.attributes, c.level as int, target) <= u32::MAX
    &&& c.proficiencies.general_slots + general_room(c.level as int, target) <= u8::MAX
    &&& c.proficiencies.class_slots + class_room(t, c.level as int, target) <= u8::MAX
}

/// `chain` runs from `a` to `b` in `n` level ups, one per step.
pub open spec fn level_chain(chain: Seq<PlayerCharacter>, a: PlayerCharacter, b: PlayerCharacter, n: nat) -> bool {
    &&& chain.len() == n + 1
    &&& chain[0] == a
    &&& chain[n as int] == b
    &&& forall|i: int| 0 <= i < n ==> leveled(#[trigger] chain[i], chain[i + 1])
}

/// `b` is `a` after `n` level ups.
pub open spec fn leveled_times(a: PlayerCharacter, b: PlayerCharacter, n: nat) -> bool {
    exists|chain: Seq<PlayerCharacter>| #[trigger] level_chain(chain, a, b, n)
}

/// The level an award takes `c` to once its experience is `xp`: none gained while short of
/// the cost of the next level, else up to where levelling stops.
pub open spec fn award_level(c: PlayerCharacter, xp: int) -> int {
    if xp < c.xp_to_level { c.level as int } else { stop_level(c.class, xp, c.level as int) }
}

/// Whether an award keeps levelling up from going on for ever: the experience falls short of
/// what the next level costs, or the class has levels left and levelling stops short of the
/// cost of the level it stops at.
pub open spec fn award_ends(c: PlayerCharacter, xp: int) -> bool {
    xp < c.xp_to_level || (c.level < c.class.maximum_level
        && xp < level_cost(c.class.base_xp_cost as int, c.class.saving_throw_progression_type, stop_level(c.class, xp, c.level as int)))
}

proof fn lemma_stop_level(class: Class, xp: int, level: int)
    requires
        level < class.maximum_level,
    ensures
        level < stop_level(class, xp, level) <= class.maximum_level,
        forall|l: int| level < l < stop_level(class, xp, level) ==>
            xp >= #[trigger] level_cost(class.base_xp_cost as int, class.saving_throw_progression_type, l),
        stop_level(class, xp, level) < class.maximum_level ==>
            xp < level_cost(class.base_xp_cost as int, class.saving_throw_progression_type, stop_level(class, xp, level)),
        forall|l: int| level < l < stop_level(class, xp, level) ==> #[trigger] stop_level(class, xp, l) == stop_level(class, xp, level),
    decreases class.maximum_level - level,
{
    let t = class.saving_throw_progression_type;
    let base = class.base_xp_cost as int;
    if xp >= level_cost(base, t, level + 1) {
        assert(stop_level(class, xp, level) == stop_level(class, xp, level + 1));
        if level + 1 < class.maximum_level {
            lemma_stop_level(class, xp, level + 1);
        } else {
            assert(stop_level(class, xp, level + 1) == level + 1);
        }
    }
}

proof fn lemma_rooms(c: Class, attrs: Attributes, from: int, to: int)
    ensures
        hp_room(c, attrs, from, to) >= 0,
        general_room(from, to) >= 0,
        class_room(c.saving_throw_progression_type, from, to) >= 0,
    decreases to - from,
{
    if from < to {
        lemma_rooms(c, attrs, from + 1, to);
    }
}

proof fn lemma_most_hit_points(class: Class, level: int, attrs: Attributes, hp: int)
    requires
        hit_points_gained(class, level, attrs, hp),
    ensures
        1 <= hp <= most_hit_points(class, level, attrs),
{
    if level <= 9 {
        lemma_one_die_range(hit_die_roll(class, attrs), hp);
    }
}

/// Whether `id` names the proficiency that blesses every save.
pub open spec fn is_blessing(id: Seq<char>) -> bool {
    id == "divine_blessing"@
}

/// The text of an optional string slice.
pub open spec fn str_opt_text(o: Option<&str>) -> Option<Seq<char>> {
    match o {
        Some(s) => Some(s@),
        None => None,
    }
}

/// `b` is `a` with at most its proficiencies and stat modifiers changed.
pub open spec fn same_but_proficiencies(a: PlayerCharacter, b: PlayerCharacter) -> bool {
    &&& b.combat_stats.attributes == a.combat_stats.attributes
    &&& b.combat_stats.health == a.combat_stats.health
    &&& b.combat_stats.attack_throw == a.combat_stats.attack_throw
    &&& b.combat_stats.armor_class == a.combat_stats.armor_class
    &&& b.combat_stats.damage == a.combat_stats.damage
    &&& b.combat_stats.attack_index == a.combat_stats.attack_index
    &&& b.combat_stats.saving_throws == a.combat_stats.saving_throws
    &&& b.combat_stats.status_effects == a.combat_stats.status_effects
    &&& b.race == a.race
    &&& b.class == a.class
    &&& b.title == a.title
    &&& b.level == a.level
    &&& b.xp == a.xp
    &&& b.xp_to_level == a.xp_to_level
    &&& b.inventory == a.inventory
    &&& b.divine_spells == a.divine_spells
    &&& b.arcane_spells == a.arcane_spells
    &&& b.notes == a.notes
}

/// `b` is `a` after taking `prof` under `id` (and its specification): the proficiency held,
/// divine blessing's 2 on every save.
pub open spec fn prof_added(a: PlayerCharacter, b: PlayerCharacter, id: Seq<char>, prof: ProficiencyInstance) -> bool {
    &&& inserted(a.proficiencies, b.proficiencies, (id, opt_text(prof.specification)), prof)
    &&& if is_blessing(id) {
        saves_added(a.combat_stats.modifiers, b.combat_stats.modifiers, "divine_blessing"@, 2)
    } else {
        b.combat_stats.modifiers == a.combat_stats.modifiers
    }
    &&& same_but_proficiencies(a, b)
}

/// `b` is `a` after giving up what it held under `key`, with divine blessing's bonus taken off
/// every save.
pub open spec fn prof_removed(a: PlayerCharacter, b: PlayerCharacter, key: (Seq<char>, Option<Seq<char>>)) -> bool {
    &&& taken_out(a.proficiencies, b.proficiencies, key)
    &&& if is_blessing(key.0) && a.proficiencies.keys().contains(key) {
        saves_removed(a.combat_stats.modifiers, b.combat_stats.modifiers, "divine_blessing"@)
    } else {
        b.combat_stats.modifiers == a.combat_stats.modifiers
    }
    &&& same_but_proficiencies(a, b)
}

/// `b` is `a` also knowing `spell` at the first arcane level: added there when `a` casts arcane
/// spells and does not know it yet; otherwise `b` is `a`.
pub open spec fn spell_learned(a: PlayerCharacter, b: PlayerCharacter, spell: Seq<char>) -> bool {
    match a.arcane_spells {
        Some(arc) => {
            let known = crate::commands::texts(arc.spell_repertoire@[0].0@);
            &&& b.arcane_spells matches Some(barc) && {
                &&& barc.spell_slots == arc.spell_slots
                &&& barc.spell_repertoire@[0].1 == arc.spell_repertoire@[0].1
                &&& forall|i: int| 1 <= i < 6 ==> #[trigger] barc.spell_repertoire@[i] == arc.spell_repertoire@[i]
                &&& crate::commands::texts(barc.spell_repertoire@[0].0@)
                    == if known.contains(spell) { known } else { known.push(spell) }
            }
            &&& b == (PlayerCharacter { arcane_spells: b.arcane_spells, ..a })
        },
        None => b == a,
    }
}

/// `b` is `a` given a first level instance `inst` of `prof`, when there is one; else `b` is `a`.
pub open spec fn first_instance(prof: Option<Proficiency>, inst: ProficiencyInstance, a: PlayerCharacter, b: PlayerCharacter) -> bool {
    match prof {
        Some(p) => {
            &&& inst.prof == p
            &&& inst.prof_level == 0
            &&& inst.throw == p.starting_throw
            &&& inst.specification == (if p.requires_specification { Some(inst.specification->0) } else { None })
            &&& p.requires_specification ==> inst.specification->0@.len() == 0
            &&& prof_added(a, b, "adventuring"@, inst)
        },
        None => b == a,
    }
}

/// `b` is the character `a` readied for play: prepared and taken to its next level, given a
/// first level instance of the adventuring proficiency when there is one, and knowing
/// `first_spell` at the first arcane level when there is one.
pub open spec fn set_up_as(a: PlayerCharacter, b: PlayerCharacter, adventuring: Option<Proficiency>, first_spell: Option<String>) -> bool {
    exists|m: PlayerCharacter, n: PlayerCharacter, o: PlayerCharacter, inst: ProficiencyInstance|
        #![trigger prepared(a, m), leveled(m, n), first_instance(adventuring, inst, n, o)]
        prepared(a, m) && leveled(m, n) && first_instance(adventuring, inst, n, o)
        && match first_spell { Some(k) => spell_learned(o, b, k@), None => b == o }
}

/// A character as `random` makes it: its race and attribute scores rolled, everything else
/// blank, at level zero and of the default class.
pub open spec fn is_rolled(p: PlayerCharacter) -> bool {
    &&& exists|r: int| possible_result(DiceRoll::spec_simple(1, 100, 0, Drop::Nothing), r) && p.race == standard_race(r)
    &&& scores_rolled_as(p.combat_stats.attributes, race_score_rolls(p.race))
    &&& p.combat_stats.health == (Health { max_hp: 0, current_hp: 0 })
    &&& p.combat_stats.attack_throw == 10
    &&& p.combat_stats.armor_class == 0
    &&& p.combat_stats.damage == AttackRoutine::One(DamageRoll::spec_default())
    &&& p.combat_stats.attack_index == 0
    &&& p.combat_stats.saving_throws == saves_of(0, 0, 0, 0, 0)
    &&& p.combat_stats.status_effects@.is_empty()
    &&& p.combat_stats.modifiers.wf()
    &&& forall|t: StatModType| (#[trigger] p.combat_stats.modifiers.of(t)).spec_total() == 0 && p.combat_stats.modifiers.of(t).modifiers().is_empty()
    &&& p.combat_stats.modifiers.xp_gain.spec_total() == 0
    &&& p.combat_stats.modifiers.xp_gain.modifiers().is_empty()
    &&& p.class.is_default()
    &&& p.title@.len() == 0
    &&& p.level == 0
    &&& p.xp == 0
    &&& p.xp_to_level == 0
    &&& p.inventory.wf()
    &&& p.inventory.spec_items().len() == 0
    &&& p.inventory.spec_weight() == 0
    &&& p.proficiencies.wf()
    &&& p.proficiencies.general_slots == 0
    &&& p.proficiencies.class_slots == 0
    &&& p.proficiencies.profs@.len() == 0
    &&& p.divine_spells is None
    &&& p.arcane_spells is None
    &&& p.notes@.len() == 0
}

/// A character as rolled, before it is readied: no modifier on any stat, no hit points, at
/// level zero.
pub open spec fn unprepared(p: PlayerCharacter) -> bool {
    &&& p.combat_stats.modifiers.wf()
    &&& forall|t: StatModType| (#[trigger] p.combat_stats.modifiers.of(t)).spec_total() == 0
        && p.combat_stats.modifiers.of(t).modifiers().is_empty()
    &&& p.combat_stats.modifiers.xp_gain.spec_total() == 0
    &&& p.combat_stats.modifiers.xp_gain.modifiers().is_empty()
    &&& p.combat_stats.health.max_hp == 0
    &&& p.level == 0
}

proof fn lemma_least_modifier_bounds(attrs: Attributes, s: Seq<Attr>)
    requires
        s.len() >= 1,
    ensures
        -3 <= least_modifier(attrs, s) <= 3,
    decreases s.len(),
{
    if s.len() > 1 {
        lemma_least_modifier_bounds(attrs, s.drop_last());
    }
}

/// A character as rolled, whatever class it was given, can be readied: no number it gets on
/// the way leaves its type.
pub proof fn rolled_character_can_be_set_up(p: PlayerCharacter)
    requires
        unprepared(p),
    ensures
        can_prepare(p),
{
    let m = p.combat_stats.modifiers;
    assert(m.of(StatModType::MeleeAttack) == m.melee_attack);
    assert(m.of(StatModType::MeleeDamage) == m.melee_damage);
    assert(m.of(StatModType::MissileAttack) == m.missile_attack);
    assert(m.of(StatModType::ArmorClass) == m.armor_class);
    assert(m.of(StatModType::Initiative) == m.initiative);
    assert(m.of(StatModType::SavePP) == m.save_petrification_paralysis);
    assert(m.of(StatModType::SavePD) == m.save_poison_death);
    assert(m.of(StatModType::SaveBB) == m.save_blast_breath);
    assert(m.of(StatModType::SaveSW) == m.save_staffs_wands);
    assert(m.of(StatModType::SaveSpells) == m.save_spells);
    let reqs = p.class.prime_reqs@;
    if reqs.len() > 0 {
        lemma_least_modifier_bounds(p.combat_stats.attributes, reqs);
    }
    assert(vstd::arithmetic::power2::pow2(0) == 1) by {
        vstd::arithmetic::power2::lemma2_to64();
    }
    let base = p.class.base_xp_cost as int;
    assert(level_cost(base, p.class.saving_throw_progression_type, 1) == base * vstd::arithmetic::power2::pow2(0));
}

/// What picking a proficiency does to a sheet.
pub enum PickOutcome {
    /// Nothing changes, and the sheet is not sent back.
    Refused,
    /// Nothing changes; the sheet is sent back.
    Kept,
    /// The proficiency held goes up a level, for a slot.
    Raised,
    /// The proficiency is taken, with this specification, for a slot.
    Taken(Option<Seq<char>>),
}

/// The place of the first entry named `key`.
pub open spec fn first_named<V>(s: Seq<(String, V)>, key: Seq<char>) -> Option<int>
    decreases s.len(),
{
    if s.len() == 0 {
        None
    } else {
        match first_named(s.drop_last(), key) {
            Some(i) => Some(i),
            None => if s.last().0@ == key { Some(s.len() - 1) } else { None },
        }
    }
}

/// What a specification is looked up by in a list of allowed ones: itself, or a text that no
/// specification is when there is none.
pub open spec fn lookup_text(spec: Option<Seq<char>>) -> Seq<char> {
    match spec {
        Some(s) => s,
        None => "@&%:"@,
    }
}

/// The instance held under `key`.
pub open spec fn held_instance(p: Proficiencies, key: (Seq<char>, Option<Seq<char>>)) -> ProficiencyInstance {
    p.entries()[choose|i: int| 0 <= i < p.keys().len() && p.keys()[i] == key].1
}

/// Whether the class lets its proficiency `id` (the `i`-th it offers) have the specification.
pub open spec fn class_allows(c: Class, i: int, spec: Option<Seq<char>>) -> bool {
    match c.class_proficiencies@[i].1 {
        Some(allowed) => crate::commands::texts(allowed@).contains(lookup_text(spec)),
        None => true,
    }
}

/// What picking the proficiency `prof` under `id` with the specification `spec`, as a general
/// proficiency or a class one, does to the sheet `c`: nothing without a free slot of the kind
/// (or, for a class pick, when the class does not offer `id`); a level more of a proficiency
/// held, up to its maximum; else the proficiency, with the specification when it needs one and
/// the specification is allowed (by the proficiency, and for a class pick by the class).
pub open spec fn pick_outcome(c: PlayerCharacter, prof: Proficiency, general: bool, id: Seq<char>, spec: Option<Seq<char>>) -> PickOutcome {
    let offer = first_named(c.class.class_proficiencies@, id);
    let open = if general {
        prof.is_general && c.proficiencies.general_slots > 0
    } else {
        offer is Some && c.proficiencies.class_slots > 0
    };
    let key = (id, spec);
    if !open {
        PickOutcome::Kept
    } else if c.proficiencies.keys().contains(key) {
        if held_instance(c.proficiencies, key).prof_level < prof.max_level { PickOutcome::Raised } else { PickOutcome::Kept }
    } else if !prof.requires_specification {
        PickOutcome::Taken(None)
    } else {
        match prof.valid_specifications {
            Some(valid) => if !crate::commands::texts(valid@).contains(lookup_text(spec)) {
                PickOutcome::Refused
            } else if general {
                PickOutcome::Taken(spec)
            } else {
                match offer {
                    Some(i) => if class_allows(c.class, i, spec) { PickOutcome::Taken(spec) } else { PickOutcome::Refused },
                    None => PickOutcome::Refused,
                }
            },
            None => if spec is Some { PickOutcome::Taken(spec) } else { PickOutcome::Refused },
        }
    }
}

/// `b` with the slot of the kind picked given back as `a` had it; `b` has one fewer.
pub open spec fn slot_spent(a: PlayerCharacter, b: PlayerCharacter, general: bool) -> PlayerCharacter {
    if general {
        PlayerCharacter { proficiencies: Proficiencies { general_slots: a.proficiencies.general_slots, ..b.proficiencies }, ..b }
    } else {
        PlayerCharacter { proficiencies: Proficiencies { class_slots: a.proficiencies.class_slots, ..b.proficiencies }, ..b }
    }
}

pub open spec fn one_slot_fewer(a: PlayerCharacter, b: PlayerCharacter, general: bool) -> bool {
    if general {
        b.proficiencies.general_slots == a.proficiencies.general_slots - 1
    } else {
        b.proficiencies.class_slots == a.proficiencies.class_slots - 1
    }
}

/// One die plus a modifier gives at least one and at most the die's faces plus the modifier.
proof fn lemma_one_die_range(r: DiceRoll, x: int)
    requires
        r.amount == 1,
        r.sides >= 1,
        r.modifier_type == ModifierType::Add,
        !r.apply_modifier_to_all,
        r.drop == Drop::Nothing,
        r.min_value == 1,
        possible_result(r, x),
    ensures
        1 <= x,
        x <= r.sides + r.modifier || x == 1,
{
    let raw = choose|raw: Seq<i32>|
        #![trigger roll_value(r, raw)]
        raw.len() == r.amount && all_in_range(raw, r.sides as int) && x == roll_value(r, raw);
    assert(kept_rolls(r.drop, raw) == raw);
    assert(raw.drop_last().len() == 0);
    assert(sum_rolls(raw.drop_last()) == 0);
    assert(sum_rolls(raw) == raw[0]);
    assert(1 <= raw[0] <= r.sides);
}

impl PlayerCharacter {
    /// A new character of a race rolled on the standard table, with attributes rolled as that
    /// race rolls them, of the default class, at level zero with nothing else.
    pub fn random() -> (p: Self)
        ensures
            is_rolled(p),
    {
        let race = RaceTable::StandardFantasy.random_race();
        let class = Class::default();
        Self {
            combat_stats: CombatantStats {
                attributes: race.roll_attrs(),
                health: Health::new(),
                attack_throw: 10,
                armor_class: 0,
                damage: AttackRoutine::One(DamageRoll::default()),
                attack_index: 0,
                saving_throws: SavingThrows::new(),
                status_effects: StatusEffects::new(),
                modifiers: StatModifiers::new(),
            },
            race,
            xp_to_level: 0,
            class,
            title: String::new(),
            level: 0,
            xp: 0,
            inventory: PlayerInventory::empty(),
            proficiencies: Proficiencies::new(),
            divine_spells: None,
            arcane_spells: None,
            notes: String::new(),
        }
    }

    /// Makes a new character ready and takes it to its first level: the saves of its level,
    /// the attribute modifiers on its stats, the prime requisite bonus on its experience, its
    /// first proficiency slots, blank spellbooks for a caster class; then a level up.
    pub fn initialize(&mut self)
        requires
            can_prepare(*old(self)),
        ensures
            exists|m: PlayerCharacter| prepared(*old(self), m) && #[trigger] leveled(m, *final(self)),
    {
        let attrs = self.combat_stats.attributes;
        self.combat_stats.saving_throws = SavingThrows::calculate_simple(self.class.saving_throw_progression_type, self.level);
        let str_mod = attrs.modifier(Attr::STR);
        let dex_mod = attrs.modifier(Attr::DEX);
        let wis_mod = attrs.modifier(Attr::WIS);
        let int_mod = attrs.modifier(Attr::INT);
        self.combat_stats.modifiers.melee_attack.add("strength", str_mod);
        self.combat_stats.modifiers.melee_damage.add("strength", str_mod);
        self.combat_stats.modifiers.missile_attack.add("dexterity", dex_mod);
        self.combat_stats.modifiers.armor_class.add("dexterity", dex_mod);
        self.combat_stats.modifiers.initiative.add("dexterity", dex_mod);
        self.combat_stats.modifiers.add_all_saves("wisdom", wis_mod);
        let bonus = prime_requisite_bonus(&attrs, &self.class.prime_reqs);
        self.combat_stats.modifiers.xp_gain.add("prime_reqs", bonus);
        self.proficiencies.class_slots = 1;
        self.proficiencies.general_slots = 1;
        if int_mod > 0 {
            self.proficiencies.general_slots = self.proficiencies.general_slots + int_mod as u8;
        }
        if self.class.divine_value != DivineValue::Nothing {
            self.divine_spells = Some(DivineSpellcaster {
                spell_slots: [(0, 0), (0, 0), (0, 0), (0, 0), (0, 0)],
                spell_repertoire: [Vec::new(), Vec::new(), Vec::new(), Vec::new(), Vec::new()],
            });
            proof {
                let d = self.divine_spells->0;
                assert(d.spell_slots@ =~= Seq::new(5, |i: int| (0u32, 0u32)));
            }
        }
        if self.class.arcane_value != ArcaneValue::Nothing {
            self.arcane_spells = Some(ArcaneSpellcaster {
                spell_slots: [(0, 0), (0, 0), (0, 0), (0, 0), (0, 0), (0, 0)],
                spell_repertoire: [(Vec::new(), 0), (Vec::new(), 0), (Vec::new(), 0), (Vec::new(), 0), (Vec::new(), 0), (Vec::new(), 0)],
            });
            proof {
                let d = self.arcane_spells->0;
                assert(d.spell_slots@ =~= Seq::new(6, |i: int| (0u32, 0u32)));
            }
        }
        let ghost mid = *self;
        assert(prepared(*old(self), mid));
        self.level_up();
    }

    /// Awards experience: the amount plus the experience bonus, then a level up for every
    /// level whose cost the experience reaches.
    pub fn add_xp(&mut self, amount: u32)
        requires
            award_fits(amount, old(self).combat_stats.modifiers.xp_gain.spec_total()),
            old(self).xp + xp_award(amount, old(self).combat_stats.modifiers.xp_gain.spec_total()) <= u32::MAX,
            award_ends(*old(self), old(self).xp + xp_award(amount, old(self).combat_stats.modifiers.xp_gain.spec_total())),
            can_level_to(*old(self), award_level(*old(self), old(self).xp + xp_award(amount, old(self).combat_stats.modifiers.xp_gain.spec_total()))),
        ensures
            ({
                let xp = old(self).xp + xp_award(amount, old(self).combat_stats.modifiers.xp_gain.spec_total());
                let awarded = PlayerCharacter { xp: xp as u32, ..*old(self) };
                &&& final(self).xp == xp
                &&& final(self).level == award_level(*old(self), xp)
                &&& leveled_times(awarded, *final(self), (final(self).level - old(self).level) as nat)
            }),
    {
        let per_mille = self.combat_stats.modifiers.xp_gain.total();
        let product = amount as i128 * per_mille as i128;
        assert(-0x1_0000_0000_0000_0000 <= product <= 0x1_0000_0000_0000_0000) by (nonlinear_arith)
            requires product == amount * per_mille, 0 <= amount <= u32::MAX, i32::MIN <= per_mille <= i32::MAX;
        let size = if product < 0 { -product } else { product };
        let part = (2 * size + 1000) / 2000;
        let bonus: i128 = if product < 0 { -part } else { part };
        assert(bonus == round_div(amount * per_mille, 1000));
        let gained = (#[verifier::truncate] (amount as i32) + (bonus as i32)) as u32;
        self.xp = self.xp + gained;
        let ghost start = *self;
        let ghost xp = self.xp as int;
        let ghost target = award_level(*old(self), xp);
        proof {
            assert(level_chain(seq![start], start, start, 0));
            if xp >= start.xp_to_level {
                lemma_stop_level(start.class, xp, start.level as int);
            }
        }
        while self.xp >= self.xp_to_level
            invariant
                start.level <= self.level <= target,
                target == award_level(start, xp),
                award_ends(start, xp),
                self.xp == xp,
                self.class == start.class,
                self.combat_stats.attributes == start.combat_stats.attributes,
                leveled_times(start, *self, (self.level - start.level) as nat),
                can_level_to(*self, target),
                self.level == start.level ==> self.xp_to_level == start.xp_to_level,
                self.level > start.level ==> self.xp_to_level == level_cost(
                    start.class.base_xp_cost as int, start.class.saving_throw_progression_type, self.level as int),
                xp >= start.xp_to_level ==> {
                    &&& start.level < target <= start.class.maximum_level
                    &&& forall|l: int| start.level < l < target ==>
                        xp >= #[trigger] level_cost(start.class.base_xp_cost as int, start.class.saving_throw_progression_type, l)
                    &&& xp < level_cost(start.class.base_xp_cost as int, start.class.saving_throw_progression_type, target)
                },
            decreases target - self.level,
        {
            let ghost before = *self;
            proof {
                if self.level == target {
                    assert(false);
                }
                assert(xp >= start.xp_to_level);
                assert(level_cost_fits(self.class.base_xp_cost as int, self.class.saving_throw_progression_type, self.level + 1));
                lemma_rooms(self.class, self.combat_stats.attributes, self.level + 1, target);
            }
            self.level_up();
            proof {
                let hp = choose|hp: int| hit_points_gained(before.class, before.level + 1, before.combat_stats.attributes, hp)
                    && #[trigger] leveled_with(before, *self, hp);
                lemma_most_hit_points(before.class, before.level + 1, before.combat_stats.attributes, hp);
                let k = (before.level - start.level) as nat;
                let chain = choose|chain: Seq<PlayerCharacter>| #[trigger] level_chain(chain, start, before, k);
                let longer = chain.push(*self);
                assert(level_chain(longer, start, *self, k + 1)) by {
                    assert forall|i: int| 0 <= i < k + 1 implies leveled(#[trigger] longer[i], longer[i + 1]) by {
                        if i < k {
                            assert(longer[i] == chain[i] && longer[i + 1] == chain[i + 1]);
                        }
                    }
                }
                assert((self.level - start.level) as nat == k + 1);
                assert forall|l: int| self.level < l <= target implies
                    #[trigger] level_cost_fits(self.class.base_xp_cost as int, self.class.saving_throw_progression_type, l) by {
                    assert(before.level < l);
                }
            }
        }
        proof {
            if self.level < target {
                assert(xp >= start.xp_to_level);
            }
            assert(start == PlayerCharacter { xp: xp as u32, ..*old(self) });
        }
    }

    /// Takes a proficiency, under its id and its specification, in place of one held there.
    /// Divine blessing adds 2 to every save.
    pub fn add_prof(&mut self, id: &str, prof: ProficiencyInstance)
        requires
            old(self).proficiencies.wf(),
            is_blessing(id@) ==> saves_can_add(old(self).combat_stats.modifiers, "divine_blessing"@, 2),
        ensures
            prof_added(*old(self), *final(self), id@, prof),
    {
        if is_divine_blessing(id) {
            self.combat_stats.modifiers.add_all_saves("divine_blessing", 2);
        }
        let spec = match &prof.specification {
            Some(s) => Some(s.clone()),
            None => None,
        };
        let key = (id.to_owned(), spec);
        assert(key_text(key) == (id@, opt_text(prof.specification)));
        self.proficiencies.insert(key, prof);
    }

    /// Gives up the proficiency held under `id`, if there is one. Giving up divine blessing
    /// takes its bonus off every save.
    pub fn remove_prof(&mut self, id: &(String, Option<String>))
        requires
            old(self).proficiencies.wf(),
            is_blessing(id.0@) && old(self).proficiencies.keys().contains(key_text(*id))
                ==> saves_can_remove(old(self).combat_stats.modifiers, "divine_blessing"@),
        ensures
            prof_removed(*old(self), *final(self), key_text(*id)),
    {
        self.take_prof(id);
    }

    /// Adds `spell` to the spells the character knows at the first arcane level, when it casts
    /// arcane spells and does not know it yet.
    pub fn learn_first_arcane(&mut self, spell: String)
        ensures
            spell_learned(*old(self), *final(self), spell@),
    {
        match &mut self.arcane_spells {
            Some(arcane) => {
                let ghost arc = *arcane;
                if !crate::server::contains_text(&arcane.spell_repertoire[0].0, &spell) {
                    let ghost s = spell@;
                    arcane.spell_repertoire[0].0.push(spell);
                    assert(crate::commands::texts(arcane.spell_repertoire@[0].0@) =~= crate::commands::texts(arc.spell_repertoire@[0].0@).push(s));
                }
            },
            None => {},
        }
    }

    /// Readies a character a player has just made: prepares it and takes it to its first level
    /// (`initialize`), gives it the adventuring proficiency (when the registry has one), and
    /// teaches an arcane caster its first spell (when one was drawn).
    pub fn set_up(&mut self, adventuring: Option<Proficiency>, first_spell: Option<String>)
        requires
            can_prepare(*old(self)),
            old(self).proficiencies.wf(),
        ensures
            set_up_as(*old(self), *final(self), adventuring, first_spell),
    {
        let ghost a = *self;
        self.initialize();
        let ghost n = *self;
        let ghost m = choose|m: PlayerCharacter| prepared(a, m) && #[trigger] leveled(m, n);
        assert(n.proficiencies.profs == a.proficiencies.profs);
        assert(n.proficiencies.keys() == a.proficiencies.keys());
        let ghost inst_used: ProficiencyInstance;
        match adventuring {
            Some(p) => {
                let inst = ProficiencyInstance::from_prof(p);
                proof {
                    reveal_strlit("adventuring");
                    reveal_strlit("divine_blessing");
                    assert("adventuring"@.len() != "divine_blessing"@.len());
                }
                self.add_prof("adventuring", inst);
                proof { inst_used = inst; }
            },
            None => {
                proof { inst_used = arbitrary(); }
            },
        }
        let ghost o = *self;
        assert(first_instance(adventuring, inst_used, n, o));
        match first_spell {
            Some(k) => self.learn_first_arcane(k),
            None => {},
        }
    }

    /// Gives up the proficiency held under `id`, if there is one, and hands it back.
    fn take_prof(&mut self, id: &(String, Option<String>)) -> (taken: Option<ProficiencyInstance>)
        requires
            old(self).proficiencies.wf(),
            is_blessing(id.0@) && old(self).proficiencies.keys().contains(key_text(*id))
                ==> saves_can_remove(old(self).combat_stats.modifiers, "divine_blessing"@),
        ensures
            prof_removed(*old(self), *final(self), key_text(*id)),
            match taken {
                Some(p) => exists|i: int| 0 <= i < old(self).proficiencies.keys().len()
                    && old(self).proficiencies.keys()[i] == key_text(*id) && old(self).proficiencies.entries()[i].1 == p,
                None => !old(self).proficiencies.keys().contains(key_text(*id)),
            },
    {
        let removed = self.proficiencies.remove(id);
        if removed.is_some() {
            if is_divine_blessing(id.0.as_str()) {
                self.combat_stats.modifiers.remove_all_saves("divine_blessing");
            }
        }
        removed
    }

    /// Picks a proficiency for a slot, as a general or a class proficiency, with a
    /// specification; says whether the sheet is to be sent back.
    pub fn pick_proficiency(&mut self, prof: Proficiency, general: bool, id: &str, spec: Option<String>) -> (update: bool)
        requires
            old(self).proficiencies.wf(),
            is_blessing(id@) ==> saves_can_add(old(self).combat_stats.modifiers, "divine_blessing"@, 2)
                && saves_can_remove(old(self).combat_stats.modifiers, "divine_blessing"@),
        ensures
            match pick_outcome(*old(self), prof, general, id@, opt_text(spec)) {
                PickOutcome::Refused => !update && *final(self) == *old(self),
                PickOutcome::Kept => update && *final(self) == *old(self),
                PickOutcome::Raised => update && one_slot_fewer(*old(self), *final(self), general)
                    && exists|mid: PlayerCharacter| {
                        let q = held_instance(old(self).proficiencies, (id@, opt_text(spec)));
                        &&& #[trigger] prof_removed(*old(self), mid, (id@, opt_text(spec)))
                        &&& prof_added(mid, slot_spent(*old(self), *final(self), general), id@,
                                ProficiencyInstance { prof_level: (q.prof_level + 1) as u8, ..q })
                    },
                PickOutcome::Taken(s) => update && one_slot_fewer(*old(self), *final(self), general)
                    && exists|p: ProficiencyInstance| {
                        &&& p.prof == prof
                        &&& p.prof_level == 0
                        &&& p.throw == prof.starting_throw
                        &&& opt_text(p.specification) == s
                        &&& #[trigger] prof_added(*old(self), slot_spent(*old(self), *final(self), general), id@, p)
                    },
            },
    {
        let ghost start = *self;
        let ghost key = (id@, opt_text(spec));
        let offer = first_named_index(&self.class.class_proficiencies, id);
        let open = if general {
            prof.is_general && self.proficiencies.general_slots > 0
        } else {
            offer.is_some() && self.proficiencies.class_slots > 0
        };
        if !open {
            return true;
        }
        match self.proficiencies.position(id, &spec) {
            Some(i) => {
                proof {
                    assert(self.proficiencies.keys().contains(key));
                    let j = choose|j: int| 0 <= j < self.proficiencies.keys().len() && self.proficiencies.keys()[j] == key;
                    if j != i {
                        if j < i { assert(self.proficiencies.keys()[j] != self.proficiencies.keys()[i as int]); }
                        else { assert(self.proficiencies.keys()[i as int] != self.proficiencies.keys()[j]); }
                    }
                    assert(held_instance(self.proficiencies, key) == self.proficiencies.profs@[i as int].1);
                }
                if self.proficiencies.profs[i].1.prof_level < prof.max_level {
                    let id_key = (id.to_owned(), spec);
                    assert(key_text(id_key) == key);
                    let taken = self.take_prof(&id_key);
                    let ghost mid = *self;
                    let q = match taken {
                        Some(q) => q,
                        None => { return true; },
                    };
                    proof {
                        let j = choose|j: int| 0 <= j < start.proficiencies.keys().len()
                            && start.proficiencies.keys()[j] == key && start.proficiencies.entries()[j].1 == q;
                        if j != i {
                            if j < i { assert(start.proficiencies.keys()[j] != start.proficiencies.keys()[i as int]); }
                            else { assert(start.proficiencies.keys()[i as int] != start.proficiencies.keys()[j]); }
                        }
                    }
                    let raised = ProficiencyInstance { prof_level: q.prof_level + 1, ..q };
                    self.add_prof(id, raised);
                    let ghost added = *self;
                    if general {
                        self.proficiencies.general_slots = self.proficiencies.general_slots - 1;
                    } else {
                        self.proficiencies.class_slots = self.proficiencies.class_slots - 1;
                    }
                    proof {
                        assert(slot_spent(start, *self, general) == added);
                        assert(prof_removed(start, mid, key));
                    }
                }
                true
            },
            None => {
                let chosen: Option<Option<String>> = if !prof.requires_specification {
                    Some(None)
                } else {
                    match &prof.valid_specifications {
                        Some(valid) => {
                            if !list_has(valid, &spec) {
                                None
                            } else if general {
                                Some(spec)
                            } else {
                                match offer {
                                    Some(k) => {
                                        proof { lemma_first_named(self.class.class_proficiencies@, id@); }
                                        let allowed = match &self.class.class_proficiencies[k].1 {
                                            Some(class_valid) => list_has(class_valid, &spec),
                                            None => true,
                                        };
                                        if allowed { Some(spec) } else { None }
                                    },
                                    None => None,
                                }
                            }
                        },
                        None => if spec.is_some() { Some(spec) } else { None },
                    }
                };
                match chosen {
                    None => false,
                    Some(s) => {
                        let mut p = ProficiencyInstance::from_prof(prof);
                        p.specification = s;
                        let ghost taken = p;
                        self.add_prof(id, p);
                        let ghost added = *self;
                        if general {
                            self.proficiencies.general_slots = self.proficiencies.general_slots - 1;
                        } else {
                            self.proficiencies.class_slots = self.proficiencies.class_slots - 1;
                        }
                        proof {
                            assert(slot_spent(start, *self, general) == added);
                            assert(prof_added(start, slot_spent(start, *self, general), id@, taken));
                        }
                        true
                    },
                }
            },
        }
    }

    /// Whether the proficiency with the given id and specification is held.
    pub fn has_prof(&self, id: &str, spec: Option<&str>) -> (b: bool)
        ensures
            b == self.proficiencies.keys().contains((id@, str_opt_text(spec))),
    {
        let spec = match spec {
            Some(s) => Some(s.to_owned()),
            None => None,
        };
        self.proficiencies.contains(id, &spec)
    }

    /// The hit points gained on reaching the current level.
    pub fn roll_hit_die(&self) -> (hp: u32)
        ensures
            hit_points_gained(self.class, self.level as int, self.combat_stats.attributes, hp as int),
            1 <= hp <= most_hit_points(self.class, self.level as int, self.combat_stats.attributes),
    {
        if self.level > 9 {
            match self.class.saving_throw_progression_type {
                SavingThrowProgressionType::Cleric | SavingThrowProgressionType::Mage => 1,
                SavingThrowProgressionType::Fighter | SavingThrowProgressionType::Thief => 2,
            }
        } else {
            let sides: u32 = match self.class.hit_die {
                HitDie::D4 => 4,
                HitDie::D6 => 6,
                HitDie::D8 => 8,
                HitDie::D10 => 10,
                HitDie::D12 => 12,
            };
            let die = DiceRoll::simple_modifier(1, sides, self.combat_stats.attributes.modifier(Attr::CON));
            assert(die == hit_die_roll(self.class, self.combat_stats.attributes));
            let r = die.roll();
            proof { lemma_one_die_range(die, r as int); }
            r as u32
        }
    }

    /// Goes up a level, unless the class's maximum is reached: rolls the hit die, and sets the
    /// saves, attack throw, experience needed, title, proficiency slots and spell slots of the
    /// new level.
    #[verifier::rlimit(40)]
    pub fn level_up(&mut self)
        requires
            can_level_up(*old(self)),
        ensures
            leveled(*old(self), *final(self)),
    {
        if self.level >= self.class.maximum_level {
            return;
        }
        self.level = self.level + 1;
        let hp = self.roll_hit_die();
        self.combat_stats.health.max_hp = self.combat_stats.health.max_hp + hp;
        self.combat_stats.health.current_hp = self.combat_stats.health.max_hp as i32;
        let t = self.class.saving_throw_progression_type;
        self.combat_stats.saving_throws = SavingThrows::calculate_simple(t, self.level);
        self.combat_stats.attack_throw = self.class.attack_throw_progression.calculate(self.level);
        self.xp_to_level = self.class.calculate_next_level_cost(self.level);
        self.title = self.class.titles.get(self.level);
        if self.level == 5 || self.level == 9 || self.level == 13 {
            self.proficiencies.general_slots = self.proficiencies.general_slots + 1;
        }
        let class_gain = match t {
            SavingThrowProgressionType::Fighter => self.level == 3 || self.level == 6 || self.level == 9 || self.level == 12,
            SavingThrowProgressionType::Cleric | SavingThrowProgressionType::Thief => self.level == 4 || self.level == 8 || self.level == 12,
            SavingThrowProgressionType::Mage => self.level == 6 || self.level == 12,
        };
        if class_gain {
            self.proficiencies.class_slots = self.proficiencies.class_slots + 1;
        }
        let level = self.level;
        let divine_value = self.class.divine_value;
        match &mut self.divine_spells {
            Some(divine) => {
                let slots = divine_value.get_max_spell_slots(level);
                divine.spell_slots = [(slots[0], slots[0]), (slots[1], slots[1]), (slots[2], slots[2]), (slots[3], slots[3]), (slots[4], slots[4])];
                assert(divine.spell_slots@ =~= slot_pairs(slots@));
            },
            None => {},
        }
        let arcane_value = self.class.arcane_value;
        let int_mod = self.combat_stats.attributes.modifier(Attr::INT);
        match &mut self.arcane_spells {
            Some(arcane) => {
                let slots = arcane_value.get_max_spell_slots(level);
                let rep = arcane_value.get_repertoire_size(level, int_mod);
                arcane.spell_slots = [(slots[0], slots[0]), (slots[1], slots[1]), (slots[2], slots[2]), (slots[3], slots[3]), (slots[4], slots[4]), (slots[5], slots[5])];
                assert(arcane.spell_slots@ =~= slot_pairs(slots@));
                arcane.spell_repertoire[0].1 = rep[0];
                arcane.spell_repertoire[1].1 = rep[1];
                arcane.spell_repertoire[2].1 = rep[2];
                arcane.spell_repertoire[3].1 = rep[3];
                arcane.spell_repertoire[4].1 = rep[4];
                arcane.spell_repertoire[5].1 = rep[5];
            },
            None => {},
        }
        assert(leveled_with(*old(self), *self, hp as int));
    }
}

/// Whether `v` holds the text a specification is looked up by.
fn list_has(v: &Vec<String>, spec: &Option<String>) -> (b: bool)
    ensures
        b == crate::commands::texts(v@).contains(lookup_text(opt_text(*spec))),
{
    let wanted = match spec {
        Some(s) => s.clone(),
        None => "@&%:".to_owned(),
    };
    let n = v.len();
    for i in 0..n
        invariant
            n == v@.len(),
            wanted@ == lookup_text(opt_text(*spec)),
            forall|j: int| 0 <= j < i ==> (#[trigger] v@[j])@ != wanted@,
    {
        if v[i] == wanted {
            assert(crate::commands::texts(v@)[i as int] == wanted@);
            return true;
        }
    }
    proof {
        if crate::commands::texts(v@).contains(wanted@) {
            let j = choose|j: int| 0 <= j < crate::commands::texts(v@).len() && crate::commands::texts(v@)[j] == wanted@;
            assert(v@[j]@ == wanted@);
        }
    }
    false
}

proof fn lemma_first_named<V>(s: Seq<(String, V)>, key: Seq<char>)
    ensures
        match first_named(s, key) {
            Some(i) => 0 <= i < s.len() && s[i].0@ == key && forall|j: int| 0 <= j < i ==> (#[trigger] s[j]).0@ != key,
            None => forall|j: int| 0 <= j < s.len() ==> (#[trigger] s[j]).0@ != key,
        },
    decreases s.len(),
{
    if s.len() > 0 {
        lemma_first_named(s.drop_last(), key);
        assert forall|j: int| 0 <= j < s.len() - 1 implies s.drop_last()[j] == #[trigger] s[j] by {}
    }
}

/// The place of the first entry of `s` named `key`.
fn first_named_index<V>(s: &Vec<(String, V)>, key: &str) -> (r: Option<usize>)
    ensures
        match r {
            Some(i) => first_named(s@, key@) == Some(i as int),
            None => first_named(s@, key@) is None,
        },
{
    proof { lemma_first_named(s@, key@); }
    let wanted = key.to_owned();
    let n = s.len();
    for i in 0..n
        invariant
            n == s@.len(),
            wanted@ == key@,
            forall|j: int| 0 <= j < i ==> (#[trigger] s@[j]).0@ != key@,
            match first_named(s@, key@) {
                Some(f) => 0 <= f < s@.len() && s@[f].0@ == key@ && forall|j: int| 0 <= j < f ==> (#[trigger] s@[j]).0@ != key@,
                None => forall|j: int| 0 <= j < s@.len() ==> (#[trigger] s@[j]).0@ != key@,
            },
    {
        if s[i].0 == wanted {
            proof {
                match first_named(s@, key@) {
                    Some(f) => {
                        if f < i { assert(s@[f].0@ != key@); }
                        if i < f { assert(s@[i as int].0@ != key@); }
                    },
                    None => { assert(s@[i as int].0@ != key@); },
                }
            }
            return Some(i);
        }
    }
    proof {
        match first_named(s@, key@) {
            Some(f) => { assert(s@[f].0@ != key@); },
            None => {},
        }
    }
    None
}

fn is_divine_blessing(id: &str) -> (b: bool)
    ensures
        b == is_blessing(id@),
{
    id.to_owned() == "divine_blessing".to_owned()
}

/// The prime requisite bonus to experience, in tenths of a percent.
fn prime_requisite_bonus(attrs: &Attributes, reqs: &Vec<Attr>) -> (b: i32)
    ensures
        b == prime_req_bonus(*attrs, reqs@),
{
    let n = reqs.len();
    if n == 0 {
        return 0;
    }
    let mut lowest = attrs.modifier(reqs[0]);
    assert(reqs@.take(1).drop_last().len() == 0);
    for i in 1..n
        invariant
            n == reqs@.len(),
            lowest == least_modifier(*attrs, reqs@.take(i as int)),
            -3 <= lowest <= 3,
    {
        let m = attrs.modifier(reqs[i]);
        assert(reqs@.take(i + 1).drop_last() == reqs@.take(i as int));
        if m < lowest {
            lowest = m;
        }
    }
    assert(reqs@.take(n as int) == reqs@);
    lowest * 50
}

} // verus!
