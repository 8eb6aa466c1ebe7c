use vstd::prelude::*;
use vstd::string::*;

use crate::combat::{
    Fight, TurnType, MovementAction, AttackAction, PreRoundAction, Combatant, AttackResult, CombatantStats,
    routine_attack, declared, Owner, OwnerView, StatusEffect, current_attack, attack_bonus_of, armor_of,
    exploding_d20, attack_outcome, damage_done, attack_roll, damage_roll, top_damage_die, damage_fits,
    unique_declarations,
};
use crate::dice::{DiceRoll, Drop, possible_result, can_roll, roll_fits, roll};
use crate::text::{int_text, push_int};
use crate::spell::{SpellRegistry, MagicType, spell_name};
use crate::tabs::TabIcon;

verus! {

/// A line for the combat log; a warning is shown in light red.
pub struct CombatLine {
    pub text: String,
    pub warning: bool,
}

/// What resolving the current action of a fight leads to.
pub enum TurnStep {
    /// No turn is under way.
    Idle,
    /// The turn goes on (to `Fight::next_turn`), after the line is logged, if there is one.
    Advance(Option<CombatLine>),
    /// The actor attacks the target with the modifier; the attack then decides.
    Attack(Combatant, Combatant, i32),
}

pub enum StepView {
    Idle,
    Advance(Option<(Seq<char>, bool)>),
    Attack(Combatant, Combatant, i32),
}

impl View for TurnStep {
    type V = StepView;

    open spec fn view(&self) -> StepView {
        match *self {
            TurnStep::Idle => StepView::Idle,
            TurnStep::Advance(line) => StepView::Advance(match line {
                Some(l) => Some((l.text@, l.warning)),
                None => None,
            }),
            TurnStep::Attack(a, t, m) => StepView::Attack(a, t, m),
        }
    }
}

/// What the log says of a movement, after the actor's name.
pub open spec fn movement_words(a: MovementAction) -> Option<Seq<char>> {
    match a {
        MovementAction::Nothing => None,
        MovementAction::Move => Some(" moves."@),
        MovementAction::Run => Some(" runs."@),
        MovementAction::Charge => Some(" charges."@),
        MovementAction::FightingWithdrawal => Some(" makes a fighting withdrawal."@),
        MovementAction::FullRetreat => Some(" makes a full retreat."@),
        MovementAction::SimpleAction => Some(" performs a simple action."@),
    }
}

/// Whether a movement uses up the turn's attack.
pub open spec fn ends_attack(a: MovementAction) -> bool {
    a == MovementAction::Run || a == MovementAction::Charge || a == MovementAction::FightingWithdrawal
        || a == MovementAction::FullRetreat
}

/// The name of the spell, or "Nonexistent Spell".
pub open spec fn spell_or_default(reg: SpellRegistry, id: Seq<char>, lvl: u8, t: MagicType) -> Seq<char> {
    match t {
        MagicType::Divine => if lvl < 7 { match spell_name(reg.divine@[lvl as int]@, id) {
            Some(n) => n, None => "Nonexistent Spell"@ } } else { "Nonexistent Spell"@ },
        MagicType::Arcane => if lvl < 9 { match spell_name(reg.arcane@[lvl as int]@, id) {
            Some(n) => n, None => "Nonexistent Spell"@ } } else { "Nonexistent Spell"@ },
    }
}

pub open spec fn plain(t: Seq<char>) -> StepView {
    StepView::Advance(Some((t, false)))
}

/// What resolving the action of the turn under way gives.
pub open spec fn resolution(f: Fight, spells: SpellRegistry) -> StepView {
    match f.current_turn {
        None => StepView::Idle,
        Some((turn, tt)) => if turn >= f.turn_order@.len() {
            StepView::Advance(None)
        } else {
            let actor = f.turn_order@[turn as int].1;
            let dec = f.turn_order@[turn as int].2;
            match tt {
                TurnType::Movement { action, .. } => match movement_words(action) {
                    Some(w) => plain(actor.shown() + w),
                    None => StepView::Advance(None),
                },
                TurnType::Attack { action, .. } => match action {
                    AttackAction::Nothing => StepView::Advance(None),
                    AttackAction::Attack(target, m) => StepView::Attack(actor, target, m),
                    AttackAction::SpecialManeuver(target, man, _) =>
                        plain(actor.shown() + " tries to "@ + man.words() + " "@ + target.shown() + "!"@),
                    AttackAction::CastSpell => match dec {
                        PreRoundAction::CastSpell(id, lvl, t) =>
                            plain(actor.shown() + " casts "@ + spell_or_default(spells, id@, lvl, t) + "!"@),
                        _ => StepView::Advance(Some((actor.shown() + " tries to cast a spell that they didn't declare."@, true))),
                    },
                    AttackAction::OtherAction => plain(actor.shown() + " performs a simple action."@),
                },
            }
        },
    }
}

/// Whether resolving the action leaves the turn an attack turn with nothing decided: a movement
/// that uses up the attack.
pub open spec fn skips_attack(f: Fight) -> bool {
    match f.current_turn {
        Some((turn, TurnType::Movement { action, .. })) => turn < f.turn_order@.len() && ends_attack(action),
        _ => false,
    }
}

fn line(text: String, warning: bool) -> (s: TurnStep)
    ensures
        s@ == StepView::Advance(Some((text@, warning))),
{
    TurnStep::Advance(Some(CombatLine { text, warning }))
}

fn name_then(actor: &Combatant, words: &str) -> (s: String)
    ensures
        s@ == actor.shown() + words@,
{
    let mut s = actor.label();
    s.append(words);
    s
}

impl Fight {
    /// Resolves the action of the turn under way: what to log and whether the turn goes on or
    /// an attack is made. A movement that uses up the attack turns the turn into an attack
    /// turn with nothing decided.
    pub fn resolve_action(&mut self, spells: &SpellRegistry) -> (step: TurnStep)
        ensures
            step@ == resolution(*old(self), *spells),
            final(self).current_turn == if skips_attack(*old(self)) {
                Some(((old(self).current_turn->0).0, TurnType::Attack { action: AttackAction::Nothing, player_action: None }))
            } else {
                old(self).current_turn
            },
            final(self).started == old(self).started,
            final(self).combatants == old(self).combatants,
            final(self).declarations == old(self).declarations,
            final(self).turn_order == old(self).turn_order,
    {
        proof {
            reveal_strlit(" moves."); reveal_strlit(" runs."); reveal_strlit(" charges.");
            reveal_strlit(" makes a fighting withdrawal."); reveal_strlit(" makes a full retreat.");
            reveal_strlit(" performs a simple action."); reveal_strlit(" tries to "); reveal_strlit(" ");
            reveal_strlit("!"); reveal_strlit(" casts ");
            reveal_strlit(" tries to cast a spell that they didn't declare.");
        }
        let turn = match &self.current_turn {
            None => { return TurnStep::Idle; },
            Some((turn, _)) => *turn,
        };
        if turn >= self.turn_order.len() {
            return TurnStep::Advance(None);
        }
        let actor = &self.turn_order[turn].1;
        let step = match &self.current_turn {
            Some((_, TurnType::Movement { action, .. })) => {
                let text = match action {
                    MovementAction::Nothing => None,
                    MovementAction::Move => Some(" moves."),
                    MovementAction::Run => Some(" runs."),
                    MovementAction::Charge => Some(" charges."),
                    MovementAction::FightingWithdrawal => Some(" makes a fighting withdrawal."),
                    MovementAction::FullRetreat => Some(" makes a full retreat."),
                    MovementAction::SimpleAction => Some(" performs a simple action."),
                };
                match text {
                    Some(w) => line(name_then(actor, w), false),
                    None => TurnStep::Advance(None),
                }
            },
            Some((_, TurnType::Attack { action, .. })) => match action {
                AttackAction::Nothing => TurnStep::Advance(None),
                AttackAction::Attack(target, m) => TurnStep::Attack(actor.clone(), target.clone(), *m),
                AttackAction::SpecialManeuver(target, man, _) => {
                    let mut s = name_then(actor, " tries to ");
                    s.append(man.label());
                    s.append(" ");
                    s.append(target.label().as_str());
                    s.append("!");
                    line(s, false)
                },
                AttackAction::CastSpell => match &self.turn_order[turn].2 {
                    PreRoundAction::CastSpell(id, lvl, t) => {
                        let mut s = name_then(actor, " casts ");
                        s.append(spells.get_spell_name_or_default(id.as_str(), *lvl, *t));
                        s.append("!");
                        line(s, false)
                    },
                    _ => line(name_then(actor, " tries to cast a spell that they didn't declare."), true),
                },
                AttackAction::OtherAction => line(name_then(actor, " performs a simple action."), false),
            },
            None => TurnStep::Idle,
        };
        let skip = match &self.current_turn {
            Some((_, TurnType::Movement { action, .. })) => match action {
                MovementAction::Run | MovementAction::Charge | MovementAction::FightingWithdrawal
                    | MovementAction::FullRetreat => true,
                _ => false,
            },
            _ => false,
        };
        if skip {
            self.current_turn = Some((turn, TurnType::Attack { action: AttackAction::Nothing, player_action: None }));
        }
        step
    }
}

/// The line an attack gives: a miss, a hit for `damage`, or (by the six-sided `flavor` die) one of
/// the ways a critical miss or hit is told.
pub open spec fn attack_words(attacker: Seq<char>, target: Seq<char>, result: AttackResult, flavor: int, damage: Seq<char>) -> Seq<char> {
    match result {
        AttackResult::CriticalFail =>
            if flavor <= 1 { attacker + " failed miserably when attacking "@ + target + "!"@ }
            else if flavor == 2 { attacker + " critically missed "@ + target + "!"@ }
            else if flavor == 3 { attacker + " utterly whiffed an attempt to hit "@ + target + "!"@ }
            else if flavor == 4 { attacker + " absolutely annihilated the air nearby to "@ + target + "."@ }
            else if flavor == 5 { "Whatever "@ + attacker + " tried to do to "@ + target + ", it didn't work very well."@ }
            else { attacker + " lands a devastating warning blow toward "@ + target + "! It did absolutely nothing."@ },
        AttackResult::Fail => attacker + " missed "@ + target + "!"@,
        AttackResult::Success => attacker + " hit "@ + target + " for "@ + damage + " damage!"@,
        AttackResult::CriticalSuccess =>
            if flavor <= 1 { attacker + " critically hit "@ + target + " for a whopping "@ + damage + " damage!"@ }
            else if flavor == 2 { attacker + " absolutely devastated "@ + target + " for "@ + damage + " damage!"@ }
            else if flavor == 3 { attacker + " expertly struck "@ + target + " for "@ + damage + " damage!"@ }
            else if flavor == 4 { attacker + " showed "@ + target + " who's boss. It did "@ + damage + " damage!"@ }
            else if flavor == 5 { attacker + " obliterated "@ + target + " for a staggering "@ + damage + " damage!"@ }
            else { attacker + " asked nicely for "@ + target + " to go away. With force. It did "@ + damage + " damage!"@ },
    }
}

fn three(a: &str, x: &String, b: &str, y: &String, c: &str) -> (s: String)
    ensures
        s@ == a@ + x@ + b@ + y@ + c@,
{
    let mut s = a.to_owned();
    s.append(x.as_str());
    s.append(b);
    s.append(y.as_str());
    s.append(c);
    s
}

fn four(x: &String, b: &str, y: &String, c: &str, z: &String, d: &str) -> (s: String)
    ensures
        s@ == x@ + b@ + y@ + c@ + z@ + d@,
{
    let mut s = x.clone();
    s.append(b);
    s.append(y.as_str());
    s.append(c);
    s.append(z.as_str());
    s.append(d);
    s
}

/// The line an attack of `attacker` on `target` gives, with the damage written out.
pub fn attack_text(attacker: &Combatant, target: &Combatant, result: AttackResult, flavor: i32, damage: &String) -> (s: String)
    ensures
        s@ == attack_words(attacker.shown(), target.shown(), result, flavor as int, damage@),
{
    proof { reveal_strlit(""); }
    let a = attacker.label();
    let t = target.label();
    match result {
        AttackResult::CriticalFail => {
            if flavor <= 1 { three("", &a, " failed miserably when attacking ", &t, "!") }
            else if flavor == 2 { three("", &a, " critically missed ", &t, "!") }
            else if flavor == 3 { three("", &a, " utterly whiffed an attempt to hit ", &t, "!") }
            else if flavor == 4 { three("", &a, " absolutely annihilated the air nearby to ", &t, ".") }
            else if flavor == 5 { three("Whatever ", &a, " tried to do to ", &t, ", it didn't work very well.") }
            else { three("", &a, " lands a devastating warning blow toward ", &t, "! It did absolutely nothing.") }
        },
        AttackResult::Fail => three("", &a, " missed ", &t, "!"),
        AttackResult::Success => four(&a, " hit ", &t, " for ", damage, " damage!"),
        AttackResult::CriticalSuccess => {
            if flavor <= 1 { four(&a, " critically hit ", &t, " for a whopping ", damage, " damage!") }
            else if flavor == 2 { four(&a, " absolutely devastated ", &t, " for ", damage, " damage!") }
            else if flavor == 3 { four(&a, " expertly struck ", &t, " for ", damage, " damage!") }
            else if flavor == 4 { four(&a, " showed ", &t, " who's boss. It did ", damage, " damage!") }
            else if flavor == 5 { four(&a, " obliterated ", &t, " for a staggering ", damage, " damage!") }
            else { four(&a, " asked nicely for ", &t, " to go away. With force. It did ", damage, " damage!") }
        },
    }
}

/// The line that tells that `target` died.
pub fn killed_text(target: &Combatant) -> (s: String)
    ensures
        s@ == target.shown() + " was killed!"@,
{
    let mut s = target.label();
    s.append(" was killed!");
    s
}

impl TurnType {
    /// The icon a part of a turn is shown with: a shoe for the movement, a sword for the attack.
    pub fn icon(&self) -> (i: TabIcon)
        ensures
            i == match *self {
                TurnType::Movement { .. } => TabIcon::SneakerMove,
                TurnType::Attack { .. } => TabIcon::Sword,
            },
    {
        match self {
            TurnType::Movement { .. } => TabIcon::SneakerMove,
            TurnType::Attack { .. } => TabIcon::Sword,
        }
    }
}

/// Whether an attack with this result does damage.
pub open spec fn lands(result: AttackResult) -> bool {
    result == AttackResult::Success || result == AttackResult::CriticalSuccess
}

/// `after` is `before` having taken `damage`; `dropped` tells whether that brought it from above
/// zero hit points to zero or below, which leaves it dying.
pub open spec fn hurt_by(before: CombatantStats, after: CombatantStats, damage: int, dropped: bool) -> bool {
    &&& after.health.current_hp == before.health.current_hp - damage
    &&& after.health.max_hp == before.health.max_hp
    &&& dropped == (before.health.current_hp > 0 && after.health.current_hp <= 0)
    &&& after.status_effects@ == if dropped { before.status_effects@.insert(StatusEffect::Dying) } else { before.status_effects@ }
    &&& after.attributes == before.attributes
    &&& after.attack_throw == before.attack_throw
    &&& after.armor_class == before.armor_class
    &&& after.damage == before.damage
    &&& after.attack_index == before.attack_index
    &&& after.saving_throws == before.saving_throws
    &&& after.modifiers == before.modifiers
}

/// `after` is `before` moved on to the next attack of its routine; `over` tells that the routine
/// ran out, which starts it again.
pub open spec fn moved_on(before: CombatantStats, after: CombatantStats, over: bool) -> bool {
    &&& over == (routine_attack(before.damage, before.attack_index + 1) is None)
    &&& after.attack_index == if over { 0 } else { before.attack_index + 1 }
    &&& after.attributes == before.attributes
    &&& after.health == before.health
    &&& after.attack_throw == before.attack_throw
    &&& after.armor_class == before.armor_class
    &&& after.damage == before.damage
    &&& after.saving_throws == before.saving_throws
    &&& after.status_effects == before.status_effects
    &&& after.modifiers == before.modifiers
}

/// What an attack did to the fight's log and to the two combatants.
pub struct AttackReport {
    /// How the attack went (a dice roll in the combat log).
    pub line: String,
    /// That the target died, when it did (shown in red).
    pub killed: Option<String>,
    /// Whether the attacker's turn is over: its routine has no attack left, or its stats are missing.
    pub turn_over: bool,
    /// The attacker's stats after the attack.
    pub attacker_stats: Option<CombatantStats>,
    /// The target's stats after the attack; when the attacker attacks itself, the blow is in
    /// `attacker_stats` and these are given back as they came.
    pub target_stats: Option<CombatantStats>,
}

/// The stats that take the blow: the target's, or the attacker's when it attacks itself.
pub open spec fn victim_of(attacker: Combatant, target: Combatant, a: Option<CombatantStats>, t: Option<CombatantStats>) -> Option<CombatantStats> {
    if attacker@ == target@ { a } else { t }
}

/// The stats `v` after a blow of `damage` when the attack lands (`None` stays `None`), and
/// whether the blow brought them down.
pub open spec fn struck(v: Option<CombatantStats>, after: Option<CombatantStats>, landed: bool, damage: int, dropped: bool) -> bool {
    if landed {
        match v {
            Some(b) => after matches Some(m) && hurt_by(b, m, damage, dropped),
            None => after is None && !dropped,
        }
    } else {
        after == v && !dropped
    }
}

/// The report of an attack of `attacker` on `target` that came out as `result`, with `flavor`
/// choosing the words of a critical and `damage` the damage of a blow that lands; `a` and `t`
/// are the stats of the two before it.
pub open spec fn attack_reported(attacker: Combatant, target: Combatant, result: AttackResult, flavor: int, damage: int,
    a: Option<CombatantStats>, t: Option<CombatantStats>, r: AttackReport) -> bool {
    let same = attacker@ == target@;
    &&& r.line@ == attack_words(attacker.shown(), target.shown(), result, flavor, int_text(damage))
    &&& exists|mid: Option<CombatantStats>| {
        &&& #[trigger] struck(victim_of(attacker, target, a, t), mid, lands(result), damage, r.killed is Some)
        &&& r.target_stats == if same { t } else { mid }
        &&& match if same { mid } else { a } {
            None => r.turn_over && r.attacker_stats is None,
            Some(b) => r.attacker_stats matches Some(e) && moved_on(b, e, r.turn_over),
        }
    }
    &&& r.killed matches Some(k) ==> k@ == target.shown() + " was killed!"@
}

/// Applies an attack whose dice have been rolled: logs it, hurts the target when it lands, and
/// moves the attacker on to its next attack.
pub fn apply_attack(attacker: &Combatant, target: &Combatant, result: AttackResult, flavor: i32, damage: i32,
    attacker_stats: Option<CombatantStats>, target_stats: Option<CombatantStats>) -> (r: AttackReport)
    requires
        damage >= 0,
        lands(result) ==> (victim_of(*attacker, *target, attacker_stats, target_stats) matches Some(v)
            ==> v.health.current_hp - damage >= i32::MIN),
        attacker_stats matches Some(s) ==> s.attack_index < u32::MAX,
    ensures
        attack_reported(*attacker, *target, result, flavor as int, damage as int, attacker_stats, target_stats, r),
{
    let same = attacker.same_as(target);
    let landed = match result { AttackResult::Success | AttackResult::CriticalSuccess => true, _ => false };
    let mut damage_text = String::new();
    push_int(&mut damage_text, damage as i64);
    assert(damage_text@ == int_text(damage as int));
    let line = attack_text(attacker, target, result, flavor, &damage_text);
    let ghost victim = victim_of(*attacker, *target, attacker_stats, target_stats);
    let ghost a0 = attacker_stats;
    let ghost t0 = target_stats;
    let mut attacker_stats = attacker_stats;
    let mut target_stats = target_stats;
    let mut dropped = false;
    if landed {
        if same {
            match attacker_stats {
                Some(mut s) => {
                    dropped = s.hurt(damage as u32);
                    attacker_stats = Some(s);
                },
                None => {},
            }
        } else {
            match target_stats {
                Some(mut s) => {
                    dropped = s.hurt(damage as u32);
                    target_stats = Some(s);
                },
                None => {},
            }
        }
    }
    let ghost mid = if same { attacker_stats } else { target_stats };
    assert(struck(victim, mid, lands(result), damage as int, dropped));
    let ghost mover = attacker_stats;
    let (attacker_stats, turn_over) = match attacker_stats {
        Some(mut s) => {
            let over = s.next_attack();
            (Some(s), over)
        },
        None => (None, true),
    };
    let killed = if dropped { Some(killed_text(target)) } else { None };
    let r = AttackReport { line, killed, turn_over, attacker_stats, target_stats };
    assert(mover == if same { mid } else { a0 });
    assert(r.target_stats == if same { t0 } else { mid });
    assert(struck(victim, mid, lands(result), damage as int, r.killed is Some));
    r
}

/// The most damage the attacker's current attack can do: a critical with every die at its highest
/// (1 when its stats are missing).
pub open spec fn most_damage(a: Option<CombatantStats>) -> int {
    match a {
        None => 1,
        Some(s) => {
            let d = current_attack(s);
            damage_done(d, top_damage_die(d), true, s.modifiers.melee_damage.spec_total(),
                s.modifiers.missile_damage.spec_total())
        },
    }
}

/// Whether the stats of an attacker can make its attack without any number overflowing.
pub open spec fn can_attack_with(s: CombatantStats) -> bool {
    let d = current_attack(s);
    &&& i32::MIN <= attack_bonus_of(s) <= i32::MAX
    &&& i32::MIN <= s.attack_throw + s.modifiers.melee_attack.spec_total() <= i32::MAX
    &&& i32::MIN <= s.attack_throw + s.modifiers.missile_attack.spec_total() <= i32::MAX
    &&& can_roll(d.dice())
    &&& roll_fits(d.dice())
    &&& damage_fits(d, true, s.modifiers.melee_damage.spec_total(), s.modifiers.missile_damage.spec_total())
    &&& s.attack_index < u32::MAX
}

/// What chance may give an attack: the result of an exploding d20 against the attacker's throw
/// (10 when its stats are missing) and the victim's armor (0 when missing), a d6 for the words of
/// a critical, and, when the blow lands, the damage of the attacker's current attack (doubled on
/// a critical; 1 when the attacker's stats are missing).
pub open spec fn attack_chance(a: Option<CombatantStats>, v: Option<CombatantStats>, modifier: int,
    result: AttackResult, flavor: int, damage: int) -> bool {
    &&& exists|r: int| exploding_d20(r) && result == attack_outcome(r,
        match a { Some(s) => attack_bonus_of(s), None => 10 },
        match v { Some(t) => armor_of(t), None => 0 },
        modifier)
    &&& (result == AttackResult::CriticalFail || result == AttackResult::CriticalSuccess) ==> 1 <= flavor <= 6
    &&& lands(result) ==> match a {
        None => damage == 1,
        Some(s) => exists|die: int| possible_result(current_attack(s).dice(), die)
            && damage == damage_done(current_attack(s), die, result == AttackResult::CriticalSuccess,
                s.modifiers.melee_damage.spec_total(), s.modifiers.missile_damage.spec_total()),
    }
}

impl Fight {
    /// Makes an attack of `attacker` on `target`, whose stats (when they can be found) come as
    /// `attacker_stats` and `target_stats`: rolls it, logs it, hurts the target when it lands and
    /// moves the attacker on to its next attack. When the report says the turn is over, the
    /// caller moves the fight on with `next_turn`.
    pub fn make_attack(attacker: &Combatant, target: &Combatant, attacker_stats: Option<CombatantStats>,
        target_stats: Option<CombatantStats>, modifier: i32) -> (r: AttackReport)
        requires
            attacker_stats matches Some(s) ==> can_attack_with(s),
            victim_of(*attacker, *target, attacker_stats, target_stats) matches Some(v) ==> {
                &&& i32::MIN <= armor_of(v) <= i32::MAX
                &&& v.health.current_hp - most_damage(attacker_stats) >= i32::MIN
            },
        ensures
            exists|result: AttackResult, flavor: int, damage: int|
                attack_chance(attacker_stats, victim_of(*attacker, *target, attacker_stats, target_stats),
                    modifier as int, result, flavor, damage)
                && attack_reported(*attacker, *target, result, flavor, damage, attacker_stats, target_stats, r),
    {
        let same = attacker.same_as(target);
        let ghost victim = victim_of(*attacker, *target, attacker_stats, target_stats);
        let result = {
            let v = if same { attacker_stats.as_ref() } else { target_stats.as_ref() };
            assert(match v { Some(x) => Some(*x), None => None::<CombatantStats> } == victim);
            attack_roll(attacker_stats.as_ref(), v, modifier)
        };
        let critical = match result { AttackResult::CriticalSuccess => true, _ => false };
        let flavor = match result {
            AttackResult::CriticalFail | AttackResult::CriticalSuccess => {
                let f = roll(DiceRoll::simple(1, 6));
                proof { crate::dice::lemma_single_die_range(DiceRoll::spec_simple(1, 6, 0, Drop::Nothing), f as int); }
                f
            },
            _ => 0,
        };
        let damage = match result {
            AttackResult::Success | AttackResult::CriticalSuccess => {
                let d = damage_roll(attacker_stats.as_ref(), critical);
                proof {
                    if attacker_stats is Some {
                        let s = attacker_stats->0;
                        let c = current_attack(s);
                        let die = choose|die: int| possible_result(c.dice(), die)
                            && d == damage_done(c, die, critical, s.modifiers.melee_damage.spec_total(),
                                s.modifiers.missile_damage.spec_total());
                        crate::dice::lemma_simple_roll_range(c.dice(), die);
                    }
                }
                d
            },
            _ => 0,
        };
        apply_attack(attacker, target, result, flavor, damage, attacker_stats, target_stats)
    }
}

impl CombatantStats {
    /// Moves on to the next attack of the routine; past its last attack, back to the first, and
    /// the turn is over.
    pub fn next_attack(&mut self) -> (turn_over: bool)
        requires
            old(self).attack_index < u32::MAX,
        ensures
            turn_over == (routine_attack(old(self).damage, old(self).attack_index + 1) is None),
            final(self).attack_index == if turn_over { 0 } else { old(self).attack_index + 1 },
            final(self).attributes == old(self).attributes,
            final(self).health == old(self).health,
            final(self).attack_throw == old(self).attack_throw,
            final(self).armor_class == old(self).armor_class,
            final(self).damage == old(self).damage,
            final(self).saving_throws == old(self).saving_throws,
            final(self).status_effects == old(self).status_effects,
            final(self).modifiers == old(self).modifiers,
    {
        self.attack_index = self.attack_index + 1;
        if self.current_damage().is_none() {
            self.attack_index = 0;
            true
        } else {
            false
        }
    }
}

/// `s` without the declarations of `c`.
pub open spec fn without_declaration(s: Seq<(Combatant, PreRoundAction)>, c: Combatant) -> Seq<(Combatant, PreRoundAction)>
    decreases s.len(),
{
    if s.len() == 0 {
        s
    } else {
        let rest = without_declaration(s.drop_last(), c);
        if s.last().0@ == c@ { rest } else { rest.push(s.last()) }
    }
}

proof fn lemma_declared_push(s: Seq<(Combatant, PreRoundAction)>, x: (Combatant, PreRoundAction), c: Combatant)
    ensures
        declared(s.push(x), c) == if declared_in(s, c) { declared(s, c) } else if x.0@ == c@ { x.1 } else { PreRoundAction::Nothing },
    decreases s.len(),
{
    if s.len() > 0 {
        assert(s.push(x).drop_first() == s.drop_first().push(x));
        assert(s.push(x)[0] == s[0]);
        lemma_declared_push(s.drop_first(), x, c);
        if s[0].0@ != c@ {
            if declared_in(s, c) {
                let i = choose|i: int| 0 <= i < s.len() && (#[trigger] s[i]).0@ == c@;
                assert(s.drop_first()[i - 1].0@ == c@);
            }
            if declared_in(s.drop_first(), c) {
                let i = choose|i: int| 0 <= i < s.drop_first().len() && (#[trigger] s.drop_first()[i]).0@ == c@;
                assert(s[i + 1].0@ == c@);
            }
        } else {
            assert(declared_in(s, c)) by { assert(s[0].0@ == c@); }
        }
    } else {
        assert(s.push(x)[0] == x);
        assert(s.push(x).drop_first().len() == 0);
        assert(declared(s.push(x).drop_first(), c) == PreRoundAction::Nothing);
    }
}

/// Whether `s` holds a declaration of `c`.
pub open spec fn declared_in(s: Seq<(Combatant, PreRoundAction)>, c: Combatant) -> bool {
    exists|i: int| 0 <= i < s.len() && (#[trigger] s[i]).0@ == c@
}

proof fn lemma_declared_nothing(s: Seq<(Combatant, PreRoundAction)>, c: Combatant)
    requires
        !declared_in(s, c),
    ensures
        declared(s, c) == PreRoundAction::Nothing,
    decreases s.len(),
{
    if s.len() > 0 {
        assert(s[0].0@ != c@);
        assert(!declared_in(s.drop_first(), c)) by {
            if declared_in(s.drop_first(), c) {
                let i = choose|i: int| 0 <= i < s.drop_first().len() && (#[trigger] s.drop_first()[i]).0@ == c@;
                assert(s[i + 1].0@ == c@);
            }
        }
        lemma_declared_nothing(s.drop_first(), c);
    }
}

/// Taking out the declarations of one combatant keeps every other combatant declared once.
proof fn lemma_without_declaration_unique(s: Seq<(Combatant, PreRoundAction)>, c: Combatant)
    requires
        unique_declarations(s),
    ensures
        unique_declarations(without_declaration(s, c)),
    decreases s.len(),
{
    if s.len() > 0 {
        let t = s.drop_last();
        let x = s.last();
        assert(unique_declarations(t)) by {
            assert forall|i: int, j: int| 0 <= i < j < t.len() implies (#[trigger] t[i]).0@ != (#[trigger] t[j]).0@ by {
                assert(t[i] == s[i] && t[j] == s[j]);
            }
        }
        lemma_without_declaration_unique(t, c);
        let rest = without_declaration(t, c);
        if x.0@ != c@ {
            lemma_without_declaration(t, c, x.0);
            assert(!declared_in(t, x.0)) by {
                if declared_in(t, x.0) {
                    let i = choose|i: int| 0 <= i < t.len() && (#[trigger] t[i]).0@ == x.0@;
                    assert(s[i].0@ != s[s.len() - 1].0@);
                }
            }
            let r = rest.push(x);
            assert forall|i: int, j: int| 0 <= i < j < r.len() implies (#[trigger] r[i]).0@ != (#[trigger] r[j]).0@ by {
                if j == rest.len() {
                    assert(r[i] == rest[i]);
                    if rest[i].0@ == x.0@ {
                        assert(declared_in(rest, x.0));
                    }
                } else {
                    assert(r[i] == rest[i] && r[j] == rest[j]);
                }
            }
        }
    }
}

proof fn lemma_without_declaration(s: Seq<(Combatant, PreRoundAction)>, c: Combatant, d: Combatant)
    ensures
        !declared_in(without_declaration(s, c), c),
        d@ != c@ ==> declared(without_declaration(s, c), d) == declared(s, d),
        d@ != c@ ==> (declared_in(without_declaration(s, c), d) == declared_in(s, d)),
    decreases s.len(),
{
    if s.len() > 0 {
        let t = s.drop_last();
        let x = s.last();
        let rest = without_declaration(t, c);
        lemma_without_declaration(t, c, d);
        assert(t.push(x) == s);
        lemma_declared_push(t, x, d);
        if !declared_in(t, d) {
            lemma_declared_nothing(t, d);
        }
        // `declared_in` of a sequence with one more entry at its end.
        assert forall|u: Seq<(Combatant, PreRoundAction)>, e: Combatant| #[trigger] declared_in(u.push(x), e)
            == (declared_in(u, e) || x.0@ == e@) by {
            if declared_in(u.push(x), e) && !(x.0@ == e@) {
                let i = choose|i: int| 0 <= i < u.push(x).len() && (#[trigger] u.push(x)[i]).0@ == e@;
                assert(u[i].0@ == e@);
            }
            if declared_in(u, e) {
                let i = choose|i: int| 0 <= i < u.len() && (#[trigger] u[i]).0@ == e@;
                assert(u.push(x)[i].0@ == e@);
            }
            if x.0@ == e@ {
                assert(u.push(x)[u.len() as int].0@ == e@);
            }
        }
        assert(declared_in(s, d) == (declared_in(t, d) || x.0@ == d@));
        if x.0@ != c@ {
            lemma_declared_push(rest, x, d);
            assert(declared_in(rest.push(x), c) == (declared_in(rest, c) || x.0@ == c@));
            assert(declared_in(rest.push(x), d) == (declared_in(rest, d) || x.0@ == d@));
            if d@ != c@ && !declared_in(rest, d) {
                lemma_declared_nothing(rest, d);
            }
        }
    }
}

/// Whether a player can declare for `c` now: the fight has started, no turn is under way, and
/// `c` fights for that player.
pub open spec fn can_declare(f: Fight, player: Seq<char>, c: Combatant) -> bool {
    &&& f.started
    &&& f.current_turn is None
    &&& exists|i: int| 0 <= i < f.combatants@.len() && (#[trigger] f.combatants@[i]).0@ == OwnerView::Player(player)
        && f.combatants@[i].1@ == c@
}

/// A declaration taken and then withdrawn (declaring no action for the same combatant) leaves
/// that combatant with no declaration and every other combatant's declaration as it was.
pub proof fn declaration_withdrawn(a: Fight, b: Fight, c: Fight, combatant: Combatant, action: PreRoundAction,
    x: Combatant)
    requires
        forall|y: Combatant| #[trigger] declared(b.declarations@, y)
            == if y@ == combatant@ { action } else { declared(a.declarations@, y) },
        forall|y: Combatant| #[trigger] declared(c.declarations@, y)
            == if y@ == combatant@ { PreRoundAction::Nothing } else { declared(b.declarations@, y) },
    ensures
        declared(c.declarations@, x) == if x@ == combatant@ { PreRoundAction::Nothing } else { declared(a.declarations@, x) },
{
    assert(declared(c.declarations@, x) == if x@ == combatant@ { PreRoundAction::Nothing } else { declared(b.declarations@, x) });
    assert(declared(b.declarations@, x) == if x@ == combatant@ { action } else { declared(a.declarations@, x) });
}

impl Fight {
    /// A player declares what a combatant of theirs will do this round (no action takes a
    /// declaration back). Says whether the declaration was taken.
    pub fn declare(&mut self, player: &String, combatant: &Combatant, action: PreRoundAction) -> (taken: bool)
        ensures
            taken == can_declare(*old(self), player@, *combatant),
            taken ==> forall|c: Combatant| #[trigger] declared(final(self).declarations@, c)
                == if c@ == combatant@ { action } else { declared(old(self).declarations@, c) },
            !taken ==> final(self).declarations == old(self).declarations,
            unique_declarations(old(self).declarations@) ==> unique_declarations(final(self).declarations@),
            final(self).started == old(self).started,
            final(self).combatants == old(self).combatants,
            final(self).turn_order == old(self).turn_order,
            final(self).current_turn == old(self).current_turn,
    {
        if !self.started || self.current_turn.is_some() {
            return false;
        }
        let n = self.combatants.len();
        let mut found = false;
        let owner = Owner::Player(player.clone());
        for i in 0..n
            invariant
                n == self.combatants@.len(),
                owner@ == OwnerView::Player(player@),
                found ==> can_declare(*self, player@, *combatant),
                !found ==> forall|j: int| 0 <= j < i ==> !((#[trigger] self.combatants@[j]).0@ == OwnerView::Player(player@)
                    && self.combatants@[j].1@ == combatant@),
                self.started,
                self.current_turn is None,
        {
            if !found && self.combatants[i].0.same_as(&owner) && self.combatants[i].1.same_as(combatant) {
                found = true;
            }
        }
        if !found {
            return false;
        }
        let ghost before = self.declarations@;
        let mut kept: Vec<(Combatant, PreRoundAction)> = Vec::new();
        let m = self.declarations.len();
        for j in 0..m
            invariant
                m == self.declarations@.len(),
                before == self.declarations@,
                kept@ == without_declaration(before.take(j as int), *combatant),
        {
            assert(before.take(j + 1).drop_last() == before.take(j as int));
            assert(before.take(j + 1).last() == before[j as int]);
            if !self.declarations[j].0.same_as(combatant) {
                kept.push((self.declarations[j].0.clone(), self.declarations[j].1.clone()));
            }
        }
        assert(before.take(m as int) == before);
        let ghost filtered = kept@;
        proof {
            if unique_declarations(before) {
                lemma_without_declaration_unique(before, *combatant);
            }
        }
        if !action.is_nothing() {
            kept.push((combatant.clone(), action));
            proof {
                lemma_without_declaration(before, *combatant, *combatant);
                if unique_declarations(before) {
                    assert forall|i: int, j: int| 0 <= i < j < kept@.len()
                        implies (#[trigger] kept@[i]).0@ != (#[trigger] kept@[j]).0@ by {
                        if j == filtered.len() {
                            assert(kept@[i] == filtered[i]);
                            assert(!declared_in(filtered, *combatant));
                        } else {
                            assert(kept@[i] == filtered[i] && kept@[j] == filtered[j]);
                        }
                    }
                }
            }
        }
        self.declarations = kept;
        proof {
            assert forall|c: Combatant| #[trigger] declared(self.declarations@, c)
                == if c@ == combatant@ { action } else { declared(before, c) } by {
                lemma_without_declaration(before, *combatant, c);
                if action is Nothing {
                    if c@ == combatant@ {
                        assert(!declared_in(filtered, c)) by {
                            if declared_in(filtered, c) {
                                let i = choose|i: int| 0 <= i < filtered.len() && (#[trigger] filtered[i]).0@ == c@;
                                assert(filtered[i].0@ == combatant@);
                            }
                        }
                        lemma_declared_nothing(filtered, c);
                    }
                } else {
                    lemma_declared_push(filtered, (*combatant, action), c);
                    if c@ == combatant@ {
                        assert(!declared_in(filtered, c)) by {
                            if declared_in(filtered, c) {
                                let i = choose|i: int| 0 <= i < filtered.len() && (#[trigger] filtered[i]).0@ == c@;
                                assert(filtered[i].0@ == combatant@);
                            }
                        }
                    } else if !declared_in(filtered, c) {
                        lemma_declared_nothing(filtered, c);
                    }
                }
            }
        }
        true
    }

    /// The DM refuses a combatant's declaration: the combatant no longer has one.
    pub fn deny_declaration(&mut self, combatant: &Combatant)
        ensures
            forall|c: Combatant| #[trigger] declared(final(self).declarations@, c)
                == if c@ == combatant@ { PreRoundAction::Nothing } else { declared(old(self).declarations@, c) },
            unique_declarations(old(self).declarations@) ==> unique_declarations(final(self).declarations@),
            final(self).started == old(self).started,
            final(self).combatants == old(self).combatants,
            final(self).turn_order == old(self).turn_order,
            final(self).current_turn == old(self).current_turn,
    {
        let ghost before = self.declarations@;
        let mut kept: Vec<(Combatant, PreRoundAction)> = Vec::new();
        let m = self.declarations.len();
        for j in 0..m
            invariant
                m == self.declarations@.len(),
                before == self.declarations@,
                kept@ == without_declaration(before.take(j as int), *combatant),
        {
            assert(before.take(j + 1).drop_last() == before.take(j as int));
            assert(before.take(j + 1).last() == before[j as int]);
            if !self.declarations[j].0.same_as(combatant) {
                kept.push((self.declarations[j].0.clone(), self.declarations[j].1.clone()));
            }
        }
        assert(before.take(m as int) == before);
        proof {
            if unique_declarations(before) {
                lemma_without_declaration_unique(before, *combatant);
            }
        }
        self.declarations = kept;
        proof {
            assert forall|c: Combatant| #[trigger] declared(self.declarations@, c)
                == if c@ == combatant@ { PreRoundAction::Nothing } else { declared(before, c) } by {
                lemma_without_declaration(before, *combatant, c);
                if c@ == combatant@ {
                    assert(!declared_in(self.declarations@, c)) by {
                        if declared_in(self.declarations@, c) {
                            let i = choose|i: int| 0 <= i < self.declarations@.len() && (#[trigger] self.declarations@[i]).0@ == c@;
                            assert(self.declarations@[i].0@ == combatant@);
                        }
                    }
                    lemma_declared_nothing(self.declarations@, c);
                }
            }
        }
    }

    /// The DM takes up what the player asked for in the turn under way, when they asked. Says
    /// whether there was such a request.
    pub fn take_player_action(&mut self) -> (taken: bool)
        ensures
            match old(self).current_turn {
                Some((t, TurnType::Movement { player_action: Some(p), .. })) => taken
                    && final(self).current_turn == Some((t, TurnType::Movement { action: p, player_action: Some(p) })),
                Some((t, TurnType::Attack { player_action: Some(p), .. })) => taken
                    && final(self).current_turn == Some((t, TurnType::Attack { action: p, player_action: Some(p) })),
                _ => !taken && final(self).current_turn == old(self).current_turn,
            },
            final(self).started == old(self).started,
            final(self).combatants == old(self).combatants,
            final(self).declarations == old(self).declarations,
            final(self).turn_order == old(self).turn_order,
    {
        let next = match &self.current_turn {
            Some((t, TurnType::Movement { player_action: Some(p), .. })) =>
                Some((*t, TurnType::Movement { action: *p, player_action: Some(*p) })),
            Some((t, TurnType::Attack { player_action: Some(p), .. })) =>
                Some((*t, TurnType::Attack { action: p.clone(), player_action: Some(p.clone()) })),
            _ => None,
        };
        match next {
            Some(turn) => {
                self.current_turn = Some(turn);
                true
            },
            None => false,
        }
    }

    /// The DM refuses what the player asked for in the turn under way.
    pub fn deny_player_action(&mut self)
        ensures
            final(self).current_turn == match old(self).current_turn {
                Some((t, TurnType::Movement { action, .. })) => Some((t, TurnType::Movement { action, player_action: None })),
                Some((t, TurnType::Attack { action, .. })) => Some((t, TurnType::Attack { action, player_action: None })),
                None => None,
            },
            final(self).started == old(self).started,
            final(self).combatants == old(self).combatants,
            final(self).declarations == old(self).declarations,
            final(self).turn_order == old(self).turn_order,
    {
        let next = match &self.current_turn {
            Some((t, TurnType::Movement { action, .. })) => Some((*t, TurnType::Movement { action: *action, player_action: None })),
            Some((t, TurnType::Attack { action, .. })) => Some((*t, TurnType::Attack { action: action.clone(), player_action: None })),
            None => None,
        };
        self.current_turn = next;
    }

    /// Whether the turn under way is a turn of a combatant of `player`, in its `movement` part
    /// (or else its attack part).
    pub open spec fn players_turn(self, player: Seq<char>, movement: bool) -> bool {
        match self.current_turn {
            Some((turn, tt)) => turn < self.turn_order@.len()
                && self.turn_order@[turn as int].0@ == OwnerView::Player(player)
                && (tt is Movement) == movement,
            None => false,
        }
    }

    /// A player asks for a movement in their combatant's turn.
    pub fn decide_movement(&mut self, player: &String, action: MovementAction)
        ensures
            final(self).current_turn == if old(self).players_turn(player@, true) {
                match old(self).current_turn {
                    Some((turn, TurnType::Movement { action: a, .. })) =>
                        Some((turn, TurnType::Movement { action: a, player_action: Some(action) })),
                    other => other,
                }
            } else {
                old(self).current_turn
            },
            final(self).started == old(self).started,
            final(self).combatants == old(self).combatants,
            final(self).declarations == old(self).declarations,
            final(self).turn_order == old(self).turn_order,
    {
        let owner = Owner::Player(player.clone());
        let turn = match &self.current_turn {
            Some((turn, TurnType::Movement { .. })) => *turn,
            _ => { return; },
        };
        if turn >= self.turn_order.len() || !self.turn_order[turn].0.same_as(&owner) {
            return;
        }
        let decided = match &self.current_turn {
            Some((_, TurnType::Movement { action: a, .. })) => *a,
            _ => { return; },
        };
        self.current_turn = Some((turn, TurnType::Movement { action: decided, player_action: Some(action) }));
    }

    /// A player asks for an attack action in their combatant's turn.
    pub fn decide_attack(&mut self, player: &String, action: AttackAction)
        ensures
            final(self).current_turn == if old(self).players_turn(player@, false) {
                match old(self).current_turn {
                    Some((turn, TurnType::Attack { action: a, .. })) =>
                        Some((turn, TurnType::Attack { action: a, player_action: Some(action) })),
                    other => other,
                }
            } else {
                old(self).current_turn
            },
            final(self).started == old(self).started,
            final(self).combatants == old(self).combatants,
            final(self).declarations == old(self).declarations,
            final(self).turn_order == old(self).turn_order,
    {
        let owner = Owner::Player(player.clone());
        let turn = match &self.current_turn {
            Some((turn, TurnType::Attack { .. })) => *turn,
            _ => { return; },
        };
        if turn >= self.turn_order.len() || !self.turn_order[turn].0.same_as(&owner) {
            return;
        }
        let decided = match &self.current_turn {
            Some((_, TurnType::Attack { action: a, .. })) => a.clone(),
            _ => { return; },
        };
        self.current_turn = Some((turn, TurnType::Attack { action: decided, player_action: Some(action) }));
    }
}

} // verus!
