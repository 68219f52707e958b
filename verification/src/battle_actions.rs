//! What one actor does on its move: a weapon attack, a spell, an item, or
//! the choice an enemy makes between its spells and its weapon.
use vstd::prelude::*;
use crate::combat::{alive_list, ally_index_ok, attack_with_buff, damaged, defense_with_buff, drained, enemy_index_ok, healed, hits_enemies, indices_below, lemma_alive_list, model_ok, party_spell_spec, retarget_ally_spec, spell_targets, stats_ok, with_ailment, with_enemy_ailments, with_enemy_stats, with_fall, with_party_ailments, with_party_items, with_party_stats, ActorAilments, ActorId, BattleModel, BattleState, TargetId, TurnResult, RANDOM_LIMIT};
use crate::enemy::enemy_spells_spec;
use crate::formula::{lemma_scaled_amount_bound, scaled_amount};
use crate::item::{item_effect, key_index, ItemEffect, ItemKey, ITEM_KEY_COUNT};
use crate::spell::{ailment_lands, ailment_success, heal_amount, lemma_spell_data, mp_drain_amount, spell_damage, spell_damage_spec, spell_entry_spec, Ailment, SpellEffect, SpellKind, SpellTarget, DEFENSE_DIVISOR};
use crate::stats::{attack_damage_spec, CombatStats};

verus! {

/// An enemy casts a spell when its spell roll is below this, in thousandths.
pub const SPELL_CHANCE: u32 = 500;

pub(crate) proof fn lemma_party_stats_ok(m: BattleModel, i: int, s: CombatStats)
    requires
        model_ok(m),
        0 <= i < m.party_stats.len(),
        stats_ok(s),
    ensures
        model_ok(with_party_stats(m, i, s)),
{
    let m2 = with_party_stats(m, i, s);
    assert forall|j: int| 0 <= j < m2.party_stats.len() implies stats_ok(#[trigger] m2.party_stats[j]) by {
        if j != i {
            assert(stats_ok(m.party_stats[j]));
        }
    }
}

pub(crate) proof fn lemma_enemy_stats_ok(m: BattleModel, i: int, s: CombatStats)
    requires
        model_ok(m),
        0 <= i < m.enemy_stats.len(),
        stats_ok(s),
    ensures
        model_ok(with_enemy_stats(m, i, s)),
{
    let m2 = with_enemy_stats(m, i, s);
    assert forall|j: int| 0 <= j < m2.enemy_stats.len() implies stats_ok(#[trigger] m2.enemy_stats[j]) by {
        if j != i {
            assert(stats_ok(m.enemy_stats[j]));
        }
    }
}

/// Damage of at least one keeps statistics in bounds.
pub(crate) proof fn lemma_damaged_ok(s: CombatStats, d: int)
    requires
        stats_ok(s),
        d >= 1,
    ensures
        stats_ok(damaged(s, d)),
        stats_ok(drained(s, d)),
        damaged(s, d).hp <= s.hp,
{
}

/// The first living party member, if any.
pub open spec fn first_alive(s: Seq<CombatStats>) -> Option<usize> {
    if alive_list(s).len() > 0 {
        Some(alive_list(s)[0])
    } else {
        None
    }
}

/// Waking a struck sleeper: the ailments without sleep, and the event.
pub open spec fn woken(a: ActorAilments) -> ActorAilments {
    ActorAilments { sleep: false, ..a }
}

/// A party member strikes an enemy with the weapon; a surviving sleeper
/// wakes up.
pub open spec fn party_attack_spec(m: BattleModel, pi: usize, ei: usize, random: u32) -> (BattleModel, Seq<TurnResult>) {
    let d = attack_damage_spec(attack_with_buff(m, pi as int), m.enemy_stats[ei as int].defense as int, random as int);
    let after = damaged(m.enemy_stats[ei as int], d as int);
    let m1 = with_enemy_stats(m, ei as int, after);
    let target = TargetId::Enemy(ei);
    let hit = TurnResult::Attack { attacker: ActorId::Party(pi), target, damage: d };
    if after.hp <= 0 {
        (m1, seq![hit, TurnResult::Defeated { target }])
    } else if m1.enemy_ailments[ei as int].sleep {
        (
            with_enemy_ailments(m1, ei as int, woken(m1.enemy_ailments[ei as int])),
            seq![hit, TurnResult::AilmentCured { target, ailment: Ailment::Sleep }],
        )
    } else {
        (m1, seq![hit])
    }
}

/// An enemy strikes the first living party member with its weapon; a
/// surviving sleeper wakes up. Nothing happens when the party is down.
pub open spec fn enemy_attack_spec(m: BattleModel, ei: usize, random: u32) -> (BattleModel, Seq<TurnResult>) {
    match first_alive(m.party_stats) {
        None => (m, Seq::empty()),
        Some(pi) => {
            let d = attack_damage_spec(m.enemy_stats[ei as int].attack as int, defense_with_buff(m, pi as int), random as int);
            let after = damaged(m.party_stats[pi as int], d as int);
            let m1 = with_party_stats(m, pi as int, after);
            let target = TargetId::Party(pi);
            let hit = TurnResult::Attack { attacker: ActorId::Enemy(ei), target, damage: d };
            if after.hp <= 0 {
                (m1, seq![hit, TurnResult::Defeated { target }])
            } else if m1.party_ailments[pi as int].sleep {
                (
                    with_party_ailments(m1, pi as int, woken(m1.party_ailments[pi as int])),
                    seq![hit, TurnResult::AilmentCured { target, ailment: Ailment::Sleep }],
                )
            } else {
                (m1, seq![hit])
            }
        },
    }
}

/// A party member uses an item: a healing item is used up, even when no
/// ally is left to heal, and heals the (retargeted) ally; other items do
/// nothing and stay in the bag.
pub open spec fn item_use_spec(m: BattleModel, user: usize, item: ItemKey, target: TargetId, random: u32) -> (BattleModel, Seq<TurnResult>) {
    match item_effect(item) {
        ItemEffect::Heal { power } => {
            let c = m.party_items[user as int];
            let k = key_index(item);
            if c[k] == 0 {
                (m, Seq::empty())
            } else {
                let m1 = with_party_items(m, user as int, c.update(k, (c[k] - 1) as u32));
                match retarget_ally_spec(m1, target) {
                    Some(TargetId::Party(pi)) => {
                        let a = scaled_amount(power as int, random as int);
                        (
                            with_party_stats(m1, pi as int, healed(m1.party_stats[pi as int], a as int)),
                            seq![TurnResult::ItemUsed { user: ActorId::Party(user), item, target: TargetId::Party(pi), amount: a }],
                        )
                    },
                    _ => (m1, Seq::empty()),
                }
            }
        },
        _ => (m, Seq::empty()),
    }
}

/// What an enemy's damaging, draining or ailment spell does to one party
/// member.
pub open spec fn enemy_spell_step(m: BattleModel, ei: usize, spell: SpellKind, t: usize, random: u32) -> (BattleModel, Seq<TurnResult>) {
    let c = ActorId::Enemy(ei);
    let e = spell_entry_spec(spell);
    let target = TargetId::Party(t);
    match e.effect {
        SpellEffect::Damage { base_damage } => {
            let d = spell_damage_spec(base_damage as int, defense_with_buff(m, t as int), DEFENSE_DIVISOR as int, random as int);
            let after = damaged(m.party_stats[t as int], d as int);
            (
                with_party_stats(m, t as int, after),
                with_fall(TurnResult::SpellDamage { caster: c, spell, target, damage: d }, target, after),
            )
        },
        SpellEffect::MpDrain { base_drain } => {
            let a = scaled_amount(base_drain as int, random as int);
            (
                with_party_stats(m, t as int, drained(m.party_stats[t as int], a as int)),
                seq![TurnResult::MpDrained { caster: c, spell, target, amount: a }],
            )
        },
        SpellEffect::Ailment { success_rate } => match e.ailment {
            Some(ail) => if ailment_lands(success_rate as int, random as int) {
                (
                    with_party_ailments(m, t as int, with_ailment(m.party_ailments[t as int], ail)),
                    seq![TurnResult::AilmentInflicted { caster: c, spell, target, ailment: ail }],
                )
            } else {
                (m, seq![TurnResult::AilmentResisted { caster: c, spell, target }])
            },
            None => (m, Seq::empty()),
        },
        _ => (m, Seq::empty()),
    }
}

/// An enemy's spell applied to each party member in turn.
pub open spec fn enemy_spell_fold(m: BattleModel, ei: usize, spell: SpellKind, targets: Seq<usize>, random: u32) -> (BattleModel, Seq<TurnResult>)
    decreases targets.len(),
{
    if targets.len() == 0 {
        (m, Seq::empty())
    } else {
        let (m1, r1) = enemy_spell_fold(m, ei, spell, targets.drop_last(), random);
        let (m2, r2) = enemy_spell_step(m1, ei, spell, targets.last(), random);
        (m2, r1 + r2)
    }
}

/// Whom an enemy's spell falls on: seen from the enemy, its enemies are the
/// party; a single-target spell takes the first living member.
pub open spec fn enemy_spell_targets(m: BattleModel, spell: SpellKind) -> Seq<usize> {
    match spell_entry_spec(spell).target_type {
        SpellTarget::SingleEnemy => match first_alive(m.party_stats) {
            Some(pi) => seq![pi],
            None => Seq::empty(),
        },
        SpellTarget::AllEnemies => alive_list(m.party_stats),
        _ => Seq::empty(),
    }
}

/// An enemy casts a spell: without enough MP it strikes with its weapon
/// instead; a healing spell heals the caster; a buff does nothing; the
/// other spells fall on the party.
pub open spec fn enemy_spell_spec(m: BattleModel, ei: usize, spell: SpellKind, random: u32) -> (BattleModel, Seq<TurnResult>) {
    let e = spell_entry_spec(spell);
    let s = m.enemy_stats[ei as int];
    if s.mp < e.mp_cost {
        enemy_attack_spec(m, ei, random)
    } else {
        let m1 = with_enemy_stats(m, ei as int, CombatStats { mp: (s.mp - e.mp_cost) as i32, ..s });
        match e.effect {
            SpellEffect::Heal { base_heal } => {
                let a = scaled_amount(base_heal as int, random as int);
                (
                    with_enemy_stats(m1, ei as int, healed(m1.enemy_stats[ei as int], a as int)),
                    seq![TurnResult::Healed { caster: ActorId::Enemy(ei), spell, target: TargetId::Enemy(ei), amount: a }],
                )
            },
            SpellEffect::AttackBuff { .. } => (m1, Seq::empty()),
            SpellEffect::Block { .. } => (m1, Seq::empty()),
            _ => enemy_spell_fold(m1, ei, spell, enemy_spell_targets(m1, spell), random),
        }
    }
}

/// The first spell in the list whose cost the MP covers.
pub open spec fn first_usable(spells: Seq<SpellKind>, mp: int) -> Option<SpellKind>
    decreases spells.len(),
{
    if spells.len() == 0 {
        None
    } else if spell_entry_spec(spells[0]).mp_cost <= mp {
        Some(spells[0])
    } else {
        first_usable(spells.drop_first(), mp)
    }
}

/// An enemy's move: with spells, a spell roll below the chance and a spell
/// it can pay for, it casts the first such spell; otherwise it strikes.
pub open spec fn enemy_action_spec(m: BattleModel, ei: usize, random: u32, spell_random: u32) -> (BattleModel, Seq<TurnResult>) {
    let spells = enemy_spells_spec(m.enemy_kinds[ei as int]);
    if spells.len() > 0 && spell_random < SPELL_CHANCE {
        match first_usable(spells, m.enemy_stats[ei as int].mp as int) {
            Some(sp) => enemy_spell_spec(m, ei, sp, random),
            None => enemy_attack_spec(m, ei, random),
        }
    } else {
        enemy_attack_spec(m, ei, random)
    }
}

/// A spell aimed at a single target names an existing one on its side.
pub open spec fn spell_target_ok(spell: SpellKind, target: TargetId, n_party: int, n_enemies: int) -> bool {
    let e = spell_entry_spec(spell);
    if hits_enemies(e.effect) {
        e.target_type is SingleEnemy ==> enemy_index_ok(target, n_enemies)
    } else {
        e.target_type is SingleAlly ==> ally_index_ok(target, n_party)
    }
}

/// The first spell in the list whose cost the MP covers.
pub fn first_usable_spell(spells: &Vec<SpellKind>, mp: i32) -> (r: Option<SpellKind>)
    ensures
        r == first_usable(spells@, mp as int),
{
    let mut i: usize = 0;
    proof { assert(spells@.skip(0) =~= spells@); }
    while i < spells.len()
        invariant
            i <= spells@.len(),
            first_usable(spells@, mp as int) == first_usable(spells@.skip(i as int), mp as int),
        decreases spells@.len() - i,
    {
        proof {
            assert(spells@.skip(i as int)[0] == spells@[i as int]);
            assert(spells@.skip(i as int).drop_first() =~= spells@.skip(i + 1));
        }
        let sp = spells[i];
        if sp.entry().mp_cost <= mp {
            return Some(sp);
        }
        i = i + 1;
    }
    proof { assert(spells@.skip(i as int).len() == 0); }
    None
}

impl BattleState {
    /// A party member strikes an enemy with the weapon.
    pub(crate) fn execute_party_attack(&mut self, pi: usize, ei: usize, random: u32) -> (r: Vec<TurnResult>)
        requires
            old(self).well_formed(),
            pi < old(self).party@.len(),
            ei < old(self).enemies@.len(),
        ensures
            (final(self).model(), r@) == party_attack_spec(old(self).model(), pi, ei, random),
            final(self).well_formed(),
            final(self).same_cast(*old(self)),
            final(self).turn_log@ == old(self).turn_log@,
    {
        let ghost m = self.model();
        let atk = self.effective_attack_with_buff(pi);
        let mut st = self.enemies[ei].stats;
        proof { assert(stats_ok(m.enemy_stats[ei as int])); }
        let d = CombatStats::calculate_damage(atk, st.defense, random);
        st.take_damage(d);
        proof { lemma_damaged_ok(m.enemy_stats[ei as int], d as int); }
        self.set_enemy_stats(ei, st);
        proof { lemma_enemy_stats_ok(m, ei as int, st); }
        let target = TargetId::Enemy(ei);
        let mut out: Vec<TurnResult> = Vec::new();
        out.push(TurnResult::Attack { attacker: ActorId::Party(pi), target, damage: d });
        if st.hp <= 0 {
            out.push(TurnResult::Defeated { target });
        } else if self.enemy_ailments[ei].sleep {
            let a = self.enemy_ailments[ei];
            self.set_enemy_ailments(ei, ActorAilments { sleep: false, ..a });
            out.push(TurnResult::AilmentCured { target, ailment: Ailment::Sleep });
        }
        proof { assert(out@ =~= party_attack_spec(m, pi, ei, random).1); }
        out
    }

    /// An enemy strikes the first living party member.
    pub(crate) fn execute_enemy_attack(&mut self, ei: usize, random: u32) -> (r: Vec<TurnResult>)
        requires
            old(self).well_formed(),
            ei < old(self).enemies@.len(),
        ensures
            (final(self).model(), r@) == enemy_attack_spec(old(self).model(), ei, random),
            final(self).well_formed(),
            final(self).same_cast(*old(self)),
            final(self).turn_log@ == old(self).turn_log@,
    {
        let ghost m = self.model();
        let alive = self.alive_party_indices();
        if alive.len() == 0 {
            return Vec::new();
        }
        let n_party = self.party.len();
        proof {
            assert(m.party_stats.len() == n_party);
            lemma_alive_list(m.party_stats);
            assert(alive@[0] == alive_list(m.party_stats)[0]);
        }
        let pi = alive[0];
        let def = self.effective_defense_with_buff(pi);
        proof { assert(stats_ok(m.enemy_stats[ei as int])); assert(stats_ok(m.party_stats[pi as int])); }
        let atk = self.enemies[ei].stats.attack;
        let d = CombatStats::calculate_damage(atk, def, random);
        let mut st = self.party[pi].stats;
        st.take_damage(d);
        proof { lemma_damaged_ok(m.party_stats[pi as int], d as int); }
        self.set_party_stats(pi, st);
        proof { lemma_party_stats_ok(m, pi as int, st); }
        let target = TargetId::Party(pi);
        let mut out: Vec<TurnResult> = Vec::new();
        out.push(TurnResult::Attack { attacker: ActorId::Enemy(ei), target, damage: d });
        if st.hp <= 0 {
            out.push(TurnResult::Defeated { target });
        } else if self.party_ailments[pi].sleep {
            let a = self.party_ailments[pi];
            self.set_party_ailments(pi, ActorAilments { sleep: false, ..a });
            out.push(TurnResult::AilmentCured { target, ailment: Ailment::Sleep });
        }
        proof { assert(out@ =~= enemy_attack_spec(m, ei, random).1); }
        out
    }

    /// A party member uses an item on an ally.
    pub(crate) fn execute_item(&mut self, user: usize, item: ItemKey, target: TargetId, random: u32) -> (r: Vec<TurnResult>)
        requires
            old(self).well_formed(),
            random <= RANDOM_LIMIT,
            user < old(self).party@.len(),
            item_effect(item) is Heal ==> ally_index_ok(target, old(self).party@.len() as int),
        ensures
            (final(self).model(), r@) == item_use_spec(old(self).model(), user, item, target, random),
            final(self).well_formed(),
            final(self).same_cast(*old(self)),
            final(self).turn_log@ == old(self).turn_log@,
    {
        let ghost m = self.model();
        match item.entry().effect {
            ItemEffect::Heal { power } => {
                if !self.take_member_item(user, item) {
                    return Vec::new();
                }
                let ghost m1 = self.model();
                proof {
                    assert(m.party_items[user as int].len() == ITEM_KEY_COUNT);
                    assert forall|j: int| 0 <= j < m1.party_items.len() implies (#[trigger] m1.party_items[j]).len() == ITEM_KEY_COUNT by {
                        assert(m.party_items[j].len() == ITEM_KEY_COUNT);
                    }
                    assert(model_ok(m1));
                }
                let t = self.retarget_ally(target);
                let n_party = self.party.len();
                match t {
                    Some(TargetId::Party(pi)) => {
                        proof {
                            assert(m1.party_stats.len() == n_party);
                            lemma_alive_list(m1.party_stats);
                            assert(0 <= power <= 100);
                            lemma_scaled_amount_bound(power as int, random as int);
                            assert(stats_ok(m1.party_stats[pi as int]));
                        }
                        let a = heal_amount(power, random);
                        let mut st = self.party[pi].stats;
                        st.hp = if st.hp + a < st.max_hp { st.hp + a } else { st.max_hp };
                        self.set_party_stats(pi, st);
                        proof { lemma_party_stats_ok(m1, pi as int, st); }
                        let mut out: Vec<TurnResult> = Vec::new();
                        out.push(TurnResult::ItemUsed { user: ActorId::Party(user), item, target: TargetId::Party(pi), amount: a });
                        proof { assert(out@ =~= item_use_spec(m, user, item, target, random).1); }
                        out
                    },
                    _ => Vec::new(),
                }
            },
            _ => Vec::new(),
        }
    }

    /// The indices a party member's spell falls on.
    pub(crate) fn spell_targets_of(&self, spell: SpellKind, target: TargetId) -> (r: Vec<usize>)
        requires
            spell_target_ok(spell, target, self.party@.len() as int, self.enemies@.len() as int),
        ensures
            r@ == spell_targets(self.model(), spell, target),
            hits_enemies(spell_entry_spec(spell).effect) ==> indices_below(r@, self.enemies@.len() as int),
            !hits_enemies(spell_entry_spec(spell).effect) ==> indices_below(r@, self.party@.len() as int),
    {
        let ghost m = self.model();
        let n_party = self.party.len();
        let n_enemies = self.enemies.len();
        proof {
            assert(m.enemy_stats.len() == n_enemies);
            assert(m.party_stats.len() == n_party);
            lemma_alive_list(m.enemy_stats);
            lemma_alive_list(m.party_stats);
        }
        let e = spell.entry();
        let hits = match e.effect {
            SpellEffect::Damage { .. } | SpellEffect::MpDrain { .. } | SpellEffect::Ailment { .. } => true,
            _ => false,
        };
        let mut out: Vec<usize> = Vec::new();
        if hits {
            match e.target_type {
                SpellTarget::SingleEnemy => {
                    match self.retarget_enemy(target) {
                        Some(TargetId::Enemy(i)) => {
                            out.push(i);
                        },
                        _ => {},
                    }
                },
                SpellTarget::AllEnemies => {
                    out = self.alive_enemy_indices();
                },
                _ => {},
            }
        } else {
            match e.target_type {
                SpellTarget::SingleAlly => {
                    match self.retarget_ally(target) {
                        Some(TargetId::Party(i)) => {
                            out.push(i);
                        },
                        _ => {},
                    }
                },
                SpellTarget::AllAllies => {
                    out = self.alive_party_indices();
                },
                _ => {},
            }
        }
        proof {
            assert(out@ =~= spell_targets(m, spell, target));
        }
        out
    }

    /// A party member casts a spell; without enough MP nothing happens.
    pub(crate) fn execute_spell(&mut self, caster: usize, spell: SpellKind, target: TargetId, random: u32) -> (r: Vec<TurnResult>)
        requires
            old(self).well_formed(),
            caster < old(self).party@.len(),
            old(self).party@[caster as int].stats.mp >= spell_entry_spec(spell).mp_cost ==> {
                &&& random <= RANDOM_LIMIT
                &&& spell_target_ok(spell, target, old(self).party@.len() as int, old(self).enemies@.len() as int)
            },
        ensures
            (final(self).model(), r@) == party_spell_spec(old(self).model(), caster, spell, target, random),
            old(self).party@[caster as int].stats.mp < spell_entry_spec(spell).mp_cost ==> {
                &&& r@.len() == 0
                &&& final(self).party@ == old(self).party@
                &&& final(self).enemies@ == old(self).enemies@
                &&& final(self).party_buffs@ == old(self).party_buffs@
                &&& final(self).party_ailments@ == old(self).party_ailments@
                &&& final(self).enemy_ailments@ == old(self).enemy_ailments@
            },
            final(self).well_formed(),
            final(self).same_cast(*old(self)),
            final(self).turn_log@ == old(self).turn_log@,
    {
        let ghost m = self.model();
        proof { lemma_spell_data(spell); }
        let e = spell.entry();
        let mut st = self.party[caster].stats;
        if !st.use_mp(e.mp_cost) {
            return Vec::new();
        }
        proof { assert(stats_ok(m.party_stats[caster as int])); }
        self.set_party_stats(caster, st);
        proof { lemma_party_stats_ok(m, caster as int, st); }
        let targets = self.spell_targets_of(spell, target);
        self.party_spell_all(caster, spell, &targets, random)
    }

    /// One party member hit by an enemy's spell.
    pub(crate) fn enemy_spell_on(&mut self, ei: usize, spell: SpellKind, t: usize, random: u32) -> (r: Vec<TurnResult>)
        requires
            old(self).well_formed(),
            random <= RANDOM_LIMIT,
            ei < old(self).enemies@.len(),
            t < old(self).party@.len(),
        ensures
            (final(self).model(), r@) == enemy_spell_step(old(self).model(), ei, spell, t, random),
            final(self).well_formed(),
            final(self).same_cast(*old(self)),
            final(self).turn_log@ == old(self).turn_log@,
    {
        let ghost m = self.model();
        let c = ActorId::Enemy(ei);
        let target = TargetId::Party(t);
        let e = spell.entry();
        proof {
            lemma_spell_data(spell);
            assert(stats_ok(m.party_stats[t as int]));
        }
        let mut out: Vec<TurnResult> = Vec::new();
        match e.effect {
            SpellEffect::Damage { base_damage } => {
                let def = self.effective_defense_with_buff(t);
                let d = spell_damage(base_damage, def, DEFENSE_DIVISOR, random);
                let mut st = self.party[t].stats;
                st.take_damage(d);
                proof { lemma_damaged_ok(m.party_stats[t as int], d as int); }
                self.set_party_stats(t, st);
                proof { lemma_party_stats_ok(m, t as int, st); }
                out.push(TurnResult::SpellDamage { caster: c, spell, target, damage: d });
                if st.hp <= 0 {
                    out.push(TurnResult::Defeated { target });
                }
            },
            SpellEffect::MpDrain { base_drain } => {
                let a = mp_drain_amount(base_drain, random);
                let mut st = self.party[t].stats;
                st.drain_mp(a);
                proof { lemma_damaged_ok(m.party_stats[t as int], a as int); }
                self.set_party_stats(t, st);
                proof { lemma_party_stats_ok(m, t as int, st); }
                out.push(TurnResult::MpDrained { caster: c, spell, target, amount: a });
            },
            SpellEffect::Ailment { success_rate } => {
                match e.ailment {
                    Some(ail) => {
                        if ailment_success(success_rate, random) {
                            let a = self.party_ailments[t];
                            let a2 = match ail {
                                Ailment::Sleep => ActorAilments { sleep: true, ..a },
                                Ailment::Poison => ActorAilments { poison: true, ..a },
                            };
                            self.set_party_ailments(t, a2);
                            out.push(TurnResult::AilmentInflicted { caster: c, spell, target, ailment: ail });
                        } else {
                            out.push(TurnResult::AilmentResisted { caster: c, spell, target });
                        }
                    },
                    None => {},
                }
            },
            _ => {},
        }
        proof { assert(out@ =~= enemy_spell_step(m, ei, spell, t, random).1); }
        out
    }

    /// An enemy's spell applied to each listed party member in turn.
    pub(crate) fn enemy_spell_all(&mut self, ei: usize, spell: SpellKind, targets: &Vec<usize>, random: u32) -> (r: Vec<TurnResult>)
        requires
            old(self).well_formed(),
            random <= RANDOM_LIMIT,
            ei < old(self).enemies@.len(),
            indices_below(targets@, old(self).party@.len() as int),
        ensures
            (final(self).model(), r@) == enemy_spell_fold(old(self).model(), ei, spell, targets@, random),
            final(self).well_formed(),
            final(self).same_cast(*old(self)),
            final(self).turn_log@ == old(self).turn_log@,
    {
        let mut out: Vec<TurnResult> = Vec::new();
        let mut i: usize = 0;
        while i < targets.len()
            invariant
                i <= targets@.len(),
                self.well_formed(),
                random <= RANDOM_LIMIT,
                ei < self.enemies@.len(),
                self.same_cast(*old(self)),
                self.turn_log@ == old(self).turn_log@,
                indices_below(targets@, self.party@.len() as int),
                (self.model(), out@) == enemy_spell_fold(old(self).model(), ei, spell, targets@.take(i as int), random),
            decreases targets@.len() - i,
        {
            proof {
                assert(targets@.take(i + 1).drop_last() =~= targets@.take(i as int));
                assert(targets@.take(i + 1).last() == targets@[i as int]);
            }
            let t = targets[i];
            let mut step = self.enemy_spell_on(ei, spell, t, random);
            out.append(&mut step);
            i = i + 1;
        }
        proof { assert(targets@.take(targets@.len() as int) =~= targets@); }
        out
    }

    /// An enemy casts a spell; without enough MP it strikes instead.
    pub fn execute_enemy_spell(&mut self, enemy_idx: usize, spell: SpellKind, random_factor: u32) -> (r: Vec<TurnResult>)
        requires
            old(self).well_formed(),
            random_factor <= RANDOM_LIMIT,
            enemy_idx < old(self).enemies@.len(),
        ensures
            (final(self).model(), r@) == enemy_spell_spec(old(self).model(), enemy_idx, spell, random_factor),
            final(self).well_formed(),
            final(self).same_cast(*old(self)),
            final(self).turn_log@ == old(self).turn_log@,
    {
        let ghost m = self.model();
        let ei = enemy_idx;
        let random = random_factor;
        proof { lemma_spell_data(spell); }
        let e = spell.entry();
        let mut st = self.enemies[ei].stats;
        if !st.use_mp(e.mp_cost) {
            return self.execute_enemy_attack(ei, random);
        }
        proof { assert(stats_ok(m.enemy_stats[ei as int])); }
        self.set_enemy_stats(ei, st);
        proof { lemma_enemy_stats_ok(m, ei as int, st); }
        let ghost m1 = self.model();
        match e.effect {
            SpellEffect::Heal { base_heal } => {
                proof { lemma_scaled_amount_bound(base_heal as int, random as int); }
                let a = heal_amount(base_heal, random);
                let mut st2 = self.enemies[ei].stats;
                proof {
                    assert(st2 == m1.enemy_stats[ei as int]);
                    assert(stats_ok(st2));
                }
                st2.hp = if st2.hp + a < st2.max_hp { st2.hp + a } else { st2.max_hp };
                self.set_enemy_stats(ei, st2);
                proof { lemma_enemy_stats_ok(m1, ei as int, st2); }
                let mut out: Vec<TurnResult> = Vec::new();
                out.push(TurnResult::Healed { caster: ActorId::Enemy(ei), spell, target: TargetId::Enemy(ei), amount: a });
                proof { assert(out@ =~= enemy_spell_spec(m, ei, spell, random).1); }
                out
            },
            SpellEffect::AttackBuff { .. } => Vec::new(),
            SpellEffect::Block { .. } => Vec::new(),
            _ => {
                let alive = self.alive_party_indices();
                let n_party = self.party.len();
                proof {
                    assert(m1.party_stats.len() == n_party);
                    lemma_alive_list(m1.party_stats);
                }
                let mut targets: Vec<usize> = Vec::new();
                match e.target_type {
                    SpellTarget::SingleEnemy => {
                        if alive.len() > 0 {
                            targets.push(alive[0]);
                        }
                    },
                    SpellTarget::AllEnemies => {
                        targets = alive;
                    },
                    _ => {},
                }
                proof { assert(targets@ =~= enemy_spell_targets(m1, spell)); }
                self.enemy_spell_all(ei, spell, &targets, random)
            },
        }
    }

    /// An enemy's move: a spell when the roll and its MP allow, else its weapon.
    pub(crate) fn execute_enemy_action(&mut self, ei: usize, random: u32, spell_random: u32) -> (r: Vec<TurnResult>)
        requires
            old(self).well_formed(),
            random <= RANDOM_LIMIT,
            ei < old(self).enemies@.len(),
        ensures
            (final(self).model(), r@) == enemy_action_spec(old(self).model(), ei, random, spell_random),
            final(self).well_formed(),
            final(self).same_cast(*old(self)),
            final(self).turn_log@ == old(self).turn_log@,
    {
        let spells = self.enemies[ei].kind.spells();
        if spells.len() > 0 && spell_random < SPELL_CHANCE {
            match first_usable_spell(&spells, self.enemies[ei].stats.mp) {
                Some(sp) => {
                    return self.execute_enemy_spell(ei, sp, random);
                },
                None => {},
            }
        }
        self.execute_enemy_attack(ei, random)
    }
}

} // verus!
