//! Every fall is reported: whenever a party member or an enemy goes from
//! above zero HP to zero or below during a turn, by a blow, a spell or
//! poison, the turn's results hold its defeat.
use vstd::prelude::*;
use crate::battle_actions::{
    enemy_action_spec, enemy_attack_spec, enemy_spell_fold, enemy_spell_spec, enemy_spell_step, enemy_spell_targets,
    first_alive, first_usable, item_use_spec, party_attack_spec, spell_target_ok, woken,
};
use crate::battle_turn::{
    action_order_spec, actor_ok, actor_step, actors_fold, flee_fold, has_flee, lemma_action_order, move_ok, move_ok_at,
    party_move_spec, tick_buffs_spec, tick_poison_spec, turn_commands_ok, turn_spec, command_ok, random_at,
    poisoned, poisoned_prefix,
};
use crate::combat::{
    alive_list, damaged, drained, healed, hits_enemies, lemma_alive_list, party_spell_fold, party_spell_step,
    retarget_ally_spec, retarget_enemy_spec, spell_targets, with_enemy_stats, with_party_stats, ally_index_ok,
    enemy_index_ok, model_ok, ActorId, BattleAction, BattleModel, TargetId, TurnResult,
};
use crate::formula::scaled_amount;
use crate::spell::{spell_damage_spec, spell_entry_spec, SpellEffect, SpellKind, SpellTarget};
use crate::stats::{attack_damage_spec, CombatStats};
use crate::turn_laws::lemma_poison_reports_falls;

verus! {

/// No HP below zero or above its maximum.
pub open spec fn capped(s: Seq<CombatStats>) -> bool {
    forall|k: int| 0 <= k < s.len() ==> 0 <= #[trigger] s[k].hp <= s[k].max_hp
}

/// No HP below zero or above its maximum, on either side.
pub open spec fn model_capped(m: BattleModel) -> bool {
    capped(m.party_stats) && capped(m.enemy_stats)
}

/// From battle `a` to battle `b` with results `rs`: the sides keep their
/// sizes, and every actor that went from above zero HP to zero or below has
/// its defeat among the results.
pub open spec fn falls_reported(a: BattleModel, b: BattleModel, rs: Seq<TurnResult>) -> bool {
    &&& b.party_stats.len() == a.party_stats.len()
    &&& b.enemy_stats.len() == a.enemy_stats.len()
    &&& forall|i: int| 0 <= i < a.party_stats.len() && a.party_stats[i].hp > 0 && #[trigger] b.party_stats[i].hp <= 0
        ==> rs.contains(TurnResult::Defeated { target: TargetId::Party(i as usize) })
    &&& forall|j: int| 0 <= j < a.enemy_stats.len() && a.enemy_stats[j].hp > 0 && #[trigger] b.enemy_stats[j].hp <= 0
        ==> rs.contains(TurnResult::Defeated { target: TargetId::Enemy(j as usize) })
}

proof fn lemma_contains_left(a: Seq<TurnResult>, b: Seq<TurnResult>, x: TurnResult)
    requires
        a.contains(x),
    ensures
        (a + b).contains(x),
{
    let k = choose|k: int| 0 <= k < a.len() && a[k] == x;
    assert((a + b)[k] == x);
}

proof fn lemma_contains_right(a: Seq<TurnResult>, b: Seq<TurnResult>, x: TurnResult)
    requires
        b.contains(x),
    ensures
        (a + b).contains(x),
{
    let k = choose|k: int| 0 <= k < b.len() && b[k] == x;
    assert((a + b)[a.len() + k] == x);
}

/// Two stretches of a turn, each reporting its falls, report the falls of
/// both together.
proof fn lemma_falls_chain(a: BattleModel, b: BattleModel, c: BattleModel, r1: Seq<TurnResult>, r2: Seq<TurnResult>)
    requires
        falls_reported(a, b, r1),
        falls_reported(b, c, r2),
    ensures
        falls_reported(a, c, r1 + r2),
{
    assert forall|i: int| 0 <= i < a.party_stats.len() && a.party_stats[i].hp > 0 && #[trigger] c.party_stats[i].hp <= 0
        implies (r1 + r2).contains(TurnResult::Defeated { target: TargetId::Party(i as usize) }) by {
        let x = TurnResult::Defeated { target: TargetId::Party(i as usize) };
        if b.party_stats[i].hp > 0 {
            lemma_contains_right(r1, r2, x);
        } else {
            lemma_contains_left(r1, r2, x);
        }
    }
    assert forall|j: int| 0 <= j < a.enemy_stats.len() && a.enemy_stats[j].hp > 0 && #[trigger] c.enemy_stats[j].hp <= 0
        implies (r1 + r2).contains(TurnResult::Defeated { target: TargetId::Enemy(j as usize) }) by {
        let x = TurnResult::Defeated { target: TargetId::Enemy(j as usize) };
        if b.enemy_stats[j].hp > 0 {
            lemma_contains_right(r1, r2, x);
        } else {
            lemma_contains_left(r1, r2, x);
        }
    }
}

/// Damage of at least one never raises HP and never leaves it above the
/// maximum.
proof fn lemma_damaged(s: CombatStats, d: int)
    requires
        d >= 1,
        0 <= s.hp <= s.max_hp,
    ensures
        0 <= damaged(s, d).hp <= s.hp,
        damaged(s, d).hp <= damaged(s, d).max_hp,
        damaged(s, d).max_hp == s.max_hp,
{
}

/// Healing of at least one keeps a living actor alive and never goes past
/// the maximum.
proof fn lemma_healed(s: CombatStats, a: int)
    requires
        a >= 1,
        0 <= s.hp <= s.max_hp,
    ensures
        s.hp > 0 ==> healed(s, a).hp > 0,
        0 <= healed(s, a).hp,
        healed(s, a).hp <= healed(s, a).max_hp,
{
}

/// The stats of one side with one entry replaced by `v`, which keeps the
/// maximum HP at or above the HP.
proof fn lemma_capped_update(s: Seq<CombatStats>, j: int, v: CombatStats)
    requires
        capped(s),
        0 <= j < s.len(),
        0 <= v.hp <= v.max_hp,
    ensures
        capped(s.update(j, v)),
{
    assert forall|k: int| 0 <= k < s.update(j, v).len() implies 0 <= #[trigger] s.update(j, v)[k].hp <= s.update(j, v)[k].max_hp by {
        if k != j {
            assert(s.update(j, v)[k] == s[k]);
        }
    }
}

/// Nothing changes on either side's statistics.
proof fn lemma_same_stats(a: BattleModel, b: BattleModel, rs: Seq<TurnResult>)
    requires
        b.party_stats == a.party_stats,
        b.enemy_stats == a.enemy_stats,
    ensures
        falls_reported(a, b, rs),
{
}

/// One enemy's statistics replaced: its fall, if it falls, is reported.
proof fn lemma_enemy_hit(m: BattleModel, t: int, after: CombatStats, rs: Seq<TurnResult>)
    requires
        0 <= t < m.enemy_stats.len(),
        m.enemy_stats[t].hp > 0 && after.hp <= 0 ==> rs.contains(TurnResult::Defeated { target: TargetId::Enemy(t as usize) }),
    ensures
        falls_reported(m, with_enemy_stats(m, t, after), rs),
{
    let m2 = with_enemy_stats(m, t, after);
    assert forall|j: int| 0 <= j < m.enemy_stats.len() && m.enemy_stats[j].hp > 0 && #[trigger] m2.enemy_stats[j].hp <= 0
        implies rs.contains(TurnResult::Defeated { target: TargetId::Enemy(j as usize) }) by {
        if j != t {
            assert(m2.enemy_stats[j] == m.enemy_stats[j]);
        }
    }
}

/// One party member's statistics replaced: its fall, if it falls, is
/// reported.
proof fn lemma_party_hit(m: BattleModel, t: int, after: CombatStats, rs: Seq<TurnResult>)
    requires
        0 <= t < m.party_stats.len(),
        m.party_stats[t].hp > 0 && after.hp <= 0 ==> rs.contains(TurnResult::Defeated { target: TargetId::Party(t as usize) }),
    ensures
        falls_reported(m, with_party_stats(m, t, after), rs),
{
    let m2 = with_party_stats(m, t, after);
    assert forall|i: int| 0 <= i < m.party_stats.len() && m.party_stats[i].hp > 0 && #[trigger] m2.party_stats[i].hp <= 0
        implies rs.contains(TurnResult::Defeated { target: TargetId::Party(i as usize) }) by {
        if i != t {
            assert(m2.party_stats[i] == m.party_stats[i]);
        }
    }
}

/// A hit and the fall it may cause.
proof fn lemma_with_fall(hit: TurnResult, target: TargetId, after: CombatStats)
    ensures
        after.hp <= 0 ==> crate::combat::with_fall(hit, target, after).contains(TurnResult::Defeated { target }),
{
    if after.hp <= 0 {
        assert(crate::combat::with_fall(hit, target, after)[1] == TurnResult::Defeated { target });
    }
}

/// A party member's spell on one target.
proof fn lemma_party_spell_step_falls(m: BattleModel, caster: usize, spell: SpellKind, t: usize, random: u32)
    requires
        model_capped(m),
        hits_enemies(spell_entry_spec(spell).effect) ==> t < m.enemy_stats.len(),
        !hits_enemies(spell_entry_spec(spell).effect) ==> t < m.party_stats.len(),
    ensures
        falls_reported(m, party_spell_step(m, caster, spell, t, random).0, party_spell_step(m, caster, spell, t, random).1),
        model_capped(party_spell_step(m, caster, spell, t, random).0),
{
    let r = party_spell_step(m, caster, spell, t, random);
    let c = ActorId::Party(caster);
    match spell_entry_spec(spell).effect {
        SpellEffect::Damage { base_damage } => {
            let d = spell_damage_spec(base_damage as int, m.enemy_stats[t as int].defense as int, crate::spell::DEFENSE_DIVISOR as int, random as int);
            let after = damaged(m.enemy_stats[t as int], d as int);
            lemma_damaged(m.enemy_stats[t as int], d as int);
            lemma_with_fall(TurnResult::SpellDamage { caster: c, spell, target: TargetId::Enemy(t), damage: d }, TargetId::Enemy(t), after);
            lemma_enemy_hit(m, t as int, after, r.1);
            lemma_capped_update(m.enemy_stats, t as int, after);
        },
        SpellEffect::Heal { base_heal } => {
            let a = scaled_amount(base_heal as int, random as int);
            let after = healed(m.party_stats[t as int], a as int);
            lemma_healed(m.party_stats[t as int], a as int);
            lemma_party_hit(m, t as int, after, r.1);
            lemma_capped_update(m.party_stats, t as int, after);
        },
        SpellEffect::MpDrain { base_drain } => {
            let a = scaled_amount(base_drain as int, random as int);
            let after = drained(m.enemy_stats[t as int], a as int);
            lemma_enemy_hit(m, t as int, after, r.1);
            lemma_capped_update(m.enemy_stats, t as int, after);
        },
        _ => {
            lemma_same_stats(m, r.0, r.1);
        },
    }
}

/// Every target of a spell lies on the side its effect falls on.
pub open spec fn targets_in_range(m: BattleModel, spell: SpellKind, ts: Seq<usize>) -> bool {
    forall|k: int| 0 <= k < ts.len() ==> if hits_enemies(spell_entry_spec(spell).effect) {
        #[trigger] ts[k] < m.enemy_stats.len()
    } else {
        ts[k] < m.party_stats.len()
    }
}

proof fn lemma_party_spell_fold_falls(m: BattleModel, caster: usize, spell: SpellKind, ts: Seq<usize>, random: u32)
    requires
        model_capped(m),
        targets_in_range(m, spell, ts),
    ensures
        falls_reported(m, party_spell_fold(m, caster, spell, ts, random).0, party_spell_fold(m, caster, spell, ts, random).1),
        model_capped(party_spell_fold(m, caster, spell, ts, random).0),
    decreases ts.len(),
{
    if ts.len() == 0 {
        lemma_same_stats(m, m, Seq::empty());
    } else {
        let d = ts.drop_last();
        assert forall|k: int| 0 <= k < d.len() implies if hits_enemies(spell_entry_spec(spell).effect) {
            #[trigger] d[k] < m.enemy_stats.len()
        } else {
            d[k] < m.party_stats.len()
        } by {
            assert(d[k] == ts[k]);
        }
        lemma_party_spell_fold_falls(m, caster, spell, d, random);
        let (m1, r1) = party_spell_fold(m, caster, spell, d, random);
        assert(ts[ts.len() - 1] == ts.last());
        lemma_party_spell_step_falls(m1, caster, spell, ts.last(), random);
        let (m2, r2) = party_spell_step(m1, caster, spell, ts.last(), random);
        lemma_falls_chain(m, m1, m2, r1, r2);
    }
}

/// A spell's targets, when its aim names existing actors.
proof fn lemma_spell_targets_range(m: BattleModel, spell: SpellKind, target: TargetId)
    requires
        spell_target_ok(spell, target, m.party_stats.len() as int, m.enemy_stats.len() as int),
        m.party_stats.len() <= usize::MAX,
        m.enemy_stats.len() <= usize::MAX,
    ensures
        targets_in_range(m, spell, spell_targets(m, spell, target)),
{
    lemma_alive_list(m.party_stats);
    lemma_alive_list(m.enemy_stats);
}

/// A party member's move.
proof fn lemma_party_move_falls(m: BattleModel, pi: usize, cmd: BattleAction, random: u32)
    requires
        model_capped(m),
        pi < m.party_stats.len(),
        m.party_stats.len() <= usize::MAX,
        m.enemy_stats.len() <= usize::MAX,
        command_ok(cmd, m.party_stats.len() as int, m.enemy_stats.len() as int),
    ensures
        falls_reported(m, party_move_spec(m, pi, cmd, random).0, party_move_spec(m, pi, cmd, random).1),
        model_capped(party_move_spec(m, pi, cmd, random).0),
{
    let r = party_move_spec(m, pi, cmd, random);
    lemma_alive_list(m.party_stats);
    lemma_alive_list(m.enemy_stats);
    match cmd {
        BattleAction::Attack { target } => {
            match retarget_enemy_spec(m, target) {
                Some(TargetId::Enemy(ei)) => {
                    if alive_list(m.enemy_stats).len() > 0 {
                        assert(alive_list(m.enemy_stats)[0] < m.enemy_stats.len());
                    }
                    assert(ei < m.enemy_stats.len());
                    let d = attack_damage_spec(crate::combat::attack_with_buff(m, pi as int), m.enemy_stats[ei as int].defense as int, random as int);
                    let after = damaged(m.enemy_stats[ei as int], d as int);
                    lemma_damaged(m.enemy_stats[ei as int], d as int);
                    let m1 = with_enemy_stats(m, ei as int, after);
                    if after.hp <= 0 {
                        assert(r.1[1] == TurnResult::Defeated { target: TargetId::Enemy(ei) });
                    }
                    lemma_enemy_hit(m, ei as int, after, r.1);
                    lemma_capped_update(m.enemy_stats, ei as int, after);
                    assert(r.0.party_stats == m1.party_stats && r.0.enemy_stats == m1.enemy_stats);
                },
                _ => {
                    lemma_same_stats(m, r.0, r.1);
                },
            }
        },
        BattleAction::Spell { spell, target } => {
            let s = m.party_stats[pi as int];
            let cost = spell_entry_spec(spell).mp_cost;
            if s.mp < cost {
                lemma_same_stats(m, r.0, r.1);
            } else {
                let v = CombatStats { mp: (s.mp - cost) as i32, ..s };
                let m1 = with_party_stats(m, pi as int, v);
                lemma_party_hit(m, pi as int, v, Seq::empty());
                lemma_capped_update(m.party_stats, pi as int, v);
                lemma_spell_targets_range(m1, spell, target);
                lemma_party_spell_fold_falls(m1, pi, spell, spell_targets(m1, spell, target), random);
                let (m2, r2) = party_spell_fold(m1, pi, spell, spell_targets(m1, spell, target), random);
                lemma_falls_chain(m, m1, m2, Seq::empty(), r2);
                assert(Seq::<TurnResult>::empty() + r2 == r2);
            }
        },
        BattleAction::UseItem { item, target } => {
            match crate::item::item_effect(item) {
                crate::item::ItemEffect::Heal { power } => {
                    let c = m.party_items[pi as int];
                    let k = crate::item::key_index(item);
                    if c[k] == 0 {
                        lemma_same_stats(m, r.0, r.1);
                    } else {
                        let m1 = crate::combat::with_party_items(m, pi as int, c.update(k, (c[k] - 1) as u32));
                        match retarget_ally_spec(m1, target) {
                            Some(TargetId::Party(p)) => {
                                if alive_list(m.party_stats).len() > 0 {
                                    assert(alive_list(m.party_stats)[0] < m.party_stats.len());
                                }
                                assert(p < m.party_stats.len());
                                let a = scaled_amount(power as int, random as int);
                                let after = healed(m1.party_stats[p as int], a as int);
                                lemma_healed(m1.party_stats[p as int], a as int);
                                lemma_party_hit(m1, p as int, after, r.1);
                                lemma_capped_update(m1.party_stats, p as int, after);
                            },
                            _ => {
                                lemma_same_stats(m, r.0, r.1);
                            },
                        }
                    }
                },
                _ => {
                    lemma_same_stats(m, r.0, r.1);
                },
            }
        },
        BattleAction::Flee => {
            lemma_same_stats(m, r.0, r.1);
        },
    }
}

/// An enemy's blow on the first living member.
proof fn lemma_enemy_attack_falls(m: BattleModel, ei: usize, random: u32)
    requires
        model_capped(m),
        m.party_stats.len() <= usize::MAX,
    ensures
        falls_reported(m, enemy_attack_spec(m, ei, random).0, enemy_attack_spec(m, ei, random).1),
        model_capped(enemy_attack_spec(m, ei, random).0),
{
    let r = enemy_attack_spec(m, ei, random);
    lemma_alive_list(m.party_stats);
    match first_alive(m.party_stats) {
        Some(pi) => {
            assert(pi < m.party_stats.len());
            let d = attack_damage_spec(m.enemy_stats[ei as int].attack as int, crate::combat::defense_with_buff(m, pi as int), random as int);
            let after = damaged(m.party_stats[pi as int], d as int);
            lemma_damaged(m.party_stats[pi as int], d as int);
            if after.hp <= 0 {
                assert(r.1[1] == TurnResult::Defeated { target: TargetId::Party(pi) });
            }
            lemma_party_hit(m, pi as int, after, r.1);
            lemma_capped_update(m.party_stats, pi as int, after);
            assert(r.0.party_stats == with_party_stats(m, pi as int, after).party_stats);
            assert(r.0.enemy_stats == m.enemy_stats);
        },
        None => {
            lemma_same_stats(m, r.0, r.1);
        },
    }
}

proof fn lemma_enemy_spell_step_falls(m: BattleModel, ei: usize, spell: SpellKind, t: usize, random: u32)
    requires
        model_capped(m),
        t < m.party_stats.len(),
    ensures
        falls_reported(m, enemy_spell_step(m, ei, spell, t, random).0, enemy_spell_step(m, ei, spell, t, random).1),
        model_capped(enemy_spell_step(m, ei, spell, t, random).0),
{
    let r = enemy_spell_step(m, ei, spell, t, random);
    let target = TargetId::Party(t);
    match spell_entry_spec(spell).effect {
        SpellEffect::Damage { base_damage } => {
            let d = spell_damage_spec(base_damage as int, crate::combat::defense_with_buff(m, t as int), crate::spell::DEFENSE_DIVISOR as int, random as int);
            let after = damaged(m.party_stats[t as int], d as int);
            lemma_damaged(m.party_stats[t as int], d as int);
            lemma_with_fall(TurnResult::SpellDamage { caster: ActorId::Enemy(ei), spell, target, damage: d }, target, after);
            lemma_party_hit(m, t as int, after, r.1);
            lemma_capped_update(m.party_stats, t as int, after);
        },
        SpellEffect::MpDrain { base_drain } => {
            let a = scaled_amount(base_drain as int, random as int);
            let after = drained(m.party_stats[t as int], a as int);
            lemma_party_hit(m, t as int, after, r.1);
            lemma_capped_update(m.party_stats, t as int, after);
        },
        _ => {
            lemma_same_stats(m, r.0, r.1);
        },
    }
}

proof fn lemma_enemy_spell_fold_falls(m: BattleModel, ei: usize, spell: SpellKind, ts: Seq<usize>, random: u32)
    requires
        model_capped(m),
        forall|k: int| 0 <= k < ts.len() ==> #[trigger] ts[k] < m.party_stats.len(),
    ensures
        falls_reported(m, enemy_spell_fold(m, ei, spell, ts, random).0, enemy_spell_fold(m, ei, spell, ts, random).1),
        model_capped(enemy_spell_fold(m, ei, spell, ts, random).0),
    decreases ts.len(),
{
    if ts.len() == 0 {
        lemma_same_stats(m, m, Seq::empty());
    } else {
        let d = ts.drop_last();
        assert forall|k: int| 0 <= k < d.len() implies #[trigger] d[k] < m.party_stats.len() by {
            assert(d[k] == ts[k]);
        }
        lemma_enemy_spell_fold_falls(m, ei, spell, d, random);
        let (m1, r1) = enemy_spell_fold(m, ei, spell, d, random);
        assert(ts[ts.len() - 1] == ts.last());
        lemma_enemy_spell_step_falls(m1, ei, spell, ts.last(), random);
        let (m2, r2) = enemy_spell_step(m1, ei, spell, ts.last(), random);
        lemma_falls_chain(m, m1, m2, r1, r2);
    }
}

proof fn lemma_enemy_spell_falls(m: BattleModel, ei: usize, spell: SpellKind, random: u32)
    requires
        model_capped(m),
        ei < m.enemy_stats.len(),
        m.party_stats.len() <= usize::MAX,
    ensures
        falls_reported(m, enemy_spell_spec(m, ei, spell, random).0, enemy_spell_spec(m, ei, spell, random).1),
        model_capped(enemy_spell_spec(m, ei, spell, random).0),
{
    let r = enemy_spell_spec(m, ei, spell, random);
    let e = spell_entry_spec(spell);
    let s = m.enemy_stats[ei as int];
    if s.mp < e.mp_cost {
        lemma_enemy_attack_falls(m, ei, random);
    } else {
        let v = CombatStats { mp: (s.mp - e.mp_cost) as i32, ..s };
        let m1 = with_enemy_stats(m, ei as int, v);
        lemma_enemy_hit(m, ei as int, v, Seq::empty());
        lemma_capped_update(m.enemy_stats, ei as int, v);
        match e.effect {
            SpellEffect::Heal { base_heal } => {
                let a = scaled_amount(base_heal as int, random as int);
                let after = healed(m1.enemy_stats[ei as int], a as int);
                lemma_healed(m1.enemy_stats[ei as int], a as int);
                lemma_enemy_hit(m1, ei as int, after, r.1);
                lemma_capped_update(m1.enemy_stats, ei as int, after);
                lemma_falls_chain(m, m1, r.0, Seq::empty(), r.1);
                assert(Seq::<TurnResult>::empty() + r.1 == r.1);
            },
            SpellEffect::AttackBuff { .. } => {
                lemma_same_stats(m1, r.0, r.1);
                lemma_falls_chain(m, m1, r.0, Seq::empty(), r.1);
                assert(Seq::<TurnResult>::empty() + r.1 == r.1);
            },
            SpellEffect::Block { .. } => {
                lemma_same_stats(m1, r.0, r.1);
                lemma_falls_chain(m, m1, r.0, Seq::empty(), r.1);
                assert(Seq::<TurnResult>::empty() + r.1 == r.1);
            },
            _ => {
                let ts = enemy_spell_targets(m1, spell);
                lemma_alive_list(m1.party_stats);
                assert forall|k: int| 0 <= k < ts.len() implies #[trigger] ts[k] < m1.party_stats.len() by {}
                lemma_enemy_spell_fold_falls(m1, ei, spell, ts, random);
                lemma_falls_chain(m, m1, r.0, Seq::empty(), r.1);
                assert(Seq::<TurnResult>::empty() + r.1 == r.1);
            },
        }
    }
}

proof fn lemma_enemy_action_falls(m: BattleModel, ei: usize, random: u32, spell_random: u32)
    requires
        model_capped(m),
        ei < m.enemy_stats.len(),
        m.party_stats.len() <= usize::MAX,
    ensures
        falls_reported(m, enemy_action_spec(m, ei, random, spell_random).0, enemy_action_spec(m, ei, random, spell_random).1),
        model_capped(enemy_action_spec(m, ei, random, spell_random).0),
{
    lemma_enemy_attack_falls(m, ei, random);
    let spells = crate::enemy::enemy_spells_spec(m.enemy_kinds[ei as int]);
    if spells.len() > 0 && spell_random < crate::battle_actions::SPELL_CHANCE {
        match first_usable(spells, m.enemy_stats[ei as int].mp as int) {
            Some(sp) => {
                lemma_enemy_spell_falls(m, ei, sp, random);
            },
            None => {},
        }
    }
}

/// One actor's move.
proof fn lemma_actor_step_falls(m: BattleModel, cmds: Seq<BattleAction>, a: ActorId, random: u32, sr: Seq<u32>)
    requires
        model_capped(m),
        m.party_stats.len() <= usize::MAX,
        m.enemy_stats.len() <= usize::MAX,
        actor_ok(a, m.party_stats.len() as int, m.enemy_stats.len() as int),
        move_ok(m, cmds, a, m.party_stats.len() as int, m.enemy_stats.len() as int),
    ensures
        falls_reported(m, actor_step(m, cmds, a, random, sr).0, actor_step(m, cmds, a, random, sr).1),
        model_capped(actor_step(m, cmds, a, random, sr).0),
{
    let r = actor_step(m, cmds, a, random, sr);
    match a {
        ActorId::Party(pi) => {
            if m.party_stats[pi as int].hp > 0 && !m.party_ailments[pi as int].sleep && (pi as int) < cmds.len() {
                lemma_party_move_falls(m, pi, cmds[pi as int], random);
            } else {
                lemma_same_stats(m, r.0, r.1);
            }
        },
        ActorId::Enemy(ei) => {
            if m.enemy_stats[ei as int].hp > 0 && !m.enemy_ailments[ei as int].sleep {
                lemma_enemy_action_falls(m, ei, random, random_at(sr, ei as int));
            } else {
                lemma_same_stats(m, r.0, r.1);
            }
        },
    }
}

proof fn lemma_actors_fold_falls(m: BattleModel, cmds: Seq<BattleAction>, order: Seq<ActorId>, dmg: Seq<u32>, sr: Seq<u32>)
    requires
        model_capped(m),
        m.party_stats.len() <= usize::MAX,
        m.enemy_stats.len() <= usize::MAX,
        forall|k: int| 0 <= k < order.len() ==> actor_ok(#[trigger] order[k], m.party_stats.len() as int, m.enemy_stats.len() as int),
        forall|k: int| 0 <= k < order.len() ==> #[trigger] move_ok_at(m, cmds, order, dmg, sr, k),
    ensures
        falls_reported(m, actors_fold(m, cmds, order, dmg, sr).0, actors_fold(m, cmds, order, dmg, sr).1),
        model_capped(actors_fold(m, cmds, order, dmg, sr).0),
    decreases order.len(),
{
    if order.len() == 0 {
        lemma_same_stats(m, m, Seq::empty());
    } else {
        let d = order.drop_last();
        let n = order.len() - 1;
        assert forall|k: int| 0 <= k < d.len() implies actor_ok(#[trigger] d[k], m.party_stats.len() as int, m.enemy_stats.len() as int) by {
            assert(d[k] == order[k]);
        }
        assert forall|k: int| 0 <= k < d.len() implies #[trigger] move_ok_at(m, cmds, d, dmg, sr, k) by {
            assert(d.take(k) =~= order.take(k));
            assert(d[k] == order[k]);
            assert(move_ok_at(m, cmds, order, dmg, sr, k));
        }
        lemma_actors_fold_falls(m, cmds, d, dmg, sr);
        let (m1, r1) = actors_fold(m, cmds, d, dmg, sr);
        assert(order.take(n) =~= d);
        assert(move_ok_at(m, cmds, order, dmg, sr, n));
        assert(order[n] == order.last());
        assert(actor_ok(order[n], m.party_stats.len() as int, m.enemy_stats.len() as int));
        lemma_actor_step_falls(m1, cmds, order.last(), random_at(dmg, n), sr);
        let (m2, r2) = actor_step(m1, cmds, order.last(), random_at(dmg, n), sr);
        lemma_falls_chain(m, m1, m2, r1, r2);
    }
}

proof fn lemma_flee_fold_falls(m: BattleModel, eis: Seq<usize>, dmg: Seq<u32>, sr: Seq<u32>)
    requires
        model_capped(m),
        m.party_stats.len() <= usize::MAX,
        forall|k: int| 0 <= k < eis.len() ==> #[trigger] eis[k] < m.enemy_stats.len(),
    ensures
        falls_reported(m, flee_fold(m, eis, dmg, sr).0, flee_fold(m, eis, dmg, sr).1),
        model_capped(flee_fold(m, eis, dmg, sr).0),
    decreases eis.len(),
{
    if eis.len() == 0 {
        lemma_same_stats(m, m, Seq::empty());
    } else {
        let d = eis.drop_last();
        assert forall|k: int| 0 <= k < d.len() implies #[trigger] d[k] < m.enemy_stats.len() by {
            assert(d[k] == eis[k]);
        }
        lemma_flee_fold_falls(m, d, dmg, sr);
        let (m1, r1) = flee_fold(m, d, dmg, sr);
        let ei = eis.last();
        assert(eis[eis.len() - 1] == ei);
        lemma_enemy_action_falls(m1, ei, random_at(dmg, eis.len() - 1), random_at(sr, ei as int));
        let (m2, r2) = enemy_action_spec(m1, ei, random_at(dmg, eis.len() - 1), random_at(sr, ei as int));
        lemma_falls_chain(m, m1, m2, r1, r2);
    }
}

/// Poison at the end of a turn.
proof fn lemma_tick_poison_falls(m: BattleModel)
    requires
        model_capped(m),
    ensures
        falls_reported(m, tick_poison_spec(m).0, tick_poison_spec(m).1),
{
    lemma_poison_reports_falls(m);
}

/// Whenever a party member or an enemy goes from above zero HP to zero or
/// below during a turn, by a blow, a spell or poison, the turn's results
/// report its defeat; the sides keep their sizes.
pub proof fn lemma_turn_reports_falls(m: BattleModel, cmds: Seq<BattleAction>, dmg: Seq<u32>, flee: u32, sr: Seq<u32>)
    requires
        model_ok(m),
        m.party_stats.len() <= usize::MAX,
        m.enemy_stats.len() <= usize::MAX,
        turn_commands_ok(m, cmds, dmg, sr),
    ensures
        falls_reported(m, turn_spec(m, cmds, dmg, flee, sr).0, turn_spec(m, cmds, dmg, flee, sr).1),
        forall|i: int| 0 <= i < m.party_stats.len() && m.party_stats[i].hp > 0
            && #[trigger] turn_spec(m, cmds, dmg, flee, sr).0.party_stats[i].hp <= 0
            ==> turn_spec(m, cmds, dmg, flee, sr).1.contains(TurnResult::Defeated { target: TargetId::Party(i as usize) }),
        forall|j: int| 0 <= j < m.enemy_stats.len() && m.enemy_stats[j].hp > 0
            && #[trigger] turn_spec(m, cmds, dmg, flee, sr).0.enemy_stats[j].hp <= 0
            ==> turn_spec(m, cmds, dmg, flee, sr).1.contains(TurnResult::Defeated { target: TargetId::Enemy(j as usize) }),
{
    assert(model_capped(m)) by {
        assert forall|k: int| 0 <= k < m.party_stats.len() implies 0 <= #[trigger] m.party_stats[k].hp <= m.party_stats[k].max_hp by {
            assert(crate::combat::stats_ok(m.party_stats[k]));
        }
        assert forall|k: int| 0 <= k < m.enemy_stats.len() implies 0 <= #[trigger] m.enemy_stats[k].hp <= m.enemy_stats[k].max_hp by {
            assert(crate::combat::stats_ok(m.enemy_stats[k]));
        }
    }
    let r = turn_spec(m, cmds, dmg, flee, sr);
    if has_flee(cmds) {
        if flee < crate::battle_turn::FLEE_CHANCE {
            lemma_same_stats(m, r.0, r.1);
        } else {
            lemma_alive_list(m.enemy_stats);
            let eis = alive_list(m.enemy_stats);
            assert forall|k: int| 0 <= k < eis.len() implies #[trigger] eis[k] < m.enemy_stats.len() by {}
            lemma_flee_fold_falls(m, eis, dmg, sr);
            let (m1, r1) = flee_fold(m, eis, dmg, sr);
            let f = seq![TurnResult::FleeFailed];
            lemma_same_stats(m, m, f);
            lemma_falls_chain(m, m, m1, f, r1);
        }
    } else {
        let order = action_order_spec(m, cmds.len() as int);
        lemma_action_order(m, cmds.len() as int);
        assert forall|k: int| 0 <= k < order.len() implies actor_ok(#[trigger] order[k], m.party_stats.len() as int, m.enemy_stats.len() as int) by {
            assert(order.contains(order[k]));
            assert(crate::battle_turn::turn_candidate(m, cmds.len() as int, order[k]));
        }
        lemma_actors_fold_falls(m, cmds, order, dmg, sr);
        let (m1, r1) = actors_fold(m, cmds, order, dmg, sr);
        let (m2, r2) = tick_buffs_spec(m1);
        let (m3, r3) = tick_poison_spec(m2);
        lemma_same_stats(m1, m2, r2);
        lemma_tick_poison_falls(m2);
        lemma_falls_chain(m, m1, m2, r1, r2);
        lemma_falls_chain(m, m2, m3, r1 + r2, r3);
    }
}

} // verus!
