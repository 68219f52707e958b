//! What holds of a whole turn for a party member who is down when it
//! starts: nobody heals or revives the member, and no event of the turn
//! shows the member acting.
use vstd::prelude::*;
use crate::battle_actions::{
    enemy_action_spec, enemy_attack_spec, enemy_spell_fold, enemy_spell_spec, enemy_spell_step, enemy_spell_targets,
    first_alive, first_usable, item_use_spec, party_attack_spec,
};
use crate::spell::{spell_entry_spec, SpellKind};
use crate::battle_turn::{
    actor_step, actors_fold, expiry_events, flee_fold, party_move_spec, poison_event, poison_events, poisoned_prefix,
    tick_buffs_spec, tick_events, tick_poison_spec, turn_spec,
};
use crate::combat::{
    alive_list, hits_enemies, lemma_alive_list, party_spell_fold, party_spell_spec, party_spell_step, retarget_ally_spec,
    retarget_enemy_spec, spell_targets, ActorId, BattleAction, BattleModel, TargetId, TurnResult,
};
use crate::enemy::enemy_spells_spec;
use crate::stats::CombatStats;

verus! {

/// The actor an event shows acting, if any.
pub open spec fn actor_of(r: TurnResult) -> Option<ActorId> {
    match r {
        TurnResult::Attack { attacker, .. } => Some(attacker),
        TurnResult::SpellDamage { caster, .. } => Some(caster),
        TurnResult::Healed { caster, .. } => Some(caster),
        TurnResult::Buffed { caster, .. } => Some(caster),
        TurnResult::ItemUsed { user, .. } => Some(user),
        TurnResult::MpDrained { caster, .. } => Some(caster),
        TurnResult::AilmentInflicted { caster, .. } => Some(caster),
        TurnResult::AilmentResisted { caster, .. } => Some(caster),
        TurnResult::Sleeping { actor } => Some(actor),
        _ => None,
    }
}

/// No event of `rs` shows anyone but `a` acting.
pub open spec fn acts_only(rs: Seq<TurnResult>, a: ActorId) -> bool {
    forall|k: int| 0 <= k < rs.len() ==> (#[trigger] actor_of(rs[k])) is None || actor_of(rs[k]) == Some(a)
}

/// No event of `rs` shows anyone acting.
pub open spec fn nobody_acts(rs: Seq<TurnResult>) -> bool {
    forall|k: int| 0 <= k < rs.len() ==> (#[trigger] actor_of(rs[k])) is None
}

/// No event of `rs` shows party member `i` acting.
pub open spec fn member_silent(rs: Seq<TurnResult>, i: int) -> bool {
    forall|k: int| 0 <= k < rs.len() ==> #[trigger] actor_of(rs[k]) != Some(ActorId::Party(i as usize))
}

/// Party member `i` is down.
pub open spec fn member_down(s: Seq<CombatStats>, i: int) -> bool {
    &&& 0 <= i < s.len()
    &&& s[i].hp <= 0
    &&& s.len() <= usize::MAX
}

/// A command aimed at an ally names an existing party member.
pub open spec fn ally_aim_ok(cmd: BattleAction, np: int) -> bool {
    match cmd {
        BattleAction::Spell { spell, target } =>
            !hits_enemies(spell_entry_spec(spell).effect) && spell_entry_spec(spell).target_type is SingleAlly
                ==> crate::combat::ally_index_ok(target, np),
        BattleAction::UseItem { item, target } => crate::item::item_effect(item) is Heal ==> crate::combat::ally_index_ok(target, np),
        _ => true,
    }
}

/// Every command of the party aimed at an ally names an existing member.
pub open spec fn allies_aimed(cmds: Seq<BattleAction>, np: int) -> bool {
    forall|k: int| 0 <= k < cmds.len() && k < np ==> ally_aim_ok(#[trigger] cmds[k], np)
}

proof fn lemma_silent_concat(a: Seq<TurnResult>, b: Seq<TurnResult>, i: int)
    requires
        member_silent(a, i),
        member_silent(b, i),
    ensures
        member_silent(a + b, i),
{
    assert forall|k: int| 0 <= k < (a + b).len() implies #[trigger] actor_of((a + b)[k]) != Some(ActorId::Party(i as usize)) by {
        if k < a.len() {
            assert((a + b)[k] == a[k]);
        } else {
            assert((a + b)[k] == b[k - a.len()]);
        }
    }
}

proof fn lemma_acts_only_concat(a: Seq<TurnResult>, b: Seq<TurnResult>, x: ActorId)
    requires
        acts_only(a, x),
        acts_only(b, x),
    ensures
        acts_only(a + b, x),
{
    assert forall|k: int| 0 <= k < (a + b).len() implies (#[trigger] actor_of((a + b)[k])) is None || actor_of((a + b)[k]) == Some(x) by {
        if k < a.len() {
            assert((a + b)[k] == a[k]);
        } else {
            assert((a + b)[k] == b[k - a.len()]);
        }
    }
}

proof fn lemma_nobody_concat(a: Seq<TurnResult>, b: Seq<TurnResult>)
    requires
        nobody_acts(a),
        nobody_acts(b),
    ensures
        nobody_acts(a + b),
{
    assert forall|k: int| 0 <= k < (a + b).len() implies (#[trigger] actor_of((a + b)[k])) is None by {
        if k < a.len() {
            assert((a + b)[k] == a[k]);
        } else {
            assert((a + b)[k] == b[k - a.len()]);
        }
    }
}

/// Replacing a member other than `i`, or giving `i` statistics with no HP,
/// leaves `i` down.
proof fn lemma_update_keeps_down(s: Seq<CombatStats>, j: int, v: CombatStats, i: int)
    requires
        member_down(s, i),
        0 <= j < s.len(),
        j == i ==> v.hp <= 0,
    ensures
        member_down(s.update(j, v), i),
        s.update(j, v).len() == s.len(),
{
    if j == i {
        assert(s.update(j, v)[i] == v);
    } else {
        assert(s.update(j, v)[i] == s[i]);
    }
}

/// A spell or item aimed at an ally never lands on a member who is down.
proof fn lemma_retarget_ally_spares(m: BattleModel, target: TargetId, i: int)
    requires
        member_down(m.party_stats, i),
        crate::combat::ally_index_ok(target, m.party_stats.len() as int),
    ensures
        retarget_ally_spec(m, target) matches Some(TargetId::Party(p)) ==> p != i && p < m.party_stats.len(),
{
    lemma_alive_list(m.party_stats);
    if alive_list(m.party_stats).len() > 0 {
        assert(m.party_stats[alive_list(m.party_stats)[0] as int].hp > 0);
    }
}

/// One target of a party member's spell, other than `i` for a spell on
/// allies.
proof fn lemma_party_spell_step(m: BattleModel, caster: usize, spell: SpellKind, t: usize, random: u32, i: int)
    requires
        member_down(m.party_stats, i),
        hits_enemies(spell_entry_spec(spell).effect) || (t != i && t < m.party_stats.len()),
    ensures
        member_down(party_spell_step(m, caster, spell, t, random).0.party_stats, i),
        party_spell_step(m, caster, spell, t, random).0.party_stats.len() == m.party_stats.len(),
        acts_only(party_spell_step(m, caster, spell, t, random).1, ActorId::Party(caster)),
{
    let e = spell_entry_spec(spell);
    let r = party_spell_step(m, caster, spell, t, random);
    match e.effect {
        crate::spell::SpellEffect::Heal { base_heal } => {
            let a = crate::formula::scaled_amount(base_heal as int, random as int);
            lemma_update_keeps_down(m.party_stats, t as int, crate::combat::healed(m.party_stats[t as int], a as int), i);
            assert(r.0.party_stats == m.party_stats.update(t as int, crate::combat::healed(m.party_stats[t as int], a as int)));
        },
        _ => {
            assert(r.0.party_stats == m.party_stats);
        },
    }
    assert forall|k: int| 0 <= k < r.1.len() implies (#[trigger] actor_of(r.1[k])) is None || actor_of(r.1[k]) == Some(ActorId::Party(caster)) by {}
}

/// The first living member is alive, so it is not `i`.
proof fn lemma_first_alive_not(s: Seq<CombatStats>, i: int)
    requires
        member_down(s, i),
    ensures
        first_alive(s) matches Some(p) ==> p != i && 0 <= p < s.len() && s[p as int].hp > 0,
        forall|k: int| 0 <= k < alive_list(s).len() ==> #[trigger] alive_list(s)[k] != i,
{
    lemma_alive_list(s);
    if alive_list(s).len() > 0 {
        assert(s[alive_list(s)[0] as int].hp > 0);
    }
}

/// A party member's spell on targets other than `i` (or on enemies) leaves
/// `i` down, and shows only the caster acting.
proof fn lemma_party_spell_fold(m: BattleModel, caster: usize, spell: SpellKind, targets: Seq<usize>, random: u32, i: int)
    requires
        member_down(m.party_stats, i),
        hits_enemies(spell_entry_spec(spell).effect)
            || forall|k: int| 0 <= k < targets.len() ==> #[trigger] targets[k] != i && targets[k] < m.party_stats.len(),
    ensures
        member_down(party_spell_fold(m, caster, spell, targets, random).0.party_stats, i),
        party_spell_fold(m, caster, spell, targets, random).0.party_stats.len() == m.party_stats.len(),
        acts_only(party_spell_fold(m, caster, spell, targets, random).1, ActorId::Party(caster)),
    decreases targets.len(),
{
    if targets.len() > 0 {
        let d = targets.drop_last();
        if !hits_enemies(spell_entry_spec(spell).effect) {
            assert forall|k: int| 0 <= k < d.len() implies #[trigger] d[k] != i && d[k] < m.party_stats.len() by {
                assert(d[k] == targets[k]);
            }
        }
        lemma_party_spell_fold(m, caster, spell, d, random, i);
        let m1 = party_spell_fold(m, caster, spell, d, random).0;
        let t = targets.last();
        if !hits_enemies(spell_entry_spec(spell).effect) {
            assert(targets[targets.len() - 1] != i && targets[targets.len() - 1] < m.party_stats.len());
        }
        lemma_party_spell_step(m1, caster, spell, t, random, i);
        let step = party_spell_step(m1, caster, spell, t, random);
        lemma_acts_only_concat(party_spell_fold(m, caster, spell, d, random).1, step.1, ActorId::Party(caster));
    }
}

/// A spell aimed at allies never lands on a member who is down.
proof fn lemma_spell_targets_spare(m: BattleModel, spell: SpellKind, target: TargetId, i: int)
    requires
        member_down(m.party_stats, i),
        !hits_enemies(spell_entry_spec(spell).effect) && spell_entry_spec(spell).target_type is SingleAlly
            ==> crate::combat::ally_index_ok(target, m.party_stats.len() as int),
    ensures
        hits_enemies(spell_entry_spec(spell).effect)
            || forall|k: int| 0 <= k < spell_targets(m, spell, target).len() ==>
                #[trigger] spell_targets(m, spell, target)[k] != i && spell_targets(m, spell, target)[k] < m.party_stats.len(),
{
    lemma_first_alive_not(m.party_stats, i);
    lemma_alive_list(m.party_stats);
    if !hits_enemies(spell_entry_spec(spell).effect) && spell_entry_spec(spell).target_type is SingleAlly {
        lemma_retarget_ally_spares(m, target, i);
    }
}

/// A living member's move leaves member `i` down and shows only the mover
/// acting.
proof fn lemma_party_move(m: BattleModel, pi: usize, cmd: BattleAction, random: u32, i: int)
    requires
        member_down(m.party_stats, i),
        pi < m.party_stats.len(),
        ally_aim_ok(cmd, m.party_stats.len() as int),
    ensures
        member_down(party_move_spec(m, pi, cmd, random).0.party_stats, i),
        party_move_spec(m, pi, cmd, random).0.party_stats.len() == m.party_stats.len(),
        acts_only(party_move_spec(m, pi, cmd, random).1, ActorId::Party(pi)),
{
    lemma_first_alive_not(m.party_stats, i);
    match cmd {
        BattleAction::Attack { target } => {
            match retarget_enemy_spec(m, target) {
                Some(TargetId::Enemy(ei)) => {
                    let r = party_attack_spec(m, pi, ei, random);
                    assert(r.0.party_stats == m.party_stats);
                },
                _ => {},
            }
        },
        BattleAction::Spell { spell, target } => {
            let s = m.party_stats[pi as int];
            let cost = spell_entry_spec(spell).mp_cost;
            if s.mp >= cost {
                let m1 = crate::combat::with_party_stats(m, pi as int, CombatStats { mp: (s.mp - cost) as i32, ..s });
                lemma_update_keeps_down(m.party_stats, pi as int, CombatStats { mp: (s.mp - cost) as i32, ..s }, i);
                assert(m1.enemy_stats == m.enemy_stats);
                lemma_spell_targets_spare(m1, spell, target, i);
                lemma_party_spell_fold(m1, pi, spell, spell_targets(m1, spell, target), random, i);
            }
        },
        BattleAction::UseItem { item, target } => {
            let r = item_use_spec(m, pi, item, target, random);
            match crate::item::item_effect(item) {
                crate::item::ItemEffect::Heal { power } => {
                    let c = m.party_items[pi as int];
                    let k = crate::item::key_index(item);
                    if c[k] != 0 {
                        let m1 = crate::combat::with_party_items(m, pi as int, c.update(k, (c[k] - 1) as u32));
                        assert(m1.party_stats == m.party_stats);
                        lemma_retarget_ally_spares(m1, target, i);
                        match retarget_ally_spec(m1, target) {
                            Some(TargetId::Party(p)) => {
                                let a = crate::formula::scaled_amount(power as int, random as int);
                                lemma_update_keeps_down(m1.party_stats, p as int, crate::combat::healed(m1.party_stats[p as int], a as int), i);
                                assert(m1.party_stats.update(p as int, crate::combat::healed(m1.party_stats[p as int], a as int)) == r.0.party_stats);
                            },
                            _ => {},
                        }
                    }
                },
                _ => {},
            }
            assert(member_down(r.0.party_stats, i));
        },
        BattleAction::Flee => {},
    }
}

/// One target of an enemy's spell, other than `i`.
proof fn lemma_enemy_spell_step(m: BattleModel, ei: usize, spell: SpellKind, t: usize, random: u32, i: int)
    requires
        member_down(m.party_stats, i),
        t != i,
        t < m.party_stats.len(),
    ensures
        member_down(enemy_spell_step(m, ei, spell, t, random).0.party_stats, i),
        enemy_spell_step(m, ei, spell, t, random).0.party_stats.len() == m.party_stats.len(),
        acts_only(enemy_spell_step(m, ei, spell, t, random).1, ActorId::Enemy(ei)),
{
    let e = spell_entry_spec(spell);
    let r = enemy_spell_step(m, ei, spell, t, random);
    match e.effect {
        crate::spell::SpellEffect::Damage { base_damage } => {
            let d = crate::spell::spell_damage_spec(base_damage as int, crate::combat::defense_with_buff(m, t as int), crate::spell::DEFENSE_DIVISOR as int, random as int);
            let after = crate::combat::damaged(m.party_stats[t as int], d as int);
            lemma_update_keeps_down(m.party_stats, t as int, after, i);
        },
        crate::spell::SpellEffect::MpDrain { base_drain } => {
            let a = crate::formula::scaled_amount(base_drain as int, random as int);
            lemma_update_keeps_down(m.party_stats, t as int, crate::combat::drained(m.party_stats[t as int], a as int), i);
        },
        _ => {
            assert(r.0.party_stats == m.party_stats);
        },
    }
    assert forall|k: int| 0 <= k < r.1.len() implies (#[trigger] actor_of(r.1[k])) is None || actor_of(r.1[k]) == Some(ActorId::Enemy(ei)) by {}
}

/// An enemy's spell on members other than `i` leaves `i` down.
proof fn lemma_enemy_spell_fold(m: BattleModel, ei: usize, spell: SpellKind, targets: Seq<usize>, random: u32, i: int)
    requires
        member_down(m.party_stats, i),
        forall|k: int| 0 <= k < targets.len() ==> #[trigger] targets[k] != i && targets[k] < m.party_stats.len(),
    ensures
        member_down(enemy_spell_fold(m, ei, spell, targets, random).0.party_stats, i),
        enemy_spell_fold(m, ei, spell, targets, random).0.party_stats.len() == m.party_stats.len(),
        acts_only(enemy_spell_fold(m, ei, spell, targets, random).1, ActorId::Enemy(ei)),
    decreases targets.len(),
{
    if targets.len() > 0 {
        let d = targets.drop_last();
        assert forall|k: int| 0 <= k < d.len() implies #[trigger] d[k] != i && d[k] < m.party_stats.len() by {
            assert(d[k] == targets[k]);
        }
        lemma_enemy_spell_fold(m, ei, spell, d, random, i);
        let m1 = enemy_spell_fold(m, ei, spell, d, random).0;
        assert(targets[targets.len() - 1] != i && targets[targets.len() - 1] < m.party_stats.len());
        lemma_enemy_spell_step(m1, ei, spell, targets.last(), random, i);
        let step = enemy_spell_step(m1, ei, spell, targets.last(), random);
        lemma_acts_only_concat(enemy_spell_fold(m, ei, spell, d, random).1, step.1, ActorId::Enemy(ei));
    }
}

/// An enemy's strike falls on a living member, so never on `i`.
proof fn lemma_enemy_attack(m: BattleModel, ei: usize, random: u32, i: int)
    requires
        member_down(m.party_stats, i),
    ensures
        member_down(enemy_attack_spec(m, ei, random).0.party_stats, i),
        enemy_attack_spec(m, ei, random).0.party_stats.len() == m.party_stats.len(),
        acts_only(enemy_attack_spec(m, ei, random).1, ActorId::Enemy(ei)),
{
    lemma_first_alive_not(m.party_stats, i);
    let r = enemy_attack_spec(m, ei, random);
    match first_alive(m.party_stats) {
        Some(pi) => {
            let d = crate::stats::attack_damage_spec(m.enemy_stats[ei as int].attack as int, crate::combat::defense_with_buff(m, pi as int), random as int);
            let after = crate::combat::damaged(m.party_stats[pi as int], d as int);
            lemma_update_keeps_down(m.party_stats, pi as int, after, i);
            assert(r.0.party_stats == m.party_stats.update(pi as int, after));
        },
        None => {},
    }
    assert forall|k: int| 0 <= k < r.1.len() implies (#[trigger] actor_of(r.1[k])) is None || actor_of(r.1[k]) == Some(ActorId::Enemy(ei)) by {}
}

/// An enemy's move leaves member `i` down and shows only that enemy acting.
proof fn lemma_enemy_action(m: BattleModel, ei: usize, random: u32, spell_random: u32, i: int)
    requires
        member_down(m.party_stats, i),
    ensures
        member_down(enemy_action_spec(m, ei, random, spell_random).0.party_stats, i),
        enemy_action_spec(m, ei, random, spell_random).0.party_stats.len() == m.party_stats.len(),
        acts_only(enemy_action_spec(m, ei, random, spell_random).1, ActorId::Enemy(ei)),
{
    lemma_first_alive_not(m.party_stats, i);
    lemma_enemy_attack(m, ei, random, i);
    let spells = enemy_spells_spec(m.enemy_kinds[ei as int]);
    if spells.len() > 0 && spell_random < crate::battle_actions::SPELL_CHANCE {
        match first_usable(spells, m.enemy_stats[ei as int].mp as int) {
            Some(sp) => {
                let e = spell_entry_spec(sp);
                let s = m.enemy_stats[ei as int];
                if s.mp >= e.mp_cost {
                    let m1 = crate::combat::with_enemy_stats(m, ei as int, CombatStats { mp: (s.mp - e.mp_cost) as i32, ..s });
                    assert(m1.party_stats == m.party_stats);
                    lemma_first_alive_not(m1.party_stats, i);
                    let ts = enemy_spell_targets(m1, sp);
                    lemma_alive_list(m1.party_stats);
                    assert forall|k: int| 0 <= k < ts.len() implies #[trigger] ts[k] != i && ts[k] < m1.party_stats.len() by {}
                    lemma_enemy_spell_fold(m1, ei, sp, ts, random, i);
                }
            },
            None => {},
        }
    }
}

/// One actor's move, when member `i` is down: `i` stays down and is not
/// shown acting.
proof fn lemma_actor_step(m: BattleModel, cmds: Seq<BattleAction>, a: ActorId, random: u32, sr: Seq<u32>, i: int)
    requires
        member_down(m.party_stats, i),
        a matches ActorId::Party(p) ==> p < m.party_stats.len(),
        allies_aimed(cmds, m.party_stats.len() as int),
    ensures
        member_down(actor_step(m, cmds, a, random, sr).0.party_stats, i),
        actor_step(m, cmds, a, random, sr).0.party_stats.len() == m.party_stats.len(),
        member_silent(actor_step(m, cmds, a, random, sr).1, i),
{
    let r = actor_step(m, cmds, a, random, sr);
    match a {
        ActorId::Party(pi) => {
            if m.party_stats[pi as int].hp > 0 && !m.party_ailments[pi as int].sleep && (pi as int) < cmds.len() {
                lemma_party_move(m, pi, cmds[pi as int], random, i);
                assert(pi != i);
            } else if m.party_stats[pi as int].hp > 0 && m.party_ailments[pi as int].sleep {
                assert(pi != i);
                assert(r.1 == seq![TurnResult::Sleeping { actor: a }]);
            }
            assert forall|k: int| 0 <= k < r.1.len() implies #[trigger] actor_of(r.1[k]) != Some(ActorId::Party(i as usize)) by {}
        },
        ActorId::Enemy(ei) => {
            if m.enemy_stats[ei as int].hp > 0 && !m.enemy_ailments[ei as int].sleep {
                lemma_enemy_action(m, ei, random, crate::battle_turn::random_at(sr, ei as int), i);
            }
            assert forall|k: int| 0 <= k < r.1.len() implies #[trigger] actor_of(r.1[k]) != Some(ActorId::Party(i as usize)) by {}
        },
    }
}

proof fn lemma_actors_fold(m: BattleModel, cmds: Seq<BattleAction>, order: Seq<ActorId>, dmg: Seq<u32>, sr: Seq<u32>, i: int)
    requires
        member_down(m.party_stats, i),
        forall|k: int| 0 <= k < order.len() ==> (#[trigger] order[k] matches ActorId::Party(p) ==> p < m.party_stats.len()),
        allies_aimed(cmds, m.party_stats.len() as int),
    ensures
        member_down(actors_fold(m, cmds, order, dmg, sr).0.party_stats, i),
        actors_fold(m, cmds, order, dmg, sr).0.party_stats.len() == m.party_stats.len(),
        member_silent(actors_fold(m, cmds, order, dmg, sr).1, i),
    decreases order.len(),
{
    if order.len() > 0 {
        assert forall|k: int| 0 <= k < order.drop_last().len() implies (#[trigger] order.drop_last()[k] matches ActorId::Party(p) ==> p < m.party_stats.len()) by {
            assert(order.drop_last()[k] == order[k]);
        }
        lemma_actors_fold(m, cmds, order.drop_last(), dmg, sr, i);
        assert(order[order.len() - 1] == order.last());
        let (m1, r1) = actors_fold(m, cmds, order.drop_last(), dmg, sr);
        lemma_actor_step(m1, cmds, order.last(), crate::battle_turn::random_at(dmg, order.len() - 1), sr, i);
        let r2 = actor_step(m1, cmds, order.last(), crate::battle_turn::random_at(dmg, order.len() - 1), sr).1;
        lemma_silent_concat(r1, r2, i);
    }
}

proof fn lemma_flee_fold(m: BattleModel, eis: Seq<usize>, dmg: Seq<u32>, sr: Seq<u32>, i: int)
    requires
        member_down(m.party_stats, i),
    ensures
        member_down(flee_fold(m, eis, dmg, sr).0.party_stats, i),
        flee_fold(m, eis, dmg, sr).0.party_stats.len() == m.party_stats.len(),
        member_silent(flee_fold(m, eis, dmg, sr).1, i),
    decreases eis.len(),
{
    if eis.len() > 0 {
        lemma_flee_fold(m, eis.drop_last(), dmg, sr, i);
        let (m1, r1) = flee_fold(m, eis.drop_last(), dmg, sr);
        let ei = eis.last();
        let rd = crate::battle_turn::random_at(dmg, eis.len() - 1);
        let rs = crate::battle_turn::random_at(sr, ei as int);
        lemma_enemy_action(m1, ei, rd, rs, i);
        let r2 = enemy_action_spec(m1, ei, rd, rs).1;
        assert forall|k: int| 0 <= k < r2.len() implies #[trigger] actor_of(r2[k]) != Some(ActorId::Party(i as usize)) by {}
        lemma_silent_concat(r1, r2, i);
    }
}

proof fn lemma_tick_events(bs: Seq<crate::combat::ActorBuffs>)
    ensures
        nobody_acts(tick_events(bs)),
    decreases bs.len(),
{
    if bs.len() > 0 {
        lemma_tick_events(bs.drop_last());
        let e = expiry_events((bs.len() - 1) as usize, bs.last());
        assert forall|k: int| 0 <= k < e.len() implies (#[trigger] actor_of(e[k])) is None by {}
        lemma_nobody_concat(tick_events(bs.drop_last()), e);
    }
}

proof fn lemma_poison_events(s: Seq<CombatStats>, a: Seq<crate::combat::ActorAilments>, party: bool)
    ensures
        nobody_acts(poison_events(s, a, party)),
    decreases s.len(),
{
    if s.len() > 0 {
        lemma_poison_events(s.drop_last(), a, party);
        let i = s.len() - 1;
        let e = poison_event(s.last(), a[i], crate::battle_turn::side_target(party, i as usize));
        assert forall|k: int| 0 <= k < e.len() implies (#[trigger] actor_of(e[k])) is None by {}
        lemma_nobody_concat(poison_events(s.drop_last(), a, party), e);
    }
}

proof fn lemma_silent_of_nobody(rs: Seq<TurnResult>, i: int)
    requires
        nobody_acts(rs),
    ensures
        member_silent(rs, i),
{
    assert forall|k: int| 0 <= k < rs.len() implies #[trigger] actor_of(rs[k]) != Some(ActorId::Party(i as usize)) by {
        assert(actor_of(rs[k]) is None);
    }
}

/// A party member who is down when a turn starts stays down through the
/// turn, whatever is chosen and rolled: nobody heals or revives the member,
/// and no event of the turn shows the member attacking, casting, using an
/// item or sleeping.
pub proof fn lemma_fallen_stay_out(m: BattleModel, cmds: Seq<BattleAction>, dmg: Seq<u32>, flee: u32, sr: Seq<u32>, i: usize)
    requires
        i < m.party_stats.len(),
        m.party_stats[i as int].hp <= 0,
        m.party_stats.len() <= usize::MAX,
        m.enemy_stats.len() <= usize::MAX,
        crate::battle_turn::commands_ok(cmds, m.party_stats.len() as int, m.enemy_stats.len() as int),
    ensures
        turn_spec(m, cmds, dmg, flee, sr).0.party_stats[i as int].hp <= 0,
        forall|k: int| 0 <= k < turn_spec(m, cmds, dmg, flee, sr).1.len() ==>
            #[trigger] actor_of(turn_spec(m, cmds, dmg, flee, sr).1[k]) != Some(ActorId::Party(i)),
{
    let ii = i as int;
    if crate::battle_turn::has_flee(cmds) {
        if flee >= crate::battle_turn::FLEE_CHANCE {
            lemma_flee_fold(m, alive_list(m.enemy_stats), dmg, sr, ii);
            let r1 = flee_fold(m, alive_list(m.enemy_stats), dmg, sr).1;
            let f = seq![TurnResult::FleeFailed];
            assert forall|k: int| 0 <= k < f.len() implies #[trigger] actor_of(f[k]) != Some(ActorId::Party(i)) by {}
            lemma_silent_concat(f, r1, ii);
        } else {
            let f = seq![TurnResult::Fled];
            assert forall|k: int| 0 <= k < f.len() implies #[trigger] actor_of(f[k]) != Some(ActorId::Party(i)) by {}
        }
    } else {
        let order = crate::battle_turn::action_order_spec(m, cmds.len() as int);
        crate::battle_turn::lemma_action_order(m, cmds.len() as int);
        assert forall|k: int| 0 <= k < order.len() implies (#[trigger] order[k] matches ActorId::Party(p) ==> p < m.party_stats.len()) by {
            assert(order.contains(order[k]));
            assert(crate::battle_turn::turn_candidate(m, cmds.len() as int, order[k]));
        }
        assert forall|k: int| 0 <= k < cmds.len() && k < m.party_stats.len() implies ally_aim_ok(#[trigger] cmds[k], m.party_stats.len() as int) by {
            assert(crate::battle_turn::command_ok(cmds[k], m.party_stats.len() as int, m.enemy_stats.len() as int));
        }
        lemma_actors_fold(m, cmds, order, dmg, sr, ii);
        let (m1, r1) = actors_fold(m, cmds, order, dmg, sr);
        let (m2, r2) = tick_buffs_spec(m1);
        let (m3, r3) = tick_poison_spec(m2);
        lemma_tick_events(m1.party_buffs);
        lemma_silent_of_nobody(r2, ii);
        lemma_poison_events(m2.party_stats, m2.party_ailments, true);
        lemma_poison_events(m2.enemy_stats, m2.enemy_ailments, false);
        lemma_nobody_concat(poison_events(m2.party_stats, m2.party_ailments, true), poison_events(m2.enemy_stats, m2.enemy_ailments, false));
        lemma_silent_of_nobody(r3, ii);
        lemma_silent_concat(r1, r2, ii);
        lemma_silent_concat(r1 + r2, r3, ii);
        assert(m2.party_stats == m1.party_stats);
        assert(m3.party_stats == poisoned_prefix(m2.party_stats, m2.party_ailments, m2.party_stats.len() as int));
        assert(m3.party_stats[ii] == crate::battle_turn::poisoned(m2.party_stats[ii], m2.party_ailments[ii]));
    }
}


/// The poison events of a side report the fall of every actor that poison
/// brings down from above zero HP.
proof fn lemma_poison_falls(s: Seq<CombatStats>, a: Seq<crate::combat::ActorAilments>, party: bool, i: int)
    requires
        0 <= i < s.len(),
        s[i].hp > 0,
        crate::battle_turn::poisoned(s[i], a[i]).hp <= 0,
    ensures
        poison_events(s, a, party).contains(TurnResult::Defeated { target: crate::battle_turn::side_target(party, i as usize) }),
    decreases s.len(),
{
    let d = s.drop_last();
    let n = s.len() - 1;
    let tail = poison_event(s.last(), a[n], crate::battle_turn::side_target(party, n as usize));
    let x = TurnResult::Defeated { target: crate::battle_turn::side_target(party, i as usize) };
    if i < n {
        assert(d[i] == s[i]);
        lemma_poison_falls(d, a, party, i);
        let before = poison_events(d, a, party);
        let k = choose|k: int| 0 <= k < before.len() && before[k] == x;
        assert((before + tail)[k] == x);
    } else {
        assert(tail.len() == 2 && tail[1] == x);
        assert((poison_events(d, a, party) + tail)[poison_events(d, a, party).len() as int + 1] == x);
    }
}

/// At the end of a turn, poison that takes a party member or an enemy from
/// above zero HP to zero or below is followed by the report of its fall.
pub proof fn lemma_poison_reports_falls(m: BattleModel)
    ensures
        forall|i: int| 0 <= i < m.party_stats.len() && m.party_stats[i].hp > 0
            && #[trigger] tick_poison_spec(m).0.party_stats[i].hp <= 0
            ==> tick_poison_spec(m).1.contains(TurnResult::Defeated { target: TargetId::Party(i as usize) }),
        forall|j: int| 0 <= j < m.enemy_stats.len() && m.enemy_stats[j].hp > 0
            && #[trigger] tick_poison_spec(m).0.enemy_stats[j].hp <= 0
            ==> tick_poison_spec(m).1.contains(TurnResult::Defeated { target: TargetId::Enemy(j as usize) }),
{
    let pe = poison_events(m.party_stats, m.party_ailments, true);
    let ee = poison_events(m.enemy_stats, m.enemy_ailments, false);
    assert forall|i: int| 0 <= i < m.party_stats.len() && m.party_stats[i].hp > 0
        && #[trigger] tick_poison_spec(m).0.party_stats[i].hp <= 0
        implies tick_poison_spec(m).1.contains(TurnResult::Defeated { target: TargetId::Party(i as usize) }) by {
        assert(tick_poison_spec(m).0.party_stats[i] == crate::battle_turn::poisoned(m.party_stats[i], m.party_ailments[i]));
        lemma_poison_falls(m.party_stats, m.party_ailments, true, i);
        let x = TurnResult::Defeated { target: TargetId::Party(i as usize) };
        let k = choose|k: int| 0 <= k < pe.len() && pe[k] == x;
        assert((pe + ee)[k] == x);
    }
    assert forall|j: int| 0 <= j < m.enemy_stats.len() && m.enemy_stats[j].hp > 0
        && #[trigger] tick_poison_spec(m).0.enemy_stats[j].hp <= 0
        implies tick_poison_spec(m).1.contains(TurnResult::Defeated { target: TargetId::Enemy(j as usize) }) by {
        assert(tick_poison_spec(m).0.enemy_stats[j] == crate::battle_turn::poisoned(m.enemy_stats[j], m.enemy_ailments[j]));
        lemma_poison_falls(m.enemy_stats, m.enemy_ailments, false, j);
        let x = TurnResult::Defeated { target: TargetId::Enemy(j as usize) };
        let k = choose|k: int| 0 <= k < ee.len() && ee[k] == x;
        assert((pe + ee)[pe.len() + k] == x);
    }
}

} // verus!
