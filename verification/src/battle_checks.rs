//! Tests of the bounds that a turn and its report need, for callers that
//! cannot prove them.
use vstd::prelude::*;

use crate::battle_messages::event_ok;
use crate::battle_turn::{command_ok, commands_ok, randoms_ok};
use crate::combat::{ally_index_ok, buff_ok, enemy_index_ok, stats_ok, ActorId, BattleAction, BattleState, BuffState, TargetId, TurnResult, RANDOM_LIMIT, STAT_LIMIT};
use crate::item::{ItemEffect, ItemKey};
use crate::spell::{SpellEffect, SpellTarget};
use crate::stats::CombatStats;

verus! {

fn stats_in_bounds(s: &CombatStats) -> (r: bool)
    ensures
        r == stats_ok(*s),
{
    0 <= s.hp && s.hp <= s.max_hp && s.hp <= STAT_LIMIT && 0 <= s.max_hp && s.max_hp <= STAT_LIMIT && 0 <= s.mp
        && s.mp <= STAT_LIMIT && 0 <= s.max_mp && s.max_mp <= STAT_LIMIT && -STAT_LIMIT <= s.attack
        && s.attack <= STAT_LIMIT && -STAT_LIMIT <= s.defense && s.defense <= STAT_LIMIT && -STAT_LIMIT <= s.speed
        && s.speed <= STAT_LIMIT
}

fn buff_in_bounds(b: &Option<BuffState>) -> (r: bool)
    ensures
        r == buff_ok(*b),
{
    match b {
        Some(x) => -1000 <= x.amount && x.amount <= 1000,
        None => true,
    }
}

impl BattleState {
    /// Whether the battle's parts agree in length and its values are within
    /// the bounds a turn needs.
    pub fn check_well_formed(&self) -> (r: bool)
        ensures
            r == self.well_formed(),
    {
        let np = self.party.len();
        if self.party_buffs.len() != np || self.party_ailments.len() != np || self.enemy_ailments.len() != self.enemies.len() {
            return false;
        }
        let ghost m = self.model();
        let mut i: usize = 0;
        while i < np
            invariant
                i <= np,
                np == self.party@.len(),
                m == self.model(),
                np == self.party_buffs@.len(),
                forall|j: int| 0 <= j < i ==> stats_ok(#[trigger] m.party_stats[j]),
                forall|j: int| 0 <= j < i ==> -1000 <= #[trigger] m.party_bonus[j] <= 1000,
                forall|j: int| 0 <= j < i ==> buff_ok((#[trigger] m.party_buffs[j]).attack_up) && buff_ok(m.party_buffs[j].defense_up),
                forall|j: int| 0 <= j < i ==> (#[trigger] m.party_items[j]).len() == crate::item::ITEM_KEY_COUNT,
            decreases np - i,
        {
            let member = &self.party[i];
            let _slots = member.inventory.count(ItemKey::Herb);
            proof {
                assert(m.party_stats[i as int] == member.stats);
                assert(m.party_items[i as int] == member.inventory.counts());
            }
            if !stats_in_bounds(&member.stats) {
                return false;
            }
            let bonus = member.equipment.attack_bonus();
            if bonus < -1000 || bonus > 1000 {
                return false;
            }
            if !buff_in_bounds(&self.party_buffs[i].attack_up) || !buff_in_bounds(&self.party_buffs[i].defense_up) {
                return false;
            }
            i = i + 1;
        }
        let mut k: usize = 0;
        while k < self.enemies.len()
            invariant
                k <= self.enemies@.len(),
                m == self.model(),
                forall|j: int| 0 <= j < k ==> stats_ok(#[trigger] m.enemy_stats[j]),
            decreases self.enemies@.len() - k,
        {
            proof {
                assert(m.enemy_stats[k as int] == self.enemies@[k as int].stats);
            }
            if !stats_in_bounds(&self.enemies[k].stats) {
                return false;
            }
            k = k + 1;
        }
        true
    }
}

fn enemy_target_in(t: TargetId, n_enemies: usize) -> (r: bool)
    ensures
        r == enemy_index_ok(t, n_enemies as int),
{
    match t {
        TargetId::Enemy(i) => i < n_enemies,
        TargetId::Party(_) => true,
    }
}

fn ally_target_in(t: TargetId, n_party: usize) -> (r: bool)
    ensures
        r == ally_index_ok(t, n_party as int),
{
    match t {
        TargetId::Party(i) => i < n_party,
        TargetId::Enemy(_) => true,
    }
}

fn command_in_range(cmd: BattleAction, n_party: usize, n_enemies: usize) -> (r: bool)
    ensures
        r == command_ok(cmd, n_party as int, n_enemies as int),
{
    match cmd {
        BattleAction::Attack { target } => enemy_target_in(target, n_enemies),
        BattleAction::Spell { spell, target } => {
            let e = spell.entry();
            let at_enemies = match e.effect {
                SpellEffect::Damage { .. } | SpellEffect::MpDrain { .. } | SpellEffect::Ailment { .. } => true,
                _ => false,
            };
            if at_enemies {
                match e.target_type {
                    SpellTarget::SingleEnemy => enemy_target_in(target, n_enemies),
                    _ => true,
                }
            } else {
                match e.target_type {
                    SpellTarget::SingleAlly => ally_target_in(target, n_party),
                    _ => true,
                }
            }
        },
        BattleAction::UseItem { item, target } => match item.entry().effect {
            ItemEffect::Heal { .. } => ally_target_in(target, n_party),
            _ => true,
        },
        BattleAction::Flee => true,
    }
}

/// Whether every party member's command names existing actors.
pub fn commands_in_range(cmds: &[BattleAction], n_party: usize, n_enemies: usize) -> (r: bool)
    ensures
        r == commands_ok(cmds@, n_party as int, n_enemies as int),
{
    let mut i: usize = 0;
    while i < cmds.len()
        invariant
            i <= cmds@.len(),
            forall|j: int| 0 <= j < i && j < n_party ==> command_ok(#[trigger] cmds@[j], n_party as int, n_enemies as int),
        decreases cmds@.len() - i,
    {
        if i < n_party && !command_in_range(cmds[i], n_party, n_enemies) {
            return false;
        }
        i = i + 1;
    }
    true
}

/// Whether every random factor is within the bound of a turn.
pub fn randoms_in_range(v: &[u32]) -> (r: bool)
    ensures
        r == randoms_ok(v@),
{
    let mut i: usize = 0;
    while i < v.len()
        invariant
            i <= v@.len(),
            forall|j: int| 0 <= j < i ==> #[trigger] v@[j] <= RANDOM_LIMIT,
        decreases v@.len() - i,
    {
        if v[i] > RANDOM_LIMIT {
            return false;
        }
        i = i + 1;
    }
    true
}

fn actor_in(a: ActorId, np: usize, ne: usize) -> (r: bool)
    ensures
        r == match a {
            ActorId::Party(i) => i < np,
            ActorId::Enemy(i) => i < ne,
        },
{
    match a {
        ActorId::Party(i) => i < np,
        ActorId::Enemy(i) => i < ne,
    }
}

fn target_in(t: TargetId, np: usize, ne: usize) -> (r: bool)
    ensures
        r == match t {
            TargetId::Party(i) => i < np,
            TargetId::Enemy(i) => i < ne,
        },
{
    match t {
        TargetId::Party(i) => i < np,
        TargetId::Enemy(i) => i < ne,
    }
}

fn amount_in(v: i32) -> (r: bool)
    ensures
        r == (0 <= v <= STAT_LIMIT),
{
    0 <= v && v <= STAT_LIMIT
}

fn event_in_range(e: TurnResult, np: usize, ne: usize) -> (r: bool)
    ensures
        r == event_ok(e, np as int, ne as int),
{
    match e {
        TurnResult::Attack { attacker, target, damage } => actor_in(attacker, np, ne) && target_in(target, np, ne) && amount_in(damage),
        TurnResult::SpellDamage { caster, target, damage, .. } => actor_in(caster, np, ne) && target_in(target, np, ne) && amount_in(damage),
        TurnResult::Healed { caster, target, amount, .. } => actor_in(caster, np, ne) && target_in(target, np, ne) && amount_in(amount),
        TurnResult::Buffed { caster, target, amount, .. } => actor_in(caster, np, ne) && target_in(target, np, ne) && amount_in(amount),
        TurnResult::BuffExpired { target, .. } => target_in(target, np, ne),
        TurnResult::ItemUsed { user, target, amount, .. } => actor_in(user, np, ne) && target_in(target, np, ne) && amount_in(amount),
        TurnResult::MpDrained { caster, target, amount, .. } => actor_in(caster, np, ne) && target_in(target, np, ne) && amount_in(amount),
        TurnResult::Defeated { target } => target_in(target, np, ne),
        TurnResult::AilmentInflicted { caster, target, .. } => actor_in(caster, np, ne) && target_in(target, np, ne),
        TurnResult::AilmentResisted { caster, target, .. } => actor_in(caster, np, ne) && target_in(target, np, ne),
        TurnResult::Sleeping { actor } => actor_in(actor, np, ne),
        TurnResult::PoisonDamage { target, damage } => target_in(target, np, ne) && amount_in(damage),
        TurnResult::AilmentCured { target, .. } => target_in(target, np, ne),
        TurnResult::Fled => true,
        TurnResult::FleeFailed => true,
    }
}

/// Whether every event of a turn names existing actors and carries an
/// amount within the battle bounds.
pub fn events_in_range(results: &[TurnResult], n_party: usize, n_enemies: usize) -> (r: bool)
    ensures
        r == forall|k: int| 0 <= k < results@.len() ==> event_ok(#[trigger] results@[k], n_party as int, n_enemies as int),
{
    let mut i: usize = 0;
    while i < results.len()
        invariant
            i <= results@.len(),
            forall|k: int| 0 <= k < i ==> event_ok(#[trigger] results@[k], n_party as int, n_enemies as int),
        decreases results@.len() - i,
    {
        if !event_in_range(results[i], n_party, n_enemies) {
            return false;
        }
        i = i + 1;
    }
    true
}

} // verus!
