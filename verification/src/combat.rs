//! The turn-based battle engine.
//!
//! A turn takes one command per party member and a set of random factors
//! (in thousandths, see `formula`), lets every living actor act in order of
//! speed, then lets buffs run down and poison bite.
use vstd::prelude::*;
use crate::enemy::{Enemy, EnemyKind};
use crate::equipment::equipment_bonus;
use crate::formula::{lemma_scaled_amount_bound, scaled_amount};
use crate::item::{key_index, ItemKey};
use crate::party::PartyMember;
use crate::spell::{ailment_lands, ailment_success, heal_amount, mp_drain_amount, spell_damage, spell_damage_spec, spell_entry_spec, guard_amount, lemma_spell_data, Ailment, SpellEffect, SpellKind, SpellTarget, DEFENSE_DIVISOR};
use crate::stats::{hp_after_damage, CombatStats};

verus! {

/// Who acts.
#[derive(Debug, Clone, Copy, PartialEq, Eq, Structural)]
pub enum ActorId {
    Party(usize),
    Enemy(usize),
}

/// Whom an action is aimed at.
#[derive(Debug, Clone, Copy, PartialEq, Eq)]
pub enum TargetId {
    Enemy(usize),
    Party(usize),
}

/// The command of a party member for one turn.
#[derive(Debug, Clone, Copy, PartialEq, Eq)]
pub enum BattleAction {
    Attack { target: TargetId },
    Spell { spell: SpellKind, target: TargetId },
    UseItem { item: ItemKey, target: TargetId },
    Flee,
}

/// One running buff.
#[derive(Debug, Clone, Copy, PartialEq, Eq)]
pub struct BuffState {
    pub amount: i32,
    pub remaining_turns: u32,
}

/// The buffs on one party member.
#[derive(Debug, Clone, Copy, PartialEq, Eq)]
pub struct ActorBuffs {
    pub attack_up: Option<BuffState>,
    pub defense_up: Option<BuffState>,
}

impl Default for ActorBuffs {
    fn default() -> (r: Self)
        ensures
            r.attack_up is None,
            r.defense_up is None,
    {
        ActorBuffs { attack_up: None, defense_up: None }
    }
}

/// Number of turns a buff lasts.
pub const BUFF_DURATION: u32 = 5;

/// The ailments of one actor.
#[derive(Debug, Clone, Copy, PartialEq, Eq)]
pub struct ActorAilments {
    pub sleep: bool,
    pub poison: bool,
}

impl Default for ActorAilments {
    fn default() -> (r: Self)
        ensures
            !r.sleep,
            !r.poison,
    {
        ActorAilments { sleep: false, poison: false }
    }
}

impl ActorAilments {
    /// Whether any ailment is on.
    pub fn has_any(&self) -> (r: bool)
        ensures
            r == (self.sleep || self.poison),
    {
        self.sleep || self.poison
    }
}

/// The statistic a buff raises.
#[derive(Debug, Clone, Copy, PartialEq, Eq)]
pub enum BuffStat {
    Attack,
    Defense,
}

/// One event of a turn, in the order it happened.
#[derive(Debug, Clone, Copy, PartialEq, Eq)]
pub enum TurnResult {
    Attack { attacker: ActorId, target: TargetId, damage: i32 },
    SpellDamage { caster: ActorId, spell: SpellKind, target: TargetId, damage: i32 },
    Healed { caster: ActorId, spell: SpellKind, target: TargetId, amount: i32 },
    Buffed { caster: ActorId, spell: SpellKind, target: TargetId, amount: i32 },
    BuffExpired { target: TargetId, stat: BuffStat },
    ItemUsed { user: ActorId, item: ItemKey, target: TargetId, amount: i32 },
    MpDrained { caster: ActorId, spell: SpellKind, target: TargetId, amount: i32 },
    Defeated { target: TargetId },
    AilmentInflicted { caster: ActorId, spell: SpellKind, target: TargetId, ailment: Ailment },
    AilmentResisted { caster: ActorId, spell: SpellKind, target: TargetId },
    Sleeping { actor: ActorId },
    PoisonDamage { target: TargetId, damage: i32 },
    AilmentCured { target: TargetId, ailment: Ailment },
    Fled,
    FleeFailed,
}

/// The random factors of one turn, in thousandths.
pub struct TurnRandomFactors {
    /// One per actor, by position in the order of action (800 to 1200 in
    /// play); a missing one counts as 1000.
    pub damage_randoms: Vec<u32>,
    /// Fleeing succeeds below 500.
    pub flee_random: u32,
    /// One per enemy, by enemy index; below 500 the enemy tries a spell;
    /// a missing one counts as 1000.
    pub spell_randoms: Vec<u32>,
}

/// The whole state of a battle.
#[derive(Debug)]
pub struct BattleState {
    pub party: Vec<PartyMember>,
    pub enemies: Vec<Enemy>,
    pub turn_log: Vec<TurnResult>,
    pub party_buffs: Vec<ActorBuffs>,
    pub party_ailments: Vec<ActorAilments>,
    pub enemy_ailments: Vec<ActorAilments>,
}

/// The part of a battle that a turn changes, with what actions read.
pub struct BattleModel {
    pub party_stats: Seq<CombatStats>,
    pub party_items: Seq<Seq<u32>>,
    pub party_bonus: Seq<int>,
    pub enemy_stats: Seq<CombatStats>,
    pub enemy_kinds: Seq<EnemyKind>,
    pub party_buffs: Seq<ActorBuffs>,
    pub party_ailments: Seq<ActorAilments>,
    pub enemy_ailments: Seq<ActorAilments>,
}

/// Bound on every statistic in battle: ten million, below the 2^24 up to
/// which single-precision floats hold every integer exactly, so that damage
/// and healing computed with such floats stay exact.
pub const STAT_LIMIT: i32 = 10_000_000;

/// Bound on every random factor of a turn, in thousandths: ten times the
/// usual, well above the range of 0.8 to 1.2 that play draws from.
pub const RANDOM_LIMIT: u32 = 10_000;

/// Statistics within the battle bounds, with HP between zero and its maximum.
pub open spec fn stats_ok(s: CombatStats) -> bool {
    &&& 0 <= s.hp <= s.max_hp
    &&& 0 <= s.hp <= STAT_LIMIT
    &&& 0 <= s.max_hp <= STAT_LIMIT
    &&& 0 <= s.mp <= STAT_LIMIT
    &&& 0 <= s.max_mp <= STAT_LIMIT
    &&& -STAT_LIMIT <= s.attack <= STAT_LIMIT
    &&& -STAT_LIMIT <= s.defense <= STAT_LIMIT
    &&& -STAT_LIMIT <= s.speed <= STAT_LIMIT
}

/// A buff within the battle bounds.
pub open spec fn buff_ok(b: Option<BuffState>) -> bool {
    b matches Some(x) ==> -1000 <= x.amount <= 1000
}

/// A model whose parts agree in length and whose values are in bounds.
pub open spec fn model_ok(m: BattleModel) -> bool {
    &&& m.party_items.len() == m.party_stats.len()
    &&& m.party_bonus.len() == m.party_stats.len()
    &&& m.party_buffs.len() == m.party_stats.len()
    &&& m.party_ailments.len() == m.party_stats.len()
    &&& m.enemy_kinds.len() == m.enemy_stats.len()
    &&& m.enemy_ailments.len() == m.enemy_stats.len()
    &&& forall|i: int| 0 <= i < m.party_stats.len() ==> stats_ok(#[trigger] m.party_stats[i])
    &&& forall|i: int| 0 <= i < m.enemy_stats.len() ==> stats_ok(#[trigger] m.enemy_stats[i])
    &&& forall|i: int| 0 <= i < m.party_bonus.len() ==> -1000 <= #[trigger] m.party_bonus[i] <= 1000
    &&& forall|i: int| 0 <= i < m.party_buffs.len() ==> buff_ok((#[trigger] m.party_buffs[i]).attack_up)
        && buff_ok(m.party_buffs[i].defense_up)
    &&& forall|i: int| 0 <= i < m.party_items.len() ==> (#[trigger] m.party_items[i]).len() == crate::item::ITEM_KEY_COUNT
}

/// Battle outcome conditions.
pub open spec fn all_down(s: Seq<CombatStats>) -> bool {
    forall|i: int| 0 <= i < s.len() ==> (#[trigger] s[i]).hp <= 0
}

/// The indices of the living, in increasing order.
pub open spec fn alive_list(s: Seq<CombatStats>) -> Seq<usize>
    decreases s.len(),
{
    if s.len() == 0 {
        Seq::empty()
    } else {
        let rest = alive_list(s.drop_last());
        if s.last().hp > 0 {
            rest.push((s.len() - 1) as usize)
        } else {
            rest
        }
    }
}

/// The living are exactly those listed, in increasing order.
pub proof fn lemma_alive_list(s: Seq<CombatStats>)
    requires
        s.len() <= usize::MAX,
    ensures
        forall|k: int| 0 <= k < alive_list(s).len() ==> {
            let i = #[trigger] alive_list(s)[k];
            &&& 0 <= i < s.len()
            &&& s[i as int].hp > 0
        },
        forall|i: int| 0 <= i < s.len() && (#[trigger] s[i]).hp > 0 ==> alive_list(s).contains(i as usize),
        forall|a: int, b: int| 0 <= a < b < alive_list(s).len() ==> #[trigger] alive_list(s)[a] < #[trigger] alive_list(s)[b],
        alive_list(s).len() <= s.len(),
    decreases s.len(),
{
    if s.len() > 0 {
        let d = s.drop_last();
        let rest = alive_list(d);
        lemma_alive_list(d);
        assert forall|k: int| 0 <= k < alive_list(s).len() implies {
            let i = #[trigger] alive_list(s)[k];
            &&& 0 <= i < s.len()
            &&& s[i as int].hp > 0
        } by {
            if k < rest.len() {
                assert(alive_list(s)[k] == rest[k]);
                assert(d[rest[k] as int] == s[rest[k] as int]);
            }
        }
        assert forall|a: int, b: int| 0 <= a < b < alive_list(s).len() implies #[trigger] alive_list(s)[a] < #[trigger] alive_list(s)[b] by {
            if b < rest.len() {
                assert(alive_list(s)[a] == rest[a]);
                assert(alive_list(s)[b] == rest[b]);
            } else {
                assert(alive_list(s)[a] == rest[a]);
                assert(rest[a] < d.len());
            }
        }
        assert forall|i: int| 0 <= i < s.len() && (#[trigger] s[i]).hp > 0 implies alive_list(s).contains(i as usize) by {
            if i < s.len() - 1 {
                assert(d[i] == s[i]);
                assert(rest.contains(i as usize));
                let k = choose|k: int| 0 <= k < rest.len() && rest[k] == i as usize;
                assert(alive_list(s)[k] == i as usize);
            } else {
                assert(alive_list(s).last() == i as usize);
            }
        }
    }
}

/// Bonus of a running buff.
pub open spec fn buff_amount(b: Option<BuffState>) -> int {
    match b {
        Some(x) => x.amount as int,
        None => 0,
    }
}

/// Attack of a party member with equipment and buff.
pub open spec fn attack_with_buff(m: BattleModel, i: int) -> int {
    m.party_stats[i].attack + m.party_bonus[i] + buff_amount(m.party_buffs[i].attack_up)
}

/// Defense of a party member with buff.
pub open spec fn defense_with_buff(m: BattleModel, i: int) -> int {
    m.party_stats[i].defense + buff_amount(m.party_buffs[i].defense_up)
}

/// The statistics after damage.
pub open spec fn damaged(s: CombatStats, d: int) -> CombatStats {
    CombatStats { hp: hp_after_damage(s.hp as int, d), ..s }
}

/// The statistics after healing, capped at the maximum.
pub open spec fn healed(s: CombatStats, amount: int) -> CombatStats {
    CombatStats { hp: if s.hp + amount < s.max_hp { (s.hp + amount) as i32 } else { s.max_hp }, ..s }
}

/// The statistics after losing MP, not below zero.
pub open spec fn drained(s: CombatStats, amount: int) -> CombatStats {
    CombatStats { mp: hp_after_damage(s.mp as int, amount), ..s }
}

/// The ailments after one more is inflicted.
pub open spec fn with_ailment(a: ActorAilments, ailment: Ailment) -> ActorAilments {
    match ailment {
        Ailment::Sleep => ActorAilments { sleep: true, ..a },
        Ailment::Poison => ActorAilments { poison: true, ..a },
    }
}

/// Retargeting a weapon or spell aimed at an enemy: a fallen enemy is
/// replaced by the first living one; an ally target is kept.
pub open spec fn retarget_enemy_spec(m: BattleModel, target: TargetId) -> Option<TargetId> {
    match target {
        TargetId::Enemy(ei) => if m.enemy_stats[ei as int].hp > 0 {
            Some(target)
        } else if alive_list(m.enemy_stats).len() > 0 {
            Some(TargetId::Enemy(alive_list(m.enemy_stats)[0]))
        } else {
            None
        },
        TargetId::Party(_) => Some(target),
    }
}

/// Retargeting a spell or item aimed at an ally: a fallen ally is replaced
/// by the first living one; an enemy target is kept.
pub open spec fn retarget_ally_spec(m: BattleModel, target: TargetId) -> Option<TargetId> {
    match target {
        TargetId::Party(pi) => if m.party_stats[pi as int].hp > 0 {
            Some(target)
        } else if alive_list(m.party_stats).len() > 0 {
            Some(TargetId::Party(alive_list(m.party_stats)[0]))
        } else {
            None
        },
        TargetId::Enemy(_) => Some(target),
    }
}

/// An enemy target names an existing enemy.
pub open spec fn enemy_index_ok(t: TargetId, n_enemies: int) -> bool {
    t matches TargetId::Enemy(i) ==> i < n_enemies
}

/// An ally target names an existing party member.
pub open spec fn ally_index_ok(t: TargetId, n_party: int) -> bool {
    t matches TargetId::Party(i) ==> i < n_party
}

/// A weapon or spell aimed at an enemy lands on a living enemy whenever one
/// is left, and on nothing otherwise.
pub proof fn lemma_retarget_lands_on_living(m: BattleModel, ei: usize)
    requires
        ei < m.enemy_stats.len(),
        m.enemy_stats.len() <= usize::MAX,
    ensures
        (exists|j: int| 0 <= j < m.enemy_stats.len() && #[trigger] m.enemy_stats[j].hp > 0) ==> {
            &&& retarget_enemy_spec(m, TargetId::Enemy(ei)) matches Some(TargetId::Enemy(t))
            &&& t < m.enemy_stats.len()
            &&& m.enemy_stats[t as int].hp > 0
        },
        all_down(m.enemy_stats) ==> retarget_enemy_spec(m, TargetId::Enemy(ei)) is None,
{
    lemma_alive_list(m.enemy_stats);
    if exists|j: int| 0 <= j < m.enemy_stats.len() && #[trigger] m.enemy_stats[j].hp > 0 {
        let j = choose|j: int| 0 <= j < m.enemy_stats.len() && #[trigger] m.enemy_stats[j].hp > 0;
        assert(alive_list(m.enemy_stats).contains(j as usize));
    }
    if all_down(m.enemy_stats) && alive_list(m.enemy_stats).len() > 0 {
        let i = alive_list(m.enemy_stats)[0];
        assert(m.enemy_stats[i as int].hp > 0);
    }
}

/// The model with one party member's statistics replaced.
pub open spec fn with_party_stats(m: BattleModel, i: int, s: CombatStats) -> BattleModel {
    BattleModel { party_stats: m.party_stats.update(i, s), ..m }
}

/// The model with one enemy's statistics replaced.
pub open spec fn with_enemy_stats(m: BattleModel, i: int, s: CombatStats) -> BattleModel {
    BattleModel { enemy_stats: m.enemy_stats.update(i, s), ..m }
}

/// The model with one party member's buffs replaced.
pub open spec fn with_party_buffs(m: BattleModel, i: int, b: ActorBuffs) -> BattleModel {
    BattleModel { party_buffs: m.party_buffs.update(i, b), ..m }
}

/// The model with one party member's ailments replaced.
pub open spec fn with_party_ailments(m: BattleModel, i: int, a: ActorAilments) -> BattleModel {
    BattleModel { party_ailments: m.party_ailments.update(i, a), ..m }
}

/// The model with one enemy's ailments replaced.
pub open spec fn with_enemy_ailments(m: BattleModel, i: int, a: ActorAilments) -> BattleModel {
    BattleModel { enemy_ailments: m.enemy_ailments.update(i, a), ..m }
}

/// The model with one party member's item counts replaced.
pub open spec fn with_party_items(m: BattleModel, i: int, c: Seq<u32>) -> BattleModel {
    BattleModel { party_items: m.party_items.update(i, c), ..m }
}

/// Results of a hit: the hit itself, then the fall if the target is down.
pub open spec fn with_fall(hit: TurnResult, target: TargetId, after: CombatStats) -> Seq<TurnResult> {
    if after.hp > 0 {
        seq![hit]
    } else {
        seq![hit, TurnResult::Defeated { target }]
    }
}

/// What a party member's spell does to one target.
pub open spec fn party_spell_step(m: BattleModel, caster: usize, spell: SpellKind, t: usize, random: u32) -> (BattleModel, Seq<TurnResult>) {
    let c = ActorId::Party(caster);
    let e = spell_entry_spec(spell);
    match e.effect {
        SpellEffect::Damage { base_damage } => {
            let d = spell_damage_spec(base_damage as int, m.enemy_stats[t as int].defense as int, DEFENSE_DIVISOR as int, random as int);
            let after = damaged(m.enemy_stats[t as int], d as int);
            (
                with_enemy_stats(m, t as int, after),
                with_fall(TurnResult::SpellDamage { caster: c, spell, target: TargetId::Enemy(t), damage: d }, TargetId::Enemy(t), after),
            )
        },
        SpellEffect::Heal { base_heal } => {
            let a = scaled_amount(base_heal as int, random as int);
            (
                with_party_stats(m, t as int, healed(m.party_stats[t as int], a as int)),
                seq![TurnResult::Healed { caster: c, spell, target: TargetId::Party(t), amount: a }],
            )
        },
        SpellEffect::AttackBuff { amount } => (
            with_party_buffs(m, t as int, ActorBuffs {
                attack_up: Some(BuffState { amount, remaining_turns: BUFF_DURATION }),
                ..m.party_buffs[t as int]
            }),
            seq![TurnResult::Buffed { caster: c, spell, target: TargetId::Party(t), amount }],
        ),
        SpellEffect::Block { .. } => {
            let amount = guard_amount(spell);
            (
                with_party_buffs(m, t as int, ActorBuffs {
                    defense_up: Some(BuffState { amount, remaining_turns: BUFF_DURATION }),
                    ..m.party_buffs[t as int]
                }),
                seq![TurnResult::Buffed { caster: c, spell, target: TargetId::Party(t), amount }],
            )
        },
        SpellEffect::MpDrain { base_drain } => {
            let a = scaled_amount(base_drain as int, random as int);
            (
                with_enemy_stats(m, t as int, drained(m.enemy_stats[t as int], a as int)),
                seq![TurnResult::MpDrained { caster: c, spell, target: TargetId::Enemy(t), amount: a }],
            )
        },
        SpellEffect::Ailment { success_rate } => match e.ailment {
            Some(ail) => if ailment_lands(success_rate as int, random as int) {
                (
                    with_enemy_ailments(m, t as int, with_ailment(m.enemy_ailments[t as int], ail)),
                    seq![TurnResult::AilmentInflicted { caster: c, spell, target: TargetId::Enemy(t), ailment: ail }],
                )
            } else {
                (m, seq![TurnResult::AilmentResisted { caster: c, spell, target: TargetId::Enemy(t) }])
            },
            None => (m, Seq::empty()),
        },
    }
}

/// A party member's spell applied to each target in turn.
pub open spec fn party_spell_fold(m: BattleModel, caster: usize, spell: SpellKind, targets: Seq<usize>, random: u32) -> (BattleModel, Seq<TurnResult>)
    decreases targets.len(),
{
    if targets.len() == 0 {
        (m, Seq::empty())
    } else {
        let (m1, r1) = party_spell_fold(m, caster, spell, targets.drop_last(), random);
        let (m2, r2) = party_spell_step(m1, caster, spell, targets.last(), random);
        (m2, r1 + r2)
    }
}

/// Effects that fall on the caster's enemies.
pub open spec fn hits_enemies(e: SpellEffect) -> bool {
    e is Damage || e is MpDrain || e is Ailment
}

/// Whom a party member's spell falls on: a single (retargeted) target or
/// every living one of the side it is aimed at.
pub open spec fn spell_targets(m: BattleModel, spell: SpellKind, target: TargetId) -> Seq<usize> {
    let e = spell_entry_spec(spell);
    if hits_enemies(e.effect) {
        match e.target_type {
            SpellTarget::SingleEnemy => match retarget_enemy_spec(m, target) {
                Some(TargetId::Enemy(i)) => seq![i],
                _ => Seq::empty(),
            },
            SpellTarget::AllEnemies => alive_list(m.enemy_stats),
            _ => Seq::empty(),
        }
    } else {
        match e.target_type {
            SpellTarget::SingleAlly => match retarget_ally_spec(m, target) {
                Some(TargetId::Party(i)) => seq![i],
                _ => Seq::empty(),
            },
            SpellTarget::AllAllies => alive_list(m.party_stats),
            _ => Seq::empty(),
        }
    }
}

/// A party member casts a spell: nothing without enough MP; otherwise the
/// MP is paid and the spell falls on its targets.
pub open spec fn party_spell_spec(m: BattleModel, caster: usize, spell: SpellKind, target: TargetId, random: u32) -> (BattleModel, Seq<TurnResult>) {
    let cost = spell_entry_spec(spell).mp_cost;
    let s = m.party_stats[caster as int];
    if s.mp < cost {
        (m, Seq::empty())
    } else {
        let m1 = with_party_stats(m, caster as int, CombatStats { mp: (s.mp - cost) as i32, ..s });
        party_spell_fold(m1, caster, spell, spell_targets(m1, spell, target), random)
    }
}

/// Every index in a list lies below `n`.
pub open spec fn indices_below(v: Seq<usize>, n: int) -> bool {
    forall|k: int| 0 <= k < v.len() ==> #[trigger] v[k] < n
}

impl BattleState {
    /// The part of the battle that a turn changes, with what actions read.
    pub open spec fn model(self) -> BattleModel {
        BattleModel {
            party_stats: self.party@.map_values(|m: PartyMember| m.stats),
            party_items: self.party@.map_values(|m: PartyMember| m.inventory.counts()),
            party_bonus: self.party@.map_values(|m: PartyMember| equipment_bonus(m.equipment) as int),
            enemy_stats: self.enemies@.map_values(|e: Enemy| e.stats),
            enemy_kinds: self.enemies@.map_values(|e: Enemy| e.kind),
            party_buffs: self.party_buffs@,
            party_ailments: self.party_ailments@,
            enemy_ailments: self.enemy_ailments@,
        }
    }

    /// The parts in agreement and in bounds.
    pub open spec fn well_formed(self) -> bool {
        model_ok(self.model())
    }

    /// What a turn never changes: who is in the battle, their levels,
    /// experience, equipment and bag sizes, and the enemies' kinds and tiers.
    pub open spec fn same_cast(self, other: BattleState) -> bool {
        &&& self.party@.len() == other.party@.len()
        &&& self.enemies@.len() == other.enemies@.len()
        &&& forall|i: int| 0 <= i < self.party@.len() ==> {
            &&& (#[trigger] self.party@[i]).kind == other.party@[i].kind
            &&& self.party@[i].level == other.party@[i].level
            &&& self.party@[i].exp == other.party@[i].exp
            &&& self.party@[i].equipment == other.party@[i].equipment
            &&& self.party@[i].inventory.capacity() == other.party@[i].inventory.capacity()
        }
        &&& forall|i: int| 0 <= i < self.enemies@.len() ==> {
            &&& (#[trigger] self.enemies@[i]).kind == other.enemies@[i].kind
            &&& self.enemies@[i].tier == other.enemies@[i].tier
        }
    }

    /// A battle between a party and enemies, with no buffs, no ailments
    /// and an empty log.
    pub fn new(party: Vec<PartyMember>, enemies: Vec<Enemy>) -> (r: Self)
        ensures
            r.party@ == party@,
            r.enemies@ == enemies@,
            r.turn_log@ == Seq::<TurnResult>::empty(),
            r.party_buffs@.len() == party@.len(),
            r.party_ailments@.len() == party@.len(),
            r.enemy_ailments@.len() == enemies@.len(),
            forall|i: int| 0 <= i < party@.len() ==> (#[trigger] r.party_buffs@[i]).attack_up is None
                && r.party_buffs@[i].defense_up is None,
            forall|i: int| 0 <= i < party@.len() ==> !(#[trigger] r.party_ailments@[i]).sleep
                && !r.party_ailments@[i].poison,
            forall|i: int| 0 <= i < enemies@.len() ==> !(#[trigger] r.enemy_ailments@[i]).sleep
                && !r.enemy_ailments@[i].poison,
    {
        let party_count = party.len();
        let enemy_count = enemies.len();
        let mut party_buffs: Vec<ActorBuffs> = Vec::new();
        let mut party_ailments: Vec<ActorAilments> = Vec::new();
        let mut i: usize = 0;
        while i < party_count
            invariant
                i <= party_count,
                party_buffs@.len() == i,
                party_ailments@.len() == i,
                forall|j: int| 0 <= j < i ==> (#[trigger] party_buffs@[j]).attack_up is None
                    && party_buffs@[j].defense_up is None,
                forall|j: int| 0 <= j < i ==> !(#[trigger] party_ailments@[j]).sleep
                    && !party_ailments@[j].poison,
            decreases party_count - i,
        {
            party_buffs.push(ActorBuffs::default());
            party_ailments.push(ActorAilments::default());
            i = i + 1;
        }
        let mut enemy_ailments: Vec<ActorAilments> = Vec::new();
        let mut j: usize = 0;
        while j < enemy_count
            invariant
                j <= enemy_count,
                enemy_ailments@.len() == j,
                forall|k: int| 0 <= k < j ==> !(#[trigger] enemy_ailments@[k]).sleep
                    && !enemy_ailments@[k].poison,
            decreases enemy_count - j,
        {
            enemy_ailments.push(ActorAilments::default());
            j = j + 1;
        }
        BattleState { party, enemies, turn_log: Vec::new(), party_buffs, party_ailments, enemy_ailments }
    }

    /// The indices of the living enemies, in increasing order.
    pub fn alive_enemy_indices(&self) -> (r: Vec<usize>)
        ensures
            r@ == alive_list(self.model().enemy_stats),
    {
        let ghost s = self.model().enemy_stats;
        let mut out: Vec<usize> = Vec::new();
        let mut i: usize = 0;
        while i < self.enemies.len()
            invariant
                i <= self.enemies@.len(),
                s == self.model().enemy_stats,
                s.len() == self.enemies@.len(),
                out@ == alive_list(s.take(i as int)),
            decreases self.enemies@.len() - i,
        {
            proof {
                assert(s.take(i + 1).drop_last() =~= s.take(i as int));
                assert(s[i as int] == self.enemies@[i as int].stats);
            }
            if self.enemies[i].stats.hp > 0 {
                out.push(i);
            }
            i = i + 1;
        }
        proof { assert(s.take(s.len() as int) =~= s); }
        out
    }

    /// The indices of the living party members, in increasing order.
    pub fn alive_party_indices(&self) -> (r: Vec<usize>)
        ensures
            r@ == alive_list(self.model().party_stats),
    {
        let ghost s = self.model().party_stats;
        let mut out: Vec<usize> = Vec::new();
        let mut i: usize = 0;
        while i < self.party.len()
            invariant
                i <= self.party@.len(),
                s == self.model().party_stats,
                s.len() == self.party@.len(),
                out@ == alive_list(s.take(i as int)),
            decreases self.party@.len() - i,
        {
            proof {
                assert(s.take(i + 1).drop_last() =~= s.take(i as int));
                assert(s[i as int] == self.party@[i as int].stats);
            }
            if self.party[i].stats.hp > 0 {
                out.push(i);
            }
            i = i + 1;
        }
        proof { assert(s.take(s.len() as int) =~= s); }
        out
    }

    /// Every enemy is down.
    pub fn is_victory(&self) -> (r: bool)
        ensures
            r == all_down(self.model().enemy_stats),
    {
        let mut i: usize = 0;
        while i < self.enemies.len()
            invariant
                i <= self.enemies@.len(),
                forall|j: int| 0 <= j < i ==> (#[trigger] self.enemies@[j]).stats.hp <= 0,
            decreases self.enemies@.len() - i,
        {
            if self.enemies[i].stats.hp > 0 {
                proof { assert(self.model().enemy_stats[i as int].hp > 0); }
                return false;
            }
            i = i + 1;
        }
        proof {
            assert forall|j: int| 0 <= j < self.model().enemy_stats.len() implies (#[trigger] self.model().enemy_stats[j]).hp <= 0 by {
                assert(self.enemies@[j].stats.hp <= 0);
            }
        }
        true
    }

    /// Every party member is down.
    pub fn is_party_wiped(&self) -> (r: bool)
        ensures
            r == all_down(self.model().party_stats),
    {
        let mut i: usize = 0;
        while i < self.party.len()
            invariant
                i <= self.party@.len(),
                forall|j: int| 0 <= j < i ==> (#[trigger] self.party@[j]).stats.hp <= 0,
            decreases self.party@.len() - i,
        {
            if self.party[i].stats.hp > 0 {
                proof { assert(self.model().party_stats[i as int].hp > 0); }
                return false;
            }
            i = i + 1;
        }
        proof {
            assert forall|j: int| 0 <= j < self.model().party_stats.len() implies (#[trigger] self.model().party_stats[j]).hp <= 0 by {
                assert(self.party@[j].stats.hp <= 0);
            }
        }
        true
    }

    /// The party fled at some point of the battle.
    pub open spec fn has_fled(self) -> bool {
        exists|i: int| 0 <= i < self.turn_log@.len() && self.turn_log@[i] == TurnResult::Fled
    }

    /// The battle is over: won, lost, or fled.
    pub fn is_over(&self) -> (r: bool)
        ensures
            r == (all_down(self.model().enemy_stats) || all_down(self.model().party_stats) || self.has_fled()),
    {
        if self.is_victory() || self.is_party_wiped() {
            return true;
        }
        let mut i: usize = 0;
        while i < self.turn_log.len()
            invariant
                i <= self.turn_log@.len(),
                forall|j: int| 0 <= j < i ==> self.turn_log@[j] != TurnResult::Fled,
            decreases self.turn_log@.len() - i,
        {
            match self.turn_log[i] {
                TurnResult::Fled => {
                    return true;
                },
                _ => {},
            }
            i = i + 1;
        }
        false
    }

    /// Attack of a party member with equipment and buff.
    pub fn effective_attack_with_buff(&self, party_idx: usize) -> (r: i32)
        requires
            self.well_formed(),
            party_idx < self.party@.len(),
        ensures
            r == attack_with_buff(self.model(), party_idx as int),
    {
        proof {
            assert(stats_ok(self.model().party_stats[party_idx as int]));
            assert(-1000 <= self.model().party_bonus[party_idx as int] <= 1000);
            assert(buff_ok(self.model().party_buffs[party_idx as int].attack_up));
        }
        let base = self.party[party_idx].effective_attack();
        let buff = match self.party_buffs[party_idx].attack_up {
            Some(b) => b.amount,
            None => 0,
        };
        base + buff
    }

    /// Defense of a party member with buff.
    pub fn effective_defense_with_buff(&self, party_idx: usize) -> (r: i32)
        requires
            self.well_formed(),
            party_idx < self.party@.len(),
        ensures
            r == defense_with_buff(self.model(), party_idx as int),
    {
        proof {
            assert(stats_ok(self.model().party_stats[party_idx as int]));
            assert(buff_ok(self.model().party_buffs[party_idx as int].defense_up));
        }
        let base = self.party[party_idx].stats.defense;
        let buff = match self.party_buffs[party_idx].defense_up {
            Some(b) => b.amount,
            None => 0,
        };
        base + buff
    }

    pub(crate) fn set_party_stats(&mut self, i: usize, stats: CombatStats)
        requires
            i < old(self).party@.len(),
        ensures
            final(self).model() == with_party_stats(old(self).model(), i as int, stats),
            final(self).same_cast(*old(self)),
            final(self).turn_log@ == old(self).turn_log@,
    {
        let ghost before = self.party@;
        let mut member = self.party.remove(i);
        member.stats = stats;
        self.party.insert(i, member);
        proof {
            assert(self.party@ =~= before.update(i as int, self.party@[i as int]));
            assert(self.model().party_stats =~= old(self).model().party_stats.update(i as int, stats));
            assert(self.model().party_items =~= old(self).model().party_items);
            assert(self.model().party_bonus =~= old(self).model().party_bonus);
        }
    }

    pub(crate) fn set_enemy_stats(&mut self, i: usize, stats: CombatStats)
        requires
            i < old(self).enemies@.len(),
        ensures
            final(self).model() == with_enemy_stats(old(self).model(), i as int, stats),
            final(self).same_cast(*old(self)),
            final(self).turn_log@ == old(self).turn_log@,
    {
        let mut e = self.enemies[i];
        e.stats = stats;
        self.enemies.set(i, e);
        proof {
            assert(self.model().enemy_stats =~= old(self).model().enemy_stats.update(i as int, stats));
            assert(self.model().enemy_kinds =~= old(self).model().enemy_kinds);
        }
    }

    pub(crate) fn set_party_buffs(&mut self, i: usize, b: ActorBuffs)
        requires
            i < old(self).party_buffs@.len(),
        ensures
            final(self).model() == with_party_buffs(old(self).model(), i as int, b),
            final(self).same_cast(*old(self)),
            final(self).turn_log@ == old(self).turn_log@,
            final(self).party_buffs@ == old(self).party_buffs@.update(i as int, b),
            final(self).party@ == old(self).party@,
            final(self).enemies@ == old(self).enemies@,
            final(self).party_ailments@ == old(self).party_ailments@,
            final(self).enemy_ailments@ == old(self).enemy_ailments@,
    {
        self.party_buffs.set(i, b);
        proof {
            assert(self.model().party_buffs =~= old(self).model().party_buffs.update(i as int, b));
        }
    }

    pub(crate) fn set_party_ailments(&mut self, i: usize, a: ActorAilments)
        requires
            i < old(self).party_ailments@.len(),
        ensures
            final(self).model() == with_party_ailments(old(self).model(), i as int, a),
            final(self).same_cast(*old(self)),
            final(self).turn_log@ == old(self).turn_log@,
    {
        self.party_ailments.set(i, a);
        proof {
            assert(self.model().party_ailments =~= old(self).model().party_ailments.update(i as int, a));
        }
    }

    pub(crate) fn set_enemy_ailments(&mut self, i: usize, a: ActorAilments)
        requires
            i < old(self).enemy_ailments@.len(),
        ensures
            final(self).model() == with_enemy_ailments(old(self).model(), i as int, a),
            final(self).same_cast(*old(self)),
            final(self).turn_log@ == old(self).turn_log@,
    {
        self.enemy_ailments.set(i, a);
        proof {
            assert(self.model().enemy_ailments =~= old(self).model().enemy_ailments.update(i as int, a));
        }
    }

    /// Takes one item from a member's bag; false when there is none.
    pub(crate) fn take_member_item(&mut self, i: usize, item: ItemKey) -> (r: bool)
        requires
            i < old(self).party@.len(),
        ensures
            r == (old(self).model().party_items[i as int][key_index(item)] > 0),
            r ==> final(self).model() == with_party_items(
                old(self).model(),
                i as int,
                old(self).model().party_items[i as int].update(
                    key_index(item),
                    (old(self).model().party_items[i as int][key_index(item)] - 1) as u32,
                ),
            ),
            !r ==> final(self).model() == old(self).model(),
            final(self).same_cast(*old(self)),
            final(self).turn_log@ == old(self).turn_log@,
    {
        let ghost before = self.party@;
        let mut member = self.party.remove(i);
        let r = member.inventory.use_item(item);
        self.party.insert(i, member);
        proof {
            assert(self.party@ =~= before.update(i as int, self.party@[i as int]));
            assert(self.model().party_stats =~= old(self).model().party_stats);
            assert(self.model().party_bonus =~= old(self).model().party_bonus);
            if r {
                assert(self.model().party_items =~= old(self).model().party_items.update(
                    i as int,
                    old(self).model().party_items[i as int].update(
                        key_index(item),
                        (old(self).model().party_items[i as int][key_index(item)] - 1) as u32,
                    ),
                ));
            } else {
                assert(self.model().party_items =~= old(self).model().party_items);
            }
        }
        r
    }

    /// A fallen enemy target is replaced by the first living enemy.
    pub(crate) fn retarget_enemy(&self, target: TargetId) -> (r: Option<TargetId>)
        requires
            enemy_index_ok(target, self.enemies@.len() as int),
        ensures
            r == retarget_enemy_spec(self.model(), target),
    {
        match target {
            TargetId::Enemy(ei) => {
                if self.enemies[ei].stats.hp > 0 {
                    return Some(target);
                }
                let alive = self.alive_enemy_indices();
                if alive.len() > 0 {
                    Some(TargetId::Enemy(alive[0]))
                } else {
                    None
                }
            },
            TargetId::Party(_) => Some(target),
        }
    }

    /// A fallen ally target is replaced by the first living ally.
    pub(crate) fn retarget_ally(&self, target: TargetId) -> (r: Option<TargetId>)
        requires
            ally_index_ok(target, self.party@.len() as int),
        ensures
            r == retarget_ally_spec(self.model(), target),
    {
        match target {
            TargetId::Party(pi) => {
                if self.party[pi].stats.hp > 0 {
                    return Some(target);
                }
                let alive = self.alive_party_indices();
                if alive.len() > 0 {
                    Some(TargetId::Party(alive[0]))
                } else {
                    None
                }
            },
            TargetId::Enemy(_) => Some(target),
        }
    }

    /// One target of a party member's spell.
    pub(crate) fn party_spell_on(&mut self, caster: usize, spell: SpellKind, t: usize, random: u32) -> (r: Vec<TurnResult>)
        requires
            old(self).well_formed(),
            random <= RANDOM_LIMIT,
            caster < old(self).party@.len(),
            hits_enemies(spell_entry_spec(spell).effect) ==> t < old(self).enemies@.len(),
            !hits_enemies(spell_entry_spec(spell).effect) ==> t < old(self).party@.len(),
        ensures
            (final(self).model(), r@) == party_spell_step(old(self).model(), caster, spell, t, random),
            final(self).well_formed(),
            final(self).same_cast(*old(self)),
            final(self).turn_log@ == old(self).turn_log@,
    {
        let ghost m = self.model();
        let c = ActorId::Party(caster);
        let e = spell.entry();
        proof { lemma_spell_data(spell); }
        let mut out: Vec<TurnResult> = Vec::new();
        match e.effect {
            SpellEffect::Damage { base_damage } => {
                let mut st = self.enemies[t].stats;
                proof { assert(stats_ok(m.enemy_stats[t as int])); }
                let d = spell_damage(base_damage, st.defense, DEFENSE_DIVISOR, random);
                st.take_damage(d);
                self.set_enemy_stats(t, st);
                out.push(TurnResult::SpellDamage { caster: c, spell, target: TargetId::Enemy(t), damage: d });
                if st.hp <= 0 {
                    out.push(TurnResult::Defeated { target: TargetId::Enemy(t) });
                }
                proof {
                    assert(out@ =~= with_fall(TurnResult::SpellDamage { caster: c, spell, target: TargetId::Enemy(t), damage: d }, TargetId::Enemy(t), st));
                    assert(model_ok(self.model())) by {
                        assert(forall|i: int| 0 <= i < self.model().enemy_stats.len() ==> stats_ok(#[trigger] self.model().enemy_stats[i])) by {
                            assert(forall|i: int| 0 <= i < m.enemy_stats.len() ==> stats_ok(#[trigger] m.enemy_stats[i]));
                        }
                    }
                }
            },
            SpellEffect::Heal { base_heal } => {
                let mut st = self.party[t].stats;
                proof {
                    assert(stats_ok(m.party_stats[t as int]));
                    lemma_scaled_amount_bound(base_heal as int, random as int);
                }
                let a = heal_amount(base_heal, random);
                st.hp = if st.hp + a < st.max_hp { st.hp + a } else { st.max_hp };
                self.set_party_stats(t, st);
                out.push(TurnResult::Healed { caster: c, spell, target: TargetId::Party(t), amount: a });
                proof {
                    assert(out@ =~= seq![TurnResult::Healed { caster: c, spell, target: TargetId::Party(t), amount: a }]);
                }
            },
            SpellEffect::AttackBuff { amount } => {
                let mut b = self.party_buffs[t];
                b.attack_up = Some(BuffState { amount, remaining_turns: BUFF_DURATION });
                self.set_party_buffs(t, b);
                out.push(TurnResult::Buffed { caster: c, spell, target: TargetId::Party(t), amount });
                proof {
                    assert(out@ =~= seq![TurnResult::Buffed { caster: c, spell, target: TargetId::Party(t), amount }]);
                }
            },
            SpellEffect::Block { .. } => {
                let amount = spell.guard_amount();
                let mut b = self.party_buffs[t];
                b.defense_up = Some(BuffState { amount, remaining_turns: BUFF_DURATION });
                self.set_party_buffs(t, b);
                out.push(TurnResult::Buffed { caster: c, spell, target: TargetId::Party(t), amount });
                proof {
                    assert(out@ =~= seq![TurnResult::Buffed { caster: c, spell, target: TargetId::Party(t), amount }]);
                }
            },
            SpellEffect::MpDrain { base_drain } => {
                let mut st = self.enemies[t].stats;
                proof { assert(stats_ok(m.enemy_stats[t as int])); }
                let a = mp_drain_amount(base_drain, random);
                st.drain_mp(a);
                self.set_enemy_stats(t, st);
                out.push(TurnResult::MpDrained { caster: c, spell, target: TargetId::Enemy(t), amount: a });
                proof {
                    assert(out@ =~= seq![TurnResult::MpDrained { caster: c, spell, target: TargetId::Enemy(t), amount: a }]);
                }
            },
            SpellEffect::Ailment { success_rate } => {
                match e.ailment {
                    Some(ail) => {
                        if ailment_success(success_rate, random) {
                            let a = self.enemy_ailments[t];
                            let a2 = match ail {
                                Ailment::Sleep => ActorAilments { sleep: true, ..a },
                                Ailment::Poison => ActorAilments { poison: true, ..a },
                            };
                            self.set_enemy_ailments(t, a2);
                            out.push(TurnResult::AilmentInflicted { caster: c, spell, target: TargetId::Enemy(t), ailment: ail });
                            proof {
                                assert(out@ =~= seq![TurnResult::AilmentInflicted { caster: c, spell, target: TargetId::Enemy(t), ailment: ail }]);
                            }
                        } else {
                            out.push(TurnResult::AilmentResisted { caster: c, spell, target: TargetId::Enemy(t) });
                            proof {
                                assert(out@ =~= seq![TurnResult::AilmentResisted { caster: c, spell, target: TargetId::Enemy(t) }]);
                            }
                        }
                    },
                    None => {},
                }
            },
        }
        out
    }

    /// A party member's spell applied to each target in turn.
    pub(crate) fn party_spell_all(&mut self, caster: usize, spell: SpellKind, targets: &Vec<usize>, random: u32) -> (r: Vec<TurnResult>)
        requires
            old(self).well_formed(),
            random <= RANDOM_LIMIT,
            caster < old(self).party@.len(),
            hits_enemies(spell_entry_spec(spell).effect) ==> indices_below(targets@, old(self).enemies@.len() as int),
            !hits_enemies(spell_entry_spec(spell).effect) ==> indices_below(targets@, old(self).party@.len() as int),
        ensures
            (final(self).model(), r@) == party_spell_fold(old(self).model(), caster, spell, targets@, random),
            final(self).well_formed(),
            final(self).same_cast(*old(self)),
            final(self).turn_log@ == old(self).turn_log@,
    {
        let mut out: Vec<TurnResult> = Vec::new();
        let mut i: usize = 0;
        while i < targets.len()
            invariant
                i <= targets@.len(),
                self.well_formed(),
                random <= RANDOM_LIMIT,
                caster < self.party@.len(),
                self.same_cast(*old(self)),
                self.turn_log@ == old(self).turn_log@,
                hits_enemies(spell_entry_spec(spell).effect) ==> indices_below(targets@, self.enemies@.len() as int),
                !hits_enemies(spell_entry_spec(spell).effect) ==> indices_below(targets@, self.party@.len() as int),
                (self.model(), out@) == party_spell_fold(old(self).model(), caster, spell, targets@.take(i as int), random),
            decreases targets@.len() - i,
        {
            proof {
                assert(targets@.take(i + 1).drop_last() =~= targets@.take(i as int));
                assert(targets@.take(i + 1).last() == targets@[i as int]);
            }
            let t = targets[i];
            let mut step = self.party_spell_on(caster, spell, t, random);
            out.append(&mut step);
            i = i + 1;
        }
        proof { assert(targets@.take(targets@.len() as int) =~= targets@); }
        out
    }
}

} // verus!
