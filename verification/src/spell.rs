//! Spells: their data entries and the amounts they deal.
use vstd::prelude::*;
use crate::formula::{
    at_least_one, round_half_away, round_ratio, saturate_i32, saturating_i32, scale_by_random,
    scaled_amount, RANDOM_SCALE,
};

verus! {

/// The divisor applied to the defense in the spell damage formula.
pub const DEFENSE_DIVISOR: i32 = 4;

/// Damage dealt by poison at the end of each turn.
pub const POISON_DAMAGE: i32 = 3;

/// Number of spells in the game.
pub const SPELL_COUNT: usize = 24;

/// What a spell does, with its strength.
#[derive(Debug, Clone, Copy, PartialEq, Eq)]
pub enum SpellEffect {
    Damage { base_damage: i32 },
    Heal { base_heal: i32 },
    AttackBuff { amount: i32 },
    Block { amount: i32 },
    MpDrain { base_drain: i32 },
    Ailment { success_rate: i32 },
}

/// A lasting bad condition.
#[derive(Debug, Clone, Copy, PartialEq, Eq, Hash)]
pub enum Ailment {
    /// Cannot act; woken up by an attack.
    Sleep,
    /// Takes fixed damage at the end of each turn.
    Poison,
}

/// The display name of an ailment.
pub open spec fn ailment_name(a: Ailment) -> &'static str {
    match a {
        Ailment::Sleep => "ねむり",
        Ailment::Poison => "どく",
    }
}

impl Ailment {
    pub fn name(self) -> (r: &'static str)
        ensures
            r == ailment_name(self),
    {
        match self {
            Ailment::Sleep => "ねむり",
            Ailment::Poison => "どく",
        }
    }
}

/// Whom a spell is aimed at, seen from its caster.
#[derive(Debug, Clone, Copy, PartialEq, Eq)]
pub enum SpellTarget {
    SingleEnemy,
    AllEnemies,
    SingleAlly,
    AllAllies,
}

/// The data of one spell.
#[derive(Debug, Clone, Copy, PartialEq, Eq)]
pub struct SpellEntry {
    pub name: &'static str,
    pub mp_cost: i32,
    pub effect: SpellEffect,
    pub target_type: SpellTarget,
    pub ailment: Option<Ailment>,
}

impl SpellEntry {
    /// A spell is offensive when it is aimed at the caster's enemies.
    pub fn is_offensive(&self) -> (r: bool)
        ensures
            r == (self.target_type is SingleEnemy || self.target_type is AllEnemies),
    {
        match self.target_type {
            SpellTarget::SingleEnemy | SpellTarget::AllEnemies => true,
            _ => false,
        }
    }
}

/// The spells of the game.
#[derive(Debug, Clone, Copy, PartialEq, Eq, Structural)]
pub enum SpellKind {
    Fire1,
    Fire2,
    Blaze1,
    Blaze2,
    Heal1,
    Heal2,
    Healall1,
    Healall2,
    Shield1,
    Shield2,
    Barrier1,
    Barrier2,
    Boost1,
    Boost2,
    Rally1,
    Rally2,
    Drain1,
    Drain2,
    Siphon1,
    Siphon2,
    Sleep1,
    Sleepall1,
    Poison1,
    Poisonall1,
}

/// The data entry of each spell.
pub open spec fn spell_entry_spec(k: SpellKind) -> SpellEntry {
    match k {
        SpellKind::Fire1 => SpellEntry { name: "Fire1", mp_cost: 3, effect: SpellEffect::Damage { base_damage: 12 }, target_type: SpellTarget::SingleEnemy, ailment: None },
        SpellKind::Fire2 => SpellEntry { name: "Fire2", mp_cost: 7, effect: SpellEffect::Damage { base_damage: 25 }, target_type: SpellTarget::SingleEnemy, ailment: None },
        SpellKind::Blaze1 => SpellEntry { name: "Blaze1", mp_cost: 5, effect: SpellEffect::Damage { base_damage: 8 }, target_type: SpellTarget::AllEnemies, ailment: None },
        SpellKind::Blaze2 => SpellEntry { name: "Blaze2", mp_cost: 10, effect: SpellEffect::Damage { base_damage: 18 }, target_type: SpellTarget::AllEnemies, ailment: None },
        SpellKind::Heal1 => SpellEntry { name: "Heal1", mp_cost: 3, effect: SpellEffect::Heal { base_heal: 15 }, target_type: SpellTarget::SingleAlly, ailment: None },
        SpellKind::Heal2 => SpellEntry { name: "Heal2", mp_cost: 7, effect: SpellEffect::Heal { base_heal: 40 }, target_type: SpellTarget::SingleAlly, ailment: None },
        SpellKind::Healall1 => SpellEntry { name: "Healall1", mp_cost: 6, effect: SpellEffect::Heal { base_heal: 10 }, target_type: SpellTarget::AllAllies, ailment: None },
        SpellKind::Healall2 => SpellEntry { name: "Healall2", mp_cost: 12, effect: SpellEffect::Heal { base_heal: 25 }, target_type: SpellTarget::AllAllies, ailment: None },
        SpellKind::Shield1 => SpellEntry { name: "Shield1", mp_cost: 3, effect: SpellEffect::Block { amount: 10 }, target_type: SpellTarget::SingleAlly, ailment: None },
        SpellKind::Shield2 => SpellEntry { name: "Shield2", mp_cost: 6, effect: SpellEffect::Block { amount: 20 }, target_type: SpellTarget::SingleAlly, ailment: None },
        SpellKind::Barrier1 => SpellEntry { name: "Barrier1", mp_cost: 6, effect: SpellEffect::Block { amount: 6 }, target_type: SpellTarget::AllAllies, ailment: None },
        SpellKind::Barrier2 => SpellEntry { name: "Barrier2", mp_cost: 10, effect: SpellEffect::Block { amount: 12 }, target_type: SpellTarget::AllAllies, ailment: None },
        SpellKind::Boost1 => SpellEntry { name: "Boost1", mp_cost: 3, effect: SpellEffect::AttackBuff { amount: 3 }, target_type: SpellTarget::SingleAlly, ailment: None },
        SpellKind::Boost2 => SpellEntry { name: "Boost2", mp_cost: 6, effect: SpellEffect::AttackBuff { amount: 6 }, target_type: SpellTarget::SingleAlly, ailment: None },
        SpellKind::Rally1 => SpellEntry { name: "Rally1", mp_cost: 6, effect: SpellEffect::AttackBuff { amount: 2 }, target_type: SpellTarget::AllAllies, ailment: None },
        SpellKind::Rally2 => SpellEntry { name: "Rally2", mp_cost: 10, effect: SpellEffect::AttackBuff { amount: 4 }, target_type: SpellTarget::AllAllies, ailment: None },
        SpellKind::Drain1 => SpellEntry { name: "Drain1", mp_cost: 4, effect: SpellEffect::MpDrain { base_drain: 8 }, target_type: SpellTarget::SingleEnemy, ailment: None },
        SpellKind::Drain2 => SpellEntry { name: "Drain2", mp_cost: 8, effect: SpellEffect::MpDrain { base_drain: 18 }, target_type: SpellTarget::SingleEnemy, ailment: None },
        SpellKind::Siphon1 => SpellEntry { name: "Siphon1", mp_cost: 6, effect: SpellEffect::MpDrain { base_drain: 5 }, target_type: SpellTarget::AllEnemies, ailment: None },
        SpellKind::Siphon2 => SpellEntry { name: "Siphon2", mp_cost: 10, effect: SpellEffect::MpDrain { base_drain: 12 }, target_type: SpellTarget::AllEnemies, ailment: None },
        SpellKind::Sleep1 => SpellEntry { name: "Sleep1", mp_cost: 4, effect: SpellEffect::Ailment { success_rate: 70 }, target_type: SpellTarget::SingleEnemy, ailment: Some(Ailment::Sleep) },
        SpellKind::Sleepall1 => SpellEntry { name: "Sleepall1", mp_cost: 8, effect: SpellEffect::Ailment { success_rate: 50 }, target_type: SpellTarget::AllEnemies, ailment: Some(Ailment::Sleep) },
        SpellKind::Poison1 => SpellEntry { name: "Poison1", mp_cost: 3, effect: SpellEffect::Ailment { success_rate: 80 }, target_type: SpellTarget::SingleEnemy, ailment: Some(Ailment::Poison) },
        SpellKind::Poisonall1 => SpellEntry { name: "Poisonall1", mp_cost: 6, effect: SpellEffect::Ailment { success_rate: 60 }, target_type: SpellTarget::AllEnemies, ailment: Some(Ailment::Poison) },
    }
}

/// All spells, in list order.
pub open spec fn all_spell_kinds_spec() -> Seq<SpellKind> {
    seq![
        SpellKind::Fire1,
        SpellKind::Fire2,
        SpellKind::Blaze1,
        SpellKind::Blaze2,
        SpellKind::Heal1,
        SpellKind::Heal2,
        SpellKind::Healall1,
        SpellKind::Healall2,
        SpellKind::Shield1,
        SpellKind::Shield2,
        SpellKind::Barrier1,
        SpellKind::Barrier2,
        SpellKind::Boost1,
        SpellKind::Boost2,
        SpellKind::Rally1,
        SpellKind::Rally2,
        SpellKind::Drain1,
        SpellKind::Drain2,
        SpellKind::Siphon1,
        SpellKind::Siphon2,
        SpellKind::Sleep1,
        SpellKind::Sleepall1,
        SpellKind::Poison1,
        SpellKind::Poisonall1,
    ]
}

/// The numbers of a spell entry are small, and ailment spells name their
/// ailment.
pub open spec fn spell_values_small(e: SpellEntry) -> bool {
    &&& 0 <= e.mp_cost <= 100
    &&& match e.effect {
        SpellEffect::Damage { base_damage } => 0 <= base_damage <= 100,
        SpellEffect::Heal { base_heal } => 0 <= base_heal <= 100,
        SpellEffect::AttackBuff { amount } => 0 <= amount <= 100,
        SpellEffect::Block { amount } => 0 <= amount <= 100,
        SpellEffect::MpDrain { base_drain } => 0 <= base_drain <= 100,
        SpellEffect::Ailment { success_rate } => 0 <= success_rate <= 100,
    }
    &&& (e.effect is Ailment <==> e.ailment is Some)
}

/// Every spell of the game has small numbers.
pub proof fn lemma_spell_data(k: SpellKind)
    ensures
        spell_values_small(spell_entry_spec(k)),
{
}

/// How much a blocking spell raises the defense of its targets in battle,
/// for the turns a buff lasts.
pub open spec fn guard_amount(k: SpellKind) -> i32 {
    match k {
        SpellKind::Shield1 => 3,
        SpellKind::Shield2 => 6,
        SpellKind::Barrier1 => 2,
        SpellKind::Barrier2 => 4,
        _ => 0,
    }
}

impl SpellKind {
    /// How much the spell raises defense in battle when it blocks.
    pub fn guard_amount(self) -> (r: i32)
        ensures
            r == guard_amount(self),
            0 <= r <= 6,
    {
        match self {
            SpellKind::Shield1 => 3,
            SpellKind::Shield2 => 6,
            SpellKind::Barrier1 => 2,
            SpellKind::Barrier2 => 4,
            _ => 0,
        }
    }

    /// The data entry of the spell.
    pub fn entry(self) -> (r: SpellEntry)
        ensures
            r == spell_entry_spec(self),
    {
        match self {
            SpellKind::Fire1 => SpellEntry { name: "Fire1", mp_cost: 3, effect: SpellEffect::Damage { base_damage: 12 }, target_type: SpellTarget::SingleEnemy, ailment: None },
            SpellKind::Fire2 => SpellEntry { name: "Fire2", mp_cost: 7, effect: SpellEffect::Damage { base_damage: 25 }, target_type: SpellTarget::SingleEnemy, ailment: None },
            SpellKind::Blaze1 => SpellEntry { name: "Blaze1", mp_cost: 5, effect: SpellEffect::Damage { base_damage: 8 }, target_type: SpellTarget::AllEnemies, ailment: None },
            SpellKind::Blaze2 => SpellEntry { name: "Blaze2", mp_cost: 10, effect: SpellEffect::Damage { base_damage: 18 }, target_type: SpellTarget::AllEnemies, ailment: None },
            SpellKind::Heal1 => SpellEntry { name: "Heal1", mp_cost: 3, effect: SpellEffect::Heal { base_heal: 15 }, target_type: SpellTarget::SingleAlly, ailment: None },
            SpellKind::Heal2 => SpellEntry { name: "Heal2", mp_cost: 7, effect: SpellEffect::Heal { base_heal: 40 }, target_type: SpellTarget::SingleAlly, ailment: None },
            SpellKind::Healall1 => SpellEntry { name: "Healall1", mp_cost: 6, effect: SpellEffect::Heal { base_heal: 10 }, target_type: SpellTarget::AllAllies, ailment: None },
            SpellKind::Healall2 => SpellEntry { name: "Healall2", mp_cost: 12, effect: SpellEffect::Heal { base_heal: 25 }, target_type: SpellTarget::AllAllies, ailment: None },
            SpellKind::Shield1 => SpellEntry { name: "Shield1", mp_cost: 3, effect: SpellEffect::Block { amount: 10 }, target_type: SpellTarget::SingleAlly, ailment: None },
            SpellKind::Shield2 => SpellEntry { name: "Shield2", mp_cost: 6, effect: SpellEffect::Block { amount: 20 }, target_type: SpellTarget::SingleAlly, ailment: None },
            SpellKind::Barrier1 => SpellEntry { name: "Barrier1", mp_cost: 6, effect: SpellEffect::Block { amount: 6 }, target_type: SpellTarget::AllAllies, ailment: None },
            SpellKind::Barrier2 => SpellEntry { name: "Barrier2", mp_cost: 10, effect: SpellEffect::Block { amount: 12 }, target_type: SpellTarget::AllAllies, ailment: None },
            SpellKind::Boost1 => SpellEntry { name: "Boost1", mp_cost: 3, effect: SpellEffect::AttackBuff { amount: 3 }, target_type: SpellTarget::SingleAlly, ailment: None },
            SpellKind::Boost2 => SpellEntry { name: "Boost2", mp_cost: 6, effect: SpellEffect::AttackBuff { amount: 6 }, target_type: SpellTarget::SingleAlly, ailment: None },
            SpellKind::Rally1 => SpellEntry { name: "Rally1", mp_cost: 6, effect: SpellEffect::AttackBuff { amount: 2 }, target_type: SpellTarget::AllAllies, ailment: None },
            SpellKind::Rally2 => SpellEntry { name: "Rally2", mp_cost: 10, effect: SpellEffect::AttackBuff { amount: 4 }, target_type: SpellTarget::AllAllies, ailment: None },
            SpellKind::Drain1 => SpellEntry { name: "Drain1", mp_cost: 4, effect: SpellEffect::MpDrain { base_drain: 8 }, target_type: SpellTarget::SingleEnemy, ailment: None },
            SpellKind::Drain2 => SpellEntry { name: "Drain2", mp_cost: 8, effect: SpellEffect::MpDrain { base_drain: 18 }, target_type: SpellTarget::SingleEnemy, ailment: None },
            SpellKind::Siphon1 => SpellEntry { name: "Siphon1", mp_cost: 6, effect: SpellEffect::MpDrain { base_drain: 5 }, target_type: SpellTarget::AllEnemies, ailment: None },
            SpellKind::Siphon2 => SpellEntry { name: "Siphon2", mp_cost: 10, effect: SpellEffect::MpDrain { base_drain: 12 }, target_type: SpellTarget::AllEnemies, ailment: None },
            SpellKind::Sleep1 => SpellEntry { name: "Sleep1", mp_cost: 4, effect: SpellEffect::Ailment { success_rate: 70 }, target_type: SpellTarget::SingleEnemy, ailment: Some(Ailment::Sleep) },
            SpellKind::Sleepall1 => SpellEntry { name: "Sleepall1", mp_cost: 8, effect: SpellEffect::Ailment { success_rate: 50 }, target_type: SpellTarget::AllEnemies, ailment: Some(Ailment::Sleep) },
            SpellKind::Poison1 => SpellEntry { name: "Poison1", mp_cost: 3, effect: SpellEffect::Ailment { success_rate: 80 }, target_type: SpellTarget::SingleEnemy, ailment: Some(Ailment::Poison) },
            SpellKind::Poisonall1 => SpellEntry { name: "Poisonall1", mp_cost: 6, effect: SpellEffect::Ailment { success_rate: 60 }, target_type: SpellTarget::AllEnemies, ailment: Some(Ailment::Poison) },
        }
    }

    /// The spell at a position of the list of all spells.
    pub fn from_index(i: usize) -> (r: SpellKind)
        requires
            i < SPELL_COUNT,
        ensures
            r == all_spell_kinds_spec()[i as int],
    {
        if i == 0 {
            SpellKind::Fire1
        } else if i == 1 {
            SpellKind::Fire2
        } else if i == 2 {
            SpellKind::Blaze1
        } else if i == 3 {
            SpellKind::Blaze2
        } else if i == 4 {
            SpellKind::Heal1
        } else if i == 5 {
            SpellKind::Heal2
        } else if i == 6 {
            SpellKind::Healall1
        } else if i == 7 {
            SpellKind::Healall2
        } else if i == 8 {
            SpellKind::Shield1
        } else if i == 9 {
            SpellKind::Shield2
        } else if i == 10 {
            SpellKind::Barrier1
        } else if i == 11 {
            SpellKind::Barrier2
        } else if i == 12 {
            SpellKind::Boost1
        } else if i == 13 {
            SpellKind::Boost2
        } else if i == 14 {
            SpellKind::Rally1
        } else if i == 15 {
            SpellKind::Rally2
        } else if i == 16 {
            SpellKind::Drain1
        } else if i == 17 {
            SpellKind::Drain2
        } else if i == 18 {
            SpellKind::Siphon1
        } else if i == 19 {
            SpellKind::Siphon2
        } else if i == 20 {
            SpellKind::Sleep1
        } else if i == 21 {
            SpellKind::Sleepall1
        } else if i == 22 {
            SpellKind::Poison1
        } else {
            SpellKind::Poisonall1
        }
    }
}

/// The data of every spell, in list order.
pub fn all_spells() -> (r: Vec<SpellEntry>)
    ensures
        r@ == all_spell_kinds_spec().map_values(|k: SpellKind| spell_entry_spec(k)),
        r@.len() == SPELL_COUNT,
{
    let mut v: Vec<SpellEntry> = Vec::new();
    let mut i: usize = 0;
    while i < SPELL_COUNT
        invariant
            i <= SPELL_COUNT,
            all_spell_kinds_spec().len() == SPELL_COUNT,
            v@ == all_spell_kinds_spec().take(i as int).map_values(|k: SpellKind| spell_entry_spec(k)),
        decreases SPELL_COUNT - i,
    {
        let k = SpellKind::from_index(i);
        v.push(k.entry());
        proof {
            assert(all_spell_kinds_spec().take(i + 1).map_values(|k: SpellKind| spell_entry_spec(k))
                =~= all_spell_kinds_spec().take(i as int).map_values(|k: SpellKind| spell_entry_spec(k)).push(spell_entry_spec(k)));
        }
        i = i + 1;
    }
    proof {
        assert(all_spell_kinds_spec().take(SPELL_COUNT as int) =~= all_spell_kinds_spec());
    }
    v
}

/// The spells of a learn table whose required level passes `keep`, in
/// table order.
pub open spec fn pick_spells<T>(t: Seq<(u32, T)>, keep: spec_fn(u32) -> bool) -> Seq<T>
    decreases t.len(),
{
    if t.len() == 0 {
        Seq::empty()
    } else {
        let rest = pick_spells(t.drop_last(), keep);
        if keep(t.last().0) {
            rest.push(t.last().1)
        } else {
            rest
        }
    }
}

/// A spell learned by one level stays learned at every higher level.
pub proof fn lemma_learned_grows<T>(t: Seq<(u32, T)>, low: u32, high: u32, x: T)
    requires
        low <= high,
        pick_spells(t, learned_by(low)).contains(x),
    ensures
        pick_spells(t, learned_by(high)).contains(x),
    decreases t.len(),
{
    if t.len() > 0 {
        let a = pick_spells(t.drop_last(), learned_by(low));
        let b = pick_spells(t.drop_last(), learned_by(high));
        if a.contains(x) {
            lemma_learned_grows(t.drop_last(), low, high, x);
            let k = choose|k: int| 0 <= k < b.len() && b[k] == x;
            if learned_by(high)(t.last().0) {
                assert(b.push(t.last().1)[k] == x);
            }
        } else {
            assert(learned_by(low)(t.last().0));
            assert(x == t.last().1);
            assert(b.push(t.last().1)[b.len() as int] == x);
        }
    }
}

/// The required levels of a learn table never fall along it.
pub open spec fn levels_sorted<T>(t: Seq<(u32, T)>) -> bool
    decreases t.len(),
{
    if t.len() <= 1 {
        true
    } else {
        levels_sorted(t.drop_last()) && t[t.len() - 2].0 <= t.last().0
    }
}

/// Every required level of a learn table is at least one.
pub open spec fn levels_positive<T>(t: Seq<(u32, T)>) -> bool
    decreases t.len(),
{
    if t.len() == 0 {
        true
    } else {
        levels_positive(t.drop_last()) && t.last().0 >= 1
    }
}

/// No entry of a learn table teaches `x`.
pub open spec fn teaches_not<T>(t: Seq<(u32, T)>, x: T) -> bool
    decreases t.len(),
{
    if t.len() == 0 {
        true
    } else {
        teaches_not(t.drop_last(), x) && t.last().1 != x
    }
}

/// No spell appears twice in a learn table.
pub open spec fn spells_distinct<T>(t: Seq<(u32, T)>) -> bool
    decreases t.len(),
{
    if t.len() == 0 {
        true
    } else {
        spells_distinct(t.drop_last()) && teaches_not(t.drop_last(), t.last().1)
    }
}

/// A sorted table's levels do not fall between any two entries.
pub proof fn lemma_levels_sorted<T>(t: Seq<(u32, T)>)
    requires
        levels_sorted(t),
    ensures
        forall|i: int, j: int| 0 <= i <= j < t.len() ==> #[trigger] t[i].0 <= #[trigger] t[j].0,
    decreases t.len(),
{
    if t.len() > 1 {
        lemma_levels_sorted(t.drop_last());
        assert forall|i: int, j: int| 0 <= i <= j < t.len() implies #[trigger] t[i].0 <= #[trigger] t[j].0 by {
            if j < t.len() - 1 {
                assert(t.drop_last()[i] == t[i] && t.drop_last()[j] == t[j]);
            } else if i < t.len() - 1 {
                assert(t.drop_last()[i] == t[i] && t.drop_last()[t.len() - 2] == t[t.len() - 2]);
            }
        }
    }
}

/// Nothing is learned exactly at a level above every level of the table.
proof fn lemma_none_at<T>(t: Seq<(u32, T)>, level: u32)
    requires
        forall|i: int| 0 <= i < t.len() ==> #[trigger] t[i].0 < level,
    ensures
        pick_spells(t, learned_at(level)) == Seq::<T>::empty(),
    decreases t.len(),
{
    if t.len() > 0 {
        assert forall|i: int| 0 <= i < t.drop_last().len() implies #[trigger] t.drop_last()[i].0 < level by {
            assert(t.drop_last()[i] == t[i]);
        }
        lemma_none_at(t.drop_last(), level);
        assert(t[t.len() - 1].0 < level);
    }
}

/// In a sorted table, the spells known at a level are those known one
/// level below, followed by those learned exactly at it.
pub proof fn lemma_known_by_step<T>(t: Seq<(u32, T)>, level: u32)
    requires
        levels_sorted(t),
        level >= 1,
    ensures
        pick_spells(t, learned_by(level)) == pick_spells(t, learned_by((level - 1) as u32)) + pick_spells(t, learned_at(level)),
    decreases t.len(),
{
    if t.len() > 0 {
        let u = t.drop_last();
        assert(levels_sorted(u)) by {
            if t.len() > 1 {
            }
        }
        lemma_known_by_step(u, level);
        lemma_levels_sorted(t);
        let l = t.last().0;
        let a = pick_spells(u, learned_by((level - 1) as u32));
        let b = pick_spells(u, learned_at(level));
        if l < level {
            assert forall|i: int| 0 <= i < u.len() implies #[trigger] u[i].0 < level by {
                assert(u[i] == t[i]);
                assert(t[i].0 <= t[t.len() - 1].0);
            }
            lemma_none_at(u, level);
            assert(b == Seq::<T>::empty());
            assert((a + b).push(t.last().1) =~= a.push(t.last().1) + Seq::<T>::empty());
        } else if l == level {
            assert((a + b).push(t.last().1) =~= a + b.push(t.last().1));
        }
    }
}

/// Required levels met at `level`.
pub open spec fn learned_by(level: u32) -> spec_fn(u32) -> bool {
    |req: u32| req <= level
}

/// Required levels equal to `level`.
pub open spec fn learned_at(level: u32) -> spec_fn(u32) -> bool {
    |req: u32| req == level
}

/// The spells of a learn table learned by `level` (or exactly at it).
pub fn select_learned<T: Copy>(t: &[(u32, T)], level: u32, exactly: bool) -> (r: Vec<T>)
    ensures
        r@ == pick_spells(t@, if exactly { learned_at(level) } else { learned_by(level) }),
{
    let ghost keep = if exactly { learned_at(level) } else { learned_by(level) };
    let mut out: Vec<T> = Vec::new();
    let mut i: usize = 0;
    while i < t.len()
        invariant
            i <= t@.len(),
            keep == (if exactly { learned_at(level) } else { learned_by(level) }),
            out@ == pick_spells(t@.take(i as int), keep),
        decreases t@.len() - i,
    {
        let (req, spell) = t[i];
        proof {
            assert(t@.take(i + 1).drop_last() =~= t@.take(i as int));
            assert(t@.take(i + 1).last() == t@[i as int]);
        }
        let hit = if exactly { req == level } else { req <= level };
        if hit {
            out.push(spell);
        }
        i = i + 1;
    }
    proof { assert(t@.take(t@.len() as int) =~= t@); }
    out
}

/// The data entries of a list of spells.
pub fn entries_of(spells: &Vec<SpellKind>) -> (r: Vec<SpellEntry>)
    ensures
        r@ == spells@.map_values(|k: SpellKind| spell_entry_spec(k)),
{
    let mut out: Vec<SpellEntry> = Vec::new();
    let mut i: usize = 0;
    while i < spells.len()
        invariant
            i <= spells@.len(),
            out@ == spells@.take(i as int).map_values(|k: SpellKind| spell_entry_spec(k)),
        decreases spells@.len() - i,
    {
        out.push(spells[i].entry());
        proof {
            assert(spells@.take(i + 1).map_values(|k: SpellKind| spell_entry_spec(k))
                =~= spells@.take(i as int).map_values(|k: SpellKind| spell_entry_spec(k)).push(spell_entry_spec(spells@[i as int])));
        }
        i = i + 1;
    }
    proof { assert(spells@.take(spells@.len() as int) =~= spells@); }
    out
}

/// Spell damage: `(base_damage - defense / defense_divisor) * random`,
/// rounded, at least one.
pub open spec fn spell_damage_spec(base_damage: int, defense: int, defense_divisor: int, random: int) -> i32 {
    at_least_one(saturate_i32(round_half_away(
        (base_damage * defense_divisor - defense) * random,
        defense_divisor * RANDOM_SCALE,
    )))
}

/// Spell damage: `(base_damage - defense / defense_divisor) * random`,
/// rounded, at least one. The random factor is in thousandths.
pub fn spell_damage(base_damage: i32, defense: i32, defense_divisor: i32, random_factor: u32) -> (r: i32)
    requires
        defense_divisor > 0,
    ensures
        r == spell_damage_spec(base_damage as int, defense as int, defense_divisor as int, random_factor as int),
        r >= 1,
{
    let b: i128 = base_damage as i128;
    let dv: i128 = defense_divisor as i128;
    let df: i128 = defense as i128;
    let rf: i128 = random_factor as i128;
    assert(-0x1_0000_0000_0000_0000 <= b * dv <= 0x1_0000_0000_0000_0000) by (nonlinear_arith)
        requires
            i32::MIN <= b <= i32::MAX,
            0 < dv <= i32::MAX,
    ;
    let base: i128 = b * dv - df;
    assert(-0x10_0000_0000_0000_0000_0000_0000 <= base * rf <= 0x10_0000_0000_0000_0000_0000_0000) by (nonlinear_arith)
        requires
            -0x2_0000_0000_0000_0000 <= base <= 0x2_0000_0000_0000_0000,
            0 <= rf <= u32::MAX,
    ;
    assert(0 < dv * 1000 <= 0x1_0000_0000_0000_0000) by (nonlinear_arith)
        requires
            0 < dv <= i32::MAX,
    ;
    let rounded = round_ratio(base * rf, dv * (RANDOM_SCALE as i128));
    let v = saturating_i32(rounded);
    if v < 1 {
        1
    } else {
        v
    }
}

/// Healing: `base_heal * random`, rounded, at least one.
pub fn heal_amount(base_heal: i32, random_factor: u32) -> (r: i32)
    ensures
        r == scaled_amount(base_heal as int, random_factor as int),
        r >= 1,
{
    scale_by_random(base_heal, random_factor)
}

/// MP drained: `base_drain * random`, rounded, at least one.
pub fn mp_drain_amount(base_drain: i32, random_factor: u32) -> (r: i32)
    ensures
        r == scaled_amount(base_drain as int, random_factor as int),
        r >= 1,
{
    scale_by_random(base_drain, random_factor)
}

/// An ailment lands when `random * 100 < success_rate`, the random
/// factor being in thousandths.
pub open spec fn ailment_lands(success_rate: int, random: int) -> bool {
    random * 100 < success_rate * RANDOM_SCALE
}

/// Whether an ailment lands.
pub fn ailment_success(success_rate: i32, random_factor: u32) -> (r: bool)
    ensures
        r == ailment_lands(success_rate as int, random_factor as int),
{
    (random_factor as i64) * 100 < (success_rate as i64) * 1000
}

} // verus!
