//! The smaller spell book of the battle engine's first edition: sixteen
//! spells, each with a single power value.
use vstd::prelude::*;
use crate::party::PartyMemberKind;
pub use crate::spell::SpellTarget;
use crate::spell::{
    heal_amount, learned_at, learned_by, lemma_known_by_step, levels_positive, levels_sorted, pick_spells, select_learned,
    spell_damage, spell_damage_spec, spells_distinct, teaches_not,
};
use crate::formula::scaled_amount;

verus! {

/// Spells of this edition.
#[derive(Debug, Clone, Copy, PartialEq, Eq)]
pub enum SpellKind {
    Fire1,
    Fire2,
    Blaze1,
    Blaze2,
    Heal1,
    Heal2,
    Healall1,
    Healall2,
    Shield1,
    Shield2,
    Barrier1,
    Barrier2,
    Boost1,
    Boost2,
    Rally1,
    Rally2,
}

/// What a spell of this edition does.
#[derive(Debug, Clone, Copy, PartialEq, Eq)]
pub enum SpellEffect {
    Damage,
    Heal,
    AttackBuff,
    DefenseBuff,
}

pub open spec fn mp_cost_spec(k: SpellKind) -> i32 {
    match k {
        SpellKind::Fire1 => 3,
        SpellKind::Fire2 => 7,
        SpellKind::Blaze1 => 5,
        SpellKind::Blaze2 => 10,
        SpellKind::Heal1 => 3,
        SpellKind::Heal2 => 7,
        SpellKind::Healall1 => 6,
        SpellKind::Healall2 => 12,
        SpellKind::Shield1 => 3,
        SpellKind::Shield2 => 6,
        SpellKind::Barrier1 => 6,
        SpellKind::Barrier2 => 10,
        SpellKind::Boost1 => 3,
        SpellKind::Boost2 => 6,
        SpellKind::Rally1 => 6,
        SpellKind::Rally2 => 10,
    }
}

pub open spec fn power_spec(k: SpellKind) -> i32 {
    match k {
        SpellKind::Fire1 => 12,
        SpellKind::Fire2 => 25,
        SpellKind::Blaze1 => 8,
        SpellKind::Blaze2 => 18,
        SpellKind::Heal1 => 15,
        SpellKind::Heal2 => 40,
        SpellKind::Healall1 => 10,
        SpellKind::Healall2 => 25,
        SpellKind::Shield1 => 3,
        SpellKind::Shield2 => 6,
        SpellKind::Barrier1 => 2,
        SpellKind::Barrier2 => 4,
        SpellKind::Boost1 => 3,
        SpellKind::Boost2 => 6,
        SpellKind::Rally1 => 2,
        SpellKind::Rally2 => 4,
    }
}

pub open spec fn target_spec(k: SpellKind) -> SpellTarget {
    match k {
        SpellKind::Fire1 => SpellTarget::SingleEnemy,
        SpellKind::Fire2 => SpellTarget::SingleEnemy,
        SpellKind::Blaze1 => SpellTarget::AllEnemies,
        SpellKind::Blaze2 => SpellTarget::AllEnemies,
        SpellKind::Heal1 => SpellTarget::SingleAlly,
        SpellKind::Heal2 => SpellTarget::SingleAlly,
        SpellKind::Healall1 => SpellTarget::AllAllies,
        SpellKind::Healall2 => SpellTarget::AllAllies,
        SpellKind::Shield1 => SpellTarget::SingleAlly,
        SpellKind::Shield2 => SpellTarget::SingleAlly,
        SpellKind::Barrier1 => SpellTarget::AllAllies,
        SpellKind::Barrier2 => SpellTarget::AllAllies,
        SpellKind::Boost1 => SpellTarget::SingleAlly,
        SpellKind::Boost2 => SpellTarget::SingleAlly,
        SpellKind::Rally1 => SpellTarget::AllAllies,
        SpellKind::Rally2 => SpellTarget::AllAllies,
    }
}

pub open spec fn effect_spec(k: SpellKind) -> SpellEffect {
    match k {
        SpellKind::Fire1 => SpellEffect::Damage,
        SpellKind::Fire2 => SpellEffect::Damage,
        SpellKind::Blaze1 => SpellEffect::Damage,
        SpellKind::Blaze2 => SpellEffect::Damage,
        SpellKind::Heal1 => SpellEffect::Heal,
        SpellKind::Heal2 => SpellEffect::Heal,
        SpellKind::Healall1 => SpellEffect::Heal,
        SpellKind::Healall2 => SpellEffect::Heal,
        SpellKind::Shield1 => SpellEffect::DefenseBuff,
        SpellKind::Shield2 => SpellEffect::DefenseBuff,
        SpellKind::Barrier1 => SpellEffect::DefenseBuff,
        SpellKind::Barrier2 => SpellEffect::DefenseBuff,
        SpellKind::Boost1 => SpellEffect::AttackBuff,
        SpellKind::Boost2 => SpellEffect::AttackBuff,
        SpellKind::Rally1 => SpellEffect::AttackBuff,
        SpellKind::Rally2 => SpellEffect::AttackBuff,
    }
}

/// All spells of this edition, in list order.
pub open spec fn all_spells_spec() -> Seq<SpellKind> {
    seq![SpellKind::Fire1, SpellKind::Fire2, SpellKind::Blaze1, SpellKind::Blaze2, SpellKind::Heal1, SpellKind::Heal2, SpellKind::Healall1, SpellKind::Healall2, SpellKind::Shield1, SpellKind::Shield2, SpellKind::Barrier1, SpellKind::Barrier2, SpellKind::Boost1, SpellKind::Boost2, SpellKind::Rally1, SpellKind::Rally2] 
}

impl SpellKind {
    pub fn name(self) -> (r: &'static str)
        ensures
            r == spell_name_spec(self),
    {
        match self {
            SpellKind::Fire1 => "Fire1",
            SpellKind::Fire2 => "Fire2",
            SpellKind::Blaze1 => "Blaze1",
            SpellKind::Blaze2 => "Blaze2",
            SpellKind::Heal1 => "Heal1",
            SpellKind::Heal2 => "Heal2",
            SpellKind::Healall1 => "Healall1",
            SpellKind::Healall2 => "Healall2",
            SpellKind::Shield1 => "Shield1",
            SpellKind::Shield2 => "Shield2",
            SpellKind::Barrier1 => "Barrier1",
            SpellKind::Barrier2 => "Barrier2",
            SpellKind::Boost1 => "Boost1",
            SpellKind::Boost2 => "Boost2",
            SpellKind::Rally1 => "Rally1",
            SpellKind::Rally2 => "Rally2",
        }
    }

    pub fn mp_cost(self) -> (r: i32)
        ensures
            r == mp_cost_spec(self),
    {
        match self {
            SpellKind::Fire1 => 3,
            SpellKind::Fire2 => 7,
            SpellKind::Blaze1 => 5,
            SpellKind::Blaze2 => 10,
            SpellKind::Heal1 => 3,
            SpellKind::Heal2 => 7,
            SpellKind::Healall1 => 6,
            SpellKind::Healall2 => 12,
            SpellKind::Shield1 => 3,
            SpellKind::Shield2 => 6,
            SpellKind::Barrier1 => 6,
            SpellKind::Barrier2 => 10,
            SpellKind::Boost1 => 3,
            SpellKind::Boost2 => 6,
            SpellKind::Rally1 => 6,
            SpellKind::Rally2 => 10,
        }
    }

    pub fn power(self) -> (r: i32)
        ensures
            r == power_spec(self),
    {
        match self {
            SpellKind::Fire1 => 12,
            SpellKind::Fire2 => 25,
            SpellKind::Blaze1 => 8,
            SpellKind::Blaze2 => 18,
            SpellKind::Heal1 => 15,
            SpellKind::Heal2 => 40,
            SpellKind::Healall1 => 10,
            SpellKind::Healall2 => 25,
            SpellKind::Shield1 => 3,
            SpellKind::Shield2 => 6,
            SpellKind::Barrier1 => 2,
            SpellKind::Barrier2 => 4,
            SpellKind::Boost1 => 3,
            SpellKind::Boost2 => 6,
            SpellKind::Rally1 => 2,
            SpellKind::Rally2 => 4,
        }
    }

    pub fn target_type(self) -> (r: SpellTarget)
        ensures
            r == target_spec(self),
    {
        match self {
            SpellKind::Fire1 => SpellTarget::SingleEnemy,
            SpellKind::Fire2 => SpellTarget::SingleEnemy,
            SpellKind::Blaze1 => SpellTarget::AllEnemies,
            SpellKind::Blaze2 => SpellTarget::AllEnemies,
            SpellKind::Heal1 => SpellTarget::SingleAlly,
            SpellKind::Heal2 => SpellTarget::SingleAlly,
            SpellKind::Healall1 => SpellTarget::AllAllies,
            SpellKind::Healall2 => SpellTarget::AllAllies,
            SpellKind::Shield1 => SpellTarget::SingleAlly,
            SpellKind::Shield2 => SpellTarget::SingleAlly,
            SpellKind::Barrier1 => SpellTarget::AllAllies,
            SpellKind::Barrier2 => SpellTarget::AllAllies,
            SpellKind::Boost1 => SpellTarget::SingleAlly,
            SpellKind::Boost2 => SpellTarget::SingleAlly,
            SpellKind::Rally1 => SpellTarget::AllAllies,
            SpellKind::Rally2 => SpellTarget::AllAllies,
        }
    }

    pub fn effect(self) -> (r: SpellEffect)
        ensures
            r == effect_spec(self),
    {
        match self {
            SpellKind::Fire1 => SpellEffect::Damage,
            SpellKind::Fire2 => SpellEffect::Damage,
            SpellKind::Blaze1 => SpellEffect::Damage,
            SpellKind::Blaze2 => SpellEffect::Damage,
            SpellKind::Heal1 => SpellEffect::Heal,
            SpellKind::Heal2 => SpellEffect::Heal,
            SpellKind::Healall1 => SpellEffect::Heal,
            SpellKind::Healall2 => SpellEffect::Heal,
            SpellKind::Shield1 => SpellEffect::DefenseBuff,
            SpellKind::Shield2 => SpellEffect::DefenseBuff,
            SpellKind::Barrier1 => SpellEffect::DefenseBuff,
            SpellKind::Barrier2 => SpellEffect::DefenseBuff,
            SpellKind::Boost1 => SpellEffect::AttackBuff,
            SpellKind::Boost2 => SpellEffect::AttackBuff,
            SpellKind::Rally1 => SpellEffect::AttackBuff,
            SpellKind::Rally2 => SpellEffect::AttackBuff,
        }
    }

    /// Offensive spells are aimed at the caster's enemies.
    pub fn is_offensive(self) -> (r: bool)
        ensures
            r == (target_spec(self) is SingleEnemy || target_spec(self) is AllEnemies),
    {
        match self.target_type() {
            SpellTarget::SingleEnemy | SpellTarget::AllEnemies => true,
            _ => false,
        }
    }

    /// Only healing spells can be cast outside battle.
    pub fn is_usable_in_field(self) -> (r: bool)
        ensures
            r == (effect_spec(self) is Heal),
    {
        match self.effect() {
            SpellEffect::Heal => true,
            _ => false,
        }
    }
}

/// The name of a spell of this edition.
pub open spec fn spell_name_spec(k: SpellKind) -> &'static str {
    match k {
        SpellKind::Fire1 => "Fire1",
        SpellKind::Fire2 => "Fire2",
        SpellKind::Blaze1 => "Blaze1",
        SpellKind::Blaze2 => "Blaze2",
        SpellKind::Heal1 => "Heal1",
        SpellKind::Heal2 => "Heal2",
        SpellKind::Healall1 => "Healall1",
        SpellKind::Healall2 => "Healall2",
        SpellKind::Shield1 => "Shield1",
        SpellKind::Shield2 => "Shield2",
        SpellKind::Barrier1 => "Barrier1",
        SpellKind::Barrier2 => "Barrier2",
        SpellKind::Boost1 => "Boost1",
        SpellKind::Boost2 => "Boost2",
        SpellKind::Rally1 => "Rally1",
        SpellKind::Rally2 => "Rally2",
    }
}

/// Spell damage with a defense divisor of four; the random factor is in
/// thousandths.
pub fn calculate_spell_damage(power: i32, defense: i32, random_factor: u32) -> (r: i32)
    ensures
        r == spell_damage_spec(power as int, defense as int, 4, random_factor as int),
        r >= 1,
{
    spell_damage(power, defense, 4, random_factor)
}

/// Healing: power scaled by the random factor, at least one.
pub fn calculate_heal_amount(power: i32, random_factor: u32) -> (r: i32)
    ensures
        r == scaled_amount(power as int, random_factor as int),
        r >= 1,
{
    heal_amount(power, random_factor)
}

/// All spells of this edition, in list order.
pub fn all_spells() -> (r: Vec<SpellKind>)
    ensures
        r@ == all_spells_spec(),
{
    let v = vec![SpellKind::Fire1, SpellKind::Fire2, SpellKind::Blaze1, SpellKind::Blaze2, SpellKind::Heal1, SpellKind::Heal2, SpellKind::Healall1, SpellKind::Healall2, SpellKind::Shield1, SpellKind::Shield2, SpellKind::Barrier1, SpellKind::Barrier2, SpellKind::Boost1, SpellKind::Boost2, SpellKind::Rally1, SpellKind::Rally2];
    assert(v@ =~= all_spells_spec());
    v
}

/// The spells each character learns, with the level each needs.
pub open spec fn learn_table_spec(kind: PartyMemberKind) -> Seq<(u32, SpellKind)> {
    match kind {
        PartyMemberKind::Marcille => seq![(1u32, SpellKind::Fire1), (3u32, SpellKind::Blaze1), (5u32, SpellKind::Fire2), (7u32, SpellKind::Blaze2)],
        PartyMemberKind::Falin => seq![(1u32, SpellKind::Heal1), (3u32, SpellKind::Healall1), (5u32, SpellKind::Heal2), (7u32, SpellKind::Shield2), (9u32, SpellKind::Healall2), (10u32, SpellKind::Barrier2)],
        PartyMemberKind::Rinsha => seq![(1u32, SpellKind::Fire1), (3u32, SpellKind::Heal1), (5u32, SpellKind::Boost1), (7u32, SpellKind::Boost2), (9u32, SpellKind::Rally2)],
        PartyMemberKind::Kabru => seq![(3u32, SpellKind::Heal1), (5u32, SpellKind::Shield1), (7u32, SpellKind::Barrier1), (9u32, SpellKind::Rally1)],
        PartyMemberKind::Laios => seq![(1u32, SpellKind::Heal1), (1u32, SpellKind::Boost1), (1u32, SpellKind::Fire1), (1u32, SpellKind::Fire2), (1u32, SpellKind::Blaze1), (1u32, SpellKind::Blaze2), (1u32, SpellKind::Heal2), (1u32, SpellKind::Healall1), (1u32, SpellKind::Healall2), (1u32, SpellKind::Shield1), (1u32, SpellKind::Shield2), (1u32, SpellKind::Barrier1), (1u32, SpellKind::Barrier2), (1u32, SpellKind::Boost2), (1u32, SpellKind::Rally1), (1u32, SpellKind::Rally2)],
        PartyMemberKind::Izutsumi => seq![(5u32, SpellKind::Fire1), (8u32, SpellKind::Boost1)],
        PartyMemberKind::Senshi => seq![(4u32, SpellKind::Shield1)],
        _ => Seq::empty(),
    }
}

/// The spells a character learns, with the level each needs.
pub fn spell_learn_table(kind: PartyMemberKind) -> (r: Vec<(u32, SpellKind)>)
    ensures
        r@ == learn_table_spec(kind),
{
    let v: Vec<(u32, SpellKind)> = match kind {
        PartyMemberKind::Marcille => vec![(1, SpellKind::Fire1), (3, SpellKind::Blaze1), (5, SpellKind::Fire2), (7, SpellKind::Blaze2)],
        PartyMemberKind::Falin => vec![(1, SpellKind::Heal1), (3, SpellKind::Healall1), (5, SpellKind::Heal2), (7, SpellKind::Shield2), (9, SpellKind::Healall2), (10, SpellKind::Barrier2)],
        PartyMemberKind::Rinsha => vec![(1, SpellKind::Fire1), (3, SpellKind::Heal1), (5, SpellKind::Boost1), (7, SpellKind::Boost2), (9, SpellKind::Rally2)],
        PartyMemberKind::Kabru => vec![(3, SpellKind::Heal1), (5, SpellKind::Shield1), (7, SpellKind::Barrier1), (9, SpellKind::Rally1)],
        PartyMemberKind::Laios => vec![(1, SpellKind::Heal1), (1, SpellKind::Boost1), (1, SpellKind::Fire1), (1, SpellKind::Fire2), (1, SpellKind::Blaze1), (1, SpellKind::Blaze2), (1, SpellKind::Heal2), (1, SpellKind::Healall1), (1, SpellKind::Healall2), (1, SpellKind::Shield1), (1, SpellKind::Shield2), (1, SpellKind::Barrier1), (1, SpellKind::Barrier2), (1, SpellKind::Boost2), (1, SpellKind::Rally1), (1, SpellKind::Rally2)],
        PartyMemberKind::Izutsumi => vec![(5, SpellKind::Fire1), (8, SpellKind::Boost1)],
        PartyMemberKind::Senshi => vec![(4, SpellKind::Shield1)],
        PartyMemberKind::Chilchuck | PartyMemberKind::Shuro | PartyMemberKind::Namari => Vec::new(),
    };
    assert(v@ =~= learn_table_spec(kind));
    v
}

/// The spells a character knows at a level, in table order.
pub fn available_spells(kind: PartyMemberKind, level: u32) -> (r: Vec<SpellKind>)
    ensures
        r@ == pick_spells(learn_table_spec(kind), learned_by(level)),
{
    let t = spell_learn_table(kind);
    select_learned(t.as_slice(), level, false)
}

/// The spells a character learns on reaching exactly this level.
pub fn spells_learned_at_level(kind: PartyMemberKind, level: u32) -> (r: Vec<SpellKind>)
    ensures
        r@ == pick_spells(learn_table_spec(kind), learned_at(level)),
{
    let t = spell_learn_table(kind);
    select_learned(t.as_slice(), level, true)
}


/// Every learn table is sorted by required level, asks for level one or
/// more, and teaches each spell once; Chilchuck, Shuro and Namari learn
/// nothing, and Laios knows all sixteen spells from level one.
pub proof fn lemma_learn_tables(kind: PartyMemberKind)
    ensures
        levels_sorted(learn_table_spec(kind)),
        levels_positive(learn_table_spec(kind)),
        spells_distinct(learn_table_spec(kind)),
        kind is Chilchuck || kind is Shuro || kind is Namari ==> learn_table_spec(kind).len() == 0,
        learn_table_spec(PartyMemberKind::Laios).len() == 16,
        forall|i: int| 0 <= i < 16 ==> (#[trigger] learn_table_spec(PartyMemberKind::Laios)[i]).0 == 1,
{
    reveal_with_fuel(levels_sorted, 25);
    reveal_with_fuel(levels_positive, 25);
    reveal_with_fuel(spells_distinct, 25);
    reveal_with_fuel(teaches_not, 25);
    assert(levels_sorted(Seq::<(u32, SpellKind)>::empty()));
    assert(learn_table_spec(PartyMemberKind::Laios).len() == 16);
}

/// The spells known at a level are those known one level below, followed
/// by those learned on reaching it.
pub proof fn lemma_learn_known_by_step(kind: PartyMemberKind, level: u32)
    requires
        level >= 1,
    ensures
        pick_spells(learn_table_spec(kind), learned_by(level))
            == pick_spells(learn_table_spec(kind), learned_by((level - 1) as u32))
                + pick_spells(learn_table_spec(kind), learned_at(level)),
{
    lemma_learn_tables(kind);
    lemma_known_by_step(learn_table_spec(kind), level);
}

} // verus!
