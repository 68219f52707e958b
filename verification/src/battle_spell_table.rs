//! The battle engine's learn table, with the drain spells.
use vstd::prelude::*;
use crate::party::PartyMemberKind;
use crate::spell::{
    learned_at, learned_by, lemma_known_by_step, levels_positive, levels_sorted, pick_spells, select_learned, spells_distinct,
    teaches_not, SpellKind,
};

verus! {

/// The spells each character learns, with the level each needs.
pub open spec fn battle_learn_table_spec(kind: PartyMemberKind) -> Seq<(u32, SpellKind)> {
    match kind {
        PartyMemberKind::Marcille => seq![(1u32, SpellKind::Fire1), (3u32, SpellKind::Blaze1), (5u32, SpellKind::Fire2), (7u32, SpellKind::Blaze2), (9u32, SpellKind::Drain1)],
        PartyMemberKind::Falin => seq![(1u32, SpellKind::Heal1), (3u32, SpellKind::Healall1), (5u32, SpellKind::Heal2), (7u32, SpellKind::Shield2), (9u32, SpellKind::Healall2), (10u32, SpellKind::Barrier2)],
        PartyMemberKind::Rinsha => seq![(1u32, SpellKind::Fire1), (3u32, SpellKind::Heal1), (5u32, SpellKind::Boost1), (6u32, SpellKind::Drain1), (7u32, SpellKind::Boost2), (9u32, SpellKind::Rally2)],
        PartyMemberKind::Kabru => seq![(3u32, SpellKind::Heal1), (5u32, SpellKind::Shield1), (6u32, SpellKind::Siphon1), (7u32, SpellKind::Barrier1), (9u32, SpellKind::Rally1)],
        PartyMemberKind::Laios => seq![(1u32, SpellKind::Heal1), (1u32, SpellKind::Boost1), (1u32, SpellKind::Fire1), (1u32, SpellKind::Fire2), (1u32, SpellKind::Blaze1), (1u32, SpellKind::Blaze2), (1u32, SpellKind::Heal2), (1u32, SpellKind::Healall1), (1u32, SpellKind::Healall2), (1u32, SpellKind::Shield1), (1u32, SpellKind::Shield2), (1u32, SpellKind::Barrier1), (1u32, SpellKind::Barrier2), (1u32, SpellKind::Boost2), (1u32, SpellKind::Rally1), (1u32, SpellKind::Rally2), (1u32, SpellKind::Drain1), (1u32, SpellKind::Drain2), (1u32, SpellKind::Siphon1), (1u32, SpellKind::Siphon2)],
        PartyMemberKind::Izutsumi => seq![(5u32, SpellKind::Fire1), (8u32, SpellKind::Boost1)],
        PartyMemberKind::Senshi => seq![(4u32, SpellKind::Shield1)],
        _ => Seq::empty(),
    }
}

/// The spells a character learns, with the level each needs.
pub fn spell_learn_table(kind: PartyMemberKind) -> (r: Vec<(u32, SpellKind)>)
    ensures
        r@ == battle_learn_table_spec(kind),
{
    let v: Vec<(u32, SpellKind)> = match kind {
        PartyMemberKind::Marcille => vec![(1, SpellKind::Fire1), (3, SpellKind::Blaze1), (5, SpellKind::Fire2), (7, SpellKind::Blaze2), (9, SpellKind::Drain1)],
        PartyMemberKind::Falin => vec![(1, SpellKind::Heal1), (3, SpellKind::Healall1), (5, SpellKind::Heal2), (7, SpellKind::Shield2), (9, SpellKind::Healall2), (10, SpellKind::Barrier2)],
        PartyMemberKind::Rinsha => vec![(1, SpellKind::Fire1), (3, SpellKind::Heal1), (5, SpellKind::Boost1), (6, SpellKind::Drain1), (7, SpellKind::Boost2), (9, SpellKind::Rally2)],
        PartyMemberKind::Kabru => vec![(3, SpellKind::Heal1), (5, SpellKind::Shield1), (6, SpellKind::Siphon1), (7, SpellKind::Barrier1), (9, SpellKind::Rally1)],
        PartyMemberKind::Laios => vec![(1, SpellKind::Heal1), (1, SpellKind::Boost1), (1, SpellKind::Fire1), (1, SpellKind::Fire2), (1, SpellKind::Blaze1), (1, SpellKind::Blaze2), (1, SpellKind::Heal2), (1, SpellKind::Healall1), (1, SpellKind::Healall2), (1, SpellKind::Shield1), (1, SpellKind::Shield2), (1, SpellKind::Barrier1), (1, SpellKind::Barrier2), (1, SpellKind::Boost2), (1, SpellKind::Rally1), (1, SpellKind::Rally2), (1, SpellKind::Drain1), (1, SpellKind::Drain2), (1, SpellKind::Siphon1), (1, SpellKind::Siphon2)],
        PartyMemberKind::Izutsumi => vec![(5, SpellKind::Fire1), (8, SpellKind::Boost1)],
        PartyMemberKind::Senshi => vec![(4, SpellKind::Shield1)],
        PartyMemberKind::Chilchuck | PartyMemberKind::Shuro | PartyMemberKind::Namari => Vec::new(),
    };
    assert(v@ =~= battle_learn_table_spec(kind));
    v
}

/// The spells a character knows at a level, in table order.
pub fn available_spells(kind: PartyMemberKind, level: u32) -> (r: Vec<SpellKind>)
    ensures
        r@ == pick_spells(battle_learn_table_spec(kind), learned_by(level)),
{
    let t = spell_learn_table(kind);
    select_learned(t.as_slice(), level, false)
}

/// The spells a character learns on reaching exactly this level.
pub fn spells_learned_at_level(kind: PartyMemberKind, level: u32) -> (r: Vec<SpellKind>)
    ensures
        r@ == pick_spells(battle_learn_table_spec(kind), learned_at(level)),
{
    let t = spell_learn_table(kind);
    select_learned(t.as_slice(), level, true)
}


/// Every learn table is sorted by required level, asks for level one or
/// more, and teaches each spell once; Chilchuck, Shuro and Namari learn
/// nothing, and Laios knows all twenty spells from level one.
pub proof fn lemma_battle_learn_tables(kind: PartyMemberKind)
    ensures
        levels_sorted(battle_learn_table_spec(kind)),
        levels_positive(battle_learn_table_spec(kind)),
        spells_distinct(battle_learn_table_spec(kind)),
        kind is Chilchuck || kind is Shuro || kind is Namari ==> battle_learn_table_spec(kind).len() == 0,
        battle_learn_table_spec(PartyMemberKind::Laios).len() == 20,
        forall|i: int| 0 <= i < 20 ==> (#[trigger] battle_learn_table_spec(PartyMemberKind::Laios)[i]).0 == 1,
{
    reveal_with_fuel(levels_sorted, 21);
    reveal_with_fuel(levels_positive, 21);
    reveal_with_fuel(spells_distinct, 21);
    reveal_with_fuel(teaches_not, 21);
    assert(levels_sorted(Seq::<(u32, SpellKind)>::empty()));
    assert(levels_positive(Seq::<(u32, SpellKind)>::empty()));
    assert(spells_distinct(Seq::<(u32, SpellKind)>::empty()));
    assert(battle_learn_table_spec(PartyMemberKind::Laios).len() == 20);
}

/// The spells known at a level are those known one level below, followed
/// by those learned on reaching it.
pub proof fn lemma_battle_known_by_step(kind: PartyMemberKind, level: u32)
    requires
        level >= 1,
    ensures
        pick_spells(battle_learn_table_spec(kind), learned_by(level))
            == pick_spells(battle_learn_table_spec(kind), learned_by((level - 1) as u32))
                + pick_spells(battle_learn_table_spec(kind), learned_at(level)),
{
    lemma_battle_learn_tables(kind);
    lemma_known_by_step(battle_learn_table_spec(kind), level);
}

} // verus!
