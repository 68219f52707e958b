//! The game's data for each character.
use vstd::prelude::*;
use crate::character_table::{CharacterEntry, CharacterParamTable};
use crate::item::ItemKey;
use crate::party::{PartyMemberKind, RecruitmentPath};
use crate::spell::{
    learned_at, learned_by, lemma_known_by_step, levels_positive, levels_sorted, pick_spells, spells_distinct, teaches_not,
    SpellKind,
};
use crate::stats::{CombatStats, StatGrowth};

verus! {

/// Starting statistics of each character.
pub open spec fn standard_initial_stats(k: PartyMemberKind) -> CombatStats {
    match k {
        PartyMemberKind::Laios => CombatStats { hp: 30, max_hp: 30, mp: 5, max_mp: 5, attack: 8, defense: 3, speed: 5 },
        PartyMemberKind::Chilchuck => CombatStats { hp: 22, max_hp: 22, mp: 0, max_mp: 0, attack: 6, defense: 2, speed: 9 },
        PartyMemberKind::Marcille => CombatStats { hp: 20, max_hp: 20, mp: 15, max_mp: 15, attack: 2, defense: 2, speed: 7 },
        PartyMemberKind::Senshi => CombatStats { hp: 40, max_hp: 40, mp: 3, max_mp: 3, attack: 7, defense: 6, speed: 2 },
        PartyMemberKind::Falin => CombatStats { hp: 25, max_hp: 25, mp: 12, max_mp: 12, attack: 5, defense: 4, speed: 4 },
        PartyMemberKind::Izutsumi => CombatStats { hp: 20, max_hp: 20, mp: 3, max_mp: 3, attack: 7, defense: 1, speed: 10 },
        PartyMemberKind::Shuro => CombatStats { hp: 28, max_hp: 28, mp: 0, max_mp: 0, attack: 10, defense: 3, speed: 7 },
        PartyMemberKind::Namari => CombatStats { hp: 35, max_hp: 35, mp: 0, max_mp: 0, attack: 6, defense: 5, speed: 3 },
        PartyMemberKind::Kabru => CombatStats { hp: 26, max_hp: 26, mp: 5, max_mp: 5, attack: 7, defense: 3, speed: 6 },
        PartyMemberKind::Rinsha => CombatStats { hp: 24, max_hp: 24, mp: 8, max_mp: 8, attack: 5, defense: 3, speed: 6 },
    }
}

/// Level-up growth of each character.
pub open spec fn standard_growth(k: PartyMemberKind) -> StatGrowth {
    match k {
        PartyMemberKind::Laios => StatGrowth { hp: 5, mp: 1, attack: 2, defense: 1, speed: 1 },
        PartyMemberKind::Chilchuck => StatGrowth { hp: 3, mp: 0, attack: 2, defense: 1, speed: 2 },
        PartyMemberKind::Marcille => StatGrowth { hp: 3, mp: 3, attack: 1, defense: 1, speed: 1 },
        PartyMemberKind::Senshi => StatGrowth { hp: 6, mp: 0, attack: 2, defense: 2, speed: 0 },
        PartyMemberKind::Falin => StatGrowth { hp: 4, mp: 2, attack: 1, defense: 1, speed: 1 },
        PartyMemberKind::Izutsumi => StatGrowth { hp: 3, mp: 1, attack: 2, defense: 0, speed: 2 },
        PartyMemberKind::Shuro => StatGrowth { hp: 4, mp: 0, attack: 3, defense: 1, speed: 1 },
        PartyMemberKind::Namari => StatGrowth { hp: 5, mp: 0, attack: 2, defense: 2, speed: 0 },
        PartyMemberKind::Kabru => StatGrowth { hp: 4, mp: 1, attack: 2, defense: 1, speed: 1 },
        PartyMemberKind::Rinsha => StatGrowth { hp: 3, mp: 2, attack: 1, defense: 1, speed: 1 },
    }
}

/// How each character joins.
pub open spec fn standard_recruit(k: PartyMemberKind) -> RecruitmentPath {
    match k {
        PartyMemberKind::Laios => RecruitmentPath::TavernBond,
        PartyMemberKind::Chilchuck => RecruitmentPath::GoldHire { cost: 200 },
        PartyMemberKind::Marcille => RecruitmentPath::TavernBond,
        PartyMemberKind::Senshi => RecruitmentPath::ItemTrade { item: ItemKey::DragonScale },
        PartyMemberKind::Falin => RecruitmentPath::TavernBond,
        PartyMemberKind::Izutsumi => RecruitmentPath::ItemTrade { item: ItemKey::AncientCoin },
        PartyMemberKind::Shuro => RecruitmentPath::TavernBond,
        PartyMemberKind::Namari => RecruitmentPath::GoldHire { cost: 200 },
        PartyMemberKind::Kabru => RecruitmentPath::TavernBond,
        PartyMemberKind::Rinsha => RecruitmentPath::TavernBond,
    }
}

/// The spells each character learns, with the level each needs.
pub open spec fn standard_learn_table(k: PartyMemberKind) -> Seq<(u32, SpellKind)> {
    match k {
        PartyMemberKind::Laios => seq![(1u32, SpellKind::Heal1), (1u32, SpellKind::Boost1), (1u32, SpellKind::Fire1), (1u32, SpellKind::Fire2), (1u32, SpellKind::Blaze1), (1u32, SpellKind::Blaze2), (1u32, SpellKind::Heal2), (1u32, SpellKind::Healall1), (1u32, SpellKind::Healall2), (1u32, SpellKind::Shield1), (1u32, SpellKind::Shield2), (1u32, SpellKind::Barrier1), (1u32, SpellKind::Barrier2), (1u32, SpellKind::Boost2), (1u32, SpellKind::Rally1), (1u32, SpellKind::Rally2), (1u32, SpellKind::Drain1), (1u32, SpellKind::Drain2), (1u32, SpellKind::Siphon1), (1u32, SpellKind::Siphon2), (1u32, SpellKind::Sleep1), (1u32, SpellKind::Sleepall1), (1u32, SpellKind::Poison1), (1u32, SpellKind::Poisonall1)],
        PartyMemberKind::Chilchuck => seq![],
        PartyMemberKind::Marcille => seq![(1u32, SpellKind::Fire1), (3u32, SpellKind::Blaze1), (5u32, SpellKind::Fire2), (7u32, SpellKind::Blaze2), (8u32, SpellKind::Sleep1), (9u32, SpellKind::Drain1), (10u32, SpellKind::Sleepall1)],
        PartyMemberKind::Senshi => seq![(4u32, SpellKind::Shield1)],
        PartyMemberKind::Falin => seq![(1u32, SpellKind::Heal1), (3u32, SpellKind::Healall1), (5u32, SpellKind::Heal2), (7u32, SpellKind::Shield2), (9u32, SpellKind::Healall2), (10u32, SpellKind::Barrier2)],
        PartyMemberKind::Izutsumi => seq![(5u32, SpellKind::Fire1), (8u32, SpellKind::Boost1)],
        PartyMemberKind::Shuro => seq![],
        PartyMemberKind::Namari => seq![],
        PartyMemberKind::Kabru => seq![(3u32, SpellKind::Heal1), (5u32, SpellKind::Shield1), (6u32, SpellKind::Siphon1), (7u32, SpellKind::Barrier1), (8u32, SpellKind::Poisonall1), (9u32, SpellKind::Rally1)],
        PartyMemberKind::Rinsha => seq![(1u32, SpellKind::Fire1), (3u32, SpellKind::Heal1), (5u32, SpellKind::Boost1), (6u32, SpellKind::Drain1), (7u32, SpellKind::Boost2), (8u32, SpellKind::Poison1), (9u32, SpellKind::Rally2)],
    }
}

/// An entry holds the game's data for a character.
pub open spec fn is_standard_entry(k: PartyMemberKind, e: CharacterEntry) -> bool {
    &&& e.initial_stats == standard_initial_stats(k)
    &&& e.stat_growth == standard_growth(k)
    &&& e.recruit_method == standard_recruit(k)
    &&& e.spell_learn_table@ == standard_learn_table(k)
}

/// The game's data for one character.
#[verifier::rlimit(50)]
pub fn standard_entry(kind: PartyMemberKind) -> (e: CharacterEntry)
    ensures
        is_standard_entry(kind, e),
{
    match kind {
        PartyMemberKind::Laios => CharacterEntry {
            initial_stats: CombatStats::new(30, 8, 3, 5, 5),
            stat_growth: StatGrowth { hp: 5, mp: 1, attack: 2, defense: 1, speed: 1 },
            recruit_method: RecruitmentPath::TavernBond,
            spell_learn_table: {
                let v = vec![(1u32, SpellKind::Heal1), (1u32, SpellKind::Boost1), (1u32, SpellKind::Fire1), (1u32, SpellKind::Fire2), (1u32, SpellKind::Blaze1), (1u32, SpellKind::Blaze2), (1u32, SpellKind::Heal2), (1u32, SpellKind::Healall1), (1u32, SpellKind::Healall2), (1u32, SpellKind::Shield1), (1u32, SpellKind::Shield2), (1u32, SpellKind::Barrier1), (1u32, SpellKind::Barrier2), (1u32, SpellKind::Boost2), (1u32, SpellKind::Rally1), (1u32, SpellKind::Rally2), (1u32, SpellKind::Drain1), (1u32, SpellKind::Drain2), (1u32, SpellKind::Siphon1), (1u32, SpellKind::Siphon2), (1u32, SpellKind::Sleep1), (1u32, SpellKind::Sleepall1), (1u32, SpellKind::Poison1), (1u32, SpellKind::Poisonall1)];
                assert(v@ =~= standard_learn_table(PartyMemberKind::Laios));
                v
            },
        },
        PartyMemberKind::Chilchuck => CharacterEntry {
            initial_stats: CombatStats::new(22, 6, 2, 9, 0),
            stat_growth: StatGrowth { hp: 3, mp: 0, attack: 2, defense: 1, speed: 2 },
            recruit_method: RecruitmentPath::GoldHire { cost: 200 },
            spell_learn_table: {
                let v: Vec<(u32, SpellKind)> = Vec::new();
                assert(v@ =~= standard_learn_table(PartyMemberKind::Chilchuck));
                v
            },
        },
        PartyMemberKind::Marcille => CharacterEntry {
            initial_stats: CombatStats::new(20, 2, 2, 7, 15),
            stat_growth: StatGrowth { hp: 3, mp: 3, attack: 1, defense: 1, speed: 1 },
            recruit_method: RecruitmentPath::TavernBond,
            spell_learn_table: {
                let v: Vec<(u32, SpellKind)> = vec![(1u32, SpellKind::Fire1), (3u32, SpellKind::Blaze1), (5u32, SpellKind::Fire2), (7u32, SpellKind::Blaze2), (8u32, SpellKind::Sleep1), (9u32, SpellKind::Drain1), (10u32, SpellKind::Sleepall1)];
                assert(v@ =~= standard_learn_table(PartyMemberKind::Marcille));
                v
            },
        },
        PartyMemberKind::Senshi => CharacterEntry {
            initial_stats: CombatStats::new(40, 7, 6, 2, 3),
            stat_growth: StatGrowth { hp: 6, mp: 0, attack: 2, defense: 2, speed: 0 },
            recruit_method: RecruitmentPath::ItemTrade { item: ItemKey::DragonScale },
            spell_learn_table: {
                let v: Vec<(u32, SpellKind)> = vec![(4u32, SpellKind::Shield1)];
                assert(v@ =~= standard_learn_table(PartyMemberKind::Senshi));
                v
            },
        },
        PartyMemberKind::Falin => CharacterEntry {
            initial_stats: CombatStats::new(25, 5, 4, 4, 12),
            stat_growth: StatGrowth { hp: 4, mp: 2, attack: 1, defense: 1, speed: 1 },
            recruit_method: RecruitmentPath::TavernBond,
            spell_learn_table: {
                let v: Vec<(u32, SpellKind)> = vec![(1u32, SpellKind::Heal1), (3u32, SpellKind::Healall1), (5u32, SpellKind::Heal2), (7u32, SpellKind::Shield2), (9u32, SpellKind::Healall2), (10u32, SpellKind::Barrier2)];
                assert(v@ =~= standard_learn_table(PartyMemberKind::Falin));
                v
            },
        },
        PartyMemberKind::Izutsumi => CharacterEntry {
            initial_stats: CombatStats::new(20, 7, 1, 10, 3),
            stat_growth: StatGrowth { hp: 3, mp: 1, attack: 2, defense: 0, speed: 2 },
            recruit_method: RecruitmentPath::ItemTrade { item: ItemKey::AncientCoin },
            spell_learn_table: {
                let v: Vec<(u32, SpellKind)> = vec![(5u32, SpellKind::Fire1), (8u32, SpellKind::Boost1)];
                assert(v@ =~= standard_learn_table(PartyMemberKind::Izutsumi));
                v
            },
        },
        PartyMemberKind::Shuro => CharacterEntry {
            initial_stats: CombatStats::new(28, 10, 3, 7, 0),
            stat_growth: StatGrowth { hp: 4, mp: 0, attack: 3, defense: 1, speed: 1 },
            recruit_method: RecruitmentPath::TavernBond,
            spell_learn_table: {
                let v: Vec<(u32, SpellKind)> = Vec::new();
                assert(v@ =~= standard_learn_table(PartyMemberKind::Shuro));
                v
            },
        },
        PartyMemberKind::Namari => CharacterEntry {
            initial_stats: CombatStats::new(35, 6, 5, 3, 0),
            stat_growth: StatGrowth { hp: 5, mp: 0, attack: 2, defense: 2, speed: 0 },
            recruit_method: RecruitmentPath::GoldHire { cost: 200 },
            spell_learn_table: {
                let v: Vec<(u32, SpellKind)> = Vec::new();
                assert(v@ =~= standard_learn_table(PartyMemberKind::Namari));
                v
            },
        },
        PartyMemberKind::Kabru => CharacterEntry {
            initial_stats: CombatStats::new(26, 7, 3, 6, 5),
            stat_growth: StatGrowth { hp: 4, mp: 1, attack: 2, defense: 1, speed: 1 },
            recruit_method: RecruitmentPath::TavernBond,
            spell_learn_table: {
                let v: Vec<(u32, SpellKind)> = vec![(3u32, SpellKind::Heal1), (5u32, SpellKind::Shield1), (6u32, SpellKind::Siphon1), (7u32, SpellKind::Barrier1), (8u32, SpellKind::Poisonall1), (9u32, SpellKind::Rally1)];
                assert(v@ =~= standard_learn_table(PartyMemberKind::Kabru));
                v
            },
        },
        PartyMemberKind::Rinsha => CharacterEntry {
            initial_stats: CombatStats::new(24, 5, 3, 6, 8),
            stat_growth: StatGrowth { hp: 3, mp: 2, attack: 1, defense: 1, speed: 1 },
            recruit_method: RecruitmentPath::TavernBond,
            spell_learn_table: {
                let v: Vec<(u32, SpellKind)> = vec![(1u32, SpellKind::Fire1), (3u32, SpellKind::Heal1), (5u32, SpellKind::Boost1), (6u32, SpellKind::Drain1), (7u32, SpellKind::Boost2), (8u32, SpellKind::Poison1), (9u32, SpellKind::Rally2)];
                assert(v@ =~= standard_learn_table(PartyMemberKind::Rinsha));
                v
            },
        },
    }
}

/// The game's table of all characters.
pub fn character_param_table() -> (r: CharacterParamTable)
    ensures
        forall|k: PartyMemberKind| is_standard_entry(k, #[trigger] r.entry_of(k)),
{
    let f = |kind: PartyMemberKind| -> (e: CharacterEntry)
        ensures
            is_standard_entry(kind, e),
        { standard_entry(kind) };
    let r = CharacterParamTable::from_fn(f);
    r
}


/// Every learn table is sorted by required level, asks for level one or
/// more, and teaches each spell once; Chilchuck, Shuro and Namari learn
/// nothing, and Laios knows all twenty-four spells from level one.
pub proof fn lemma_standard_learn_tables(kind: PartyMemberKind)
    ensures
        levels_sorted(standard_learn_table(kind)),
        levels_positive(standard_learn_table(kind)),
        spells_distinct(standard_learn_table(kind)),
        kind is Chilchuck || kind is Shuro || kind is Namari ==> standard_learn_table(kind).len() == 0,
        standard_learn_table(PartyMemberKind::Laios).len() == 24,
        forall|i: int| 0 <= i < 24 ==> (#[trigger] standard_learn_table(PartyMemberKind::Laios)[i]).0 == 1,
{
    reveal_with_fuel(levels_sorted, 25);
    reveal_with_fuel(levels_positive, 25);
    reveal_with_fuel(spells_distinct, 25);
    reveal_with_fuel(teaches_not, 25);
    assert(levels_sorted(Seq::<(u32, SpellKind)>::empty()));
    assert(standard_learn_table(PartyMemberKind::Laios).len() == 24);
}

/// The spells known at a level are those known one level below, followed
/// by those learned on reaching it.
pub proof fn lemma_standard_learn_known_by_step(kind: PartyMemberKind, level: u32)
    requires
        level >= 1,
    ensures
        pick_spells(standard_learn_table(kind), learned_by(level))
            == pick_spells(standard_learn_table(kind), learned_by((level - 1) as u32))
                + pick_spells(standard_learn_table(kind), learned_at(level)),
{
    lemma_standard_learn_tables(kind);
    lemma_known_by_step(standard_learn_table(kind), level);
}

} // verus!
