use rpg_core::battle_spell;
use rpg_core::battle_spell_table;
use rpg_core::party::PartyMemberKind;
use rpg_core::party_data::character_param_table;
use rpg_core::party_spells::{available_spells, spells_learned_at_level};
use rpg_core::spell::{
    ailment_success, all_spells, heal_amount, mp_drain_amount, spell_damage, SpellEffect, SpellKind,
    DEFENSE_DIVISOR,
};

// ---- spell data and formulas (factors in thousandths) ----

#[test]
fn lib_spell_damage_basic() {
    let damage = spell_damage(12, 4, DEFENSE_DIVISOR, 1000);
    assert_eq!(damage, 11);
}

#[test]
fn lib_spell_damage_with_random() {
    let low = spell_damage(12, 4, DEFENSE_DIVISOR, 800);
    let high = spell_damage(12, 4, DEFENSE_DIVISOR, 1200);
    assert_eq!(low, 9);
    assert_eq!(high, 13);
}

#[test]
fn lib_spell_damage_minimum_is_one() {
    let damage = spell_damage(1, 100, DEFENSE_DIVISOR, 800);
    assert_eq!(damage, 1);
}

#[test]
fn lib_heal_amount_basic() {
    let amount = heal_amount(15, 1000);
    assert_eq!(amount, 15);
}

#[test]
fn lib_heal_amount_with_random() {
    let low = heal_amount(15, 800);
    let high = heal_amount(15, 1200);
    assert_eq!(low, 12);
    assert_eq!(high, 18);
}

#[test]
fn all_spells_returns_24() {
    assert_eq!(all_spells().len(), 24);
}

#[test]
fn lib_target_type_and_effect_consistency() {
    for spell in all_spells() {
        match spell.effect {
            SpellEffect::Damage { .. } => {
                assert!(spell.is_offensive());
            }
            SpellEffect::Heal { .. } => {
                assert!(!spell.is_offensive());
            }
            SpellEffect::AttackBuff { .. } | SpellEffect::Block { .. } => {
                assert!(!spell.is_offensive());
            }
            SpellEffect::MpDrain { .. } => {
                assert!(spell.is_offensive());
            }
            SpellEffect::Ailment { .. } => {
                assert!(spell.is_offensive());
                assert!(spell.ailment.is_some());
            }
        }
    }
}

#[test]
fn mp_drain_basic() {
    let amount = mp_drain_amount(8, 1000);
    assert_eq!(amount, 8);
}

#[test]
fn mp_drain_with_random() {
    let low = mp_drain_amount(8, 800);
    let high = mp_drain_amount(8, 1200);
    assert_eq!(low, 6);
    assert_eq!(high, 10);
}

#[test]
fn mp_drain_minimum_is_one() {
    let amount = mp_drain_amount(1, 100);
    assert_eq!(amount, 1);
}

#[test]
fn rounding_goes_half_away_from_zero() {
    // 15 * 0.9 = 13.5 rounds up to 14; 5 * 0.9 = 4.5 rounds up to 5.
    assert_eq!(heal_amount(15, 900), 14);
    assert_eq!(mp_drain_amount(5, 900), 5);
    // (10 - 2/4) * 1.0 = 9.5 rounds to 10.
    assert_eq!(spell_damage(10, 2, DEFENSE_DIVISOR, 1000), 10);
}

#[test]
fn ailment_lands_below_the_rate() {
    assert!(ailment_success(70, 500));
    assert!(ailment_success(70, 699));
    assert!(!ailment_success(70, 700));
    assert!(!ailment_success(70, 900));
}

#[test]
fn guard_amounts_of_blocking_spells() {
    assert_eq!(SpellKind::Shield1.guard_amount(), 3);
    assert_eq!(SpellKind::Shield2.guard_amount(), 6);
    assert_eq!(SpellKind::Barrier1.guard_amount(), 2);
    assert_eq!(SpellKind::Barrier2.guard_amount(), 4);
    assert_eq!(SpellKind::Fire1.guard_amount(), 0);
}

// ---- what party members learn, from the character table ----

#[test]
fn laios_has_all_24_spells_at_level_1() {
    let table = character_param_table();
    let spells = available_spells(PartyMemberKind::Laios, 1, &table);
    assert_eq!(spells.len(), 24);
}

#[test]
fn spell_table_marcille_learns_fire1_at_level_1() {
    let table = character_param_table();
    let spells = available_spells(PartyMemberKind::Marcille, 1, &table);
    assert_eq!(spells, vec![SpellKind::Fire1.entry()]);
}

#[test]
fn spell_table_marcille_learns_blaze1_at_level_3() {
    let table = character_param_table();
    let spells = available_spells(PartyMemberKind::Marcille, 3, &table);
    assert_eq!(spells, vec![SpellKind::Fire1.entry(), SpellKind::Blaze1.entry()]);
}

#[test]
fn spell_table_marcille_learns_fire2_at_level_5() {
    let table = character_param_table();
    let spells = available_spells(PartyMemberKind::Marcille, 5, &table);
    assert_eq!(
        spells,
        vec![SpellKind::Fire1.entry(), SpellKind::Blaze1.entry(), SpellKind::Fire2.entry()]
    );
}

#[test]
fn spell_table_falin_learns_heal1_at_level_1() {
    let table = character_param_table();
    let spells = available_spells(PartyMemberKind::Falin, 1, &table);
    assert_eq!(spells, vec![SpellKind::Heal1.entry()]);
}

#[test]
fn spell_table_falin_max_spells() {
    let table = character_param_table();
    let spells = available_spells(PartyMemberKind::Falin, 10, &table);
    assert_eq!(spells.len(), 6);
}

#[test]
fn spell_table_spells_learned_at_specific_level() {
    let table = character_param_table();
    assert_eq!(
        spells_learned_at_level(PartyMemberKind::Marcille, 1, &table),
        vec![SpellKind::Fire1.entry()]
    );
    assert_eq!(
        spells_learned_at_level(PartyMemberKind::Marcille, 3, &table),
        vec![SpellKind::Blaze1.entry()]
    );
    assert!(spells_learned_at_level(PartyMemberKind::Marcille, 2, &table).is_empty());
}

#[test]
fn spell_table_senshi_learns_shield1_at_level_4() {
    let table = character_param_table();
    let spells = available_spells(PartyMemberKind::Senshi, 4, &table);
    assert_eq!(spells, vec![SpellKind::Shield1.entry()]);
}

#[test]
fn spell_table_no_spell_characters() {
    let table = character_param_table();
    assert!(available_spells(PartyMemberKind::Chilchuck, 99, &table).is_empty());
    assert!(available_spells(PartyMemberKind::Shuro, 99, &table).is_empty());
    assert!(available_spells(PartyMemberKind::Namari, 99, &table).is_empty());
}

#[test]
fn spell_table_marcille_learns_drain1_at_level_9() {
    let table = character_param_table();
    let spells = available_spells(PartyMemberKind::Marcille, 9, &table);
    assert!(spells.contains(&SpellKind::Drain1.entry()));
}

#[test]
fn spell_table_rinsha_learns_drain1_at_level_6() {
    let table = character_param_table();
    let spells = available_spells(PartyMemberKind::Rinsha, 6, &table);
    assert!(spells.contains(&SpellKind::Drain1.entry()));
    assert!(!available_spells(PartyMemberKind::Rinsha, 5, &table).contains(&SpellKind::Drain1.entry()));
}

#[test]
fn spell_table_kabru_learns_siphon1_at_level_6() {
    let table = character_param_table();
    let spells = available_spells(PartyMemberKind::Kabru, 6, &table);
    assert!(spells.contains(&SpellKind::Siphon1.entry()));
    assert!(!available_spells(PartyMemberKind::Kabru, 5, &table).contains(&SpellKind::Siphon1.entry()));
}

// ---- the battle edition with sixteen spells ----

#[test]
fn spell_spell_damage_basic() {
    let damage = battle_spell::calculate_spell_damage(12, 4, 1000);
    assert_eq!(damage, 11);
}

#[test]
fn spell_spell_damage_with_random() {
    let low = battle_spell::calculate_spell_damage(12, 4, 800);
    let high = battle_spell::calculate_spell_damage(12, 4, 1200);
    assert_eq!(low, 9);
    assert_eq!(high, 13);
}

#[test]
fn spell_spell_damage_minimum_is_one() {
    let damage = battle_spell::calculate_spell_damage(1, 100, 800);
    assert_eq!(damage, 1);
}

#[test]
fn spell_heal_amount_basic() {
    let amount = battle_spell::calculate_heal_amount(15, 1000);
    assert_eq!(amount, 15);
}

#[test]
fn spell_heal_amount_with_random() {
    let low = battle_spell::calculate_heal_amount(15, 800);
    let high = battle_spell::calculate_heal_amount(15, 1200);
    assert_eq!(low, 12);
    assert_eq!(high, 18);
}

#[test]
fn laios_has_all_16_spells_at_level_1() {
    let spells = battle_spell::available_spells(PartyMemberKind::Laios, 1);
    assert_eq!(spells.len(), 16);
}

#[test]
fn spell_marcille_learns_fire1_at_level_1() {
    let spells = battle_spell::available_spells(PartyMemberKind::Marcille, 1);
    assert_eq!(spells, vec![battle_spell::SpellKind::Fire1]);
}

#[test]
fn spell_marcille_learns_blaze1_at_level_3() {
    let spells = battle_spell::available_spells(PartyMemberKind::Marcille, 3);
    assert_eq!(spells, vec![battle_spell::SpellKind::Fire1, battle_spell::SpellKind::Blaze1]);
}

#[test]
fn spell_marcille_learns_fire2_at_level_5() {
    let spells = battle_spell::available_spells(PartyMemberKind::Marcille, 5);
    assert_eq!(
        spells,
        vec![battle_spell::SpellKind::Fire1, battle_spell::SpellKind::Blaze1, battle_spell::SpellKind::Fire2]
    );
}

#[test]
fn spell_falin_learns_heal1_at_level_1() {
    let spells = battle_spell::available_spells(PartyMemberKind::Falin, 1);
    assert_eq!(spells, vec![battle_spell::SpellKind::Heal1]);
}

#[test]
fn spell_falin_max_spells() {
    let spells = battle_spell::available_spells(PartyMemberKind::Falin, 10);
    assert_eq!(spells.len(), 6);
}

#[test]
fn spell_spells_learned_at_specific_level() {
    assert_eq!(
        battle_spell::spells_learned_at_level(PartyMemberKind::Marcille, 1),
        vec![battle_spell::SpellKind::Fire1]
    );
    assert_eq!(
        battle_spell::spells_learned_at_level(PartyMemberKind::Marcille, 3),
        vec![battle_spell::SpellKind::Blaze1]
    );
    assert!(battle_spell::spells_learned_at_level(PartyMemberKind::Marcille, 2).is_empty());
}

#[test]
fn all_spells_returns_16() {
    assert_eq!(battle_spell::all_spells().len(), 16);
}

#[test]
fn spell_target_type_and_effect_consistency() {
    for spell in battle_spell::all_spells() {
        match spell.effect() {
            battle_spell::SpellEffect::Damage => {
                assert!(spell.is_offensive());
                assert!(!spell.is_usable_in_field());
            }
            battle_spell::SpellEffect::Heal => {
                assert!(!spell.is_offensive());
                assert!(spell.is_usable_in_field());
            }
            battle_spell::SpellEffect::AttackBuff | battle_spell::SpellEffect::DefenseBuff => {
                assert!(!spell.is_offensive());
                assert!(!spell.is_usable_in_field());
            }
        }
    }
}

#[test]
fn spell_senshi_learns_shield1_at_level_4() {
    let spells = battle_spell::available_spells(PartyMemberKind::Senshi, 4);
    assert_eq!(spells, vec![battle_spell::SpellKind::Shield1]);
}

#[test]
fn spell_no_spell_characters() {
    assert!(battle_spell::available_spells(PartyMemberKind::Chilchuck, 99).is_empty());
    assert!(battle_spell::available_spells(PartyMemberKind::Shuro, 99).is_empty());
    assert!(battle_spell::available_spells(PartyMemberKind::Namari, 99).is_empty());
}

// ---- the battle learn table with twenty spells ----

#[test]
fn laios_has_all_20_spells_at_level_1() {
    let spells = battle_spell_table::available_spells(PartyMemberKind::Laios, 1);
    assert_eq!(spells.len(), 20);
}

#[test]
fn marcille_learns_fire1_at_level_1() {
    let spells = battle_spell_table::available_spells(PartyMemberKind::Marcille, 1);
    assert_eq!(spells, vec![SpellKind::Fire1]);
}

#[test]
fn marcille_learns_blaze1_at_level_3() {
    let spells = battle_spell_table::available_spells(PartyMemberKind::Marcille, 3);
    assert_eq!(spells, vec![SpellKind::Fire1, SpellKind::Blaze1]);
}

#[test]
fn marcille_learns_fire2_at_level_5() {
    let spells = battle_spell_table::available_spells(PartyMemberKind::Marcille, 5);
    assert_eq!(spells, vec![SpellKind::Fire1, SpellKind::Blaze1, SpellKind::Fire2]);
}

#[test]
fn falin_learns_heal1_at_level_1() {
    let spells = battle_spell_table::available_spells(PartyMemberKind::Falin, 1);
    assert_eq!(spells, vec![SpellKind::Heal1]);
}

#[test]
fn falin_max_spells() {
    let spells = battle_spell_table::available_spells(PartyMemberKind::Falin, 10);
    assert_eq!(spells.len(), 6);
}

#[test]
fn spells_learned_at_specific_level() {
    assert_eq!(
        battle_spell_table::spells_learned_at_level(PartyMemberKind::Marcille, 1),
        vec![SpellKind::Fire1]
    );
    assert_eq!(
        battle_spell_table::spells_learned_at_level(PartyMemberKind::Marcille, 3),
        vec![SpellKind::Blaze1]
    );
    assert!(battle_spell_table::spells_learned_at_level(PartyMemberKind::Marcille, 2).is_empty());
}

#[test]
fn senshi_learns_shield1_at_level_4() {
    let spells = battle_spell_table::available_spells(PartyMemberKind::Senshi, 4);
    assert_eq!(spells, vec![SpellKind::Shield1]);
}

#[test]
fn no_spell_characters() {
    assert!(battle_spell_table::available_spells(PartyMemberKind::Chilchuck, 99).is_empty());
    assert!(battle_spell_table::available_spells(PartyMemberKind::Shuro, 99).is_empty());
    assert!(battle_spell_table::available_spells(PartyMemberKind::Namari, 99).is_empty());
}

#[test]
fn marcille_learns_drain1_at_level_9() {
    let spells = battle_spell_table::available_spells(PartyMemberKind::Marcille, 9);
    assert!(spells.contains(&SpellKind::Drain1));
}

#[test]
fn rinsha_learns_drain1_at_level_6() {
    let spells = battle_spell_table::available_spells(PartyMemberKind::Rinsha, 6);
    assert!(spells.contains(&SpellKind::Drain1));
    assert!(!battle_spell_table::available_spells(PartyMemberKind::Rinsha, 5).contains(&SpellKind::Drain1));
}

#[test]
fn kabru_learns_siphon1_at_level_6() {
    let spells = battle_spell_table::available_spells(PartyMemberKind::Kabru, 6);
    assert!(spells.contains(&SpellKind::Siphon1));
    assert!(!battle_spell_table::available_spells(PartyMemberKind::Kabru, 5).contains(&SpellKind::Siphon1));
}

#[test]
fn spell_kind_from_index_walks_the_list() {
    let all = all_spells();
    let mut i = 0;
    while i < 24 {
        assert_eq!(SpellKind::from_index(i).entry(), all[i]);
        i += 1;
    }
}
