use rpg_core::character_table::{CharacterEntry, CharacterParamTable};
use rpg_core::inventory::Inventory;
use rpg_core::item::ItemKey;
use rpg_core::party::{
    consume_item, exp_to_next_level, has_item, talk_to_candidate, PartyMember, PartyMemberKind,
    RecruitCandidate, RecruitmentPath, RecruitmentStatus, TalkResult,
};
use rpg_core::party_data::character_param_table;
use rpg_core::stats::{CombatStats, StatGrowth};

fn char_table() -> CharacterParamTable {
    CharacterParamTable::from_fn(|kind| match kind {
        PartyMemberKind::Laios => CharacterEntry {
            initial_stats: CombatStats::new(30, 8, 3, 5, 5),
            stat_growth: StatGrowth { hp: 5, mp: 1, attack: 2, defense: 1, speed: 1 },
            recruit_method: RecruitmentPath::TavernBond,
            spell_learn_table: Vec::new(),
        },
        _ => CharacterEntry {
            initial_stats: CombatStats::new(20, 5, 2, 5, 5),
            stat_growth: StatGrowth { hp: 3, mp: 1, attack: 1, defense: 1, speed: 1 },
            recruit_method: RecruitmentPath::TavernBond,
            spell_learn_table: Vec::new(),
        },
    })
}

fn laios() -> PartyMember {
    PartyMember::from_kind(PartyMemberKind::Laios, &character_param_table())
}

#[test]
fn exp_to_next_level_values() {
    assert_eq!(exp_to_next_level(1), 10);
    assert_eq!(exp_to_next_level(2), 30);
    assert_eq!(exp_to_next_level(3), 60);
}

#[test]
fn gain_exp_levels_up() {
    let table = char_table();
    let mut laios = PartyMember::from_kind(PartyMemberKind::Laios, &table);
    let level_ups = laios.gain_exp(10, &table);
    assert_eq!(level_ups, 1);
    assert_eq!(laios.level, 2);
    assert_eq!(laios.exp, 10);
    assert_eq!(laios.stats.max_hp, 35);
    assert_eq!(laios.stats.attack, 10);
}

#[test]
fn gain_exp_multiple_level_ups() {
    let table = char_table();
    let mut laios = PartyMember::from_kind(PartyMemberKind::Laios, &table);
    let level_ups = laios.gain_exp(60, &table);
    assert_eq!(level_ups, 3);
    assert_eq!(laios.level, 4);
}

#[test]
fn gain_exp_no_level_up() {
    let table = char_table();
    let mut laios = PartyMember::from_kind(PartyMemberKind::Laios, &table);
    let level_ups = laios.gain_exp(5, &table);
    assert_eq!(level_ups, 0);
    assert_eq!(laios.level, 1);
    assert_eq!(laios.exp, 5);
}

#[test]
fn talk_to_candidate_transitions() {
    let mut candidate = RecruitCandidate::new(PartyMemberKind::Marcille);

    let result = talk_to_candidate(&mut candidate);
    assert_eq!(result, TalkResult::BecameAcquaintance);
    assert_eq!(candidate.status, RecruitmentStatus::Acquaintance);

    let result = talk_to_candidate(&mut candidate);
    assert_eq!(result, TalkResult::Recruited);
    assert_eq!(candidate.status, RecruitmentStatus::Recruited);

    let result = talk_to_candidate(&mut candidate);
    assert_eq!(result, TalkResult::AlreadyRecruited);
}

#[test]
fn has_item_finds_in_member_inventory() {
    let mut members = vec![laios()];
    let bag = Inventory::with_capacity(10);
    members[0].inventory.add(ItemKey::Herb, 1);
    assert!(has_item(&members, &bag, ItemKey::Herb));
    assert!(!has_item(&members, &bag, ItemKey::HighHerb));
}

#[test]
fn has_item_finds_in_bag() {
    let members = vec![laios()];
    let mut bag = Inventory::with_capacity(10);
    bag.add(ItemKey::HighHerb, 1);
    assert!(has_item(&members, &bag, ItemKey::HighHerb));
}

#[test]
fn consume_item_prefers_member_over_bag() {
    let mut members = vec![laios()];
    let mut bag = Inventory::with_capacity(10);
    members[0].inventory.add(ItemKey::Herb, 1);
    bag.add(ItemKey::Herb, 1);
    assert!(consume_item(&mut members, &mut bag, ItemKey::Herb));
    assert_eq!(members[0].inventory.count(ItemKey::Herb), 0);
    assert_eq!(bag.count(ItemKey::Herb), 1);
}

#[test]
fn consume_item_falls_back_to_bag() {
    let mut members = vec![laios()];
    let mut bag = Inventory::with_capacity(10);
    bag.add(ItemKey::Herb, 1);
    assert!(consume_item(&mut members, &mut bag, ItemKey::Herb));
    assert_eq!(bag.count(ItemKey::Herb), 0);
}

#[test]
fn consume_item_returns_false_when_absent() {
    let mut members = vec![laios()];
    let mut bag = Inventory::with_capacity(10);
    assert!(!consume_item(&mut members, &mut bag, ItemKey::Herb));
}

#[test]
fn effective_attack_without_weapon() {
    let table = char_table();
    let laios = PartyMember::from_kind(PartyMemberKind::Laios, &table);
    assert_eq!(laios.effective_attack(), laios.stats.attack);
}

#[test]
fn effective_attack_with_weapon() {
    let table = char_table();
    let mut laios = PartyMember::from_kind(PartyMemberKind::Laios, &table);
    laios.equipment.equip_weapon(ItemKey::IronSword);
    assert_eq!(laios.effective_attack(), laios.stats.attack + 5);
}

#[test]
fn consume_item_takes_from_the_first_holder() {
    let table = character_param_table();
    let mut members = vec![
        PartyMember::from_kind(PartyMemberKind::Laios, &table),
        PartyMember::from_kind(PartyMemberKind::Marcille, &table),
        PartyMember::from_kind(PartyMemberKind::Falin, &table),
    ];
    let mut bag = Inventory::with_capacity(10);
    members[1].inventory.add(ItemKey::HighHerb, 1);
    members[2].inventory.add(ItemKey::HighHerb, 1);
    assert!(consume_item(&mut members, &mut bag, ItemKey::HighHerb));
    assert_eq!(members[1].inventory.count(ItemKey::HighHerb), 0);
    assert_eq!(members[2].inventory.count(ItemKey::HighHerb), 1);
}

#[test]
fn gain_exp_over_several_calls_matches_one_call() {
    let table = char_table();
    let mut a = PartyMember::from_kind(PartyMemberKind::Laios, &table);
    let mut b = PartyMember::from_kind(PartyMemberKind::Laios, &table);
    a.gain_exp(25, &table);
    a.gain_exp(40, &table);
    b.gain_exp(65, &table);
    assert_eq!(a.level, b.level);
    assert_eq!(a.stats, b.stats);
    assert_eq!(a.level, 4);
}

#[test]
fn exp_thresholds_grow() {
    let mut level = 1;
    while level < 30 {
        assert!(exp_to_next_level(level) < exp_to_next_level(level + 1));
        level += 1;
    }
    assert_eq!(exp_to_next_level(4), 100);
}

#[test]
fn sync_from_battle_keeps_kind() {
    let table = character_param_table();
    let mut field = PartyMember::from_kind(PartyMemberKind::Laios, &table);
    let mut battle = PartyMember::from_kind(PartyMemberKind::Marcille, &table);
    battle.stats.hp = 3;
    battle.inventory.add(ItemKey::Herb, 2);
    field.sync_from_battle(&battle);
    assert_eq!(field.kind, PartyMemberKind::Laios);
    assert_eq!(field.stats.hp, 3);
    assert_eq!(field.inventory.count(ItemKey::Herb), 2);
}
