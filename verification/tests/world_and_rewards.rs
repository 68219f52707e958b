use rpg_core::battle_checks::{commands_in_range, events_in_range, randoms_in_range};
use rpg_core::battle_messages::{unsigned_text, MessageEffect};
use rpg_core::battle_rewards::{award_experience, can_award};
use rpg_core::battle_screen::{encounter_message, BattleDisplay, ReportStep};
use rpg_core::combat::{ActorId, BattleAction, BattleState, TargetId, TurnResult};
use rpg_core::enemy::{Enemy, EnemyKind};
use rpg_core::inventory::Inventory;
use rpg_core::item::{ItemKey, BAG_CAPACITY, INVENTORY_CAPACITY};
use rpg_core::party::{default_party, PartyMember, PartyMemberKind};
use rpg_core::party_data::character_param_table;
use rpg_core::spell::SpellKind;
use rpg_core::world::{
    menu_item_text, menu_window, scroll_offset, ContinentMap, EncounterZone, HokoraPositions, PartyState, STARTING_GOLD,
};

fn member(kind: PartyMemberKind) -> PartyMember {
    PartyMember::from_kind(kind, &character_param_table())
}

// ---- world ----

#[test]
fn party_state_starts_with_laios_and_two_herbs() {
    let s = PartyState::new(&character_param_table());
    assert_eq!(s.members.len(), 1);
    assert_eq!(s.members[0].kind, PartyMemberKind::Laios);
    assert_eq!(s.members[0].inventory.count(ItemKey::Herb), 2);
    assert_eq!(s.gold, STARTING_GOLD);
    assert_eq!(s.gold, 100);
    assert_eq!(s.candidates.len(), 9);
    assert!(s.bag.is_empty());
    assert_eq!(s.bag.count(ItemKey::Herb), 0);
    let _ = (BAG_CAPACITY, INVENTORY_CAPACITY, Inventory::new());
}

#[test]
fn encounter_zone_default_is_first_continent_outside() {
    let z = EncounterZone::default();
    assert_eq!(z.continent_id, 0);
    assert!(!z.is_cave);
}

#[test]
fn nearest_hokora_prefers_the_first_of_equals() {
    let h = HokoraPositions::new(vec![(10, 10), (0, 0), (20, 0)], vec![(1, 1), (2, 2), (3, 3)]);
    assert_eq!(h.nearest(10, 0), 0);
    assert_eq!(h.nearest(1, 1), 1);
    assert_eq!(h.nearest(19, 1), 2);
    assert_eq!(h.warp_destination(1), Some((2, 2)));
    assert_eq!(h.warp_destination(3), None);
    assert_eq!(h.positions(), &[(10, 10), (0, 0), (20, 0)]);
}

#[test]
fn continent_map_is_none_off_the_map() {
    let m = ContinentMap::new(vec![vec![Some(1), None], vec![Some(2), Some(3)]]);
    assert_eq!(m.get(0, 0), Some(1));
    assert_eq!(m.get(1, 0), None);
    assert_eq!(m.get(1, 1), Some(3));
    assert_eq!(m.get(5, 0), None);
    assert_eq!(m.get(0, 5), None);
    assert_eq!(m.as_raw().len(), 2);
}

#[test]
fn scroll_offset_keeps_cursor_in_view() {
    assert_eq!(scroll_offset(0, 4, 6), 0);
    assert_eq!(scroll_offset(2, 10, 6), 0);
    assert_eq!(scroll_offset(5, 10, 6), 2);
    assert_eq!(scroll_offset(9, 10, 6), 4);
}

#[test]
fn menu_item_text_marks_the_selection() {
    assert_eq!(menu_item_text("どうぐ", true), "> どうぐ");
    assert_eq!(menu_item_text("どうぐ", false), "  どうぐ");
}

// ---- rewards ----

#[test]
fn unsigned_text_writes_decimal() {
    assert_eq!(unsigned_text(0), "0");
    assert_eq!(unsigned_text(1234567), "1234567");
}

#[test]
fn experience_goes_to_the_living_with_announcements() {
    let table = character_param_table();
    let mut party = default_party(&table);
    party[2].stats.hp = 0;
    // 10 experience takes a level-1 member to level 2 (threshold 10).
    let lines = award_experience(&mut party, 10, &table);
    assert_eq!(lines[0], "けいけんち 10ポイント かくとく！");
    assert_eq!(lines[1], "ライオスは レベル2に あがった！");
    assert_eq!(lines[2], "マルシルは レベル2に あがった！");
    assert_eq!(lines.len(), 3);
    assert_eq!(party[0].level, 2);
    assert_eq!(party[0].exp, 10);
    assert_eq!(party[2].level, 1);
    assert_eq!(party[2].exp, 0);
}

#[test]
fn level_ups_announce_new_spells() {
    let table = character_param_table();
    let mut party = vec![member(PartyMemberKind::Marcille)];
    // 60 experience: thresholds 10, 30, 60 take her to level 4; Blaze1 comes at 3.
    let lines = award_experience(&mut party, 60, &table);
    assert_eq!(
        lines,
        vec![
            "けいけんち 60ポイント かくとく！".to_string(),
            "マルシルは レベル4に あがった！".to_string(),
            "マルシルは Blaze1を おぼえた！".to_string(),
        ]
    );
    assert_eq!(party[0].level, 4);
}

#[test]
fn no_level_up_only_reports_experience() {
    let table = character_param_table();
    let mut party = vec![member(PartyMemberKind::Laios)];
    let lines = award_experience(&mut party, 3, &table);
    assert_eq!(lines, vec!["けいけんち 3ポイント かくとく！".to_string()]);
    assert_eq!(party[0].exp, 3);
}

// ---- checks ----

#[test]
fn fresh_battle_is_well_formed() {
    let battle = BattleState::new(default_party(&character_param_table()), vec![Enemy::new(EnemyKind::Slime, 1)]);
    assert!(battle.check_well_formed());
    let mut broken = BattleState::new(default_party(&character_param_table()), vec![Enemy::new(EnemyKind::Slime, 1)]);
    broken.party[0].stats.hp = 99;
    assert!(!broken.check_well_formed());
}

#[test]
fn commands_are_checked_against_the_battle() {
    let ok = vec![BattleAction::Attack { target: TargetId::Enemy(1) }, BattleAction::Flee];
    assert!(commands_in_range(&ok, 2, 2));
    assert!(!commands_in_range(&ok, 2, 1));
    let heal = vec![BattleAction::Spell { spell: SpellKind::Heal1, target: TargetId::Party(3) }];
    assert!(!commands_in_range(&heal, 2, 1));
    let item = vec![BattleAction::UseItem { item: ItemKey::Herb, target: TargetId::Party(1) }];
    assert!(commands_in_range(&item, 2, 1));
    assert!(randoms_in_range(&[800, 1200, 10000]));
    assert!(!randoms_in_range(&[10001]));
}

#[test]
fn events_are_checked_against_the_battle() {
    let good = vec![TurnResult::Attack { attacker: ActorId::Party(0), target: TargetId::Enemy(0), damage: 5 }, TurnResult::Fled];
    assert!(events_in_range(&good, 1, 1));
    let bad = vec![TurnResult::Defeated { target: TargetId::Enemy(2) }];
    assert!(!events_in_range(&bad, 1, 1));
    let negative = vec![TurnResult::PoisonDamage { target: TargetId::Party(0), damage: -1 }];
    assert!(!events_in_range(&negative, 1, 1));
}

// ---- screen ----

#[test]
fn screen_follows_the_lines() {
    let mut battle = BattleState::new(default_party(&character_param_table()), vec![Enemy::new(EnemyKind::Slime, 1), Enemy::new(EnemyKind::Slime, 1)]);
    let mut d = BattleDisplay::new(&battle);
    assert_eq!(d.party_hp, vec![30, 20, 25]);
    assert_eq!(d.hidden_enemies, vec![false, false]);
    let effects = vec![
        (0, MessageEffect::Shake),
        (0, MessageEffect::UpdatePartyHp { member_index: 1, new_hp: 7 }),
        (1, MessageEffect::HideEnemy { enemy_index: 1 }),
        (1, MessageEffect::BlinkEnemy { enemy_index: 0 }),
        (1, MessageEffect::UpdatePartyMp { member_index: 9, new_mp: 1 }),
    ];
    d.process_message_effects(&effects, 0);
    assert!(d.shake);
    assert_eq!(d.party_hp, vec![30, 7, 25]);
    assert_eq!(d.hidden_enemies, vec![false, false]);
    d.process_message_effects(&effects, 1);
    assert_eq!(d.hidden_enemies, vec![false, true]);
    assert_eq!(d.blink_enemy, Some(0));
    battle.party[0].stats.hp = 12;
    battle.party[2].stats.mp = 4;
    d.sync_display_hp(&battle);
    assert_eq!(d.party_hp, vec![12, 20, 25]);
    assert_eq!(d.party_mp, vec![5, 15, 4]);
}

#[test]
fn experience_checks_before_awarding() {
    let table = character_param_table();
    let mut party = default_party(&table);
    assert!(can_award(&party, 100, &table));
    party[0].exp = u32::MAX - 5;
    assert!(!can_award(&party, 10, &table));
    party[0].stats.hp = 0;
    assert!(can_award(&party, 10, &table));
}

#[test]
fn experience_reward_of_defeated_enemies() {
    let mut battle = BattleState::new(default_party(&character_param_table()), vec![Enemy::new(EnemyKind::Slime, 1), Enemy::new(EnemyKind::Slime, 1)]);
    assert_eq!(battle.checked_exp_reward(), Some(0));
    battle.enemies[0].stats.hp = 0;
    let one = battle.enemies[0].exp_reward();
    assert_eq!(battle.checked_exp_reward(), Some(one));
    assert_eq!(battle.total_exp_reward(), one);
}

#[test]
fn report_pages_then_hands_back_to_commands() {
    let mut battle = BattleState::new(default_party(&character_param_table()), vec![Enemy::new(EnemyKind::Slime, 1)]);
    battle.party[0].stats.hp = 0;
    let mut d = BattleDisplay::new(&battle);
    let effects = vec![(1, MessageEffect::UpdatePartyHp { member_index: 1, new_hp: 3 })];
    assert_eq!(d.start_report(&battle, &effects, 2), ReportStep::Show { index: 0 });
    assert_eq!(d.advance_report(&battle, &effects, 0, 2, false), ReportStep::Show { index: 0 });
    assert_eq!(d.advance_report(&battle, &effects, 0, 2, true), ReportStep::Show { index: 1 });
    assert_eq!(d.party_hp[1], 3);
    assert_eq!(d.advance_report(&battle, &effects, 1, 2, true), ReportStep::Commands { member_index: 1 });
    assert_eq!(d.party_hp, vec![0, 20, 25]);
}

#[test]
fn report_ends_the_battle_when_it_is_over() {
    let mut battle = BattleState::new(default_party(&character_param_table()), vec![Enemy::new(EnemyKind::Slime, 1)]);
    battle.enemies[0].stats.hp = 0;
    let mut d = BattleDisplay::new(&battle);
    assert_eq!(d.start_report(&battle, &vec![], 1), ReportStep::BattleOver { last_line: Some(0) });
    assert_eq!(d.start_report(&battle, &vec![], 0), ReportStep::BattleOver { last_line: None });
    assert_eq!(d.advance_report(&battle, &vec![], 2, 3, true), ReportStep::BattleOver { last_line: Some(2) });
}

#[test]
fn encounter_message_names_a_lone_enemy_or_counts_a_group() {
    let slime = EnemyKind::Slime.name();
    assert_eq!(encounter_message(&vec![Enemy::slime()]), format!("{}が あらわれた！", slime));
    assert_eq!(
        encounter_message(&vec![Enemy::slime(), Enemy::slime(), Enemy::bat()]),
        format!("{}が 3匹 あらわれた！", slime)
    );
    assert_eq!(encounter_message(&vec![Enemy::bat(), Enemy::slime()]), format!("{}が 2匹 あらわれた！", EnemyKind::Bat.name()));
}

#[test]
fn menu_window_scrolls_around_the_cursor() {
    let labels: Vec<String> = (0..10).map(|i| format!("l{}", i)).collect();
    let w = menu_window(&labels, 7, Some(6), &vec![8, 20], 16);
    assert_eq!(w.slots.len(), 16);
    let shown: Vec<Option<(String, bool)>> =
        w.slots.iter().map(|s| s.as_ref().map(|s| (s.text.clone(), s.disabled))).collect();
    assert_eq!(shown[0], Some(("  l4".to_string(), false)));
    assert_eq!(shown[3], Some(("> l7".to_string(), false)));
    assert_eq!(shown[4], Some(("  l8".to_string(), true)));
    assert_eq!(shown[5], Some(("  l9".to_string(), false)));
    assert!(shown[6..].iter().all(|s| s.is_none()));
    assert!(w.scroll_up);
    assert!(!w.scroll_down);
    let w = menu_window(&labels, 0, Some(6), &vec![], 8);
    assert!(!w.scroll_up);
    assert!(w.scroll_down);
    assert_eq!(w.slots[0].as_ref().map(|s| s.text.clone()), Some("> l0".to_string()));
    let w = menu_window(&labels[..3].to_vec(), 1, None, &vec![], 4);
    assert!(!w.scroll_up && !w.scroll_down);
    assert_eq!(w.slots[1].as_ref().map(|s| s.text.clone()), Some("> l1".to_string()));
    assert!(w.slots[3].is_none());
}
