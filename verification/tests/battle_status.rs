use rpg_core::battle_input::{CommandInput, InputPhase};
use rpg_core::battle_screen::BattleDisplay;
use rpg_core::battle_status::{prompt_line, status_panel};
use rpg_core::combat::BattleState;
use rpg_core::enemy::{Enemy, EnemyKind};
use rpg_core::party::{default_party, PartyMemberKind};
use rpg_core::party_data::character_param_table;
use rpg_core::spell::SpellKind;

fn battle() -> BattleState {
    BattleState::new(default_party(&character_param_table()), vec![Enemy::slime(), Enemy::slime(), Enemy::bat()])
}

#[test]
fn status_panel_shows_names_levels_and_shown_gauges() {
    let b = battle();
    let mut display = BattleDisplay::new(&b);
    display.hidden_enemies[1] = true;
    display.party_hp[0] = 7;
    let input = CommandInput::new(&b).unwrap();
    let panel = status_panel(&b, &display, &input);
    let slime = EnemyKind::Slime.name();
    let bat = EnemyKind::Bat.name();
    assert_eq!(panel.enemy_labels, vec![Some(format!("{}A", slime)), None, Some(bat.to_string())]);
    assert_eq!(panel.members.len(), 3);
    let laios = &b.party[0];
    assert_eq!(panel.members[0].name_line, format!("{} Lv.{}", PartyMemberKind::Laios.name(), laios.level));
    assert_eq!(panel.members[0].hp_line, format!("HP:7/{}", laios.stats.max_hp));
    assert_eq!(panel.members[0].mp_line, format!("MP:{}/{}", laios.stats.mp, laios.stats.max_mp));
    let marcille = &b.party[1];
    assert_eq!(panel.members[1].hp_line, format!("HP:{}/{}", marcille.stats.hp, marcille.stats.max_hp));
    assert!(panel.members.iter().all(|m| !m.highlighted));
    assert_eq!(panel.target_cursor, None);
    assert_eq!(panel.prompt, format!("{}の コマンド？", PartyMemberKind::Laios.name()));
}

#[test]
fn status_panel_gauges_without_shown_values_read_zero() {
    let b = battle();
    let mut display = BattleDisplay::new(&b);
    display.party_hp.clear();
    display.party_mp.truncate(1);
    display.hidden_enemies.clear();
    let input = CommandInput::new(&b).unwrap();
    let panel = status_panel(&b, &display, &input);
    assert_eq!(panel.members[2].hp_line, format!("HP:0/{}", b.party[2].stats.max_hp));
    assert_eq!(panel.members[2].mp_line, format!("MP:0/{}", b.party[2].stats.max_mp));
    assert_eq!(panel.enemy_labels, vec![None, None, None]);
}

#[test]
fn target_cursor_follows_the_living_enemies() {
    let mut b = battle();
    let display = BattleDisplay::new(&b);
    let mut input = CommandInput::new(&b).unwrap();
    input.phase = InputPhase::TargetSelect { member_index: 0 };
    input.target_offset = 1;
    assert_eq!(status_panel(&b, &display, &input).target_cursor, Some(1));
    b.enemies[0].stats.hp = 0;
    assert_eq!(status_panel(&b, &display, &input).target_cursor, Some(2));
    input.target_offset = 2;
    assert_eq!(status_panel(&b, &display, &input).target_cursor, None);
    assert_eq!(status_panel(&b, &display, &input).prompt, "だれに こうげきする？");
    input.pending_spell = Some(SpellKind::Fire1);
    assert_eq!(status_panel(&b, &display, &input).prompt, "だれに つかう？");
}

#[test]
fn ally_target_is_highlighted_among_the_living() {
    let mut b = battle();
    b.party[0].stats.hp = 0;
    let display = BattleDisplay::new(&b);
    let mut input = CommandInput::new(&b).unwrap();
    input.phase = InputPhase::AllyTargetSelect { member_index: 1 };
    input.ally_target_offset = 1;
    let panel = status_panel(&b, &display, &input);
    assert_eq!(panel.members.iter().map(|m| m.highlighted).collect::<Vec<_>>(), vec![false, false, true]);
    assert_eq!(panel.prompt, "だれに つかう？");
    assert_eq!(panel.target_cursor, None);
}

#[test]
fn prompts_name_the_member_choosing() {
    let b = battle();
    let mut input = CommandInput::new(&b).unwrap();
    input.phase = InputPhase::SpellSelect { member_index: 1 };
    assert_eq!(prompt_line(&b.party, &input), format!("{}は どの じゅもんを つかう？", PartyMemberKind::Marcille.name()));
    input.phase = InputPhase::ItemSelect { member_index: 2 };
    assert_eq!(prompt_line(&b.party, &input), format!("{}は どの どうぐを つかう？", PartyMemberKind::Falin.name()));
}
