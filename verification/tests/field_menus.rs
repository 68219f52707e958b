use rpg_core::battle_input::{CommandInput, InputOutcome, InputPhase, PendingCommands};
use rpg_core::battle_spell::SpellKind as FieldSpell;
use rpg_core::combat::{BattleAction, BattleState, TargetId};
use rpg_core::enemy::{Enemy, EnemyKind};
use rpg_core::field_spell::{
    alive_member_indices, field_spell_input, spell_menu_screen, FieldSpellPhase, FieldSpellState, LineTone, MenuAction,
};
use rpg_core::item::ItemKey;
use rpg_core::menu_keys::{move_clamped, move_wrapped, KeyPresses};
use rpg_core::party::{default_party, PartyMember, PartyMemberKind};
use rpg_core::party_data::character_param_table;
use rpg_core::spell::SpellKind;

fn member(kind: PartyMemberKind) -> PartyMember {
    PartyMember::from_kind(kind, &character_param_table())
}

fn keys() -> KeyPresses {
    KeyPresses::default()
}

fn confirm() -> KeyPresses {
    KeyPresses { confirm: true, ..KeyPresses::default() }
}

fn cancel() -> KeyPresses {
    KeyPresses { cancel: true, ..KeyPresses::default() }
}

fn down() -> KeyPresses {
    KeyPresses { down: true, ..KeyPresses::default() }
}

fn up() -> KeyPresses {
    KeyPresses { up: true, ..KeyPresses::default() }
}

fn right() -> KeyPresses {
    KeyPresses { right: true, ..KeyPresses::default() }
}

fn left() -> KeyPresses {
    KeyPresses { left: true, ..KeyPresses::default() }
}

#[test]
fn clamped_cursor_stops_at_ends() {
    assert_eq!(move_clamped(0, 3, true, false), 0);
    assert_eq!(move_clamped(2, 3, false, true), 2);
    assert_eq!(move_clamped(1, 3, false, true), 2);
    assert_eq!(move_clamped(1, 3, true, true), 1);
}

#[test]
fn wrapped_cursor_goes_around() {
    assert_eq!(move_wrapped(0, 4, true, false), 3);
    assert_eq!(move_wrapped(3, 4, false, true), 0);
    assert_eq!(move_wrapped(2, 4, false, true), 3);
}

#[test]
fn alive_member_indices_skips_the_fallen() {
    let mut party = default_party(&character_param_table());
    party[1].stats.hp = 0;
    assert_eq!(alive_member_indices(&party), vec![0, 2]);
}

#[test]
fn spell_menu_opens_on_confirm_only() {
    let mut party = default_party(&character_param_table());
    let mut menu: Option<FieldSpellState> = None;
    assert_eq!(field_spell_input(&mut menu, &mut party, keys(), 1000), MenuAction::Nothing);
    assert!(menu.is_none());
    assert_eq!(field_spell_input(&mut menu, &mut party, confirm(), 1000), MenuAction::OpenMenu);
    let m = menu.as_ref().unwrap();
    assert_eq!(m.phase, FieldSpellPhase::CasterSelect);
    assert_eq!(m.caster_candidates, vec![0, 1, 2]);
}

#[test]
fn spell_menu_stays_closed_when_all_have_fallen() {
    let mut party = default_party(&character_param_table());
    for m in party.iter_mut() {
        m.stats.hp = 0;
    }
    let mut menu: Option<FieldSpellState> = None;
    assert_eq!(field_spell_input(&mut menu, &mut party, confirm(), 1000), MenuAction::Nothing);
    assert!(menu.is_none());
}

#[test]
fn healing_in_the_field() {
    let mut party = default_party(&character_param_table());
    party[0].stats.hp = 10;
    let mut menu: Option<FieldSpellState> = None;
    field_spell_input(&mut menu, &mut party, confirm(), 1000);
    // Falin is third and knows Heal1.
    field_spell_input(&mut menu, &mut party, down(), 1000);
    field_spell_input(&mut menu, &mut party, down(), 1000);
    field_spell_input(&mut menu, &mut party, confirm(), 1000);
    {
        let m = menu.as_ref().unwrap();
        assert_eq!(m.phase, FieldSpellPhase::SpellSelect);
        assert_eq!(m.selected_caster, 2);
        assert_eq!(m.spell_candidates, vec![FieldSpell::Heal1]);
    }
    field_spell_input(&mut menu, &mut party, confirm(), 1000);
    assert_eq!(menu.as_ref().unwrap().phase, FieldSpellPhase::TargetSelect);
    field_spell_input(&mut menu, &mut party, confirm(), 1000);
    let m = menu.as_ref().unwrap();
    assert_eq!(m.phase, FieldSpellPhase::ShowMessage);
    assert_eq!(party[0].stats.hp, 25);
    assert_eq!(party[2].stats.mp, 9);
    assert_eq!(m.message, "ファリンは Heal1を となえた！\nライオスの HPが 15かいふく！");
}

#[test]
fn healing_stops_at_max_hp() {
    let mut party = default_party(&character_param_table());
    party[0].stats.hp = 28;
    let mut menu: Option<FieldSpellState> = None;
    field_spell_input(&mut menu, &mut party, confirm(), 1000);
    field_spell_input(&mut menu, &mut party, down(), 1000);
    field_spell_input(&mut menu, &mut party, down(), 1000);
    field_spell_input(&mut menu, &mut party, confirm(), 1000);
    field_spell_input(&mut menu, &mut party, confirm(), 1000);
    field_spell_input(&mut menu, &mut party, confirm(), 1200);
    assert_eq!(party[0].stats.hp, 30);
    assert!(menu.as_ref().unwrap().message.ends_with("18かいふく！"));
}

#[test]
fn attack_spells_do_not_work_in_the_field() {
    let mut party = default_party(&character_param_table());
    let mut menu: Option<FieldSpellState> = None;
    field_spell_input(&mut menu, &mut party, confirm(), 1000);
    field_spell_input(&mut menu, &mut party, down(), 1000);
    field_spell_input(&mut menu, &mut party, confirm(), 1000);
    field_spell_input(&mut menu, &mut party, confirm(), 1000);
    let m = menu.as_ref().unwrap();
    assert_eq!(m.phase, FieldSpellPhase::ShowMessage);
    assert_eq!(m.message, "フィールドでは つかえない");
    assert_eq!(party[1].stats.mp, 15);
}

#[test]
fn a_member_without_spells_says_so() {
    let mut party = vec![member(PartyMemberKind::Chilchuck)];
    let mut menu: Option<FieldSpellState> = None;
    field_spell_input(&mut menu, &mut party, confirm(), 1000);
    field_spell_input(&mut menu, &mut party, confirm(), 1000);
    let m = menu.as_ref().unwrap();
    assert_eq!(m.phase, FieldSpellPhase::ShowMessage);
    assert_eq!(m.message, "じゅもんを おぼえていない");
}

#[test]
fn too_little_mp_keeps_the_spell_list() {
    let mut party = default_party(&character_param_table());
    party[2].stats.mp = 2;
    let mut menu: Option<FieldSpellState> = None;
    field_spell_input(&mut menu, &mut party, confirm(), 1000);
    field_spell_input(&mut menu, &mut party, down(), 1000);
    field_spell_input(&mut menu, &mut party, down(), 1000);
    field_spell_input(&mut menu, &mut party, confirm(), 1000);
    field_spell_input(&mut menu, &mut party, confirm(), 1000);
    assert_eq!(menu.as_ref().unwrap().phase, FieldSpellPhase::SpellSelect);
}

#[test]
fn cancelling_walks_back_and_closes() {
    let mut party = default_party(&character_param_table());
    let mut menu: Option<FieldSpellState> = None;
    field_spell_input(&mut menu, &mut party, confirm(), 1000);
    field_spell_input(&mut menu, &mut party, confirm(), 1000);
    assert_eq!(menu.as_ref().unwrap().phase, FieldSpellPhase::SpellSelect);
    field_spell_input(&mut menu, &mut party, cancel(), 1000);
    assert_eq!(menu.as_ref().unwrap().phase, FieldSpellPhase::CasterSelect);
    assert_eq!(field_spell_input(&mut menu, &mut party, cancel(), 1000), MenuAction::CloseMenu);
    assert!(menu.is_none());
}

#[test]
fn message_confirm_returns_to_first_caster() {
    let mut party = vec![member(PartyMemberKind::Chilchuck), member(PartyMemberKind::Chilchuck)];
    let mut menu: Option<FieldSpellState> = None;
    field_spell_input(&mut menu, &mut party, confirm(), 1000);
    field_spell_input(&mut menu, &mut party, down(), 1000);
    field_spell_input(&mut menu, &mut party, confirm(), 1000);
    assert_eq!(menu.as_ref().unwrap().phase, FieldSpellPhase::ShowMessage);
    field_spell_input(&mut menu, &mut party, confirm(), 1000);
    let m = menu.as_ref().unwrap();
    assert_eq!(m.phase, FieldSpellPhase::CasterSelect);
    assert_eq!(m.caster_cursor, 0);
}

// ---- battle commands ----

fn battle_of(party: Vec<PartyMember>) -> BattleState {
    BattleState::new(party, vec![Enemy::new(EnemyKind::Slime, 1), Enemy::new(EnemyKind::Slime, 1)])
}

#[test]
fn pending_commands_fill_the_gaps() {
    let mut p = PendingCommands::new(3);
    p.set(1, BattleAction::Flee);
    let cmds = p.to_commands();
    assert_eq!(cmds.len(), 3);
    assert_eq!(cmds[0], BattleAction::Attack { target: TargetId::Enemy(0) });
    assert_eq!(cmds[1], BattleAction::Flee);
    p.remove(1);
    assert_eq!(p.commands[1], None);
    p.set(2, BattleAction::Flee);
    p.clear();
    assert!(p.commands.iter().all(|c| c.is_none()));
}

#[test]
fn command_input_starts_with_first_living_member() {
    let mut party = default_party(&character_param_table());
    party[0].stats.hp = 0;
    let battle = battle_of(party);
    let input = CommandInput::new(&battle).unwrap();
    assert_eq!(input.phase, InputPhase::CommandSelect { member_index: 1 });
}

#[test]
fn command_input_none_when_party_has_fallen() {
    let mut party = default_party(&character_param_table());
    for m in party.iter_mut() {
        m.stats.hp = 0;
    }
    let battle = battle_of(party);
    assert!(CommandInput::new(&battle).is_none());
}

#[test]
fn attacks_for_everyone_then_turn() {
    let table = character_param_table();
    let battle = battle_of(default_party(&table));
    let mut input = CommandInput::new(&battle).unwrap();
    // Laios attacks the second slime.
    assert_eq!(input.handle_keys(&battle, &table, confirm()), InputOutcome::Waiting);
    assert_eq!(input.phase, InputPhase::TargetSelect { member_index: 0 });
    input.handle_keys(&battle, &table, right());
    input.handle_keys(&battle, &table, confirm());
    assert_eq!(input.phase, InputPhase::CommandSelect { member_index: 1 });
    // Marcille attacks the first.
    input.handle_keys(&battle, &table, confirm());
    input.handle_keys(&battle, &table, confirm());
    // Falin attacks, wrapping left to the second.
    input.handle_keys(&battle, &table, confirm());
    input.handle_keys(&battle, &table, left());
    assert_eq!(input.handle_keys(&battle, &table, confirm()), InputOutcome::ExecuteTurn);
    let cmds = input.pending_commands.to_commands();
    assert_eq!(cmds, vec![
        BattleAction::Attack { target: TargetId::Enemy(1) },
        BattleAction::Attack { target: TargetId::Enemy(0) },
        BattleAction::Attack { target: TargetId::Enemy(1) },
    ]);
}

#[test]
fn escape_sets_flee_for_all() {
    let table = character_param_table();
    let battle = battle_of(default_party(&table));
    let mut input = CommandInput::new(&battle).unwrap();
    input.handle_keys(&battle, &table, up());
    assert_eq!(input.selected_command, 3);
    assert_eq!(input.handle_keys(&battle, &table, confirm()), InputOutcome::ExecuteTurn);
    assert_eq!(input.pending_commands.to_commands(), vec![BattleAction::Flee; 3]);
}

#[test]
fn cancel_goes_back_to_previous_member() {
    let table = character_param_table();
    let battle = battle_of(default_party(&table));
    let mut input = CommandInput::new(&battle).unwrap();
    input.handle_keys(&battle, &table, confirm());
    input.handle_keys(&battle, &table, confirm());
    assert_eq!(input.phase, InputPhase::CommandSelect { member_index: 1 });
    assert!(input.pending_commands.commands[0].is_some());
    input.handle_keys(&battle, &table, cancel());
    assert_eq!(input.phase, InputPhase::CommandSelect { member_index: 0 });
    assert!(input.pending_commands.commands[0].is_none());
}

#[test]
fn group_spell_skips_target_choice() {
    let table = character_param_table();
    let battle = battle_of(vec![member(PartyMemberKind::Laios), member(PartyMemberKind::Falin)]);
    let mut input = CommandInput::new(&battle).unwrap();
    // Laios: spell, Blaze1 is fifth in his list.
    input.handle_keys(&battle, &table, down());
    input.handle_keys(&battle, &table, confirm());
    assert_eq!(input.phase, InputPhase::SpellSelect { member_index: 0 });
    for _ in 0..4 {
        input.handle_keys(&battle, &table, down());
    }
    input.handle_keys(&battle, &table, confirm());
    assert_eq!(input.phase, InputPhase::CommandSelect { member_index: 1 });
    assert_eq!(
        input.pending_commands.commands[0],
        Some(BattleAction::Spell { spell: SpellKind::Blaze1, target: TargetId::Enemy(0) })
    );
}

#[test]
fn healing_spell_picks_an_ally() {
    let table = character_param_table();
    let battle = battle_of(vec![member(PartyMemberKind::Falin), member(PartyMemberKind::Laios)]);
    let mut input = CommandInput::new(&battle).unwrap();
    input.handle_keys(&battle, &table, down());
    input.handle_keys(&battle, &table, confirm());
    input.handle_keys(&battle, &table, confirm());
    assert_eq!(input.phase, InputPhase::AllyTargetSelect { member_index: 0 });
    assert_eq!(input.pending_spell, Some(SpellKind::Heal1));
    input.handle_keys(&battle, &table, right());
    input.handle_keys(&battle, &table, confirm());
    assert_eq!(
        input.pending_commands.commands[0],
        Some(BattleAction::Spell { spell: SpellKind::Heal1, target: TargetId::Party(1) })
    );
    assert_eq!(input.pending_spell, None);
}

#[test]
fn member_without_spells_stays_on_commands() {
    let table = character_param_table();
    let battle = battle_of(vec![member(PartyMemberKind::Chilchuck)]);
    let mut input = CommandInput::new(&battle).unwrap();
    input.handle_keys(&battle, &table, down());
    input.handle_keys(&battle, &table, confirm());
    assert_eq!(input.phase, InputPhase::CommandSelect { member_index: 0 });
    assert_eq!(input.selected_command, 1);
}

#[test]
fn item_use_targets_an_ally() {
    let table = character_param_table();
    let mut laios = member(PartyMemberKind::Laios);
    laios.inventory.add(ItemKey::Herb, 1);
    laios.inventory.add(ItemKey::CopperKey, 1);
    let battle = battle_of(vec![laios]);
    let mut input = CommandInput::new(&battle).unwrap();
    input.handle_keys(&battle, &table, down());
    input.handle_keys(&battle, &table, down());
    input.handle_keys(&battle, &table, confirm());
    assert_eq!(input.phase, InputPhase::ItemSelect { member_index: 0 });
    // The key cannot be used in battle.
    input.handle_keys(&battle, &table, down());
    input.handle_keys(&battle, &table, confirm());
    assert_eq!(input.phase, InputPhase::ItemSelect { member_index: 0 });
    input.handle_keys(&battle, &table, up());
    input.handle_keys(&battle, &table, confirm());
    assert_eq!(input.phase, InputPhase::AllyTargetSelect { member_index: 0 });
    input.handle_keys(&battle, &table, cancel());
    assert_eq!(input.phase, InputPhase::ItemSelect { member_index: 0 });
    assert_eq!(input.pending_item, None);
    input.handle_keys(&battle, &table, confirm());
    assert_eq!(input.handle_keys(&battle, &table, confirm()), InputOutcome::ExecuteTurn);
    assert_eq!(
        input.pending_commands.commands[0],
        Some(BattleAction::UseItem { item: ItemKey::Herb, target: TargetId::Party(0) })
    );
}

#[test]
fn empty_bag_stays_on_commands() {
    let table = character_param_table();
    let battle = battle_of(vec![member(PartyMemberKind::Laios)]);
    let mut input = CommandInput::new(&battle).unwrap();
    input.handle_keys(&battle, &table, down());
    input.handle_keys(&battle, &table, down());
    input.handle_keys(&battle, &table, confirm());
    assert_eq!(input.phase, InputPhase::CommandSelect { member_index: 0 });
}

// ---- field menu ----

use rpg_core::field_menu::{
    field_menu_input, field_menu_title, handle_menu_navigation, FieldMenuPhase, FieldMenuState, TargetContext,
};

fn menu_key() -> KeyPresses {
    KeyPresses { menu: true, ..KeyPresses::default() }
}

fn open_menu(party: &mut Vec<PartyMember>) -> Option<FieldMenuState> {
    let mut menu: Option<FieldMenuState> = None;
    assert_eq!(field_menu_input(&mut menu, party, menu_key(), &vec![]), MenuAction::OpenMenu);
    menu
}

#[test]
fn field_menu_opens_with_the_menu_key() {
    let mut party = default_party(&character_param_table());
    let mut menu: Option<FieldMenuState> = None;
    assert_eq!(field_menu_input(&mut menu, &mut party, confirm(), &vec![]), MenuAction::Nothing);
    assert!(menu.is_none());
    let menu = open_menu(&mut party);
    let m = menu.as_ref().unwrap();
    assert!(matches!(m.phase, FieldMenuPhase::TopMenu { cursor: 0 }));
    assert_eq!(m.menu_labels(), vec!["じゅもん".to_string(), "どうぐ".to_string()]);
    assert!(m.is_active());
    assert_eq!(m.selected(), 0);
    assert_eq!(m.visible_items(), None);
}

#[test]
fn field_menu_lists_casters_with_their_gauges() {
    let mut party = default_party(&character_param_table());
    party[1].stats.hp = 0;
    let mut menu = open_menu(&mut party);
    field_menu_input(&mut menu, &mut party, confirm(), &vec![]);
    let m = menu.as_ref().unwrap();
    assert_eq!(
        m.menu_labels(),
        vec!["ライオス HP:30/30 MP:5/5".to_string(), "ファリン HP:25/25 MP:12/12".to_string()]
    );
}

#[test]
fn field_menu_single_heal() {
    let mut party = default_party(&character_param_table());
    party[0].stats.hp = 3;
    let mut menu = open_menu(&mut party);
    field_menu_input(&mut menu, &mut party, confirm(), &vec![]);
    field_menu_input(&mut menu, &mut party, down(), &vec![]);
    field_menu_input(&mut menu, &mut party, down(), &vec![]);
    field_menu_input(&mut menu, &mut party, confirm(), &vec![]);
    {
        let m = menu.as_ref().unwrap();
        assert!(matches!(m.phase, FieldMenuPhase::SpellSelect { caster: 2, .. }));
        assert_eq!(m.menu_labels(), vec!["Heal1 (3)".to_string()]);
        assert_eq!(m.visible_items(), Some(6));
        assert!(!m.is_disabled(0));
    }
    field_menu_input(&mut menu, &mut party, confirm(), &vec![]);
    assert!(matches!(menu.as_ref().unwrap().phase, FieldMenuPhase::TargetSelect { context: TargetContext::Spell { .. }, .. }));
    field_menu_input(&mut menu, &mut party, confirm(), &vec![800]);
    let m = menu.as_ref().unwrap();
    match &m.phase {
        FieldMenuPhase::ShowMessage { message } => {
            assert_eq!(message, "ファリンは Heal1を となえた！\nライオスの HPが 12かいふく！");
        }
        _ => panic!("expected a message"),
    }
    assert!(!m.is_active());
    assert_eq!(party[0].stats.hp, 15);
    assert_eq!(party[2].stats.mp, 9);
}

#[test]
fn field_menu_heals_the_whole_party() {
    let mut party = default_party(&character_param_table());
    party[0].stats.mp = 20;
    party[0].stats.hp = 10;
    party[1].stats.hp = 19;
    party[2].stats.hp = 0;
    let mut menu = open_menu(&mut party);
    field_menu_input(&mut menu, &mut party, confirm(), &vec![]);
    field_menu_input(&mut menu, &mut party, confirm(), &vec![]);
    // Healall1 is eighth in Laios's list.
    for _ in 0..7 {
        field_menu_input(&mut menu, &mut party, down(), &vec![]);
    }
    field_menu_input(&mut menu, &mut party, confirm(), &vec![1000, 1000]);
    match &menu.as_ref().unwrap().phase {
        FieldMenuPhase::ShowMessage { message } => {
            assert_eq!(message, "ライオスは Healall1を となえた！\nライオスの HPが 10かいふく！\nマルシルの HPが 10かいふく！");
        }
        _ => panic!("expected a message"),
    }
    assert_eq!(party[0].stats.hp, 20);
    assert_eq!(party[0].stats.mp, 14);
    assert_eq!(party[1].stats.hp, 20);
    assert_eq!(party[2].stats.hp, 0);
}

#[test]
fn field_menu_greys_out_spells_beyond_mp() {
    let mut party = default_party(&character_param_table());
    let mut menu = open_menu(&mut party);
    field_menu_input(&mut menu, &mut party, confirm(), &vec![]);
    field_menu_input(&mut menu, &mut party, confirm(), &vec![]);
    let m = menu.as_ref().unwrap();
    // Laios has 5 MP: Fire2 (7) and Blaze2 (10) are out of reach.
    assert!(!m.is_disabled(0));
    assert!(m.is_disabled(3));
    assert!(m.is_disabled(5));
    assert!(!m.is_disabled(4));
}

#[test]
fn field_menu_attack_spells_stay_in_battle() {
    let mut party = default_party(&character_param_table());
    let mut menu = open_menu(&mut party);
    field_menu_input(&mut menu, &mut party, confirm(), &vec![]);
    field_menu_input(&mut menu, &mut party, confirm(), &vec![]);
    field_menu_input(&mut menu, &mut party, down(), &vec![]);
    field_menu_input(&mut menu, &mut party, down(), &vec![]);
    field_menu_input(&mut menu, &mut party, confirm(), &vec![]);
    match &menu.as_ref().unwrap().phase {
        FieldMenuPhase::ShowMessage { message } => assert_eq!(message, "フィールドでは つかえない"),
        _ => panic!("expected a message"),
    }
    assert_eq!(party[0].stats.mp, 5);
}

#[test]
fn field_menu_items_heal_equip_and_examine() {
    let mut party = default_party(&character_param_table());
    party[0].stats.hp = 1;
    party[0].inventory.add(ItemKey::Herb, 2);
    party[0].inventory.add(ItemKey::IronSword, 1);
    party[0].inventory.add(ItemKey::MoonFragment, 1);
    let mut menu = open_menu(&mut party);
    field_menu_input(&mut menu, &mut party, down(), &vec![]);
    field_menu_input(&mut menu, &mut party, confirm(), &vec![]);
    assert!(matches!(menu.as_ref().unwrap().phase, FieldMenuPhase::MemberSelect { .. }));
    assert_eq!(menu.as_ref().unwrap().menu_labels()[0], "ライオス HP:1/30");
    field_menu_input(&mut menu, &mut party, confirm(), &vec![]);
    assert_eq!(
        menu.as_ref().unwrap().menu_labels(),
        vec!["やくそう x2".to_string(), "つきのかけら x1".to_string(), "てつのつるぎ ATK+5 x1".to_string()]
    );
    // Use a herb on Laios.
    field_menu_input(&mut menu, &mut party, confirm(), &vec![]);
    field_menu_input(&mut menu, &mut party, confirm(), &vec![1000]);
    match &menu.as_ref().unwrap().phase {
        FieldMenuPhase::ShowMessage { message } => {
            assert_eq!(message, "ライオスは やくそうを つかった！\nライオスの HPが 25かいふく！");
        }
        _ => panic!("expected a message"),
    }
    assert_eq!(party[0].stats.hp, 26);
    assert_eq!(party[0].inventory.count(ItemKey::Herb), 1);
    // Back to the top, then equip the sword.
    field_menu_input(&mut menu, &mut party, confirm(), &vec![]);
    field_menu_input(&mut menu, &mut party, down(), &vec![]);
    field_menu_input(&mut menu, &mut party, confirm(), &vec![]);
    field_menu_input(&mut menu, &mut party, confirm(), &vec![]);
    field_menu_input(&mut menu, &mut party, down(), &vec![]);
    field_menu_input(&mut menu, &mut party, down(), &vec![]);
    field_menu_input(&mut menu, &mut party, confirm(), &vec![]);
    match &menu.as_ref().unwrap().phase {
        FieldMenuPhase::ShowMessage { message } => assert_eq!(message, "ライオスは てつのつるぎを そうびした！"),
        _ => panic!("expected a message"),
    }
    assert_eq!(party[0].equipment.weapon, Some(ItemKey::IronSword));
    // The equipped sword is marked; the fragment is looked at.
    field_menu_input(&mut menu, &mut party, confirm(), &vec![]);
    field_menu_input(&mut menu, &mut party, down(), &vec![]);
    field_menu_input(&mut menu, &mut party, confirm(), &vec![]);
    field_menu_input(&mut menu, &mut party, confirm(), &vec![]);
    assert_eq!(menu.as_ref().unwrap().menu_labels()[2], "E てつのつるぎ ATK+5 x1");
    field_menu_input(&mut menu, &mut party, down(), &vec![]);
    field_menu_input(&mut menu, &mut party, confirm(), &vec![]);
    match &menu.as_ref().unwrap().phase {
        FieldMenuPhase::ShowMessage { message } => {
            assert_eq!(message, "ライオスは つきのかけらを しらべた。\nほこらの とびらを ひらく ふしぎな かけら");
        }
        _ => panic!("expected a message"),
    }
    assert_eq!(field_menu_input(&mut menu, &mut party, cancel(), &vec![]), MenuAction::CloseMenu);
    assert!(menu.is_none());
}

#[test]
fn field_menu_reports_an_empty_bag() {
    let mut party = default_party(&character_param_table());
    let mut menu = open_menu(&mut party);
    field_menu_input(&mut menu, &mut party, down(), &vec![]);
    field_menu_input(&mut menu, &mut party, confirm(), &vec![]);
    field_menu_input(&mut menu, &mut party, confirm(), &vec![]);
    match &menu.as_ref().unwrap().phase {
        FieldMenuPhase::ShowMessage { message } => assert_eq!(message, "もちものが ない"),
        _ => panic!("expected a message"),
    }
}

#[test]
fn field_menu_new_builds_its_lines() {
    let party = default_party(&character_param_table());
    let m = FieldMenuState::new(FieldMenuPhase::MemberSelect { candidates: vec![2, 0], cursor: 1 }, &party);
    assert_eq!(m.menu_labels(), vec!["ファリン HP:25/25".to_string(), "ライオス HP:30/30".to_string()]);
    assert_eq!(m.selected(), 1);
}

#[test]
fn field_menu_cursor_can_be_set() {
    let party = default_party(&character_param_table());
    let mut m = FieldMenuState::new(FieldMenuPhase::TopMenu { cursor: 0 }, &party);
    m.set_selected(1);
    assert_eq!(m.selected(), 1);
    let mut shown = FieldMenuState::new(FieldMenuPhase::ShowMessage { message: "x".to_string() }, &party);
    shown.set_selected(3);
    assert_eq!(shown.selected(), 0);
    assert!(shown.menu_labels().is_empty());
}

fn spell_menu(phase: FieldSpellPhase) -> FieldSpellState {
    FieldSpellState {
        phase,
        caster_candidates: vec![0, 2],
        caster_cursor: 1,
        selected_caster: 1,
        spell_candidates: vec![FieldSpell::Heal1, FieldSpell::Heal2],
        spell_cursor: 0,
        target_candidates: vec![1, 0],
        target_cursor: 0,
        message: "おわり".to_string(),
    }
}

#[test]
fn spell_menu_screen_lists_casters_with_gauges() {
    let mut party = vec![member(PartyMemberKind::Laios), member(PartyMemberKind::Marcille), member(PartyMemberKind::Falin)];
    party[2].stats.hp = 5;
    let screen = spell_menu_screen(&spell_menu(FieldSpellPhase::CasterSelect), &party);
    assert_eq!(screen.title, "だれが じゅもんを つかう？");
    assert_eq!(screen.lines.len(), 2);
    let l = &party[0].stats;
    assert_eq!(
        screen.lines[0].text,
        format!("  {} HP:{}/{} MP:{}/{}", PartyMemberKind::Laios.name(), l.hp, l.max_hp, l.mp, l.max_mp)
    );
    assert_eq!(screen.lines[0].tone, LineTone::Unselected);
    let f = &party[2].stats;
    assert_eq!(
        screen.lines[1].text,
        format!("> {} HP:5/{} MP:{}/{}", PartyMemberKind::Falin.name(), f.max_hp, f.mp, f.max_mp)
    );
    assert_eq!(screen.lines[1].tone, LineTone::Selected);
}

#[test]
fn spell_menu_screen_greys_out_spells_beyond_the_casters_mp() {
    let mut party = vec![member(PartyMemberKind::Laios), member(PartyMemberKind::Marcille)];
    party[1].stats.mp = 5;
    let screen = spell_menu_screen(&spell_menu(FieldSpellPhase::SpellSelect), &party);
    assert_eq!(screen.title, format!("{}の じゅもん", PartyMemberKind::Marcille.name()));
    assert_eq!(screen.lines[0].text, format!("> {} ({})", FieldSpell::Heal1.name(), FieldSpell::Heal1.mp_cost()));
    assert_eq!(screen.lines[0].tone, LineTone::Selected);
    assert_eq!(screen.lines[1].text, format!("  {} ({})", FieldSpell::Heal2.name(), FieldSpell::Heal2.mp_cost()));
    assert_eq!(screen.lines[1].tone, LineTone::Disabled);
}

#[test]
fn spell_menu_screen_targets_and_messages() {
    let party = vec![member(PartyMemberKind::Laios), member(PartyMemberKind::Marcille)];
    let screen = spell_menu_screen(&spell_menu(FieldSpellPhase::TargetSelect), &party);
    assert_eq!(screen.title, "だれに つかう？");
    let m = &party[1].stats;
    assert_eq!(screen.lines[0].text, format!("> {} HP:{}/{}", PartyMemberKind::Marcille.name(), m.hp, m.max_hp));
    assert_eq!(screen.lines[1].tone, LineTone::Unselected);
    let screen = spell_menu_screen(&spell_menu(FieldSpellPhase::ShowMessage), &party);
    assert_eq!(screen.title, "おわり");
    assert!(screen.lines.is_empty());
}

#[test]
fn field_menu_title_asks_the_question_of_each_step() {
    let party = vec![member(PartyMemberKind::Laios), member(PartyMemberKind::Marcille)];
    let title = |phase: FieldMenuPhase| field_menu_title(&FieldMenuState::new(phase, &party), &party);
    assert_eq!(title(FieldMenuPhase::TopMenu { cursor: 0 }), "");
    assert_eq!(title(FieldMenuPhase::CasterSelect { candidates: vec![0, 1], cursor: 0 }), "だれが じゅもんを つかう？");
    assert_eq!(
        title(FieldMenuPhase::SpellSelect { caster: 1, spells: vec![FieldSpell::Heal1], cursor: 0 }),
        format!("{}の じゅもん", PartyMemberKind::Marcille.name())
    );
    assert_eq!(title(FieldMenuPhase::MemberSelect { candidates: vec![0], cursor: 0 }), "だれの どうぐを つかう？");
    assert_eq!(
        title(FieldMenuPhase::ItemSelect { member: 0, items: vec![ItemKey::Herb], cursor: 0 }),
        format!("{}の もちもの", PartyMemberKind::Laios.name())
    );
    assert_eq!(
        title(FieldMenuPhase::TargetSelect {
            candidates: vec![0],
            cursor: 0,
            context: TargetContext::Item { member: 0, items: vec![ItemKey::Herb], item_cursor: 0 },
        }),
        "だれに つかう？"
    );
    assert_eq!(title(FieldMenuPhase::ShowMessage { message: "やくそう".to_string() }), "やくそう");
}

#[test]
fn menu_navigation_wraps_round_the_lines() {
    let party = vec![member(PartyMemberKind::Laios)];
    let mut menu = FieldMenuState::new(FieldMenuPhase::TopMenu { cursor: 0 }, &party);
    handle_menu_navigation(&mut menu, up());
    assert_eq!(menu.selected(), 1);
    handle_menu_navigation(&mut menu, down());
    assert_eq!(menu.selected(), 0);
    handle_menu_navigation(&mut menu, down());
    handle_menu_navigation(&mut menu, down());
    assert_eq!(menu.selected(), 0);
    handle_menu_navigation(&mut menu, KeyPresses { up: true, down: true, ..KeyPresses::default() });
    assert_eq!(menu.selected(), 1);
    handle_menu_navigation(&mut menu, keys());
    assert_eq!(menu.selected(), 1);
    let mut shown = FieldMenuState::new(FieldMenuPhase::ShowMessage { message: "x".to_string() }, &party);
    handle_menu_navigation(&mut shown, down());
    assert!(!shown.is_active());
    assert_eq!(shown.selected(), 0);
}
