use rpg_core::combat::{
    ActorId, BattleAction, BattleState, BuffStat, TargetId, TurnRandomFactors, TurnResult,
};
use rpg_core::enemy::{Enemy, EnemyKind};
use rpg_core::item::ItemKey;
use rpg_core::party::{default_party, PartyMember, PartyMemberKind};
use rpg_core::party_data::character_param_table;
use rpg_core::spell::{Ailment, SpellKind, POISON_DAMAGE};

fn member(kind: PartyMemberKind) -> PartyMember {
    PartyMember::from_kind(kind, &character_param_table())
}

fn party_of_three() -> Vec<PartyMember> {
    default_party(&character_param_table())
}

fn make_random(damage_randoms: Vec<u32>, flee_random: u32) -> TurnRandomFactors {
    TurnRandomFactors { damage_randoms, flee_random, spell_randoms: vec![1000; 10] }
}

fn make_random_with_spells(damage_randoms: Vec<u32>, flee_random: u32, spell_randoms: Vec<u32>) -> TurnRandomFactors {
    TurnRandomFactors { damage_randoms, flee_random, spell_randoms }
}

fn attack(i: usize) -> BattleAction {
    BattleAction::Attack { target: TargetId::Enemy(i) }
}

#[test]
fn basic_3v2_turn() {
    let mut battle = BattleState::new(party_of_three(), vec![Enemy::slime(), Enemy::slime()]);
    let commands = vec![attack(0), attack(1), attack(0)];
    let randoms = make_random(vec![1000; 5], 0);
    let results = battle.execute_turn(&commands, &randoms);
    let attack_count = results.iter().filter(|r| matches!(r, TurnResult::Attack { .. })).count();
    assert!(attack_count >= 3);
}

#[test]
fn speed_ordering() {
    let mut battle = BattleState::new(party_of_three(), vec![Enemy::slime()]);
    let commands = vec![attack(0), attack(0), attack(0)];
    let randoms = make_random(vec![1000; 4], 0);
    let results = battle.execute_turn(&commands, &randoms);
    let first_attack = results.iter().find(|r| matches!(r, TurnResult::Attack { .. }));
    assert!(matches!(first_attack, Some(TurnResult::Attack { attacker: ActorId::Party(1), .. })));
}

#[test]
fn retarget_when_enemy_already_defeated() {
    let party = vec![member(PartyMemberKind::Laios), member(PartyMemberKind::Marcille)];
    let mut battle = BattleState::new(party, vec![Enemy::slime(), Enemy::slime()]);
    battle.enemies[0].stats.hp = 0;
    let commands = vec![attack(0), attack(1)];
    let randoms = make_random(vec![1000; 3], 0);
    let results = battle.execute_turn(&commands, &randoms);
    for result in &results {
        if let TurnResult::Attack { attacker: ActorId::Party(0), target, .. } = result {
            assert_eq!(*target, TargetId::Enemy(1));
        }
    }
}

#[test]
fn flee_success() {
    let mut battle = BattleState::new(party_of_three(), vec![Enemy::slime()]);
    let commands = vec![BattleAction::Flee, attack(0), attack(0)];
    let randoms = make_random(vec![1000], 300);
    let results = battle.execute_turn(&commands, &randoms);
    assert_eq!(results, vec![TurnResult::Fled]);
    assert!(battle.is_over());
}

#[test]
fn flee_failure() {
    let mut battle = BattleState::new(party_of_three(), vec![Enemy::slime()]);
    let commands = vec![BattleAction::Flee, attack(0), attack(0)];
    let randoms = make_random(vec![1000], 700);
    let results = battle.execute_turn(&commands, &randoms);
    assert!(matches!(results[0], TurnResult::FleeFailed));
    let enemy_attacks = results
        .iter()
        .filter(|r| matches!(r, TurnResult::Attack { attacker: ActorId::Enemy(_), .. }))
        .count();
    assert!(enemy_attacks > 0);
    assert!(!battle.is_over());
}

#[test]
fn victory_detection() {
    let mut battle = BattleState::new(party_of_three(), vec![Enemy::slime()]);
    battle.enemies[0].stats.hp = 0;
    assert!(battle.is_victory());
    assert!(battle.is_over());
    assert!(!battle.is_party_wiped());
}

#[test]
fn party_wipe_detection() {
    let mut battle = BattleState::new(party_of_three(), vec![Enemy::slime()]);
    for m in &mut battle.party {
        m.stats.hp = 0;
    }
    assert!(battle.is_party_wiped());
    assert!(battle.is_over());
    assert!(!battle.is_victory());
}

#[test]
fn zola_spell_damages_enemy() {
    let mut battle = BattleState::new(party_of_three(), vec![Enemy::slime()]);
    let mage_mp_before = battle.party[1].stats.mp;
    let commands = vec![
        attack(0),
        BattleAction::Spell { spell: SpellKind::Fire1, target: TargetId::Enemy(0) },
        attack(0),
    ];
    let randoms = make_random(vec![1000; 4], 0);
    let results = battle.execute_turn(&commands, &randoms);
    let spell_results = results.iter().filter(|r| matches!(r, TurnResult::SpellDamage { .. })).count();
    assert_eq!(spell_results, 1);
    assert_eq!(battle.party[1].stats.mp, mage_mp_before - 3);
}

#[test]
fn luna_spell_restores_hp() {
    let mut slime = Enemy::slime();
    slime.stats.hp = 999;
    slime.stats.max_hp = 999;
    let mut battle = BattleState::new(party_of_three(), vec![slime]);
    battle.party[0].stats.hp = 10;
    let commands = vec![
        attack(0),
        attack(0),
        BattleAction::Spell { spell: SpellKind::Heal1, target: TargetId::Party(0) },
    ];
    let randoms = make_random(vec![1000; 4], 0);
    let results = battle.execute_turn(&commands, &randoms);
    let heal_results = results.iter().filter(|r| matches!(r, TurnResult::Healed { .. })).count();
    assert_eq!(heal_results, 1);
    assert!(battle.party[0].stats.hp > 10);
    assert!(battle.party[0].stats.hp <= battle.party[0].stats.max_hp);
}

#[test]
fn heal_retargets_to_alive_ally() {
    let mut battle = BattleState::new(party_of_three(), vec![Enemy::slime()]);
    battle.party[0].stats.hp = 0;
    let commands = vec![
        attack(0),
        BattleAction::Spell { spell: SpellKind::Heal1, target: TargetId::Party(0) },
    ];
    let randoms = make_random(vec![1000; 3], 0);
    let results = battle.execute_turn(&commands, &randoms);
    for result in &results {
        if let TurnResult::Healed { target, .. } = result {
            assert_eq!(*target, TargetId::Party(1));
        }
    }
}

#[test]
fn dead_hero_priest_still_attacks() {
    let mut slime = Enemy::slime();
    slime.stats.hp = 999;
    slime.stats.max_hp = 999;
    let mut battle = BattleState::new(party_of_three(), vec![slime]);
    battle.party[0].stats.hp = 0;
    let commands = vec![attack(0), attack(0), attack(0)];
    let randoms = make_random(vec![1000; 3], 0);
    let results = battle.execute_turn(&commands, &randoms);
    let count = |i: usize| {
        results
            .iter()
            .filter(|r| matches!(r, TurnResult::Attack { attacker: ActorId::Party(j), .. } if *j == i))
            .count()
    };
    assert_eq!(count(1), 1, "Marcille attacks once");
    assert_eq!(count(2), 1, "Falin attacks once");
    assert_eq!(count(0), 0, "the fallen Laios does not attack");
}

#[test]
fn neld_aoe_damages_all_enemies() {
    let party = vec![member(PartyMemberKind::Marcille)];
    let mut battle = BattleState::new(party, vec![Enemy::slime(), Enemy::slime(), Enemy::slime()]);
    let commands = vec![BattleAction::Spell { spell: SpellKind::Blaze1, target: TargetId::Enemy(0) }];
    let randoms = make_random(vec![1000; 4], 0);
    let results = battle.execute_turn(&commands, &randoms);
    let spell_hits = results.iter().filter(|r| matches!(r, TurnResult::SpellDamage { .. })).count();
    assert_eq!(spell_hits, 3, "all three enemies are hit");
}

#[test]
fn panam_aoe_heals_all_allies() {
    let mut falin = member(PartyMemberKind::Falin);
    falin.level = 3;
    let mut laios = member(PartyMemberKind::Laios);
    laios.stats.hp = 5;
    let mut marcille = member(PartyMemberKind::Marcille);
    marcille.stats.hp = 5;
    falin.stats.hp = 5;
    let party = vec![laios, marcille, falin];
    let mut slime = Enemy::slime();
    slime.stats.hp = 999;
    slime.stats.max_hp = 999;
    slime.stats.attack = 0;
    let mut battle = BattleState::new(party, vec![slime]);
    let commands = vec![
        attack(0),
        attack(0),
        BattleAction::Spell { spell: SpellKind::Healall1, target: TargetId::Party(0) },
    ];
    let randoms = make_random(vec![1000; 4], 0);
    let results = battle.execute_turn(&commands, &randoms);
    let heal_hits = results.iter().filter(|r| matches!(r, TurnResult::Healed { .. })).count();
    assert_eq!(heal_hits, 3, "all three allies are healed");
}

#[test]
fn bolga_buff_increases_attack() {
    let mut rinsha = member(PartyMemberKind::Rinsha);
    rinsha.level = 5;
    let party = vec![member(PartyMemberKind::Laios), rinsha];
    let mut slime = Enemy::slime();
    slime.stats.hp = 999;
    slime.stats.max_hp = 999;
    slime.stats.attack = 0;
    let mut battle = BattleState::new(party, vec![slime]);
    let base_attack = battle.effective_attack_with_buff(0);
    let commands = vec![
        attack(0),
        BattleAction::Spell { spell: SpellKind::Boost1, target: TargetId::Party(0) },
    ];
    let randoms = make_random(vec![1000; 3], 0);
    let results = battle.execute_turn(&commands, &randoms);
    assert!(results.iter().any(|r| matches!(r, TurnResult::Buffed { .. })), "a Buffed event");
    let buffed_attack = battle.effective_attack_with_buff(0);
    assert_eq!(buffed_attack, base_attack + 3, "ATK+3");
}

#[test]
fn garde_buff_reduces_damage_taken() {
    let mut senshi = member(PartyMemberKind::Senshi);
    senshi.level = 4;
    let party = vec![member(PartyMemberKind::Laios), senshi];
    let mut wolf = Enemy::wolf();
    wolf.stats.attack = 20;
    wolf.stats.hp = 999;
    wolf.stats.max_hp = 999;
    let mut battle = BattleState::new(party, vec![wolf]);
    let base_defense = battle.effective_defense_with_buff(0);
    let commands = vec![
        attack(0),
        BattleAction::Spell { spell: SpellKind::Shield1, target: TargetId::Party(0) },
    ];
    let randoms = make_random(vec![1000; 3], 0);
    battle.execute_turn(&commands, &randoms);
    let buffed_defense = battle.effective_defense_with_buff(0);
    assert_eq!(buffed_defense, base_defense + 3, "DEF+3");
}

#[test]
fn buff_expires_after_5_turns() {
    let mut rinsha = member(PartyMemberKind::Rinsha);
    rinsha.level = 5;
    let mut slime = Enemy::slime();
    slime.stats.hp = 999;
    slime.stats.max_hp = 999;
    slime.stats.attack = 0;
    let mut battle = BattleState::new(vec![rinsha], vec![slime]);
    let commands = vec![BattleAction::Spell { spell: SpellKind::Boost1, target: TargetId::Party(0) }];
    let randoms = make_random(vec![1000; 2], 0);
    battle.execute_turn(&commands, &randoms);
    assert!(battle.party_buffs[0].attack_up.is_some());
    for _ in 0..4 {
        let commands = vec![attack(0)];
        let randoms = make_random(vec![1000; 2], 0);
        let results = battle.execute_turn(&commands, &randoms);
        if battle.party_buffs[0].attack_up.is_none() {
            let expired = results.iter().any(|r| matches!(r, TurnResult::BuffExpired { .. }));
            assert!(expired, "a BuffExpired event");
        }
    }
    assert!(battle.party_buffs[0].attack_up.is_none(), "the buff is gone after five turns");
}

#[test]
fn buff_overwrite_resets_duration() {
    let mut rinsha = member(PartyMemberKind::Rinsha);
    rinsha.level = 7;
    rinsha.stats.mp = 99;
    rinsha.stats.max_mp = 99;
    let mut slime = Enemy::slime();
    slime.stats.hp = 999;
    slime.stats.max_hp = 999;
    slime.stats.attack = 0;
    let mut battle = BattleState::new(vec![rinsha], vec![slime]);
    let commands = vec![BattleAction::Spell { spell: SpellKind::Boost1, target: TargetId::Party(0) }];
    let randoms = make_random(vec![1000; 2], 0);
    battle.execute_turn(&commands, &randoms);
    assert_eq!(battle.party_buffs[0].attack_up.unwrap().amount, 3);
    for _ in 0..3 {
        let commands = vec![attack(0)];
        let randoms = make_random(vec![1000; 2], 0);
        battle.execute_turn(&commands, &randoms);
    }
    assert!(battle.party_buffs[0].attack_up.is_some());
    let commands = vec![BattleAction::Spell { spell: SpellKind::Boost2, target: TargetId::Party(0) }];
    let randoms = make_random(vec![1000; 2], 0);
    battle.execute_turn(&commands, &randoms);
    let buff = battle.party_buffs[0].attack_up.unwrap();
    assert_eq!(buff.amount, 6, "ATK+6 after the overwrite");
    assert_eq!(buff.remaining_turns, 4, "four turns left after the tick");
}

#[test]
fn enemy_spell_damages_party() {
    let mut battle = BattleState::new(vec![member(PartyMemberKind::Laios)], vec![Enemy::ghost()]);
    let hp_before = battle.party[0].stats.hp;
    let commands = vec![attack(0)];
    let randoms = make_random_with_spells(vec![1000; 2], 0, vec![0]);
    let results = battle.execute_turn(&commands, &randoms);
    let spell_hits = results
        .iter()
        .filter(|r| matches!(r, TurnResult::SpellDamage { caster: ActorId::Enemy(0), .. }))
        .count();
    assert!(spell_hits > 0, "the ghost casts Fire1");
    assert!(battle.party[0].stats.hp < hp_before, "the party takes damage");
}

#[test]
fn enemy_falls_back_to_attack_when_mp_empty() {
    let mut ghost = Enemy::ghost();
    ghost.stats.mp = 0;
    let mut battle = BattleState::new(vec![member(PartyMemberKind::Laios)], vec![ghost]);
    let commands = vec![attack(0)];
    let randoms = make_random_with_spells(vec![1000; 2], 0, vec![0]);
    let results = battle.execute_turn(&commands, &randoms);
    let enemy_attacks = results
        .iter()
        .filter(|r| matches!(r, TurnResult::Attack { attacker: ActorId::Enemy(0), .. }))
        .count();
    assert!(enemy_attacks > 0, "without MP the enemy strikes instead");
}

#[test]
fn enemy_heal_spell_restores_hp() {
    let mut dark_lord = Enemy::dark_lord();
    dark_lord.stats.hp = 50;
    let mut battle = BattleState::new(vec![member(PartyMemberKind::Laios)], vec![dark_lord]);
    battle.enemies[0].stats.mp = 7;
    battle.enemies[0].stats.mp = 50;
    let hp_before = battle.enemies[0].stats.hp;
    let results = battle.execute_enemy_spell(0, SpellKind::Heal2, 1000);
    assert!(results.iter().any(|r| matches!(r, TurnResult::Healed { .. })), "a Healed event");
    assert!(battle.enemies[0].stats.hp > hp_before, "the enemy's HP goes up");
}

#[test]
fn enemy_aoe_spell_hits_all_party() {
    let party = vec![
        member(PartyMemberKind::Laios),
        member(PartyMemberKind::Marcille),
        member(PartyMemberKind::Falin),
    ];
    let dragon = Enemy::new(EnemyKind::Dragon, 1);
    let mut battle = BattleState::new(party, vec![dragon]);
    let commands = vec![attack(0), attack(0), attack(0)];
    let randoms = make_random_with_spells(vec![1000; 4], 0, vec![0]);
    let results = battle.execute_turn(&commands, &randoms);
    let spell_hits = results
        .iter()
        .filter(|r| matches!(r, TurnResult::SpellDamage { caster: ActorId::Enemy(0), .. }))
        .count();
    assert_eq!(spell_hits, 3, "Blaze2 hits the whole party");
}

#[test]
fn sleeping_actor_skips_turn() {
    let mut slime = Enemy::slime();
    slime.stats.hp = 999;
    slime.stats.max_hp = 999;
    slime.stats.attack = 0;
    let mut battle = BattleState::new(vec![member(PartyMemberKind::Laios)], vec![slime]);
    battle.party_ailments[0].sleep = true;
    let commands = vec![attack(0)];
    let randoms = make_random(vec![1000; 2], 0);
    let results = battle.execute_turn(&commands, &randoms);
    let sleeping = results.iter().any(|r| matches!(r, TurnResult::Sleeping { actor: ActorId::Party(0) }));
    assert!(sleeping, "a sleeper reports Sleeping");
    let attacks = results
        .iter()
        .filter(|r| matches!(r, TurnResult::Attack { attacker: ActorId::Party(0), .. }))
        .count();
    assert_eq!(attacks, 0, "a sleeper does not attack");
}

#[test]
fn sleeping_enemy_skips_turn() {
    let mut slime = Enemy::slime();
    slime.stats.hp = 999;
    slime.stats.max_hp = 999;
    slime.stats.speed = 99;
    let mut battle = BattleState::new(vec![member(PartyMemberKind::Laios)], vec![slime]);
    battle.enemy_ailments[0].sleep = true;
    let commands = vec![attack(0)];
    let randoms = make_random(vec![1000; 2], 0);
    let results = battle.execute_turn(&commands, &randoms);
    let sleeping = results.iter().any(|r| matches!(r, TurnResult::Sleeping { actor: ActorId::Enemy(0) }));
    assert!(sleeping, "a sleeping enemy reports Sleeping");
    let enemy_attacks = results
        .iter()
        .filter(|r| matches!(r, TurnResult::Attack { attacker: ActorId::Enemy(0), .. }))
        .count();
    assert_eq!(enemy_attacks, 0, "a sleeping enemy does not attack");
}

#[test]
fn poison_damage_at_turn_end() {
    let mut slime = Enemy::slime();
    slime.stats.hp = 999;
    slime.stats.max_hp = 999;
    slime.stats.attack = 0;
    let mut battle = BattleState::new(vec![member(PartyMemberKind::Laios)], vec![slime]);
    battle.party_ailments[0].poison = true;
    let commands = vec![attack(0)];
    let randoms = make_random(vec![1000; 2], 0);
    let results = battle.execute_turn(&commands, &randoms);
    let poison_dmg = results
        .iter()
        .any(|r| matches!(r, TurnResult::PoisonDamage { target: TargetId::Party(0), .. }));
    assert!(poison_dmg, "poison bites");
    let hp_after = battle.party[0].stats.hp;
    let max_hp = battle.party[0].stats.max_hp;
    assert!(hp_after <= max_hp - POISON_DAMAGE, "at least the poison damage is lost");
}

#[test]
fn poison_damage_on_enemy() {
    let mut slime = Enemy::slime();
    slime.stats.hp = 999;
    slime.stats.max_hp = 999;
    slime.stats.attack = 0;
    let mut battle = BattleState::new(vec![member(PartyMemberKind::Laios)], vec![slime]);
    battle.enemy_ailments[0].poison = true;
    let commands = vec![attack(0)];
    let randoms = make_random(vec![1000; 2], 0);
    let results = battle.execute_turn(&commands, &randoms);
    let poison_dmg = results
        .iter()
        .any(|r| matches!(r, TurnResult::PoisonDamage { target: TargetId::Enemy(0), .. }));
    assert!(poison_dmg, "poison bites the enemy");
}

#[test]
fn attack_wakes_up_sleeping_enemy() {
    let mut slime = Enemy::slime();
    slime.stats.hp = 999;
    slime.stats.max_hp = 999;
    slime.stats.attack = 0;
    let mut battle = BattleState::new(vec![member(PartyMemberKind::Laios)], vec![slime]);
    battle.enemy_ailments[0].sleep = true;
    let commands = vec![attack(0)];
    let randoms = make_random(vec![1000; 2], 0);
    let results = battle.execute_turn(&commands, &randoms);
    let cured = results.iter().any(|r| {
        matches!(r, TurnResult::AilmentCured { target: TargetId::Enemy(0), ailment: Ailment::Sleep })
    });
    assert!(cured, "the blow wakes the sleeper");
    assert!(!battle.enemy_ailments[0].sleep, "the sleep flag is cleared");
}

#[test]
fn ailment_spell_success_and_failure() {
    let mut marcille = member(PartyMemberKind::Marcille);
    marcille.level = 8;
    marcille.stats.mp = 99;
    marcille.stats.max_mp = 99;
    let party = vec![marcille.clone(), marcille];
    let mut slime = Enemy::slime();
    slime.stats.hp = 999;
    slime.stats.max_hp = 999;
    slime.stats.attack = 0;
    let mut battle = BattleState::new(party, vec![slime]);
    let commands = vec![
        BattleAction::Spell { spell: SpellKind::Sleep1, target: TargetId::Enemy(0) },
        attack(0),
    ];
    let randoms = make_random(vec![500; 3], 0);
    let results = battle.execute_turn(&commands, &randoms);
    let inflicted = results
        .iter()
        .any(|r| matches!(r, TurnResult::AilmentInflicted { ailment: Ailment::Sleep, .. }));
    assert!(inflicted, "within the rate the ailment lands");

    battle.enemy_ailments[0].sleep = false;

    let commands = vec![
        BattleAction::Spell { spell: SpellKind::Sleep1, target: TargetId::Enemy(0) },
        attack(0),
    ];
    let randoms = make_random(vec![900; 3], 0);
    let results = battle.execute_turn(&commands, &randoms);
    let resisted = results.iter().any(|r| matches!(r, TurnResult::AilmentResisted { .. }));
    assert!(resisted, "past the rate the ailment is resisted");
    assert!(!battle.enemy_ailments[0].sleep, "a resisted sleep leaves the flag off");
}

// ---- further cases ----

#[test]
fn flee_success_changes_nothing_but_the_log() {
    let mut battle = BattleState::new(party_of_three(), vec![Enemy::slime()]);
    let hp_before: Vec<i32> = battle.party.iter().map(|m| m.stats.hp).collect();
    let enemy_hp_before = battle.enemies[0].stats.hp;
    let commands = vec![attack(0), BattleAction::Flee, attack(0)];
    let results = battle.execute_turn(&commands, &make_random(vec![1000; 4], 499));
    assert_eq!(results, vec![TurnResult::Fled]);
    let hp_after: Vec<i32> = battle.party.iter().map(|m| m.stats.hp).collect();
    assert_eq!(hp_before, hp_after);
    assert_eq!(battle.enemies[0].stats.hp, enemy_hp_before);
    assert_eq!(battle.turn_log, vec![TurnResult::Fled]);
}

#[test]
fn turn_log_collects_every_turn() {
    let mut slime = Enemy::slime();
    slime.stats.hp = 999;
    slime.stats.max_hp = 999;
    let mut battle = BattleState::new(vec![member(PartyMemberKind::Laios)], vec![slime]);
    let first = battle.execute_turn(&vec![attack(0)], &make_random(vec![1000; 2], 0));
    let second = battle.execute_turn(&vec![attack(0)], &make_random(vec![1000; 2], 0));
    let mut all = first.clone();
    all.extend(second.iter().copied());
    assert_eq!(battle.turn_log, all);
}

#[test]
fn build_action_order_by_speed() {
    let mut fast = Enemy::slime();
    fast.stats.speed = 6;
    let battle = BattleState::new(party_of_three(), vec![Enemy::slime(), fast]);
    // Marcille 7, enemy 1 at 6, Laios 5, Falin 4, enemy 0 at 3.
    let order = battle.build_action_order(&vec![attack(0), attack(0), attack(0)]);
    assert_eq!(
        order,
        vec![ActorId::Party(1), ActorId::Enemy(1), ActorId::Party(0), ActorId::Party(2), ActorId::Enemy(0)]
    );
    // Members without a command do not act.
    let order = battle.build_action_order(&vec![attack(0)]);
    assert_eq!(order, vec![ActorId::Enemy(1), ActorId::Party(0), ActorId::Enemy(0)]);
}

#[test]
fn party_moves_before_enemies_of_equal_speed() {
    let mut slime = Enemy::slime();
    slime.stats.speed = 5;
    let battle = BattleState::new(vec![member(PartyMemberKind::Laios)], vec![slime]);
    let order = battle.build_action_order(&vec![attack(0)]);
    assert_eq!(order, vec![ActorId::Party(0), ActorId::Enemy(0)]);
}

#[test]
fn weapon_damage_is_exact() {
    // Laios attack 8 against a slime with defense 1: 8 - 1/2 = 7.5, rounded to 8.
    let mut slime = Enemy::slime();
    slime.stats.hp = 999;
    slime.stats.max_hp = 999;
    slime.stats.attack = 0;
    let mut battle = BattleState::new(vec![member(PartyMemberKind::Laios)], vec![slime]);
    let results = battle.execute_turn(&vec![attack(0)], &make_random(vec![1000; 2], 0));
    assert_eq!(
        results[0],
        TurnResult::Attack { attacker: ActorId::Party(0), target: TargetId::Enemy(0), damage: 8 }
    );
    assert_eq!(battle.enemies[0].stats.hp, 991);
}

#[test]
fn healing_item_is_used_up() {
    let mut laios = member(PartyMemberKind::Laios);
    laios.inventory.add(ItemKey::Herb, 1);
    laios.stats.hp = 1;
    let mut slime = Enemy::slime();
    slime.stats.attack = 0;
    let mut battle = BattleState::new(vec![laios], vec![slime]);
    let commands = vec![BattleAction::UseItem { item: ItemKey::Herb, target: TargetId::Party(0) }];
    let results = battle.execute_turn(&commands, &make_random(vec![1000; 2], 0));
    assert!(results.iter().any(|r| matches!(
        r,
        TurnResult::ItemUsed { user: ActorId::Party(0), item: ItemKey::Herb, target: TargetId::Party(0), amount: 25 }
    )));
    assert_eq!(battle.party[0].inventory.count(ItemKey::Herb), 0);
    assert_eq!(battle.party[0].stats.hp, 26 - 1);
}

#[test]
fn using_an_item_not_held_does_nothing() {
    let mut slime = Enemy::slime();
    slime.stats.attack = 0;
    let mut battle = BattleState::new(vec![member(PartyMemberKind::Laios)], vec![slime]);
    let commands = vec![BattleAction::UseItem { item: ItemKey::Herb, target: TargetId::Party(0) }];
    let results = battle.execute_turn(&commands, &make_random(vec![1000; 2], 0));
    assert!(!results.iter().any(|r| matches!(r, TurnResult::ItemUsed { .. })));
}

#[test]
fn buff_expiry_is_reported_on_the_fifth_tick() {
    let mut rinsha = member(PartyMemberKind::Rinsha);
    rinsha.stats.mp = 99;
    let mut slime = Enemy::slime();
    slime.stats.hp = 999;
    slime.stats.max_hp = 999;
    slime.stats.attack = 0;
    let mut battle = BattleState::new(vec![rinsha], vec![slime]);
    let cast = vec![BattleAction::Spell { spell: SpellKind::Boost1, target: TargetId::Party(0) }];
    battle.execute_turn(&cast, &make_random(vec![1000; 2], 0));
    let mut turns = 1;
    loop {
        let results = battle.execute_turn(&vec![attack(0)], &make_random(vec![1000; 2], 0));
        turns += 1;
        let expired = results
            .iter()
            .any(|r| matches!(r, TurnResult::BuffExpired { target: TargetId::Party(0), stat: BuffStat::Attack }));
        if expired {
            break;
        }
        assert!(turns < 10);
    }
    assert_eq!(turns, 5);
}

#[test]
fn total_exp_counts_only_the_defeated() {
    let mut battle = BattleState::new(
        vec![member(PartyMemberKind::Laios)],
        vec![Enemy::slime(), Enemy::new(EnemyKind::Slime, 3), Enemy::slime()],
    );
    battle.enemies[0].stats.hp = 0;
    battle.enemies[1].stats.hp = 0;
    assert_eq!(battle.total_exp_reward(), 3 + 6);
}

#[test]
fn alive_indices_skip_the_fallen() {
    let mut battle = BattleState::new(party_of_three(), vec![Enemy::slime(), Enemy::bat(), Enemy::goblin()]);
    battle.party[1].stats.hp = 0;
    battle.enemies[0].stats.hp = 0;
    assert_eq!(battle.alive_party_indices(), vec![0, 2]);
    assert_eq!(battle.alive_enemy_indices(), vec![1, 2]);
}

#[test]
fn enemy_mp_drain_lowers_party_mp() {
    let mut specter = Enemy::ghost();
    specter.stats.hp = 999;
    specter.stats.max_hp = 999;
    let mut battle = BattleState::new(vec![member(PartyMemberKind::Marcille)], vec![specter]);
    let mp_before = battle.party[0].stats.mp;
    let results = battle.execute_enemy_spell(0, SpellKind::Drain1, 1000);
    assert_eq!(
        results,
        vec![TurnResult::MpDrained {
            caster: ActorId::Enemy(0),
            spell: SpellKind::Drain1,
            target: TargetId::Party(0),
            amount: 8
        }]
    );
    assert_eq!(battle.party[0].stats.mp, mp_before - 8);
}
