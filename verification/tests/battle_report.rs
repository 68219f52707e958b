use rpg_core::battle_messages::{decimal_text, enemy_display_names, results_to_messages, MessageEffect};
use rpg_core::combat::{ActorId, BattleState, BuffStat, TargetId, TurnResult};
use rpg_core::enemy::{Enemy, EnemyKind};
use rpg_core::item::ItemKey;
use rpg_core::party::{default_party, PartyMember, PartyMemberKind};
use rpg_core::party_data::character_param_table;
use rpg_core::spell::{Ailment, SpellKind};

fn battle() -> BattleState {
    BattleState::new(default_party(&character_param_table()), vec![Enemy::slime(), Enemy::slime(), Enemy::bat()])
}

fn gauges(b: &BattleState) -> (Vec<i32>, Vec<i32>) {
    (b.party.iter().map(|m| m.stats.hp).collect(), b.party.iter().map(|m| m.stats.mp).collect())
}

#[test]
fn decimal_text_writes_numbers() {
    assert_eq!(decimal_text(0), "0");
    assert_eq!(decimal_text(7), "7");
    assert_eq!(decimal_text(1203), "1203");
    assert_eq!(decimal_text(-45), "-45");
    assert_eq!(decimal_text(i32::MIN), "-2147483648");
    assert_eq!(decimal_text(i32::MAX), "2147483647");
}

#[test]
fn enemy_names_get_letters_only_when_repeated() {
    let names = enemy_display_names(&[Enemy::slime(), Enemy::bat(), Enemy::slime()]);
    let slime = EnemyKind::Slime.name();
    let bat = EnemyKind::Bat.name();
    assert_eq!(names, vec![format!("{}A", slime), bat.to_string(), format!("{}B", slime)]);
    let five: Vec<Enemy> = (0..5).map(|_| Enemy::bat()).collect();
    let names = enemy_display_names(&five);
    assert_eq!(names[3], format!("{}D", bat));
    assert_eq!(names[4], format!("{}?", bat));
}

#[test]
fn attack_line_and_effects() {
    let b = battle();
    let (hp, mp) = gauges(&b);
    let laios = PartyMemberKind::Laios.name();
    let slime = EnemyKind::Slime.name();
    let results = vec![
        TurnResult::Attack { attacker: ActorId::Party(0), target: TargetId::Enemy(1), damage: 8 },
        TurnResult::Attack { attacker: ActorId::Enemy(2), target: TargetId::Party(0), damage: 4 },
    ];
    let (messages, effects) = results_to_messages(&results, &b, &hp, &mp);
    assert_eq!(messages[0], format!("{}の こうげき！ {}Bに 8ダメージ！", laios, slime));
    assert_eq!(messages[1], format!("{}の こうげき！ {}に 4ダメージ！", EnemyKind::Bat.name(), laios));
    assert_eq!(
        effects,
        vec![
            (0, MessageEffect::BlinkEnemy { enemy_index: 1 }),
            (1, MessageEffect::Shake),
            (1, MessageEffect::UpdatePartyHp { member_index: 0, new_hp: hp[0] - 4 }),
        ]
    );
}

#[test]
fn area_spell_names_caster_once_and_pays_once() {
    let b = battle();
    let (hp, mp) = gauges(&b);
    let marcille = PartyMemberKind::Marcille.name();
    let slime = EnemyKind::Slime.name();
    let results = vec![
        TurnResult::SpellDamage { caster: ActorId::Party(1), spell: SpellKind::Blaze1, target: TargetId::Enemy(0), damage: 7 },
        TurnResult::SpellDamage { caster: ActorId::Party(1), spell: SpellKind::Blaze1, target: TargetId::Enemy(1), damage: 7 },
        TurnResult::Defeated { target: TargetId::Enemy(1) },
    ];
    let (messages, effects) = results_to_messages(&results, &b, &hp, &mp);
    assert_eq!(messages.len(), 3);
    assert_eq!(messages[0], format!("{}は Blaze1を となえた！ {}Aに 7ダメージ！", marcille, slime));
    assert_eq!(messages[1], format!("{}Bに 7ダメージ！", slime));
    assert_eq!(messages[2], format!("{}Bを たおした！", slime));
    assert_eq!(
        effects,
        vec![
            (0, MessageEffect::UpdatePartyMp { member_index: 1, new_mp: mp[1] - 5 }),
            (0, MessageEffect::BlinkEnemy { enemy_index: 0 }),
            (1, MessageEffect::BlinkEnemy { enemy_index: 1 }),
            (2, MessageEffect::HideEnemy { enemy_index: 1 }),
        ]
    );
}

#[test]
fn healing_is_capped_at_the_maximum() {
    let b = battle();
    let (mut hp, mp) = gauges(&b);
    hp[0] = 20;
    let max = b.party[0].stats.max_hp;
    let falin = PartyMemberKind::Falin.name();
    let laios = PartyMemberKind::Laios.name();
    let results = vec![
        TurnResult::Healed { caster: ActorId::Party(2), spell: SpellKind::Heal2, target: TargetId::Party(0), amount: 40 },
        TurnResult::ItemUsed { user: ActorId::Party(0), item: ItemKey::Herb, target: TargetId::Party(0), amount: 25 },
    ];
    let (messages, effects) = results_to_messages(&results, &b, &hp, &mp);
    assert_eq!(messages[0], format!("{}は Heal2を となえた！ {}の HPが 40かいふく！", falin, laios));
    assert_eq!(messages[1], format!("{}は {}を つかった！ {}の HPが 25かいふく！", laios, ItemKey::Herb.name(), laios));
    assert_eq!(
        effects,
        vec![
            (0, MessageEffect::UpdatePartyMp { member_index: 2, new_mp: mp[2] - 7 }),
            (0, MessageEffect::UpdatePartyHp { member_index: 0, new_hp: max }),
            (1, MessageEffect::UpdatePartyHp { member_index: 0, new_hp: max }),
        ]
    );
}

#[test]
fn status_lines() {
    let b = battle();
    let (hp, mp) = gauges(&b);
    let laios = PartyMemberKind::Laios.name();
    let bat = EnemyKind::Bat.name();
    let results = vec![
        TurnResult::Buffed { caster: ActorId::Party(0), spell: SpellKind::Shield1, target: TargetId::Party(0), amount: 3 },
        TurnResult::BuffExpired { target: TargetId::Party(0), stat: BuffStat::Attack },
        TurnResult::AilmentInflicted { caster: ActorId::Party(0), spell: SpellKind::Sleep1, target: TargetId::Enemy(2), ailment: Ailment::Sleep },
        TurnResult::Sleeping { actor: ActorId::Enemy(2) },
        TurnResult::AilmentCured { target: TargetId::Enemy(2), ailment: Ailment::Sleep },
        TurnResult::PoisonDamage { target: TargetId::Party(0), damage: 3 },
        TurnResult::Defeated { target: TargetId::Party(0) },
        TurnResult::FleeFailed,
        TurnResult::Fled,
    ];
    let (messages, _effects) = results_to_messages(&results, &b, &hp, &mp);
    assert_eq!(messages[0], format!("{}は Shield1を となえた！ {}の しゅびりょくが 3あがった！", laios, laios));
    assert_eq!(messages[1], format!("{}の こうげきりょくアップの こうかが きれた！", laios));
    assert_eq!(messages[2], format!("{}は Sleep1を となえた！ {}は ねむりになった！", laios, bat));
    assert_eq!(messages[3], format!("{}は ねむっている…", bat));
    assert_eq!(messages[4], format!("{}の ねむりが なおった！", bat));
    assert_eq!(messages[5], format!("{}は どくで 3ダメージ！", laios));
    assert_eq!(messages[6], format!("{}は たおれた...", laios));
    assert_eq!(messages[7], "にげられなかった！");
    assert_eq!(messages[8], "うまく にげきれた！");
}

#[test]
fn resisted_and_drained_lines() {
    let b = battle();
    let (hp, mp) = gauges(&b);
    let marcille = PartyMemberKind::Marcille.name();
    let slime = EnemyKind::Slime.name();
    let results = vec![
        TurnResult::AilmentResisted { caster: ActorId::Party(1), spell: SpellKind::Sleepall1, target: TargetId::Enemy(0) },
        TurnResult::AilmentResisted { caster: ActorId::Party(1), spell: SpellKind::Sleepall1, target: TargetId::Enemy(1) },
        TurnResult::MpDrained { caster: ActorId::Enemy(0), spell: SpellKind::Drain1, target: TargetId::Party(1), amount: 8 },
    ];
    let (messages, effects) = results_to_messages(&results, &b, &hp, &mp);
    assert_eq!(messages[0], format!("{}は Sleepall1を となえた！ しかし {}Aには きかなかった！", marcille, slime));
    assert_eq!(messages[1], format!("しかし {}Bには きかなかった！", slime));
    assert_eq!(messages[2], format!("{}Aは Drain1を となえた！ {}の MPが 8へった！", slime, marcille));
    let after_cast = mp[1] - 8;
    assert_eq!(
        effects,
        vec![
            (0, MessageEffect::UpdatePartyMp { member_index: 1, new_mp: after_cast }),
            (0, MessageEffect::BlinkEnemy { enemy_index: 0 }),
            (1, MessageEffect::BlinkEnemy { enemy_index: 1 }),
            (2, MessageEffect::UpdatePartyMp { member_index: 1, new_mp: if after_cast > 8 { after_cast - 8 } else { 0 } }),
        ]
    );
}

#[test]
fn messages_of_a_real_turn() {
    let mut b = BattleState::new(
        vec![PartyMember::from_kind(PartyMemberKind::Laios, &character_param_table())],
        vec![Enemy::slime()],
    );
    let (hp, mp) = gauges(&b);
    let commands = vec![rpg_core::combat::BattleAction::Attack { target: TargetId::Enemy(0) }];
    let randoms = rpg_core::combat::TurnRandomFactors { damage_randoms: vec![1000; 2], flee_random: 0, spell_randoms: vec![] };
    let results = b.execute_turn(&commands, &randoms);
    let (messages, _) = results_to_messages(&results, &b, &hp, &mp);
    assert_eq!(messages.len(), results.len());
    assert_eq!(messages[0], format!("{}の こうげき！ {}に 8ダメージ！", PartyMemberKind::Laios.name(), EnemyKind::Slime.name()));
    assert_eq!(messages[1], format!("{}を たおした！", EnemyKind::Slime.name()));
}
