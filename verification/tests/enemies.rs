use rpg_core::enemy::{encounter_table, generate_enemy_group, pick_from_table, Enemy, EnemyKind};

#[test]
fn generate_enemy_group_returns_1_to_4() {
    assert_eq!(generate_enemy_group(2, false, 0, 0).len(), 1);
    assert_eq!(generate_enemy_group(2, false, 290, 0).len(), 1);
    assert_eq!(generate_enemy_group(2, false, 300, 0).len(), 2);
    assert_eq!(generate_enemy_group(2, false, 600, 0).len(), 3);
    assert_eq!(generate_enemy_group(2, false, 850, 0).len(), 4);
    assert_eq!(generate_enemy_group(2, false, 1000, 0).len(), 4);
}

#[test]
fn continent_0_max_2_enemies() {
    assert_eq!(generate_enemy_group(0, false, 0, 0).len(), 1);
    assert_eq!(generate_enemy_group(0, false, 300, 0).len(), 2);
    assert_eq!(generate_enemy_group(0, false, 850, 0).len(), 2);
    assert_eq!(generate_enemy_group(0, false, 1000, 0).len(), 2);
}

#[test]
fn continent_1_max_3_enemies() {
    assert_eq!(generate_enemy_group(1, false, 600, 0).len(), 3);
    assert_eq!(generate_enemy_group(1, false, 850, 0).len(), 3);
    assert_eq!(generate_enemy_group(1, false, 1000, 0).len(), 3);
}

#[test]
fn generate_enemy_group_continent_0_field() {
    let group = generate_enemy_group(0, false, 0, 0);
    assert_eq!(group[0].kind, EnemyKind::Slime);
    assert_eq!(group[0].tier, 1);
}

#[test]
fn generate_enemy_group_continent_6_field() {
    let group = generate_enemy_group(6, false, 0, 0);
    assert!(matches!(
        group[0].kind,
        EnemyKind::Golem | EnemyKind::Demon | EnemyKind::Dragon | EnemyKind::Wraith
    ));
    assert!(group[0].tier >= 1);
}

#[test]
fn cave_enemies_are_higher_tier() {
    let cave_table = encounter_table(0, true);
    assert!(cave_table.iter().all(|e| e.tier >= 1));
    assert!(cave_table.iter().any(|e| e.tier >= 2));
}

#[test]
fn mixed_enemy_types_in_group() {
    let group = generate_enemy_group(2, false, 990, 100);
    assert_eq!(group.len(), 4);
}

#[test]
fn each_continent_has_at_least_5_species() {
    for c in 0..7u8 {
        let table = encounter_table(c, false);
        let mut species: Vec<EnemyKind> = Vec::new();
        for e in table.iter() {
            if !species.contains(&e.kind) {
                species.push(e.kind);
            }
        }
        assert!(species.len() >= 3, "continent {} has only {} species", c, species.len());
    }
}

#[test]
fn tier_scaling_applies_correctly() {
    let t1 = Enemy::new(EnemyKind::Slime, 1);
    let t2 = Enemy::new(EnemyKind::Slime, 2);
    let t3 = Enemy::new(EnemyKind::Slime, 3);
    assert_eq!(t1.stats.max_hp, 8);
    assert_eq!(t2.stats.max_hp, 12);
    assert_eq!(t3.stats.max_hp, 16);
    assert_eq!(t1.stats.attack, 2);
    assert_eq!(t2.stats.attack, 3);
    assert_eq!(t3.stats.attack, 4);
}

#[test]
fn exp_reward_scales_with_tier() {
    let t1 = Enemy::new(EnemyKind::Slime, 1);
    let t2 = Enemy::new(EnemyKind::Slime, 2);
    let t3 = Enemy::new(EnemyKind::Slime, 3);
    assert_eq!(t1.exp_reward(), 3);
    assert_eq!(t2.exp_reward(), 4);
    assert_eq!(t3.exp_reward(), 6);
}

#[test]
fn display_name_includes_tier_suffix() {
    let t1 = Enemy::new(EnemyKind::Goblin, 1);
    let t2 = Enemy::new(EnemyKind::Goblin, 2);
    let t3 = Enemy::new(EnemyKind::Goblin, 3);
    assert_eq!(t1.display_name(), "ゴブリン");
    assert_eq!(t2.display_name(), "ゴブリン・強");
    assert_eq!(t3.display_name(), "ゴブリン・凶");
}

#[test]
fn backward_compat_constructors() {
    let s = Enemy::slime();
    assert_eq!(s.kind, EnemyKind::Slime);
    assert_eq!(s.tier, 1);
    assert_eq!(s.stats.max_hp, 8);
    let dl = Enemy::dark_lord();
    assert_eq!(dl.kind, EnemyKind::DarkLord);
    assert_eq!(dl.stats.max_hp, 200);
}

#[test]
fn each_continent_has_unique_encounter_table() {
    for c in 0..7u8 {
        let table = encounter_table(c, false);
        assert!(!table.is_empty(), "continent {} has no field table", c);
    }
    for c in 0..6u8 {
        let table = encounter_table(c, true);
        assert!(!table.is_empty(), "continent {} has no cave table", c);
    }
}

#[test]
fn pick_from_table_follows_the_weights() {
    let table = encounter_table(0, true);
    // Weights 3, 2, 3, 2, 3, 1: a total of 14.
    assert_eq!(pick_from_table(&table, 0), table[0]);
    assert_eq!(pick_from_table(&table, 214), table[0]);
    assert_eq!(pick_from_table(&table, 215), table[1]);
    assert_eq!(pick_from_table(&table, 999), table[5]);
}

#[test]
fn group_members_use_shifted_rolls() {
    // The second member rolls 370 higher than the first, modulo 1000.
    let group = generate_enemy_group(0, true, 500, 0);
    assert_eq!(group.len(), 2);
    let table = encounter_table(0, true);
    let first = pick_from_table(&table, 0);
    let second = pick_from_table(&table, 370);
    assert_eq!(group[0].kind, first.kind);
    assert_eq!(group[1].kind, second.kind);
    assert_eq!(group[1].tier, second.tier);
}

#[test]
fn ghost_casts_spells() {
    let g = Enemy::ghost();
    assert_eq!(g.kind, EnemyKind::Specter);
    assert!(!g.kind.spells().is_empty());
    assert!(EnemyKind::Slime.spells().is_empty());
}
