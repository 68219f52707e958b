use rand::SeedableRng;
use rand_chacha::ChaCha8Rng;
use rpg_core::cave::{
    find_boss_position, floor_positions, generate_boss_cave_map, generate_cave_map, place_treasures,
    treasure_for_roll, TreasureContent, CAVE_HEIGHT, CAVE_WIDTH,
};
use rpg_core::item::ItemKey;
use rpg_core::terrain::{Structure, Terrain};

fn create_rng(seed: u64) -> ChaCha8Rng {
    ChaCha8Rng::seed_from_u64(seed)
}

#[test]
fn generate_cave_map_correct_size() {
    let mut rng = create_rng(42);
    let map = generate_cave_map(&mut rng, &[]);
    assert_eq!(map.grid.len(), CAVE_HEIGHT);
    for row in &map.grid {
        assert_eq!(row.len(), CAVE_WIDTH);
    }
    assert_eq!(map.width, CAVE_WIDTH);
    assert_eq!(map.height, CAVE_HEIGHT);
}

#[test]
fn generate_cave_map_spawn_is_ladder() {
    let mut rng = create_rng(42);
    let map = generate_cave_map(&mut rng, &[]);
    let (sx, sy) = map.spawn_position;
    assert_eq!(map.structures[sy][sx], Structure::Ladder);
}

#[test]
fn generate_cave_map_has_floor_tiles() {
    let mut rng = create_rng(42);
    let map = generate_cave_map(&mut rng, &[]);
    let floor_count = map.grid.iter().flatten().filter(|t| **t == Terrain::CaveFloor).count();
    assert!(floor_count > 50, "Cave should have enough floor tiles");
}

#[test]
fn generate_cave_map_edges_are_walls() {
    let mut rng = create_rng(42);
    let map = generate_cave_map(&mut rng, &[]);
    for x in 0..CAVE_WIDTH {
        assert_ne!(map.grid[0][x], Terrain::CaveFloor, "Top edge should not be floor");
        assert_ne!(map.grid[CAVE_HEIGHT - 1][x], Terrain::CaveFloor, "Bottom edge should not be floor");
    }
    for y in 0..CAVE_HEIGHT {
        assert_ne!(map.grid[y][0], Terrain::CaveFloor, "Left edge should not be floor");
        assert_ne!(map.grid[y][CAVE_WIDTH - 1], Terrain::CaveFloor, "Right edge should not be floor");
    }
}

#[test]
fn generate_cave_map_deterministic() {
    let mut rng1 = create_rng(123);
    let mut rng2 = create_rng(123);
    let map1 = generate_cave_map(&mut rng1, &[]);
    let map2 = generate_cave_map(&mut rng2, &[]);
    assert_eq!(map1.spawn_position, map2.spawn_position);
    assert_eq!(map1.grid, map2.grid);
}

#[test]
fn chests_stand_on_free_floor() {
    for seed in 0..20u64 {
        let mut rng = create_rng(seed);
        let map = generate_cave_map(&mut rng, &[]);
        assert!(!map.treasures.is_empty());
        assert!(map.treasures.len() <= 3);
        for (i, t) in map.treasures.iter().enumerate() {
            assert_eq!(map.grid[t.y][t.x], Terrain::CaveFloor);
            assert_ne!((t.x, t.y), map.spawn_position);
            for u in &map.treasures[i + 1..] {
                assert_ne!((t.x, t.y), (u.x, u.y));
            }
        }
    }
}

#[test]
fn guaranteed_items_come_first() {
    let guaranteed = [
        TreasureContent::Item(ItemKey::MoonFragment),
        TreasureContent::Weapon(ItemKey::IronSword),
        TreasureContent::Item(ItemKey::CopperKey),
        TreasureContent::Item(ItemKey::DragonScale),
    ];
    let mut rng = create_rng(7);
    let map = generate_cave_map(&mut rng, &guaranteed);
    assert!(map.treasures.len() >= 4);
    for i in 0..4 {
        assert_eq!(map.treasures[i].content, guaranteed[i]);
    }
}

#[test]
fn treasure_rolls_follow_the_weights() {
    assert_eq!(treasure_for_roll(0), TreasureContent::Item(ItemKey::Herb));
    assert_eq!(treasure_for_roll(24), TreasureContent::Item(ItemKey::Herb));
    assert_eq!(treasure_for_roll(25), TreasureContent::Item(ItemKey::HighHerb));
    assert_eq!(treasure_for_roll(40), TreasureContent::Item(ItemKey::MagicStone));
    assert_eq!(treasure_for_roll(92), TreasureContent::Item(ItemKey::DragonScale));
    assert_eq!(treasure_for_roll(95), TreasureContent::Item(ItemKey::MoonFragment));
    assert_eq!(treasure_for_roll(103), TreasureContent::Weapon(ItemKey::WoodenSword));
    assert_eq!(treasure_for_roll(104), TreasureContent::Weapon(ItemKey::WoodenSword));
    assert_eq!(treasure_for_roll(500), TreasureContent::Weapon(ItemKey::WoodenSword));
}

#[test]
fn treasure_names() {
    assert_eq!(TreasureContent::Item(ItemKey::Herb).name(), ItemKey::Herb.name());
    assert_eq!(TreasureContent::Weapon(ItemKey::WoodenSword).name(), ItemKey::WoodenSword.name());
}

#[test]
fn floor_positions_in_row_order() {
    let mut grid = vec![vec![Terrain::CaveWall; CAVE_WIDTH]; CAVE_HEIGHT];
    grid[3][7] = Terrain::CaveFloor;
    grid[1][20] = Terrain::CaveFloor;
    grid[15][15] = Terrain::CaveFloor;
    grid[3][2] = Terrain::CaveFloor;
    let cells = floor_positions(&grid, Terrain::CaveFloor, (15, 15));
    assert_eq!(cells, vec![(20, 1), (2, 3), (7, 3)]);
}

#[test]
fn place_treasures_fills_guaranteed_then_extra() {
    let cells = vec![(1, 1), (2, 2), (3, 3)];
    let guaranteed = [TreasureContent::Item(ItemKey::CopperKey)];
    let extra = vec![TreasureContent::Item(ItemKey::Herb), TreasureContent::Item(ItemKey::SilverOre)];
    let chests = place_treasures(&cells, 3, &guaranteed, &extra);
    assert_eq!(chests.len(), 3);
    assert_eq!((chests[0].x, chests[0].y, chests[0].content), (1, 1, TreasureContent::Item(ItemKey::CopperKey)));
    assert_eq!((chests[1].x, chests[1].y, chests[1].content), (2, 2, TreasureContent::Item(ItemKey::Herb)));
    assert_eq!((chests[2].x, chests[2].y, chests[2].content), (3, 3, TreasureContent::Item(ItemKey::SilverOre)));
}

#[test]
fn boss_waits_at_the_far_end_of_a_corridor() {
    let mut grid = vec![vec![Terrain::BossCaveWall; CAVE_WIDTH]; CAVE_HEIGHT];
    for x in 10..=20 {
        grid[15][x] = Terrain::BossCaveFloor;
    }
    for y in 15..=18 {
        grid[y][20] = Terrain::BossCaveFloor;
    }
    assert_eq!(find_boss_position(&grid, (15, 15)), (20, 18));
}

#[test]
fn boss_takes_the_first_of_equally_far_tiles() {
    let mut grid = vec![vec![Terrain::BossCaveWall; CAVE_WIDTH]; CAVE_HEIGHT];
    for x in 10..=20 {
        grid[15][x] = Terrain::BossCaveFloor;
    }
    assert_eq!(find_boss_position(&grid, (15, 15)), (10, 15));
}

#[test]
fn boss_stays_at_the_entrance_when_walled_in() {
    let grid = vec![vec![Terrain::BossCaveWall; CAVE_WIDTH]; CAVE_HEIGHT];
    assert_eq!(find_boss_position(&grid, (15, 15)), (15, 15));
}

#[test]
fn boss_cave_is_carved_and_guarded() {
    let mut rng = create_rng(9);
    let map = generate_boss_cave_map(&mut rng);
    assert_eq!(map.grid.len(), CAVE_HEIGHT);
    assert_eq!(map.structures[15][15], Structure::Ladder);
    assert_eq!(map.grid[15][15], Terrain::BossCaveFloor);
    let (bx, by) = map.boss_position;
    assert_eq!(map.grid[by][bx], Terrain::BossCaveFloor);
    assert_ne!(map.boss_position, map.spawn_position);
    for x in 0..CAVE_WIDTH {
        assert_eq!(map.grid[0][x], Terrain::BossCaveWall);
        assert_eq!(map.grid[CAVE_HEIGHT - 1][x], Terrain::BossCaveWall);
    }
}

#[test]
fn same_cave_keeps_its_shape() {
    let caves: Vec<Vec<(usize, usize)>> = vec![vec![(3, 4)], vec![(10, 20)]];
    let a = rpg_core::cave::cave_at(10, 20, &caves);
    let b = rpg_core::cave::cave_at(10, 20, &caves);
    assert_eq!(a.grid, b.grid);
    assert_eq!(a.treasures.len(), b.treasures.len());
    for (x, y) in a.treasures.iter().zip(b.treasures.iter()) {
        assert_eq!((x.x, x.y, x.content), (y.x, y.y, y.content));
    }
    let boss_a = rpg_core::cave::boss_cave_at(7, 7);
    let boss_b = rpg_core::cave::boss_cave_at(7, 7);
    assert_eq!(boss_a.boss_position, boss_b.boss_position);
}

#[test]
fn listed_caves_hold_moon_fragments_first() {
    let caves: Vec<Vec<(usize, usize)>> = vec![vec![(3, 4)], vec![(10, 20)]];
    let items = rpg_core::cave::guaranteed_items_for(&caves, (10, 20));
    assert_eq!(items.len(), 3);
    assert!(rpg_core::cave::guaranteed_items_for(&caves, (4, 3)).is_empty());
    let cave = rpg_core::cave::cave_at(10, 20, &caves);
    for t in cave.treasures.iter().take(3) {
        assert_eq!(t.content, rpg_core::cave::TreasureContent::Item(rpg_core::item::ItemKey::MoonFragment));
    }
    assert!(cave.treasures.len() >= 3);
}
