use rpg_core::cave::{boss_adjacent, TreasureChest, TreasureContent};
use rpg_core::cave_chests::open_chests;
use rpg_core::item::ItemKey;
use rpg_core::party::{PartyMember, PartyMemberKind};
use rpg_core::party_data::character_param_table;
use rpg_core::terrain::Structure;
use rpg_core::world::PartyState;

fn party() -> PartyState {
    PartyState::new(&character_param_table())
}

fn grid_with_chest() -> Vec<Vec<Structure>> {
    vec![vec![Structure::Nothing, Structure::Nothing], vec![Structure::Nothing, Structure::Chest]]
}

#[test]
fn chest_goes_to_the_first_member_with_room() {
    let mut p = party();
    let mut grid = grid_with_chest();
    let chests = vec![TreasureChest { x: 1, y: 1, content: TreasureContent::Item(ItemKey::MagicStone) }];
    let mut opened: Vec<usize> = Vec::new();
    let msg = open_chests(&mut p, &mut grid, &chests, &mut opened, 1, 1);
    assert_eq!(msg.as_deref(), Some("たからばこから まほうのいしを てにいれた！（ライオス）"));
    assert_eq!(p.members[0].inventory.count(ItemKey::MagicStone), 1);
    assert_eq!(opened, vec![0]);
    assert_eq!(grid[1][1], Structure::ChestOpen);
}

#[test]
fn opened_chest_gives_nothing_more() {
    let mut p = party();
    let mut grid = grid_with_chest();
    let chests = vec![TreasureChest { x: 1, y: 1, content: TreasureContent::Weapon(ItemKey::IronSword) }];
    let mut opened: Vec<usize> = vec![0];
    let msg = open_chests(&mut p, &mut grid, &chests, &mut opened, 1, 1);
    assert_eq!(msg, None);
    assert_eq!(p.members[0].inventory.count(ItemKey::IronSword), 0);
    assert_eq!(grid[1][1], Structure::Chest);
}

#[test]
fn no_chest_on_plain_tiles() {
    let mut p = party();
    let mut grid = grid_with_chest();
    let chests = vec![TreasureChest { x: 0, y: 0, content: TreasureContent::Item(ItemKey::Herb) }];
    let mut opened: Vec<usize> = Vec::new();
    assert_eq!(open_chests(&mut p, &mut grid, &chests, &mut opened, 0, 0), None);
    assert!(opened.is_empty());
}

#[test]
fn full_members_fall_back_to_the_bag_then_refuse() {
    let mut p = party();
    // Laios holds two herbs; fill his six slots.
    p.members[0].inventory.add(ItemKey::Herb, 4);
    let mut grid = grid_with_chest();
    let chests = vec![TreasureChest { x: 1, y: 1, content: TreasureContent::Weapon(ItemKey::SteelSword) }];
    let mut opened: Vec<usize> = Vec::new();
    let msg = open_chests(&mut p, &mut grid, &chests, &mut opened, 1, 1);
    assert_eq!(msg.as_deref(), Some("たからばこから はがねのつるぎを てにいれた！（ふくろ）"));
    assert_eq!(p.bag.count(ItemKey::SteelSword), 1);

    let mut q = party();
    q.members[0].inventory.add(ItemKey::Herb, 4);
    q.bag.add(ItemKey::SilverOre, 50);
    let mut grid = grid_with_chest();
    let mut opened: Vec<usize> = Vec::new();
    let msg = open_chests(&mut q, &mut grid, &chests, &mut opened, 1, 1);
    assert_eq!(msg.as_deref(), Some("もちものも ふくろも いっぱいだ！"));
    assert!(opened.is_empty());
    assert_eq!(grid[1][1], Structure::Chest);
}

#[test]
fn second_member_takes_when_first_is_full() {
    let mut p = party();
    p.members[0].inventory.add(ItemKey::Herb, 4);
    p.members.push(PartyMember::from_kind(PartyMemberKind::Marcille, &character_param_table()));
    let mut grid = grid_with_chest();
    let chests = vec![TreasureChest { x: 1, y: 1, content: TreasureContent::Item(ItemKey::AncientCoin) }];
    let mut opened: Vec<usize> = Vec::new();
    let msg = open_chests(&mut p, &mut grid, &chests, &mut opened, 1, 1);
    assert_eq!(msg.as_deref(), Some("たからばこから いにしえのコインを てにいれた！（マルシル）"));
    assert_eq!(p.members[1].inventory.count(ItemKey::AncientCoin), 1);
}

#[test]
fn boss_fights_start_next_to_the_boss() {
    let bosses = vec![(5, 5)];
    assert!(boss_adjacent(4, 5, &bosses));
    assert!(boss_adjacent(5, 6, &bosses));
    assert!(!boss_adjacent(4, 4, &bosses));
    assert!(!boss_adjacent(5, 5, &bosses));
    assert!(!boss_adjacent(7, 5, &bosses));
    assert!(!boss_adjacent(0, 0, &vec![]));
}
