use rpg_core::equipment::Equipment;
use rpg_core::inventory::Inventory;
use rpg_core::item::ItemKey;

#[test]
fn equip_weapon_returns_previous() {
    let mut eq = Equipment::new();
    let prev = eq.equip_weapon(ItemKey::IronSword);
    assert_eq!(prev, None);
    assert_eq!(eq.weapon, Some(ItemKey::IronSword));
    assert_eq!(eq.attack_bonus(), 5);

    let prev = eq.equip_weapon(ItemKey::MageStaff);
    assert_eq!(prev, Some(ItemKey::IronSword));
    assert_eq!(eq.attack_bonus(), 3);
}

#[test]
fn inventory_add_and_count() {
    let mut inv = Inventory::new();
    assert_eq!(inv.count(ItemKey::Herb), 0);
    inv.add(ItemKey::Herb, 2);
    assert_eq!(inv.count(ItemKey::Herb), 2);
}

#[test]
fn inventory_use_item() {
    let mut inv = Inventory::new();
    inv.add(ItemKey::Herb, 1);
    assert!(inv.use_item(ItemKey::Herb));
    assert_eq!(inv.count(ItemKey::Herb), 0);
    assert!(!inv.use_item(ItemKey::Herb));
}

#[test]
fn inventory_owned_items() {
    let mut inv = Inventory::new();
    assert!(inv.owned_items().is_empty());
    inv.add(ItemKey::Herb, 2);
    assert_eq!(inv.owned_items(), vec![ItemKey::Herb]);
}

#[test]
fn inventory_is_empty() {
    let mut inv = Inventory::new();
    assert!(inv.is_empty());
    inv.add(ItemKey::Herb, 1);
    assert!(!inv.is_empty());
    inv.use_item(ItemKey::Herb);
    assert!(inv.is_empty());
}

#[test]
fn inventory_total_count() {
    let mut inv = Inventory::new();
    assert_eq!(inv.total_count(), 0);
    inv.add(ItemKey::Herb, 3);
    assert_eq!(inv.total_count(), 3);
}

#[test]
fn inventory_can_add() {
    let mut inv = Inventory::new();
    assert!(inv.can_add(6));
    assert!(!inv.can_add(7));
    inv.add(ItemKey::Herb, 5);
    assert!(inv.can_add(1));
    assert!(!inv.can_add(2));
}

#[test]
fn inventory_try_add() {
    let mut inv = Inventory::new();
    assert!(inv.try_add(ItemKey::Herb, 6));
    assert_eq!(inv.total_count(), 6);
    assert!(!inv.try_add(ItemKey::Herb, 1));
    assert_eq!(inv.total_count(), 6);
}

#[test]
fn inventory_with_capacity() {
    let mut inv = Inventory::with_capacity(50);
    assert!(inv.can_add(50));
    assert!(!inv.can_add(51));
    inv.add(ItemKey::Herb, 49);
    assert!(inv.can_add(1));
    assert!(!inv.can_add(2));
}

#[test]
fn owned_items_come_in_key_order() {
    let mut inv = Inventory::with_capacity(50);
    inv.add(ItemKey::SilverOre, 1);
    inv.add(ItemKey::Herb, 2);
    inv.add(ItemKey::HighHerb, 1);
    assert_eq!(inv.owned_items(), vec![ItemKey::Herb, ItemKey::HighHerb, ItemKey::SilverOre]);
}

#[test]
fn add_then_use_gives_back_the_bag() {
    let mut inv = Inventory::new();
    inv.add(ItemKey::Herb, 1);
    let before = inv.count(ItemKey::HighHerb);
    inv.add(ItemKey::HighHerb, 1);
    assert!(inv.use_item(ItemKey::HighHerb));
    assert_eq!(inv.count(ItemKey::HighHerb), before);
    assert_eq!(inv.total_count(), 1);
}

#[test]
fn remove_item_takes_one() {
    let mut inv = Inventory::new();
    inv.add(ItemKey::MagicStone, 2);
    assert!(inv.remove_item(ItemKey::MagicStone));
    assert_eq!(inv.count(ItemKey::MagicStone), 1);
    assert!(!inv.remove_item(ItemKey::DragonScale));
}

#[test]
fn try_add_refused_leaves_bag_alone() {
    let mut inv = Inventory::new();
    inv.add(ItemKey::Herb, 4);
    assert!(!inv.try_add(ItemKey::HighHerb, 3));
    assert_eq!(inv.count(ItemKey::HighHerb), 0);
    assert_eq!(inv.total_count(), 4);
    assert!(inv.try_add(ItemKey::HighHerb, 2));
    assert_eq!(inv.total_count(), 6);
}

#[test]
fn item_entries_carry_their_data() {
    let herb = ItemKey::Herb.entry();
    assert!(herb.is_consumable());
    assert!(!herb.is_weapon());
    assert_eq!(herb.as_key(), ItemKey::Herb);
    assert!(ItemKey::SteelSword.is_weapon());
    assert_eq!(ItemKey::SteelSword.entry().attack_bonus, 10);
    assert!(!ItemKey::CopperKey.entry().is_consumable());
}
