//! Items: their data entries, the per-member inventory and the weapon slot.
use vstd::prelude::*;

verus! {

/// Number of items a party member can carry.
pub const INVENTORY_CAPACITY: u32 = 6;

/// Number of items the shared party bag can hold.
pub const BAG_CAPACITY: u32 = 50;

/// Member index that stands for the shared bag in menus.
pub const BAG_MEMBER_INDEX: usize = usize::MAX;

/// Number of distinct item keys.
pub const ITEM_KEY_COUNT: usize = 13;

/// What happens when an item is used.
#[derive(Debug, Clone, Copy, PartialEq, Eq)]
pub enum ItemEffect {
    /// Restores HP.
    Heal { power: i32 },
    /// Shown only; never consumed.
    KeyItem,
    /// Only sold; cannot be used.
    Material,
}

/// The parameters of one item.
#[derive(Debug, Clone, Copy, PartialEq, Eq)]
pub struct ItemEntry<K> {
    pub key: K,
    pub name: &'static str,
    pub effect: ItemEffect,
    pub description: &'static str,
    pub price: u32,
    pub sell_price: u32,
    pub attack_bonus: i32,
}

impl<K: Copy> ItemEntry<K> {
    pub fn as_key(&self) -> (r: K)
        ensures
            r == self.key,
    {
        self.key
    }

    /// An item is a weapon when it raises the attack.
    pub fn is_weapon(&self) -> (r: bool)
        ensures
            r == (self.attack_bonus > 0),
    {
        self.attack_bonus > 0
    }

    /// Only healing items are consumed on use.
    pub fn is_consumable(&self) -> (r: bool)
        ensures
            r == (self.effect is Heal),
    {
        match self.effect {
            ItemEffect::Heal { .. } => true,
            _ => false,
        }
    }
}

/// Looks up the data entry of an item key.
pub trait ItemLookup: Copy + Sized {
    spec fn spec_entry(&self) -> ItemEntry<Self>;

    fn entry(&self) -> (r: ItemEntry<Self>)
        ensures
            r == self.spec_entry(),
    ;
}

/// The items of the game.
#[derive(Debug, Clone, Copy, PartialEq, Eq, Structural, Hash)]
pub enum ItemKey {
    Herb,
    HighHerb,
    CopperKey,
    MoonFragment,
    MagicStone,
    SilverOre,
    AncientCoin,
    DragonScale,
    WoodenSword,
    IronSword,
    SteelSword,
    MageStaff,
    HolyStaff,
}

/// Position of a key in the list of all keys.
pub open spec fn key_index(k: ItemKey) -> int {
    match k {
        ItemKey::Herb => 0,
        ItemKey::HighHerb => 1,
        ItemKey::CopperKey => 2,
        ItemKey::MoonFragment => 3,
        ItemKey::MagicStone => 4,
        ItemKey::SilverOre => 5,
        ItemKey::AncientCoin => 6,
        ItemKey::DragonScale => 7,
        ItemKey::WoodenSword => 8,
        ItemKey::IronSword => 9,
        ItemKey::SteelSword => 10,
        ItemKey::MageStaff => 11,
        ItemKey::HolyStaff => 12,
    }
}

/// All item keys, in declaration order.
pub open spec fn all_item_keys_spec() -> Seq<ItemKey> {
    seq![
        ItemKey::Herb,
        ItemKey::HighHerb,
        ItemKey::CopperKey,
        ItemKey::MoonFragment,
        ItemKey::MagicStone,
        ItemKey::SilverOre,
        ItemKey::AncientCoin,
        ItemKey::DragonScale,
        ItemKey::WoodenSword,
        ItemKey::IronSword,
        ItemKey::SteelSword,
        ItemKey::MageStaff,
        ItemKey::HolyStaff,
    ]
}

/// Every key sits in the list of all keys at its own index.
pub proof fn lemma_key_index_matches_list()
    ensures
        all_item_keys_spec().len() == ITEM_KEY_COUNT,
        forall|i: int| 0 <= i < 13 ==> key_index(#[trigger] all_item_keys_spec()[i]) == i,
        forall|k: ItemKey| 0 <= #[trigger] key_index(k) < 13,
        forall|k: ItemKey| all_item_keys_spec()[#[trigger] key_index(k)] == k,
{
    assert forall|i: int| 0 <= i < 13 implies key_index(#[trigger] all_item_keys_spec()[i]) == i by {
        if i == 0 {} else if i == 1 {} else if i == 2 {} else if i == 3 {} else if i == 4 {}
        else if i == 5 {} else if i == 6 {} else if i == 7 {} else if i == 8 {} else if i == 9 {}
        else if i == 10 {} else if i == 11 {} else {}
    }
}

/// The price table of the game, by key.
pub open spec fn item_price(k: ItemKey) -> u32 {
    match k {
        ItemKey::Herb => 8,
        ItemKey::HighHerb => 24,
        ItemKey::CopperKey => 0,
        ItemKey::MoonFragment => 50,
        ItemKey::MagicStone => 0,
        ItemKey::SilverOre => 0,
        ItemKey::AncientCoin => 0,
        ItemKey::DragonScale => 0,
        ItemKey::WoodenSword => 10,
        ItemKey::IronSword => 50,
        ItemKey::SteelSword => 150,
        ItemKey::MageStaff => 30,
        ItemKey::HolyStaff => 80,
    }
}

/// What a shop pays for an item, by key.
pub open spec fn item_sell_price(k: ItemKey) -> u32 {
    match k {
        ItemKey::Herb => 4,
        ItemKey::HighHerb => 12,
        ItemKey::CopperKey => 0,
        ItemKey::MoonFragment => 25,
        ItemKey::MagicStone => 30,
        ItemKey::SilverOre => 60,
        ItemKey::AncientCoin => 120,
        ItemKey::DragonScale => 250,
        ItemKey::WoodenSword => 5,
        ItemKey::IronSword => 25,
        ItemKey::SteelSword => 75,
        ItemKey::MageStaff => 15,
        ItemKey::HolyStaff => 40,
    }
}

/// The attack that an item adds when it is equipped.
pub open spec fn item_attack_bonus(k: ItemKey) -> i32 {
    match k {
        ItemKey::WoodenSword => 2,
        ItemKey::IronSword => 5,
        ItemKey::SteelSword => 10,
        ItemKey::MageStaff => 3,
        ItemKey::HolyStaff => 4,
        _ => 0,
    }
}

/// The effect of using an item.
pub open spec fn item_effect(k: ItemKey) -> ItemEffect {
    match k {
        ItemKey::Herb => ItemEffect::Heal { power: 25 },
        ItemKey::HighHerb => ItemEffect::Heal { power: 50 },
        ItemKey::CopperKey => ItemEffect::KeyItem,
        _ => ItemEffect::Material,
    }
}

/// The display name of an item.
pub open spec fn item_name(k: ItemKey) -> &'static str {
    match k {
        ItemKey::Herb => "やくそう",
        ItemKey::HighHerb => "じょうやくそう",
        ItemKey::CopperKey => "どうのカギ",
        ItemKey::MoonFragment => "つきのかけら",
        ItemKey::MagicStone => "まほうのいし",
        ItemKey::SilverOre => "ぎんこうせき",
        ItemKey::AncientCoin => "いにしえのコイン",
        ItemKey::DragonScale => "りゅうのウロコ",
        ItemKey::WoodenSword => "きのつるぎ",
        ItemKey::IronSword => "てつのつるぎ",
        ItemKey::SteelSword => "はがねのつるぎ",
        ItemKey::MageStaff => "まどうしのつえ",
        ItemKey::HolyStaff => "せいなるつえ",
    }
}

/// The description shown for an item.
pub open spec fn item_description(k: ItemKey) -> &'static str {
    match k {
        ItemKey::Herb => "HPを かいふくする やくそう",
        ItemKey::HighHerb => "HPを おおきく かいふくする",
        ItemKey::CopperKey => "どこかの とびらを あけるカギ",
        ItemKey::MoonFragment => "ほこらの とびらを ひらく ふしぎな かけら",
        ItemKey::MagicStone => "ふしぎな ちからを もつ いし",
        ItemKey::SilverOre => "きれいな ぎんいろの こうせき",
        ItemKey::AncientCoin => "おおむかしの きんか",
        ItemKey::DragonScale => "りゅうの からだを おおう ウロコ",
        ItemKey::WoodenSword => "きで つくった つるぎ",
        ItemKey::IronSword => "てつで きたえた つるぎ",
        ItemKey::SteelSword => "はがねの かたい つるぎ",
        ItemKey::MageStaff => "まりょくを たかめる つえ",
        ItemKey::HolyStaff => "せいなる ちからの つえ",
    }
}

/// The full data entry of an item.
pub open spec fn item_entry_spec(k: ItemKey) -> ItemEntry<ItemKey> {
    ItemEntry {
        key: k,
        name: item_name(k),
        effect: item_effect(k),
        description: item_description(k),
        price: item_price(k),
        sell_price: item_sell_price(k),
        attack_bonus: item_attack_bonus(k),
    }
}

impl ItemKey {
    /// Position of the key in the list of all keys.
    pub fn index(self) -> (r: usize)
        ensures
            r == key_index(self),
            r < ITEM_KEY_COUNT,
    {
        match self {
            ItemKey::Herb => 0,
            ItemKey::HighHerb => 1,
            ItemKey::CopperKey => 2,
            ItemKey::MoonFragment => 3,
            ItemKey::MagicStone => 4,
            ItemKey::SilverOre => 5,
            ItemKey::AncientCoin => 6,
            ItemKey::DragonScale => 7,
            ItemKey::WoodenSword => 8,
            ItemKey::IronSword => 9,
            ItemKey::SteelSword => 10,
            ItemKey::MageStaff => 11,
            ItemKey::HolyStaff => 12,
        }
    }

    /// The key at a position of the list of all keys.
    pub fn from_index(i: usize) -> (r: ItemKey)
        requires
            i < ITEM_KEY_COUNT,
        ensures
            r == all_item_keys_spec()[i as int],
            key_index(r) == i,
    {
        proof { lemma_key_index_matches_list(); }
        if i == 0 {
            ItemKey::Herb
        } else if i == 1 {
            ItemKey::HighHerb
        } else if i == 2 {
            ItemKey::CopperKey
        } else if i == 3 {
            ItemKey::MoonFragment
        } else if i == 4 {
            ItemKey::MagicStone
        } else if i == 5 {
            ItemKey::SilverOre
        } else if i == 6 {
            ItemKey::AncientCoin
        } else if i == 7 {
            ItemKey::DragonScale
        } else if i == 8 {
            ItemKey::WoodenSword
        } else if i == 9 {
            ItemKey::IronSword
        } else if i == 10 {
            ItemKey::SteelSword
        } else if i == 11 {
            ItemKey::MageStaff
        } else {
            ItemKey::HolyStaff
        }
    }

    /// The data entry of the item.
    pub fn entry(self) -> (r: ItemEntry<ItemKey>)
        ensures
            r == item_entry_spec(self),
    {
        match self {
            ItemKey::Herb => ItemEntry {
                key: ItemKey::Herb,
                name: "やくそう",
                effect: ItemEffect::Heal { power: 25 },
                description: "HPを かいふくする やくそう",
                price: 8,
                sell_price: 4,
                attack_bonus: 0,
            },
            ItemKey::HighHerb => ItemEntry {
                key: ItemKey::HighHerb,
                name: "じょうやくそう",
                effect: ItemEffect::Heal { power: 50 },
                description: "HPを おおきく かいふくする",
                price: 24,
                sell_price: 12,
                attack_bonus: 0,
            },
            ItemKey::CopperKey => ItemEntry {
                key: ItemKey::CopperKey,
                name: "どうのカギ",
                effect: ItemEffect::KeyItem,
                description: "どこかの とびらを あけるカギ",
                price: 0,
                sell_price: 0,
                attack_bonus: 0,
            },
            ItemKey::MoonFragment => ItemEntry {
                key: ItemKey::MoonFragment,
                name: "つきのかけら",
                effect: ItemEffect::Material,
                description: "ほこらの とびらを ひらく ふしぎな かけら",
                price: 50,
                sell_price: 25,
                attack_bonus: 0,
            },
            ItemKey::MagicStone => ItemEntry {
                key: ItemKey::MagicStone,
                name: "まほうのいし",
                effect: ItemEffect::Material,
                description: "ふしぎな ちからを もつ いし",
                price: 0,
                sell_price: 30,
                attack_bonus: 0,
            },
            ItemKey::SilverOre => ItemEntry {
                key: ItemKey::SilverOre,
                name: "ぎんこうせき",
                effect: ItemEffect::Material,
                description: "きれいな ぎんいろの こうせき",
                price: 0,
                sell_price: 60,
                attack_bonus: 0,
            },
            ItemKey::AncientCoin => ItemEntry {
                key: ItemKey::AncientCoin,
                name: "いにしえのコイン",
                effect: ItemEffect::Material,
                description: "おおむかしの きんか",
                price: 0,
                sell_price: 120,
                attack_bonus: 0,
            },
            ItemKey::DragonScale => ItemEntry {
                key: ItemKey::DragonScale,
                name: "りゅうのウロコ",
                effect: ItemEffect::Material,
                description: "りゅうの からだを おおう ウロコ",
                price: 0,
                sell_price: 250,
                attack_bonus: 0,
            },
            ItemKey::WoodenSword => ItemEntry {
                key: ItemKey::WoodenSword,
                name: "きのつるぎ",
                effect: ItemEffect::Material,
                description: "きで つくった つるぎ",
                price: 10,
                sell_price: 5,
                attack_bonus: 2,
            },
            ItemKey::IronSword => ItemEntry {
                key: ItemKey::IronSword,
                name: "てつのつるぎ",
                effect: ItemEffect::Material,
                description: "てつで きたえた つるぎ",
                price: 50,
                sell_price: 25,
                attack_bonus: 5,
            },
            ItemKey::SteelSword => ItemEntry {
                key: ItemKey::SteelSword,
                name: "はがねのつるぎ",
                effect: ItemEffect::Material,
                description: "はがねの かたい つるぎ",
                price: 150,
                sell_price: 75,
                attack_bonus: 10,
            },
            ItemKey::MageStaff => ItemEntry {
                key: ItemKey::MageStaff,
                name: "まどうしのつえ",
                effect: ItemEffect::Material,
                description: "まりょくを たかめる つえ",
                price: 30,
                sell_price: 15,
                attack_bonus: 3,
            },
            ItemKey::HolyStaff => ItemEntry {
                key: ItemKey::HolyStaff,
                name: "せいなるつえ",
                effect: ItemEffect::Material,
                description: "せいなる ちからの つえ",
                price: 80,
                sell_price: 40,
                attack_bonus: 4,
            },
        }
    }

    /// The display name of the item.
    pub fn name(self) -> (r: &'static str)
        ensures
            r == item_name(self),
    {
        self.entry().name
    }

    /// A key names a weapon when its item raises the attack.
    pub fn is_weapon(self) -> (r: bool)
        ensures
            r == (item_attack_bonus(self) > 0),
    {
        self.entry().attack_bonus > 0
    }
}

impl ItemLookup for ItemKey {
    open spec fn spec_entry(&self) -> ItemEntry<ItemKey> {
        item_entry_spec(*self)
    }

    fn entry(&self) -> (r: ItemEntry<ItemKey>) {
        (*self).entry()
    }
}

/// All item keys, in declaration order.
pub fn all_item_keys() -> (r: Vec<ItemKey>)
    ensures
        r@ == all_item_keys_spec(),
{
    let mut v: Vec<ItemKey> = Vec::new();
    let mut i: usize = 0;
    while i < ITEM_KEY_COUNT
        invariant
            i <= ITEM_KEY_COUNT,
            v@ == all_item_keys_spec().take(i as int),
        decreases ITEM_KEY_COUNT - i,
    {
        let k = ItemKey::from_index(i);
        v.push(k);
        proof {
            assert(all_item_keys_spec().take(i + 1) =~= all_item_keys_spec().take(i as int).push(k));
        }
        i = i + 1;
    }
    proof {
        assert(all_item_keys_spec().take(13) =~= all_item_keys_spec());
    }
    v
}

/// The items sold by the item shop.
pub fn shop_items() -> (r: Vec<ItemKey>)
    ensures
        r@ == seq![ItemKey::Herb, ItemKey::HighHerb, ItemKey::MoonFragment],
{
    vec![ItemKey::Herb, ItemKey::HighHerb, ItemKey::MoonFragment]
}

/// The weapons sold by the weapon shop.
pub fn shop_weapons() -> (r: Vec<ItemKey>)
    ensures
        r@ == seq![ItemKey::WoodenSword, ItemKey::IronSword, ItemKey::MageStaff],
{
    vec![ItemKey::WoodenSword, ItemKey::IronSword, ItemKey::MageStaff]
}

} // verus!
