//! Enemies, their strength by tier, and the encounter tables.
use vstd::prelude::*;
use crate::spell::SpellKind;
use crate::stats::CombatStats;

verus! {

/// The kinds of enemies.
#[derive(Debug, Clone, Copy, PartialEq, Eq, Hash, Structural)]
pub enum EnemyKind {
    Slime,
    Bat,
    Goblin,
    Wolf,
    Specter,
    Scorpion,
    Skeleton,
    Lizardman,
    Golem,
    Demon,
    Dragon,
    Wraith,
    DarkLord,
}

/// The display name of an enemy kind.
pub open spec fn enemy_name(k: EnemyKind) -> &'static str {
    match k {
        EnemyKind::Slime => "スライム",
        EnemyKind::Bat => "コウモリ",
        EnemyKind::Goblin => "ゴブリン",
        EnemyKind::Wolf => "おおかみ",
        EnemyKind::Specter => "ゴースト",
        EnemyKind::Scorpion => "サソリ",
        EnemyKind::Skeleton => "スケルトン",
        EnemyKind::Lizardman => "リザードマン",
        EnemyKind::Golem => "ゴーレム",
        EnemyKind::Demon => "デーモン",
        EnemyKind::Dragon => "ドラゴン",
        EnemyKind::Wraith => "レイス",
        EnemyKind::DarkLord => "まおう",
    }
}

/// The image of an enemy kind.
pub open spec fn enemy_sprite(k: EnemyKind) -> &'static str {
    match k {
        EnemyKind::Slime => "enemies/slime.png",
        EnemyKind::Bat => "enemies/bat.png",
        EnemyKind::Goblin => "enemies/goblin.png",
        EnemyKind::Wolf => "enemies/wolf.png",
        EnemyKind::Specter => "enemies/ghost.png",
        EnemyKind::Scorpion => "enemies/scorpion.png",
        EnemyKind::Skeleton => "enemies/skeleton.png",
        EnemyKind::Lizardman => "enemies/lizardman.png",
        EnemyKind::Golem => "enemies/golem.png",
        EnemyKind::Demon => "enemies/demon.png",
        EnemyKind::Dragon => "enemies/dragon.png",
        EnemyKind::Wraith => "enemies/wraith.png",
        EnemyKind::DarkLord => "enemies/dark_lord.png",
    }
}

/// Experience for defeating a tier 1 enemy.
pub open spec fn base_exp_spec(k: EnemyKind) -> u32 {
    match k {
        EnemyKind::Slime => 3,
        EnemyKind::Bat => 4,
        EnemyKind::Goblin => 6,
        EnemyKind::Wolf => 8,
        EnemyKind::Specter => 10,
        EnemyKind::Scorpion => 7,
        EnemyKind::Skeleton => 10,
        EnemyKind::Lizardman => 12,
        EnemyKind::Golem => 15,
        EnemyKind::Demon => 18,
        EnemyKind::Dragon => 25,
        EnemyKind::Wraith => 20,
        EnemyKind::DarkLord => 100,
    }
}

/// The spells an enemy kind casts, in the order it tries them.
pub open spec fn enemy_spells_spec(k: EnemyKind) -> Seq<SpellKind> {
    match k {
        EnemyKind::Specter => seq![SpellKind::Fire1, SpellKind::Drain1, SpellKind::Sleep1],
        EnemyKind::Demon => seq![SpellKind::Fire1, SpellKind::Blaze1],
        EnemyKind::Wraith => seq![SpellKind::Fire2, SpellKind::Blaze1, SpellKind::Drain2, SpellKind::Sleepall1],
        EnemyKind::Dragon => seq![SpellKind::Blaze2],
        EnemyKind::DarkLord => seq![SpellKind::Blaze2, SpellKind::Fire2, SpellKind::Heal2, SpellKind::Siphon2, SpellKind::Poisonall1],
        _ => Seq::empty(),
    }
}

/// Tier 1 statistics: (max_hp, attack, defense, speed, max_mp).
pub open spec fn base_stats_spec(k: EnemyKind) -> (i32, i32, i32, i32, i32) {
    match k {
        EnemyKind::Slime => (8, 2, 1, 3, 0),
        EnemyKind::Bat => (6, 3, 0, 6, 0),
        EnemyKind::Goblin => (15, 5, 2, 3, 0),
        EnemyKind::Wolf => (12, 7, 1, 5, 0),
        EnemyKind::Specter => (20, 4, 3, 2, 8),
        EnemyKind::Scorpion => (14, 6, 3, 4, 0),
        EnemyKind::Skeleton => (18, 8, 4, 3, 0),
        EnemyKind::Lizardman => (22, 9, 5, 4, 0),
        EnemyKind::Golem => (35, 10, 8, 1, 0),
        EnemyKind::Demon => (28, 12, 6, 5, 15),
        EnemyKind::Dragon => (40, 15, 10, 3, 20),
        EnemyKind::Wraith => (30, 11, 7, 6, 18),
        EnemyKind::DarkLord => (200, 25, 15, 8, 50),
    }
}

impl EnemyKind {
    pub fn name(self) -> (r: &'static str)
        ensures
            r == enemy_name(self),
    {
        match self {
            EnemyKind::Slime => "スライム",
            EnemyKind::Bat => "コウモリ",
            EnemyKind::Goblin => "ゴブリン",
            EnemyKind::Wolf => "おおかみ",
            EnemyKind::Specter => "ゴースト",
            EnemyKind::Scorpion => "サソリ",
            EnemyKind::Skeleton => "スケルトン",
            EnemyKind::Lizardman => "リザードマン",
            EnemyKind::Golem => "ゴーレム",
            EnemyKind::Demon => "デーモン",
            EnemyKind::Dragon => "ドラゴン",
            EnemyKind::Wraith => "レイス",
            EnemyKind::DarkLord => "まおう",
        }
    }

    pub fn sprite_path(self) -> (r: &'static str)
        ensures
            r == enemy_sprite(self),
    {
        match self {
            EnemyKind::Slime => "enemies/slime.png",
            EnemyKind::Bat => "enemies/bat.png",
            EnemyKind::Goblin => "enemies/goblin.png",
            EnemyKind::Wolf => "enemies/wolf.png",
            EnemyKind::Specter => "enemies/ghost.png",
            EnemyKind::Scorpion => "enemies/scorpion.png",
            EnemyKind::Skeleton => "enemies/skeleton.png",
            EnemyKind::Lizardman => "enemies/lizardman.png",
            EnemyKind::Golem => "enemies/golem.png",
            EnemyKind::Demon => "enemies/demon.png",
            EnemyKind::Dragon => "enemies/dragon.png",
            EnemyKind::Wraith => "enemies/wraith.png",
            EnemyKind::DarkLord => "enemies/dark_lord.png",
        }
    }

    /// Experience for defeating a tier 1 enemy.
    pub fn base_exp_reward(self) -> (r: u32)
        ensures
            r == base_exp_spec(self),
    {
        match self {
            EnemyKind::Slime => 3,
            EnemyKind::Bat => 4,
            EnemyKind::Goblin => 6,
            EnemyKind::Wolf => 8,
            EnemyKind::Specter => 10,
            EnemyKind::Scorpion => 7,
            EnemyKind::Skeleton => 10,
            EnemyKind::Lizardman => 12,
            EnemyKind::Golem => 15,
            EnemyKind::Demon => 18,
            EnemyKind::Dragon => 25,
            EnemyKind::Wraith => 20,
            EnemyKind::DarkLord => 100,
        }
    }

    /// Experience of a tier 1 enemy.
    pub fn exp_reward(self) -> (r: u32)
        ensures
            r == base_exp_spec(self),
    {
        self.base_exp_reward()
    }

    /// The spells the enemy casts, in the order it tries them.
    pub fn spells(self) -> (r: Vec<SpellKind>)
        ensures
            r@ == enemy_spells_spec(self),
    {
        match self {
            EnemyKind::Specter => vec![SpellKind::Fire1, SpellKind::Drain1, SpellKind::Sleep1],
            EnemyKind::Demon => vec![SpellKind::Fire1, SpellKind::Blaze1],
            EnemyKind::Wraith => vec![SpellKind::Fire2, SpellKind::Blaze1, SpellKind::Drain2, SpellKind::Sleepall1],
            EnemyKind::Dragon => vec![SpellKind::Blaze2],
            EnemyKind::DarkLord => vec![SpellKind::Blaze2, SpellKind::Fire2, SpellKind::Heal2, SpellKind::Siphon2, SpellKind::Poisonall1],
            _ => Vec::new(),
        }
    }

    /// Tier 1 statistics: (max_hp, attack, defense, speed, max_mp).
    pub fn base_stats(self) -> (r: (i32, i32, i32, i32, i32))
        ensures
            r == base_stats_spec(self),
    {
        match self {
            EnemyKind::Slime => (8, 2, 1, 3, 0),
            EnemyKind::Bat => (6, 3, 0, 6, 0),
            EnemyKind::Goblin => (15, 5, 2, 3, 0),
            EnemyKind::Wolf => (12, 7, 1, 5, 0),
            EnemyKind::Specter => (20, 4, 3, 2, 8),
            EnemyKind::Scorpion => (14, 6, 3, 4, 0),
            EnemyKind::Skeleton => (18, 8, 4, 3, 0),
            EnemyKind::Lizardman => (22, 9, 5, 4, 0),
            EnemyKind::Golem => (35, 10, 8, 1, 0),
            EnemyKind::Demon => (28, 12, 6, 5, 15),
            EnemyKind::Dragon => (40, 15, 10, 3, 20),
            EnemyKind::Wraith => (30, 11, 7, 6, 18),
            EnemyKind::DarkLord => (200, 25, 15, 8, 50),
        }
    }
}

/// A statistic scaled by tier: x1 at tier 1, x1.5 rounded at tier 2, x2 at
/// tier 3, unchanged for any other tier.
pub open spec fn tier_scaled(v: int, tier: u8) -> int {
    if tier == 2 {
        (3 * v + 1) / 2
    } else if tier == 3 {
        2 * v
    } else {
        v
    }
}

/// Scales a non-negative statistic by tier.
pub fn scale_by_tier(v: i32, tier: u8) -> (r: i32)
    requires
        0 <= v <= 1000,
    ensures
        r == tier_scaled(v as int, tier),
{
    if tier == 2 {
        (3 * v + 1) / 2
    } else if tier == 3 {
        2 * v
    } else {
        v
    }
}

/// Experience scaled by tier: x1.5 (rounded down) at tier 2, x2 at tier 3.
pub open spec fn tier_exp(base: u32, tier: u8) -> int {
    if tier == 2 {
        base * 3 / 2
    } else if tier == 3 {
        base * 2
    } else {
        base as int
    }
}

/// An enemy in battle.
#[derive(Debug, Clone, Copy)]
pub struct Enemy {
    pub kind: EnemyKind,
    pub tier: u8,
    pub stats: CombatStats,
}

/// The statistics of a fresh enemy of a kind and tier.
pub open spec fn enemy_stats_spec(kind: EnemyKind, tier: u8) -> CombatStats {
    let (hp, atk, def, spd, mp) = base_stats_spec(kind);
    CombatStats {
        hp: tier_scaled(hp as int, tier) as i32,
        max_hp: tier_scaled(hp as int, tier) as i32,
        mp: tier_scaled(mp as int, tier) as i32,
        max_mp: tier_scaled(mp as int, tier) as i32,
        attack: tier_scaled(atk as int, tier) as i32,
        defense: tier_scaled(def as int, tier) as i32,
        speed: tier_scaled(spd as int, tier) as i32,
    }
}

/// The tier mark appended to a name.
pub open spec fn tier_suffix(tier: u8) -> Seq<char> {
    if tier == 2 {
        "・強"@
    } else if tier == 3 {
        "・凶"@
    } else {
        Seq::empty()
    }
}

impl Enemy {
    /// An enemy of a kind at a tier, with full HP and MP.
    pub fn new(kind: EnemyKind, tier: u8) -> (r: Self)
        ensures
            r.kind == kind,
            r.tier == tier,
            r.stats == enemy_stats_spec(kind, tier),
    {
        let (hp, atk, def, spd, mp) = kind.base_stats();
        Enemy {
            kind,
            tier,
            stats: CombatStats::new(
                scale_by_tier(hp, tier),
                scale_by_tier(atk, tier),
                scale_by_tier(def, tier),
                scale_by_tier(spd, tier),
                scale_by_tier(mp, tier),
            ),
        }
    }

    /// Experience for defeating the enemy, by tier.
    pub fn exp_reward(&self) -> (r: u32)
        ensures
            r == tier_exp(base_exp_spec(self.kind), self.tier),
    {
        let base = self.kind.base_exp_reward();
        if self.tier == 2 {
            base * 3 / 2
        } else if self.tier == 3 {
            base * 2
        } else {
            base
        }
    }

    /// The name with its tier mark.
    pub fn display_name(&self) -> (r: String)
        ensures
            r@ == enemy_name(self.kind)@ + tier_suffix(self.tier),
    {
        let mut s = String::from_str(self.kind.name());
        if self.tier == 2 {
            proof { reveal_strlit("・強"); }
            s.append("・強");
        } else if self.tier == 3 {
            proof { reveal_strlit("・凶"); }
            s.append("・凶");
        } else {
            assert(s@ + Seq::<char>::empty() =~= s@);
        }
        s
    }

    pub fn slime() -> (r: Self)
        ensures
            r.kind == EnemyKind::Slime,
            r.tier == 1,
            r.stats == enemy_stats_spec(EnemyKind::Slime, 1),
    {
        Self::new(EnemyKind::Slime, 1)
    }

    pub fn bat() -> (r: Self)
        ensures
            r.kind == EnemyKind::Bat,
            r.tier == 1,
            r.stats == enemy_stats_spec(EnemyKind::Bat, 1),
    {
        Self::new(EnemyKind::Bat, 1)
    }

    pub fn goblin() -> (r: Self)
        ensures
            r.kind == EnemyKind::Goblin,
            r.tier == 1,
            r.stats == enemy_stats_spec(EnemyKind::Goblin, 1),
    {
        Self::new(EnemyKind::Goblin, 1)
    }

    pub fn wolf() -> (r: Self)
        ensures
            r.kind == EnemyKind::Wolf,
            r.tier == 1,
            r.stats == enemy_stats_spec(EnemyKind::Wolf, 1),
    {
        Self::new(EnemyKind::Wolf, 1)
    }

    pub fn ghost() -> (r: Self)
        ensures
            r.kind == EnemyKind::Specter,
            r.tier == 1,
            r.stats == enemy_stats_spec(EnemyKind::Specter, 1),
    {
        Self::new(EnemyKind::Specter, 1)
    }

    pub fn dark_lord() -> (r: Self)
        ensures
            r.kind == EnemyKind::DarkLord,
            r.tier == 1,
            r.stats == enemy_stats_spec(EnemyKind::DarkLord, 1),
    {
        Self::new(EnemyKind::DarkLord, 1)
    }
}

/// One line of an encounter table.
#[derive(Debug, Clone, Copy, PartialEq, Eq)]
pub struct EncounterEntry {
    pub kind: EnemyKind,
    pub tier: u8,
    pub weight: u8,
}

/// Builds an encounter line.
pub fn e(kind: EnemyKind, tier: u8, weight: u8) -> (r: EncounterEntry)
    ensures
        r == (EncounterEntry { kind, tier, weight }),
{
    EncounterEntry { kind, tier, weight }
}

/// The encounter table of a continent, in caves or in the field; an
/// unknown continent uses the table of continent 0.
pub open spec fn encounter_table_spec(continent_id: u8, is_cave: bool) -> Seq<EncounterEntry> {
    if is_cave {
        if continent_id == 0 {
            seq![EncounterEntry { kind: EnemyKind::Slime, tier: 1, weight: 3 }, EncounterEntry { kind: EnemyKind::Slime, tier: 2, weight: 2 }, EncounterEntry { kind: EnemyKind::Bat, tier: 1, weight: 3 }, EncounterEntry { kind: EnemyKind::Bat, tier: 2, weight: 2 }, EncounterEntry { kind: EnemyKind::Goblin, tier: 1, weight: 3 }, EncounterEntry { kind: EnemyKind::Goblin, tier: 2, weight: 1 }]
        } else if continent_id == 1 {
            seq![EncounterEntry { kind: EnemyKind::Bat, tier: 2, weight: 1 }, EncounterEntry { kind: EnemyKind::Bat, tier: 3, weight: 1 }, EncounterEntry { kind: EnemyKind::Goblin, tier: 2, weight: 3 }, EncounterEntry { kind: EnemyKind::Goblin, tier: 3, weight: 1 }, EncounterEntry { kind: EnemyKind::Scorpion, tier: 2, weight: 3 }, EncounterEntry { kind: EnemyKind::Scorpion, tier: 3, weight: 1 }, EncounterEntry { kind: EnemyKind::Wolf, tier: 1, weight: 2 }, EncounterEntry { kind: EnemyKind::Skeleton, tier: 1, weight: 1 }]
        } else if continent_id == 2 {
            seq![EncounterEntry { kind: EnemyKind::Goblin, tier: 3, weight: 1 }, EncounterEntry { kind: EnemyKind::Scorpion, tier: 2, weight: 1 }, EncounterEntry { kind: EnemyKind::Scorpion, tier: 3, weight: 1 }, EncounterEntry { kind: EnemyKind::Wolf, tier: 2, weight: 3 }, EncounterEntry { kind: EnemyKind::Wolf, tier: 3, weight: 1 }, EncounterEntry { kind: EnemyKind::Skeleton, tier: 1, weight: 2 }, EncounterEntry { kind: EnemyKind::Skeleton, tier: 2, weight: 2 }, EncounterEntry { kind: EnemyKind::Specter, tier: 1, weight: 2 }]
        } else if continent_id == 3 {
            seq![EncounterEntry { kind: EnemyKind::Wolf, tier: 3, weight: 1 }, EncounterEntry { kind: EnemyKind::Skeleton, tier: 2, weight: 2 }, EncounterEntry { kind: EnemyKind::Skeleton, tier: 3, weight: 1 }, EncounterEntry { kind: EnemyKind::Specter, tier: 2, weight: 3 }, EncounterEntry { kind: EnemyKind::Specter, tier: 3, weight: 1 }, EncounterEntry { kind: EnemyKind::Lizardman, tier: 1, weight: 2 }, EncounterEntry { kind: EnemyKind::Lizardman, tier: 2, weight: 2 }, EncounterEntry { kind: EnemyKind::Golem, tier: 1, weight: 1 }]
        } else if continent_id == 4 {
            seq![EncounterEntry { kind: EnemyKind::Specter, tier: 3, weight: 1 }, EncounterEntry { kind: EnemyKind::Lizardman, tier: 2, weight: 3 }, EncounterEntry { kind: EnemyKind::Lizardman, tier: 3, weight: 1 }, EncounterEntry { kind: EnemyKind::Golem, tier: 1, weight: 2 }, EncounterEntry { kind: EnemyKind::Golem, tier: 2, weight: 2 }, EncounterEntry { kind: EnemyKind::Wraith, tier: 1, weight: 2 }, EncounterEntry { kind: EnemyKind::Wraith, tier: 2, weight: 1 }, EncounterEntry { kind: EnemyKind::Demon, tier: 1, weight: 1 }]
        } else if continent_id == 5 {
            seq![EncounterEntry { kind: EnemyKind::Golem, tier: 2, weight: 1 }, EncounterEntry { kind: EnemyKind::Golem, tier: 3, weight: 1 }, EncounterEntry { kind: EnemyKind::Demon, tier: 2, weight: 3 }, EncounterEntry { kind: EnemyKind::Demon, tier: 3, weight: 1 }, EncounterEntry { kind: EnemyKind::Dragon, tier: 1, weight: 2 }, EncounterEntry { kind: EnemyKind::Dragon, tier: 2, weight: 1 }, EncounterEntry { kind: EnemyKind::Wraith, tier: 2, weight: 3 }, EncounterEntry { kind: EnemyKind::Wraith, tier: 3, weight: 1 }]
        } else {
            seq![EncounterEntry { kind: EnemyKind::Slime, tier: 1, weight: 3 }, EncounterEntry { kind: EnemyKind::Slime, tier: 2, weight: 2 }, EncounterEntry { kind: EnemyKind::Bat, tier: 1, weight: 3 }, EncounterEntry { kind: EnemyKind::Bat, tier: 2, weight: 2 }, EncounterEntry { kind: EnemyKind::Goblin, tier: 1, weight: 3 }, EncounterEntry { kind: EnemyKind::Goblin, tier: 2, weight: 1 }]
        }
    } else {
        if continent_id == 0 {
            seq![EncounterEntry { kind: EnemyKind::Slime, tier: 1, weight: 5 }, EncounterEntry { kind: EnemyKind::Bat, tier: 1, weight: 4 }, EncounterEntry { kind: EnemyKind::Goblin, tier: 1, weight: 2 }]
        } else if continent_id == 1 {
            seq![EncounterEntry { kind: EnemyKind::Slime, tier: 2, weight: 2 }, EncounterEntry { kind: EnemyKind::Bat, tier: 1, weight: 2 }, EncounterEntry { kind: EnemyKind::Bat, tier: 2, weight: 2 }, EncounterEntry { kind: EnemyKind::Goblin, tier: 1, weight: 4 }, EncounterEntry { kind: EnemyKind::Goblin, tier: 2, weight: 2 }, EncounterEntry { kind: EnemyKind::Scorpion, tier: 1, weight: 4 }, EncounterEntry { kind: EnemyKind::Scorpion, tier: 2, weight: 1 }, EncounterEntry { kind: EnemyKind::Wolf, tier: 1, weight: 1 }]
        } else if continent_id == 2 {
            seq![EncounterEntry { kind: EnemyKind::Bat, tier: 2, weight: 1 }, EncounterEntry { kind: EnemyKind::Goblin, tier: 2, weight: 2 }, EncounterEntry { kind: EnemyKind::Scorpion, tier: 1, weight: 2 }, EncounterEntry { kind: EnemyKind::Scorpion, tier: 2, weight: 2 }, EncounterEntry { kind: EnemyKind::Wolf, tier: 1, weight: 4 }, EncounterEntry { kind: EnemyKind::Wolf, tier: 2, weight: 2 }, EncounterEntry { kind: EnemyKind::Skeleton, tier: 1, weight: 4 }, EncounterEntry { kind: EnemyKind::Skeleton, tier: 2, weight: 1 }, EncounterEntry { kind: EnemyKind::Specter, tier: 1, weight: 2 }]
        } else if continent_id == 3 {
            seq![EncounterEntry { kind: EnemyKind::Scorpion, tier: 2, weight: 1 }, EncounterEntry { kind: EnemyKind::Wolf, tier: 2, weight: 2 }, EncounterEntry { kind: EnemyKind::Skeleton, tier: 2, weight: 3 }, EncounterEntry { kind: EnemyKind::Skeleton, tier: 3, weight: 1 }, EncounterEntry { kind: EnemyKind::Specter, tier: 1, weight: 3 }, EncounterEntry { kind: EnemyKind::Specter, tier: 2, weight: 2 }, EncounterEntry { kind: EnemyKind::Lizardman, tier: 1, weight: 4 }, EncounterEntry { kind: EnemyKind::Lizardman, tier: 2, weight: 1 }, EncounterEntry { kind: EnemyKind::Golem, tier: 1, weight: 1 }]
        } else if continent_id == 4 {
            seq![EncounterEntry { kind: EnemyKind::Skeleton, tier: 2, weight: 1 }, EncounterEntry { kind: EnemyKind::Skeleton, tier: 3, weight: 1 }, EncounterEntry { kind: EnemyKind::Specter, tier: 2, weight: 2 }, EncounterEntry { kind: EnemyKind::Lizardman, tier: 1, weight: 2 }, EncounterEntry { kind: EnemyKind::Lizardman, tier: 2, weight: 3 }, EncounterEntry { kind: EnemyKind::Golem, tier: 1, weight: 3 }, EncounterEntry { kind: EnemyKind::Golem, tier: 2, weight: 1 }, EncounterEntry { kind: EnemyKind::Wraith, tier: 1, weight: 2 }, EncounterEntry { kind: EnemyKind::Demon, tier: 1, weight: 1 }, EncounterEntry { kind: EnemyKind::Dragon, tier: 1, weight: 1 }]
        } else if continent_id == 5 {
            seq![EncounterEntry { kind: EnemyKind::Lizardman, tier: 2, weight: 1 }, EncounterEntry { kind: EnemyKind::Golem, tier: 2, weight: 2 }, EncounterEntry { kind: EnemyKind::Demon, tier: 1, weight: 3 }, EncounterEntry { kind: EnemyKind::Demon, tier: 2, weight: 2 }, EncounterEntry { kind: EnemyKind::Dragon, tier: 1, weight: 3 }, EncounterEntry { kind: EnemyKind::Dragon, tier: 2, weight: 1 }, EncounterEntry { kind: EnemyKind::Wraith, tier: 1, weight: 3 }, EncounterEntry { kind: EnemyKind::Wraith, tier: 2, weight: 2 }, EncounterEntry { kind: EnemyKind::Specter, tier: 2, weight: 1 }]
        } else if continent_id == 6 {
            seq![EncounterEntry { kind: EnemyKind::Golem, tier: 2, weight: 1 }, EncounterEntry { kind: EnemyKind::Golem, tier: 3, weight: 1 }, EncounterEntry { kind: EnemyKind::Demon, tier: 2, weight: 3 }, EncounterEntry { kind: EnemyKind::Demon, tier: 3, weight: 2 }, EncounterEntry { kind: EnemyKind::Dragon, tier: 1, weight: 2 }, EncounterEntry { kind: EnemyKind::Dragon, tier: 2, weight: 2 }, EncounterEntry { kind: EnemyKind::Wraith, tier: 2, weight: 3 }, EncounterEntry { kind: EnemyKind::Wraith, tier: 3, weight: 2 }]
        } else {
            seq![EncounterEntry { kind: EnemyKind::Slime, tier: 1, weight: 5 }, EncounterEntry { kind: EnemyKind::Bat, tier: 1, weight: 4 }, EncounterEntry { kind: EnemyKind::Goblin, tier: 1, weight: 2 }]
        }
    }
}

/// The encounter table of a continent, in caves or in the field.
#[verifier::rlimit(50)]
pub fn encounter_table(continent_id: u8, is_cave: bool) -> (r: Vec<EncounterEntry>)
    ensures
        r@ == encounter_table_spec(continent_id, is_cave),
{
    let v: Vec<EncounterEntry> = if is_cave {
        if continent_id == 0 {
            vec![e(EnemyKind::Slime, 1, 3), e(EnemyKind::Slime, 2, 2), e(EnemyKind::Bat, 1, 3), e(EnemyKind::Bat, 2, 2), e(EnemyKind::Goblin, 1, 3), e(EnemyKind::Goblin, 2, 1)]
        } else if continent_id == 1 {
            vec![e(EnemyKind::Bat, 2, 1), e(EnemyKind::Bat, 3, 1), e(EnemyKind::Goblin, 2, 3), e(EnemyKind::Goblin, 3, 1), e(EnemyKind::Scorpion, 2, 3), e(EnemyKind::Scorpion, 3, 1), e(EnemyKind::Wolf, 1, 2), e(EnemyKind::Skeleton, 1, 1)]
        } else if continent_id == 2 {
            vec![e(EnemyKind::Goblin, 3, 1), e(EnemyKind::Scorpion, 2, 1), e(EnemyKind::Scorpion, 3, 1), e(EnemyKind::Wolf, 2, 3), e(EnemyKind::Wolf, 3, 1), e(EnemyKind::Skeleton, 1, 2), e(EnemyKind::Skeleton, 2, 2), e(EnemyKind::Specter, 1, 2)]
        } else if continent_id == 3 {
            vec![e(EnemyKind::Wolf, 3, 1), e(EnemyKind::Skeleton, 2, 2), e(EnemyKind::Skeleton, 3, 1), e(EnemyKind::Specter, 2, 3), e(EnemyKind::Specter, 3, 1), e(EnemyKind::Lizardman, 1, 2), e(EnemyKind::Lizardman, 2, 2), e(EnemyKind::Golem, 1, 1)]
        } else if continent_id == 4 {
            vec![e(EnemyKind::Specter, 3, 1), e(EnemyKind::Lizardman, 2, 3), e(EnemyKind::Lizardman, 3, 1), e(EnemyKind::Golem, 1, 2), e(EnemyKind::Golem, 2, 2), e(EnemyKind::Wraith, 1, 2), e(EnemyKind::Wraith, 2, 1), e(EnemyKind::Demon, 1, 1)]
        } else if continent_id == 5 {
            vec![e(EnemyKind::Golem, 2, 1), e(EnemyKind::Golem, 3, 1), e(EnemyKind::Demon, 2, 3), e(EnemyKind::Demon, 3, 1), e(EnemyKind::Dragon, 1, 2), e(EnemyKind::Dragon, 2, 1), e(EnemyKind::Wraith, 2, 3), e(EnemyKind::Wraith, 3, 1)]
        } else {
            vec![e(EnemyKind::Slime, 1, 3), e(EnemyKind::Slime, 2, 2), e(EnemyKind::Bat, 1, 3), e(EnemyKind::Bat, 2, 2), e(EnemyKind::Goblin, 1, 3), e(EnemyKind::Goblin, 2, 1)]
        }
    } else {
        if continent_id == 0 {
            vec![e(EnemyKind::Slime, 1, 5), e(EnemyKind::Bat, 1, 4), e(EnemyKind::Goblin, 1, 2)]
        } else if continent_id == 1 {
            vec![e(EnemyKind::Slime, 2, 2), e(EnemyKind::Bat, 1, 2), e(EnemyKind::Bat, 2, 2), e(EnemyKind::Goblin, 1, 4), e(EnemyKind::Goblin, 2, 2), e(EnemyKind::Scorpion, 1, 4), e(EnemyKind::Scorpion, 2, 1), e(EnemyKind::Wolf, 1, 1)]
        } else if continent_id == 2 {
            vec![e(EnemyKind::Bat, 2, 1), e(EnemyKind::Goblin, 2, 2), e(EnemyKind::Scorpion, 1, 2), e(EnemyKind::Scorpion, 2, 2), e(EnemyKind::Wolf, 1, 4), e(EnemyKind::Wolf, 2, 2), e(EnemyKind::Skeleton, 1, 4), e(EnemyKind::Skeleton, 2, 1), e(EnemyKind::Specter, 1, 2)]
        } else if continent_id == 3 {
            vec![e(EnemyKind::Scorpion, 2, 1), e(EnemyKind::Wolf, 2, 2), e(EnemyKind::Skeleton, 2, 3), e(EnemyKind::Skeleton, 3, 1), e(EnemyKind::Specter, 1, 3), e(EnemyKind::Specter, 2, 2), e(EnemyKind::Lizardman, 1, 4), e(EnemyKind::Lizardman, 2, 1), e(EnemyKind::Golem, 1, 1)]
        } else if continent_id == 4 {
            vec![e(EnemyKind::Skeleton, 2, 1), e(EnemyKind::Skeleton, 3, 1), e(EnemyKind::Specter, 2, 2), e(EnemyKind::Lizardman, 1, 2), e(EnemyKind::Lizardman, 2, 3), e(EnemyKind::Golem, 1, 3), e(EnemyKind::Golem, 2, 1), e(EnemyKind::Wraith, 1, 2), e(EnemyKind::Demon, 1, 1), e(EnemyKind::Dragon, 1, 1)]
        } else if continent_id == 5 {
            vec![e(EnemyKind::Lizardman, 2, 1), e(EnemyKind::Golem, 2, 2), e(EnemyKind::Demon, 1, 3), e(EnemyKind::Demon, 2, 2), e(EnemyKind::Dragon, 1, 3), e(EnemyKind::Dragon, 2, 1), e(EnemyKind::Wraith, 1, 3), e(EnemyKind::Wraith, 2, 2), e(EnemyKind::Specter, 2, 1)]
        } else if continent_id == 6 {
            vec![e(EnemyKind::Golem, 2, 1), e(EnemyKind::Golem, 3, 1), e(EnemyKind::Demon, 2, 3), e(EnemyKind::Demon, 3, 2), e(EnemyKind::Dragon, 1, 2), e(EnemyKind::Dragon, 2, 2), e(EnemyKind::Wraith, 2, 3), e(EnemyKind::Wraith, 3, 2)]
        } else {
            vec![e(EnemyKind::Slime, 1, 5), e(EnemyKind::Bat, 1, 4), e(EnemyKind::Goblin, 1, 2)]
        }
    };
    assert(v@ =~= encounter_table_spec(continent_id, is_cave));
    v
}

/// Sum of the weights of a table.
pub open spec fn total_weight(t: Seq<EncounterEntry>) -> nat
    decreases t.len(),
{
    if t.len() == 0 {
        0
    } else {
        total_weight(t.drop_last()) + t.last().weight as nat
    }
}

/// The first line at or after `i` whose running weight passes `selected`,
/// `cum` being the weight of the lines before `i`; line 0 when none does.
pub open spec fn pick_from(t: Seq<EncounterEntry>, selected: int, i: int, cum: int) -> int
    decreases t.len() - i,
{
    if i < 0 || i >= t.len() {
        0
    } else if selected < cum + t[i].weight {
        i
    } else {
        pick_from(t, selected, i + 1, cum + t[i].weight)
    }
}

/// The weighted draw maps a roll in thousandths onto `0..total`.
pub open spec fn selected_weight(total: int, random: int) -> int {
    if total == 0 {
        0
    } else if random * total / 1000 > total - 1 {
        total - 1
    } else {
        random * total / 1000
    }
}

/// The line drawn from a table by a roll in thousandths.
pub open spec fn picked_index(t: Seq<EncounterEntry>, random: int) -> int {
    pick_from(t, selected_weight(total_weight(t) as int, random), 0, 0)
}

proof fn lemma_total_weight_prefix(t: Seq<EncounterEntry>, i: int)
    requires
        0 <= i < t.len(),
    ensures
        total_weight(t.take(i + 1)) == total_weight(t.take(i)) + t[i].weight,
{
    assert(t.take(i + 1).drop_last() =~= t.take(i));
}

proof fn lemma_total_weight_bound(t: Seq<EncounterEntry>)
    ensures
        total_weight(t) <= 255 * t.len(),
    decreases t.len(),
{
    if t.len() > 0 {
        lemma_total_weight_bound(t.drop_last());
    }
}

proof fn lemma_pick_from_range(t: Seq<EncounterEntry>, selected: int, i: int, cum: int)
    ensures
        0 <= pick_from(t, selected, i, cum) < t.len() || (t.len() == 0 && pick_from(t, selected, i, cum) == 0),
    decreases t.len() - i,
{
    if 0 <= i < t.len() && selected >= cum + t[i].weight {
        lemma_pick_from_range(t, selected, i + 1, cum + t[i].weight);
    }
}

/// Draws one line of a table with a roll in thousandths: the roll is
/// scaled onto the total weight, and the line whose running weight first
/// passes it is taken.
pub fn pick_from_table(table: &[EncounterEntry], random: u32) -> (r: EncounterEntry)
    requires
        table@.len() > 0,
        table@.len() <= 0x1_0000_0000,
    ensures
        0 <= picked_index(table@, random as int) < table@.len(),
        r == table@[picked_index(table@, random as int)],
{
    let mut total: u64 = 0;
    let mut i: usize = 0;
    while i < table.len()
        invariant
            i <= table@.len(),
            table@.len() <= 0x1_0000_0000,
            total == total_weight(table@.take(i as int)),
            total <= 255 * i,
        decreases table@.len() - i,
    {
        proof { lemma_total_weight_prefix(table@, i as int); }
        total = total + table[i].weight as u64;
        i = i + 1;
    }
    proof { assert(table@.take(table@.len() as int) =~= table@); }
    assert((random as u128) * (total as u128) <= 0xffff_ffff * 255 * 0x1_0000_0000) by (nonlinear_arith)
        requires
            random <= 0xffff_ffff,
            total <= 255 * 0x1_0000_0000,
    ;
    let scaled: u128 = (random as u128) * (total as u128) / 1000;
    let selected: u64 = if total == 0 {
        0
    } else if scaled > (total - 1) as u128 {
        total - 1
    } else {
        scaled as u64
    };
    assert(selected == selected_weight(total_weight(table@) as int, random as int));
    let mut cum: u64 = 0;
    let mut j: usize = 0;
    while j < table.len()
        invariant
            j <= table@.len(),
            table@.len() <= 0x1_0000_0000,
            cum == total_weight(table@.take(j as int)),
            cum <= 255 * j,
            selected == selected_weight(total_weight(table@) as int, random as int),
            pick_from(table@, selected as int, j as int, cum as int) == pick_from(table@, selected as int, 0, 0),
        decreases table@.len() - j,
    {
        proof { lemma_total_weight_prefix(table@, j as int); }
        let next = cum + table[j].weight as u64;
        if selected < next {
            proof { lemma_pick_from_range(table@, selected as int, 0, 0); }
            return table[j];
        }
        cum = next;
        j = j + 1;
    }
    proof { lemma_pick_from_range(table@, selected as int, 0, 0); }
    table[0]
}

/// Most enemies in a group on a continent.
pub open spec fn max_group_size(continent_id: u8) -> int {
    if continent_id == 0 {
        2
    } else if continent_id == 1 {
        3
    } else {
        4
    }
}

/// The size of a group from a roll in thousandths: below 300 one, below
/// 600 two, below 850 three, else four; capped by the continent.
pub open spec fn group_size(continent_id: u8, count_random: int) -> int {
    let wanted: int = if count_random < 300 {
        1
    } else if count_random < 600 {
        2
    } else if count_random < 850 {
        3
    } else {
        4
    };
    if wanted < max_group_size(continent_id) {
        wanted
    } else {
        max_group_size(continent_id)
    }
}

/// The roll of the `i`-th enemy: the kind roll shifted by 370 per enemy,
/// modulo 1000.
pub open spec fn member_roll(kind_random: int, i: int) -> int {
    (kind_random + i * 370) % 1000
}

/// Builds a group of enemies for a continent: its size from one roll,
/// and each member drawn from the encounter table with the shifted kind roll.
pub fn generate_enemy_group(continent_id: u8, is_cave: bool, count_random: u32, kind_random: u32) -> (r: Vec<Enemy>)
    ensures
        r@.len() == group_size(continent_id, count_random as int),
        forall|i: int| 0 <= i < r@.len() ==> {
            let t = encounter_table_spec(continent_id, is_cave);
            let line = t[picked_index(t, member_roll(kind_random as int, i))];
            &&& (#[trigger] r@[i]).kind == line.kind
            &&& r@[i].tier == line.tier
            &&& r@[i].stats == enemy_stats_spec(line.kind, line.tier)
        },
{
    let table = encounter_table(continent_id, is_cave);
    let max_count: usize = if continent_id == 0 {
        2
    } else if continent_id == 1 {
        3
    } else {
        4
    };
    let wanted: usize = if count_random < 300 {
        1
    } else if count_random < 600 {
        2
    } else if count_random < 850 {
        3
    } else {
        4
    };
    let count = if wanted < max_count { wanted } else { max_count };
    let kr: u64 = kind_random as u64 % 1000;
    let mut group: Vec<Enemy> = Vec::new();
    let mut i: usize = 0;
    while i < count
        invariant
            i <= count,
            count == group_size(continent_id, count_random as int),
            count <= 4,
            kr == kind_random % 1000,
            table@ == encounter_table_spec(continent_id, is_cave),
            table@.len() > 0,
            group@.len() == i,
            forall|j: int| 0 <= j < i ==> {
                let t = encounter_table_spec(continent_id, is_cave);
                let line = t[picked_index(t, member_roll(kind_random as int, j))];
                &&& (#[trigger] group@[j]).kind == line.kind
                &&& group@[j].tier == line.tier
                &&& group@[j].stats == enemy_stats_spec(line.kind, line.tier)
            },
        decreases count - i,
    {
        let roll: u64 = (kr + (i as u64) * 370) % 1000;
        assert(roll == member_roll(kind_random as int, i as int)) by (nonlinear_arith)
            requires
                roll == (kr + i * 370) % 1000,
                kr == kind_random % 1000,
                kind_random >= 0,
                i >= 0,
        ;
        let line = pick_from_table(table.as_slice(), roll as u32);
        group.push(Enemy::new(line.kind, line.tier));
        i = i + 1;
    }
    group
}


/// Every line of a table has a weight of one or more and a tier from one to
/// three.
pub open spec fn lines_ok(t: Seq<EncounterEntry>) -> bool
    decreases t.len(),
{
    if t.len() == 0 {
        true
    } else {
        lines_ok(t.drop_last()) && t.last().weight >= 1 && 1 <= t.last().tier <= 3
    }
}

/// Lines `i`, `j` and `k` of a table hold three different kinds.
pub open spec fn three_kinds(t: Seq<EncounterEntry>, i: int, j: int, k: int) -> bool {
    &&& 0 <= i < t.len()
    &&& 0 <= j < t.len()
    &&& 0 <= k < t.len()
    &&& t[i].kind != t[j].kind
    &&& t[i].kind != t[k].kind
    &&& t[j].kind != t[k].kind
}

/// Every encounter table has lines, each with a weight and a tier from one
/// to three; each field table holds at least three kinds; the caves of the
/// first continent hold a stronger tier; and an unknown continent uses the
/// tables of the first one.
pub proof fn lemma_encounter_tables(continent_id: u8, is_cave: bool)
    ensures
        encounter_table_spec(continent_id, is_cave).len() > 0,
        lines_ok(encounter_table_spec(continent_id, is_cave)),
        !is_cave ==> exists|i: int, j: int, k: int| #[trigger] three_kinds(encounter_table_spec(continent_id, false), i, j, k),
        exists|i: int| 0 <= i < encounter_table_spec(0, true).len() && #[trigger] encounter_table_spec(0, true)[i].tier >= 2,
        continent_id >= 7 ==> encounter_table_spec(continent_id, false) == encounter_table_spec(0, false),
        continent_id >= 6 ==> encounter_table_spec(continent_id, true) == encounter_table_spec(0, true),
{
    reveal_with_fuel(lines_ok, 11);
    let t = encounter_table_spec(continent_id, is_cave);
    assert(encounter_table_spec(0, true)[1].tier >= 2);
    if !is_cave {
        let f = encounter_table_spec(continent_id, false);
        if continent_id == 0 || continent_id >= 7 {
            assert(three_kinds(f, 0, 1, 2));
        } else if continent_id == 1 {
            assert(three_kinds(f, 0, 1, 3));
        } else if continent_id == 2 {
            assert(three_kinds(f, 0, 1, 2));
        } else if continent_id == 3 {
            assert(three_kinds(f, 0, 1, 2));
        } else if continent_id == 4 {
            assert(three_kinds(f, 0, 2, 3));
        } else if continent_id == 5 {
            assert(three_kinds(f, 0, 1, 2));
        } else {
            assert(three_kinds(f, 0, 2, 4));
        }
    }
}


/// A statistic of a tier-`tier` enemy against its base value: unchanged at
/// tier one (and any tier besides two and three), half again as much at
/// tier two with halves rounded up, double at tier three.
pub open spec fn tier_multiplied(stat: int, base: int, tier: u8) -> bool {
    if tier == 2 {
        2 * stat == 3 * base || 2 * stat == 3 * base + 1
    } else if tier == 3 {
        stat == 2 * base
    } else {
        stat == base
    }
}

/// Every statistic of an enemy, HP, MP, attack, defense and speed alike, is
/// its kind's base value multiplied by the tier's factor; the enemy starts
/// with full HP and MP.
pub proof fn lemma_enemy_stats_scale(kind: EnemyKind, tier: u8)
    ensures
        ({
            let (hp, atk, def, spd, mp) = base_stats_spec(kind);
            let s = enemy_stats_spec(kind, tier);
            &&& tier_multiplied(s.max_hp as int, hp as int, tier)
            &&& tier_multiplied(s.max_mp as int, mp as int, tier)
            &&& tier_multiplied(s.attack as int, atk as int, tier)
            &&& tier_multiplied(s.defense as int, def as int, tier)
            &&& tier_multiplied(s.speed as int, spd as int, tier)
            &&& s.hp == s.max_hp
            &&& s.mp == s.max_mp
        }),
{
}

} // verus!
