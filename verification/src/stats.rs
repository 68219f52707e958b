//! Combat statistics and how they grow.
use vstd::prelude::*;
use crate::spell::{spell_damage, spell_damage_spec};

verus! {

/// The divisor applied to the defense when a weapon attack lands.
pub const ATTACK_DEFENSE_DIVISOR: i32 = 2;

/// The fighting statistics of a party member or an enemy.
#[derive(Debug, Clone, Copy, PartialEq, Eq)]
pub struct CombatStats {
    pub hp: i32,
    pub max_hp: i32,
    pub mp: i32,
    pub max_mp: i32,
    pub attack: i32,
    pub defense: i32,
    pub speed: i32,
}

/// What a level-up adds to each statistic.
#[derive(Debug, Clone, Copy, PartialEq, Eq)]
pub struct StatGrowth {
    pub hp: i32,
    pub mp: i32,
    pub attack: i32,
    pub defense: i32,
    pub speed: i32,
}

/// The statistics after `n` level-ups.
pub open spec fn grown(s: CombatStats, g: StatGrowth, n: int) -> CombatStats {
    CombatStats {
        hp: (s.hp + n * g.hp) as i32,
        max_hp: (s.max_hp + n * g.hp) as i32,
        mp: (s.mp + n * g.mp) as i32,
        max_mp: (s.max_mp + n * g.mp) as i32,
        attack: (s.attack + n * g.attack) as i32,
        defense: (s.defense + n * g.defense) as i32,
        speed: (s.speed + n * g.speed) as i32,
    }
}

/// A value fits in `i32`.
pub open spec fn fits_i32(x: int) -> bool {
    i32::MIN <= x <= i32::MAX
}

/// `n` level-ups keep every statistic within `i32`.
pub open spec fn growth_fits(s: CombatStats, g: StatGrowth, n: int) -> bool {
    &&& fits_i32(s.hp + n * g.hp)
    &&& fits_i32(s.max_hp + n * g.hp)
    &&& fits_i32(s.mp + n * g.mp)
    &&& fits_i32(s.max_mp + n * g.mp)
    &&& fits_i32(s.attack + n * g.attack)
    &&& fits_i32(s.defense + n * g.defense)
    &&& fits_i32(s.speed + n * g.speed)
}

/// Weapon damage: `(attack - defense / 2) * random`, rounded, at least
/// one; the random factor is in thousandths.
pub open spec fn attack_damage_spec(attack: int, defense: int, random: int) -> i32 {
    spell_damage_spec(attack, defense, ATTACK_DEFENSE_DIVISOR as int, random)
}

/// Hit points after taking damage: never below zero.
pub open spec fn hp_after_damage(hp: int, damage: int) -> i32 {
    if hp - damage < 0 {
        0
    } else {
        (hp - damage) as i32
    }
}

impl CombatStats {
    /// Full HP and MP.
    pub fn new(max_hp: i32, attack: i32, defense: i32, speed: i32, max_mp: i32) -> (r: Self)
        ensures
            r == (CombatStats { hp: max_hp, max_hp, mp: max_mp, max_mp, attack, defense, speed }),
    {
        CombatStats { hp: max_hp, max_hp, mp: max_mp, max_mp, attack, defense, speed }
    }

    /// Alive while HP is above zero.
    pub fn is_alive(&self) -> (r: bool)
        ensures
            r == (self.hp > 0),
    {
        self.hp > 0
    }

    /// Loses HP, not below zero.
    pub fn take_damage(&mut self, damage: i32)
        requires
            fits_i32(old(self).hp - damage),
        ensures
            *final(self) == (CombatStats { hp: hp_after_damage(old(self).hp as int, damage as int), ..*old(self) }),
    {
        let left = self.hp - damage;
        self.hp = if left < 0 { 0 } else { left };
    }

    /// Spends MP if there is enough; says whether it did.
    pub fn use_mp(&mut self, cost: i32) -> (r: bool)
        requires
            cost >= 0,
        ensures
            r == (old(self).mp >= cost),
            r ==> *final(self) == (CombatStats { mp: (old(self).mp - cost) as i32, ..*old(self) }),
            !r ==> *final(self) == *old(self),
    {
        if self.mp >= cost {
            self.mp = self.mp - cost;
            true
        } else {
            false
        }
    }

    /// Loses MP, not below zero.
    pub fn drain_mp(&mut self, amount: i32)
        requires
            fits_i32(old(self).mp - amount),
        ensures
            *final(self) == (CombatStats { mp: hp_after_damage(old(self).mp as int, amount as int), ..*old(self) }),
    {
        let left = self.mp - amount;
        self.mp = if left < 0 { 0 } else { left };
    }

    /// Applies one level-up.
    pub fn apply_growth(&mut self, growth: &StatGrowth)
        requires
            growth_fits(*old(self), *growth, 1),
        ensures
            *final(self) == grown(*old(self), *growth, 1),
    {
        self.hp = self.hp + growth.hp;
        self.max_hp = self.max_hp + growth.hp;
        self.mp = self.mp + growth.mp;
        self.max_mp = self.max_mp + growth.mp;
        self.attack = self.attack + growth.attack;
        self.defense = self.defense + growth.defense;
        self.speed = self.speed + growth.speed;
    }

    /// Weapon damage: `(attack - defense / 2) * random`, rounded, at least one.
    pub fn calculate_damage(attack: i32, defense: i32, random_factor: u32) -> (r: i32)
        ensures
            r == attack_damage_spec(attack as int, defense as int, random_factor as int),
            r >= 1,
    {
        spell_damage(attack, defense, ATTACK_DEFENSE_DIVISOR, random_factor)
    }
}

} // verus!
