//! The weapon slot of a party member.
use vstd::prelude::*;
use crate::item::ItemLookup;

verus! {

/// What a party member has equipped.
#[derive(Debug)]
pub struct Equipment<K: Copy> {
    pub weapon: Option<K>,
}

impl<K: Copy> Clone for Equipment<K> {
    fn clone(&self) -> (r: Self)
        ensures
            r == *self,
    {
        Equipment { weapon: self.weapon }
    }
}

impl<K: Copy> Default for Equipment<K> {
    fn default() -> (r: Self)
        ensures
            r.weapon is None,
    {
        Self { weapon: None }
    }
}

impl<K: Copy> Equipment<K> {
    /// Nothing equipped.
    pub fn new() -> (r: Self)
        ensures
            r.weapon is None,
    {
        Self { weapon: None }
    }

    /// Equips a weapon and hands back the one it replaced.
    pub fn equip_weapon(&mut self, weapon: K) -> (r: Option<K>)
        ensures
            r == old(self).weapon,
            final(self).weapon == Some(weapon),
    {
        let previous = self.weapon;
        self.weapon = Some(weapon);
        previous
    }
}

/// The attack that an equipment adds.
pub open spec fn equipment_bonus<K: ItemLookup>(e: Equipment<K>) -> i32 {
    match e.weapon {
        None => 0,
        Some(w) => w.spec_entry().attack_bonus,
    }
}

impl<K: ItemLookup> Equipment<K> {
    /// The attack added by what is equipped.
    pub fn attack_bonus(&self) -> (r: i32)
        ensures
            r == equipment_bonus(*self),
    {
        match self.weapon {
            None => 0,
            Some(w) => w.entry().attack_bonus,
        }
    }
}

} // verus!
