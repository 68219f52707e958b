//! Which spells a party member knows, read from the character table.
use vstd::prelude::*;
use crate::character_table::CharacterParamTable;
use crate::party::PartyMemberKind;
use crate::spell::{
    entries_of, learned_at, learned_by, pick_spells, select_learned, spell_entry_spec, SpellEntry,
    SpellKind,
};

verus! {

/// The spells a character knows at a level, in table order.
pub fn available_spells(kind: PartyMemberKind, level: u32, table: &CharacterParamTable) -> (r: Vec<SpellEntry>)
    ensures
        r@ == pick_spells(table.entry_of(kind).spell_learn_table@, learned_by(level)).map_values(
            |k: SpellKind| spell_entry_spec(k),
        ),
{
    let picked = select_learned(table.spell_learn_table(kind), level, false);
    entries_of(&picked)
}

/// The spells a character learns on reaching exactly this level.
pub fn spells_learned_at_level(kind: PartyMemberKind, level: u32, table: &CharacterParamTable) -> (r: Vec<SpellEntry>)
    ensures
        r@ == pick_spells(table.entry_of(kind).spell_learn_table@, learned_at(level)).map_values(
            |k: SpellKind| spell_entry_spec(k),
        ),
{
    let picked = select_learned(table.spell_learn_table(kind), level, true);
    entries_of(&picked)
}

} // verus!
