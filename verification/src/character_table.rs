//! The per-character parameter table.
use vstd::prelude::*;
use crate::party::{kind_index_spec, lemma_kind_index, PartyMemberKind, RecruitmentPath};
use crate::spell::SpellKind;
use crate::stats::{CombatStats, StatGrowth};

verus! {

/// Number of characters that can join the party.
pub const KIND_COUNT: usize = 10;

/// The data of one character.
#[derive(Debug)]
pub struct CharacterEntry {
    pub initial_stats: CombatStats,
    pub stat_growth: StatGrowth,
    pub recruit_method: RecruitmentPath,
    /// Pairs of (required level, spell), in the order the spells are listed.
    pub spell_learn_table: Vec<(u32, SpellKind)>,
}

/// The data of every character.
pub struct CharacterParamTable {
    entries: Vec<CharacterEntry>,
}

/// All characters, in list order.
pub open spec fn all_kinds_spec() -> Seq<PartyMemberKind> {
    seq![
        PartyMemberKind::Laios,
        PartyMemberKind::Chilchuck,
        PartyMemberKind::Marcille,
        PartyMemberKind::Senshi,
        PartyMemberKind::Falin,
        PartyMemberKind::Izutsumi,
        PartyMemberKind::Shuro,
        PartyMemberKind::Namari,
        PartyMemberKind::Kabru,
        PartyMemberKind::Rinsha,
    ]
}

/// Position of a character in the list of all characters.
pub fn kind_index(kind: PartyMemberKind) -> (r: usize)
    ensures
        r == kind_index_spec(kind),
        r < KIND_COUNT,
{
    match kind {
        PartyMemberKind::Laios => 0,
        PartyMemberKind::Chilchuck => 1,
        PartyMemberKind::Marcille => 2,
        PartyMemberKind::Senshi => 3,
        PartyMemberKind::Falin => 4,
        PartyMemberKind::Izutsumi => 5,
        PartyMemberKind::Shuro => 6,
        PartyMemberKind::Namari => 7,
        PartyMemberKind::Kabru => 8,
        PartyMemberKind::Rinsha => 9,
    }
}

/// The character at a position of the list of all characters.
pub fn kind_from_index(i: usize) -> (r: PartyMemberKind)
    requires
        i < KIND_COUNT,
    ensures
        r == all_kinds_spec()[i as int],
        kind_index_spec(r) == i,
{
    if i == 0 {
        PartyMemberKind::Laios
    } else if i == 1 {
        PartyMemberKind::Chilchuck
    } else if i == 2 {
        PartyMemberKind::Marcille
    } else if i == 3 {
        PartyMemberKind::Senshi
    } else if i == 4 {
        PartyMemberKind::Falin
    } else if i == 5 {
        PartyMemberKind::Izutsumi
    } else if i == 6 {
        PartyMemberKind::Shuro
    } else if i == 7 {
        PartyMemberKind::Namari
    } else if i == 8 {
        PartyMemberKind::Kabru
    } else {
        PartyMemberKind::Rinsha
    }
}

/// All characters, in list order.
pub fn all_kinds() -> (r: Vec<PartyMemberKind>)
    ensures
        r@ == all_kinds_spec(),
{
    let mut v: Vec<PartyMemberKind> = Vec::new();
    let mut i: usize = 0;
    while i < KIND_COUNT
        invariant
            i <= KIND_COUNT,
            v@ == all_kinds_spec().take(i as int),
        decreases KIND_COUNT - i,
    {
        let k = kind_from_index(i);
        v.push(k);
        proof {
            assert(all_kinds_spec().take(i + 1) =~= all_kinds_spec().take(i as int).push(k));
        }
        i = i + 1;
    }
    proof {
        assert(all_kinds_spec().take(10) =~= all_kinds_spec());
    }
    v
}

impl CharacterParamTable {
    #[verifier::type_invariant]
    spec fn well_formed(self) -> bool {
        self.entries.len() == KIND_COUNT
    }

    /// The entry of a character.
    pub closed spec fn entry_of(self, kind: PartyMemberKind) -> CharacterEntry {
        self.entries@[kind_index_spec(kind)]
    }

    /// Builds the table by asking `f` for the entry of each character.
    pub fn from_fn<F: Fn(PartyMemberKind) -> CharacterEntry>(f: F) -> (r: Self)
        requires
            forall|k: PartyMemberKind| f.requires((k,)),
        ensures
            forall|k: PartyMemberKind| f.ensures((k,), #[trigger] r.entry_of(k)),
    {
        let mut entries: Vec<CharacterEntry> = Vec::new();
        let mut i: usize = 0;
        while i < KIND_COUNT
            invariant
                i <= KIND_COUNT,
                entries.len() == i,
                forall|k: PartyMemberKind| f.requires((k,)),
                forall|j: int| 0 <= j < i ==> f.ensures((all_kinds_spec()[j],), #[trigger] entries@[j]),
            decreases KIND_COUNT - i,
        {
            let k = kind_from_index(i);
            let e = f(k);
            entries.push(e);
            i = i + 1;
        }
        let r = CharacterParamTable { entries };
        proof {
            lemma_kind_index();
            assert forall|k: PartyMemberKind| f.ensures((k,), #[trigger] r.entry_of(k)) by {
                let j = kind_index_spec(k);
                assert(all_kinds_spec()[j] == k);
                assert(f.ensures((all_kinds_spec()[j],), r.entries@[j]));
            }
        }
        r
    }

    /// The entry of a character.
    pub fn get(&self, kind: PartyMemberKind) -> (r: &CharacterEntry)
        ensures
            *r == self.entry_of(kind),
    {
        proof { use_type_invariant(self); }
        &self.entries[kind_index(kind)]
    }

    /// The statistics a character starts with.
    pub fn initial_stats(&self, kind: PartyMemberKind) -> (r: CombatStats)
        ensures
            r == self.entry_of(kind).initial_stats,
    {
        self.get(kind).initial_stats
    }

    /// What each level-up adds to a character.
    pub fn stat_growth(&self, kind: PartyMemberKind) -> (r: &StatGrowth)
        ensures
            *r == self.entry_of(kind).stat_growth,
    {
        &self.get(kind).stat_growth
    }

    /// How a character joins the party.
    pub fn recruit_method(&self, kind: PartyMemberKind) -> (r: &RecruitmentPath)
        ensures
            *r == self.entry_of(kind).recruit_method,
    {
        &self.get(kind).recruit_method
    }

    /// The spells a character learns, with the level each needs.
    pub fn spell_learn_table(&self, kind: PartyMemberKind) -> (r: &[(u32, SpellKind)])
        ensures
            r@ == self.entry_of(kind).spell_learn_table@,
    {
        self.get(kind).spell_learn_table.as_slice()
    }
}

} // verus!
