//! Party members: who they are, how they grow, how they are recruited,
//! and the items the party carries together.
use vstd::prelude::*;
use crate::character_table::{all_kinds_spec, CharacterParamTable};
use crate::equipment::{equipment_bonus, Equipment};
use crate::inventory::Inventory;
use crate::item::ItemKey;
use crate::stats::{fits_i32, grown, growth_fits, CombatStats, StatGrowth};

verus! {

/// The characters that can join the party.
#[derive(Debug, Clone, Copy, PartialEq, Eq)]
pub enum PartyMemberKind {
    Laios,
    Chilchuck,
    Marcille,
    Senshi,
    Falin,
    Izutsumi,
    Shuro,
    Namari,
    Kabru,
    Rinsha,
}

/// Position of a character in the list of all characters.
pub open spec fn kind_index_spec(k: PartyMemberKind) -> int {
    match k {
        PartyMemberKind::Laios => 0,
        PartyMemberKind::Chilchuck => 1,
        PartyMemberKind::Marcille => 2,
        PartyMemberKind::Senshi => 3,
        PartyMemberKind::Falin => 4,
        PartyMemberKind::Izutsumi => 5,
        PartyMemberKind::Shuro => 6,
        PartyMemberKind::Namari => 7,
        PartyMemberKind::Kabru => 8,
        PartyMemberKind::Rinsha => 9,
    }
}

/// Every character sits in the list of all characters at its own index.
pub proof fn lemma_kind_index()
    ensures
        all_kinds_spec().len() == 10,
        forall|k: PartyMemberKind| 0 <= #[trigger] kind_index_spec(k) < 10,
        forall|k: PartyMemberKind| all_kinds_spec()[#[trigger] kind_index_spec(k)] == k,
{
}

/// The display name of a character.
pub open spec fn member_name(k: PartyMemberKind) -> &'static str {
    match k {
        PartyMemberKind::Laios => "ライオス",
        PartyMemberKind::Chilchuck => "チルチャック",
        PartyMemberKind::Marcille => "マルシル",
        PartyMemberKind::Senshi => "センシ",
        PartyMemberKind::Falin => "ファリン",
        PartyMemberKind::Izutsumi => "イヅツミ",
        PartyMemberKind::Shuro => "シュロー",
        PartyMemberKind::Namari => "ナマリ",
        PartyMemberKind::Kabru => "カブルー",
        PartyMemberKind::Rinsha => "リンシャ",
    }
}

impl PartyMemberKind {
    pub fn name(self) -> (r: &'static str)
        ensures
            r == member_name(self),
    {
        match self {
            PartyMemberKind::Laios => "ライオス",
            PartyMemberKind::Chilchuck => "チルチャック",
            PartyMemberKind::Marcille => "マルシル",
            PartyMemberKind::Senshi => "センシ",
            PartyMemberKind::Falin => "ファリン",
            PartyMemberKind::Izutsumi => "イヅツミ",
            PartyMemberKind::Shuro => "シュロー",
            PartyMemberKind::Namari => "ナマリ",
            PartyMemberKind::Kabru => "カブルー",
            PartyMemberKind::Rinsha => "リンシャ",
        }
    }
}

/// One member of the party.
#[derive(Debug)]
pub struct PartyMember {
    pub kind: PartyMemberKind,
    pub level: u32,
    pub exp: u32,
    pub stats: CombatStats,
    pub inventory: Inventory,
    pub equipment: Equipment<ItemKey>,
}

/// Two members agree on everything but possibly the inventory's counts.
pub open spec fn same_but_inventory(a: PartyMember, b: PartyMember) -> bool {
    &&& a.kind == b.kind
    &&& a.level == b.level
    &&& a.exp == b.exp
    &&& a.stats == b.stats
    &&& a.equipment == b.equipment
    &&& a.inventory.capacity() == b.inventory.capacity()
}

/// Two members hold the same values.
pub open spec fn same_member(a: PartyMember, b: PartyMember) -> bool {
    &&& same_but_inventory(a, b)
    &&& a.inventory.counts() == b.inventory.counts()
}

impl Clone for PartyMember {
    fn clone(&self) -> (r: Self)
        ensures
            same_member(r, *self),
    {
        PartyMember {
            kind: self.kind,
            level: self.level,
            exp: self.exp,
            stats: self.stats,
            inventory: self.inventory.clone(),
            equipment: self.equipment.clone(),
        }
    }
}

/// The first level whose threshold no longer fits in `u32`.
pub const LEVEL_CAP: u32 = 29309;

/// Total experience needed to leave a level: `level² * 5 + level * 5`.
pub open spec fn exp_to_next_spec(level: int) -> int {
    level * level * 5 + level * 5
}

/// The level reached with a given total of experience, starting from `level`.
pub open spec fn level_reached(level: int, exp: int) -> int
    decreases exp + 1 - level,
{
    if 0 <= level && exp >= exp_to_next_spec(level) {
        proof {
            assert(exp_to_next_spec(level) >= level) by (nonlinear_arith)
                requires
                    0 <= level,
            ;
        }
        level_reached(level + 1, exp)
    } else {
        level
    }
}

/// The level reached is at least the starting level, and experience stays
/// below the threshold of the level reached.
pub proof fn lemma_level_reached(level: int, exp: int)
    requires
        0 <= level,
    ensures
        level_reached(level, exp) >= level,
        exp < exp_to_next_spec(level_reached(level, exp)),
        forall|l: int| level <= l < level_reached(level, exp) ==> exp >= #[trigger] exp_to_next_spec(l),
    decreases exp + 1 - level,
{
    if exp >= exp_to_next_spec(level) {
        assert(exp_to_next_spec(level) >= level) by (nonlinear_arith)
            requires
                0 <= level,
        ;
        lemma_level_reached(level + 1, exp);
    }
}

/// Thresholds grow with the level.
pub proof fn lemma_exp_threshold_fits(level: int)
    requires
        0 <= level < LEVEL_CAP,
    ensures
        0 <= exp_to_next_spec(level) <= u32::MAX,
{
    assert(0 <= level * level * 5 + level * 5 <= 4294940860) by (nonlinear_arith)
        requires
            0 <= level <= 29308,
    ;
}

/// Each level asks for more experience than the one before.
pub proof fn lemma_exp_thresholds_increase(level: int)
    requires
        0 <= level,
    ensures
        exp_to_next_spec(level) < exp_to_next_spec(level + 1),
{
    assert(level * level * 5 + level * 5 < (level + 1) * (level + 1) * 5 + (level + 1) * 5) by (nonlinear_arith)
        requires
            0 <= level,
    ;
}

/// Experience gained in two parts lifts a member to the same level as the
/// sum gained at once.
pub proof fn lemma_level_reached_chain(level: int, first: int, total: int)
    requires
        0 <= level,
        first <= total,
    ensures
        level_reached(level_reached(level, first), total) == level_reached(level, total),
    decreases first + 1 - level,
{
    if first >= exp_to_next_spec(level) {
        assert(exp_to_next_spec(level) >= level) by (nonlinear_arith)
            requires
                0 <= level,
        ;
        lemma_level_reached_chain(level + 1, first, total);
    }
}

/// Total experience needed to leave a level.
pub fn exp_to_next_level(level: u32) -> (r: u32)
    requires
        exp_to_next_spec(level as int) <= u32::MAX,
    ensures
        r == exp_to_next_spec(level as int),
{
    assert(level * level * 5 + level * 5 <= u32::MAX);
    assert(0 <= level * level) by (nonlinear_arith);
    assert(level * level <= u32::MAX) by (nonlinear_arith)
        requires
            level * level * 5 + level * 5 <= u32::MAX,
            0 <= level,
    ;
    level * level * 5 + level * 5
}

/// A point between two values that fit in `i32` fits too.
proof fn lemma_linear_between(a: int, g: int, n: int, k: int)
    requires
        0 <= k <= n,
        fits_i32(a),
        fits_i32(a + n * g),
    ensures
        fits_i32(a + k * g),
{
    assert(fits_i32(a + k * g)) by (nonlinear_arith)
        requires
            0 <= k <= n,
            i32::MIN <= a <= i32::MAX,
            i32::MIN <= a + n * g <= i32::MAX,
    ;
}

/// Growth that fits after `n` steps fits after every step in between.
proof fn lemma_growth_fits_between(s: CombatStats, g: StatGrowth, n: int, k: int)
    requires
        0 <= k <= n,
        growth_fits(s, g, n),
    ensures
        growth_fits(s, g, k),
{
    lemma_linear_between(s.hp as int, g.hp as int, n, k);
    lemma_linear_between(s.max_hp as int, g.hp as int, n, k);
    lemma_linear_between(s.mp as int, g.mp as int, n, k);
    lemma_linear_between(s.max_mp as int, g.mp as int, n, k);
    lemma_linear_between(s.attack as int, g.attack as int, n, k);
    lemma_linear_between(s.defense as int, g.defense as int, n, k);
    lemma_linear_between(s.speed as int, g.speed as int, n, k);
}

/// One more step of growth.
proof fn lemma_grown_step(s: CombatStats, g: StatGrowth, k: int)
    requires
        0 <= k,
        growth_fits(s, g, k),
        growth_fits(s, g, k + 1),
    ensures
        growth_fits(grown(s, g, k), g, 1),
        grown(grown(s, g, k), g, 1) == grown(s, g, k + 1),
{
    assert((k + 1) * g.hp == k * g.hp + g.hp) by (nonlinear_arith);
    assert((k + 1) * g.mp == k * g.mp + g.mp) by (nonlinear_arith);
    assert((k + 1) * g.attack == k * g.attack + g.attack) by (nonlinear_arith);
    assert((k + 1) * g.defense == k * g.defense + g.defense) by (nonlinear_arith);
    assert((k + 1) * g.speed == k * g.speed + g.speed) by (nonlinear_arith);
}

/// Attack of a member with what is equipped.
pub open spec fn effective_attack_spec(m: PartyMember) -> int {
    m.stats.attack + equipment_bonus(m.equipment)
}

impl PartyMember {
    /// Takes over what a battle changed; the kind stays.
    pub fn sync_from_battle(&mut self, battle_member: &PartyMember)
        ensures
            final(self).kind == old(self).kind,
            final(self).level == battle_member.level,
            final(self).exp == battle_member.exp,
            final(self).stats == battle_member.stats,
            final(self).equipment == battle_member.equipment,
            final(self).inventory.counts() == battle_member.inventory.counts(),
            final(self).inventory.capacity() == battle_member.inventory.capacity(),
    {
        self.stats = battle_member.stats;
        self.level = battle_member.level;
        self.exp = battle_member.exp;
        self.inventory = battle_member.inventory.clone();
        self.equipment = battle_member.equipment.clone();
    }

    /// Attack with what is equipped.
    pub fn effective_attack(&self) -> (r: i32)
        requires
            fits_i32(effective_attack_spec(*self)),
        ensures
            r == effective_attack_spec(*self),
    {
        self.stats.attack + self.equipment.attack_bonus()
    }

    /// Gains experience and levels up as often as it allows; returns the
    /// number of level-ups.
    pub fn gain_exp(&mut self, amount: u32, table: &CharacterParamTable) -> (r: u32)
        requires
            old(self).exp + amount <= u32::MAX,
            level_reached(old(self).level as int, old(self).exp + amount) < LEVEL_CAP,
            growth_fits(
                old(self).stats,
                table.entry_of(old(self).kind).stat_growth,
                level_reached(old(self).level as int, old(self).exp + amount) - old(self).level,
            ),
        ensures
            final(self).exp == old(self).exp + amount,
            final(self).level == level_reached(old(self).level as int, old(self).exp + amount),
            r == final(self).level - old(self).level,
            final(self).stats == grown(old(self).stats, table.entry_of(old(self).kind).stat_growth, r as int),
            final(self).kind == old(self).kind,
            final(self).equipment == old(self).equipment,
            final(self).inventory == old(self).inventory,
    {
        self.exp = self.exp + amount;
        let ghost total = self.exp as int;
        let ghost start = old(self).level as int;
        let ghost target = level_reached(start, total);
        let ghost g = table.entry_of(self.kind).stat_growth;
        proof {
            lemma_level_reached(start, total);
            lemma_exp_threshold_fits(start);
        }
        let mut level_ups: u32 = 0;
        while self.exp >= exp_to_next_level(self.level)
            invariant
                self.exp == total,
                start == old(self).level,
                start <= self.level <= target,
                target < LEVEL_CAP,
                level_reached(self.level as int, total) == target,
                level_ups == self.level - start,
                self.kind == old(self).kind,
                g == table.entry_of(self.kind).stat_growth,
                growth_fits(old(self).stats, g, target - start),
                self.stats == grown(old(self).stats, g, level_ups as int),
                growth_fits(old(self).stats, g, level_ups as int),
                self.equipment == old(self).equipment,
                self.inventory == old(self).inventory,
                exp_to_next_spec(self.level as int) <= u32::MAX,
            decreases target - self.level,
        {
            proof {
                assert(total >= exp_to_next_spec(self.level as int));
                assert(level_reached(self.level as int, total) == level_reached(self.level + 1, total));
                lemma_level_reached(self.level as int + 1, total);
                lemma_growth_fits_between(old(self).stats, g, target - start, level_ups + 1);
                lemma_grown_step(old(self).stats, g, level_ups as int);
                lemma_exp_threshold_fits(self.level + 1);
            }
            self.level = self.level + 1;
            level_ups = level_ups + 1;
            let growth = table.stat_growth(self.kind);
            self.stats.apply_growth(growth);
        }
        level_ups
    }

    /// A new member at level 1 with the character's starting statistics.
    pub fn from_kind(kind: PartyMemberKind, table: &CharacterParamTable) -> (r: Self)
        ensures
            r.kind == kind,
            r.level == 1,
            r.exp == 0,
            r.stats == table.entry_of(kind).initial_stats,
            r.inventory.counts() == Inventory::new_counts(),
            r.inventory.capacity() == crate::item::INVENTORY_CAPACITY,
            r.equipment.weapon is None,
    {
        PartyMember {
            kind,
            level: 1,
            exp: 0,
            stats: table.initial_stats(kind),
            inventory: Inventory::new(),
            equipment: Equipment::new(),
        }
    }
}

/// A fresh member of a given kind.
pub open spec fn is_fresh_member(m: PartyMember, kind: PartyMemberKind, table: CharacterParamTable) -> bool {
    &&& m.kind == kind
    &&& m.level == 1
    &&& m.exp == 0
    &&& m.stats == table.entry_of(kind).initial_stats
    &&& m.inventory.counts() == Inventory::new_counts()
    &&& m.inventory.capacity() == crate::item::INVENTORY_CAPACITY
    &&& m.equipment.weapon is None
}

/// The party of three used for quick battles: Laios, Marcille and Falin.
pub fn default_party(table: &CharacterParamTable) -> (r: Vec<PartyMember>)
    ensures
        r.len() == 3,
        is_fresh_member(r@[0], PartyMemberKind::Laios, *table),
        is_fresh_member(r@[1], PartyMemberKind::Marcille, *table),
        is_fresh_member(r@[2], PartyMemberKind::Falin, *table),
{
    let mut v: Vec<PartyMember> = Vec::new();
    v.push(PartyMember::from_kind(PartyMemberKind::Laios, table));
    v.push(PartyMember::from_kind(PartyMemberKind::Marcille, table));
    v.push(PartyMember::from_kind(PartyMemberKind::Falin, table));
    v
}

/// The party at the start of the game: Laios alone.
pub fn initial_party(table: &CharacterParamTable) -> (r: Vec<PartyMember>)
    ensures
        r.len() == 1,
        is_fresh_member(r@[0], PartyMemberKind::Laios, *table),
{
    let mut v: Vec<PartyMember> = Vec::new();
    v.push(PartyMember::from_kind(PartyMemberKind::Laios, table));
    v
}

/// How a character comes to join.
#[derive(Debug, Clone, Copy, PartialEq, Eq)]
pub enum RecruitmentPath {
    /// Joins after two visits at the tavern.
    TavernBond,
    /// Joins for gold.
    GoldHire { cost: u32 },
    /// Joins in exchange for an item.
    ItemTrade { item: ItemKey },
}

/// How far a candidate has come.
#[derive(Debug, Clone, Copy, PartialEq, Eq)]
pub enum RecruitmentStatus {
    /// Not met yet.
    Undiscovered,
    /// Met once, in the first town.
    Acquaintance,
    /// In the party.
    Recruited,
}

/// A character that may join.
#[derive(Debug, Clone)]
pub struct RecruitCandidate {
    pub kind: PartyMemberKind,
    pub status: RecruitmentStatus,
}

impl RecruitCandidate {
    pub fn new(kind: PartyMemberKind) -> (r: Self)
        ensures
            r.kind == kind,
            r.status == RecruitmentStatus::Undiscovered,
    {
        Self { kind, status: RecruitmentStatus::Undiscovered }
    }
}

/// Everyone but Laios, in list order.
pub open spec fn candidate_kinds_spec() -> Seq<PartyMemberKind> {
    all_kinds_spec().drop_first()
}

/// Every character but Laios, not met yet.
pub fn default_candidates() -> (r: Vec<RecruitCandidate>)
    ensures
        r.len() == 9,
        forall|i: int| 0 <= i < 9 ==> (#[trigger] r@[i]).kind == candidate_kinds_spec()[i]
            && r@[i].status == RecruitmentStatus::Undiscovered,
{
    let mut v: Vec<RecruitCandidate> = Vec::new();
    let mut i: usize = 1;
    while i < crate::character_table::KIND_COUNT
        invariant
            1 <= i <= 10,
            v.len() == i - 1,
            forall|j: int| 0 <= j < i - 1 ==> (#[trigger] v@[j]).kind == candidate_kinds_spec()[j]
                && v@[j].status == RecruitmentStatus::Undiscovered,
        decreases 10 - i,
    {
        let k = crate::character_table::kind_from_index(i);
        v.push(RecruitCandidate::new(k));
        i = i + 1;
    }
    v
}

/// What talking to a candidate did.
#[derive(Debug, PartialEq, Eq)]
pub enum TalkResult {
    /// First meeting: now acquainted.
    BecameAcquaintance,
    /// Second meeting: joined the party.
    Recruited,
    /// Already in the party.
    AlreadyRecruited,
}

/// The status after one more talk.
pub open spec fn next_status(s: RecruitmentStatus) -> RecruitmentStatus {
    match s {
        RecruitmentStatus::Undiscovered => RecruitmentStatus::Acquaintance,
        _ => RecruitmentStatus::Recruited,
    }
}

/// What one more talk reports.
pub open spec fn talk_outcome(s: RecruitmentStatus) -> TalkResult {
    match s {
        RecruitmentStatus::Undiscovered => TalkResult::BecameAcquaintance,
        RecruitmentStatus::Acquaintance => TalkResult::Recruited,
        RecruitmentStatus::Recruited => TalkResult::AlreadyRecruited,
    }
}

/// A candidate found for the first time joins on the second talk and stays
/// in the party whatever is said after.
pub proof fn lemma_recruitment_path()
    ensures
        talk_outcome(RecruitmentStatus::Undiscovered) == TalkResult::BecameAcquaintance,
        talk_outcome(next_status(RecruitmentStatus::Undiscovered)) == TalkResult::Recruited,
        next_status(next_status(RecruitmentStatus::Undiscovered)) == RecruitmentStatus::Recruited,
        forall|s: RecruitmentStatus| s == RecruitmentStatus::Recruited ==> #[trigger] next_status(s) == RecruitmentStatus::Recruited
            && talk_outcome(s) == TalkResult::AlreadyRecruited,
{
}

/// Talks to a candidate: first an acquaintance, then a member.
pub fn talk_to_candidate(candidate: &mut RecruitCandidate) -> (r: TalkResult)
    ensures
        r == talk_outcome(old(candidate).status),
        final(candidate).status == next_status(old(candidate).status),
        final(candidate).kind == old(candidate).kind,
{
    match candidate.status {
        RecruitmentStatus::Undiscovered => {
            candidate.status = RecruitmentStatus::Acquaintance;
            TalkResult::BecameAcquaintance
        },
        RecruitmentStatus::Acquaintance => {
            candidate.status = RecruitmentStatus::Recruited;
            TalkResult::Recruited
        },
        RecruitmentStatus::Recruited => TalkResult::AlreadyRecruited,
    }
}

/// Some member or the bag holds the item.
pub open spec fn party_has_item(members: Seq<PartyMember>, bag: Inventory, item: ItemKey) -> bool {
    (exists|i: int| 0 <= i < members.len() && (#[trigger] members[i]).inventory.count_of(item) > 0)
        || bag.count_of(item) > 0
}

/// Whether any member or the bag holds the item.
pub fn has_item(members: &[PartyMember], bag: &Inventory, item: ItemKey) -> (r: bool)
    ensures
        r == party_has_item(members@, *bag, item),
{
    let mut i: usize = 0;
    while i < members.len()
        invariant
            i <= members@.len(),
            forall|j: int| 0 <= j < i ==> (#[trigger] members@[j]).inventory.count_of(item) == 0,
        decreases members@.len() - i,
    {
        if members[i].inventory.count(item) > 0 {
            return true;
        }
        i = i + 1;
    }
    bag.count(item) > 0
}

/// The first member that holds the item, if any.
pub open spec fn first_holder(members: Seq<PartyMember>, item: ItemKey, i: int) -> bool {
    &&& 0 <= i < members.len()
    &&& members[i].inventory.count_of(item) > 0
    &&& forall|j: int| 0 <= j < i ==> (#[trigger] members[j]).inventory.count_of(item) == 0
}

/// Uses up one of an item, from the first member that holds it, else
/// from the bag; says whether there was one.
pub fn consume_item(members: &mut Vec<PartyMember>, bag: &mut Inventory, item: ItemKey) -> (r: bool)
    ensures
        r == party_has_item(old(members)@, *old(bag), item),
        final(members)@.len() == old(members)@.len(),
        forall|i: int| first_holder(old(members)@, item, i) ==> {
            &&& same_but_inventory(final(members)@[i], old(members)@[i])
            &&& final(members)@[i].inventory.counts() == old(members)@[i].inventory.removed_one(item)
            &&& forall|j: int| 0 <= j < old(members)@.len() && j != i ==> #[trigger] final(members)@[j] == old(members)@[j]
            &&& *final(bag) == *old(bag)
        },
        (forall|j: int| 0 <= j < old(members)@.len() ==> (#[trigger] old(members)@[j]).inventory.count_of(item) == 0) ==> {
            &&& final(members)@ == old(members)@
            &&& final(bag).capacity() == old(bag).capacity()
            &&& (old(bag).count_of(item) > 0 ==> final(bag).counts() == old(bag).removed_one(item))
            &&& (old(bag).count_of(item) == 0 ==> final(bag).counts() == old(bag).counts())
        },
{
    let mut i: usize = 0;
    while i < members.len()
        invariant
            i <= members@.len(),
            members@ == old(members)@,
            *bag == *old(bag),
            forall|j: int| 0 <= j < i ==> (#[trigger] members@[j]).inventory.count_of(item) == 0,
        decreases members@.len() - i,
    {
        if members[i].inventory.count(item) > 0 {
            let ghost before = members@;
            let mut m = members.remove(i);
            let removed = m.inventory.remove_item(item);
            members.insert(i, m);
            proof {
                assert(first_holder(old(members)@, item, i as int));
                assert forall|k: int| first_holder(old(members)@, item, k) implies k == i by {
                    if k < i {
                        assert(old(members)@[k].inventory.count_of(item) == 0);
                    } else if k > i {
                        assert(old(members)@[i as int].inventory.count_of(item) == 0);
                    }
                }
                assert forall|j: int| 0 <= j < old(members)@.len() && j != i implies #[trigger] members@[j] == old(members)@[j] by {
                    if j < i {
                        assert(members@[j] == before[j]);
                    } else {
                        assert(members@[j] == before[j]);
                    }
                }
                assert(exists|q: int| 0 <= q < old(members)@.len() && (#[trigger] old(members)@[q]).inventory.count_of(item) > 0) by {
                    assert(old(members)@[i as int].inventory.count_of(item) > 0);
                }
            }
            return removed;
        }
        i = i + 1;
    }
    proof {
        assert forall|k: int| first_holder(old(members)@, item, k) implies false by {
            assert(old(members)@[k].inventory.count_of(item) == 0);
        }
    }
    bag.remove_item(item)
}

} // verus!
