//! The state that lives between scenes: the party's standing, the shrines
//! of the world map, the continent of each tile, and small helpers of the
//! menus.
use vstd::prelude::*;
use crate::character_table::CharacterParamTable;
use crate::inventory::Inventory;
use crate::item::{key_index, ItemKey, BAG_CAPACITY, INVENTORY_CAPACITY};
use crate::party::{
    candidate_kinds_spec, default_candidates, initial_party, PartyMember, PartyMemberKind, RecruitCandidate,
    RecruitmentStatus,
};

verus! {

/// Gold the party starts with.
pub const STARTING_GOLD: u32 = 100;

/// The party between battles.
pub struct PartyState {
    pub members: Vec<PartyMember>,
    pub gold: u32,
    /// The characters that may join, with how far each has come.
    pub candidates: Vec<RecruitCandidate>,
    /// The bag the whole party shares.
    pub bag: Inventory,
}

impl PartyState {
    /// The party at the start of a game: Laios alone with two herbs, a
    /// hundred gold, every other character still to be met, and an empty
    /// shared bag.
    pub fn new(table: &CharacterParamTable) -> (r: Self)
        ensures
            r.members@.len() == 1,
            r.members@[0].kind == PartyMemberKind::Laios,
            r.members@[0].level == 1,
            r.members@[0].exp == 0,
            r.members@[0].stats == table.entry_of(PartyMemberKind::Laios).initial_stats,
            r.members@[0].inventory.counts() == Inventory::new_counts().update(key_index(ItemKey::Herb), 2),
            r.members@[0].inventory.capacity() == INVENTORY_CAPACITY,
            r.members@[0].equipment.weapon is None,
            r.gold == STARTING_GOLD,
            r.candidates@.len() == 9,
            forall|i: int| 0 <= i < 9 ==> (#[trigger] r.candidates@[i]).kind == candidate_kinds_spec()[i]
                && r.candidates@[i].status == RecruitmentStatus::Undiscovered,
            r.bag.counts() == Inventory::new_counts(),
            r.bag.capacity() == BAG_CAPACITY,
    {
        let mut members = initial_party(table);
        let mut first = members.remove(0);
        proof {
            crate::inventory::lemma_seq_sum_zeros(crate::item::ITEM_KEY_COUNT as nat);
            assert(first.inventory.total() == 0);
        }
        first.inventory.add(ItemKey::Herb, 2);
        members.insert(0, first);
        proof {
            assert(Inventory::new_counts()[key_index(ItemKey::Herb)] == 0);
        }
        PartyState {
            members,
            gold: STARTING_GOLD,
            candidates: default_candidates(),
            bag: Inventory::with_capacity(BAG_CAPACITY),
        }
    }
}

/// Where the game looks for monsters: a continent, in a cave or not.
#[derive(Debug, Clone, Copy, PartialEq, Eq)]
pub struct EncounterZone {
    pub continent_id: u8,
    pub is_cave: bool,
}

impl Default for EncounterZone {
    fn default() -> (r: Self)
        ensures
            r.continent_id == 0,
            !r.is_cave,
    {
        EncounterZone { continent_id: 0, is_cave: false }
    }
}

/// The kinds of hints heard at the tavern.
#[derive(Debug, Clone, Copy, PartialEq, Eq, Hash)]
pub enum TavernHintKind {
    Cave,
    Hokora,
    Companion,
    Bounty,
}

/// Coordinates small enough for squared distances to fit in `isize`.
pub const COORD_LIMIT: usize = 0x4000_0000;

/// The squared distance between two tiles.
pub open spec fn dist2(x: int, y: int, p: (usize, usize)) -> int {
    (x - p.0) * (x - p.0) + (y - p.1) * (y - p.1)
}

/// The shrines of the world map and where each one warps to.
pub struct HokoraPositions {
    positions: Vec<(usize, usize)>,
    warp_destinations: Vec<(usize, usize)>,
}

impl HokoraPositions {
    #[verifier::type_invariant]
    spec fn well_formed(self) -> bool {
        &&& self.positions@.len() > 0
        &&& self.positions@.len() == self.warp_destinations@.len()
    }

    /// Where the shrines stand.
    pub closed spec fn spots(self) -> Seq<(usize, usize)> {
        self.positions@
    }

    /// Where each shrine warps to.
    pub closed spec fn targets(self) -> Seq<(usize, usize)> {
        self.warp_destinations@
    }

    /// The shrines with their destinations; at least one shrine, and one
    /// destination for each.
    pub fn new(positions: Vec<(usize, usize)>, warp_destinations: Vec<(usize, usize)>) -> (r: Self)
        requires
            positions@.len() > 0,
            positions@.len() == warp_destinations@.len(),
        ensures
            r.spots() == positions@,
            r.targets() == warp_destinations@,
    {
        HokoraPositions { positions, warp_destinations }
    }

    /// The shrine nearest to a tile; the first one listed among equally near.
    pub fn nearest(&self, player_x: usize, player_y: usize) -> (r: usize)
        requires
            player_x < COORD_LIMIT,
            player_y < COORD_LIMIT,
            forall|k: int| 0 <= k < self.spots().len() ==> (#[trigger] self.spots()[k]).0 < COORD_LIMIT
                && self.spots()[k].1 < COORD_LIMIT,
        ensures
            r < self.spots().len(),
            forall|j: int| 0 <= j < self.spots().len() ==>
                dist2(player_x as int, player_y as int, self.spots()[r as int]) <= dist2(player_x as int, player_y as int, #[trigger] self.spots()[j]),
            forall|j: int| 0 <= j < r ==>
                dist2(player_x as int, player_y as int, self.spots()[r as int]) < dist2(player_x as int, player_y as int, #[trigger] self.spots()[j]),
    {
        proof { use_type_invariant(self); }
        let ghost px = player_x as int;
        let ghost py = player_y as int;
        let mut best: usize = 0;
        proof { assert(self.spots()[0] == self.positions@[0]); }
        let mut best_d: u64 = Self::square_distance(player_x, player_y, self.positions[0]);
        let mut i: usize = 1;
        while i < self.positions.len()
            invariant
                1 <= i <= self.spots().len(),
                self.spots() == self.positions@,
                best < i,
                best_d == dist2(px, py, self.spots()[best as int]),
                px == player_x,
                py == player_y,
                player_x < COORD_LIMIT,
                player_y < COORD_LIMIT,
                forall|k: int| 0 <= k < self.spots().len() ==> (#[trigger] self.spots()[k]).0 < COORD_LIMIT
                    && self.spots()[k].1 < COORD_LIMIT,
                forall|j: int| 0 <= j < i ==> best_d <= dist2(px, py, #[trigger] self.spots()[j]),
                forall|j: int| 0 <= j < best ==> best_d < dist2(px, py, #[trigger] self.spots()[j]),
            decreases self.spots().len() - i,
        {
            let d = Self::square_distance(player_x, player_y, self.positions[i]);
            if d < best_d {
                best = i;
                best_d = d;
            }
            i = i + 1;
        }
        best
    }

    fn square_distance(x: usize, y: usize, p: (usize, usize)) -> (r: u64)
        requires
            x < COORD_LIMIT,
            y < COORD_LIMIT,
            p.0 < COORD_LIMIT,
            p.1 < COORD_LIMIT,
        ensures
            r == dist2(x as int, y as int, p),
    {
        let dx: u64 = if x >= p.0 { (x - p.0) as u64 } else { (p.0 - x) as u64 };
        let dy: u64 = if y >= p.1 { (y - p.1) as u64 } else { (p.1 - y) as u64 };
        assert(dx * dx <= 0x1000_0000_0000_0000) by (nonlinear_arith)
            requires
                dx < 0x4000_0000,
        ;
        assert(dy * dy <= 0x1000_0000_0000_0000) by (nonlinear_arith)
            requires
                dy < 0x4000_0000,
        ;
        assert(dx * dx == (x - p.0) * (x - p.0)) by (nonlinear_arith)
            requires
                dx == x - p.0 || dx == p.0 - x,
        ;
        assert(dy * dy == (y - p.1) * (y - p.1)) by (nonlinear_arith)
            requires
                dy == y - p.1 || dy == p.1 - y,
        ;
        dx * dx + dy * dy
    }

    /// Where a shrine warps to, or nothing for an unknown shrine.
    pub fn warp_destination(&self, index: usize) -> (r: Option<(usize, usize)>)
        ensures
            r == if index < self.targets().len() { Some(self.targets()[index as int]) } else { None::<(usize, usize)> },
    {
        if index < self.warp_destinations.len() {
            Some(self.warp_destinations[index])
        } else {
            None
        }
    }

    /// Where the shrines stand.
    pub fn positions(&self) -> (r: &[(usize, usize)])
        ensures
            r@ == self.spots(),
    {
        self.positions.as_slice()
    }
}

/// The continent of each tile of the world map; `None` for the sea.
pub struct ContinentMap {
    map: Vec<Vec<Option<u8>>>,
}

impl ContinentMap {
    /// The rows of the map.
    pub closed spec fn rows(self) -> Seq<Vec<Option<u8>>> {
        self.map@
    }

    /// A map of continents, row by row.
    pub fn new(map: Vec<Vec<Option<u8>>>) -> (r: Self)
        ensures
            r.rows() == map@,
    {
        ContinentMap { map }
    }

    /// The continent of a tile; `None` for the sea or off the map.
    pub fn get(&self, x: usize, y: usize) -> (r: Option<u8>)
        ensures
            r == if y < self.rows().len() && x < self.rows()[y as int]@.len() {
                self.rows()[y as int]@[x as int]
            } else {
                None::<u8>
            },
    {
        if y < self.map.len() {
            let row = &self.map[y];
            if x < row.len() {
                return row[x];
            }
        }
        None
    }

    /// The rows of the map.
    pub fn as_raw(&self) -> (r: &[Vec<Option<u8>>])
        ensures
            r@ == self.rows(),
    {
        self.map.as_slice()
    }
}

/// The first item to show in a scrolling menu: the cursor is kept in the
/// middle of the window while the list allows.
pub open spec fn scroll_offset_spec(cursor: int, total: int, visible: int) -> int {
    if total <= visible {
        0
    } else {
        let start = if cursor < visible / 2 { 0 } else { cursor - visible / 2 };
        if start < total - visible { start } else { total - visible }
    }
}

/// The first item to show in a scrolling menu.
pub fn scroll_offset(cursor: usize, total: usize, visible: usize) -> (r: usize)
    ensures
        r == scroll_offset_spec(cursor as int, total as int, visible as int),
{
    if total <= visible {
        return 0;
    }
    let half = visible / 2;
    let start = if cursor < half { 0 } else { cursor - half };
    if start < total - visible { start } else { total - visible }
}

/// The text of a menu line: a cursor mark before the selected one.
pub fn menu_item_text(label: &str, is_selected: bool) -> (r: String)
    ensures
        r@ == (if is_selected { "> "@ } else { "  "@ }) + label@,
{
    let mut s = if is_selected { String::from_str("> ") } else { String::from_str("  ") };
    s.append(label);
    s
}


/// A shown line of a menu window.
#[derive(Debug)]
pub struct MenuSlot {
    pub text: String,
    /// The line is greyed out.
    pub disabled: bool,
}

/// What a menu shows: each line slot filled or hidden, and whether the
/// arrows that say more lies above or below are shown.
#[derive(Debug)]
pub struct MenuWindow {
    pub slots: Vec<Option<MenuSlot>>,
    pub scroll_up: bool,
    pub scroll_down: bool,
}

/// How many lines the window holds: the limit, or all of them.
pub open spec fn window_size(total: int, visible_items: Option<usize>) -> int {
    match visible_items {
        Some(n) => n as int,
        None => total,
    }
}

/// What slot `i` of the window shows: the line `offset + i` with its cursor
/// mark and whether it is greyed out, or nothing past the window or the list.
pub open spec fn window_slot(labels: Seq<String>, selected: int, offset: int, size: int, disabled: Seq<usize>, i: int) -> Option<(Seq<char>, bool)> {
    if i < size && offset + i < labels.len() {
        Some((
            (if offset + i == selected { "> "@ } else { "  "@ }) + labels[offset + i]@,
            disabled.contains((offset + i) as usize),
        ))
    } else {
        None
    }
}

/// Fills `slot_count` line slots of a menu with the lines `labels`, the
/// cursor on `selected`, at most `visible_items` lines at once (all when
/// `None`) scrolled to keep the cursor in the middle, and the lines listed
/// in `disabled` greyed out.
pub fn menu_window(labels: &Vec<String>, selected: usize, visible_items: Option<usize>, disabled: &Vec<usize>, slot_count: usize) -> (r: MenuWindow)
    ensures
        r.slots@.len() == slot_count,
        forall|i: int| 0 <= i < slot_count ==> match (#[trigger] r.slots@[i]) {
            Some(slot) => window_slot(labels@, selected as int, scroll_offset_spec(selected as int, labels@.len() as int, window_size(labels@.len() as int, visible_items)), window_size(labels@.len() as int, visible_items), disabled@, i) == Some((slot.text@, slot.disabled)),
            None => window_slot(labels@, selected as int, scroll_offset_spec(selected as int, labels@.len() as int, window_size(labels@.len() as int, visible_items)), window_size(labels@.len() as int, visible_items), disabled@, i) is None,
        },
        r.scroll_up == (labels@.len() > window_size(labels@.len() as int, visible_items)
            && scroll_offset_spec(selected as int, labels@.len() as int, window_size(labels@.len() as int, visible_items)) > 0),
        r.scroll_down == (labels@.len() > window_size(labels@.len() as int, visible_items)
            && scroll_offset_spec(selected as int, labels@.len() as int, window_size(labels@.len() as int, visible_items)) + window_size(labels@.len() as int, visible_items) < labels@.len()),
{
    let total = labels.len();
    let visible = match visible_items {
        Some(n) => n,
        None => total,
    };
    let offset = scroll_offset(selected, total, visible);
    let ghost size = window_size(total as int, visible_items);
    proof {
        assert(offset <= total);
    }
    let mut slots: Vec<Option<MenuSlot>> = Vec::new();
    let mut i: usize = 0;
    while i < slot_count
        invariant
            i <= slot_count,
            total == labels@.len(),
            visible as int == size,
            size == window_size(labels@.len() as int, visible_items),
            offset == scroll_offset_spec(selected as int, total as int, size),
            offset <= total,
            slots@.len() == i,
            forall|j: int| 0 <= j < i ==> match (#[trigger] slots@[j]) {
                Some(slot) => window_slot(labels@, selected as int, offset as int, size, disabled@, j) == Some((slot.text@, slot.disabled)),
                None => window_slot(labels@, selected as int, offset as int, size, disabled@, j) is None,
            },
        decreases slot_count - i,
    {
        if i < visible && i < total - offset {
            let k = offset + i;
            let text = menu_item_text(labels[k].as_str(), k == selected);
            let mut off = false;
            let mut d: usize = 0;
            while d < disabled.len()
                invariant
                    d <= disabled@.len(),
                    off == exists|e: int| 0 <= e < d && disabled@[e] == k,
                decreases disabled@.len() - d,
            {
                if disabled[d] == k {
                    off = true;
                }
                d = d + 1;
            }
            proof {
                if off {
                    let e = choose|e: int| 0 <= e < disabled@.len() && disabled@[e] == k;
                    assert(disabled@[e] == k);
                }
            }
            slots.push(Some(MenuSlot { text, disabled: off }));
        } else {
            slots.push(None);
        }
        i = i + 1;
    }
    let has_scroll = total > visible;
    let scroll_up = has_scroll && offset > 0;
    let scroll_down = has_scroll && visible < total - offset;
    MenuWindow { slots, scroll_up, scroll_down }
}

} // verus!
