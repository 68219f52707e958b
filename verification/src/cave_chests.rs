//! Opening the chests of a cave: what a chest holds goes to the first
//! member with room, else into the shared bag; a chest that nobody can take
//! stays closed.
use vstd::prelude::*;
use crate::cave::{treasure_name, TreasureChest, TreasureContent};
use crate::inventory::{seq_sum, Inventory};
use crate::item::{key_index, ItemKey};
use crate::party::{member_name, PartyMember, PartyMemberKind};
use crate::terrain::Structure;
use crate::world::PartyState;

verus! {

/// The contents and limit of one bag.
pub struct BagView {
    pub counts: Seq<u32>,
    pub capacity: u32,
}

/// A bag's values.
pub open spec fn bag_view(i: Inventory) -> BagView {
    BagView { counts: i.counts(), capacity: i.capacity() }
}

/// One more item fits in the bag.
pub open spec fn has_room(b: BagView) -> bool {
    seq_sum(b.counts) + 1 <= b.capacity
}

/// The bag with one more of an item.
pub open spec fn with_one(b: BagView, k: ItemKey) -> BagView {
    BagView { counts: b.counts.update(key_index(k), (b.counts[key_index(k)] + 1) as u32), ..b }
}

/// The first of the bags from `j` on with room for one more item.
pub open spec fn first_with_room(bags: Seq<BagView>, j: int) -> Option<usize>
    decreases bags.len() - j,
{
    if j >= bags.len() || j < 0 {
        None
    } else if has_room(bags[j]) {
        Some(j as usize)
    } else {
        first_with_room(bags, j + 1)
    }
}

/// The item a chest holds.
pub open spec fn chest_item(c: TreasureContent) -> ItemKey {
    match c {
        TreasureContent::Item(k) => k,
        TreasureContent::Weapon(k) => k,
    }
}

/// `たからばこから item を てにいれた！（who）`
pub open spec fn found_line(c: TreasureContent, who: Seq<char>) -> Seq<char> {
    "たからばこから "@ + treasure_name(c)@ + "を てにいれた！（"@ + who + "）"@
}

/// The line when nobody has room.
pub open spec fn full_line() -> Seq<char> {
    "もちものも ふくろも いっぱいだ！"@
}

/// What opening the chests of a tile has done so far.
pub struct ChestState {
    pub members: Seq<BagView>,
    pub bag: BagView,
    pub opened: Seq<usize>,
    pub message: Option<Seq<char>>,
    pub took: bool,
}

/// Chest `i`, if it stands on the tile and has not been opened: its
/// content goes to the first member with room, else to the bag; when
/// neither has room the chest stays closed and the party is told.
pub open spec fn chest_step(s: ChestState, kinds: Seq<PartyMemberKind>, chests: Seq<TreasureChest>, i: int, x: usize, y: usize) -> ChestState {
    let c = chests[i];
    if c.x != x || c.y != y || s.opened.contains(i as usize) {
        s
    } else {
        let k = chest_item(c.content);
        match first_with_room(s.members, 0) {
            Some(j) => ChestState {
                members: s.members.update(j as int, with_one(s.members[j as int], k)),
                opened: s.opened.push(i as usize),
                message: Some(found_line(c.content, member_name(kinds[j as int])@)),
                took: true,
                ..s
            },
            None => if has_room(s.bag) {
                ChestState {
                    bag: with_one(s.bag, k),
                    opened: s.opened.push(i as usize),
                    message: Some(found_line(c.content, "ふくろ"@)),
                    took: true,
                    ..s
                }
            } else {
                ChestState { message: Some(full_line()), ..s }
            },
        }
    }
}

/// The first `n` chests in turn.
pub open spec fn chests_fold(s: ChestState, kinds: Seq<PartyMemberKind>, chests: Seq<TreasureChest>, n: int, x: usize, y: usize) -> ChestState
    decreases n,
{
    if n <= 0 {
        s
    } else {
        chest_step(chests_fold(s, kinds, chests, n - 1, x, y), kinds, chests, n - 1, x, y)
    }
}

/// The bags of the members.
pub open spec fn member_bags(ms: Seq<PartyMember>) -> Seq<BagView> {
    ms.map_values(|m: PartyMember| bag_view(m.inventory))
}

/// The kinds of the members.
pub open spec fn member_kinds(ms: Seq<PartyMember>) -> Seq<PartyMemberKind> {
    ms.map_values(|m: PartyMember| m.kind)
}

/// Stepping on a tile: when it holds a closed chest, every chest listed
/// for the tile that was not opened yet is handed out in turn.
pub open spec fn chest_outcome(p: PartyState, chests: Seq<TreasureChest>, opened: Seq<usize>, on_chest: bool, x: usize, y: usize) -> ChestState {
    let start = ChestState { members: member_bags(p.members@), bag: bag_view(p.bag), opened, message: None, took: false };
    if on_chest {
        chests_fold(start, member_kinds(p.members@), chests, chests.len() as int, x, y)
    } else {
        start
    }
}

/// `n` more items can be counted in every bag of the party.
pub open spec fn counts_fit(p: PartyState, n: int) -> bool {
    &&& forall|j: int| 0 <= j < p.members@.len() ==> (#[trigger] p.members@[j]).inventory.total() + n < u32::MAX
    &&& p.bag.total() + n < u32::MAX
}

/// Everything about the members but their bags' contents is kept.
pub open spec fn same_members(a: Seq<PartyMember>, b: Seq<PartyMember>) -> bool {
    &&& a.len() == b.len()
    &&& forall|j: int| 0 <= j < a.len() ==> {
        &&& (#[trigger] b[j]).kind == a[j].kind
        &&& b[j].level == a[j].level
        &&& b[j].exp == a[j].exp
        &&& b[j].stats == a[j].stats
        &&& b[j].equipment == a[j].equipment
    }
}

fn contains_index(v: &Vec<usize>, i: usize) -> (r: bool)
    ensures
        r == v@.contains(i),
{
    let mut k: usize = 0;
    while k < v.len()
        invariant
            k <= v@.len(),
            forall|j: int| 0 <= j < k ==> v@[j] != i,
        decreases v@.len() - k,
    {
        if v[k] == i {
            proof {
                assert(v@[k as int] == i);
            }
            return true;
        }
        k = k + 1;
    }
    false
}

/// Hands one item to the first member with room; says who took it.
fn give_to_first(members: &mut Vec<PartyMember>, item: ItemKey, Ghost(limit): Ghost<int>) -> (r: Option<usize>)
    requires
        forall|j: int| 0 <= j < old(members)@.len() ==> (#[trigger] old(members)@[j]).inventory.total() + 1 <= limit,
        limit <= u32::MAX,
    ensures
        r == first_with_room(member_bags(old(members)@), 0),
        r matches Some(j) ==> j < old(members)@.len(),
        same_members(old(members)@, final(members)@),
        forall|j: int| 0 <= j < old(members)@.len() ==> (#[trigger] final(members)@[j]).inventory.total()
            == old(members)@[j].inventory.total() + if r == Some(j as usize) { 1int } else { 0int },
        member_bags(final(members)@) == match r {
            Some(j) => member_bags(old(members)@).update(j as int, with_one(member_bags(old(members)@)[j as int], item)),
            None => member_bags(old(members)@),
        },
{
    let ghost start = members@;
    let ghost bags = member_bags(start);
    let mut j: usize = 0;
    while j < members.len()
        invariant
            j <= members@.len(),
            members@ == start,
            start == old(members)@,
            bags == member_bags(start),
            first_with_room(bags, 0) == first_with_room(bags, j as int),
            forall|i: int| 0 <= i < start.len() ==> (#[trigger] start[i]).inventory.total() + 1 <= limit,
            limit <= u32::MAX,
        decreases members@.len() - j,
    {
        proof {
            assert(bags[j as int] == bag_view(start[j as int].inventory));
        }
        if members[j].inventory.can_add(1) {
            let mut m = members.remove(j);
            let _added = m.inventory.try_add(item, 1);
            let ghost mv = m;
            members.insert(j, m);
            proof {
                assert(members@ =~= start.update(j as int, mv));
                assert(member_bags(members@) =~= bags.update(j as int, with_one(bags[j as int], item)));
                assert(first_with_room(bags, j as int) == Some(j));
            }
            return Some(j);
        }
        j = j + 1;
    }
    None
}

/// The text of a message, if any.
pub open spec fn message_view(m: Option<String>) -> Option<Seq<char>> {
    match m {
        Some(s) => Some(s@),
        None => None,
    }
}

fn found_text(c: TreasureContent, who: &str) -> (r: String)
    ensures
        r@ == found_line(c, who@),
{
    let mut s = String::from_str("たからばこから ");
    s.append(c.name());
    s.append("を てにいれた！（");
    s.append(who);
    s.append("）");
    s
}

/// Stepping on tile (`x`, `y`) of a cave: when the tile shows a closed
/// chest, every chest listed for the tile that is not among `opened` is
/// handed to the first member with room, else put in the bag, and recorded
/// as opened; a chest nobody has room for stays closed. Once a chest has
/// been taken the tile shows an open chest. Returns the last line to show.
pub fn open_chests(
    party: &mut PartyState,
    structures: &mut Vec<Vec<Structure>>,
    chests: &Vec<TreasureChest>,
    opened: &mut Vec<usize>,
    x: usize,
    y: usize,
) -> (r: Option<String>)
    requires
        y < old(structures)@.len(),
        x < old(structures)@[y as int]@.len(),
        counts_fit(*old(party), chests@.len() as int),
    ensures
        ({
            let out = chest_outcome(*old(party), chests@, old(opened)@, old(structures)@[y as int]@[x as int] == Structure::Chest, x, y);
            &&& member_bags(final(party).members@) == out.members
            &&& bag_view(final(party).bag) == out.bag
            &&& final(opened)@ == out.opened
            &&& message_view(r) == out.message
            &&& final(structures)@.len() == old(structures)@.len()
            &&& forall|row: int| 0 <= row < old(structures)@.len() && row != y ==> #[trigger] final(structures)@[row] == old(structures)@[row]
            &&& final(structures)@[y as int]@ == if out.took {
                old(structures)@[y as int]@.update(x as int, Structure::ChestOpen)
            } else {
                old(structures)@[y as int]@
            }
        }),
        same_members(old(party).members@, final(party).members@),
        final(party).gold == old(party).gold,
        final(party).candidates@ == old(party).candidates@,
{
    let ghost p0 = *party;
    let ghost kinds = member_kinds(p0.members@);
    let ghost start = ChestState { members: member_bags(p0.members@), bag: bag_view(p0.bag), opened: opened@, message: None, took: false };
    if structures[y][x] != Structure::Chest {
        return None;
    }
    let n = chests.len();
    let mut message: Option<String> = None;
    let mut took = false;
    let mut i: usize = 0;
    while i < n
        invariant
            i <= n,
            n == chests@.len(),
            counts_fit(p0, n as int),
            (ChestState { members: member_bags(party.members@), bag: bag_view(party.bag), opened: opened@, message: message_view(message), took })
                == chests_fold(start, kinds, chests@, i as int, x, y),
            same_members(p0.members@, party.members@),
            kinds == member_kinds(p0.members@),
            party.gold == p0.gold,
            party.candidates@ == p0.candidates@,
            forall|j: int| 0 <= j < p0.members@.len() ==> (#[trigger] party.members@[j]).inventory.total() <= p0.members@[j].inventory.total() + i,
            party.bag.total() <= p0.bag.total() + i,
        decreases n - i,
    {
        let c = chests[i];
        let is_new = c.x == x && c.y == y && !contains_index(opened, i);
        if is_new {
            let item = match c.content {
                TreasureContent::Item(k) => k,
                TreasureContent::Weapon(k) => k,
            };
            let ghost before = party.members@;
            match give_to_first(&mut party.members, item, Ghost(u32::MAX as int)) {
                Some(j) => {
                    proof {
                        assert(kinds[j as int] == party.members@[j as int].kind);
                    }
                    message = Some(found_text(c.content, party.members[j].kind.name()));
                    opened.push(i);
                    took = true;
                },
                None => {
                    if party.bag.can_add(1) {
                        let _added = party.bag.try_add(item, 1);
                        message = Some(found_text(c.content, "ふくろ"));
                        opened.push(i);
                        took = true;
                    } else {
                        message = Some(String::from_str("もちものも ふくろも いっぱいだ！"));
                    }
                },
            }
            proof {
                assert forall|j: int| 0 <= j < p0.members@.len() implies (#[trigger] party.members@[j]).inventory.total() <= p0.members@[j].inventory.total() + i + 1 by {
                    assert(before[j].inventory.total() <= p0.members@[j].inventory.total() + i);
                }
            }
        }
        i = i + 1;
    }
    if took {
        let mut row = structures.remove(y);
        row.set(x, Structure::ChestOpen);
        structures.insert(y, row);
    }
    message
}

} // verus!
