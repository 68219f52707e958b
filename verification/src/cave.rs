//! Cave generation: a random walk carves the floor out of solid rock, a
//! ladder marks the entrance, and treasure chests are spread over the floor.
use vstd::prelude::*;
use rand::seq::SliceRandom;
use rand::Rng;
use rand::SeedableRng;
use rand_chacha::ChaCha8Rng;
use std::collections::VecDeque;
use crate::item::{item_name, ItemKey};
use crate::terrain::{walkable, Structure, Terrain};

verus! {

/// Width of a cave in tiles.
pub const CAVE_WIDTH: usize = 30;

/// Height of a cave in tiles.
pub const CAVE_HEIGHT: usize = 30;

/// Steps of the walk that carves an ordinary cave.
pub const RANDOM_WALK_STEPS: usize = 400;

/// Steps of the walk that carves the boss cave.
pub const BOSS_CAVE_WALK_STEPS: usize = 600;

/// Most chests a cave gets beyond the guaranteed ones.
pub const MAX_TREASURES: usize = 3;

/// Number of tiles of a cave.
pub const CAVE_TILES: usize = 900;

/// The random number generator that drives cave generation.
#[verifier::external_type_specification]
#[verifier::external_body]
pub struct ExChaCha8Rng(rand_chacha::ChaCha8Rng);

/// A number drawn from `lo..hi` by `rand::Rng::gen_range`, which panics on
/// an empty range and otherwise returns a value inside it. Which value it is
/// depends on the state of the generator and is not stated.
#[verifier::external_body]
fn roll_in(rng: &mut ChaCha8Rng, lo: usize, hi: usize) -> (r: usize)
    requires
        lo < hi,
    ensures
        lo <= r < hi,
{
    rng.gen_range(lo..hi)
}

/// `rand::seq::SliceRandom::shuffle`: a Fisher-Yates shuffle that only swaps
/// elements, so the result is a permutation of the input. Which permutation
/// it is depends on the generator and is not stated.
#[verifier::external_body]
fn shuffle_cells(cells: &mut Vec<(usize, usize)>, rng: &mut ChaCha8Rng)
    ensures
        final(cells)@.len() == old(cells)@.len(),
        final(cells)@.to_multiset() == old(cells)@.to_multiset(),
{
    cells.shuffle(rng);
}

/// What a chest holds.
#[derive(Debug, Clone, Copy, PartialEq, Eq)]
pub enum TreasureContent {
    Item(ItemKey),
    Weapon(ItemKey),
}

/// The name of what a chest holds.
pub open spec fn treasure_name(t: TreasureContent) -> &'static str {
    match t {
        TreasureContent::Item(k) => item_name(k),
        TreasureContent::Weapon(k) => item_name(k),
    }
}

impl TreasureContent {
    /// The name of what the chest holds.
    pub fn name(self) -> (r: &'static str)
        ensures
            r == treasure_name(self),
    {
        match self {
            TreasureContent::Item(item) => item.name(),
            TreasureContent::Weapon(weapon) => weapon.name(),
        }
    }
}

/// A chest: where it stands and what it holds.
#[derive(Debug, Clone, Copy)]
pub struct TreasureChest {
    pub x: usize,
    pub y: usize,
    pub content: TreasureContent,
}

/// An ordinary cave.
pub struct CaveMapData {
    pub grid: Vec<Vec<Terrain>>,
    pub structures: Vec<Vec<Structure>>,
    pub width: usize,
    pub height: usize,
    pub spawn_position: (usize, usize),
    pub treasures: Vec<TreasureChest>,
}

/// The cave of the final boss.
pub struct BossCaveMapData {
    pub grid: Vec<Vec<Terrain>>,
    pub structures: Vec<Vec<Structure>>,
    pub width: usize,
    pub height: usize,
    pub spawn_position: (usize, usize),
    pub boss_position: (usize, usize),
}

// ---- the walk ----

/// The step of a direction: up, down, left, right.
pub open spec fn dir_offset(d: usize) -> (int, int) {
    if d == 0 {
        (0, -1)
    } else if d == 1 {
        (0, 1)
    } else if d == 2 {
        (-1, 0)
    } else {
        (1, 0)
    }
}

/// Off the outer ring of a cave.
pub open spec fn inner(x: int, y: int) -> bool {
    1 <= x < CAVE_WIDTH - 1 && 1 <= y < CAVE_HEIGHT - 1
}

/// The centre of a cave, where the walk starts and the ladder stands.
pub open spec fn cave_center() -> (int, int) {
    ((CAVE_WIDTH / 2) as int, (CAVE_HEIGHT / 2) as int)
}

/// One step of the walk; a step onto the outer ring is not taken.
pub open spec fn walk_step(p: (int, int), d: usize) -> (int, int) {
    let n = (p.0 + dir_offset(d).0, p.1 + dir_offset(d).1);
    if inner(n.0, n.1) {
        n
    } else {
        p
    }
}

/// Where the walk stands after the given steps.
pub open spec fn walk_end(dirs: Seq<usize>) -> (int, int)
    decreases dirs.len(),
{
    if dirs.len() == 0 {
        cave_center()
    } else {
        walk_step(walk_end(dirs.drop_last()), dirs.last())
    }
}

/// The walk stands on the tile at some point.
pub open spec fn visited(dirs: Seq<usize>, x: int, y: int) -> bool {
    exists|k: int| 0 <= k <= dirs.len() && #[trigger] walk_end(dirs.take(k)) == (x, y)
}

/// The position of a tile in a row-major list of the cave's tiles.
pub open spec fn tile_index(x: int, y: int) -> int {
    y * CAVE_WIDTH + x
}

/// The walk never leaves the inside of the cave.
pub proof fn lemma_walk_inner(dirs: Seq<usize>)
    ensures
        inner(walk_end(dirs).0, walk_end(dirs).1),
    decreases dirs.len(),
{
    if dirs.len() > 0 {
        lemma_walk_inner(dirs.drop_last());
    }
}

/// A cave grid: `CAVE_HEIGHT` rows of `CAVE_WIDTH` tiles.
pub open spec fn cave_shaped<T>(g: Seq<Vec<T>>) -> bool {
    &&& g.len() == CAVE_HEIGHT
    &&& forall|y: int| 0 <= y < CAVE_HEIGHT ==> (#[trigger] g[y])@.len() == CAVE_WIDTH
}

/// The grid a walk carves: floor where it went, rock elsewhere.
pub open spec fn carved_by(g: Seq<Vec<Terrain>>, dirs: Seq<usize>, wall: Terrain, floor: Terrain) -> bool {
    &&& cave_shaped(g)
    &&& forall|x: int, y: int| 0 <= x < CAVE_WIDTH && 0 <= y < CAVE_HEIGHT ==>
        #[trigger] g[y]@[x] == (if visited(dirs, x, y) { floor } else { wall })
}

/// The walk stood on the tile within its first `n` steps.
pub open spec fn visited_within(dirs: Seq<usize>, n: int, x: int, y: int) -> bool {
    exists|k: int| 0 <= k <= n && #[trigger] walk_end(dirs.take(k)) == (x, y)
}

/// A row-major list of tiles marks exactly the tiles visited within `n` steps.
pub open spec fn marks_walk(flat: Seq<Terrain>, dirs: Seq<usize>, n: int, wall: Terrain, floor: Terrain) -> bool {
    &&& flat.len() == CAVE_TILES
    &&& forall|cx: int, cy: int| 0 <= cx < CAVE_WIDTH && 0 <= cy < CAVE_HEIGHT ==>
        #[trigger] flat[tile_index(cx, cy)] == (if visited_within(dirs, n, cx, cy) { floor } else { wall })
}

proof fn lemma_walk_start(flat: Seq<Terrain>, dirs: Seq<usize>, wall: Terrain, floor: Terrain)
    requires
        flat.len() == CAVE_TILES,
        forall|j: int| 0 <= j < CAVE_TILES && j != tile_index(15, 15) ==> #[trigger] flat[j] == wall,
        flat[tile_index(15, 15)] == floor,
    ensures
        marks_walk(flat, dirs, 0, wall, floor),
{
    assert(dirs.take(0) =~= Seq::<usize>::empty());
    assert forall|cx: int, cy: int| 0 <= cx < CAVE_WIDTH && 0 <= cy < CAVE_HEIGHT implies
        #[trigger] flat[tile_index(cx, cy)] == (if visited_within(dirs, 0, cx, cy) { floor } else { wall }) by {
        if cx == 15 && cy == 15 {
            assert(walk_end(dirs.take(0)) == (cx, cy));
        } else {
            assert(tile_index(cx, cy) != tile_index(15, 15));
        }
    }
}

proof fn lemma_walk_next(old_flat: Seq<Terrain>, new_flat: Seq<Terrain>, dirs: Seq<usize>, i: int, wall: Terrain, floor: Terrain)
    requires
        0 <= i < dirs.len(),
        marks_walk(old_flat, dirs, i, wall, floor),
        inner(walk_end(dirs.take(i + 1)).0, walk_end(dirs.take(i + 1)).1),
        new_flat == old_flat.update(tile_index(walk_end(dirs.take(i + 1)).0, walk_end(dirs.take(i + 1)).1), floor),
    ensures
        marks_walk(new_flat, dirs, i + 1, wall, floor),
{
    let q = walk_end(dirs.take(i + 1));
    assert forall|cx: int, cy: int| 0 <= cx < CAVE_WIDTH && 0 <= cy < CAVE_HEIGHT implies
        #[trigger] new_flat[tile_index(cx, cy)] == (if visited_within(dirs, i + 1, cx, cy) { floor } else { wall }) by {
        if (cx, cy) == q {
            assert(walk_end(dirs.take(i + 1)) == (cx, cy));
        } else {
            assert(tile_index(cx, cy) != tile_index(q.0, q.1));
            if visited_within(dirs, i + 1, cx, cy) {
                let k = choose|k: int| 0 <= k <= i + 1 && #[trigger] walk_end(dirs.take(k)) == (cx, cy);
                assert(k <= i);
                assert(visited_within(dirs, i, cx, cy));
            }
            if visited_within(dirs, i, cx, cy) {
                let k = choose|k: int| 0 <= k <= i && #[trigger] walk_end(dirs.take(k)) == (cx, cy);
                assert(visited_within(dirs, i + 1, cx, cy));
            }
        }
    }
}

/// Carves a cave by walking from the centre; each step goes in the
/// direction its number names (up, down, left, right).
pub fn carve(dirs: &Vec<usize>, wall: Terrain, floor: Terrain) -> (r: Vec<Vec<Terrain>>)
    requires
        forall|i: int| 0 <= i < dirs@.len() ==> #[trigger] dirs@[i] < 4,
    ensures
        carved_by(r@, dirs@, wall, floor),
{
    let mut flat: Vec<Terrain> = Vec::new();
    let mut n: usize = 0;
    while n < CAVE_TILES
        invariant
            n <= CAVE_TILES,
            flat@.len() == n,
            forall|j: int| 0 <= j < n ==> #[trigger] flat@[j] == wall,
        decreases CAVE_TILES - n,
    {
        flat.push(wall);
        n = n + 1;
    }
    let mut x: usize = CAVE_WIDTH / 2;
    let mut y: usize = CAVE_HEIGHT / 2;
    flat.set(y * CAVE_WIDTH + x, floor);
    proof { lemma_walk_start(flat@, dirs@, wall, floor); }
    let mut i: usize = 0;
    while i < dirs.len()
        invariant
            i <= dirs@.len(),
            forall|j: int| 0 <= j < dirs@.len() ==> #[trigger] dirs@[j] < 4,
            (x as int, y as int) == walk_end(dirs@.take(i as int)),
            inner(x as int, y as int),
            marks_walk(flat@, dirs@, i as int, wall, floor),
        decreases dirs@.len() - i,
    {
        let d = dirs[i];
        let nx: i64 = if d == 2 { x as i64 - 1 } else if d == 3 { x as i64 + 1 } else { x as i64 };
        let ny: i64 = if d == 0 { y as i64 - 1 } else if d == 1 { y as i64 + 1 } else { y as i64 };
        let ghost old_flat = flat@;
        proof {
            assert(dirs@.take(i + 1).drop_last() =~= dirs@.take(i as int));
            assert(dirs@.take(i + 1).last() == d);
        }
        if nx >= 1 && nx < (CAVE_WIDTH as i64) - 1 && ny >= 1 && ny < (CAVE_HEIGHT as i64) - 1 {
            x = nx as usize;
            y = ny as usize;
            flat.set(y * CAVE_WIDTH + x, floor);
        } else {
            proof {
                assert(walk_end(dirs@.take(i as int)) == (x as int, y as int));
                assert(visited_within(dirs@, i as int, x as int, y as int));
                assert(old_flat[tile_index(x as int, y as int)] == floor);
                assert(flat@ =~= old_flat.update(tile_index(x as int, y as int), floor));
            }
        }
        proof {
            assert(walk_end(dirs@.take(i + 1)) == (x as int, y as int));
            lemma_walk_next(old_flat, flat@, dirs@, i as int, wall, floor);
        }
        i = i + 1;
    }
    proof { assert(dirs@.take(dirs@.len() as int) =~= dirs@); }
    let mut rows: Vec<Vec<Terrain>> = Vec::new();
    let mut ry: usize = 0;
    while ry < CAVE_HEIGHT
        invariant
            ry <= CAVE_HEIGHT,
            flat@.len() == CAVE_TILES,
            rows@.len() == ry,
            forall|yy: int| 0 <= yy < ry ==> (#[trigger] rows@[yy])@.len() == CAVE_WIDTH,
            forall|xx: int, yy: int| 0 <= xx < CAVE_WIDTH && 0 <= yy < ry ==> #[trigger] rows@[yy]@[xx] == flat@[tile_index(xx, yy)],
        decreases CAVE_HEIGHT - ry,
    {
        let mut row: Vec<Terrain> = Vec::new();
        let mut rx: usize = 0;
        while rx < CAVE_WIDTH
            invariant
                rx <= CAVE_WIDTH,
                ry < CAVE_HEIGHT,
                flat@.len() == CAVE_TILES,
                row@.len() == rx,
                forall|xx: int| 0 <= xx < rx ==> #[trigger] row@[xx] == flat@[tile_index(xx, ry as int)],
            decreases CAVE_WIDTH - rx,
        {
            row.push(flat[ry * CAVE_WIDTH + rx]);
            rx = rx + 1;
        }
        rows.push(row);
        ry = ry + 1;
    }
    proof {
        assert forall|cx: int, cy: int| 0 <= cx < CAVE_WIDTH && 0 <= cy < CAVE_HEIGHT implies
            #[trigger] rows@[cy]@[cx] == (if visited(dirs@, cx, cy) { floor } else { wall }) by {
            assert(rows@[cy]@[cx] == flat@[tile_index(cx, cy)]);
            assert(visited(dirs@, cx, cy) == visited_within(dirs@, dirs@.len() as int, cx, cy));
        }
    }
    rows
}


// ---- floor tiles and chests ----

/// The floor tiles among the first `n` of a cave, in row-major order,
/// leaving one tile out.
pub open spec fn floor_cells(g: Seq<Vec<Terrain>>, floor: Terrain, skip: (usize, usize), n: nat) -> Seq<(usize, usize)>
    decreases n,
{
    if n == 0 {
        Seq::empty()
    } else {
        let rest = floor_cells(g, floor, skip, (n - 1) as nat);
        let i = n - 1;
        let p = ((i % CAVE_WIDTH as int) as usize, (i / CAVE_WIDTH as int) as usize);
        if g[i / CAVE_WIDTH as int]@[i % CAVE_WIDTH as int] == floor && p != skip {
            rest.push(p)
        } else {
            rest
        }
    }
}

/// Every listed tile lies in the cave, is floor and is not the left-out one.
pub open spec fn all_floor(g: Seq<Vec<Terrain>>, cells: Seq<(usize, usize)>, floor: Terrain, skip: (usize, usize)) -> bool {
    forall|k: int| 0 <= k < cells.len() ==> {
        let c = #[trigger] cells[k];
        &&& c.0 < CAVE_WIDTH
        &&& c.1 < CAVE_HEIGHT
        &&& g[c.1 as int]@[c.0 as int] == floor
        &&& c != skip
    }
}

/// The floor tiles of a cave other than `skip`, in row-major order.
pub fn floor_positions(grid: &Vec<Vec<Terrain>>, floor: Terrain, skip: (usize, usize)) -> (r: Vec<(usize, usize)>)
    requires
        cave_shaped(grid@),
    ensures
        r@ == floor_cells(grid@, floor, skip, CAVE_TILES as nat),
        r@.no_duplicates(),
        all_floor(grid@, r@, floor, skip),
{
    let mut out: Vec<(usize, usize)> = Vec::new();
    let mut n: usize = 0;
    while n < CAVE_TILES
        invariant
            n <= CAVE_TILES,
            cave_shaped(grid@),
            out@ == floor_cells(grid@, floor, skip, n as nat),
            all_floor(grid@, out@, floor, skip),
            forall|k: int| 0 <= k < out@.len() ==> tile_index((#[trigger] out@[k]).0 as int, out@[k].1 as int) < n,
            forall|a: int, b: int| 0 <= a < b < out@.len() ==>
                tile_index((#[trigger] out@[a]).0 as int, out@[a].1 as int) < tile_index((#[trigger] out@[b]).0 as int, out@[b].1 as int),
        decreases CAVE_TILES - n,
    {
        let cx = n % CAVE_WIDTH;
        let cy = n / CAVE_WIDTH;
        proof {
            vstd::arithmetic::div_mod::lemma_fundamental_div_mod(n as int, CAVE_WIDTH as int);
            assert(tile_index(cx as int, cy as int) == n);
        }
        if grid[cy][cx] == floor && !(cx == skip.0 && cy == skip.1) {
            out.push((cx, cy));
        }
        n = n + 1;
    }
    proof {
        assert forall|a: int, b: int| 0 <= a < out@.len() && 0 <= b < out@.len() && a != b implies out@[a] != out@[b] by {
            if a < b {
                assert(tile_index(out@[a].0 as int, out@[a].1 as int) < tile_index(out@[b].0 as int, out@[b].1 as int));
            } else {
                assert(tile_index(out@[b].0 as int, out@[b].1 as int) < tile_index(out@[a].0 as int, out@[a].1 as int));
            }
        }
    }
    out
}

/// The chest contents with their weights.
pub open spec fn treasure_table() -> Seq<(TreasureContent, usize)> {
    seq![
        (TreasureContent::Item(ItemKey::Herb), 25usize),
        (TreasureContent::Item(ItemKey::HighHerb), 15usize),
        (TreasureContent::Item(ItemKey::MagicStone), 25usize),
        (TreasureContent::Item(ItemKey::SilverOre), 15usize),
        (TreasureContent::Item(ItemKey::AncientCoin), 10usize),
        (TreasureContent::Item(ItemKey::DragonScale), 3usize),
        (TreasureContent::Item(ItemKey::MoonFragment), 10usize),
        (TreasureContent::Weapon(ItemKey::WoodenSword), 2usize),
    ]
}

/// The sum of the weights of the chest table.
pub const TREASURE_WEIGHT_TOTAL: usize = 105;

/// The entry a roll falls on: each entry takes as many rolls as its weight,
/// in table order; a roll past the end takes the last entry.
pub open spec fn weighted_pick(t: Seq<(TreasureContent, usize)>, roll: int) -> TreasureContent
    decreases t.len(),
{
    if t.len() <= 1 || roll < t[0].1 {
        t[0].0
    } else {
        weighted_pick(t.drop_first(), roll - t[0].1)
    }
}

/// The content a roll below the total weight gives.
pub fn treasure_for_roll(roll: usize) -> (r: TreasureContent)
    ensures
        r == weighted_pick(treasure_table(), roll as int),
{
    let table: [(TreasureContent, usize); 8] = [
        (TreasureContent::Item(ItemKey::Herb), 25),
        (TreasureContent::Item(ItemKey::HighHerb), 15),
        (TreasureContent::Item(ItemKey::MagicStone), 25),
        (TreasureContent::Item(ItemKey::SilverOre), 15),
        (TreasureContent::Item(ItemKey::AncientCoin), 10),
        (TreasureContent::Item(ItemKey::DragonScale), 3),
        (TreasureContent::Item(ItemKey::MoonFragment), 10),
        (TreasureContent::Weapon(ItemKey::WoodenSword), 2),
    ];
    proof { assert(table@ =~= treasure_table()); }
    let mut rest: usize = roll;
    let mut i: usize = 0;
    proof { assert(treasure_table().skip(0) =~= treasure_table()); }
    while i < 8
        invariant
            i < 8,
            table@ == treasure_table(),
            weighted_pick(treasure_table(), roll as int) == weighted_pick(treasure_table().skip(i as int), rest as int),
        decreases 8 - i,
    {
        let (content, weight) = table[i];
        proof {
            assert(treasure_table().skip(i as int)[0] == table@[i as int]);
            assert(treasure_table().skip(i as int).drop_first() =~= treasure_table().skip(i + 1));
        }
        if rest < weight || i == 7 {
            return content;
        }
        rest = rest - weight;
        i = i + 1;
    }
    table[7].0
}

/// Draws the content of a chest: a roll below the total weight picks an
/// entry of the table.
fn random_treasure_content(rng: &mut ChaCha8Rng) -> (r: TreasureContent)
    ensures
        exists|roll: int| 0 <= roll < TREASURE_WEIGHT_TOTAL && r == weighted_pick(treasure_table(), roll),
{
    let roll = roll_in(rng, 0, TREASURE_WEIGHT_TOTAL);
    treasure_for_roll(roll)
}

/// The number of chests: the random count raised to the guaranteed items,
/// capped at the number of free floor tiles.
pub open spec fn chest_count(random_count: int, n_guaranteed: int, n_cells: int) -> int {
    let c = if random_count < n_guaranteed { n_guaranteed } else { random_count };
    if c < n_cells { c } else { n_cells }
}

/// The chests on the first listed tiles: the guaranteed items first, in
/// order, then the extra contents.
pub fn place_treasures(
    cells: &Vec<(usize, usize)>,
    count: usize,
    guaranteed: &[TreasureContent],
    extra: &Vec<TreasureContent>,
) -> (r: Vec<TreasureChest>)
    requires
        count <= cells@.len(),
        count <= guaranteed@.len() + extra@.len(),
    ensures
        r@.len() == count,
        forall|i: int| 0 <= i < count ==> {
            &&& (#[trigger] r@[i]).x == cells@[i].0
            &&& r@[i].y == cells@[i].1
            &&& r@[i].content == if i < guaranteed@.len() { guaranteed@[i] } else { extra@[i - guaranteed@.len()] }
        },
{
    let mut out: Vec<TreasureChest> = Vec::new();
    let mut i: usize = 0;
    while i < count
        invariant
            i <= count,
            count <= cells@.len(),
            count <= guaranteed@.len() + extra@.len(),
            out@.len() == i,
            forall|j: int| 0 <= j < i ==> {
                &&& (#[trigger] out@[j]).x == cells@[j].0
                &&& out@[j].y == cells@[j].1
                &&& out@[j].content == if j < guaranteed@.len() { guaranteed@[j] } else { extra@[j - guaranteed@.len()] }
            },
        decreases count - i,
    {
        let (tx, ty) = cells[i];
        let content = if i < guaranteed.len() { guaranteed[i] } else { extra[i - guaranteed.len()] };
        out.push(TreasureChest { x: tx, y: ty, content });
        i = i + 1;
    }
    out
}

/// The structure layer of a cave: a ladder at the entrance, nothing elsewhere.
pub fn cave_structures(spawn: (usize, usize)) -> (r: Vec<Vec<Structure>>)
    requires
        spawn.0 < CAVE_WIDTH,
        spawn.1 < CAVE_HEIGHT,
    ensures
        cave_shaped(r@),
        forall|x: int, y: int| 0 <= x < CAVE_WIDTH && 0 <= y < CAVE_HEIGHT ==>
            #[trigger] r@[y]@[x] == if (x, y) == (spawn.0 as int, spawn.1 as int) { Structure::Ladder } else { Structure::Nothing },
{
    let mut rows: Vec<Vec<Structure>> = Vec::new();
    let mut y: usize = 0;
    while y < CAVE_HEIGHT
        invariant
            y <= CAVE_HEIGHT,
            rows@.len() == y,
            forall|yy: int| 0 <= yy < y ==> (#[trigger] rows@[yy])@.len() == CAVE_WIDTH,
            forall|xx: int, yy: int| 0 <= xx < CAVE_WIDTH && 0 <= yy < y ==>
                #[trigger] rows@[yy]@[xx] == if (xx, yy) == (spawn.0 as int, spawn.1 as int) { Structure::Ladder } else { Structure::Nothing },
        decreases CAVE_HEIGHT - y,
    {
        let mut row: Vec<Structure> = Vec::new();
        let mut x: usize = 0;
        while x < CAVE_WIDTH
            invariant
                x <= CAVE_WIDTH,
                y < CAVE_HEIGHT,
                row@.len() == x,
                forall|xx: int| 0 <= xx < x ==>
                    #[trigger] row@[xx] == if (xx, y as int) == (spawn.0 as int, spawn.1 as int) { Structure::Ladder } else { Structure::Nothing },
            decreases CAVE_WIDTH - x,
        {
            if x == spawn.0 && y == spawn.1 {
                row.push(Structure::Ladder);
            } else {
                row.push(Structure::Nothing);
            }
            x = x + 1;
        }
        rows.push(row);
        y = y + 1;
    }
    rows
}

/// Draws the directions of a walk of `steps` steps.
fn draw_walk(rng: &mut ChaCha8Rng, steps: usize) -> (r: Vec<usize>)
    ensures
        r@.len() == steps,
        forall|i: int| 0 <= i < r@.len() ==> #[trigger] r@[i] < 4,
{
    let mut dirs: Vec<usize> = Vec::new();
    let mut i: usize = 0;
    while i < steps
        invariant
            i <= steps,
            dirs@.len() == i,
            forall|j: int| 0 <= j < dirs@.len() ==> #[trigger] dirs@[j] < 4,
        decreases steps - i,
    {
        dirs.push(roll_in(rng, 0, 4));
        i = i + 1;
    }
    dirs
}

/// The outer ring of a carved cave is rock and its centre is floor.
pub proof fn lemma_carved_edges(g: Seq<Vec<Terrain>>, dirs: Seq<usize>, wall: Terrain, floor: Terrain)
    requires
        carved_by(g, dirs, wall, floor),
    ensures
        forall|x: int, y: int| 0 <= x < CAVE_WIDTH && 0 <= y < CAVE_HEIGHT && !inner(x, y) ==> #[trigger] g[y]@[x] == wall,
        g[15]@[15] == floor,
{
    assert forall|x: int, y: int| 0 <= x < CAVE_WIDTH && 0 <= y < CAVE_HEIGHT && !inner(x, y) implies #[trigger] g[y]@[x] == wall by {
        if visited(dirs, x, y) {
            let k = choose|k: int| 0 <= k <= dirs.len() && #[trigger] walk_end(dirs.take(k)) == (x, y);
            lemma_walk_inner(dirs.take(k));
        }
    }
    assert(dirs.take(0) =~= Seq::<usize>::empty());
    assert(walk_end(dirs.take(0)) == (15int, 15int));
}

/// What every ordinary cave is: a walk of `RANDOM_WALK_STEPS` steps carves
/// the floor inside a wall border, the ladder stands at the centre, and
/// chests stand on distinct floor tiles away from the ladder, the
/// guaranteed items first.
pub open spec fn ordinary_cave(r: CaveMapData, guaranteed: Seq<TreasureContent>) -> bool {
    &&& r.width == CAVE_WIDTH
    &&& r.height == CAVE_HEIGHT
    &&& r.spawn_position == (15usize, 15usize)
    &&& exists|dirs: Seq<usize>| dirs.len() == RANDOM_WALK_STEPS && #[trigger] carved_by(r.grid@, dirs, Terrain::CaveWall, Terrain::CaveFloor)
    &&& forall|x: int, y: int| 0 <= x < CAVE_WIDTH && 0 <= y < CAVE_HEIGHT && !inner(x, y) ==> #[trigger] r.grid@[y]@[x] == Terrain::CaveWall
    &&& r.grid@[15]@[15] == Terrain::CaveFloor
    &&& cave_shaped(r.structures@)
    &&& forall|x: int, y: int| 0 <= x < CAVE_WIDTH && 0 <= y < CAVE_HEIGHT ==>
            #[trigger] r.structures@[y]@[x] == if x == 15 && y == 15 { Structure::Ladder } else { Structure::Nothing }
    &&& ({
            let n = floor_cells(r.grid@, Terrain::CaveFloor, (15usize, 15usize), CAVE_TILES as nat).len() as int;
            let g = guaranteed.len() as int;
            &&& n == 0 ==> r.treasures@.len() == 0
            &&& n > 0 ==> exists|rc: int| 1 <= rc <= MAX_TREASURES && rc <= n && r.treasures@.len() == #[trigger] chest_count(rc, g, n)
        })
    &&& forall|i: int| 0 <= i < r.treasures@.len() ==> {
            let t = #[trigger] r.treasures@[i];
            &&& t.x < CAVE_WIDTH
            &&& t.y < CAVE_HEIGHT
            &&& r.grid@[t.y as int]@[t.x as int] == Terrain::CaveFloor
            &&& (t.x, t.y) != (15usize, 15usize)
        }
    &&& forall|i: int, j: int| 0 <= i < j < r.treasures@.len() ==>
            (#[trigger] r.treasures@[i].x, r.treasures@[i].y) != (#[trigger] r.treasures@[j].x, r.treasures@[j].y)
    &&& forall|i: int| 0 <= i < r.treasures@.len() && i < guaranteed.len() ==>
            (#[trigger] r.treasures@[i]).content == guaranteed[i]
    &&& forall|i: int| guaranteed.len() <= i < r.treasures@.len() ==>
            exists|roll: int| 0 <= roll < TREASURE_WEIGHT_TOTAL
                && (#[trigger] r.treasures@[i]).content == #[trigger] weighted_pick(treasure_table(), roll)
}

/// Generates an ordinary cave: a walk of `RANDOM_WALK_STEPS` steps carves
/// the floor, the ladder stands at the centre, and chests stand on distinct
/// floor tiles away from the ladder, the guaranteed items first.
pub fn generate_cave_map(rng: &mut ChaCha8Rng, guaranteed_items: &[TreasureContent]) -> (r: CaveMapData)
    ensures
        ordinary_cave(r, guaranteed_items@),
{
    let dirs = draw_walk(rng, RANDOM_WALK_STEPS);
    let grid = carve(&dirs, Terrain::CaveWall, Terrain::CaveFloor);
    proof { lemma_carved_edges(grid@, dirs@, Terrain::CaveWall, Terrain::CaveFloor); }
    let spawn_position: (usize, usize) = (CAVE_WIDTH / 2, CAVE_HEIGHT / 2);
    let structures = cave_structures(spawn_position);
    let mut cells = floor_positions(&grid, Terrain::CaveFloor, spawn_position);
    let ghost listed = cells@;
    shuffle_cells(&mut cells, rng);
    proof {
        listed.to_multiset_ensures();
        cells@.to_multiset_ensures();
        listed.lemma_multiset_has_no_duplicates();
        cells@.lemma_multiset_has_no_duplicates_conv();
        assert forall|k: int| 0 <= k < cells@.len() implies listed.contains(#[trigger] cells@[k]) by {
            assert(cells@.contains(cells@[k]));
            assert(cells@.to_multiset().count(cells@[k]) > 0);
            assert(listed.to_multiset().count(cells@[k]) > 0);
        }
    }
    let n = cells.len();
    let random_count: usize = if n == 0 {
        0
    } else {
        let cap = if MAX_TREASURES < n { MAX_TREASURES } else { n };
        roll_in(rng, 1, cap + 1)
    };
    let g = guaranteed_items.len();
    let raised = if random_count < g { g } else { random_count };
    let count = if raised < n { raised } else { n };
    let mut extra: Vec<TreasureContent> = Vec::new();
    let mut i: usize = g;
    while i < count
        invariant
            g <= i || count <= i,
            i <= count || i == g,
            extra@.len() == if i >= g { i - g } else { 0 },
            forall|j: int| 0 <= j < extra@.len() ==>
                exists|roll: int| 0 <= roll < TREASURE_WEIGHT_TOTAL && #[trigger] extra@[j] == weighted_pick(treasure_table(), roll),
        decreases count - i,
    {
        extra.push(random_treasure_content(rng));
        i = i + 1;
    }
    let treasures = place_treasures(&cells, count, guaranteed_items, &extra);
    proof {
        assert forall|k: int| 0 <= k < treasures@.len() implies {
            let t = #[trigger] treasures@[k];
            &&& t.x < CAVE_WIDTH
            &&& t.y < CAVE_HEIGHT
            &&& grid@[t.y as int]@[t.x as int] == Terrain::CaveFloor
            &&& (t.x, t.y) != (15usize, 15usize)
        } by {
            assert(listed.contains(cells@[k]));
            let j = choose|j: int| 0 <= j < listed.len() && listed[j] == cells@[k];
            assert(listed[j] == cells@[k]);
        }
        assert forall|a: int, b: int| 0 <= a < b < treasures@.len() implies
            (#[trigger] treasures@[a].x, treasures@[a].y) != (#[trigger] treasures@[b].x, treasures@[b].y) by {
            assert(cells@[a] != cells@[b]);
        }
        assert forall|k: int| g <= k < treasures@.len() implies
            exists|roll: int| 0 <= roll < TREASURE_WEIGHT_TOTAL
                && (#[trigger] treasures@[k]).content == #[trigger] weighted_pick(treasure_table(), roll) by {
            let e = extra@[k - g];
            assert(exists|roll: int| 0 <= roll < TREASURE_WEIGHT_TOTAL && e == weighted_pick(treasure_table(), roll));
            let roll = choose|roll: int| 0 <= roll < TREASURE_WEIGHT_TOTAL && e == weighted_pick(treasure_table(), roll);
            assert(treasures@[k].content == weighted_pick(treasure_table(), roll));
        }
        if n > 0 {
            assert(1 <= random_count <= MAX_TREASURES && random_count <= n);
            assert(treasures@.len() == chest_count(random_count as int, g as int, n as int));
        }
    }
    CaveMapData {
        grid,
        structures,
        width: CAVE_WIDTH,
        height: CAVE_HEIGHT,
        spawn_position,
        treasures,
    }
}

// ---- the boss cave ----

/// The tile next to `c` in a direction.
pub open spec fn neighbor(c: (int, int), d: usize) -> (int, int) {
    (c.0 + dir_offset(d).0, c.1 + dir_offset(d).1)
}

/// A tile of the cave.
pub open spec fn in_cave(c: (int, int)) -> bool {
    0 <= c.0 < CAVE_WIDTH && 0 <= c.1 < CAVE_HEIGHT
}

/// A walkable tile of the cave.
pub open spec fn walkable_at(g: Seq<Vec<Terrain>>, c: (int, int)) -> bool {
    in_cave(c) && walkable(g[c.1]@[c.0])
}

/// `c` is `s`, or can be reached from `s` in at most `n` steps over
/// walkable tiles.
pub open spec fn reachable_within(g: Seq<Vec<Terrain>>, s: (int, int), c: (int, int), n: nat) -> bool
    decreases n,
{
    if c == s {
        true
    } else if n == 0 {
        false
    } else {
        walkable_at(g, c) && (
            reachable_within(g, s, neighbor(c, 0), (n - 1) as nat)
            || reachable_within(g, s, neighbor(c, 1), (n - 1) as nat)
            || reachable_within(g, s, neighbor(c, 2), (n - 1) as nat)
            || reachable_within(g, s, neighbor(c, 3), (n - 1) as nat)
        )
    }
}

/// Number of tiles not yet reached by the search.
pub open spec fn unlabeled(s: Seq<u32>) -> nat
    decreases s.len(),
{
    if s.len() == 0 {
        0
    } else {
        unlabeled(s.drop_last()) + if s.last() == u32::MAX { 1nat } else { 0nat }
    }
}

proof fn lemma_unlabeled_update(s: Seq<u32>, i: int, v: u32)
    requires
        0 <= i < s.len(),
        s[i] == u32::MAX,
        v != u32::MAX,
    ensures
        unlabeled(s.update(i, v)) + 1 == unlabeled(s),
    decreases s.len(),
{
    if i == s.len() - 1 {
        assert(s.update(i, v).drop_last() =~= s.drop_last());
    } else {
        assert(s.update(i, v).drop_last() =~= s.drop_last().update(i, v));
        lemma_unlabeled_update(s.drop_last(), i, v);
    }
}

proof fn lemma_unlabeled_bound(s: Seq<u32>)
    ensures
        unlabeled(s) <= s.len(),
    decreases s.len(),
{
    if s.len() > 0 {
        lemma_unlabeled_bound(s.drop_last());
    }
}

/// The labels of a search: every reached tile is reachable within its label,
/// no label exceeds the best one or the count of reached tiles.
pub open spec fn labels_ok(g: Seq<Vec<Terrain>>, s: (int, int), dist: Seq<u32>, max_dist: u32) -> bool {
    &&& dist.len() == CAVE_TILES
    &&& forall|x: int, y: int| 0 <= x < CAVE_WIDTH && 0 <= y < CAVE_HEIGHT && #[trigger] dist[tile_index(x, y)] != u32::MAX ==> {
        &&& reachable_within(g, s, (x, y), dist[tile_index(x, y)] as nat)
        &&& dist[tile_index(x, y)] <= max_dist
    }
    &&& max_dist + unlabeled(dist) <= CAVE_TILES
}

/// The direction back: up and down swap, and so do left and right.
pub open spec fn opposite(e: usize) -> usize {
    if e == 0 {
        1
    } else if e == 1 {
        0
    } else if e == 2 {
        3
    } else {
        2
    }
}

/// The search has reached the tile.
pub open spec fn reached(dist: Seq<u32>, c: (int, int)) -> bool {
    dist[tile_index(c.0, c.1)] != u32::MAX
}

/// The step count the search gave the tile.
pub open spec fn steps(dist: Seq<u32>, c: (int, int)) -> int {
    dist[tile_index(c.0, c.1)] as int
}

/// `order` lists the reached tiles in the order they were reached, and `pos`
/// finds each reached tile in it.
pub open spec fn search_indexed(dist: Seq<u32>, order: Seq<(int, int)>, pos: Map<int, int>) -> bool {
    &&& forall|i: int| 0 <= i < order.len() ==> in_cave(#[trigger] order[i]) && reached(dist, order[i])
    &&& forall|x: int, y: int| 0 <= x < CAVE_WIDTH && 0 <= y < CAVE_HEIGHT && #[trigger] dist[tile_index(x, y)] != u32::MAX ==> {
        &&& pos.dom().contains(tile_index(x, y))
        &&& 0 <= pos[tile_index(x, y)] < order.len()
        &&& order[pos[tile_index(x, y)]] == (x, y)
    }
}

/// Step counts never fall along `order`, and over the part still queued,
/// from `head` on, they rise by at most one.
pub open spec fn search_sorted(dist: Seq<u32>, order: Seq<(int, int)>, head: int) -> bool {
    &&& forall|i: int, j: int| 0 <= i <= j < order.len() ==> steps(dist, #[trigger] order[i]) <= steps(dist, #[trigger] order[j])
    &&& head < order.len() ==> steps(dist, order[order.len() - 1]) <= steps(dist, order[head]) + 1
}

/// The tiles taken from the queue, those before `head`, had all their
/// walkable neighbours reached.
pub open spec fn search_expanded(g: Seq<Vec<Terrain>>, dist: Seq<u32>, order: Seq<(int, int)>, head: int) -> bool {
    forall|i: int, e: usize| 0 <= i < head && e < 4 && #[trigger] walkable_at(g, neighbor(order[i], e)) ==> reached(dist, neighbor(order[i], e))
}

/// No reached tile can be reached in fewer steps than its count.
pub open spec fn shortest(g: Seq<Vec<Terrain>>, s: (int, int), dist: Seq<u32>) -> bool {
    forall|x: int, y: int| 0 <= x < CAVE_WIDTH && 0 <= y < CAVE_HEIGHT && #[trigger] dist[tile_index(x, y)] != u32::MAX && dist[tile_index(x, y)] > 0 ==>
        !reachable_within(g, s, (x, y), (dist[tile_index(x, y)] - 1) as nat)
}

/// Every tile reachable in fewer than `t` steps has been reached, with at
/// most that many.
pub open spec fn settled_below(g: Seq<Vec<Terrain>>, s: (int, int), dist: Seq<u32>, t: int) -> bool {
    forall|c: (int, int), k: nat| k < t && #[trigger] reachable_within(g, s, c, k) ==> reached(dist, c) && steps(dist, c) <= k
}

/// The state of the breadth-first search while the tiles from `head` on
/// wait in its queue.
pub open spec fn search_state(g: Seq<Vec<Terrain>>, s: (int, int), dist: Seq<u32>, order: Seq<(int, int)>, pos: Map<int, int>, head: int) -> bool {
    &&& dist.len() == CAVE_TILES
    &&& in_cave(s)
    &&& 0 <= head <= order.len()
    &&& reached(dist, s)
    &&& steps(dist, s) == 0
    &&& search_indexed(dist, order, pos)
    &&& search_sorted(dist, order, head)
    &&& search_expanded(g, dist, order, head)
    &&& shortest(g, s, dist)
    &&& head < order.len() ==> settled_below(g, s, dist, steps(dist, order[head]))
}

/// A tile reachable from `s` lies in the cave.
proof fn lemma_reach_in_cave(g: Seq<Vec<Terrain>>, s: (int, int), c: (int, int), n: nat)
    requires
        in_cave(s),
        reachable_within(g, s, c, n),
    ensures
        in_cave(c),
{
}

/// Whatever is reachable within `n` steps is reachable within more.
proof fn lemma_reach_more(g: Seq<Vec<Terrain>>, s: (int, int), c: (int, int), n: nat, m: nat)
    requires
        reachable_within(g, s, c, n),
        n <= m,
    ensures
        reachable_within(g, s, c, m),
    decreases n,
{
    if c != s {
        let k = (n - 1) as nat;
        let l = (m - 1) as nat;
        if reachable_within(g, s, neighbor(c, 0), k) {
            lemma_reach_more(g, s, neighbor(c, 0), k, l);
        } else if reachable_within(g, s, neighbor(c, 1), k) {
            lemma_reach_more(g, s, neighbor(c, 1), k, l);
        } else if reachable_within(g, s, neighbor(c, 2), k) {
            lemma_reach_more(g, s, neighbor(c, 2), k, l);
        } else {
            lemma_reach_more(g, s, neighbor(c, 3), k, l);
        }
    }
}

/// A tile other than `s` reachable within `n` steps has a neighbour
/// reachable within one step less; this picks its direction.
proof fn lemma_step_back(g: Seq<Vec<Terrain>>, s: (int, int), c: (int, int), n: nat) -> (e: usize)
    requires
        reachable_within(g, s, c, n),
        c != s,
    ensures
        n > 0,
        e < 4,
        walkable_at(g, c),
        reachable_within(g, s, neighbor(c, e), (n - 1) as nat),
        neighbor(neighbor(c, e), opposite(e)) == c,
{
    let k = (n - 1) as nat;
    if reachable_within(g, s, neighbor(c, 0), k) {
        0
    } else if reachable_within(g, s, neighbor(c, 1), k) {
        1
    } else if reachable_within(g, s, neighbor(c, 2), k) {
        2
    } else {
        3
    }
}

/// A tile reachable from `s` in as many steps as the front of the queue
/// has been reached already, unless it is `s`: its neighbour one step closer
/// was taken from the queue before, and that reached it.
proof fn lemma_closer_reached(g: Seq<Vec<Terrain>>, s: (int, int), dist: Seq<u32>, order: Seq<(int, int)>, pos: Map<int, int>, head: int, c: (int, int))
    requires
        search_state(g, s, dist, order, pos, head),
        head < order.len(),
        reachable_within(g, s, c, steps(dist, order[head]) as nat),
        c != s,
    ensures
        reached(dist, c),
{
    let d = steps(dist, order[head]);
    let e = lemma_step_back(g, s, c, d as nat);
    let nb = neighbor(c, e);
    let k = (d - 1) as nat;
    lemma_reach_in_cave(g, s, nb, k);
    assert(reachable_within(g, s, nb, k));
    assert(reached(dist, nb) && steps(dist, nb) <= k);
    assert(dist[tile_index(nb.0, nb.1)] != u32::MAX);
    let i = pos[tile_index(nb.0, nb.1)];
    assert(order[i] == nb);
    if i >= head {
        assert(steps(dist, order[head]) <= steps(dist, order[i]));
    }
    assert(walkable_at(g, neighbor(order[i], opposite(e))));
}

/// Once every tile reachable in fewer than `d` steps has been reached and
/// the labels are shortest, so has every tile reachable in `d` steps, where
/// `d` is the count at the front of the queue of an earlier state.
proof fn lemma_settle_next(g: Seq<Vec<Terrain>>, s: (int, int), dist0: Seq<u32>, order0: Seq<(int, int)>, pos0: Map<int, int>, head0: int, dist: Seq<u32>)
    requires
        search_state(g, s, dist0, order0, pos0, head0),
        head0 < order0.len(),
        dist.len() == CAVE_TILES,
        forall|t: int| 0 <= t < CAVE_TILES && dist0[t] != u32::MAX ==> #[trigger] dist[t] == dist0[t],
        shortest(g, s, dist),
    ensures
        settled_below(g, s, dist, steps(dist0, order0[head0]) + 1),
{
    let d = steps(dist0, order0[head0]);
    assert forall|c: (int, int), k: nat| k < d + 1 && #[trigger] reachable_within(g, s, c, k) implies reached(dist, c) && steps(dist, c) <= k by {
        lemma_reach_in_cave(g, s, c, k);
        let t = tile_index(c.0, c.1);
        if k < d {
            assert(reached(dist0, c) && steps(dist0, c) <= k);
            assert(dist[t] == dist0[t]);
        } else if c == s {
            assert(dist[t] == dist0[t]);
        } else {
            lemma_closer_reached(g, s, dist0, order0, pos0, head0, c);
            assert(dist[t] == dist0[t]);
            if steps(dist, c) > k {
                assert(dist[tile_index(c.0, c.1)] != u32::MAX);
                assert(!reachable_within(g, s, (c.0, c.1), (dist[t] - 1) as nat));
                lemma_reach_more(g, s, c, k, (dist[t] - 1) as nat);
            }
        }
    }
}

/// Taking a tile from the queue and reaching its walkable neighbours with one
/// step more keeps the search state.
proof fn lemma_step_done(
    g: Seq<Vec<Terrain>>,
    s: (int, int),
    dist0: Seq<u32>,
    order0: Seq<(int, int)>,
    pos0: Map<int, int>,
    head0: int,
    dist: Seq<u32>,
    order: Seq<(int, int)>,
    pos: Map<int, int>,
)
    requires
        search_state(g, s, dist0, order0, pos0, head0),
        head0 < order0.len(),
        dist.len() == CAVE_TILES,
        forall|t: int| 0 <= t < CAVE_TILES && dist0[t] != u32::MAX ==> #[trigger] dist[t] == dist0[t],
        order.len() >= order0.len(),
        forall|i: int| 0 <= i < order0.len() ==> #[trigger] order[i] == order0[i],
        forall|i: int| order0.len() <= i < order.len() ==> steps(dist, #[trigger] order[i]) == steps(dist0, order0[head0]) + 1,
        search_indexed(dist, order, pos),
        shortest(g, s, dist),
        forall|e: usize| e < 4 && #[trigger] walkable_at(g, neighbor(order0[head0], e)) ==> reached(dist, neighbor(order0[head0], e)),
    ensures
        search_state(g, s, dist, order, pos, head0 + 1),
{
    let d = steps(dist0, order0[head0]);
    let head = head0 + 1;
    assert forall|i: int| 0 <= i < order0.len() implies steps(dist, #[trigger] order[i]) == steps(dist0, order0[i]) by {
        assert(order[i] == order0[i]);
        assert(in_cave(order0[i]) && reached(dist0, order0[i]));
        let t = tile_index(order0[i].0, order0[i].1);
        assert(dist[t] == dist0[t]);
    }
    let last0 = order0.len() - 1;
    assert(steps(dist0, order0[last0]) <= d + 1);
    assert forall|i: int, j: int| 0 <= i <= j < order.len() implies steps(dist, #[trigger] order[i]) <= steps(dist, #[trigger] order[j]) by {
        if j < order0.len() {
            assert(steps(dist0, order0[i]) <= steps(dist0, order0[j]));
        } else if i < order0.len() {
            assert(steps(dist0, order0[i]) <= steps(dist0, order0[last0]));
        }
    }
    if head < order.len() {
        if head < order0.len() {
            assert(steps(dist0, order0[head0]) <= steps(dist0, order0[head]));
        }
        assert(steps(dist, order[head]) >= d);
        assert(steps(dist, order[order.len() - 1]) <= d + 1);
        lemma_settle_next(g, s, dist0, order0, pos0, head0, dist);
        assert forall|c: (int, int), k: nat| k < steps(dist, order[head]) && #[trigger] reachable_within(g, s, c, k) implies reached(dist, c) && steps(dist, c) <= k by {
            assert(k < d + 1);
        }
    }
    assert forall|i: int, e: usize| 0 <= i < head && e < 4 && #[trigger] walkable_at(g, neighbor(order[i], e)) implies reached(dist, neighbor(order[i], e)) by {
        assert(order[i] == order0[i]);
        if i < head0 {
            let nb = neighbor(order0[i], e);
            assert(walkable_at(g, nb));
            assert(reached(dist0, nb));
            assert(dist[tile_index(nb.0, nb.1)] == dist0[tile_index(nb.0, nb.1)]);
        }
    }
    let st = tile_index(s.0, s.1);
    assert(dist[st] == dist0[st]);
}

/// Once the queue is empty, every tile reachable from `s` has been reached.
proof fn lemma_reached_closed(g: Seq<Vec<Terrain>>, s: (int, int), dist: Seq<u32>, order: Seq<(int, int)>, pos: Map<int, int>, c: (int, int), n: nat)
    requires
        search_state(g, s, dist, order, pos, order.len() as int),
        reachable_within(g, s, c, n),
    ensures
        reached(dist, c),
    decreases n,
{
    if c != s {
        let e = lemma_step_back(g, s, c, n);
        let nb = neighbor(c, e);
        let k = (n - 1) as nat;
        lemma_reached_closed(g, s, dist, order, pos, nb, k);
        lemma_reach_in_cave(g, s, nb, k);
        assert(dist[tile_index(nb.0, nb.1)] != u32::MAX);
        let i = pos[tile_index(nb.0, nb.1)];
        assert(order[i] == nb);
        assert(walkable_at(g, neighbor(order[i], opposite(e))));
    }
}

/// The search order after looking at the neighbours of `c` in the first `k`
/// directions (up, down, left, right): each walkable tile not listed yet is
/// added at the end.
pub open spec fn expand_upto(g: Seq<Vec<Terrain>>, o: Seq<(int, int)>, c: (int, int), k: nat) -> Seq<(int, int)>
    decreases k,
{
    if k == 0 {
        o
    } else {
        let p = expand_upto(g, o, c, (k - 1) as nat);
        let nb = neighbor(c, (k - 1) as usize);
        if walkable_at(g, nb) && !p.contains(nb) {
            p.push(nb)
        } else {
            p
        }
    }
}

/// The breadth-first search from the tiles listed in `o`, the first `head`
/// of them already looked at: the next listed tile adds its neighbours, for
/// at most `fuel` more steps.
pub open spec fn search_run(g: Seq<Vec<Terrain>>, o: Seq<(int, int)>, head: nat, fuel: nat) -> Seq<(int, int)>
    decreases fuel,
{
    if fuel == 0 || head >= o.len() {
        o
    } else {
        search_run(g, expand_upto(g, o, o[head as int], 4), head + 1, (fuel - 1) as nat)
    }
}

/// The order in which a breadth-first search from `s` reaches the tiles it
/// can walk to. Each step reaches a new tile or takes one from the queue,
/// so twice the number of tiles is enough steps.
pub open spec fn search_order(g: Seq<Vec<Terrain>>, s: (int, int)) -> Seq<(int, int)> {
    search_run(g, seq![s], 0, (2 * CAVE_TILES) as nat)
}

/// Tile `a` is strictly nearer to `s` than tile `b`: whatever number of
/// steps reaches `b` reaches `a` with one fewer.
pub open spec fn nearer(g: Seq<Vec<Terrain>>, s: (int, int), a: (int, int), b: (int, int)) -> bool {
    forall|n: nat| #[trigger] reachable_within(g, s, b, n) ==> n >= 1 && reachable_within(g, s, a, (n - 1) as nat)
}

/// Finds where the boss waits: a breadth-first search from the entrance over
/// walkable tiles; the first tile reached at the greatest distance wins, and
/// the entrance itself when nothing else is reachable.
#[verifier::spinoff_prover]
#[verifier::rlimit(50)]
pub fn find_boss_position(grid: &Vec<Vec<Terrain>>, spawn: (usize, usize)) -> (r: (usize, usize))
    requires
        cave_shaped(grid@),
        spawn.0 < CAVE_WIDTH,
        spawn.1 < CAVE_HEIGHT,
    ensures
        r.0 < CAVE_WIDTH,
        r.1 < CAVE_HEIGHT,
        exists|n: nat| reachable_within(grid@, (spawn.0 as int, spawn.1 as int), (r.0 as int, r.1 as int), n),
        r != spawn ==> walkable_at(grid@, (r.0 as int, r.1 as int)),
        forall|c: (int, int), n: nat, m: nat|
            #![trigger reachable_within(grid@, (spawn.0 as int, spawn.1 as int), (r.0 as int, r.1 as int), n), reachable_within(grid@, (spawn.0 as int, spawn.1 as int), c, m)]
            reachable_within(grid@, (spawn.0 as int, spawn.1 as int), (r.0 as int, r.1 as int), n)
                && reachable_within(grid@, (spawn.0 as int, spawn.1 as int), c, m)
                ==> reachable_within(grid@, (spawn.0 as int, spawn.1 as int), c, n),
        exists|i: int| 0 <= i < search_order(grid@, (spawn.0 as int, spawn.1 as int)).len()
            && #[trigger] search_order(grid@, (spawn.0 as int, spawn.1 as int))[i] == (r.0 as int, r.1 as int)
            && forall|j: int| 0 <= j < i ==> nearer(grid@, (spawn.0 as int, spawn.1 as int),
                #[trigger] search_order(grid@, (spawn.0 as int, spawn.1 as int))[j], (r.0 as int, r.1 as int)),
{
    let ghost g = grid@;
    let ghost s = (spawn.0 as int, spawn.1 as int);
    let mut dist: Vec<u32> = Vec::new();
    let mut n: usize = 0;
    while n < CAVE_TILES
        invariant
            n <= CAVE_TILES,
            dist@.len() == n,
            forall|j: int| 0 <= j < n ==> #[trigger] dist@[j] == u32::MAX,
            unlabeled(dist@) == n,
        decreases CAVE_TILES - n,
    {
        proof { assert(dist@.push(u32::MAX).drop_last() =~= dist@); }
        dist.push(u32::MAX);
        n = n + 1;
    }
    proof { lemma_unlabeled_update(dist@, tile_index(s.0, s.1), 0); }
    dist.set(spawn.1 * CAVE_WIDTH + spawn.0, 0);
    let mut queue: VecDeque<(usize, usize)> = VecDeque::new();
    queue.push_back(spawn);
    let mut farthest: (usize, usize) = spawn;
    let mut max_dist: u32 = 0;
    let ghost mut order: Seq<(int, int)> = seq![s];
    let ghost mut pos: Map<int, int> = Map::<int, int>::empty().insert(tile_index(s.0, s.1), 0);
    let ghost mut head: int = 0;
    let ghost mut fuel: nat = (2 * CAVE_TILES) as nat;
    let ghost mut fidx: int = 0;
    proof {
        assert forall|x: int, y: int| 0 <= x < CAVE_WIDTH && 0 <= y < CAVE_HEIGHT && #[trigger] dist@[tile_index(x, y)] != u32::MAX implies {
            &&& reachable_within(g, s, (x, y), dist@[tile_index(x, y)] as nat)
            &&& dist@[tile_index(x, y)] <= max_dist
            &&& pos.dom().contains(tile_index(x, y))
            &&& 0 <= pos[tile_index(x, y)] < order.len()
            &&& order[pos[tile_index(x, y)]] == (x, y)
            &&& dist@[tile_index(x, y)] == 0
        } by {
            if (x, y) != s {
                assert(tile_index(x, y) != tile_index(s.0, s.1));
            }
        }
        assert(order[0] == s);
    }
    while queue.len() > 0
        invariant
            g == grid@,
            cave_shaped(g),
            in_cave(s),
            labels_ok(g, s, dist@, max_dist),
            dist@[tile_index(s.0, s.1)] != u32::MAX,
            forall|k: int| 0 <= k < queue@.len() ==> {
                let q = #[trigger] queue@[k];
                &&& q.0 < CAVE_WIDTH
                &&& q.1 < CAVE_HEIGHT
                &&& dist@[tile_index(q.0 as int, q.1 as int)] != u32::MAX
            },
            farthest.0 < CAVE_WIDTH,
            farthest.1 < CAVE_HEIGHT,
            dist@[tile_index(farthest.0 as int, farthest.1 as int)] == max_dist,
            search_state(g, s, dist@, order, pos, head),
            queue@.len() == order.len() - head,
            forall|k: int| 0 <= k < queue@.len() ==> ((#[trigger] queue@[k]).0 as int, queue@[k].1 as int) == order[head + k],
            fuel >= 2 * unlabeled(dist@) + queue@.len(),
            search_run(g, order, head as nat, fuel) == search_order(g, s),
            0 <= fidx < order.len(),
            order[fidx] == (farthest.0 as int, farthest.1 as int),
            forall|j: int| 0 <= j < fidx ==> steps(dist@, #[trigger] order[j]) < max_dist,
        decreases 2 * unlabeled(dist@) + queue@.len(),
    {
        let ghost measure = 2 * unlabeled(dist@) + queue@.len();
        let ghost q0 = queue@;
        let (cx, cy) = match queue.pop_front() {
            Some(p) => p,
            None => spawn,
        };
        let ghost head0 = head;
        let ghost dist0 = dist@;
        let ghost order0 = order;
        let ghost pos0 = pos;
        let ghost fuel0 = fuel;
        proof {
            assert(q0[0] == (cx, cy));
            assert(order0[head0] == (cx as int, cy as int));
            head = head + 1;
        }
        let d = dist[cy * CAVE_WIDTH + cx];
        proof {
            assert(dist@[tile_index(cx as int, cy as int)] != u32::MAX);
            assert(reachable_within(g, s, (cx as int, cy as int), d as nat));
            lemma_unlabeled_bound(dist@);
            assert forall|k: int| 0 <= k < queue@.len() implies ((#[trigger] queue@[k]).0 as int, queue@[k].1 as int) == order[head + k] by {
                assert(queue@[k] == q0[k + 1]);
            }
        }
        let mut dir: usize = 0;
        while dir < 4
            invariant
                g == grid@,
                cave_shaped(g),
                in_cave(s),
                cx < CAVE_WIDTH,
                cy < CAVE_HEIGHT,
                d == dist@[tile_index(cx as int, cy as int)],
                d != u32::MAX,
                reachable_within(g, s, (cx as int, cy as int), d as nat),
                labels_ok(g, s, dist@, max_dist),
                dist@[tile_index(s.0, s.1)] != u32::MAX,
                forall|k: int| 0 <= k < queue@.len() ==> {
                    let q = #[trigger] queue@[k];
                    &&& q.0 < CAVE_WIDTH
                    &&& q.1 < CAVE_HEIGHT
                    &&& dist@[tile_index(q.0 as int, q.1 as int)] != u32::MAX
                },
                farthest.0 < CAVE_WIDTH,
                farthest.1 < CAVE_HEIGHT,
                dist@[tile_index(farthest.0 as int, farthest.1 as int)] == max_dist,
                2 * unlabeled(dist@) + queue@.len() < measure,
                search_state(g, s, dist0, order0, pos0, head0),
                head0 < order0.len(),
                order0[head0] == (cx as int, cy as int),
                head == head0 + 1,
                d as int == steps(dist0, order0[head0]),
                dist@.len() == CAVE_TILES,
                forall|t: int| 0 <= t < CAVE_TILES && dist0[t] != u32::MAX ==> #[trigger] dist@[t] == dist0[t],
                order.len() >= order0.len(),
                forall|i: int| 0 <= i < order0.len() ==> #[trigger] order[i] == order0[i],
                forall|i: int| order0.len() <= i < order.len() ==> steps(dist@, #[trigger] order[i]) == d + 1,
                search_indexed(dist@, order, pos),
                shortest(g, s, dist@),
                queue@.len() == order.len() - head,
                forall|k: int| 0 <= k < queue@.len() ==> ((#[trigger] queue@[k]).0 as int, queue@[k].1 as int) == order[head + k],
                forall|e: usize| e < dir && #[trigger] walkable_at(g, neighbor(order0[head0], e)) ==> reached(dist@, neighbor(order0[head0], e)),
                dir <= 4,
                order == expand_upto(g, order0, (cx as int, cy as int), dir as nat),
                measure <= fuel0,
                search_run(g, order0, head0 as nat, fuel0) == search_order(g, s),
                0 <= fidx < order.len(),
                order[fidx] == (farthest.0 as int, farthest.1 as int),
                forall|j: int| 0 <= j < fidx ==> steps(dist@, #[trigger] order[j]) < max_dist,
            decreases 4 - dir,
        {
            let ghost prev_order = order;
            let ghost prev_dist = dist@;
            let ghost prev_pos = pos;
            let ghost mut pushed = false;
            let nx: i64 = if dir == 2 { cx as i64 - 1 } else if dir == 3 { cx as i64 + 1 } else { cx as i64 };
            let ny: i64 = if dir == 0 { cy as i64 - 1 } else if dir == 1 { cy as i64 + 1 } else { cy as i64 };
            let ghost nb = neighbor((cx as int, cy as int), dir);
            proof {
                assert(nb == (nx as int, ny as int));
            }
            if nx >= 0 && nx < CAVE_WIDTH as i64 && ny >= 0 && ny < CAVE_HEIGHT as i64 {
                let ux = nx as usize;
                let uy = ny as usize;
                let ui = uy * CAVE_WIDTH + ux;
                if dist[ui] == u32::MAX && grid[uy][ux].is_walkable() {
                    let ghost u = (ux as int, uy as int);
                    proof {
                        lemma_unlabeled_bound(dist@);
                        assert(d <= max_dist);
                        assert(u != s) by {
                            assert(dist@[tile_index(s.0, s.1)] != u32::MAX);
                        }
                        let back: usize = if dir == 0 { 1 } else if dir == 1 { 0 } else if dir == 2 { 3 } else { 2 };
                        assert(neighbor(u, back) == (cx as int, cy as int));
                        assert(walkable_at(g, u));
                        assert(reachable_within(g, s, u, (d + 1) as nat));
                        lemma_unlabeled_update(dist@, tile_index(u.0, u.1), (d + 1) as u32);
                        assert(!reachable_within(g, s, u, d as nat)) by {
                            if reachable_within(g, s, u, d as nat) {
                                lemma_closer_reached(g, s, dist0, order0, pos0, head0, u);
                                assert(dist@[tile_index(u.0, u.1)] == dist0[tile_index(u.0, u.1)]);
                            }
                        }
                    }
                    let ghost before = dist@;
                    let ghost order_before = order;
                    dist.set(ui, d + 1);
                    let ghost old_max = max_dist;
                    let ghost old_fidx = fidx;
                    if d + 1 > max_dist {
                        max_dist = d + 1;
                        farthest = (ux, uy);
                        proof { fidx = order.len() as int; }
                    }
                    queue.push_back((ux, uy));
                    proof {
                        pushed = true;
                        pos = pos.insert(tile_index(u.0, u.1), order.len() as int);
                        order = order.push(u);
                        assert forall|x: int, y: int| 0 <= x < CAVE_WIDTH && 0 <= y < CAVE_HEIGHT && #[trigger] dist@[tile_index(x, y)] != u32::MAX implies {
                            &&& reachable_within(g, s, (x, y), dist@[tile_index(x, y)] as nat)
                            &&& dist@[tile_index(x, y)] <= max_dist
                            &&& pos.dom().contains(tile_index(x, y))
                            &&& 0 <= pos[tile_index(x, y)] < order.len()
                            &&& order[pos[tile_index(x, y)]] == (x, y)
                            &&& (dist@[tile_index(x, y)] > 0 ==> !reachable_within(g, s, (x, y), (dist@[tile_index(x, y)] - 1) as nat))
                        } by {
                            if (x, y) != u {
                                assert(tile_index(x, y) != tile_index(u.0, u.1));
                                assert(dist@[tile_index(x, y)] == before[tile_index(x, y)]);
                                assert(order[pos[tile_index(x, y)]] == order_before[pos[tile_index(x, y)]]);
                            }
                        }
                        assert forall|i: int| 0 <= i < order.len() implies in_cave(#[trigger] order[i]) && reached(dist@, order[i]) by {
                            if i < order_before.len() {
                                assert(order[i] == order_before[i]);
                                let oi = order_before[i];
                                assert(in_cave(oi) && reached(before, oi));
                                if oi != u {
                                    assert(tile_index(oi.0, oi.1) != tile_index(u.0, u.1));
                                }
                            }
                        }
                        assert forall|t: int| 0 <= t < CAVE_TILES && dist0[t] != u32::MAX implies #[trigger] dist@[t] == dist0[t] by {
                            assert(before[t] == dist0[t]);
                        }
                        assert forall|i: int| 0 <= i < order0.len() implies #[trigger] order[i] == order0[i] by {
                            assert(order_before[i] == order0[i]);
                        }
                        assert forall|i: int| order0.len() <= i < order.len() implies steps(dist@, #[trigger] order[i]) == d + 1 by {
                            if i < order_before.len() {
                                let oi = order_before[i];
                                assert(order[i] == oi);
                                assert(steps(before, oi) == d + 1);
                                assert(in_cave(oi) && reached(before, oi));
                                assert(tile_index(oi.0, oi.1) != tile_index(u.0, u.1));
                            }
                        }
                        assert forall|k: int| 0 <= k < queue@.len() implies {
                            let q = #[trigger] queue@[k];
                            &&& q.0 < CAVE_WIDTH
                            &&& q.1 < CAVE_HEIGHT
                            &&& dist@[tile_index(q.0 as int, q.1 as int)] != u32::MAX
                        } by {
                            let q = queue@[k];
                            if (q.0 as int, q.1 as int) != u {
                                assert(tile_index(q.0 as int, q.1 as int) != tile_index(u.0, u.1));
                            }
                        }
                        assert forall|k: int| 0 <= k < queue@.len() implies ((#[trigger] queue@[k]).0 as int, queue@[k].1 as int) == order[head + k] by {
                            if k + 1 < queue@.len() {
                                assert(order[head + k] == order_before[head + k]);
                            }
                        }
                        assert forall|e: usize| e < dir && #[trigger] walkable_at(g, neighbor(order0[head0], e)) implies reached(dist@, neighbor(order0[head0], e)) by {
                            let w = neighbor(order0[head0], e);
                            assert(reached(before, w));
                            if w != u {
                                assert(tile_index(w.0, w.1) != tile_index(u.0, u.1));
                            }
                        }
                    }
                }
            }
            proof {
                let c = (cx as int, cy as int);
                if walkable_at(g, nb) && !prev_order.contains(nb) {
                    let t = tile_index(nb.0, nb.1);
                    if prev_dist[t] != u32::MAX {
                        let k = prev_pos[t];
                        assert(prev_order[k] == nb);
                    }
                    assert(pushed);
                }
                if pushed {
                    assert(!prev_order.contains(nb)) by {
                        if prev_order.contains(nb) {
                            let k = choose|k: int| 0 <= k < prev_order.len() && prev_order[k] == nb;
                            assert(reached(prev_dist, prev_order[k]));
                        }
                    }
                    assert(order == prev_order.push(nb));
                } else {
                    assert(order == prev_order);
                }
                assert(order == expand_upto(g, order0, c, (dir + 1) as nat));
            }
            dir = dir + 1;
        }
        proof {
            lemma_step_done(g, s, dist0, order0, pos0, head0, dist@, order, pos);
            assert(order == expand_upto(g, order0, order0[head0], 4));
            fuel = (fuel0 - 1) as nat;
        }
    }
    proof {
        let fp = (farthest.0 as int, farthest.1 as int);
        let fi = tile_index(fp.0, fp.1);
        assert(reachable_within(g, s, fp, dist@[fi] as nat));
        if farthest != spawn {
            assert(fp != s);
        }
        assert(head == order.len());
        assert(order == search_order(g, s));
        assert forall|j: int| 0 <= j < fidx implies nearer(g, s, #[trigger] order[j], fp) by {
            let oj = order[j];
            assert(in_cave(oj) && reached(dist@, oj));
            let sj = dist@[tile_index(oj.0, oj.1)];
            assert(sj < max_dist);
            assert(reachable_within(g, s, (oj.0, oj.1), sj as nat));
            assert forall|n: nat| #[trigger] reachable_within(g, s, fp, n) implies n >= 1 && reachable_within(g, s, oj, (n - 1) as nat) by {
                if n < max_dist {
                    lemma_reach_more(g, s, fp, n, (max_dist - 1) as nat);
                    assert(dist@[tile_index(fp.0, fp.1)] != u32::MAX);
                }
                lemma_reach_more(g, s, oj, sj as nat, (n - 1) as nat);
            }
        }
        assert(order[fidx] == fp);
        assert forall|c: (int, int), n: nat, m: nat|
            #![trigger reachable_within(g, s, fp, n), reachable_within(g, s, c, m)]
            reachable_within(g, s, fp, n) && reachable_within(g, s, c, m) implies reachable_within(g, s, c, n) by {
            if n < max_dist {
                lemma_reach_more(g, s, fp, n, (max_dist - 1) as nat);
                assert(dist@[tile_index(fp.0, fp.1)] != u32::MAX);
            }
            lemma_reached_closed(g, s, dist@, order, pos, c, m);
            lemma_reach_in_cave(g, s, c, m);
            let ct = tile_index(c.0, c.1);
            assert(dist@[tile_index(c.0, c.1)] != u32::MAX);
            assert(reachable_within(g, s, (c.0, c.1), dist@[ct] as nat));
            lemma_reach_more(g, s, c, dist@[ct] as nat, n);
        }
    }
    farthest
}

/// What every boss cave is: a longer walk of `BOSS_CAVE_WALK_STEPS` steps
/// carves the floor inside a wall border, the ladder stands at the centre,
/// and the boss waits on a tile reachable from it that is at least as far
/// from it as every other reachable tile: whatever number of steps reaches
/// the boss reaches every tile that can be reached at all; of the farthest
/// tiles, the boss takes the first the search from the ladder reaches.
pub open spec fn boss_cave(r: BossCaveMapData) -> bool {
    &&& r.width == CAVE_WIDTH
    &&& r.height == CAVE_HEIGHT
    &&& r.spawn_position == (15usize, 15usize)
    &&& exists|dirs: Seq<usize>| dirs.len() == BOSS_CAVE_WALK_STEPS && #[trigger] carved_by(r.grid@, dirs, Terrain::BossCaveWall, Terrain::BossCaveFloor)
    &&& forall|x: int, y: int| 0 <= x < CAVE_WIDTH && 0 <= y < CAVE_HEIGHT && !inner(x, y) ==> #[trigger] r.grid@[y]@[x] == Terrain::BossCaveWall
    &&& r.grid@[15]@[15] == Terrain::BossCaveFloor
    &&& cave_shaped(r.structures@)
    &&& forall|x: int, y: int| 0 <= x < CAVE_WIDTH && 0 <= y < CAVE_HEIGHT ==>
            #[trigger] r.structures@[y]@[x] == if x == 15 && y == 15 { Structure::Ladder } else { Structure::Nothing }
    &&& r.boss_position.0 < CAVE_WIDTH
    &&& r.boss_position.1 < CAVE_HEIGHT
    &&& exists|n: nat| reachable_within(r.grid@, (15int, 15int), (r.boss_position.0 as int, r.boss_position.1 as int), n)
    &&& r.boss_position != r.spawn_position ==> r.grid@[r.boss_position.1 as int]@[r.boss_position.0 as int] == Terrain::BossCaveFloor
    &&& forall|c: (int, int), n: nat, m: nat|
        #![trigger reachable_within(r.grid@, (15int, 15int), (r.boss_position.0 as int, r.boss_position.1 as int), n), reachable_within(r.grid@, (15int, 15int), c, m)]
        reachable_within(r.grid@, (15int, 15int), (r.boss_position.0 as int, r.boss_position.1 as int), n)
            && reachable_within(r.grid@, (15int, 15int), c, m)
            ==> reachable_within(r.grid@, (15int, 15int), c, n)
    &&& exists|i: int| 0 <= i < search_order(r.grid@, (15int, 15int)).len()
            && #[trigger] search_order(r.grid@, (15int, 15int))[i] == (r.boss_position.0 as int, r.boss_position.1 as int)
            && forall|j: int| 0 <= j < i ==> nearer(r.grid@, (15int, 15int),
                #[trigger] search_order(r.grid@, (15int, 15int))[j], (r.boss_position.0 as int, r.boss_position.1 as int))
}

/// Generates the boss cave: a longer walk of `BOSS_CAVE_WALK_STEPS` steps
/// carves the floor, the ladder stands at the centre, and the boss waits
/// where the search from the ladder ends.
pub fn generate_boss_cave_map(rng: &mut ChaCha8Rng) -> (r: BossCaveMapData)
    ensures
        boss_cave(r),
{
    let dirs = draw_walk(rng, BOSS_CAVE_WALK_STEPS);
    let grid = carve(&dirs, Terrain::BossCaveWall, Terrain::BossCaveFloor);
    proof { lemma_carved_edges(grid@, dirs@, Terrain::BossCaveWall, Terrain::BossCaveFloor); }
    let spawn_position: (usize, usize) = (CAVE_WIDTH / 2, CAVE_HEIGHT / 2);
    let structures = cave_structures(spawn_position);
    let boss_position = find_boss_position(&grid, spawn_position);
    proof {
        if boss_position != spawn_position {
            let b = (boss_position.0 as int, boss_position.1 as int);
            assert(walkable_at(grid@, b));
            assert(visited(dirs@, b.0, b.1) || grid@[b.1]@[b.0] == Terrain::BossCaveWall);
        }
    }
    BossCaveMapData {
        grid,
        structures,
        width: CAVE_WIDTH,
        height: CAVE_HEIGHT,
        spawn_position,
        boss_position,
    }
}

/// The tile (`x`, `y`) touches the tile of a boss: one step up, down, left
/// or right of it.
pub open spec fn next_to(x: usize, y: usize, b: (usize, usize)) -> bool {
    ||| (x == b.0 + 1 || x + 1 == b.0) && y == b.1
    ||| x == b.0 && (y == b.1 + 1 || y + 1 == b.1)
}

/// Whether the player at (`x`, `y`) stands next to one of the bosses; the
/// boss battle starts then.
pub fn boss_adjacent(x: usize, y: usize, bosses: &Vec<(usize, usize)>) -> (r: bool)
    ensures
        r == exists|k: int| 0 <= k < bosses@.len() && next_to(x, y, #[trigger] bosses@[k]),
{
    let mut k: usize = 0;
    while k < bosses.len()
        invariant
            k <= bosses@.len(),
            forall|j: int| 0 <= j < k ==> !next_to(x, y, #[trigger] bosses@[j]),
        decreases bosses@.len() - k,
    {
        let (bx, by) = bosses[k];
        let dx = if x >= bx { x - bx } else { bx - x };
        let dy = if y >= by { y - by } else { by - y };
        if (dx == 1 && dy == 0) || (dx == 0 && dy == 1) {
            proof {
                assert(next_to(x, y, bosses@[k as int]));
            }
            return true;
        }
        k = k + 1;
    }
    false
}

/// The seed of the cave at a tile of the world map, so that a cave keeps its
/// shape from visit to visit.
pub open spec fn cave_seed(x: usize, y: usize) -> int {
    x * 10007 + y
}

/// A generator seeded with `seed` by `rand::SeedableRng::seed_from_u64`.
/// Its state is hidden from proofs; nothing is stated of it.
#[verifier::external_body]
fn seeded_rng(seed: u64) -> ChaCha8Rng {
    ChaCha8Rng::seed_from_u64(seed)
}

/// The caves of some continent hold three moon fragments first.
pub open spec fn listed_cave(caves_by_continent: Seq<Vec<(usize, usize)>>, pos: (usize, usize)) -> bool {
    exists|c: int| 0 <= c < caves_by_continent.len() && (#[trigger] caves_by_continent[c])@.contains(pos)
}

/// The items a cave is sure to hold.
pub open spec fn guaranteed_for(caves_by_continent: Seq<Vec<(usize, usize)>>, pos: (usize, usize)) -> Seq<TreasureContent> {
    if listed_cave(caves_by_continent, pos) {
        seq![
            TreasureContent::Item(ItemKey::MoonFragment),
            TreasureContent::Item(ItemKey::MoonFragment),
            TreasureContent::Item(ItemKey::MoonFragment),
        ]
    } else {
        Seq::empty()
    }
}

/// The items the cave at `pos` is sure to hold: three moon fragments in a
/// cave listed for a continent, nothing elsewhere.
pub fn guaranteed_items_for(caves_by_continent: &Vec<Vec<(usize, usize)>>, pos: (usize, usize)) -> (r: Vec<TreasureContent>)
    ensures
        r@ == guaranteed_for(caves_by_continent@, pos),
{
    let mut c: usize = 0;
    while c < caves_by_continent.len()
        invariant
            c <= caves_by_continent@.len(),
            forall|k: int| 0 <= k < c ==> !(#[trigger] caves_by_continent@[k])@.contains(pos),
        decreases caves_by_continent@.len() - c,
    {
        let caves = &caves_by_continent[c];
        let mut k: usize = 0;
        while k < caves.len()
            invariant
                k <= caves@.len(),
                c < caves_by_continent@.len(),
                caves@ == caves_by_continent@[c as int]@,
                forall|j: int| 0 <= j < c ==> !(#[trigger] caves_by_continent@[j])@.contains(pos),
                forall|j: int| 0 <= j < k ==> caves@[j] != pos,
            decreases caves@.len() - k,
        {
            let (cx, cy) = caves[k];
            if cx == pos.0 && cy == pos.1 {
                proof {
                    assert(caves@[k as int] == pos);
                    assert(caves_by_continent@[c as int]@.contains(pos));
                }
                let v = vec![
                    TreasureContent::Item(ItemKey::MoonFragment),
                    TreasureContent::Item(ItemKey::MoonFragment),
                    TreasureContent::Item(ItemKey::MoonFragment),
                ];
                proof {
                    assert(v@ =~= guaranteed_for(caves_by_continent@, pos));
                }
                return v;
            }
            k = k + 1;
        }
        proof {
            assert(!caves_by_continent@[c as int]@.contains(pos));
        }
        c = c + 1;
    }
    Vec::new()
}

/// The cave entered from tile (`x`, `y`) of the world map, grown from that
/// tile's seed, with three moon fragments first when it is listed for a
/// continent.
pub fn cave_at(x: usize, y: usize, caves_by_continent: &Vec<Vec<(usize, usize)>>) -> (r: CaveMapData)
    requires
        cave_seed(x, y) <= u64::MAX,
    ensures
        ordinary_cave(r, guaranteed_for(caves_by_continent@, (x, y))),
{
    let seed: u64 = x as u64 * 10007 + y as u64;
    let mut rng = seeded_rng(seed);
    let items = guaranteed_items_for(caves_by_continent, (x, y));
    generate_cave_map(&mut rng, items.as_slice())
}

/// The boss cave entered from tile (`x`, `y`), grown from a seed of its own.
pub fn boss_cave_at(x: usize, y: usize) -> (r: BossCaveMapData)
    requires
        cave_seed(x, y) + 999 <= u64::MAX,
    ensures
        boss_cave(r),
{
    let seed: u64 = x as u64 * 10007 + y as u64 + 999;
    let mut rng = seeded_rng(seed);
    generate_boss_cave_map(&mut rng)
}

} // verus!
