//! Map tiles and moving one step on a grid.
use vstd::prelude::*;

verus! {

/// The ground of a tile.
#[derive(Debug, Clone, Copy, PartialEq, Eq, Structural)]
pub enum Terrain {
    Plains,
    Forest,
    Mountain,
    Sea,
    CaveWall,
    CaveFloor,
    BossCaveWall,
    BossCaveFloor,
}

/// Ground that can be walked on.
pub open spec fn walkable(t: Terrain) -> bool {
    t is Plains || t is Forest || t is CaveFloor || t is BossCaveFloor
}

impl Terrain {
    /// Whether the ground can be walked on.
    pub fn is_walkable(self) -> (r: bool)
        ensures
            r == walkable(self),
    {
        match self {
            Terrain::Plains | Terrain::Forest | Terrain::CaveFloor | Terrain::BossCaveFloor => true,
            _ => false,
        }
    }

    /// Whether a ship can sail over the tile.
    pub fn is_navigable(self) -> (r: bool)
        ensures
            r == (self is Sea),
    {
        match self {
            Terrain::Sea => true,
            _ => false,
        }
    }
}

/// Something built on a tile.
#[derive(Debug, Clone, Copy, PartialEq, Eq, Structural)]
pub enum Structure {
    Nothing,
    Town,
    Cave,
    Ladder,
    Chest,
    ChestOpen,
}

/// What stepping on a tile leads to.
#[derive(Debug, Clone, Copy, PartialEq, Eq)]
pub enum TileAction {
    Nothing,
    EnterTown,
    EnterCave,
    EnterBossCave,
    EnterHokora,
    ExitCave,
}

/// The outcome of an attempted step.
#[derive(Debug, Clone, Copy, PartialEq, Eq)]
pub enum MoveResult {
    Moved { new_x: usize, new_y: usize },
    Blocked,
}

/// A step that changes both coordinates.
pub open spec fn diagonal(dx: int, dy: int) -> bool {
    dx != 0 && dy != 0
}

/// Whether a step changes both coordinates.
pub fn is_diagonal_movement(dx: i32, dy: i32) -> (r: bool)
    ensures
        r == diagonal(dx as int, dy as int),
{
    dx != 0 && dy != 0
}

/// A coordinate moved by `delta` on a ring of `size` cells.
pub open spec fn wrapped(coord: int, delta: int, size: int) -> int {
    (coord + delta) % size
}

/// Moves a coordinate on a ring of `size` cells.
pub fn wrap_coordinate(coord: usize, delta: i32, size: usize) -> (r: usize)
    requires
        0 < size <= i32::MAX,
        coord < size,
    ensures
        r == wrapped(coord as int, delta as int, size as int),
        r < size,
{
    let s: i64 = size as i64;
    let v: i64 = coord as i64 + delta as i64;
    if v >= 0 {
        let m = v % s;
        (m as usize)
    } else {
        let w: i64 = 0 - v;
        let k: i64 = w % s;
        let ghost q: int = (w as int) / (s as int);
        proof {
            vstd::arithmetic::div_mod::lemma_fundamental_div_mod(w as int, s as int);
            assert(w as int == (s as int) * q + (k as int));
        }
        if k == 0 {
            proof {
                assert(v as int == (-q) * (s as int) + 0) by (nonlinear_arith)
                    requires
                        w as int == (s as int) * q + (k as int),
                        k == 0,
                        v as int == -(w as int),
                ;
                vstd::arithmetic::div_mod::lemma_fundamental_div_mod_converse(v as int, s as int, -q, 0);
            }
            0
        } else {
            proof {
                assert(v as int == (-q - 1) * (s as int) + (s as int - k as int)) by (nonlinear_arith)
                    requires
                        w as int == (s as int) * q + (k as int),
                        v as int == -(w as int),
                ;
                vstd::arithmetic::div_mod::lemma_fundamental_div_mod_converse(
                    v as int,
                    s as int,
                    -q - 1,
                    s as int - k as int,
                );
            }
            ((s - k) as usize)
        }
    }
}

/// The cell a step leads to, or none when it leaves a map that does not wrap.
pub open spec fn step_target(x: int, y: int, dx: int, dy: int, width: int, height: int, wraps: bool) -> Option<(int, int)> {
    if wraps {
        Some((wrapped(x, dx, width), wrapped(y, dy, height)))
    } else if x + dx < 0 || x + dx >= width || y + dy < 0 || y + dy >= height {
        None
    } else {
        Some((x + dx, y + dy))
    }
}

/// A grid of `height` rows of `width` tiles.
pub open spec fn grid_shape(grid: Seq<Vec<Terrain>>, width: int, height: int) -> bool {
    &&& grid.len() == height
    &&& forall|j: int| 0 <= j < height ==> (#[trigger] grid[j]).len() == width
}

/// Tries one step; diagonal steps and steps off a map that does not wrap
/// are blocked, and `passable` decides about the tile reached.
pub fn try_grid_move<F: Fn(usize, usize, Terrain) -> bool>(
    x: usize,
    y: usize,
    dx: i32,
    dy: i32,
    grid: &[Vec<Terrain>],
    width: usize,
    height: usize,
    wraps: bool,
    passable: F,
) -> (r: MoveResult)
    requires
        0 < width <= i32::MAX,
        0 < height <= i32::MAX,
        x < width,
        y < height,
        grid_shape(grid@, width as int, height as int),
        forall|a: usize, b: usize, t: Terrain| passable.requires((a, b, t)),
    ensures
        diagonal(dx as int, dy as int) ==> r == MoveResult::Blocked,
        !diagonal(dx as int, dy as int) && step_target(x as int, y as int, dx as int, dy as int, width as int, height as int, wraps) is None
            ==> r == MoveResult::Blocked,
        !diagonal(dx as int, dy as int) && step_target(x as int, y as int, dx as int, dy as int, width as int, height as int, wraps) is Some ==> {
            let (nx, ny) = step_target(x as int, y as int, dx as int, dy as int, width as int, height as int, wraps)->0;
            &&& 0 <= nx < width
            &&& 0 <= ny < height
            &&& (r == MoveResult::Moved { new_x: nx as usize, new_y: ny as usize }
                && passable.ensures((nx as usize, ny as usize, grid@[ny][nx]), true))
                || (r == MoveResult::Blocked
                && passable.ensures((nx as usize, ny as usize, grid@[ny][nx]), false))
        },
{
    if is_diagonal_movement(dx, dy) {
        return MoveResult::Blocked;
    }
    let (new_x, new_y) = if wraps {
        (wrap_coordinate(x, dx, width), wrap_coordinate(y, dy, height))
    } else {
        let nx: i64 = x as i64 + dx as i64;
        let ny: i64 = y as i64 + dy as i64;
        if nx < 0 || nx >= width as i64 || ny < 0 || ny >= height as i64 {
            return MoveResult::Blocked;
        }
        (nx as usize, ny as usize)
    };
    let row = &grid[new_y];
    let tile = row[new_x];
    if passable(new_x, new_y, tile) {
        MoveResult::Moved { new_x, new_y }
    } else {
        MoveResult::Blocked
    }
}

/// The scene that arriving on a tile switches to.
#[derive(Debug, Clone, Copy, PartialEq, Eq)]
pub enum SceneChange {
    Town,
    Cave,
    BossCave,
    Hokora,
    /// Back out onto the field.
    Field,
}

/// The scene a tile's action enters, if any; leaving a cave counts only
/// where the walk can leave one.
pub open spec fn scene_for(action: TileAction, can_exit: bool) -> Option<SceneChange> {
    match action {
        TileAction::EnterTown => Some(SceneChange::Town),
        TileAction::EnterCave => Some(SceneChange::Cave),
        TileAction::EnterBossCave => Some(SceneChange::BossCave),
        TileAction::EnterHokora => Some(SceneChange::Hokora),
        TileAction::ExitCave => if can_exit { Some(SceneChange::Field) } else { None },
        TileAction::Nothing => None,
    }
}

/// Arriving on a field tile: towns, caves and shrines are entered on foot,
/// never from the boat.
pub fn field_arrival(action: TileAction, on_boat: bool) -> (r: Option<SceneChange>)
    ensures
        r == if on_boat { None } else { scene_for(action, false) },
{
    if on_boat {
        return None;
    }
    match action {
        TileAction::EnterTown => Some(SceneChange::Town),
        TileAction::EnterCave => Some(SceneChange::Cave),
        TileAction::EnterBossCave => Some(SceneChange::BossCave),
        TileAction::EnterHokora => Some(SceneChange::Hokora),
        TileAction::ExitCave | TileAction::Nothing => None,
    }
}

/// Arriving on a tile where there is no boat, in caves and towns: a way out
/// leads back to the field.
pub fn walk_arrival(action: TileAction) -> (r: Option<SceneChange>)
    ensures
        r == scene_for(action, true),
{
    match action {
        TileAction::EnterTown => Some(SceneChange::Town),
        TileAction::EnterCave => Some(SceneChange::Cave),
        TileAction::EnterBossCave => Some(SceneChange::BossCave),
        TileAction::EnterHokora => Some(SceneChange::Hokora),
        TileAction::ExitCave => Some(SceneChange::Field),
        TileAction::Nothing => None,
    }
}

/// The map being walked: its ground, what is built on it, and whether
/// walking off one edge comes back at the other.
#[derive(Debug, Clone)]
pub struct ActiveMap {
    pub grid: Vec<Vec<Terrain>>,
    pub structures: Vec<Vec<Structure>>,
    pub width: usize,
    pub height: usize,
    pub wraps: bool,
}

/// A tile can be walked onto when something is built on it or its ground
/// can be walked on.
pub open spec fn walk_passable(structures: Seq<Vec<Structure>>, x: usize, y: usize, t: Terrain) -> bool {
    if y < structures.len() && x < structures[y as int]@.len() {
        structures[y as int]@[x as int] != Structure::Nothing || walkable(t)
    } else {
        walkable(t)
    }
}

impl ActiveMap {
    /// The ground and the buildings both cover `width` by `height` tiles.
    pub open spec fn shaped(&self) -> bool {
        &&& 0 < self.width <= i32::MAX
        &&& 0 < self.height <= i32::MAX
        &&& grid_shape(self.grid@, self.width as int, self.height as int)
        &&& self.structures@.len() == self.height
        &&& forall|j: int| 0 <= j < self.height ==> (#[trigger] self.structures@[j])@.len() == self.width
    }

    /// The field: its size read off the grid, wrapping at the edges.
    pub fn from_grid(grid: Vec<Vec<Terrain>>, structures: Vec<Vec<Structure>>) -> (r: Self)
        requires
            grid@.len() > 0,
        ensures
            r.grid@ == grid@,
            r.structures@ == structures@,
            r.width == grid@[0]@.len(),
            r.height == grid@.len(),
            r.wraps,
    {
        let width = grid[0].len();
        let height = grid.len();
        ActiveMap { grid, structures, width, height, wraps: true }
    }

    /// What is built on a tile.
    pub fn structure_at(&self, x: usize, y: usize) -> (r: Structure)
        requires
            y < self.structures@.len(),
            x < self.structures@[y as int]@.len(),
        ensures
            r == self.structures@[y as int]@[x as int],
    {
        self.structures[y][x]
    }

    /// The ground of a tile.
    pub fn terrain_at(&self, x: usize, y: usize) -> (r: Terrain)
        requires
            y < self.grid@.len(),
            x < self.grid@[y as int]@.len(),
        ensures
            r == self.grid@[y as int]@[x as int],
    {
        self.grid[y][x]
    }

    /// One step on foot: blocked when diagonal, off a map that does not
    /// wrap, or onto ground that cannot be walked on with nothing built on
    /// it.
    pub fn try_move(&self, x: usize, y: usize, dx: i32, dy: i32) -> (r: MoveResult)
        requires
            self.shaped(),
            x < self.width,
            y < self.height,
        ensures
            diagonal(dx as int, dy as int) ==> r == MoveResult::Blocked,
            !diagonal(dx as int, dy as int) && step_target(x as int, y as int, dx as int, dy as int, self.width as int, self.height as int, self.wraps) is None
                ==> r == MoveResult::Blocked,
            !diagonal(dx as int, dy as int) && step_target(x as int, y as int, dx as int, dy as int, self.width as int, self.height as int, self.wraps) is Some ==> {
                let (nx, ny) = step_target(x as int, y as int, dx as int, dy as int, self.width as int, self.height as int, self.wraps)->0;
                &&& 0 <= nx < self.width
                &&& 0 <= ny < self.height
                &&& r == if walk_passable(self.structures@, nx as usize, ny as usize, self.grid@[ny]@[nx]) {
                    MoveResult::Moved { new_x: nx as usize, new_y: ny as usize }
                } else {
                    MoveResult::Blocked
                }
            },
    {
        let s = &self.structures;
        let passable = |nx: usize, ny: usize, t: Terrain| -> (b: bool)
            ensures
                b == walk_passable(s@, nx, ny, t),
            {
                if ny < s.len() && nx < s[ny].len() {
                    s[ny][nx] != Structure::Nothing || t.is_walkable()
                } else {
                    t.is_walkable()
                }
            };
        try_grid_move(x, y, dx, dy, self.grid.as_slice(), self.width, self.height, self.wraps, passable)
    }

    /// One step with a passability rule of the caller's: blocked when
    /// diagonal or off a map that does not wrap; otherwise `passable`
    /// decides about the tile reached.
    pub fn try_move_with<F: Fn(usize, usize, Terrain) -> bool>(&self, x: usize, y: usize, dx: i32, dy: i32, passable: F) -> (r: MoveResult)
        requires
            self.shaped(),
            x < self.width,
            y < self.height,
            forall|a: usize, b: usize, t: Terrain| passable.requires((a, b, t)),
        ensures
            diagonal(dx as int, dy as int) ==> r == MoveResult::Blocked,
            !diagonal(dx as int, dy as int) && step_target(x as int, y as int, dx as int, dy as int, self.width as int, self.height as int, self.wraps) is None
                ==> r == MoveResult::Blocked,
            !diagonal(dx as int, dy as int) && step_target(x as int, y as int, dx as int, dy as int, self.width as int, self.height as int, self.wraps) is Some ==> {
                let (nx, ny) = step_target(x as int, y as int, dx as int, dy as int, self.width as int, self.height as int, self.wraps)->0;
                &&& 0 <= nx < self.width
                &&& 0 <= ny < self.height
                &&& (r == MoveResult::Moved { new_x: nx as usize, new_y: ny as usize }
                    && passable.ensures((nx as usize, ny as usize, self.grid@[ny]@[nx]), true))
                    || (r == MoveResult::Blocked
                    && passable.ensures((nx as usize, ny as usize, self.grid@[ny]@[nx]), false))
            },
    {
        try_grid_move(x, y, dx, dy, self.grid.as_slice(), self.width, self.height, self.wraps, passable)
    }
}

} // verus!
