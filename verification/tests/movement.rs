use rpg_core::terrain::{
    field_arrival, is_diagonal_movement, try_grid_move, walk_arrival, wrap_coordinate, ActiveMap, MoveResult, SceneChange, Structure,
    Terrain, TileAction,
};

const MAP_WIDTH: usize = 150;
const MAP_HEIGHT: usize = 150;

fn create_test_grid(fill: Terrain) -> Vec<Vec<Terrain>> {
    vec![vec![fill; MAP_WIDTH]; MAP_HEIGHT]
}

fn create_sized_grid(width: usize, height: usize, fill: Terrain) -> Vec<Vec<Terrain>> {
    vec![vec![fill; width]; height]
}

#[test]
fn try_grid_move_wraps_succeeds_on_plains() {
    let mut grid = create_test_grid(Terrain::Sea);
    grid[5][5] = Terrain::Plains;
    grid[5][6] = Terrain::Plains;
    let result = try_grid_move(5, 5, 1, 0, &grid, MAP_WIDTH, MAP_HEIGHT, true, |_x, _y, t| t.is_walkable());
    assert_eq!(result, MoveResult::Moved { new_x: 6, new_y: 5 });
}

#[test]
fn try_grid_move_wraps_succeeds_on_forest() {
    let mut grid = create_test_grid(Terrain::Sea);
    grid[5][5] = Terrain::Plains;
    grid[5][6] = Terrain::Forest;
    let result = try_grid_move(5, 5, 1, 0, &grid, MAP_WIDTH, MAP_HEIGHT, true, |_x, _y, t| t.is_walkable());
    assert_eq!(result, MoveResult::Moved { new_x: 6, new_y: 5 });
}

#[test]
fn try_grid_move_wraps_blocked_by_mountain() {
    let mut grid = create_test_grid(Terrain::Sea);
    grid[5][5] = Terrain::Plains;
    grid[5][6] = Terrain::Mountain;
    let result = try_grid_move(5, 5, 1, 0, &grid, MAP_WIDTH, MAP_HEIGHT, true, |_x, _y, t| t.is_walkable());
    assert_eq!(result, MoveResult::Blocked);
}

#[test]
fn try_grid_move_wraps_blocked_by_sea() {
    let mut grid = create_test_grid(Terrain::Sea);
    grid[5][5] = Terrain::Plains;
    let result = try_grid_move(5, 5, 1, 0, &grid, MAP_WIDTH, MAP_HEIGHT, true, |_x, _y, t| t.is_walkable());
    assert_eq!(result, MoveResult::Blocked);
}

#[test]
fn try_grid_move_wraps_around_right_edge() {
    let mut grid = create_test_grid(Terrain::Sea);
    grid[5][MAP_WIDTH - 1] = Terrain::Plains;
    grid[5][0] = Terrain::Plains;
    let result = try_grid_move(MAP_WIDTH - 1, 5, 1, 0, &grid, MAP_WIDTH, MAP_HEIGHT, true, |_x, _y, t| t.is_walkable());
    assert_eq!(result, MoveResult::Moved { new_x: 0, new_y: 5 });
}

#[test]
fn try_grid_move_wraps_around_left_edge() {
    let mut grid = create_test_grid(Terrain::Sea);
    grid[5][0] = Terrain::Plains;
    grid[5][MAP_WIDTH - 1] = Terrain::Plains;
    let result = try_grid_move(0, 5, -1, 0, &grid, MAP_WIDTH, MAP_HEIGHT, true, |_x, _y, t| t.is_walkable());
    assert_eq!(result, MoveResult::Moved { new_x: MAP_WIDTH - 1, new_y: 5 });
}

#[test]
fn try_grid_move_wraps_around_top_edge() {
    let mut grid = create_test_grid(Terrain::Sea);
    grid[MAP_HEIGHT - 1][5] = Terrain::Plains;
    grid[0][5] = Terrain::Plains;
    let result = try_grid_move(5, MAP_HEIGHT - 1, 0, 1, &grid, MAP_WIDTH, MAP_HEIGHT, true, |_x, _y, t| t.is_walkable());
    assert_eq!(result, MoveResult::Moved { new_x: 5, new_y: 0 });
}

#[test]
fn try_grid_move_wraps_around_bottom_edge() {
    let mut grid = create_test_grid(Terrain::Sea);
    grid[0][5] = Terrain::Plains;
    grid[MAP_HEIGHT - 1][5] = Terrain::Plains;
    let result = try_grid_move(5, 0, 0, -1, &grid, MAP_WIDTH, MAP_HEIGHT, true, |_x, _y, t| t.is_walkable());
    assert_eq!(result, MoveResult::Moved { new_x: 5, new_y: MAP_HEIGHT - 1 });
}

#[test]
fn try_grid_move_diagonal_is_blocked() {
    let mut grid = create_test_grid(Terrain::Sea);
    grid[5][5] = Terrain::Plains;
    grid[6][6] = Terrain::Plains;
    let result = try_grid_move(5, 5, 1, 1, &grid, MAP_WIDTH, MAP_HEIGHT, true, |_x, _y, t| t.is_walkable());
    assert_eq!(result, MoveResult::Blocked);
}

#[test]
fn try_grid_move_no_movement() {
    let mut grid = create_test_grid(Terrain::Sea);
    grid[5][5] = Terrain::Plains;
    let result = try_grid_move(5, 5, 0, 0, &grid, MAP_WIDTH, MAP_HEIGHT, true, |_x, _y, t| t.is_walkable());
    assert_eq!(result, MoveResult::Moved { new_x: 5, new_y: 5 });
}

#[test]
fn try_grid_move_nowrap_normal() {
    let mut grid = create_sized_grid(5, 5, Terrain::CaveWall);
    grid[2][2] = Terrain::CaveFloor;
    grid[2][3] = Terrain::CaveFloor;
    let result = try_grid_move(2, 2, 1, 0, &grid, 5, 5, false, |_x, _y, t| t.is_walkable());
    assert_eq!(result, MoveResult::Moved { new_x: 3, new_y: 2 });
}

#[test]
fn try_grid_move_nowrap_blocked_by_wall() {
    let mut grid = create_sized_grid(5, 5, Terrain::CaveWall);
    grid[2][2] = Terrain::CaveFloor;
    let result = try_grid_move(2, 2, 1, 0, &grid, 5, 5, false, |_x, _y, t| t.is_walkable());
    assert_eq!(result, MoveResult::Blocked);
}

#[test]
fn try_grid_move_nowrap_blocked_by_boundary() {
    let grid = create_sized_grid(5, 5, Terrain::CaveFloor);
    let result = try_grid_move(0, 0, -1, 0, &grid, 5, 5, false, |_x, _y, t| t.is_walkable());
    assert_eq!(result, MoveResult::Blocked);
}

#[test]
fn try_grid_move_nowrap_diagonal_blocked() {
    let grid = create_sized_grid(5, 5, Terrain::CaveFloor);
    let result = try_grid_move(2, 2, 1, 1, &grid, 5, 5, false, |_x, _y, t| t.is_walkable());
    assert_eq!(result, MoveResult::Blocked);
}

#[test]
fn try_grid_move_nowrap_to_ladder_tile() {
    let mut grid = create_sized_grid(5, 5, Terrain::CaveWall);
    grid[2][2] = Terrain::CaveFloor;
    grid[2][3] = Terrain::CaveFloor;
    let result = try_grid_move(2, 2, 1, 0, &grid, 5, 5, false, |_x, _y, t| t.is_walkable());
    assert_eq!(result, MoveResult::Moved { new_x: 3, new_y: 2 });
}

#[test]
fn try_grid_move_navigable_succeeds_on_sea() {
    let grid = create_test_grid(Terrain::Sea);
    let result = try_grid_move(5, 5, 1, 0, &grid, MAP_WIDTH, MAP_HEIGHT, true, |_x, _y, t| t.is_navigable());
    assert_eq!(result, MoveResult::Moved { new_x: 6, new_y: 5 });
}

#[test]
fn try_grid_move_navigable_blocked_by_land() {
    let mut grid = create_test_grid(Terrain::Sea);
    grid[5][6] = Terrain::Plains;
    let result = try_grid_move(5, 5, 1, 0, &grid, MAP_WIDTH, MAP_HEIGHT, true, |_x, _y, t| t.is_navigable());
    assert_eq!(result, MoveResult::Blocked);
}

#[test]
fn wrap_coordinate_steps_around_the_ring() {
    assert_eq!(wrap_coordinate(0, -1, 10), 9);
    assert_eq!(wrap_coordinate(9, 1, 10), 0);
    assert_eq!(wrap_coordinate(3, -13, 10), 0);
    assert_eq!(wrap_coordinate(3, -14, 10), 9);
    assert_eq!(wrap_coordinate(4, 25, 10), 9);
}

#[test]
fn diagonal_needs_both_coordinates() {
    assert!(is_diagonal_movement(1, -1));
    assert!(!is_diagonal_movement(0, -1));
    assert!(!is_diagonal_movement(0, 0));
}

#[test]
fn nowrap_step_off_the_far_edge_is_blocked() {
    let grid = create_sized_grid(5, 5, Terrain::CaveFloor);
    let result = try_grid_move(4, 4, 0, 1, &grid, 5, 5, false, |_x, _y, t| t.is_walkable());
    assert_eq!(result, MoveResult::Blocked);
}

#[test]
fn arriving_on_tiles_changes_scenes() {
    assert_eq!(field_arrival(TileAction::EnterTown, false), Some(SceneChange::Town));
    assert_eq!(field_arrival(TileAction::EnterHokora, false), Some(SceneChange::Hokora));
    assert_eq!(field_arrival(TileAction::EnterCave, true), None);
    assert_eq!(field_arrival(TileAction::ExitCave, false), None);
    assert_eq!(walk_arrival(TileAction::ExitCave), Some(SceneChange::Field));
    assert_eq!(walk_arrival(TileAction::EnterBossCave), Some(SceneChange::BossCave));
    assert_eq!(walk_arrival(TileAction::Nothing), None);
}

#[test]
fn active_map_walks_onto_buildings_and_walkable_ground() {
    let grid = vec![
        vec![Terrain::Sea, Terrain::Plains, Terrain::Mountain],
        vec![Terrain::Sea, Terrain::Plains, Terrain::Mountain],
    ];
    let structures = vec![
        vec![Structure::Town, Structure::Nothing, Structure::Nothing],
        vec![Structure::Nothing, Structure::Nothing, Structure::Nothing],
    ];
    let map = ActiveMap::from_grid(grid, structures);
    assert_eq!((map.width, map.height, map.wraps), (3, 2, true));
    assert_eq!(map.structure_at(0, 0), Structure::Town);
    assert_eq!(map.terrain_at(2, 1), Terrain::Mountain);
    // A town stands on the sea tile: it can be entered.
    assert_eq!(map.try_move(1, 0, -1, 0), MoveResult::Moved { new_x: 0, new_y: 0 });
    assert_eq!(map.try_move(1, 1, -1, 0), MoveResult::Blocked);
    assert_eq!(map.try_move(1, 1, 1, 0), MoveResult::Blocked);
    // The field wraps from the top row to the bottom one.
    assert_eq!(map.try_move(1, 0, 0, -1), MoveResult::Moved { new_x: 1, new_y: 1 });
    assert_eq!(map.try_move(1, 0, 1, 1), MoveResult::Blocked);
}

#[test]
fn active_map_moves_with_a_rule_of_the_callers() {
    let grid = vec![
        vec![Terrain::Sea, Terrain::Plains, Terrain::Mountain],
        vec![Terrain::Sea, Terrain::Plains, Terrain::Mountain],
    ];
    let structures = vec![vec![Structure::Nothing; 3], vec![Structure::Nothing; 3]];
    let map = ActiveMap::from_grid(grid, structures);
    let sail = |_x: usize, _y: usize, t: Terrain| t == Terrain::Sea;
    assert_eq!(map.try_move_with(1, 0, -1, 0, sail), MoveResult::Moved { new_x: 0, new_y: 0 });
    assert_eq!(map.try_move_with(1, 0, 1, 0, sail), MoveResult::Blocked);
    assert_eq!(map.try_move_with(0, 0, -1, 0, sail), MoveResult::Blocked);
    assert_eq!(map.try_move_with(0, 0, 1, 1, |_, _, _| true), MoveResult::Blocked);
}
