use dungeon::level::{Level, Visibility};
use dungeon::map::TileType;
use dungeon::player::Key;
use dungeon::state::State;
use rltk::RandomNumberGenerator;

fn game_ticks_start(seed: u64) -> State {
    State::start(RandomNumberGenerator::seeded(seed)).expect("a game")
}

fn game_ticks_count(flags: &Vec<Vec<bool>>) -> usize {
    flags.iter().map(|row| row.iter().filter(|f| **f).count()).sum()
}

fn game_ticks_subset(small: &Vec<Vec<bool>>, large: &Vec<Vec<bool>>) -> bool {
    (0..50).all(|y| (0..80).all(|x| !small[y][x] || large[y][x]))
}

/// The keys that lead from where the player stands to `goal`.
fn game_ticks_way_to(state: &State, goal: (i32, i32)) -> Vec<Key> {
    let start = state.player.position;
    let steps = [(Key::Right, 1, 0), (Key::Left, -1, 0), (Key::Down, 0, 1), (Key::Up, 0, -1)];
    let mut came_by: Vec<Vec<Option<(Key, (i32, i32))>>> = vec![vec![None; 80]; 50];
    let mut seen = vec![vec![false; 80]; 50];
    let mut queue = std::collections::VecDeque::new();
    seen[start.1 as usize][start.0 as usize] = true;
    queue.push_back(start);
    while let Some((x, y)) = queue.pop_front() {
        for (key, dx, dy) in steps {
            let (nx, ny) = (x + dx, y + dy);
            if 0 <= nx && nx < 80 && 0 <= ny && ny < 50 {
                if state.level.map.is_walkable(nx, ny) && !seen[ny as usize][nx as usize] {
                    seen[ny as usize][nx as usize] = true;
                    came_by[ny as usize][nx as usize] = Some((key, (x, y)));
                    queue.push_back((nx, ny));
                }
            }
        }
    }
    assert!(seen[goal.1 as usize][goal.0 as usize]);
    let mut keys = Vec::new();
    let mut at = goal;
    while at != start {
        let (key, from) = came_by[at.1 as usize][at.0 as usize].expect("a step");
        keys.push(key);
        at = from;
    }
    keys.reverse();
    keys
}

/// A direction in which the tile next to the player is a wall.
fn game_ticks_key_into_a_wall(state: &State) -> Key {
    let (x, y) = state.player.position;
    for (key, dx, dy) in [(Key::Right, 1, 0), (Key::Left, -1, 0), (Key::Down, 0, 1), (Key::Up, 0, -1)] {
        if !state.level.map.is_walkable(x + dx, y + dy) {
            return key;
        }
    }
    panic!("no wall next to the player");
}

#[test]
fn a_game_starts_on_the_spawn_tile_with_nothing_seen() {
    for seed in 0..20u64 {
        let state = game_ticks_start(seed);
        assert_eq!(state.player.position, state.level.map.player_spawn);
        assert!(state.player.has_moved);
        assert!(!state.player.quit);
        assert!(!state.player.new_level);
        assert_eq!(game_ticks_count(&state.level.visible), 0);
        assert_eq!(game_ticks_count(&state.level.discovered), 0);
        assert_eq!(state.level.stair, state.level.map.stair);
    }
}

#[test]
fn a_game_with_a_seed_of_its_own_starts_the_same_way() {
    let state = State::new().expect("a game");
    assert_eq!(state.player.position, state.level.map.player_spawn);
    assert!(state.player.has_moved);
    assert_eq!(state.level.map.rooms.len(), 7);
    assert_eq!(game_ticks_count(&state.level.discovered), 0);
}

#[test]
fn the_first_tick_brings_the_spawn_tile_into_view() {
    for seed in 0..20u64 {
        let mut state = game_ticks_start(seed);
        let spawn = state.level.map.player_spawn;
        assert!(state.tick(None).is_ok());
        assert!(game_ticks_count(&state.level.visible) > 0);
        assert!(state.level.visible[spawn.1 as usize][spawn.0 as usize]);
        assert!(state.level.discovered[spawn.1 as usize][spawn.0 as usize]);
        assert_eq!(state.level.visibility_at(spawn.0, spawn.1), Visibility::Visible);
        assert_eq!(state.player.position, spawn);
        assert!(!state.player.has_moved);
        // the whole first room is in view
        let room = state.level.map.rooms[0];
        for y in room.y1..room.y2 {
            for x in room.x1..room.x2 {
                assert!(state.level.visible[y as usize][x as usize]);
            }
        }
    }
}

#[test]
fn two_ticks_without_a_key_leave_the_grids_as_they_are() {
    let mut state = game_ticks_start(4);
    assert!(state.tick(None).is_ok());
    let visible = state.level.visible.clone();
    let discovered = state.level.discovered.clone();
    let position = state.player.position;
    assert!(state.tick(None).is_ok());
    assert_eq!(state.level.visible, visible);
    assert_eq!(state.level.discovered, discovered);
    assert!(state.tick(Some(Key::Other)).is_ok());
    assert_eq!(state.level.visible, visible);
    assert_eq!(state.level.discovered, discovered);
    assert_eq!(state.player.position, position);
    assert!(!state.player.has_moved);
}

#[test]
fn a_move_into_a_wall_changes_neither_position_nor_view() {
    for seed in 0..10u64 {
        let mut state = game_ticks_start(seed);
        assert!(state.tick(None).is_ok());
        // walk to the corner of the first room, where two sides are wall
        let room = state.level.map.rooms[0];
        for key in game_ticks_way_to(&state, (room.x1, room.y1)) {
            assert!(state.tick(Some(key)).is_ok());
        }
        assert_eq!(state.player.position, (room.x1, room.y1));
        let visible = state.level.visible.clone();
        let discovered = state.level.discovered.clone();
        let key = game_ticks_key_into_a_wall(&state);
        assert!(state.tick(Some(key)).is_ok());
        assert!(state.tick(Some(key)).is_ok());
        assert_eq!(state.player.position, (room.x1, room.y1));
        assert!(!state.player.has_moved);
        assert_eq!(state.level.visible, visible);
        assert_eq!(state.level.discovered, discovered);
    }
}

#[test]
fn a_move_over_floor_moves_the_player_and_the_view() {
    let mut state = game_ticks_start(6);
    assert!(state.tick(None).is_ok());
    let room = state.level.map.rooms[0];
    let (x, y) = state.player.position;
    // the center of a room at least four wide has floor to its left
    assert!(room.x1 < x);
    assert!(state.tick(Some(Key::Left)).is_ok());
    assert_eq!(state.player.position, (x - 1, y));
    assert!(!state.player.has_moved);
    assert!(state.level.visible[y as usize][(x - 1) as usize]);
}

#[test]
fn discovered_tiles_only_grow_on_the_way_to_the_stair() {
    for seed in 0..5u64 {
        let mut state = game_ticks_start(seed);
        assert!(state.tick(None).is_ok());
        let grid = state.level.map.map.clone();
        let mut before = state.level.discovered.clone();
        let stair = state.level.stair;
        for key in game_ticks_way_to(&state, stair) {
            assert!(state.tick(Some(key)).is_ok());
            assert!(game_ticks_subset(&before, &state.level.discovered));
            assert!(game_ticks_subset(&state.level.visible, &state.level.discovered));
            let (x, y) = state.player.position;
            assert!(state.level.visible[y as usize][x as usize]);
            assert!(state.level.map.is_walkable(x, y));
            before = state.level.discovered.clone();
        }
        assert_eq!(state.player.position, stair);
        assert_eq!(state.level.map.map, grid);
    }
}

#[test]
fn descending_from_the_stair_starts_a_new_level() {
    for seed in 0..5u64 {
        let mut state = game_ticks_start(seed);
        assert!(state.tick(None).is_ok());
        let old_grid = state.level.map.map.clone();
        let stair = state.level.stair;
        for key in game_ticks_way_to(&state, stair) {
            assert!(state.tick(Some(key)).is_ok());
        }
        assert_eq!(state.player.position, stair);
        assert_eq!(state.level.map.tile(stair.0, stair.1), TileType::Stair);
        assert!(game_ticks_count(&state.level.discovered) > 0);

        assert!(state.tick(Some(Key::Q)).is_ok());

        assert_ne!(state.level.map.map, old_grid);
        assert_eq!(game_ticks_count(&state.level.discovered), 0);
        assert_eq!(game_ticks_count(&state.level.visible), 0);
        assert_eq!(state.player.position, state.level.map.player_spawn);
        assert_eq!(state.level.stair, state.level.map.stair);
        assert!(state.player.has_moved);
        assert!(!state.player.new_level);
        assert!(!state.player.quit);
        assert_eq!(state.level.map.rooms.len(), 7);

        // the next tick looks around on the new level
        let spawn = state.level.map.player_spawn;
        assert!(state.tick(None).is_ok());
        assert!(state.level.visible[spawn.1 as usize][spawn.0 as usize]);
        assert!(!state.player.has_moved);
    }
}

#[test]
fn q_away_from_the_stair_keeps_the_level() {
    let mut state = game_ticks_start(8);
    assert!(state.tick(None).is_ok());
    let grid = state.level.map.map.clone();
    let visible = state.level.visible.clone();
    let discovered = state.level.discovered.clone();
    let position = state.player.position;
    assert!(state.tick(Some(Key::Q)).is_ok());
    assert_eq!(state.level.map.map, grid);
    assert_eq!(state.level.visible, visible);
    assert_eq!(state.level.discovered, discovered);
    assert_eq!(state.player.position, position);
    assert!(!state.player.new_level);
}

#[test]
fn escape_sets_quit_and_keeps_the_level() {
    let mut state = game_ticks_start(8);
    assert!(state.tick(None).is_ok());
    let grid = state.level.map.map.clone();
    let discovered = state.level.discovered.clone();
    assert!(state.tick(Some(Key::Escape)).is_ok());
    assert!(state.player.quit);
    assert_eq!(state.level.map.map, grid);
    assert_eq!(state.level.discovered, discovered);
    // the request stays once made
    assert!(state.tick(None).is_ok());
    assert!(state.player.quit);
}

#[test]
fn a_game_as_started_is_sound() {
    let mut state = game_ticks_start(3);
    assert!(state.is_sound());
    assert!(state.level.is_shaped());
    assert!(state.tick(Some(Key::Left)).is_ok());
    assert!(state.is_sound());
}

#[test]
fn a_game_with_the_player_off_the_grid_is_not_sound() {
    let mut state = game_ticks_start(3);
    state.player.position = (80, 0);
    assert!(!state.is_sound());
    state.player.position = (0, -1);
    assert!(!state.is_sound());
    state.player.position = (79, 49);
    assert!(state.is_sound());
}

#[test]
fn a_game_with_a_grid_of_another_size_is_not_sound() {
    let mut state = game_ticks_start(3);
    state.level.visible.pop();
    assert!(!state.level.is_shaped());
    assert!(!state.is_sound());
    let mut other = game_ticks_start(3);
    other.level.discovered[7].push(false);
    assert!(!other.is_sound());
    let mut third = game_ticks_start(3);
    third.level.map.map[0].clear();
    assert!(!third.is_sound());
}

#[test]
fn a_game_begins_on_the_spawn_tile_of_the_level_it_is_given() {
    let mut random = RandomNumberGenerator::seeded(21);
    let level = Level::new(&mut random).expect("a level");
    let grid = level.map.map.clone();
    let spawn = level.map.player_spawn;
    let stair = level.stair;
    let mut next = random.clone();
    let state = State::begin(level, random);
    assert_eq!(state.level.map.map, grid);
    assert_eq!(state.level.stair, stair);
    assert_eq!(state.player.position, spawn);
    assert!(state.player.has_moved);
    assert!(!state.player.quit);
    assert!(!state.player.new_level);
    assert_eq!(game_ticks_count(&state.level.visible), 0);
    assert_eq!(game_ticks_count(&state.level.discovered), 0);
    // the random source is handed on as it was
    let mut kept = state.random;
    assert_eq!(kept.next_u64(), next.next_u64());
}

#[test]
fn starting_is_drawing_a_level_and_beginning_on_it() {
    let started = game_ticks_start(21);
    let mut random = RandomNumberGenerator::seeded(21);
    let level = Level::new(&mut random).expect("a level");
    let begun = State::begin(level, random);
    assert_eq!(started.level.map.map, begun.level.map.map);
    assert_eq!(started.player, begun.player);
    assert_eq!(started.level.stair, begun.level.stair);
}

#[test]
fn a_game_with_a_descent_left_over_is_not_sound() {
    let mut state = game_ticks_start(3);
    assert!(state.is_sound());
    state.player.new_level = true;
    assert!(!state.is_sound());
    state.player.new_level = false;
    assert!(state.is_sound());
}

#[test]
fn a_tick_leaves_no_descent_pending() {
    let mut state = game_ticks_start(5);
    assert!(state.tick(None).is_ok());
    let stair = state.level.stair;
    for key in game_ticks_way_to(&state, stair) {
        assert!(state.tick(Some(key)).is_ok());
        assert!(!state.player.new_level);
        assert!(state.is_sound());
    }
    assert!(state.tick(Some(Key::Q)).is_ok());
    assert!(!state.player.new_level);
    assert!(state.is_sound());
}
