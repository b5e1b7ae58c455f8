use dungeon::grid::filled_grid;
use dungeon::map::{DungeonMap, TileGrid, TileType};
use dungeon::player::{decode, Intent, Key, Player};
use dungeon::rect::Rect;

fn player_input_level() -> DungeonMap {
    let mut grid: TileGrid = filled_grid(TileType::Wall);
    let mut rooms = Vec::new();
    let all = vec![
        Rect::new(2, 2, 5, 5),
        Rect::new(20, 3, 6, 4),
        Rect::new(40, 10, 7, 7),
        Rect::new(10, 20, 4, 4),
        Rect::new(60, 30, 5, 6),
        Rect::new(30, 40, 6, 5),
        Rect::new(70, 5, 4, 7),
    ];
    let bends = vec![false, true, false, true, false, true, false];
    for (i, room) in all.into_iter().enumerate() {
        DungeonMap::add_room(&mut grid, &mut rooms, room, bends[i]);
    }
    DungeonMap::finish(grid, rooms)
}

fn player_input_at(x: i32, y: i32) -> Player {
    Player { position: (x, y), has_moved: false, quit: false, new_level: false }
}

#[test]
fn numpad_keys_move_in_eight_directions() {
    assert_eq!(decode(Some(Key::Numpad8)), Intent::Move { dx: 0, dy: -1 });
    assert_eq!(decode(Some(Key::Numpad4)), Intent::Move { dx: -1, dy: 0 });
    assert_eq!(decode(Some(Key::Numpad6)), Intent::Move { dx: 1, dy: 0 });
    assert_eq!(decode(Some(Key::Numpad2)), Intent::Move { dx: 0, dy: 1 });
    assert_eq!(decode(Some(Key::Numpad7)), Intent::Move { dx: -1, dy: -1 });
    assert_eq!(decode(Some(Key::Numpad9)), Intent::Move { dx: 1, dy: -1 });
    assert_eq!(decode(Some(Key::Numpad1)), Intent::Move { dx: -1, dy: 1 });
    assert_eq!(decode(Some(Key::Numpad3)), Intent::Move { dx: 1, dy: 1 });
}

#[test]
fn cursor_keys_move_in_four_directions() {
    assert_eq!(decode(Some(Key::Up)), Intent::Move { dx: 0, dy: -1 });
    assert_eq!(decode(Some(Key::Down)), Intent::Move { dx: 0, dy: 1 });
    assert_eq!(decode(Some(Key::Left)), Intent::Move { dx: -1, dy: 0 });
    assert_eq!(decode(Some(Key::Right)), Intent::Move { dx: 1, dy: 0 });
}

#[test]
fn q_descends_and_escape_quits() {
    assert_eq!(decode(Some(Key::Q)), Intent::Descend);
    assert_eq!(decode(Some(Key::Escape)), Intent::Quit);
}

#[test]
fn no_key_and_other_keys_ask_for_nothing() {
    assert_eq!(decode(None), Intent::Wait);
    assert_eq!(decode(Some(Key::Other)), Intent::Wait);
}

#[test]
fn arriving_marks_the_player_as_moved() {
    let p = Player::arrive((4, 4));
    assert_eq!(p.position, (4, 4));
    assert!(p.has_moved);
    assert!(!p.quit);
    assert!(!p.new_level);
}

#[test]
fn a_step_onto_floor_moves_the_player() {
    let level = player_input_level();
    let mut p = player_input_at(4, 4);
    p.move_player(1, 0, &level);
    assert_eq!(p.position, (5, 4));
    assert!(p.has_moved);
    assert!(!p.quit);
    assert!(!p.new_level);
    p.move_player(-1, -1, &level);
    assert_eq!(p.position, (4, 3));
    p.move_player(0, 1, &level);
    assert_eq!(p.position, (4, 4));
}

#[test]
fn a_step_onto_a_wall_changes_nothing() {
    let level = player_input_level();
    // (2, 2) is the corner of the first room: walls to the left and above
    let mut p = player_input_at(2, 2);
    for (dx, dy) in [(-1, 0), (0, -1), (-1, -1), (1, -1), (-1, 1)] {
        p.move_player(dx, dy, &level);
        assert_eq!(p, player_input_at(2, 2));
    }
}

#[test]
fn a_step_onto_a_wall_keeps_the_flags_as_they_are() {
    let level = player_input_level();
    let mut p = Player { position: (2, 2), has_moved: true, quit: true, new_level: true };
    p.move_player(-1, 0, &level);
    assert_eq!(p, Player { position: (2, 2), has_moved: true, quit: true, new_level: true });
}

#[test]
fn a_step_off_the_grid_changes_nothing() {
    let level = player_input_level();
    for (x, y, dx, dy) in [
        (0, 0, -1, 0),
        (0, 0, 0, -1),
        (79, 49, 1, 0),
        (79, 49, 0, 1),
        (5, 5, i32::MAX, 0),
        (5, 5, 0, i32::MIN),
        (i32::MAX, i32::MAX, 1, 1),
        (i32::MIN, 0, -1, 0),
    ] {
        let mut p = player_input_at(x, y);
        p.move_player(dx, dy, &level);
        assert_eq!(p, player_input_at(x, y));
    }
}

#[test]
fn a_step_onto_the_stair_moves_the_player() {
    let level = player_input_level();
    let mut p = player_input_at(71, 8);
    p.move_player(1, 0, &level);
    assert_eq!(p.position, (72, 8));
    assert!(p.has_moved);
    assert!(!p.new_level);
}

#[test]
fn every_move_key_steps_by_its_direction() {
    let level = player_input_level();
    let keys = [
        (Key::Numpad8, (0, -1)),
        (Key::Numpad4, (-1, 0)),
        (Key::Numpad6, (1, 0)),
        (Key::Numpad2, (0, 1)),
        (Key::Numpad7, (-1, -1)),
        (Key::Numpad9, (1, -1)),
        (Key::Numpad1, (-1, 1)),
        (Key::Numpad3, (1, 1)),
        (Key::Up, (0, -1)),
        (Key::Down, (0, 1)),
        (Key::Left, (-1, 0)),
        (Key::Right, (1, 0)),
    ];
    for (key, (dx, dy)) in keys {
        let mut p = player_input_at(4, 4);
        p.handle_input(&level, Some(key));
        assert_eq!(p.position, (4 + dx, 4 + dy));
        assert!(p.has_moved);
        assert!(!p.quit);
        assert!(!p.new_level);
    }
}

#[test]
fn a_move_key_toward_a_wall_changes_nothing() {
    let level = player_input_level();
    let mut p = player_input_at(2, 2);
    p.handle_input(&level, Some(Key::Left));
    p.handle_input(&level, Some(Key::Up));
    p.handle_input(&level, Some(Key::Numpad7));
    assert_eq!(p, player_input_at(2, 2));
}

#[test]
fn q_on_the_stair_asks_for_a_new_level() {
    let level = player_input_level();
    let mut p = player_input_at(72, 8);
    p.handle_input(&level, Some(Key::Q));
    assert!(p.new_level);
    assert_eq!(p.position, (72, 8));
    assert!(!p.has_moved);
    assert!(!p.quit);
}

#[test]
fn q_off_the_stair_changes_nothing() {
    let level = player_input_level();
    for (x, y) in [(4, 4), (71, 8), (0, 0), (-1, -1), (80, 50), (i32::MAX, i32::MIN)] {
        let mut p = player_input_at(x, y);
        p.handle_input(&level, Some(Key::Q));
        assert_eq!(p, player_input_at(x, y));
    }
}

#[test]
fn escape_asks_to_quit() {
    let level = player_input_level();
    let mut p = player_input_at(4, 4);
    p.handle_input(&level, Some(Key::Escape));
    assert!(p.quit);
    assert_eq!(p.position, (4, 4));
    assert!(!p.has_moved);
    assert!(!p.new_level);
}

#[test]
fn no_key_changes_nothing() {
    let level = player_input_level();
    let mut p = player_input_at(4, 4);
    p.handle_input(&level, None);
    p.handle_input(&level, Some(Key::Other));
    assert_eq!(p, player_input_at(4, 4));
}

#[test]
fn act_carries_out_a_step_of_any_length() {
    let level = player_input_level();
    let mut p = player_input_at(4, 4);
    p.act(Intent::Move { dx: 19, dy: 1 }, &level);
    assert_eq!(p.position, (23, 5));
    assert!(p.has_moved);
    // (24, 9) is rock beside the corridor that runs down column 23
    let mut q = player_input_at(4, 4);
    q.act(Intent::Move { dx: 20, dy: 5 }, &level);
    assert_eq!(q, player_input_at(4, 4));
    q.act(Intent::Wait, &level);
    assert_eq!(q, player_input_at(4, 4));
}
