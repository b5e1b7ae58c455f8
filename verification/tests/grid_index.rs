use dungeon::util::{idx_xy, is_in_bounds, xy_idx, Coord};
use dungeon::{MAP_HEIGHT, MAP_WIDTH};

#[test]
fn grid_is_eighty_by_fifty() {
    assert_eq!(MAP_WIDTH, 80);
    assert_eq!(MAP_HEIGHT, 50);
}

#[test]
fn xy_idx_is_row_major() {
    assert_eq!(xy_idx(0, 0), 0);
    assert_eq!(xy_idx(79, 0), 79);
    assert_eq!(xy_idx(0, 1), 80);
    assert_eq!(xy_idx(5, 3), 245);
    assert_eq!(xy_idx(79, 49), 3999);
}

#[test]
fn idx_xy_is_row_major() {
    assert_eq!(idx_xy(0), (0, 0));
    assert_eq!(idx_xy(79), (79, 0));
    assert_eq!(idx_xy(80), (0, 1));
    assert_eq!(idx_xy(245), (5, 3));
    assert_eq!(idx_xy(3999), (79, 49));
}

#[test]
fn every_tile_leads_to_its_index_and_back() {
    for y in 0..MAP_HEIGHT {
        for x in 0..MAP_WIDTH {
            let idx = xy_idx(x, y);
            assert!(idx < 4000);
            assert_eq!(idx_xy(idx), (x, y));
        }
    }
}

#[test]
fn every_index_leads_to_its_tile_and_back() {
    for idx in 0..4000usize {
        let (x, y) = idx_xy(idx);
        assert!(is_in_bounds(x, y));
        assert_eq!(xy_idx(x, y), idx);
    }
}

#[test]
fn no_two_tiles_share_an_index() {
    let mut taken = vec![false; 4000];
    for y in 0..MAP_HEIGHT {
        for x in 0..MAP_WIDTH {
            let idx = xy_idx(x, y);
            assert!(!taken[idx]);
            taken[idx] = true;
        }
    }
    assert!(taken.iter().all(|t| *t));
}

#[test]
fn bounds_end_at_the_last_column_and_row() {
    assert!(is_in_bounds(0, 0));
    assert!(is_in_bounds(79, 49));
    assert!(!is_in_bounds(80, 49));
    assert!(!is_in_bounds(79, 50));
    assert!(!is_in_bounds(-1, 0));
    assert!(!is_in_bounds(0, -1));
    assert!(!is_in_bounds(i32::MIN, i32::MAX));
}

#[test]
fn coord_new_keeps_both_fields() {
    let p = Coord::new(7, -3);
    assert_eq!(p.x, 7);
    assert_eq!(p.y, -3);
    assert_eq!(p, Coord { x: 7, y: -3 });
    assert_ne!(p, Coord { x: -3, y: 7 });
}
