use platformer_game::fixed::Vec2;
use platformer_game::world::{
    row_plates, spawn_wall_collision, wall_rects, GridCoords, LevelWalls, Plate, Rect, WallCollider,
    WallTiles,
};

fn tiles_of(cells: &[(i32, i32)]) -> WallTiles {
    let mut tiles = WallTiles::new();
    for &(x, y) in cells {
        tiles.insert(GridCoords { x, y });
    }
    tiles
}

#[test]
fn solid_block_merges_into_one_rectangle() {
    let tiles = tiles_of(&[(0, 0), (1, 0), (2, 0), (0, 1), (1, 1), (2, 1)]);
    let rects = wall_rects(&tiles, 3, 2);
    assert_eq!(rects, vec![Rect { left: 0, right: 2, top: 1, bottom: 0 }]);
}

#[test]
fn tile_set_contains_what_was_inserted() {
    let tiles = tiles_of(&[(3, 4), (-1, 7)]);
    assert!(tiles.contains(GridCoords { x: 3, y: 4 }));
    assert!(tiles.contains(GridCoords { x: -1, y: 7 }));
    assert!(!tiles.contains(GridCoords { x: 4, y: 3 }));
    assert!(!WallTiles::new().contains(GridCoords { x: 0, y: 0 }));
}

#[test]
fn row_is_split_into_plates() {
    let tiles = tiles_of(&[(0, 0), (1, 0), (3, 0), (5, 0), (6, 0), (7, 0)]);
    let plates = row_plates(&tiles, 8, 1, 0);
    assert_eq!(
        plates,
        vec![
            Plate { left: 0, right: 1 },
            Plate { left: 3, right: 3 },
            Plate { left: 5, right: 7 },
        ]
    );
}

#[test]
fn row_outside_the_level_has_no_plates() {
    let tiles = tiles_of(&[(0, 0), (0, 5)]);
    assert_eq!(row_plates(&tiles, 4, 2, 5), vec![]);
    assert_eq!(row_plates(&tiles, 4, 2, -1), vec![]);
    assert_eq!(row_plates(&tiles, 0, 2, 0), vec![]);
}

#[test]
fn tiles_outside_the_level_are_ignored() {
    let tiles = tiles_of(&[(0, 0), (1, 0), (2, 0), (-1, 0), (0, 1)]);
    let rects = wall_rects(&tiles, 2, 1);
    assert_eq!(rects, vec![Rect { left: 0, right: 1, top: 0, bottom: 0 }]);
}

#[test]
fn differing_plates_do_not_merge() {
    // Row 0: cells 0..=2; row 1: cells 0..=1; row 2: cells 0..=1.
    let tiles = tiles_of(&[(0, 0), (1, 0), (2, 0), (0, 1), (1, 1), (0, 2), (1, 2)]);
    let rects = wall_rects(&tiles, 3, 3);
    assert_eq!(
        rects,
        vec![
            Rect { left: 0, right: 2, top: 0, bottom: 0 },
            Rect { left: 0, right: 1, top: 2, bottom: 1 },
        ]
    );
}

#[test]
fn plate_that_returns_starts_a_new_rectangle() {
    let tiles = tiles_of(&[(1, 0), (1, 2)]);
    let rects = wall_rects(&tiles, 3, 3);
    assert_eq!(
        rects,
        vec![
            Rect { left: 1, right: 1, top: 0, bottom: 0 },
            Rect { left: 1, right: 1, top: 2, bottom: 2 },
        ]
    );
}

#[test]
fn rectangles_come_by_top_row_then_left_edge() {
    // Two columns of different height and a late single cell.
    let tiles = tiles_of(&[(0, 0), (0, 1), (0, 2), (2, 0), (2, 1), (4, 1)]);
    let rects = wall_rects(&tiles, 5, 3);
    assert_eq!(
        rects,
        vec![
            Rect { left: 2, right: 2, top: 1, bottom: 0 },
            Rect { left: 4, right: 4, top: 1, bottom: 1 },
            Rect { left: 0, right: 0, top: 2, bottom: 0 },
        ]
    );
}

#[test]
fn every_wall_cell_lies_in_exactly_one_rectangle() {
    let cells = [
        (0, 0), (1, 0), (2, 0), (4, 0),
        (0, 1), (1, 1), (4, 1), (5, 1),
        (1, 2), (2, 2), (3, 2), (4, 2),
        (0, 3), (5, 3),
    ];
    let tiles = tiles_of(&cells);
    let rects = wall_rects(&tiles, 6, 4);
    for y in 0..4 {
        for x in 0..6 {
            let holding = rects
                .iter()
                .filter(|r| r.left <= x && x <= r.right && r.bottom <= y && y <= r.top)
                .count();
            let wall = cells.contains(&(x, y));
            assert_eq!(holding, if wall { 1 } else { 0 });
        }
    }
}

#[test]
fn merging_twice_gives_the_same_rectangles() {
    let tiles = tiles_of(&[(0, 0), (1, 0), (1, 1), (2, 1), (2, 2)]);
    assert_eq!(wall_rects(&tiles, 3, 3), wall_rects(&tiles, 3, 3));
}

#[test]
fn empty_level_has_no_rectangles() {
    let tiles = WallTiles::new();
    assert_eq!(wall_rects(&tiles, 4, 4), vec![]);
    let walls = tiles_of(&[(0, 0)]);
    assert_eq!(wall_rects(&walls, 4, 0), vec![]);
    assert_eq!(wall_rects(&walls, 4, -3), vec![]);
}

#[test]
fn colliders_take_half_extents_and_centre_from_the_rectangle() {
    let level = LevelWalls {
        tiles: tiles_of(&[(0, 0), (1, 0), (2, 0), (0, 1), (1, 1), (2, 1)]),
        width: 3,
        height: 2,
        grid_size: 16,
    };
    let mut colliders = Vec::new();
    spawn_wall_collision(Some(&level), &mut colliders);
    assert_eq!(
        colliders,
        vec![WallCollider {
            half_extents: Vec2 { x: 24_000, y: 16_000 },
            center: Vec2 { x: 24_000, y: 16_000 },
        }]
    );
}

#[test]
fn colliders_are_replaced_not_added_to() {
    let level = LevelWalls {
        tiles: tiles_of(&[(2, 1)]),
        width: 4,
        height: 4,
        grid_size: 8,
    };
    let mut colliders = Vec::new();
    spawn_wall_collision(Some(&level), &mut colliders);
    spawn_wall_collision(Some(&level), &mut colliders);
    assert_eq!(
        colliders,
        vec![WallCollider {
            half_extents: Vec2 { x: 4_000, y: 4_000 },
            center: Vec2 { x: 20_000, y: 12_000 },
        }]
    );
}

#[test]
fn level_that_is_not_loaded_leaves_the_colliders() {
    let kept = WallCollider {
        half_extents: Vec2 { x: 1, y: 2 },
        center: Vec2 { x: 3, y: 4 },
    };
    let mut colliders = vec![kept];
    spawn_wall_collision(None, &mut colliders);
    assert_eq!(colliders, vec![kept]);
}
