//! The world of levels: the wall tiles of a level and their merging into
//! collision rectangles, and the change from one level to the next.
//!
//! A level marks single grid cells as wall. One collider per cell would be
//! wasteful, so the cells of each row are first joined into plates, the
//! unbroken runs of wall in that row, and a plate that repeats in the rows
//! above is then grown into one rectangle.

use crate::fixed::{held, Vec2};
use std::collections::HashSet;
use vstd::prelude::*;

verus! {

broadcast use vstd::std_specs::hash::group_hash_axioms;

/// A name by which an entity can be told from others.
#[derive(Clone, Debug, PartialEq, Eq)]
pub struct Labeled {
    pub name: String,
}

/// Asks for the level to be started again.
#[derive(Clone, Copy, Debug, PartialEq, Eq)]
pub struct ReloadWorldEvent {
}

/// Asks for another level, or for the end of the game.
#[derive(Clone, Copy, Debug, PartialEq, Eq)]
pub struct ChangeLevelEvent {
    pub index: usize,
    pub completed: bool,
    pub win_game: bool,
}

/// A cell of the level grid.
#[derive(Clone, Copy, Debug, PartialEq, Eq, Structural)]
pub struct GridCoords {
    pub x: i32,
    pub y: i32,
}

/// A run of wall in one row, from cell `left` to cell `right`.
#[derive(Clone, Copy, Debug, PartialEq, Eq, Structural)]
pub struct Plate {
    pub left: i32,
    pub right: i32,
}

/// A block of wall cells, all four bounds included.
#[derive(Clone, Copy, Debug, PartialEq, Eq, Structural)]
pub struct Rect {
    pub left: i32,
    pub right: i32,
    pub top: i32,
    pub bottom: i32,
}

/// The number under which a cell is kept in the set.
pub closed spec fn cell_key(x: int, y: int) -> int {
    (x + 0x8000_0000) * 0x1_0000_0000 + (y + 0x8000_0000)
}

/// The sparse set of the cells that are wall.
pub struct WallTiles {
    cells: HashSet<u64>,
}

impl View for WallTiles {
    type V = Set<(int, int)>;

    closed spec fn view(&self) -> Set<(int, int)> {
        Set::new(
            |c: (int, int)|
                i32::MIN <= c.0 <= i32::MAX && i32::MIN <= c.1 <= i32::MAX && self.cells@.contains(
                    cell_key(c.0, c.1) as u64,
                ),
        )
    }
}

fn key_of(coords: GridCoords) -> (k: u64)
    ensures
        k == cell_key(coords.x as int, coords.y as int),
{
    let col: u64 = (coords.x as i64 + 0x8000_0000) as u64;
    let row: u64 = (coords.y as i64 + 0x8000_0000) as u64;
    col * 0x1_0000_0000 + row
}

impl WallTiles {
    pub fn new() -> (tiles: WallTiles)
        ensures
            tiles@ == Set::<(int, int)>::empty(),
    {
        let tiles = WallTiles { cells: HashSet::new() };
        assert(tiles@ =~= Set::<(int, int)>::empty());
        tiles
    }

    pub fn insert(&mut self, coords: GridCoords)
        ensures
            final(self)@ == old(self)@.insert((coords.x as int, coords.y as int)),
    {
        let k = key_of(coords);
        self.cells.insert(k);
        assert(self@ =~= old(self)@.insert((coords.x as int, coords.y as int)));
    }

    pub fn contains(&self, coords: GridCoords) -> (found: bool)
        ensures
            found == self@.contains((coords.x as int, coords.y as int)),
    {
        let k = key_of(coords);
        self.cells.contains(&k)
    }
}

/// The wall cells that lie inside a level of `width` by `height` cells.
pub open spec fn level_cells(walls: Set<(int, int)>, width: int, height: int) -> Set<(int, int)> {
    Set::new(|c: (int, int)| 0 <= c.0 < width && 0 <= c.1 < height && walls.contains(c))
}

/// Cells `left` to `right` of row `y` are a run of wall that ends on both
/// sides.
pub open spec fn is_plate(cells: Set<(int, int)>, y: int, left: int, right: int) -> bool {
    &&& left <= right
    &&& forall|x: int| left <= x <= right ==> cells.contains((x, y))
    &&& !cells.contains((left - 1, y))
    &&& !cells.contains((right + 1, y))
}

pub open spec fn holds_plate(plates: Seq<Plate>, left: int, right: int) -> bool {
    exists|i: int| 0 <= i < plates.len() && (#[trigger] plates[i]).left == left && plates[i].right == right
}

/// `plates` lists the plates of row `y`, each once, from left to right.
pub open spec fn is_row_of(cells: Set<(int, int)>, y: int, plates: Seq<Plate>) -> bool {
    &&& forall|i: int|
        0 <= i < plates.len() ==> is_plate(
            cells,
            y,
            (#[trigger] plates[i]).left as int,
            plates[i].right as int,
        )
    &&& forall|left: int, right: int| #[trigger]
        is_plate(cells, y, left, right) ==> holds_plate(plates, left, right)
    &&& forall|i: int, j: int|
        0 <= i < j < plates.len() ==> (#[trigger] plates[i]).right < (#[trigger] plates[j]).left
}

/// Listing a run of wall after the plates that end before it. Where
/// `before` lists the plates of row `y` that end before cell `added.right`,
/// each once and from left to right, and the cells from `added.left` to
/// `added.right` are a run of wall that ends on both sides, `before` with
/// `added` at its end lists the plates that end at or before `added.right`.
proof fn lemma_run_listed(cells: Set<(int, int)>, y: int, before: Seq<Plate>, added: Plate)
    requires
        added.left <= added.right,
        forall|c: int| added.left <= c <= added.right ==> cells.contains((c, y)),
        !cells.contains((added.left - 1, y)),
        !cells.contains((added.right + 1, y)),
        forall|i: int|
            0 <= i < before.len() ==> is_plate(
                cells,
                y,
                (#[trigger] before[i]).left as int,
                before[i].right as int,
            ),
        forall|left: int, right: int|
            right < added.right && #[trigger] is_plate(cells, y, left, right) ==> holds_plate(
                before,
                left,
                right,
            ),
        forall|i: int, j: int|
            0 <= i < j < before.len() ==> (#[trigger] before[i]).right < (#[trigger] before[j]).left,
        forall|i: int| 0 <= i < before.len() ==> (#[trigger] before[i]).right < added.left,
    ensures
        forall|i: int|
            0 <= i < before.push(added).len() ==> is_plate(
                cells,
                y,
                (#[trigger] before.push(added)[i]).left as int,
                before.push(added)[i].right as int,
            ),
        forall|left: int, right: int|
            right <= added.right && #[trigger] is_plate(cells, y, left, right) ==> holds_plate(
                before.push(added),
                left,
                right,
            ),
        forall|i: int, j: int|
            0 <= i < j < before.push(added).len() ==> (#[trigger] before.push(added)[i]).right < (
            #[trigger] before.push(added)[j]).left,
        forall|i: int|
            0 <= i < before.push(added).len() ==> (#[trigger] before.push(added)[i]).right
                <= added.right,
{
    let after = before.push(added);
    let last = before.len() as int;
    assert(after[last] == added);
    assert forall|left: int, right: int|
        right <= added.right && #[trigger] is_plate(cells, y, left, right) implies holds_plate(
        after,
        left,
        right,
    ) by {
        if right < added.right {
            let i = choose|i: int|
                0 <= i < before.len() && (#[trigger] before[i]).left == left && before[i].right
                    == right;
            assert(after[i] == before[i]);
        } else {
            assert(cells.contains((right, y)));
            if left < added.left {
                assert(cells.contains((added.left - 1, y)));
            }
            if left > added.left {
                assert(cells.contains((left - 1, y)));
            }
            assert(after[last].left == left && after[last].right == right);
        }
    }
    assert forall|i: int| 0 <= i < after.len() implies is_plate(
        cells,
        y,
        (#[trigger] after[i]).left as int,
        after[i].right as int,
    ) by {
        if i < last {
            assert(after[i] == before[i]);
        }
    }
    assert forall|i: int, j: int| 0 <= i < j < after.len() implies (#[trigger] after[i]).right < (
    #[trigger] after[j]).left by {
        assert(after[i] == before[i]);
        if j < last {
            assert(after[j] == before[j]);
        }
    }
    assert forall|i: int| 0 <= i < after.len() implies (#[trigger] after[i]).right
        <= added.right by {
        if i < last {
            assert(after[i] == before[i]);
        }
    }
}

/// The plates of row `y` of the level, from left to right.
pub fn row_plates(walls: &WallTiles, width: i32, height: i32, y: i32) -> (plates: Vec<Plate>)
    ensures
        is_row_of(level_cells(walls@, width as int, height as int), y as int, plates@),
{
    let ghost cells = level_cells(walls@, width as int, height as int);
    let mut plates: Vec<Plate> = Vec::new();
    proof {
        assert forall|left: int, right: int| #[trigger]
            is_plate(cells, y as int, left, right) implies 0 <= right < width && 0 <= y < height by {
            assert(cells.contains((right, y as int)));
        }
    }
    if y < 0 || y >= height || width <= 0 {
        return plates;
    }
    let mut start: Option<i32> = None;
    let mut x: i32 = 0;
    while x < width
        invariant
            0 <= x <= width,
            0 <= y < height,
            cells == level_cells(walls@, width as int, height as int),
            forall|i: int|
                0 <= i < plates.len() ==> is_plate(
                    cells,
                    y as int,
                    (#[trigger] plates[i]).left as int,
                    plates[i].right as int,
                ),
            forall|left: int, right: int|
                right + 1 < x && #[trigger] is_plate(cells, y as int, left, right) ==> holds_plate(
                    plates@,
                    left,
                    right,
                ),
            forall|i: int, j: int|
                0 <= i < j < plates.len() ==> (#[trigger] plates[i]).right < (
                #[trigger] plates[j]).left,
            match start {
                Some(s) => {
                    &&& 0 <= s < x
                    &&& forall|c: int| s <= c < x ==> cells.contains((c, y as int))
                    &&& !cells.contains((s - 1, y as int))
                    &&& forall|i: int| 0 <= i < plates.len() ==> (#[trigger] plates[i]).right < s
                },
                None => {
                    &&& !cells.contains((x - 1, y as int))
                    &&& forall|i: int| 0 <= i < plates.len() ==> (#[trigger] plates[i]).right < x
                },
            },
        decreases width - x,
    {
        let wall = walls.contains(GridCoords { x, y });
        assert(wall == cells.contains((x as int, y as int)));
        match start {
            Some(s) => {
                if !wall {
                    let ghost before = plates@;
                    plates.push(Plate { left: s, right: x - 1 });
                    start = None;
                    proof {
                        lemma_run_listed(
                            cells,
                            y as int,
                            before,
                            Plate { left: s, right: (x - 1) as i32 },
                        );
                    }
                } else {
                    proof {
                        assert forall|left: int, right: int|
                            right + 1 < x + 1 && #[trigger] is_plate(
                                cells,
                                y as int,
                                left,
                                right,
                            ) implies holds_plate(plates@, left, right) by {
                            if right + 1 == x {
                                assert(cells.contains((right + 1, y as int)));
                            }
                        }
                    }
                }
            },
            None => {
                if wall {
                    start = Some(x);
                }
                proof {
                    assert forall|left: int, right: int|
                        right + 1 < x + 1 && #[trigger] is_plate(
                            cells,
                            y as int,
                            left,
                            right,
                        ) implies holds_plate(plates@, left, right) by {
                        if right + 1 == x {
                            assert(cells.contains((right, y as int)));
                        }
                    }
                }
            },
        }
        x = x + 1;
    }
    match start {
        Some(s) => {
            let ghost before = plates@;
            plates.push(Plate { left: s, right: width - 1 });
            proof {
                lemma_run_listed(
                    cells,
                    y as int,
                    before,
                    Plate { left: s, right: (width - 1) as i32 },
                );
            }
        },
        None => {
            proof {
                assert forall|left: int, right: int| #[trigger]
                    is_plate(cells, y as int, left, right) implies holds_plate(
                    plates@,
                    left,
                    right,
                ) by {
                    assert(cells.contains((right, y as int)));
                }
            }
        },
    }
    plates
}

/// Plate `left` to `right` repeats in every row from `bottom` to `top`, and
/// in neither the row below nor the row above.
pub open spec fn is_merged(
    cells: Set<(int, int)>,
    left: int,
    right: int,
    bottom: int,
    top: int,
) -> bool {
    &&& bottom <= top
    &&& forall|y: int| bottom <= y <= top ==> is_plate(cells, y, left, right)
    &&& !is_plate(cells, bottom - 1, left, right)
    &&& !is_plate(cells, top + 1, left, right)
}

pub open spec fn holds_rect(rects: Seq<Rect>, left: int, right: int, bottom: int, top: int) -> bool {
    exists|i: int|
        0 <= i < rects.len() && (#[trigger] rects[i]).left == left && rects[i].right == right
            && rects[i].bottom == bottom && rects[i].top == top
}

/// The order in which rectangles are listed: by top row, then by left edge.
pub open spec fn comes_before(a: Rect, b: Rect) -> bool {
    a.top < b.top || (a.top == b.top && a.left < b.left)
}

/// `rects` lists the merged rectangles of `cells`, each once, in order.
pub open spec fn is_merge_of(cells: Set<(int, int)>, rects: Seq<Rect>) -> bool {
    &&& forall|i: int|
        0 <= i < rects.len() ==> is_merged(
            cells,
            (#[trigger] rects[i]).left as int,
            rects[i].right as int,
            rects[i].bottom as int,
            rects[i].top as int,
        )
    &&& forall|left: int, right: int, bottom: int, top: int| #[trigger]
        is_merged(cells, left, right, bottom, top) ==> holds_rect(rects, left, right, bottom, top)
    &&& forall|i: int, j: int|
        0 <= i < j < rects.len() ==> comes_before(#[trigger] rects[i], #[trigger] rects[j])
}

/// `rect` is the rectangle grown so far from `plate`, with `top` the last row
/// taken in.
spec fn is_open(cells: Set<(int, int)>, rect: Rect, plate: Plate, top: int) -> bool {
    &&& rect.left == plate.left
    &&& rect.right == plate.right
    &&& rect.top == top
    &&& rect.bottom <= top
    &&& forall|y: int| rect.bottom <= y <= top ==> is_plate(cells, y, rect.left as int, rect.right as int)
    &&& !is_plate(cells, rect.bottom - 1, rect.left as int, rect.right as int)
}

proof fn lemma_holds_rect_push(rects: Seq<Rect>, added: Rect, left: int, right: int, bottom: int, top: int)
    requires
        holds_rect(rects, left, right, bottom, top),
    ensures
        holds_rect(rects.push(added), left, right, bottom, top),
{
    let i = choose|i: int|
        0 <= i < rects.len() && (#[trigger] rects[i]).left == left && rects[i].right == right
            && rects[i].bottom == bottom && rects[i].top == top;
    assert(rects.push(added)[i] == rects[i]);
}

fn find_plate(plates: &Vec<Plate>, left: i32, right: i32) -> (found: Option<usize>)
    ensures
        match found {
            Some(k) => k < plates.len() && plates[k as int].left == left && plates[k as int].right
                == right,
            None => !holds_plate(plates@, left as int, right as int),
        },
{
    let mut k: usize = 0;
    while k < plates.len()
        invariant
            k <= plates.len(),
            forall|i: int|
                0 <= i < k ==> !((#[trigger] plates[i]).left == left && plates[i].right == right),
        decreases plates.len() - k,
    {
        if plates[k].left == left && plates[k].right == right {
            return Some(k);
        }
        k = k + 1;
    }
    None
}

/// The merged rectangles of the level: each plate grown upward through the
/// rows in which it repeats, listed by top row and then by left edge.
pub fn wall_rects(walls: &WallTiles, width: i32, height: i32) -> (rects: Vec<Rect>)
    ensures
        is_merge_of(level_cells(walls@, width as int, height as int), rects@),
        rects@ == merged_rects(level_cells(walls@, width as int, height as int)),
{
    let ghost cells = level_cells(walls@, width as int, height as int);
    let mut done: Vec<Rect> = Vec::new();
    let mut open: Vec<Rect> = Vec::new();
    let mut prev: Vec<Plate> = Vec::new();
    proof {
        assert forall|y: int, left: int, right: int| #[trigger]
            is_plate(cells, y, left, right) implies 0 <= y < height by {
            assert(cells.contains((right, y)));
        }
        assert forall|left: int, right: int, bottom: int, top: int| #[trigger]
            is_merged(cells, left, right, bottom, top) implies 0 <= top < height by {
            assert(is_plate(cells, top, left, right));
        }
    }
    let mut y: i64 = 0;
    while y <= height as i64
        invariant
            0 <= y,
            y <= height + 1 || height < 0,
            cells == level_cells(walls@, width as int, height as int),
            forall|row: int, left: int, right: int| #[trigger]
                is_plate(cells, row, left, right) ==> 0 <= row < height,
            forall|left: int, right: int, bottom: int, top: int| #[trigger]
                is_merged(cells, left, right, bottom, top) ==> 0 <= top < height,
            is_row_of(cells, y - 1, prev@),
            open.len() == prev.len(),
            forall|i: int|
                0 <= i < open.len() ==> is_open(cells, #[trigger] open[i], prev[i], y - 1),
            forall|i: int|
                0 <= i < done.len() ==> (#[trigger] done[i]).top < y - 1 && is_merged(
                    cells,
                    done[i].left as int,
                    done[i].right as int,
                    done[i].bottom as int,
                    done[i].top as int,
                ),
            forall|left: int, right: int, bottom: int, top: int|
                top < y - 1 && #[trigger] is_merged(cells, left, right, bottom, top) ==> holds_rect(
                    done@,
                    left,
                    right,
                    bottom,
                    top,
                ),
            forall|i: int, j: int|
                0 <= i < j < done.len() ==> comes_before(#[trigger] done[i], #[trigger] done[j]),
        decreases height + 1 - y,
    {
        let row: i32 = y as i32;
        let cur = row_plates(walls, width, height, row);
        let mut i: usize = 0;
        while i < open.len()
            invariant
                i <= open.len(),
                0 <= y <= height,
                is_row_of(cells, y - 1, prev@),
                is_row_of(cells, y as int, cur@),
                open.len() == prev.len(),
                forall|k: int|
                    0 <= k < open.len() ==> is_open(cells, #[trigger] open[k], prev[k], y - 1),
                forall|k: int|
                    0 <= k < done.len() ==> (#[trigger] done[k]).top <= y - 1 && (done[k].top == y
                        - 1 ==> i > 0 && done[k].left <= open[i - 1].left) && is_merged(
                        cells,
                        done[k].left as int,
                        done[k].right as int,
                        done[k].bottom as int,
                        done[k].top as int,
                    ),
                forall|left: int, right: int, bottom: int, top: int|
                    top < y - 1 && #[trigger] is_merged(cells, left, right, bottom, top)
                        ==> holds_rect(done@, left, right, bottom, top),
                forall|k: int|
                    0 <= k < i && !holds_plate(
                        cur@,
                        (#[trigger] open[k]).left as int,
                        open[k].right as int,
                    ) ==> holds_rect(
                        done@,
                        open[k].left as int,
                        open[k].right as int,
                        open[k].bottom as int,
                        open[k].top as int,
                    ),
                forall|a: int, b: int|
                    0 <= a < b < done.len() ==> comes_before(#[trigger] done[a], #[trigger] done[b]),
            decreases open.len() - i,
        {
            let rect = open[i];
            let ghost before = done@;
            let ghost at = i as int;
            assert(is_open(cells, open[at], prev[at], y - 1));
            proof {
                if at > 0 {
                    assert(is_open(cells, open[at - 1], prev[at - 1], y - 1));
                    assert(prev[at - 1].right < prev[at].left);
                    assert(is_plate(cells, y - 1, prev[at - 1].left as int, prev[at - 1].right as int));
                }
            }
            match find_plate(&cur, rect.left, rect.right) {
                None => {
                    done.push(rect);
                    proof {
                        let last = before.len() as int;
                        assert(done@[last] == rect);
                        assert forall|k: int| 0 <= k < done.len() implies (#[trigger] done[k]).top
                            <= y - 1 && (done[k].top == y - 1 ==> done[k].left <= open[at].left)
                            && is_merged(
                            cells,
                            done[k].left as int,
                            done[k].right as int,
                            done[k].bottom as int,
                            done[k].top as int,
                        ) by {
                            if k < last {
                                assert(done@[k] == before[k]);
                            } else {
                                if is_plate(cells, y as int, rect.left as int, rect.right as int) {
                                    assert(holds_plate(cur@, rect.left as int, rect.right as int));
                                }
                            }
                        }
                        assert forall|left: int, right: int, bottom: int, top: int|
                            top < y - 1 && #[trigger] is_merged(
                                cells,
                                left,
                                right,
                                bottom,
                                top,
                            ) implies holds_rect(done@, left, right, bottom, top) by {
                            lemma_holds_rect_push(before, rect, left, right, bottom, top);
                        }
                        assert forall|k: int|
                            0 <= k < at + 1 && !holds_plate(
                                cur@,
                                (#[trigger] open[k]).left as int,
                                open[k].right as int,
                            ) implies holds_rect(
                            done@,
                            open[k].left as int,
                            open[k].right as int,
                            open[k].bottom as int,
                            open[k].top as int,
                        ) by {
                            if k < at {
                                lemma_holds_rect_push(
                                    before,
                                    rect,
                                    open[k].left as int,
                                    open[k].right as int,
                                    open[k].bottom as int,
                                    open[k].top as int,
                                );
                            }
                        }
                        assert forall|a: int, b: int| 0 <= a < b < done.len() implies comes_before(
                            #[trigger] done[a],
                            #[trigger] done[b],
                        ) by {
                            assert(done@[a] == before[a]);
                            if b < last {
                                assert(done@[b] == before[b]);
                            }
                        }
                    }
                },
                Some(_) => {
                    proof {
                        assert forall|k: int|
                            0 <= k < done.len() && (#[trigger] done[k]).top == y
                                - 1 implies done[k].left <= open[at].left by {}
                    }
                },
            }
            i = i + 1;
        }
        proof {
            assert forall|left: int, right: int, bottom: int, top: int|
                top < y && #[trigger] is_merged(cells, left, right, bottom, top) implies holds_rect(
                done@,
                left,
                right,
                bottom,
                top,
            ) by {
                if top == y - 1 {
                    assert(is_plate(cells, top, left, right));
                    assert(holds_plate(prev@, left, right));
                    let k = choose|k: int|
                        0 <= k < prev.len() && (#[trigger] prev[k]).left == left && prev[k].right
                            == right;
                    assert(is_open(cells, open[k], prev[k], y - 1));
                    if holds_plate(cur@, left, right) {
                        let c = choose|c: int|
                            0 <= c < cur.len() && (#[trigger] cur[c]).left == left && cur[c].right
                                == right;
                        assert(is_plate(cells, y as int, cur[c].left as int, cur[c].right as int));
                    }
                    let low = open[k].bottom as int;
                    if low < bottom {
                        assert(is_plate(cells, bottom - 1, left, right));
                    }
                    if bottom < low {
                        assert(is_plate(cells, low - 1, left, right));
                    }
                }
            }
        }
        let mut next: Vec<Rect> = Vec::new();
        let mut j: usize = 0;
        while j < cur.len()
            invariant
                j <= cur.len(),
                next.len() == j,
                0 <= y <= height,
                row == y,
                forall|at: int, left: int, right: int| #[trigger]
                    is_plate(cells, at, left, right) ==> 0 <= at < height,
                is_row_of(cells, y - 1, prev@),
                is_row_of(cells, y as int, cur@),
                open.len() == prev.len(),
                forall|k: int|
                    0 <= k < open.len() ==> is_open(cells, #[trigger] open[k], prev[k], y - 1),
                forall|k: int| 0 <= k < j ==> is_open(cells, #[trigger] next[k], cur[k], y as int),
            decreases cur.len() - j,
        {
            let plate = cur[j];
            let ghost before = next@;
            assert(is_plate(cells, y as int, cur[j as int].left as int, cur[j as int].right as int));
            let rect = match find_plate(&prev, plate.left, plate.right) {
                Some(k) => {
                    assert(is_open(cells, open[k as int], prev[k as int], y - 1));
                    Rect { left: plate.left, right: plate.right, top: row, bottom: open[k].bottom }
                },
                None => {
                    proof {
                        if is_plate(cells, y - 1, plate.left as int, plate.right as int) {
                            assert(holds_plate(prev@, plate.left as int, plate.right as int));
                        }
                    }
                    Rect { left: plate.left, right: plate.right, top: row, bottom: row }
                },
            };
            next.push(rect);
            proof {
                assert forall|k: int| 0 <= k < j + 1 implies is_open(
                    cells,
                    #[trigger] next[k],
                    cur[k],
                    y as int,
                ) by {
                    if k < j {
                        assert(next@[k] == before[k]);
                    }
                }
            }
            j = j + 1;
        }
        prev = cur;
        open = next;
        y = y + 1;
    }
    proof {
        assert(is_merge_of(cells, done@));
        lemma_merge_is_unique(cells, done@, merged_rects(cells));
    }
    done
}

/// The listing of the merged rectangles of `cells`.
pub open spec fn merged_rects(cells: Set<(int, int)>) -> Seq<Rect> {
    choose|rects: Seq<Rect>| is_merge_of(cells, rects)
}

proof fn lemma_same_prefix(cells: Set<(int, int)>, a: Seq<Rect>, b: Seq<Rect>, n: int)
    requires
        is_merge_of(cells, a),
        is_merge_of(cells, b),
        0 <= n <= a.len(),
    ensures
        n <= b.len(),
        forall|i: int| 0 <= i < n ==> a[i] == b[i],
    decreases n,
{
    if n > 0 {
        lemma_same_prefix(cells, a, b, n - 1);
        let e = a[n - 1];
        assert(is_merged(cells, e.left as int, e.right as int, e.bottom as int, e.top as int));
        assert(holds_rect(b, e.left as int, e.right as int, e.bottom as int, e.top as int));
        let j = choose|j: int|
            0 <= j < b.len() && (#[trigger] b[j]).left == e.left && b[j].right == e.right
                && b[j].bottom == e.bottom && b[j].top == e.top;
        assert(b[j] == e);
        if j < n - 1 {
            assert(a[j] == b[j]);
            assert(comes_before(a[j], a[n - 1]));
        } else if j > n - 1 {
            let f = b[n - 1];
            assert(comes_before(b[n - 1], b[j]));
            assert(is_merged(cells, f.left as int, f.right as int, f.bottom as int, f.top as int));
            assert(holds_rect(a, f.left as int, f.right as int, f.bottom as int, f.top as int));
            let i = choose|i: int|
                0 <= i < a.len() && (#[trigger] a[i]).left == f.left && a[i].right == f.right
                    && a[i].bottom == f.bottom && a[i].top == f.top;
            assert(a[i] == f);
            if i < n - 1 {
                assert(a[i] == b[i]);
                assert(comes_before(b[i], b[n - 1]));
            } else if i > n - 1 {
                assert(comes_before(a[n - 1], a[i]));
            }
        }
    }
}

/// The merge is determined by the wall cells alone: two listings of the
/// merged rectangles of the same cells are equal, rectangle by rectangle.
pub proof fn lemma_merge_is_unique(cells: Set<(int, int)>, a: Seq<Rect>, b: Seq<Rect>)
    requires
        is_merge_of(cells, a),
        is_merge_of(cells, b),
    ensures
        a == b,
{
    lemma_same_prefix(cells, a, b, a.len() as int);
    lemma_same_prefix(cells, b, a, b.len() as int);
    assert(a =~= b);
}

/// Whether cell (`x`, `y`) lies in `rect`.
pub open spec fn covers(rect: Rect, x: int, y: int) -> bool {
    rect.left <= x <= rect.right && rect.bottom <= y <= rect.top
}

proof fn lemma_left_end(cells: Set<(int, int)>, x: int, y: int) -> (left: int)
    requires
        cells.contains((x, y)),
        forall|c: (int, int)| cells.contains(c) ==> 0 <= c.0,
    ensures
        left <= x,
        forall|c: int| left <= c <= x ==> cells.contains((c, y)),
        !cells.contains((left - 1, y)),
    decreases x,
{
    if cells.contains((x - 1, y)) {
        lemma_left_end(cells, x - 1, y)
    } else {
        x
    }
}

proof fn lemma_right_end(cells: Set<(int, int)>, x: int, y: int, width: int) -> (right: int)
    requires
        cells.contains((x, y)),
        forall|c: (int, int)| cells.contains(c) ==> c.0 < width,
    ensures
        x <= right,
        forall|c: int| x <= c <= right ==> cells.contains((c, y)),
        !cells.contains((right + 1, y)),
    decreases width - x,
{
    if cells.contains((x + 1, y)) {
        lemma_right_end(cells, x + 1, y, width)
    } else {
        x
    }
}

proof fn lemma_bottom_end(cells: Set<(int, int)>, left: int, right: int, y: int) -> (bottom: int)
    requires
        is_plate(cells, y, left, right),
        forall|c: (int, int)| cells.contains(c) ==> 0 <= c.1,
    ensures
        bottom <= y,
        forall|row: int| bottom <= row <= y ==> is_plate(cells, row, left, right),
        !is_plate(cells, bottom - 1, left, right),
    decreases y,
{
    assert(cells.contains((left, y)));
    if is_plate(cells, y - 1, left, right) {
        assert(cells.contains((left, y - 1)));
        lemma_bottom_end(cells, left, right, y - 1)
    } else {
        y
    }
}

proof fn lemma_top_end(cells: Set<(int, int)>, left: int, right: int, y: int, height: int) -> (top: int)
    requires
        is_plate(cells, y, left, right),
        forall|c: (int, int)| cells.contains(c) ==> c.1 < height,
    ensures
        y <= top,
        forall|row: int| y <= row <= top ==> is_plate(cells, row, left, right),
        !is_plate(cells, top + 1, left, right),
    decreases height - y,
{
    assert(cells.contains((left, y)));
    if is_plate(cells, y + 1, left, right) {
        assert(cells.contains((left, y + 1)));
        lemma_top_end(cells, left, right, y + 1, height)
    } else {
        y
    }
}

/// The merged rectangles cover the wall cells of the level and nothing else,
/// and no cell lies in two of them.
pub proof fn lemma_each_cell_in_one_rect(
    walls: Set<(int, int)>,
    width: int,
    height: int,
    rects: Seq<Rect>,
    x: int,
    y: int,
)
    requires
        is_merge_of(level_cells(walls, width, height), rects),
    ensures
        level_cells(walls, width, height).contains((x, y)) <==> exists|i: int|
            0 <= i < rects.len() && covers(#[trigger] rects[i], x, y),
        forall|i: int, j: int|
            0 <= i < rects.len() && 0 <= j < rects.len() && covers(#[trigger] rects[i], x, y)
                && covers(#[trigger] rects[j], x, y) ==> i == j,
{
    let cells = level_cells(walls, width, height);
    if cells.contains((x, y)) {
        let left = lemma_left_end(cells, x, y);
        let right = lemma_right_end(cells, x, y, width);
        assert(is_plate(cells, y, left, right));
        let bottom = lemma_bottom_end(cells, left, right, y);
        let top = lemma_top_end(cells, left, right, y, height);
        assert(is_merged(cells, left, right, bottom, top));
        assert(holds_rect(rects, left, right, bottom, top));
        let i = choose|i: int|
            0 <= i < rects.len() && (#[trigger] rects[i]).left == left && rects[i].right == right
                && rects[i].bottom == bottom && rects[i].top == top;
        assert(covers(rects[i], x, y));
    }
    assert forall|i: int| 0 <= i < rects.len() && covers(#[trigger] rects[i], x, y) implies cells.contains(
        (x, y),
    ) by {
        let r = rects[i];
        assert(is_merged(cells, r.left as int, r.right as int, r.bottom as int, r.top as int));
        assert(is_plate(cells, y, r.left as int, r.right as int));
    }
    assert forall|i: int, j: int|
        0 <= i < rects.len() && 0 <= j < rects.len() && covers(#[trigger] rects[i], x, y) && covers(
            #[trigger] rects[j],
            x,
            y,
        ) implies i == j by {
        let p = rects[i];
        let q = rects[j];
        assert(is_merged(cells, p.left as int, p.right as int, p.bottom as int, p.top as int));
        assert(is_merged(cells, q.left as int, q.right as int, q.bottom as int, q.top as int));
        assert(is_plate(cells, y, p.left as int, p.right as int));
        assert(is_plate(cells, y, q.left as int, q.right as int));
        if p.left < q.left {
            assert(cells.contains((q.left - 1, y)));
        }
        if q.left < p.left {
            assert(cells.contains((p.left - 1, y)));
        }
        if p.right < q.right {
            assert(cells.contains((p.right + 1, y)));
        }
        if q.right < p.right {
            assert(cells.contains((q.right + 1, y)));
        }
        if p.bottom < q.bottom {
            assert(is_plate(cells, q.bottom - 1, p.left as int, p.right as int));
        }
        if q.bottom < p.bottom {
            assert(is_plate(cells, p.bottom - 1, q.left as int, q.right as int));
        }
        if p.top < q.top {
            assert(is_plate(cells, p.top + 1, q.left as int, q.right as int));
        }
        if q.top < p.top {
            assert(is_plate(cells, q.top + 1, p.left as int, p.right as int));
        }
        if i < j {
            assert(comes_before(rects[i], rects[j]));
        }
        if j < i {
            assert(comes_before(rects[j], rects[i]));
        }
    }
}

/// The merged rectangles are grown as far as they go: no two of them with
/// the same left and right edge lie one directly on top of the other, so no
/// two could be joined into one.
pub proof fn lemma_rects_cannot_be_stacked(cells: Set<(int, int)>, rects: Seq<Rect>, i: int, j: int)
    requires
        is_merge_of(cells, rects),
        0 <= i < rects.len(),
        0 <= j < rects.len(),
        rects[i].left == rects[j].left,
        rects[i].right == rects[j].right,
    ensures
        rects[j].bottom != rects[i].top + 1,
{
    let low = rects[i];
    let high = rects[j];
    assert(is_merged(cells, low.left as int, low.right as int, low.bottom as int, low.top as int));
    assert(is_merged(
        cells,
        high.left as int,
        high.right as int,
        high.bottom as int,
        high.top as int,
    ));
    assert(is_plate(cells, high.bottom as int, high.left as int, high.right as int));
}

/// Half of one whole unit, in thousandths.
pub const HALF_UNIT: i64 = 500;

/// A static box collider: its half extents and the place of its centre
/// within the level, in thousandths of a pixel.
#[derive(Clone, Copy, Debug, PartialEq, Eq, Structural)]
pub struct WallCollider {
    pub half_extents: Vec2,
    pub center: Vec2,
}

/// Half of `cells` grid cells of `grid_size` pixels each, in thousandths of a
/// pixel.
pub open spec fn half_span(cells: int, grid_size: int) -> int {
    held(cells * grid_size * HALF_UNIT)
}

/// The collider that stands for `rect` on a grid of `grid_size` pixels.
pub open spec fn collider_of(rect: Rect, grid_size: int) -> WallCollider {
    WallCollider {
        half_extents: Vec2 {
            x: half_span(rect.right - rect.left + 1, grid_size) as i64,
            y: half_span(rect.top - rect.bottom + 1, grid_size) as i64,
        },
        center: Vec2 {
            x: half_span(rect.left + rect.right + 1, grid_size) as i64,
            y: half_span(rect.bottom + rect.top + 1, grid_size) as i64,
        },
    }
}

pub open spec fn colliders_of(rects: Seq<Rect>, grid_size: int) -> Seq<WallCollider> {
    Seq::new(rects.len(), |i: int| collider_of(rects[i], grid_size))
}

fn half_span_of(cells: i64, grid_size: i32) -> (r: i64)
    requires
        -0x1_0000_0000 <= cells <= 0x1_0000_0000,
    ensures
        r == half_span(cells as int, grid_size as int),
{
    let count: i128 = cells as i128;
    let size: i128 = grid_size as i128;
    assert(-0x1_0000_0000 * 0x8000_0000 <= count * size <= 0x1_0000_0000 * 0x8000_0000)
        by (nonlinear_arith)
        requires
            -0x1_0000_0000 <= count <= 0x1_0000_0000,
            -0x8000_0000 <= size <= 0x8000_0000,
    ;
    let area: i128 = count * size;
    let half: i128 = HALF_UNIT as i128;
    assert(-0x8000_0000_0000_0000 * 500 <= area * half <= 0x8000_0000_0000_0000 * 500)
        by (nonlinear_arith)
        requires
            -0x8000_0000_0000_0000 <= area <= 0x8000_0000_0000_0000,
            half == 500,
    ;
    let wide: i128 = area * half;
    if wide < i64::MIN as i128 {
        i64::MIN
    } else if wide > i64::MAX as i128 {
        i64::MAX
    } else {
        wide as i64
    }
}

/// The wall data of one level: its wall cells, its size in cells and the
/// size of a cell in pixels.
pub struct LevelWalls {
    pub tiles: WallTiles,
    pub width: i32,
    pub height: i32,
    pub grid_size: i32,
}

impl LevelWalls {
    /// The wall cells that lie inside the level.
    pub open spec fn cells(&self) -> Set<(int, int)> {
        level_cells(self.tiles@, self.width as int, self.height as int)
    }
}

/// Rebuilds the wall colliders of a level. While the level's data is not
/// there yet, `colliders` is left as it is; once it is, `colliders` is
/// replaced by one collider for each merged rectangle of the level's wall
/// cells, in the order of their listing.
pub fn spawn_wall_collision(level: Option<&LevelWalls>, colliders: &mut Vec<WallCollider>)
    ensures
        match level {
            Some(data) => {
                &&& is_merge_of(data.cells(), merged_rects(data.cells()))
                &&& final(colliders)@ == colliders_of(
                    merged_rects(data.cells()),
                    data.grid_size as int,
                )
            },
            None => final(colliders)@ == old(colliders)@,
        },
{
    match level {
        None => {},
        Some(data) => {
            let rects = wall_rects(&data.tiles, data.width, data.height);
            let mut made: Vec<WallCollider> = Vec::new();
            let mut i: usize = 0;
            while i < rects.len()
                invariant
                    i <= rects.len(),
                    made.len() == i,
                    forall|k: int|
                        0 <= k < i ==> made[k] == collider_of(rects[k], data.grid_size as int),
                decreases rects.len() - i,
            {
                let rect = rects[i];
                let wide: i64 = rect.right as i64 - rect.left as i64 + 1;
                let tall: i64 = rect.top as i64 - rect.bottom as i64 + 1;
                let across: i64 = rect.left as i64 + rect.right as i64 + 1;
                let along: i64 = rect.bottom as i64 + rect.top as i64 + 1;
                made.push(
                    WallCollider {
                        half_extents: Vec2 {
                            x: half_span_of(wide, data.grid_size),
                            y: half_span_of(tall, data.grid_size),
                        },
                        center: Vec2 {
                            x: half_span_of(across, data.grid_size),
                            y: half_span_of(along, data.grid_size),
                        },
                    },
                );
                i = i + 1;
            }
            assert(made@ =~= colliders_of(rects@, data.grid_size as int));
            *colliders = made;
        },
    }
}

/// Where a run of level changes leaves the choice of level, starting from
/// `level`: at the level of the last change that does not end the game.
pub open spec fn level_after(level: usize, changes: Seq<ChangeLevelEvent>) -> usize
    decreases changes.len(),
{
    if changes.len() == 0 {
        level
    } else if changes.last().win_game {
        level_after(level, changes.drop_last())
    } else {
        changes.last().index
    }
}

/// Whether one of `changes` ends the game.
pub open spec fn game_won(changes: Seq<ChangeLevelEvent>) -> bool {
    exists|i: int| 0 <= i < changes.len() && (#[trigger] changes[i]).win_game
}

/// Follows the level changes asked for this tick, in order: each that does
/// not end the game chooses its level, and the result says whether one of
/// them ends the game.
pub fn switch_level(level: &mut usize, changes: &Vec<ChangeLevelEvent>) -> (won: bool)
    ensures
        *final(level) == level_after(*old(level), changes@),
        won == game_won(changes@),
{
    let mut won = false;
    let mut i: usize = 0;
    while i < changes.len()
        invariant
            i <= changes.len(),
            *level == level_after(*old(level), changes@.take(i as int)),
            won == game_won(changes@.take(i as int)),
        decreases changes.len() - i,
    {
        let ghost seen = changes@.take(i as int);
        let ghost next = changes@.take(i + 1);
        proof {
            assert(next.drop_last() =~= seen);
            assert(next.last() == changes@[i as int]);
            if game_won(seen) {
                let k = choose|k: int| 0 <= k < seen.len() && (#[trigger] seen[k]).win_game;
                assert(next[k].win_game);
            }
            if game_won(next) && !changes@[i as int].win_game {
                let k = choose|k: int| 0 <= k < next.len() && (#[trigger] next[k]).win_game;
                assert(seen[k].win_game);
            }
            if changes@[i as int].win_game {
                assert(next[i as int].win_game);
            }
        }
        if changes[i].win_game {
            won = true;
        } else {
            *level = changes[i].index;
        }
        i = i + 1;
    }
    proof {
        assert(changes@.take(changes@.len() as int) =~= changes@);
    }
    won
}

/// How many levels can be chosen by a key of their own.
pub const LEVEL_KEYS: usize = 10;

/// The place of the first key among `pressed`, from `from` on, that is
/// down.
pub open spec fn first_pressed(pressed: Seq<bool>, from: int) -> Option<int>
    decreases pressed.len() - from,
{
    if from < 0 || from >= pressed.len() {
        None
    } else if pressed[from] {
        Some(from)
    } else {
        first_pressed(pressed, from + 1)
    }
}

/// Chooses a level by its key, for trying levels out. `pressed` says of the
/// key of each level, the first level's key first, whether it has just been
/// pressed. The first level whose key was pressed is chosen; with no key
/// pressed the choice stays as it is.
pub fn test_switch_level(level: &mut usize, pressed: &[bool; 10])
    ensures
        *final(level) == match first_pressed(pressed@, 0) {
            Some(chosen) => chosen as usize,
            None => *old(level),
        },
{
    let mut i: usize = 0;
    while i < LEVEL_KEYS
        invariant
            i <= LEVEL_KEYS,
            pressed@.len() == LEVEL_KEYS,
            *level == *old(level),
            first_pressed(pressed@, 0) == first_pressed(pressed@, i as int),
        decreases LEVEL_KEYS - i,
    {
        if pressed[i] {
            *level = i;
            return ;
        }
        i = i + 1;
    }
}

} // verus!
