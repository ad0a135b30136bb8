use vstd::prelude::*;
use crate::grid::{column, tile_order, TileGrid};

verus! {

/// The tiles whose heights are averaged into each of one tile's four floor
/// corners, in the order in which they are summed. The tile itself always
/// comes first, so no list is empty.
pub struct FloorTile {
    pub x: usize,
    pub y: usize,
    /// Corner at `(x, y)`.
    pub a: Vec<(usize, usize)>,
    /// Corner at `(x + 1, y)`.
    pub b: Vec<(usize, usize)>,
    /// Corner at `(x, y + 1)`.
    pub c: Vec<(usize, usize)>,
    /// Corner at `(x + 1, y + 1)`.
    pub d: Vec<(usize, usize)>,
}

/// `p` alone when `keep` holds, else nothing.
pub open spec fn when(keep: bool, p: (usize, usize)) -> Seq<(usize, usize)> {
    if keep {
        seq![p]
    } else {
        seq![]
    }
}

/// The tile at `(x + dx, y + dy)`.
pub open spec fn at(x: usize, y: usize, dx: int, dy: int) -> (usize, usize) {
    ((x + dx) as usize, (y + dy) as usize)
}

/// Corner `(x, y)`: the left neighbour, then through it the bottom-left one,
/// then the bottom neighbour.
pub open spec fn corner_a(g: &TileGrid, x: usize, y: usize) -> Seq<(usize, usize)> {
    seq![(x, y)] + (if g.joined(x as int, y as int, -1, 0) {
        seq![at(x, y, -1, 0)] + when(g.joined(x as int, y as int, -1, -1), at(x, y, -1, -1))
    } else {
        seq![]
    }) + when(g.joined(x as int, y as int, 0, -1), at(x, y, 0, -1))
}

/// Corner `(x + 1, y)`: the bottom neighbour, then through it the
/// bottom-right one, then the right neighbour.
pub open spec fn corner_b(g: &TileGrid, x: usize, y: usize) -> Seq<(usize, usize)> {
    seq![(x, y)] + (if g.joined(x as int, y as int, 0, -1) {
        seq![at(x, y, 0, -1)] + when(g.joined(x as int, y as int, 1, -1), at(x, y, 1, -1))
    } else {
        seq![]
    }) + when(g.joined(x as int, y as int, 1, 0), at(x, y, 1, 0))
}

/// Corner `(x, y + 1)`: the left neighbour, then the top neighbour and
/// through it the top-left one.
pub open spec fn corner_c(g: &TileGrid, x: usize, y: usize) -> Seq<(usize, usize)> {
    seq![(x, y)] + when(g.joined(x as int, y as int, -1, 0), at(x, y, -1, 0)) + (if g.joined(
        x as int,
        y as int,
        0,
        1,
    ) {
        seq![at(x, y, 0, 1)] + when(g.joined(x as int, y as int, -1, 1), at(x, y, -1, 1))
    } else {
        seq![]
    })
}

/// Corner `(x + 1, y + 1)`: the right neighbour and through it the
/// top-right one, then the top neighbour.
pub open spec fn corner_d(g: &TileGrid, x: usize, y: usize) -> Seq<(usize, usize)> {
    seq![(x, y)] + (if g.joined(x as int, y as int, 1, 0) {
        seq![at(x, y, 1, 0)] + when(g.joined(x as int, y as int, 1, 1), at(x, y, 1, 1))
    } else {
        seq![]
    }) + when(g.joined(x as int, y as int, 0, 1), at(x, y, 0, 1))
}

/// `t` is the floor data of tile `p`.
pub open spec fn describes(g: &TileGrid, t: FloorTile, p: (usize, usize)) -> bool {
    &&& t.x == p.0
    &&& t.y == p.1
    &&& t.a@ == corner_a(g, p.0, p.1)
    &&& t.b@ == corner_b(g, p.0, p.1)
    &&& t.c@ == corner_c(g, p.0, p.1)
    &&& t.d@ == corner_d(g, p.0, p.1)
}

/// The tiles summed into the corner at `(x, y)`.
fn tiles_of_a(g: &TileGrid, x: usize, y: usize) -> (r: Vec<(usize, usize)>)
    requires
        g.wf(),
        g.in_grid(x as int, y as int),
    ensures
        r@ == corner_a(g, x, y),
{
    let links = g.get(x, y).links;
    let mut r: Vec<(usize, usize)> = vec![(x, y)];
    if x > 0 && links.left {
        r.push((x - 1, y));
        if y > 0 && links.bottom_left {
            r.push((x - 1, y - 1));
        }
    }
    if y > 0 && links.bottom {
        r.push((x, y - 1));
    }
    assert(r@ =~= corner_a(g, x, y));
    r
}

/// The tiles summed into the corner at `(x + 1, y)`.
fn tiles_of_b(g: &TileGrid, x: usize, y: usize) -> (r: Vec<(usize, usize)>)
    requires
        g.wf(),
        g.in_grid(x as int, y as int),
    ensures
        r@ == corner_b(g, x, y),
{
    let width = g.width();
    let links = g.get(x, y).links;
    let mut r: Vec<(usize, usize)> = vec![(x, y)];
    if y > 0 && links.bottom {
        r.push((x, y - 1));
        if x + 1 < width && links.bottom_right {
            r.push((x + 1, y - 1));
        }
    }
    if x + 1 < width && links.right {
        r.push((x + 1, y));
    }
    assert(r@ =~= corner_b(g, x, y));
    r
}

/// The tiles summed into the corner at `(x, y + 1)`.
fn tiles_of_c(g: &TileGrid, x: usize, y: usize) -> (r: Vec<(usize, usize)>)
    requires
        g.wf(),
        g.in_grid(x as int, y as int),
    ensures
        r@ == corner_c(g, x, y),
{
    let depth = g.depth;
    let links = g.get(x, y).links;
    let mut r: Vec<(usize, usize)> = vec![(x, y)];
    if x > 0 && links.left {
        r.push((x - 1, y));
    }
    if y + 1 < depth && links.top {
        r.push((x, y + 1));
        if x > 0 && links.top_left {
            r.push((x - 1, y + 1));
        }
    }
    assert(r@ =~= corner_c(g, x, y));
    r
}

/// The tiles summed into the corner at `(x + 1, y + 1)`.
fn tiles_of_d(g: &TileGrid, x: usize, y: usize) -> (r: Vec<(usize, usize)>)
    requires
        g.wf(),
        g.in_grid(x as int, y as int),
    ensures
        r@ == corner_d(g, x, y),
{
    let width = g.width();
    let depth = g.depth;
    let links = g.get(x, y).links;
    let mut r: Vec<(usize, usize)> = vec![(x, y)];
    if x + 1 < width && links.right {
        r.push((x + 1, y));
        if y + 1 < depth && links.top_right {
            r.push((x + 1, y + 1));
        }
    }
    if y + 1 < depth && links.top {
        r.push((x, y + 1));
    }
    assert(r@ =~= corner_d(g, x, y));
    r
}

/// Finds the tiles that feed each corner of the tile at `(x, y)`: a
/// neighbour counts only where it exists and the tile may move to it.
pub fn floor_tile(g: &TileGrid, x: usize, y: usize) -> (r: FloorTile)
    requires
        g.wf(),
        g.in_grid(x as int, y as int),
    ensures
        describes(g, r, (x, y)),
{
    FloorTile {
        x,
        y,
        a: tiles_of_a(g, x, y),
        b: tiles_of_b(g, x, y),
        c: tiles_of_c(g, x, y),
        d: tiles_of_d(g, x, y),
    }
}

/// `r` holds the floor data of every tile of the grid, in walk order.
pub open spec fn floor_plan(g: &TileGrid, r: Seq<FloorTile>) -> bool {
    &&& r.len() == tile_order(g.width_spec() as nat, g.depth).len()
    &&& forall|i: int| 0 <= i < r.len() ==> describes(g, #[trigger] r[i], tile_order(g.width_spec() as nat, g.depth)[i])
}

/// The floor data of every tile, column by column (`x` outer, `y` inner).
pub fn floor_tiles(g: &TileGrid) -> (r: Vec<FloorTile>)
    requires
        g.wf(),
    ensures
        floor_plan(g, r@),
{
    let width = g.width();
    let depth = g.depth;
    let mut r: Vec<FloorTile> = Vec::new();
    for x in 0..width
        invariant
            g.wf(),
            width == g.width_spec(),
            depth == g.depth,
            r@.len() == tile_order(x as nat, depth).len(),
            forall|i: int| 0 <= i < r@.len() ==> describes(g, #[trigger] r@[i], tile_order(x as nat, depth)[i]),
    {
        let ghost done = tile_order(x as nat, depth);
        let ghost next = done + column(x, depth);
        assert(tile_order((x + 1) as nat, depth) == next);
        for y in 0..depth
            invariant
                g.wf(),
                width == g.width_spec(),
                depth == g.depth,
                x < width,
                next == done + column(x, depth),
                r@.len() == done.len() + y,
                forall|i: int| 0 <= i < r@.len() ==> describes(g, #[trigger] r@[i], next[i]),
        {
            let t = floor_tile(g, x, y);
            r.push(t);
            assert(next[done.len() + y] == (x, y));
        }
    }
    r
}

/// The tiles of the grid that touch the grid point `(px, py)`.
pub open spec fn around(g: &TileGrid, px: int, py: int) -> Set<(usize, usize)> {
    Set::new(
        |t: (usize, usize)|
            g.in_grid(t.0 as int, t.1 as int) && px - 1 <= t.0 <= px && py - 1 <= t.1 <= py,
    )
}

/// Each tile that touches the point `(px, py)` may move to each other one.
pub open spec fn linked_around(g: &TileGrid, px: int, py: int) -> bool {
    forall|t: (usize, usize), u: (usize, usize)|
        #![trigger around(g, px, py).contains(t), around(g, px, py).contains(u)]
        around(g, px, py).contains(t) && around(g, px, py).contains(u) && t != u ==> g.joined(
            t.0 as int,
            t.1 as int,
            u.0 - t.0,
            u.1 - t.1,
        )
}

/// The tiles summed into the corner of tile `(x, y)` that lies at `(px, py)`.
pub open spec fn corner_at(g: &TileGrid, x: usize, y: usize, px: int, py: int) -> Seq<(usize, usize)> {
    if px == x && py == y {
        corner_a(g, x, y)
    } else if px == x + 1 && py == y {
        corner_b(g, x, y)
    } else if px == x && py == y + 1 {
        corner_c(g, x, y)
    } else {
        corner_d(g, x, y)
    }
}

/// A joined neighbour close enough to a grid point touches it.
proof fn lemma_neighbour_around(g: &TileGrid, x: usize, y: usize, dx: int, dy: int, px: int, py: int)
    requires
        g.wf(),
        g.joined(x as int, y as int, dx, dy),
        px - 1 <= x + dx <= px,
        py - 1 <= y + dy <= py,
    ensures
        around(g, px, py).contains(at(x, y, dx, dy)),
{
    let t = at(x, y, dx, dy);
    assert(t.0 == x + dx);
    assert(t.1 == y + dy);
}

/// Every tile summed into a corner touches the corner's point.
proof fn lemma_corner_inside(g: &TileGrid, x: usize, y: usize, px: int, py: int)
    requires
        g.wf(),
        g.in_grid(x as int, y as int),
        x <= px <= x + 1,
        y <= py <= y + 1,
    ensures
        forall|i: int|
            0 <= i < corner_at(g, x, y, px, py).len() ==> around(g, px, py).contains(
                #[trigger] corner_at(g, x, y, px, py)[i],
            ),
{
    let s = around(g, px, py);
    assert(s.contains((x, y)));
    let c = corner_at(g, x, y, px, py);
    let h = seq![(x, y)];
    if px == x && py == y {
        let m = if g.joined(x as int, y as int, -1, 0) {
            seq![at(x, y, -1, 0)] + when(g.joined(x as int, y as int, -1, -1), at(x, y, -1, -1))
        } else {
            seq![]
        };
        let e = when(g.joined(x as int, y as int, 0, -1), at(x, y, 0, -1));
        assert(c == h + m + e);
        if g.joined(x as int, y as int, -1, 0) {
            if g.joined(x as int, y as int, -1, -1) {
                assert(m =~= seq![at(x, y, -1, 0), at(x, y, -1, -1)]);
                lemma_neighbour_around(g, x, y, -1, -1, px, py);
            } else {
                assert(m =~= seq![at(x, y, -1, 0)]);
            }
            lemma_neighbour_around(g, x, y, -1, 0, px, py);
        }
        assert(forall|i: int| 0 <= i < m.len() ==> s.contains(#[trigger] m[i]));
        assert(forall|i: int| 0 <= i < e.len() ==> s.contains(#[trigger] e[i]));
    } else if px == x + 1 && py == y {
        let m = if g.joined(x as int, y as int, 0, -1) {
            seq![at(x, y, 0, -1)] + when(g.joined(x as int, y as int, 1, -1), at(x, y, 1, -1))
        } else {
            seq![]
        };
        let e = when(g.joined(x as int, y as int, 1, 0), at(x, y, 1, 0));
        assert(c == h + m + e);
        if g.joined(x as int, y as int, 0, -1) {
            if g.joined(x as int, y as int, 1, -1) {
                assert(m =~= seq![at(x, y, 0, -1), at(x, y, 1, -1)]);
                lemma_neighbour_around(g, x, y, 1, -1, px, py);
            } else {
                assert(m =~= seq![at(x, y, 0, -1)]);
            }
            lemma_neighbour_around(g, x, y, 0, -1, px, py);
        }
        assert(forall|i: int| 0 <= i < m.len() ==> s.contains(#[trigger] m[i]));
        assert(forall|i: int| 0 <= i < e.len() ==> s.contains(#[trigger] e[i]));
    } else if px == x && py == y + 1 {
        let m = when(g.joined(x as int, y as int, -1, 0), at(x, y, -1, 0));
        let e = if g.joined(x as int, y as int, 0, 1) {
            seq![at(x, y, 0, 1)] + when(g.joined(x as int, y as int, -1, 1), at(x, y, -1, 1))
        } else {
            seq![]
        };
        assert(c == h + m + e);
        assert(forall|i: int| 0 <= i < m.len() ==> s.contains(#[trigger] m[i]));
        assert(forall|i: int| 0 <= i < e.len() ==> s.contains(#[trigger] e[i]));
    } else {
        assert(px == x + 1 && py == y + 1);
        let m = if g.joined(x as int, y as int, 1, 0) {
            seq![at(x, y, 1, 0)] + when(g.joined(x as int, y as int, 1, 1), at(x, y, 1, 1))
        } else {
            seq![]
        };
        let e = when(g.joined(x as int, y as int, 0, 1), at(x, y, 0, 1));
        assert(c == h + m + e);
        if g.joined(x as int, y as int, 1, 0) {
            if g.joined(x as int, y as int, 1, 1) {
                assert(m =~= seq![at(x, y, 1, 0), at(x, y, 1, 1)]);
                lemma_neighbour_around(g, x, y, 1, 1, px, py);
            } else {
                assert(m =~= seq![at(x, y, 1, 0)]);
            }
            lemma_neighbour_around(g, x, y, 1, 0, px, py);
        }
        assert(forall|i: int| 0 <= i < m.len() ==> s.contains(#[trigger] m[i]));
        assert(forall|i: int| 0 <= i < e.len() ==> s.contains(#[trigger] e[i]));
    }
}

/// Where every tile around a corner may move to every other one, the
/// corner of any of them averages exactly the tiles around it.
proof fn lemma_corner_covers(g: &TileGrid, x: usize, y: usize, px: int, py: int)
    requires
        g.wf(),
        g.in_grid(x as int, y as int),
        x <= px <= x + 1,
        y <= py <= y + 1,
        linked_around(g, px, py),
    ensures
        corner_at(g, x, y, px, py).to_set() == around(g, px, py),
{
    let s = around(g, px, py);
    let c = corner_at(g, x, y, px, py);
    // The four tiles that may touch the point; those that lie outside the
    // grid are not in `s`.
    let q00 = ((px - 1) as usize, (py - 1) as usize);
    let q10 = (px as usize, (py - 1) as usize);
    let q01 = ((px - 1) as usize, py as usize);
    let q11 = (px as usize, py as usize);
    let me = (x, y);
    assert(s.contains(me));
    if s.contains(q00) && q00 != me {
        assert(g.joined(x as int, y as int, q00.0 - x, q00.1 - y));
    }
    if s.contains(q10) && q10 != me {
        assert(g.joined(x as int, y as int, q10.0 - x, q10.1 - y));
    }
    if s.contains(q01) && q01 != me {
        assert(g.joined(x as int, y as int, q01.0 - x, q01.1 - y));
    }
    if s.contains(q11) && q11 != me {
        assert(g.joined(x as int, y as int, q11.0 - x, q11.1 - y));
    }
    lemma_corner_inside(g, x, y, px, py);
    assert forall|t: (usize, usize)| #[trigger] s.contains(t) implies c.contains(t) by {
        if t == c[0] {
        } else if c.len() > 1 && t == c[1] {
        } else if c.len() > 2 && t == c[2] {
        } else {
            assert(c.len() > 3 && t == c[3]);
        }
    }
    assert(c.to_set() =~= s);
}

/// Shared-corner continuity: where every tile around a grid point may move
/// to every other one, any two tiles that touch that point average the same
/// tiles into the corner they share.
pub proof fn lemma_shared_corner_continuity(
    g: &TileGrid,
    x1: usize,
    y1: usize,
    x2: usize,
    y2: usize,
    px: int,
    py: int,
)
    requires
        g.wf(),
        around(g, px, py).contains((x1, y1)),
        around(g, px, py).contains((x2, y2)),
        linked_around(g, px, py),
    ensures
        corner_at(g, x1, y1, px, py).to_set() == corner_at(g, x2, y2, px, py).to_set(),
        corner_at(g, x1, y1, px, py).to_set() == around(g, px, py),
{
    lemma_corner_covers(g, x1, y1, px, py);
    lemma_corner_covers(g, x2, y2, px, py);
}

/// Every tile of the grid may move to each of its neighbours.
pub open spec fn fully_linked(g: &TileGrid) -> bool {
    forall|x: int, y: int| #![trigger g.tile(x, y)] g.in_grid(x, y) ==> g.tile(x, y).links.all_allowed()
}

/// On a fully linked grid each corner of each tile averages exactly the
/// tiles of the grid that touch the corner's point.
pub proof fn lemma_fully_linked_corners(g: &TileGrid, x: usize, y: usize, px: int, py: int)
    requires
        g.wf(),
        fully_linked(g),
        g.in_grid(x as int, y as int),
        x <= px <= x + 1,
        y <= py <= y + 1,
    ensures
        corner_at(g, x, y, px, py).to_set() == around(g, px, py),
{
    assert forall|t: (usize, usize), u: (usize, usize)|
        around(g, px, py).contains(t) && around(g, px, py).contains(u) && t != u implies g.joined(
        t.0 as int,
        t.1 as int,
        u.0 - t.0,
        u.1 - t.1,
    ) by {
        assert(g.tile(t.0 as int, t.1 as int).links.all_allowed());
    }
    lemma_corner_covers(g, x, y, px, py);
}

} // verus!
