use vstd::prelude::*;
use crate::grid::{column, tile_order, TileGrid, WallKind, Walls};

verus! {

/// One of a tile's four edges. "Bottom" faces smaller `y`, "left" smaller `x`.
#[derive(Clone, Copy, Debug, PartialEq, Eq, Structural)]
pub enum WallPosition {
    Bottom,
    Left,
    Top,
    Right,
}

/// Which grid axis a wall quad runs along.
#[derive(Clone, Copy, Debug, PartialEq, Eq, Structural)]
pub enum Orientation {
    /// A bottom or top edge, from `(x, y)` to `(x + 1, y)`; faces `(0, -1, 0)`.
    AlongX,
    /// A left or right edge, from `(x, y)` to `(x, y + 1)`; faces `(-1, 0, 0)`.
    AlongY,
}

/// The height of a wall's far edge, relative to the tile the wall belongs to.
#[derive(Clone, Copy, Debug, PartialEq, Eq, Structural)]
pub enum FarHeight {
    /// The height of the tile at `(x, y)`.
    OfTile(usize, usize),
    /// One unit above the wall's own tile.
    Raised,
    /// Three units below the wall's own tile.
    Sunken,
}

/// One wall quad: two triangles over an edge of the grid.
#[derive(Clone, Copy, Debug, PartialEq, Eq)]
pub struct WallQuad {
    pub orientation: Orientation,
    /// The grid point where the edge starts.
    pub x: usize,
    pub y: usize,
    /// The tile whose height is the wall's near edge.
    pub owner: (usize, usize),
    /// The height of the far edge.
    pub far: FarHeight,
    /// The tile whose lighting the whole quad takes.
    pub light: (usize, usize),
}

/// A cliff keeps the far height it was given, a border sinks three units,
/// any other wall rises one unit.
pub open spec fn far_rule(kind: WallKind, given: FarHeight) -> FarHeight {
    match kind {
        WallKind::Cliff => given,
        WallKind::Border => FarHeight::Sunken,
        WallKind::Normal => FarHeight::Raised,
    }
}

/// Applies the wall's kind to the far height found beyond the edge.
pub fn resolve_far_height(kind: WallKind, given: FarHeight) -> (r: FarHeight)
    ensures
        r == far_rule(kind, given),
        kind == WallKind::Cliff ==> r == given,
        kind == WallKind::Border ==> r == FarHeight::Sunken,
        kind == WallKind::Normal ==> r == FarHeight::Raised,
{
    match kind {
        WallKind::Cliff => given,
        WallKind::Border => FarHeight::Sunken,
        WallKind::Normal => FarHeight::Raised,
    }
}

/// The quad of a wall along `x` at grid point `(x, y)`; it is lit as the
/// tile below the edge, or as the edge's own row at `y == 0`.
pub open spec fn along_x(kind: WallKind, x: usize, y: usize, owner: (usize, usize), given: FarHeight) -> WallQuad {
    WallQuad {
        orientation: Orientation::AlongX,
        x,
        y,
        owner,
        far: far_rule(kind, given),
        light: (x, if y > 0 { (y - 1) as usize } else { y }),
    }
}

/// The quad of a wall along `y` at grid point `(x, y)`; it is lit as the
/// tile left of the edge, or as the edge's own column at `x == 0`.
pub open spec fn along_y(kind: WallKind, x: usize, y: usize, owner: (usize, usize), given: FarHeight) -> WallQuad {
    WallQuad {
        orientation: Orientation::AlongY,
        x,
        y,
        owner,
        far: far_rule(kind, given),
        light: (if x > 0 { (x - 1) as usize } else { x }, y),
    }
}

/// Builds the quad of a wall along `x`.
pub fn wall_along_x(kind: WallKind, x: usize, y: usize, owner: (usize, usize), given: FarHeight) -> (r: WallQuad)
    ensures
        r == along_x(kind, x, y, owner, given),
{
    let ly = if y > 0 { y - 1 } else { y };
    WallQuad {
        orientation: Orientation::AlongX,
        x,
        y,
        owner,
        far: resolve_far_height(kind, given),
        light: (x, ly),
    }
}

/// Builds the quad of a wall along `y`.
pub fn wall_along_y(kind: WallKind, x: usize, y: usize, owner: (usize, usize), given: FarHeight) -> (r: WallQuad)
    ensures
        r == along_y(kind, x, y, owner, given),
{
    let lx = if x > 0 { x - 1 } else { x };
    WallQuad {
        orientation: Orientation::AlongY,
        x,
        y,
        owner,
        far: resolve_far_height(kind, given),
        light: (lx, y),
    }
}

/// The wall data on one edge.
pub open spec fn slot_of(w: Walls, side: WallPosition) -> Option<WallKind> {
    match side {
        WallPosition::Bottom => w.bottom,
        WallPosition::Left => w.left,
        WallPosition::Top => w.top,
        WallPosition::Right => w.right,
    }
}

/// The edge lies on the grid's boundary.
pub open spec fn on_edge(g: &TileGrid, x: usize, y: usize, side: WallPosition) -> bool {
    match side {
        WallPosition::Bottom => y == 0,
        WallPosition::Left => x == 0,
        WallPosition::Top => y + 1 == g.depth,
        WallPosition::Right => x + 1 == g.width_spec(),
    }
}

/// The tile on the other side of the edge.
pub open spec fn beyond(x: usize, y: usize, side: WallPosition) -> (usize, usize) {
    match side {
        WallPosition::Bottom => (x, (y - 1) as usize),
        WallPosition::Left => ((x - 1) as usize, y),
        WallPosition::Top => (x, (y + 1) as usize),
        WallPosition::Right => ((x + 1) as usize, y),
    }
}

/// The far height found beyond the edge: the neighbour's, or one unit up
/// where the edge is on the boundary.
pub open spec fn found_beyond(g: &TileGrid, x: usize, y: usize, side: WallPosition) -> FarHeight {
    if on_edge(g, x, y, side) {
        FarHeight::Raised
    } else {
        let n = beyond(x, y, side);
        FarHeight::OfTile(n.0, n.1)
    }
}

/// The quad that a wall of kind `kind` on edge `side` of tile `(x, y)` yields.
pub open spec fn quad_on(g: &TileGrid, x: usize, y: usize, side: WallPosition, kind: WallKind) -> WallQuad {
    let given = found_beyond(g, x, y, side);
    match side {
        WallPosition::Bottom => along_x(kind, x, y, (x, y), given),
        WallPosition::Left => along_y(kind, x, y, (x, y), given),
        WallPosition::Top => along_x(kind, x, (y + 1) as usize, (x, y), given),
        WallPosition::Right => along_y(kind, (x + 1) as usize, y, (x, y), given),
    }
}

/// The quads of one edge: one where it holds a wall, none otherwise.
pub open spec fn slot_quads(g: &TileGrid, x: usize, y: usize, side: WallPosition) -> Seq<WallQuad> {
    match slot_of(g.tile(x as int, y as int).walls, side) {
        Some(kind) => seq![quad_on(g, x, y, side, kind)],
        None => seq![],
    }
}

/// The quads of one tile, edge by edge: bottom, left, top, right.
pub open spec fn tile_quads(g: &TileGrid, p: (usize, usize)) -> Seq<WallQuad> {
    slot_quads(g, p.0, p.1, WallPosition::Bottom) + slot_quads(g, p.0, p.1, WallPosition::Left)
        + slot_quads(g, p.0, p.1, WallPosition::Top) + slot_quads(g, p.0, p.1, WallPosition::Right)
}

/// The quads of the tiles of `order`, tile after tile.
pub open spec fn quads_over(g: &TileGrid, order: Seq<(usize, usize)>) -> Seq<WallQuad>
    decreases order.len(),
{
    if order.len() == 0 {
        seq![]
    } else {
        quads_over(g, order.drop_last()) + tile_quads(g, order.last())
    }
}

/// The quads of the whole grid, tile after tile in walk order.
pub open spec fn grid_quads(g: &TileGrid) -> Seq<WallQuad> {
    quads_over(g, tile_order(g.width_spec() as nat, g.depth))
}

/// Every tile that the quad reads lies in the grid.
pub open spec fn quad_in_grid(g: &TileGrid, q: WallQuad) -> bool {
    &&& g.in_grid(q.owner.0 as int, q.owner.1 as int)
    &&& g.in_grid(q.light.0 as int, q.light.1 as int)
    &&& (q.far matches FarHeight::OfTile(fx, fy) ==> g.in_grid(fx as int, fy as int))
}

/// Appends the quad of edge `side` of tile `(x, y)`, if that edge holds a wall.
fn push_slot(g: &TileGrid, x: usize, y: usize, side: WallPosition, r: &mut Vec<WallQuad>)
    requires
        g.wf(),
        g.in_grid(x as int, y as int),
    ensures
        final(r)@ == old(r)@ + slot_quads(g, x, y, side),
{
    let walls = g.get(x, y).walls;
    let slot = match side {
        WallPosition::Bottom => walls.bottom,
        WallPosition::Left => walls.left,
        WallPosition::Top => walls.top,
        WallPosition::Right => walls.right,
    };
    let ghost before = r@;
    match slot {
        Some(kind) => {
            let width = g.width();
            let depth = g.depth;
            let q = match side {
                WallPosition::Bottom => {
                    let given = if y == 0 { FarHeight::Raised } else { FarHeight::OfTile(x, y - 1) };
                    wall_along_x(kind, x, y, (x, y), given)
                },
                WallPosition::Left => {
                    let given = if x == 0 { FarHeight::Raised } else { FarHeight::OfTile(x - 1, y) };
                    wall_along_y(kind, x, y, (x, y), given)
                },
                WallPosition::Top => {
                    let given = if y + 1 == depth { FarHeight::Raised } else { FarHeight::OfTile(x, y + 1) };
                    wall_along_x(kind, x, y + 1, (x, y), given)
                },
                WallPosition::Right => {
                    let given = if x + 1 == width { FarHeight::Raised } else { FarHeight::OfTile(x + 1, y) };
                    wall_along_y(kind, x + 1, y, (x, y), given)
                },
            };
            r.push(q);
            assert(r@ =~= before + slot_quads(g, x, y, side));
        },
        None => {
            assert(r@ =~= before + slot_quads(g, x, y, side));
        },
    }
}

/// Appending one tile to a walk appends that tile's quads.
proof fn lemma_quads_over_push(g: &TileGrid, order: Seq<(usize, usize)>, p: (usize, usize))
    ensures
        quads_over(g, order.push(p)) == quads_over(g, order) + tile_quads(g, p),
{
    assert(order.push(p).drop_last() =~= order);
}

/// A tile's quads read only tiles of the grid: an edge on the boundary
/// never looks beyond it.
proof fn lemma_tile_quads_in_grid(g: &TileGrid, x: usize, y: usize)
    requires
        g.wf(),
        g.in_grid(x as int, y as int),
    ensures
        forall|i: int| 0 <= i < tile_quads(g, (x, y)).len() ==> quad_in_grid(g, #[trigger] tile_quads(g, (x, y))[i]),
{
    let sb = slot_quads(g, x, y, WallPosition::Bottom);
    let sl = slot_quads(g, x, y, WallPosition::Left);
    let st = slot_quads(g, x, y, WallPosition::Top);
    let sr = slot_quads(g, x, y, WallPosition::Right);
    assert(forall|i: int| 0 <= i < sb.len() ==> quad_in_grid(g, #[trigger] sb[i]));
    assert(forall|i: int| 0 <= i < sl.len() ==> quad_in_grid(g, #[trigger] sl[i]));
    assert(forall|i: int| 0 <= i < st.len() ==> quad_in_grid(g, #[trigger] st[i]));
    assert(forall|i: int| 0 <= i < sr.len() ==> quad_in_grid(g, #[trigger] sr[i]));
    let all = tile_quads(g, (x, y));
    assert forall|i: int| 0 <= i < all.len() implies quad_in_grid(g, #[trigger] all[i]) by {
        if i < sb.len() {
            assert(all[i] == sb[i]);
        } else if i < sb.len() + sl.len() {
            assert(all[i] == sl[i - sb.len()]);
        } else if i < sb.len() + sl.len() + st.len() {
            assert(all[i] == st[i - sb.len() - sl.len()]);
        } else {
            assert(all[i] == sr[i - sb.len() - sl.len() - st.len()]);
        }
    }
}

/// The wall quads of every tile, in walk order (`x` outer, `y` inner) and,
/// within a tile, bottom, left, top, right. Every tile a quad reads lies in
/// the grid.
pub fn wall_quads(g: &TileGrid) -> (r: Vec<WallQuad>)
    requires
        g.wf(),
    ensures
        r@ == grid_quads(g),
        forall|i: int| 0 <= i < r@.len() ==> quad_in_grid(g, #[trigger] r@[i]),
{
    let width = g.width();
    let depth = g.depth;
    let mut r: Vec<WallQuad> = Vec::new();
    for x in 0..width
        invariant
            g.wf(),
            width == g.width_spec(),
            depth == g.depth,
            r@ == quads_over(g, tile_order(x as nat, depth)),
            forall|i: int| 0 <= i < r@.len() ==> quad_in_grid(g, #[trigger] r@[i]),
    {
        let ghost done = tile_order(x as nat, depth);
        let ghost col = column(x, depth);
        assert(tile_order((x + 1) as nat, depth) == done + col);
        for y in 0..depth
            invariant
                g.wf(),
                width == g.width_spec(),
                depth == g.depth,
                x < width,
                col == column(x, depth),
                r@ == quads_over(g, done + col.take(y as int)),
                forall|i: int| 0 <= i < r@.len() ==> quad_in_grid(g, #[trigger] r@[i]),
        {
            let ghost before = r@;
            proof {
                lemma_quads_over_push(g, done + col.take(y as int), (x, y));
                assert((done + col.take(y as int)).push((x, y)) =~= done + col.take(y + 1));
                lemma_tile_quads_in_grid(g, x, y);
            }
            push_slot(g, x, y, WallPosition::Bottom, &mut r);
            push_slot(g, x, y, WallPosition::Left, &mut r);
            push_slot(g, x, y, WallPosition::Top, &mut r);
            push_slot(g, x, y, WallPosition::Right, &mut r);
            assert(r@ =~= before + tile_quads(g, (x, y)));
            assert forall|i: int| 0 <= i < r@.len() implies quad_in_grid(g, #[trigger] r@[i]) by {
                if i >= before.len() {
                    assert(r@[i] == tile_quads(g, (x, y))[i - before.len()]);
                }
            }
        }
        assert(col.take(depth as int) =~= col);
    }
    r
}

/// An edge on the grid's boundary gets a far height of one unit above its
/// own tile before the wall's kind is applied: a cliff there rises one unit,
/// and no tile outside the grid is read.
pub proof fn lemma_boundary_wall(g: &TileGrid, x: usize, y: usize, side: WallPosition, kind: WallKind)
    requires
        g.wf(),
        g.in_grid(x as int, y as int),
        on_edge(g, x, y, side),
        slot_of(g.tile(x as int, y as int).walls, side) == Some(kind),
    ensures
        slot_quads(g, x, y, side) == seq![quad_on(g, x, y, side, kind)],
        found_beyond(g, x, y, side) == FarHeight::Raised,
        quad_on(g, x, y, side, kind).far == far_rule(kind, FarHeight::Raised),
        quad_in_grid(g, quad_on(g, x, y, side, kind)),
{
}

} // verus!
