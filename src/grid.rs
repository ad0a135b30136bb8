use vstd::prelude::*;

verus! {

/// How a wall slot is classified by the level's wall data.
#[derive(Clone, Copy, Debug, PartialEq, Eq, Structural)]
pub enum WallKind {
    /// The far edge follows the neighbouring tile's height.
    Cliff,
    /// The far edge drops a fixed depth below the tile.
    Border,
    /// The wall rises one unit above the tile.
    Normal,
}

impl WallKind {
    /// Classifies a wall from its two predicates; cliff takes precedence over border.
    pub fn classify(is_cliff: bool, is_border: bool) -> (r: WallKind)
        ensures
            r == (if is_cliff {
                WallKind::Cliff
            } else if is_border {
                WallKind::Border
            } else {
                WallKind::Normal
            }),
    {
        if is_cliff {
            WallKind::Cliff
        } else if is_border {
            WallKind::Border
        } else {
            WallKind::Normal
        }
    }
}

/// Whether a move from a tile to each of its eight neighbours is possible.
/// "Bottom" is towards smaller `y`, "left" towards smaller `x`.
#[derive(Clone, Copy, Debug, PartialEq, Eq, Structural)]
pub struct Links {
    pub left: bool,
    pub bottom_left: bool,
    pub bottom: bool,
    pub bottom_right: bool,
    pub right: bool,
    pub top_right: bool,
    pub top: bool,
    pub top_left: bool,
}

/// The wall data held on each of a tile's four edges.
#[derive(Clone, Copy, Debug, PartialEq, Eq, Structural)]
pub struct Walls {
    pub bottom: Option<WallKind>,
    pub left: Option<WallKind>,
    pub top: Option<WallKind>,
    pub right: Option<WallKind>,
}

/// What the mesh builders read of one tile besides its height.
#[derive(Clone, Copy, Debug, PartialEq, Eq, Structural)]
pub struct Tile {
    pub links: Links,
    pub walls: Walls,
}

impl Links {
    /// Whether the move by `(dx, dy)` is possible (`dx`, `dy` in -1..=1, not both 0).
    pub open spec fn allows(self, dx: int, dy: int) -> bool {
        if dx == -1 && dy == 0 {
            self.left
        } else if dx == -1 && dy == -1 {
            self.bottom_left
        } else if dx == 0 && dy == -1 {
            self.bottom
        } else if dx == 1 && dy == -1 {
            self.bottom_right
        } else if dx == 1 && dy == 0 {
            self.right
        } else if dx == 1 && dy == 1 {
            self.top_right
        } else if dx == 0 && dy == 1 {
            self.top
        } else if dx == -1 && dy == 1 {
            self.top_left
        } else {
            false
        }
    }

    /// Every move possible.
    pub open spec fn all_allowed(self) -> bool {
        self.left && self.bottom_left && self.bottom && self.bottom_right && self.right
            && self.top_right && self.top && self.top_left
    }

    /// Every move possible.
    pub fn all() -> (r: Links)
        ensures
            r.all_allowed(),
    {
        Links {
            left: true,
            bottom_left: true,
            bottom: true,
            bottom_right: true,
            right: true,
            top_right: true,
            top: true,
            top_left: true,
        }
    }
}

impl Walls {
    pub open spec fn is_empty(self) -> bool {
        self.bottom is None && self.left is None && self.top is None && self.right is None
    }

    /// No wall on any edge.
    pub fn none() -> (r: Walls)
        ensures
            r.is_empty(),
    {
        Walls { bottom: None, left: None, top: None, right: None }
    }
}

/// A level's tiles, stored column by column: `columns[x][y]`.
/// `depth` is kept apart so that a grid without columns still has one.
pub struct TileGrid {
    pub columns: Vec<Vec<Tile>>,
    pub depth: usize,
}

impl TileGrid {
    /// The number of columns.
    pub open spec fn width_spec(&self) -> int {
        self.columns@.len() as int
    }

    /// Every column holds `depth` tiles, and the width is a `usize`.
    pub open spec fn wf(&self) -> bool {
        &&& self.columns@.len() <= usize::MAX
        &&& forall|x: int| 0 <= x < self.columns@.len() ==> (#[trigger] self.columns@[x])@.len() == self.depth
    }

    /// `(x, y)` is a tile of the grid.
    pub open spec fn in_grid(&self, x: int, y: int) -> bool {
        0 <= x < self.width_spec() && 0 <= y < self.depth
    }

    /// The tile at `(x, y)`.
    pub open spec fn tile(&self, x: int, y: int) -> Tile {
        self.columns@[x]@[y]
    }

    /// The neighbour at `(x + dx, y + dy)` exists and the tile at `(x, y)` may move to it.
    pub open spec fn joined(&self, x: int, y: int, dx: int, dy: int) -> bool {
        self.in_grid(x + dx, y + dy) && self.tile(x, y).links.allows(dx, dy)
    }

    /// The number of columns.
    pub fn width(&self) -> (r: usize)
        ensures
            r == self.width_spec(),
    {
        self.columns.len()
    }

    /// Reads the tile at `(x, y)`.
    pub fn get(&self, x: usize, y: usize) -> (r: Tile)
        requires
            self.wf(),
            self.in_grid(x as int, y as int),
        ensures
            r == self.tile(x as int, y as int),
    {
        self.columns[x][y]
    }

    /// A `width` by `depth` grid where every move between neighbours is
    /// possible and no edge holds a wall.
    pub fn open(width: usize, depth: usize) -> (r: TileGrid)
        ensures
            r.wf(),
            r.width_spec() == width,
            r.depth == depth,
            forall|x: int, y: int|
                #![trigger r.tile(x, y)]
                r.in_grid(x, y) ==> r.tile(x, y).links.all_allowed() && r.tile(x, y).walls.is_empty(),
    {
        let tile = Tile { links: Links::all(), walls: Walls::none() };
        let mut columns: Vec<Vec<Tile>> = Vec::new();
        for x in 0..width
            invariant
                columns@.len() == x,
                forall|i: int| 0 <= i < x ==> (#[trigger] columns@[i])@.len() == depth,
                tile.links.all_allowed() && tile.walls.is_empty(),
                forall|i: int, j: int|
                    0 <= i < x && 0 <= j < depth ==> #[trigger] columns@[i]@[j] == tile,
        {
            let mut column: Vec<Tile> = Vec::new();
            for y in 0..depth
                invariant
                    column@.len() == y,
                    forall|j: int| 0 <= j < y ==> column@[j] == tile,
            {
                column.push(tile);
            }
            columns.push(column);
        }
        TileGrid { columns, depth }
    }

    /// Replaces the tile at `(x, y)`.
    pub fn set(&mut self, x: usize, y: usize, tile: Tile)
        requires
            old(self).wf(),
            old(self).in_grid(x as int, y as int),
        ensures
            final(self).wf(),
            final(self).width_spec() == old(self).width_spec(),
            final(self).depth == old(self).depth,
            final(self).tile(x as int, y as int) == tile,
            forall|i: int, j: int|
                #![trigger final(self).tile(i, j)]
                final(self).in_grid(i, j) && !(i == x && j == y) ==> final(self).tile(i, j) == old(self).tile(i, j),
    {
        let mut column = self.columns[x].clone();
        column.set(y, tile);
        self.columns.set(x, column);
    }
}

/// The tiles of column `x`, bottom to top.
pub open spec fn column(x: usize, depth: usize) -> Seq<(usize, usize)> {
    Seq::new(depth as nat, |y: int| (x, y as usize))
}

/// The tiles of the first `width` columns, column by column.
pub open spec fn tile_order(width: nat, depth: usize) -> Seq<(usize, usize)>
    decreases width,
{
    if width == 0 {
        seq![]
    } else {
        tile_order((width - 1) as nat, depth) + column((width - 1) as usize, depth)
    }
}

} // verus!
