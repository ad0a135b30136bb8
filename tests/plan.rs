use iso_terrain::floor::{floor_tile, floor_tiles};
use iso_terrain::frame::{frame_passes, quad_triangles, Corner, DrawPass, Mesh, Texture};
use iso_terrain::grid::{Links, Tile, TileGrid, WallKind, Walls};
use iso_terrain::walls::{
    resolve_far_height, wall_along_x, wall_along_y, wall_quads, FarHeight, Orientation, WallPosition,
};

fn sorted(mut v: Vec<(usize, usize)>) -> Vec<(usize, usize)> {
    v.sort();
    v
}

fn with_wall(g: &mut TileGrid, x: usize, y: usize, side: WallPosition, kind: WallKind) {
    let mut t = g.get(x, y);
    match side {
        WallPosition::Bottom => t.walls.bottom = Some(kind),
        WallPosition::Left => t.walls.left = Some(kind),
        WallPosition::Top => t.walls.top = Some(kind),
        WallPosition::Right => t.walls.right = Some(kind),
    }
    g.set(x, y, t);
}

#[test]
fn flat_two_by_two_level() {
    let g = TileGrid::open(2, 2);
    let floor = floor_tiles(&g);
    let walls = wall_quads(&g);
    let per_quad = quad_triangles().len();
    assert_eq!(floor.len() * per_quad, 24);
    assert_eq!(walls.len() * per_quad, 0);
    let order: Vec<(usize, usize)> = floor.iter().map(|t| (t.x, t.y)).collect();
    assert_eq!(order, vec![(0, 0), (0, 1), (1, 0), (1, 1)]);
}

#[test]
fn corner_lists_in_summation_order() {
    let g = TileGrid::open(3, 3);
    let t = floor_tile(&g, 1, 1);
    assert_eq!(t.a, vec![(1, 1), (0, 1), (0, 0), (1, 0)]);
    assert_eq!(t.b, vec![(1, 1), (1, 0), (2, 0), (2, 1)]);
    assert_eq!(t.c, vec![(1, 1), (0, 1), (1, 2), (0, 2)]);
    assert_eq!(t.d, vec![(1, 1), (2, 1), (2, 2), (1, 2)]);
    let corner = floor_tile(&g, 0, 0);
    assert_eq!(corner.a, vec![(0, 0)]);
    assert_eq!(corner.b, vec![(0, 0), (1, 0)]);
    assert_eq!(corner.c, vec![(0, 0), (0, 1)]);
    assert_eq!(corner.d, vec![(0, 0), (1, 0), (1, 1), (0, 1)]);
}

#[test]
fn shared_corner_has_same_tiles_when_linked() {
    let g = TileGrid::open(3, 3);
    let expected = vec![(0, 0), (0, 1), (1, 0), (1, 1)];
    assert_eq!(sorted(floor_tile(&g, 0, 0).d), expected);
    assert_eq!(sorted(floor_tile(&g, 1, 0).c), expected);
    assert_eq!(sorted(floor_tile(&g, 0, 1).b), expected);
    assert_eq!(sorted(floor_tile(&g, 1, 1).a), expected);
}

#[test]
fn blocked_move_keeps_neighbour_out() {
    let mut g = TileGrid::open(2, 1);
    let mut t = g.get(0, 0);
    t.links.right = false;
    g.set(0, 0, t);
    assert_eq!(floor_tile(&g, 0, 0).b, vec![(0, 0)]);
    assert_eq!(floor_tile(&g, 0, 0).d, vec![(0, 0)]);
    assert_eq!(floor_tile(&g, 1, 0).a, vec![(1, 0), (0, 0)]);
}

#[test]
fn diagonal_needs_its_orthogonal_neighbour() {
    let mut g = TileGrid::open(2, 2);
    let mut t = g.get(0, 0);
    t.links.right = false;
    g.set(0, 0, t);
    // (1, 1) is reached only through the right neighbour for corner D.
    assert_eq!(floor_tile(&g, 0, 0).d, vec![(0, 0), (0, 1)]);
}

#[test]
fn far_height_by_kind() {
    let given = FarHeight::OfTile(4, 2);
    assert_eq!(resolve_far_height(WallKind::Cliff, given), given);
    assert_eq!(resolve_far_height(WallKind::Border, given), FarHeight::Sunken);
    assert_eq!(resolve_far_height(WallKind::Normal, given), FarHeight::Raised);
    assert_eq!(resolve_far_height(WallKind::Cliff, FarHeight::Raised), FarHeight::Raised);
}

#[test]
fn classify_prefers_cliff() {
    assert_eq!(WallKind::classify(true, true), WallKind::Cliff);
    assert_eq!(WallKind::classify(false, true), WallKind::Border);
    assert_eq!(WallKind::classify(false, false), WallKind::Normal);
}

#[test]
fn boundary_bottom_wall_rises_from_own_tile() {
    let mut g = TileGrid::open(2, 2);
    with_wall(&mut g, 1, 0, WallPosition::Bottom, WallKind::Cliff);
    let walls = wall_quads(&g);
    assert_eq!(walls.len(), 1);
    let q = walls[0];
    assert_eq!(q.orientation, Orientation::AlongX);
    assert_eq!((q.x, q.y), (1, 0));
    assert_eq!(q.owner, (1, 0));
    assert_eq!(q.far, FarHeight::Raised);
    assert_eq!(q.light, (1, 0));
}

#[test]
fn interior_cliff_takes_neighbour_height() {
    let mut g = TileGrid::open(2, 2);
    with_wall(&mut g, 0, 1, WallPosition::Bottom, WallKind::Cliff);
    with_wall(&mut g, 1, 1, WallPosition::Left, WallKind::Cliff);
    let walls = wall_quads(&g);
    assert_eq!(walls.len(), 2);
    assert_eq!(walls[0].far, FarHeight::OfTile(0, 0));
    assert_eq!(walls[0].light, (0, 0));
    assert_eq!(walls[1].orientation, Orientation::AlongY);
    assert_eq!(walls[1].far, FarHeight::OfTile(0, 1));
    assert_eq!(walls[1].light, (0, 1));
}

#[test]
fn top_and_right_walls_stand_on_far_edges() {
    let mut g = TileGrid::open(2, 2);
    with_wall(&mut g, 0, 0, WallPosition::Top, WallKind::Normal);
    with_wall(&mut g, 0, 0, WallPosition::Right, WallKind::Border);
    with_wall(&mut g, 1, 1, WallPosition::Top, WallKind::Cliff);
    with_wall(&mut g, 1, 1, WallPosition::Right, WallKind::Cliff);
    let walls = wall_quads(&g);
    assert_eq!(walls.len(), 4);
    assert_eq!((walls[0].x, walls[0].y, walls[0].far), (0, 1, FarHeight::Raised));
    assert_eq!(walls[0].light, (0, 0));
    assert_eq!((walls[1].x, walls[1].y, walls[1].far), (1, 0, FarHeight::Sunken));
    assert_eq!(walls[1].light, (0, 0));
    assert_eq!((walls[2].x, walls[2].y, walls[2].far), (1, 2, FarHeight::Raised));
    assert_eq!((walls[3].x, walls[3].y, walls[3].far), (2, 1, FarHeight::Raised));
    assert_eq!(walls[3].owner, (1, 1));
}

#[test]
fn wall_order_within_tile() {
    let mut g = TileGrid::open(3, 3);
    for side in [WallPosition::Right, WallPosition::Top, WallPosition::Left, WallPosition::Bottom] {
        with_wall(&mut g, 1, 1, side, WallKind::Cliff);
    }
    let walls = wall_quads(&g);
    let got: Vec<FarHeight> = walls.iter().map(|q| q.far).collect();
    assert_eq!(
        got,
        vec![
            FarHeight::OfTile(1, 0),
            FarHeight::OfTile(0, 1),
            FarHeight::OfTile(1, 2),
            FarHeight::OfTile(2, 1),
        ]
    );
}

#[test]
fn light_clamps_at_zero() {
    let q = wall_along_x(WallKind::Normal, 3, 0, (3, 0), FarHeight::Raised);
    assert_eq!(q.light, (3, 0));
    let q = wall_along_x(WallKind::Normal, 3, 2, (3, 1), FarHeight::Raised);
    assert_eq!(q.light, (3, 1));
    let q = wall_along_y(WallKind::Normal, 0, 5, (0, 5), FarHeight::Raised);
    assert_eq!(q.light, (0, 5));
    let q = wall_along_y(WallKind::Border, 2, 5, (1, 5), FarHeight::OfTile(2, 5));
    assert_eq!(q.light, (1, 5));
    assert_eq!(q.far, FarHeight::Sunken);
}

#[test]
fn generation_is_repeatable() {
    let mut g = TileGrid::open(3, 2);
    with_wall(&mut g, 2, 1, WallPosition::Right, WallKind::Border);
    let f1 = floor_tiles(&g);
    let f2 = floor_tiles(&g);
    assert_eq!(f1.len(), f2.len());
    for (a, b) in f1.iter().zip(f2.iter()) {
        assert_eq!((a.x, a.y, &a.a, &a.b, &a.c, &a.d), (b.x, b.y, &b.a, &b.b, &b.c, &b.d));
    }
    assert_eq!(wall_quads(&g), wall_quads(&g));
}

#[test]
fn triangles_and_passes() {
    assert_eq!(
        quad_triangles(),
        vec![Corner::A, Corner::B, Corner::C, Corner::B, Corner::D, Corner::C]
    );
    let passes = frame_passes();
    assert_eq!(
        passes,
        vec![
            DrawPass { mesh: Mesh::Floor, texture: Texture::Floor, through_camera: true },
            DrawPass { mesh: Mesh::Sprite, texture: Texture::Sprite, through_camera: false },
            DrawPass { mesh: Mesh::Walls, texture: Texture::Wall, through_camera: true },
        ]
    );
}

#[test]
fn empty_grid_has_no_geometry() {
    let g = TileGrid::open(0, 4);
    assert!(floor_tiles(&g).is_empty());
    assert!(wall_quads(&g).is_empty());
    let g = TileGrid::open(4, 0);
    assert!(floor_tiles(&g).is_empty());
}

#[test]
fn set_replaces_one_tile() {
    let mut g = TileGrid::open(2, 2);
    let t = Tile { links: Links::all(), walls: Walls { bottom: Some(WallKind::Border), ..Walls::none() } };
    g.set(1, 0, t);
    assert_eq!(g.get(1, 0), t);
    assert_eq!(g.get(0, 0).walls, Walls::none());
    assert_eq!(g.width(), 2);
}

#[test]
fn one_sided_block_splits_a_shared_corner() {
    let mut g = TileGrid::open(2, 2);
    let mut t = g.get(0, 0);
    t.links.top = false;
    g.set(0, 0, t);
    assert_eq!(sorted(floor_tile(&g, 0, 0).d), vec![(0, 0), (1, 0), (1, 1)]);
    assert_eq!(sorted(floor_tile(&g, 1, 0).c), vec![(0, 0), (0, 1), (1, 0), (1, 1)]);
}
