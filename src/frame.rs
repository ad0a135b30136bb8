use vstd::prelude::*;
use crate::floor::{floor_plan, FloorTile};
use crate::grid::TileGrid;
use crate::walls::{grid_quads, WallQuad};

verus! {

/// A corner of a quad: `A` at its origin, `B` one step along its first
/// axis, `C` one step along its second axis, `D` opposite `A`.
#[derive(Clone, Copy, Debug, PartialEq, Eq, Structural)]
pub enum Corner {
    A,
    B,
    C,
    D,
}

/// The corners of a quad's two triangles, in emission order.
pub open spec fn triangle_order() -> Seq<Corner> {
    seq![Corner::A, Corner::B, Corner::C, Corner::B, Corner::D, Corner::C]
}

/// The six vertices of a quad: triangle (A, B, C), then triangle (B, D, C).
pub fn quad_triangles() -> (r: Vec<Corner>)
    ensures
        r@ == triangle_order(),
{
    let r: Vec<Corner> = vec![Corner::A, Corner::B, Corner::C, Corner::B, Corner::D, Corner::C];
    assert(r@ =~= triangle_order());
    r
}

/// The vertex lists a pass draws.
#[derive(Clone, Copy, Debug, PartialEq, Eq, Structural)]
pub enum Mesh {
    Floor,
    Sprite,
    Walls,
}

/// The textures a frame binds.
#[derive(Clone, Copy, Debug, PartialEq, Eq, Structural)]
pub enum Texture {
    Floor,
    Wall,
    Sprite,
    /// Loaded with the others, drawn by no pass.
    SecondSprite,
}

/// One draw call. Every pass tests depth with "less", writes depth and
/// blends by alpha.
#[derive(Clone, Copy, Debug, PartialEq, Eq, Structural)]
pub struct DrawPass {
    pub mesh: Mesh,
    pub texture: Texture,
    /// Uses the camera's perspective and view; otherwise identity matrices.
    pub through_camera: bool,
}

/// The passes of one frame, in order.
pub open spec fn pass_order() -> Seq<DrawPass> {
    seq![
        DrawPass { mesh: Mesh::Floor, texture: Texture::Floor, through_camera: true },
        DrawPass { mesh: Mesh::Sprite, texture: Texture::Sprite, through_camera: false },
        DrawPass { mesh: Mesh::Walls, texture: Texture::Wall, through_camera: true },
    ]
}

/// The draw calls of a frame: the floor through the camera, then the
/// billboard sprite in clip space, then the walls through the camera.
pub fn frame_passes() -> (r: Vec<DrawPass>)
    ensures
        r@ == pass_order(),
{
    let r: Vec<DrawPass> = vec![
        DrawPass { mesh: Mesh::Floor, texture: Texture::Floor, through_camera: true },
        DrawPass { mesh: Mesh::Sprite, texture: Texture::Sprite, through_camera: false },
        DrawPass { mesh: Mesh::Walls, texture: Texture::Wall, through_camera: true },
    ];
    assert(r@ =~= pass_order());
    r
}

/// Generation is repeatable: two floor plans and two wall plans of one grid
/// agree entry for entry, so no state outside the grid steers them.
pub proof fn lemma_generation_repeatable(
    g: &TileGrid,
    f1: Seq<FloorTile>,
    f2: Seq<FloorTile>,
    w1: Seq<WallQuad>,
    w2: Seq<WallQuad>,
)
    requires
        g.wf(),
        floor_plan(g, f1),
        floor_plan(g, f2),
        w1 == grid_quads(g),
        w2 == grid_quads(g),
    ensures
        f1.len() == f2.len(),
        forall|i: int|
            #![trigger f1[i], f2[i]]
            0 <= i < f1.len() ==> f1[i].x == f2[i].x && f1[i].y == f2[i].y && f1[i].a@ == f2[i].a@
                && f1[i].b@ == f2[i].b@ && f1[i].c@ == f2[i].c@ && f1[i].d@ == f2[i].d@,
        w1 == w2,
{
}

} // verus!
