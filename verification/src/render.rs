//! What is drawn: the camera, the shapes of a frame and the renderers of
//! the three views. Nothing here draws; a frame is a list of shapes for a
//! drawing backend to carry out in order.

use vstd::prelude::*;
use crate::fixed::{floor_div, floor_div_i128, lemma_floor_div_magnitude, lemma_product_bound};
use crate::fixed::{mul_fixed, product, saturate, saturated, Vector2, ONE};
use crate::level::lemma_position;
use crate::player::{player_shapes, Player};
use crate::state::State;
use crate::world::{Blocks, World};

verus! {

/// The colours that the views use.
#[allow(non_camel_case_types)]
#[derive(Clone, Copy, Debug, PartialEq, Eq, Structural)]
pub enum Color {
    RED,
    BLUE,
    WHITE,
    GRAY,
}

/// A rectangle in fixed point.
#[derive(Clone, Copy, Debug, PartialEq, Eq, Structural)]
pub struct Rectangle {
    pub x: i64,
    pub y: i64,
    pub width: i64,
    pub height: i64,
}

/// One shape of a frame. Whole numbers are pixels; the other numbers are in
/// fixed point.
#[derive(Clone, Copy, Debug, PartialEq, Eq, Structural)]
pub enum Shape {
    /// A filled circle.
    Circle { center_x: i32, center_y: i32, radius: i64, color: Color },
    /// A line of a given thickness.
    Line { start: Vector2, end: Vector2, thick: i64, color: Color },
    /// A filled rectangle.
    Rect { x: i32, y: i32, width: i32, height: i32, color: Color },
    /// The part `source` of the texture atlas, drawn into `dest`.
    Texture { source: Rectangle, dest: Rectangle, origin: Vector2, rotation: i64, tint: Color },
}

/// A camera over the world: the point looked at, where on the screen that
/// point is shown, a rotation and a zoom, all in fixed point.
#[derive(Clone, Copy, Debug, PartialEq, Eq, Structural)]
pub struct Camera {
    pub target: Vector2,
    pub offset: Vector2,
    pub rotation: i64,
    pub zoom: i64,
}

/// The screen coordinate of the world coordinate `v` under a camera that
/// shows `target` at `offset` with `zoom`.
pub open spec fn screen_coordinate(v: int, target: int, zoom: int, offset: int) -> int {
    saturated(floor_div((v - target) * zoom, ONE as int) + offset)
}

/// The position on the screen of a point of the world.
pub open spec fn screen_position(entity_pos: Vector2, camera: Camera) -> Vector2 {
    Vector2 {
        x: screen_coordinate(
            entity_pos.x as int,
            camera.target.x as int,
            camera.zoom as int,
            camera.offset.x as int,
        ) as i64,
        y: screen_coordinate(
            entity_pos.y as int,
            camera.target.y as int,
            camera.zoom as int,
            camera.offset.y as int,
        ) as i64,
    }
}

fn to_screen(v: i64, target: i64, zoom: i64, offset: i64) -> (r: i64)
    ensures
        r == screen_coordinate(v as int, target as int, zoom as int, offset as int),
{
    let d: i128 = (v as i128) - (target as i128);
    proof {
        lemma_product_bound(d as int, zoom as int, 0xffff_ffff_ffff_ffff, 0x8000_0000_0000_0000);
    }
    let scaled: i128 = floor_div_i128(d * (zoom as i128), ONE as i128);
    proof {
        lemma_floor_div_magnitude(
            d * zoom,
            ONE as int,
            0xffff_ffff_ffff_ffffint * 0x8000_0000_0000_0000int,
        );
    }
    saturate(scaled + (offset as i128))
}

/// The position on the screen of a point of the world under `camera`.
pub fn entity_to_screen(entity_pos: Vector2, camera: &Camera) -> (r: Vector2)
    ensures
        r == screen_position(entity_pos, *camera),
{
    Vector2 {
        x: to_screen(entity_pos.x, camera.target.x, camera.zoom, camera.offset.x),
        y: to_screen(entity_pos.y, camera.target.y, camera.zoom, camera.offset.y),
    }
}

/// Column and row, as whole numbers in fixed point, of the tile in which a
/// point of the world lies.
pub fn entity_to_world(entity: Vector2, world: &World) -> (r: Vector2)
    requires
        world.wf(),
    ensures
        r.x == saturated((entity.x as int / world.tile_span()) * ONE),
        r.y == saturated((entity.y as int / world.tile_span()) * ONE),
{
    let ts: i128 = world.span() as i128;
    proof {
        lemma_floor_div_magnitude(entity.x as int, ts as int, 0x8000_0000_0000_0000);
        lemma_floor_div_magnitude(entity.y as int, ts as int, 0x8000_0000_0000_0000);
    }
    let col: i128 = floor_div_i128(entity.x as i128, ts);
    let row: i128 = floor_div_i128(entity.y as i128, ts);
    Vector2 { x: saturate(col * (ONE as i128)), y: saturate(row * (ONE as i128)) }
}

/// The point of the world at which the tile in column `world_pos.x` and row
/// `world_pos.y` begins.
pub fn world_to_entity(world_pos: Vector2, world: &World) -> (r: Vector2)
    requires
        world.wf(),
    ensures
        r.x == saturated(world_pos.x * world.tile_size),
        r.y == saturated(world_pos.y * world.tile_size),
{
    proof {
        lemma_product_bound(world_pos.x as int, world.tile_size as int, 0x8000_0000_0000_0000, 0x100_0000);
        lemma_product_bound(world_pos.y as int, world.tile_size as int, 0x8000_0000_0000_0000, 0x100_0000);
    }
    Vector2 {
        x: saturate((world_pos.x as i128) * (world.tile_size as i128)),
        y: saturate((world_pos.y as i128) * (world.tile_size as i128)),
    }
}

/// The edge, in fixed point, of the square that a tile kind takes up in
/// the texture atlas.
pub const ATLAS_TILE: i64 = 2097152;

/// The part of the texture atlas that shows a tile kind: stone in the left
/// half of the second row, grass in the right half of it, every other kind
/// at the top left.
pub open spec fn atlas_section(block: Blocks) -> Rectangle {
    match block {
        Blocks::STONE => Rectangle { x: 0, y: ATLAS_TILE, width: ATLAS_TILE, height: ATLAS_TILE },
        Blocks::GRASS => Rectangle { x: ATLAS_TILE, y: ATLAS_TILE, width: ATLAS_TILE, height: ATLAS_TILE },
        _ => Rectangle { x: 0, y: 0, width: ATLAS_TILE, height: ATLAS_TILE },
    }
}

/// The part of the texture atlas that shows a tile kind.
pub fn texture_section(block: Blocks) -> (r: Rectangle)
    ensures
        r == atlas_section(block),
{
    match block {
        Blocks::STONE => Rectangle { x: 0, y: ATLAS_TILE, width: ATLAS_TILE, height: ATLAS_TILE },
        Blocks::GRASS => Rectangle { x: ATLAS_TILE, y: ATLAS_TILE, width: ATLAS_TILE, height: ATLAS_TILE },
        _ => Rectangle { x: 0, y: 0, width: ATLAS_TILE, height: ATLAS_TILE },
    }
}

/// The shape that shows the tile in column `col` and row `row` under
/// `camera`: its part of the texture atlas, drawn where the tile begins on
/// the screen, as wide and as high as a tile is under the zoom.
pub open spec fn tile_shape(world: &World, camera: Camera, col: int, row: int) -> Shape
    recommends
        world.wf(),
        world.in_bounds(col, row),
{
    let corner = Vector2 { x: (col * world.tile_span()) as i64, y: (row * world.tile_span()) as i64 };
    let at = screen_position(corner, camera);
    let side = product(world.tile_span(), camera.zoom as int) as i64;
    Shape::Texture {
        source: atlas_section(world.data@[col]@[row]),
        dest: Rectangle { x: at.x, y: at.y, width: side, height: side },
        origin: Vector2 { x: 0, y: 0 },
        rotation: 0,
        tint: Color::WHITE,
    }
}

/// `shapes` show the tiles of `world` under `camera`, column after column.
pub open spec fn world_shapes(world: &World, camera: Camera, shapes: Seq<Shape>) -> bool {
    &&& shapes.len() == world.size * world.size
    &&& forall|col: int, row: int|
        0 <= col < world.size && 0 <= row < world.size ==> shapes[col * world.size + row] == #[trigger] tile_shape(
            world,
            camera,
            col,
            row,
        )
}

impl World {
    /// The shapes that show the tiles of the world under `camera`, column
    /// after column.
    pub fn render(&self, camera: &Camera) -> (shapes: Vec<Shape>)
        requires
            self.wf(),
        ensures
            world_shapes(self, *camera, shapes@),
    {
        let n: usize = self.size;
        let ts: i64 = self.span();
        let side: i64 = mul_fixed(ts, camera.zoom);
        let mut shapes: Vec<Shape> = Vec::new();
        let mut i: usize = 0;
        while i < n
            invariant
                self.wf(),
                n == self.size,
                ts == self.tile_span(),
                side == product(ts as int, camera.zoom as int),
                i <= n,
                shapes@.len() == i * n,
                forall|col: int, row: int|
                    0 <= col < i && 0 <= row < n ==> shapes@[col * n + row] == #[trigger] tile_shape(
                        self,
                        *camera,
                        col,
                        row,
                    ),
            decreases n - i,
        {
            let column = &self.data[i];
            let mut j: usize = 0;
            while j < n
                invariant
                    self.wf(),
                    n == self.size,
                    ts == self.tile_span(),
                    side == product(ts as int, camera.zoom as int),
                    i < n,
                    j <= n,
                    column@ == self.data@[i as int]@,
                    shapes@.len() == i * n + j,
                    forall|col: int, row: int|
                        0 <= col < i && 0 <= row < n ==> shapes@[col * n + row] == #[trigger] tile_shape(
                            self,
                            *camera,
                            col,
                            row,
                        ),
                    forall|row: int|
                        0 <= row < j ==> shapes@[i * n + row] == #[trigger] tile_shape(self, *camera, i as int, row),
                decreases n - j,
            {
                proof {
                    lemma_tile_corner(n as int, self.tile_size as int, ts as int, i as int);
                    lemma_tile_corner(n as int, self.tile_size as int, ts as int, j as int);
                }
                let corner = Vector2 { x: (i as i64) * ts, y: (j as i64) * ts };
                let at: Vector2 = entity_to_screen(corner, camera);
                let shape = Shape::Texture {
                    source: texture_section(column[j]),
                    dest: Rectangle { x: at.x, y: at.y, width: side, height: side },
                    origin: Vector2 { x: 0, y: 0 },
                    rotation: 0,
                    tint: Color::WHITE,
                };
                let ghost before = shapes@;
                shapes.push(shape);
                proof {
                    assert(shape == tile_shape(self, *camera, i as int, j as int));
                    assert forall|col: int, row: int| 0 <= col < i && 0 <= row < n implies shapes@[col * n + row]
                        == #[trigger] tile_shape(self, *camera, col, row) by {
                        lemma_position(n as int, col, row);
                        assert(col * n + row < i * n + j) by (nonlinear_arith)
                            requires
                                0 <= col < i,
                                0 <= row < n,
                                0 <= j,
                        ;
                        assert(shapes@[col * n + row] == before[col * n + row]);
                    }
                }
                j = j + 1;
            }
            proof {
                lemma_position(n as int, i as int, 0);
            }
            i = i + 1;
        }
        shapes
    }
}

/// The tiles of a well-formed world begin within its extent.
proof fn lemma_tile_corner(size: int, tile_size: int, span: int, index: int)
    by (nonlinear_arith)
    requires
        0 <= index < size,
        1 <= tile_size,
        size * tile_size <= 0x8000_0000,
        span == tile_size * 65536,
    ensures
        0 <= index * span <= 0x8000_0000_0000,
        index < 0x8000_0000,
{
}

/// The renderer of each view.
#[derive(Clone, Copy, Debug, PartialEq, Eq, Structural)]
pub enum RendererType {
    Editor,
    Minimap,
    FPS,
}

/// The renderer of the view on display, with the camera that it draws
/// under.
pub struct Renderer {
    pub render_t: RendererType,
    pub camera: Camera,
}

/// The radius of the circle that marks the editor: 20 pixels.
pub const EDITOR_MARK_RADIUS: i64 = 1310720;

/// Half of one in fixed point.
pub const HALF: i64 = 32768;

/// The circle that marks the editor.
pub open spec fn editor_mark() -> Shape {
    Shape::Circle { center_x: 200, center_y: 200, radius: EDITOR_MARK_RADIUS, color: Color::BLUE }
}

/// `shapes` are the frame of the editor: its mark, then the tiles of the
/// world.
pub open spec fn editor_frame(world: &World, camera: Camera, shapes: Seq<Shape>) -> bool {
    &&& shapes.len() >= 1
    &&& shapes[0] == editor_mark()
    &&& world_shapes(world, camera, shapes.subrange(1, shapes.len() as int))
}

/// `shapes` are the frame of the minimap: the tiles of the world, then the
/// player.
pub open spec fn minimap_frame<F: Fn(i64) -> Vector2>(
    state: &State,
    world: &World,
    player: &Player,
    camera: Camera,
    direction_of: &F,
    shapes: Seq<Shape>,
) -> bool {
    let tiles = world.size * world.size;
    &&& shapes.len() >= tiles
    &&& world_shapes(world, camera, shapes.subrange(0, tiles))
    &&& player_shapes(player, state, camera, world, direction_of, shapes.subrange(tiles, shapes.len() as int))
}

/// The camera of the minimap: it looks at the player, shows the player in
/// the middle of a window of `screen_width` by `screen_height` pixels, and
/// neither turns nor zooms.
pub open spec fn minimap_camera(player: &Player, screen_width: i32, screen_height: i32) -> Camera {
    Camera {
        target: player.pos,
        offset: Vector2 { x: (screen_width * HALF) as i64, y: (screen_height * HALF) as i64 },
        rotation: 0,
        zoom: ONE,
    }
}

impl Renderer {
    /// A renderer with a camera at rest: every number of it zero.
    pub fn new(renderer: RendererType) -> (r: Renderer)
        ensures
            r.render_t == renderer,
            r.camera == (Camera {
                target: Vector2 { x: 0, y: 0 },
                offset: Vector2 { x: 0, y: 0 },
                rotation: 0,
                zoom: 0,
            }),
    {
        Renderer {
            render_t: renderer,
            camera: Camera {
                target: Vector2 { x: 0, y: 0 },
                offset: Vector2 { x: 0, y: 0 },
                rotation: 0,
                zoom: 0,
            },
        }
    }

    /// The frame of the view that this renderer shows, in a window of
    /// `screen_width` by `screen_height` pixels. The minimap leaves the
    /// camera on the player; the other views leave it as it was.
    pub fn render<F: Fn(i64) -> Vector2>(
        &mut self,
        state: &State,
        world: &World,
        player: &Player,
        screen_width: i32,
        screen_height: i32,
        direction_of: &F,
    ) -> (shapes: Vec<Shape>)
        requires
            world.wf(),
            player.wf(),
            forall|angle: i64| call_requires(*direction_of, (angle,)),
        ensures
            final(self).render_t == old(self).render_t,
            match old(self).render_t {
                RendererType::Editor => {
                    &&& editor_frame(world, old(self).camera, shapes@)
                    &&& final(self).camera == old(self).camera
                },
                RendererType::Minimap => {
                    &&& minimap_frame(state, world, player, old(self).camera, direction_of, shapes@)
                    &&& final(self).camera == minimap_camera(player, screen_width, screen_height)
                },
                RendererType::FPS => {
                    &&& player_shapes(player, state, old(self).camera, world, direction_of, shapes@)
                    &&& final(self).camera == old(self).camera
                },
            },
    {
        match self.render_t {
            RendererType::Editor => REditor::render(world, &mut self.camera),
            RendererType::Minimap => RMinimap::render(
                state,
                world,
                player,
                &mut self.camera,
                screen_width,
                screen_height,
                direction_of,
            ),
            RendererType::FPS => RFPS::render(state, world, player, &mut self.camera, direction_of),
        }
    }
}

/// The renderer of the minimap.
pub struct RMinimap {}

impl RMinimap {
    /// A renderer of the minimap.
    pub fn new() -> (r: RMinimap) {
        RMinimap {  }
    }

    /// The frame of the minimap: the tiles of the world, then the player.
    /// The camera is then put on the player, in the middle of the window.
    pub fn render<F: Fn(i64) -> Vector2>(
        state: &State,
        world: &World,
        player: &Player,
        camera: &mut Camera,
        screen_width: i32,
        screen_height: i32,
        direction_of: &F,
    ) -> (shapes: Vec<Shape>)
        requires
            world.wf(),
            player.wf(),
            forall|angle: i64| call_requires(*direction_of, (angle,)),
        ensures
            minimap_frame(state, world, player, *old(camera), direction_of, shapes@),
            *final(camera) == minimap_camera(player, screen_width, screen_height),
    {
        let mut shapes: Vec<Shape> = world.render(camera);
        let mut figures: Vec<Shape> = player.render(state, camera, world, direction_of);
        proof {
            let tiles = shapes@;
            let rest = figures@;
            assert((tiles + rest).subrange(0, tiles.len() as int) =~= tiles);
            assert((tiles + rest).subrange(tiles.len() as int, (tiles + rest).len() as int) =~= rest);
        }
        shapes.append(&mut figures);
        camera.target = Vector2 { x: player.pos.x, y: player.pos.y };
        camera.offset = Vector2 { x: (screen_width as i64) * HALF, y: (screen_height as i64) * HALF };
        camera.rotation = 0;
        camera.zoom = ONE;
        shapes
    }
}

/// The renderer of the editor.
pub struct REditor {}

impl REditor {
    /// The frame of the editor: its mark, then the tiles of the world.
    pub fn render(world: &World, camera: &mut Camera) -> (shapes: Vec<Shape>)
        requires
            world.wf(),
        ensures
            editor_frame(world, *old(camera), shapes@),
            *final(camera) == *old(camera),
    {
        let mut shapes: Vec<Shape> = Vec::new();
        shapes.push(Shape::Circle { center_x: 200, center_y: 200, radius: EDITOR_MARK_RADIUS, color: Color::BLUE });
        let mut tiles: Vec<Shape> = world.render(camera);
        proof {
            let mark = shapes@;
            let rest = tiles@;
            assert((mark + rest).subrange(1, (mark + rest).len() as int) =~= rest);
        }
        shapes.append(&mut tiles);
        shapes
    }
}

/// The renderer of the first-person view.
pub struct RFPS {
    pub camera: Camera,
}

impl RFPS {
    /// The frame of the first-person view: the player in the view on
    /// display.
    pub fn render<F: Fn(i64) -> Vector2>(
        state: &State,
        world: &World,
        player: &Player,
        camera: &mut Camera,
        direction_of: &F,
    ) -> (shapes: Vec<Shape>)
        requires
            world.wf(),
            player.wf(),
            forall|angle: i64| call_requires(*direction_of, (angle,)),
        ensures
            player_shapes(player, state, *old(camera), world, direction_of, shapes@),
            *final(camera) == *old(camera),
    {
        player.render(state, camera, world, direction_of)
    }
}

} // verus!
