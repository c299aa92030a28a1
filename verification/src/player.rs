//! The player: a position, a heading and what the fan of rays last saw.

use vstd::prelude::*;
use crate::fixed::{clamp, clamp_to, mul_fixed, product, saturate, saturated, to_whole, whole};
use crate::fixed::{Vector2, COORD_MAX, FULL_TURN, ONE};
use crate::my_ray::{all_directions, cast_fov, fan_directions, fan_hits, CastError};
use crate::projection::{angle_offset, angle_offset_at, project, wall_slice};
use crate::render::{entity_to_screen, screen_position, Camera, Color, Shape};
use crate::state::State;
use crate::world::World;

verus! {

/// The number of rays in the player's fan.
pub const NUM_RAYS: i32 = 60;

/// The player's field of view: 60 degrees.
pub const FOV: i64 = 3932160;

/// The angle of one turn to the left or to the right: 10 degrees.
pub const TURN_STEP: i64 = 655360;

/// The change of the zoom in one step: a twentieth, rounded up to a whole
/// sub-unit.
pub const ZOOM_STEP: i64 = 3277;

/// The length of the line that shows the heading on the minimap: 25 world
/// units.
pub const DIRECTION_LINE: i64 = 1638400;

/// The radius of the circle that shows the player on the minimap, before
/// the zoom: 5 world units.
pub const PLAYER_RADIUS: i64 = 327680;

/// The thickness of a line on the minimap: 2 pixels.
pub const LINE_THICKNESS: i64 = 131072;

/// Where a new player stands, along either axis: 256 world units.
pub const START: i64 = 16777216;

/// The velocity of a new player: 10 world units in a frame.
pub const VELOCITY: i64 = 655360;

/// What the player asks for in one frame.
#[derive(Clone, Copy, Debug, PartialEq, Eq, Structural)]
pub struct Intents {
    pub forward: bool,
    pub turn_left: bool,
    pub back: bool,
    pub turn_right: bool,
    pub zoom_out: bool,
    pub zoom_in: bool,
    pub view_minimap: bool,
    pub view_editor: bool,
    pub view_fps: bool,
    pub reload: bool,
}

impl Intents {
    /// The intents ask for a move or a turn: for something that changes what
    /// the rays see.
    pub open spec fn changes_pose(self) -> bool {
        self.forward || self.turn_left || self.back || self.turn_right
    }

    /// No intent at all.
    pub fn none() -> (r: Intents)
        ensures
            r == (Intents {
                forward: false,
                turn_left: false,
                back: false,
                turn_right: false,
                zoom_out: false,
                zoom_in: false,
                view_minimap: false,
                view_editor: false,
                view_fps: false,
                reload: false,
            }),
    {
        Intents {
            forward: false,
            turn_left: false,
            back: false,
            turn_right: false,
            zoom_out: false,
            zoom_in: false,
            view_minimap: false,
            view_editor: false,
            view_fps: false,
            reload: false,
        }
    }
}

/// A coordinate after a frame: a step forward adds the product of the
/// direction and the velocity, a step back takes it away, and neither
/// leaves the range of coordinates.
pub open spec fn moved(pos: int, direction: int, velocity: int, forward: bool, back: bool) -> int {
    let step = product(direction, velocity);
    let ahead = if forward {
        clamp(pos + step, -COORD_MAX as int, COORD_MAX as int)
    } else {
        pos
    };
    if back {
        clamp(ahead - step, -COORD_MAX as int, COORD_MAX as int)
    } else {
        ahead
    }
}

/// The heading after a frame: a turn to the left takes [`TURN_STEP`] away,
/// a turn to the right adds it, and the result is brought back into a full
/// turn.
pub open spec fn turned(angle: int, left: bool, right: bool) -> int {
    let raw = angle - (if left {
        TURN_STEP as int
    } else {
        0
    }) + (if right {
        TURN_STEP as int
    } else {
        0
    });
    if raw >= FULL_TURN {
        raw - FULL_TURN
    } else if raw < 0 {
        raw + FULL_TURN
    } else {
        raw
    }
}

/// The zoom after a frame: zooming out takes [`ZOOM_STEP`] away, zooming in
/// adds it.
pub open spec fn zoomed(zoom: int, out: bool, inward: bool) -> int {
    let less = if out {
        saturated(zoom - ZOOM_STEP)
    } else {
        zoom
    };
    if inward {
        saturated(less + ZOOM_STEP)
    } else {
        less
    }
}

/// The view after a frame: the first-person view if it is asked for, else
/// the editor if it is, else the minimap if it is, else the view as it was.
pub open spec fn switched(view: crate::state::View, intents: Intents) -> crate::state::View {
    if intents.view_fps {
        crate::state::View::FPS
    } else if intents.view_editor {
        crate::state::View::Editor
    } else if intents.view_minimap {
        crate::state::View::Minimap
    } else {
        view
    }
}

/// What the player sees after a cast of the fan in the directions `dirs`
/// from `pos`: what the rays find, or what the player saw `before` if one
/// of the directions is none.
pub open spec fn seen(
    world: &World,
    pos: Vector2,
    dirs: Seq<Vector2>,
    before: (Vec<i64>, Vec<Vector2>),
    after: (Vec<i64>, Vec<Vector2>),
) -> bool {
    if all_directions(dirs) {
        fan_hits(world, pos, dirs, after)
    } else {
        after == before
    }
}

/// The line that shows the heading of a player at `pos` on the minimap:
/// from the player [`DIRECTION_LINE`] far along `direction`, in red, twice
/// as thick as the zoom.
pub open spec fn direction_line(pos: Vector2, direction: Vector2, camera: Camera) -> Shape {
    let tip = Vector2 {
        x: saturated(pos.x + product(direction.x as int, DIRECTION_LINE as int)) as i64,
        y: saturated(pos.y + product(direction.y as int, DIRECTION_LINE as int)) as i64,
    };
    Shape::Line {
        start: screen_position(pos, camera),
        end: screen_position(tip, camera),
        thick: product(LINE_THICKNESS as int, camera.zoom as int) as i64,
        color: Color::RED,
    }
}

/// The circle that shows a player at `pos` on the minimap.
pub open spec fn player_circle(pos: Vector2, camera: Camera) -> Shape {
    Shape::Circle {
        center_x: whole(screen_position(pos, camera).x as int) as i32,
        center_y: whole(screen_position(pos, camera).y as int) as i32,
        radius: product(PLAYER_RADIUS as int, camera.zoom as int) as i64,
        color: Color::RED,
    }
}

/// The line that shows on the minimap a ray from `pos` that ended at `end`.
pub open spec fn ray_line(pos: Vector2, end: Vector2, camera: Camera) -> Shape {
    Shape::Line {
        start: screen_position(pos, camera),
        end: screen_position(end, camera),
        thick: LINE_THICKNESS,
        color: Color::BLUE,
    }
}

/// The cosine to correct a distance with: the first component of what the
/// trigonometry returned, or one where that is no direction.
pub open spec fn cosine_of(dir: Vector2) -> int {
    if dir.is_direction() {
        dir.x as int
    } else {
        ONE as int
    }
}

/// The slices of wall that the first `n` rays show, from left to right.
/// `dirs` holds for each ray what the trigonometry returned for its angle
/// to the heading.
pub open spec fn wall_slices(
    distances: Seq<i64>,
    dirs: Seq<Vector2>,
    screen_width: int,
    screen_height: int,
    tile_span: int,
    n: nat,
) -> Seq<Shape>
    decreases n,
{
    if n == 0 {
        Seq::empty()
    } else {
        let before = wall_slices(distances, dirs, screen_width, screen_height, tile_span, (n - 1) as nat);
        match wall_slice(
            n - 1,
            distances.len() as int,
            distances[n - 1] as int,
            cosine_of(dirs[n - 1]),
            screen_width,
            screen_height,
            tile_span,
        ) {
            Some(slice) => before.push(slice),
            None => before,
        }
    }
}

/// `dirs` holds, ray by ray, what `direction_of` may return for the angle
/// between the heading and that ray of `ray_count` rays.
pub open spec fn offset_directions<F: Fn(i64) -> Vector2>(direction_of: &F, ray_count: int, dirs: Seq<Vector2>) -> bool {
    &&& dirs.len() == ray_count
    &&& forall|i: int|
        0 <= i < ray_count ==> call_ensures(
            *direction_of,
            (angle_offset(i, ray_count, FOV as int) as i64,),
            #[trigger] dirs[i],
        )
}

/// `shapes` show `player` on the minimap under `camera`: the line of the
/// heading, the circle of the player, and one line for each ray of the fan,
/// from the player to the point where the ray ended.
pub open spec fn minimap_shapes(player: &Player, camera: Camera, shapes: Seq<Shape>) -> bool {
    &&& shapes.len() == 2 + player.distances.1@.len()
    &&& shapes[0] == direction_line(player.pos, player.direction, camera)
    &&& shapes[1] == player_circle(player.pos, camera)
    &&& forall|i: int|
        0 <= i < player.distances.1@.len() ==> #[trigger] shapes[2 + i] == ray_line(
            player.pos,
            player.distances.1@[i],
            camera,
        )
}

/// `shapes` show what `player` sees in the first-person view: the slices of
/// wall of the rays, from left to right, each distance corrected by a
/// cosine that `direction_of` may return for the angle of the ray to the
/// heading.
pub open spec fn fps_shapes<F: Fn(i64) -> Vector2>(
    player: &Player,
    state: &State,
    world: &World,
    direction_of: &F,
    shapes: Seq<Shape>,
) -> bool {
    exists|dirs: Seq<Vector2>|
        offset_directions(direction_of, player.distances.0@.len() as int, dirs) && shapes == wall_slices(
            player.distances.0@,
            dirs,
            state.screen_width as int,
            state.screen_height as int,
            world.tile_span(),
            player.distances.0@.len(),
        )
}

/// `shapes` show `player` in the view on display: the slices of wall in
/// the first-person view, the minimap in every other.
pub open spec fn player_shapes<F: Fn(i64) -> Vector2>(
    player: &Player,
    state: &State,
    camera: Camera,
    world: &World,
    direction_of: &F,
    shapes: Seq<Shape>,
) -> bool {
    if state.view == crate::state::View::FPS {
        fps_shapes(player, state, world, direction_of, shapes)
    } else {
        minimap_shapes(player, camera, shapes)
    }
}

/// One frame takes the player from `before` to `after`, and camera and
/// state with it: the moves, turns, zooms and switches of view that
/// `intents` ask for; the direction that `direction_of` returns for the new
/// heading, if it is one; and, after a move or a turn, what a new cast of
/// the fan finds.
pub open spec fn frame<F: Fn(i64) -> Vector2>(
    before: Player,
    after: Player,
    camera_before: Camera,
    camera_after: Camera,
    state_before: State,
    state_after: State,
    world: &World,
    intents: Intents,
    direction_of: &F,
) -> bool {
    &&& after.pos.x == moved(
        before.pos.x as int,
        before.direction.x as int,
        before.velocity as int,
        intents.forward,
        intents.back,
    )
    &&& after.pos.y == moved(
        before.pos.y as int,
        before.direction.y as int,
        before.velocity as int,
        intents.forward,
        intents.back,
    )
    &&& after.angle == turned(before.angle as int, intents.turn_left, intents.turn_right)
    &&& after.velocity == before.velocity
    &&& camera_after == (Camera {
        target: after.pos,
        zoom: zoomed(camera_before.zoom as int, intents.zoom_out, intents.zoom_in) as i64,
        ..camera_before
    })
    &&& state_after == (State { view: switched(state_before.view, intents), ..state_before })
    &&& exists|dir: Vector2|
        call_ensures(*direction_of, (after.angle,), dir) && after.direction == if dir.is_direction() {
            dir
        } else {
            before.direction
        }
    &&& !intents.changes_pose() ==> after.distances == before.distances
    &&& intents.changes_pose() ==> exists|dirs: Seq<Vector2>|
        fan_directions(direction_of, after.angle, FOV, NUM_RAYS, dirs) && seen(
            world,
            after.pos,
            dirs,
            before.distances,
            after.distances,
        )
}

/// The player of the game.
pub struct Player {
    pub pos: Vector2,
    pub velocity: i64,
    /// The cosine and the sine of the heading.
    pub direction: Vector2,
    pub angle: i64,
    /// What the fan of rays last saw: the distances, and the points.
    pub distances: (Vec<i64>, Vec<Vector2>),
}

fn step_coordinate(pos: i64, direction: i64, velocity: i64, forward: bool, back: bool) -> (r: i64)
    requires
        -COORD_MAX <= pos <= COORD_MAX,
    ensures
        r == moved(pos as int, direction as int, velocity as int, forward, back),
        -COORD_MAX <= r <= COORD_MAX,
{
    let step: i64 = mul_fixed(direction, velocity);
    let ahead: i64 = if forward {
        clamp_to((pos as i128) + (step as i128), -COORD_MAX, COORD_MAX)
    } else {
        pos
    };
    if back {
        clamp_to((ahead as i128) - (step as i128), -COORD_MAX, COORD_MAX)
    } else {
        ahead
    }
}

impl Player {
    /// The position lies in the range of coordinates, the heading within a
    /// full turn, and the fan saw as many points as distances.
    pub open spec fn wf(&self) -> bool {
        &&& self.pos.in_range()
        &&& 0 <= self.angle < FULL_TURN
        &&& self.distances.0@.len() == self.distances.1@.len()
        &&& self.distances.0@.len() <= i32::MAX
    }

    /// Tells whether the player is well-formed.
    pub fn check(&self) -> (ok: bool)
        ensures
            ok == self.wf(),
    {
        self.pos.check_range() && 0 <= self.angle && self.angle < FULL_TURN && self.distances.0.len()
            == self.distances.1.len() && self.distances.0.len() <= 0x7fff_ffff
    }

    /// The player after the moves, turns, zooms and switches of view that
    /// `intents` ask for; `camera` follows the player. Direction and
    /// distances are left as they were.
    pub fn step(&mut self, camera: &mut Camera, state: &mut State, intents: &Intents)
        requires
            old(self).wf(),
        ensures
            final(self).wf(),
            final(self).pos.x == moved(
                old(self).pos.x as int,
                old(self).direction.x as int,
                old(self).velocity as int,
                intents.forward,
                intents.back,
            ),
            final(self).pos.y == moved(
                old(self).pos.y as int,
                old(self).direction.y as int,
                old(self).velocity as int,
                intents.forward,
                intents.back,
            ),
            final(self).angle == turned(old(self).angle as int, intents.turn_left, intents.turn_right),
            final(self).velocity == old(self).velocity,
            final(self).direction == old(self).direction,
            final(self).distances == old(self).distances,
            *final(camera) == (Camera {
                target: final(self).pos,
                zoom: zoomed(old(camera).zoom as int, intents.zoom_out, intents.zoom_in) as i64,
                ..*old(camera)
            }),
            *final(state) == (State { view: switched(old(state).view, *intents), ..*old(state) }),
    {
        self.pos.x = step_coordinate(self.pos.x, self.direction.x, self.velocity, intents.forward, intents.back);
        self.pos.y = step_coordinate(self.pos.y, self.direction.y, self.velocity, intents.forward, intents.back);
        if intents.turn_left {
            self.angle = self.angle - TURN_STEP;
        }
        if intents.turn_right {
            self.angle = self.angle + TURN_STEP;
        }
        if self.angle >= FULL_TURN {
            self.angle = self.angle - FULL_TURN;
        }
        if self.angle < 0 {
            self.angle = self.angle + FULL_TURN;
        }
        if intents.zoom_out {
            camera.zoom = saturate((camera.zoom as i128) - (ZOOM_STEP as i128));
        }
        if intents.zoom_in {
            camera.zoom = saturate((camera.zoom as i128) + (ZOOM_STEP as i128));
        }
        if intents.view_minimap {
            state.change_view(crate::state::View::Minimap);
        }
        if intents.view_editor {
            state.change_view(crate::state::View::Editor);
        }
        if intents.view_fps {
            state.change_view(crate::state::View::FPS);
        }
        camera.target.x = self.pos.x;
        camera.target.y = self.pos.y;
    }

    /// Takes `direction` as the new direction if it is one, and leaves the
    /// old direction if it is none.
    pub fn look(&mut self, direction: Vector2)
        ensures
            *final(self) == (Player {
                direction: if direction.is_direction() {
                    direction
                } else {
                    old(self).direction
                },
                ..*old(self)
            }),
    {
        if direction.check_direction() {
            self.direction = direction;
        }
    }

    /// Takes what a cast of the fan found as what the player sees, and
    /// leaves what the player saw if the cast was refused.
    pub fn see(&mut self, cast: Result<(Vec<i64>, Vec<Vector2>), CastError>)
        ensures
            match cast {
                Ok(found) => *final(self) == (Player { distances: found, ..*old(self) }),
                Err(_) => *final(self) == *old(self),
            },
    {
        match cast {
            Ok(found) => {
                self.distances = found;
            },
            Err(_) => {},
        }
    }

    /// A player at 256 world units from either edge, heading along the
    /// x-axis at a velocity of 10 world units, who has not looked anywhere
    /// yet and sees what the fan finds from there; nothing, if the
    /// trigonometry returns what is no direction.
    pub fn new<F: Fn(i64) -> Vector2>(world: &World, direction_of: &F) -> (p: Player)
        requires
            world.wf(),
            forall|angle: i64| call_requires(*direction_of, (angle,)),
        ensures
            p.wf(),
            p.pos == (Vector2 { x: START, y: START }),
            p.angle == 0,
            p.velocity == VELOCITY,
            p.direction == (Vector2 { x: 0, y: 0 }),
            exists|dirs: Seq<Vector2>|
                fan_directions(direction_of, 0, FOV, NUM_RAYS, dirs) && if all_directions(dirs) {
                    fan_hits(world, p.pos, dirs, p.distances)
                } else {
                    p.distances.0@.len() == 0 && p.distances.1@.len() == 0
                },
    {
        let pos = Vector2 { x: START, y: START };
        let angle: i64 = 0;
        let distances: (Vec<i64>, Vec<Vector2>) = match cast_fov(pos, angle, FOV, NUM_RAYS, world, direction_of) {
            Ok(found) => found,
            Err(_) => (Vec::new(), Vec::new()),
        };
        Player { pos, angle, velocity: VELOCITY, direction: Vector2 { x: 0, y: 0 }, distances }
    }

    /// One frame of the player: the moves, turns, zooms and switches of view
    /// that `intents` ask for, then the new direction from the new heading,
    /// then, after a move or a turn, a new cast of the fan. `direction_of`
    /// turns an angle, in degrees in fixed point, into its cosine and sine
    /// in fixed point.
    pub fn input_update<F: Fn(i64) -> Vector2>(
        &mut self,
        camera: &mut Camera,
        state: &mut State,
        world: &World,
        intents: &Intents,
        direction_of: &F,
    )
        requires
            old(self).wf(),
            world.wf(),
            forall|angle: i64| call_requires(*direction_of, (angle,)),
        ensures
            final(self).wf(),
            frame(
                *old(self),
                *final(self),
                *old(camera),
                *final(camera),
                *old(state),
                *final(state),
                world,
                *intents,
                direction_of,
            ),
    {
        self.step(camera, state, intents);
        let dir: Vector2 = direction_of(self.angle);
        self.look(dir);
        if intents.forward || intents.turn_left || intents.back || intents.turn_right {
            let cast = cast_fov(self.pos, self.angle, FOV, NUM_RAYS, world, direction_of);
            self.see(cast);
        }
    }

    /// The line that shows the heading on the minimap.
    pub fn draw_direction_line(&self, camera: &Camera) -> (line: Shape)
        ensures
            line == direction_line(self.pos, self.direction, *camera),
    {
        let tip = Vector2 {
            x: saturate((self.pos.x as i128) + (mul_fixed(self.direction.x, DIRECTION_LINE) as i128)),
            y: saturate((self.pos.y as i128) + (mul_fixed(self.direction.y, DIRECTION_LINE) as i128)),
        };
        Shape::Line {
            start: entity_to_screen(self.pos, camera),
            end: entity_to_screen(tip, camera),
            thick: mul_fixed(LINE_THICKNESS, camera.zoom),
            color: Color::RED,
        }
    }

    /// The player on the minimap: the line of the heading, the circle of
    /// the player, and one line for each ray of the fan, from the player to
    /// the point where the ray ended.
    pub fn render_minimap(&self, camera: &Camera) -> (shapes: Vec<Shape>)
        ensures
            minimap_shapes(self, *camera, shapes@),
    {
        let mut shapes: Vec<Shape> = Vec::new();
        shapes.push(self.draw_direction_line(camera));
        let at: Vector2 = entity_to_screen(self.pos, camera);
        shapes.push(
            Shape::Circle {
                center_x: to_whole(at.x),
                center_y: to_whole(at.y),
                radius: mul_fixed(PLAYER_RADIUS, camera.zoom),
                color: Color::RED,
            },
        );
        let mut i: usize = 0;
        while i < self.distances.1.len()
            invariant
                i <= self.distances.1@.len(),
                shapes@.len() == 2 + i,
                shapes@[0] == direction_line(self.pos, self.direction, *camera),
                shapes@[1] == player_circle(self.pos, *camera),
                forall|j: int|
                    0 <= j < i ==> #[trigger] shapes@[2 + j] == ray_line(self.pos, self.distances.1@[j], *camera),
            decreases self.distances.1@.len() - i,
        {
            let ray_start_screen: Vector2 = entity_to_screen(self.pos, camera);
            let ray_end_screen: Vector2 = entity_to_screen(self.distances.1[i], camera);
            shapes.push(
                Shape::Line {
                    start: ray_start_screen,
                    end: ray_end_screen,
                    thick: LINE_THICKNESS,
                    color: Color::BLUE,
                },
            );
            i = i + 1;
        }
        shapes
    }

    /// The first-person view: one slice of wall for each ray that met a
    /// solid tile, from left to right. The distance of a ray is corrected
    /// by the cosine of its angle to the heading, which `direction_of`
    /// gives; where it returns what is no direction, the distance stays as
    /// it is.
    pub fn render_fps<F: Fn(i64) -> Vector2>(&self, state: &State, world: &World, direction_of: &F) -> (shapes: Vec<
        Shape,
    >)
        requires
            self.wf(),
            world.wf(),
            forall|angle: i64| call_requires(*direction_of, (angle,)),
        ensures
            fps_shapes(self, state, world, direction_of, shapes@),
    {
        let num_rays: usize = self.distances.0.len();
        let mut shapes: Vec<Shape> = Vec::new();
        let ghost mut dirs: Seq<Vector2> = Seq::empty();
        let mut i: usize = 0;
        while i < num_rays
            invariant
                self.wf(),
                world.wf(),
                forall|angle: i64| call_requires(*direction_of, (angle,)),
                num_rays == self.distances.0@.len(),
                i <= num_rays,
                dirs.len() == i,
                forall|j: int|
                    0 <= j < i ==> call_ensures(
                        *direction_of,
                        (angle_offset(j, num_rays as int, FOV as int) as i64,),
                        #[trigger] dirs[j],
                    ),
                shapes@ == wall_slices(
                    self.distances.0@,
                    dirs,
                    state.screen_width as int,
                    state.screen_height as int,
                    world.tile_span(),
                    i as nat,
                ),
            decreases num_rays - i,
        {
            let offset: i64 = angle_offset_at(i as i32, num_rays as i32, FOV);
            let dir: Vector2 = direction_of(offset);
            let cosine: i64 = if dir.check_direction() { dir.x } else { ONE };
            let slice: Option<Shape> = project(
                i as i32,
                num_rays as i32,
                self.distances.0[i],
                cosine,
                state.screen_width,
                state.screen_height,
                world,
            );
            proof {
                let longer = dirs.push(dir);
                lemma_wall_slices_prefix(
                    self.distances.0@,
                    dirs,
                    longer,
                    state.screen_width as int,
                    state.screen_height as int,
                    world.tile_span(),
                    i as nat,
                );
                dirs = longer;
            }
            match slice {
                Some(shape) => {
                    shapes.push(shape);
                },
                None => {},
            }
            i = i + 1;
        }
        proof {
            assert(offset_directions(direction_of, num_rays as int, dirs));
        }
        shapes
    }

    /// The player in the view on display: the slices of wall in the
    /// first-person view, the minimap in every other.
    pub fn render<F: Fn(i64) -> Vector2>(&self, state: &State, camera: &Camera, world: &World, direction_of: &F) -> (shapes: Vec<
        Shape,
    >)
        requires
            self.wf(),
            world.wf(),
            forall|angle: i64| call_requires(*direction_of, (angle,)),
        ensures
            player_shapes(self, state, *camera, world, direction_of, shapes@),
    {
        match state.view {
            crate::state::View::FPS => self.render_fps(state, world, direction_of),
            _ => self.render_minimap(camera),
        }
    }
}

/// The slices of the first `n` rays do not depend on the directions of the
/// rays after them.
pub proof fn lemma_wall_slices_prefix(
    distances: Seq<i64>,
    dirs: Seq<Vector2>,
    longer: Seq<Vector2>,
    screen_width: int,
    screen_height: int,
    tile_span: int,
    n: nat,
)
    requires
        n <= dirs.len() <= longer.len(),
        forall|j: int| 0 <= j < dirs.len() ==> dirs[j] == longer[j],
    ensures
        wall_slices(distances, dirs, screen_width, screen_height, tile_span, n) == wall_slices(
            distances,
            longer,
            screen_width,
            screen_height,
            tile_span,
            n,
        ),
    decreases n,
{
    if n > 0 {
        lemma_wall_slices_prefix(distances, dirs, longer, screen_width, screen_height, tile_span, (n - 1) as nat);
    }
}

} // verus!
