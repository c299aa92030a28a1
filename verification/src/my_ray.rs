//! The ray caster: a walk along the gridlines that a ray crosses, one pass for
//! the horizontal lines and one for the vertical lines, and the fan of rays
//! across a field of view.

use vstd::prelude::*;
use crate::fixed::{floor_div, floor_div_i128, floor_div_i64, isqrt, isqrt_u128, Vector2, ONE, COORD_MAX, FULL_TURN};
use crate::fixed::{lemma_floor_div_bounds, lemma_floor_div_magnitude, lemma_isqrt_bounds, lemma_product_bound};
use crate::world::{Blocks, World, MAX_TILE_SIZE};

verus! {

/// The number of gridlines that one pass examines at most.
pub const MAX_STEPS: u32 = 8;

/// The distance reported for a ray that meets no solid tile. It is larger
/// than the distance of any hit.
pub const MISS_DISTANCE: i64 = 0x7fff_ffff_ffff_ffff;

/// The largest magnitude of a coordinate between which [`dist`] measures: 2^61.
pub const DIST_COORD_MAX: i64 = 0x2000_0000_0000_0000;

/// The family of gridlines that a pass walks along.
#[derive(Clone, Copy, Debug, PartialEq, Eq, Structural)]
pub enum Axis {
    /// The lines of constant `y`, met by a ray that moves up or down.
    Horizontal,
    /// The lines of constant `x`, met by a ray that moves left or right.
    Vertical,
}

/// The coordinate of `v` in which the lines of `axis` are counted.
pub open spec fn along(axis: Axis, v: (int, int)) -> int {
    match axis {
        Axis::Horizontal => v.1,
        Axis::Vertical => v.0,
    }
}

/// The coordinate of `v` that runs along the lines of `axis`.
pub open spec fn across(axis: Axis, v: (int, int)) -> int {
    match axis {
        Axis::Horizontal => v.0,
        Axis::Vertical => v.1,
    }
}

/// The pair with `a` as the coordinate counted along `axis` and `c` as the
/// other.
pub open spec fn place(axis: Axis, a: int, c: int) -> (int, int) {
    match axis {
        Axis::Horizontal => (c, a),
        Axis::Vertical => (a, c),
    }
}

/// The number of the `k`-th gridline that is met from coordinate `p` when
/// moving with the sign of `dp`; line `n` lies at coordinate `n * ts`. Moving
/// backwards, the line that `p` may lie on counts as the first.
pub open spec fn line_index(ts: int, p: int, dp: int, k: int) -> int {
    if dp > 0 {
        p / ts + 1 + k
    } else {
        p / ts - k
    }
}

/// The number of the tile that is entered through gridline `line` when
/// moving with the sign of `dp`.
pub open spec fn cell_behind(line: int, dp: int) -> int {
    if dp > 0 {
        line
    } else {
        line - 1
    }
}

/// The point in which the ray from `start` in direction `dir` meets the
/// `k`-th line of `axis`. The coordinate along the line is rounded down to a
/// whole sub-unit.
pub open spec fn crossing(world: &World, start: (int, int), dir: (int, int), axis: Axis, k: int) -> (int, int)
    recommends
        along(axis, dir) != 0,
{
    let ts = world.tile_span();
    let a = line_index(ts, along(axis, start), along(axis, dir), k) * ts;
    let c = across(axis, start) + floor_div((a - along(axis, start)) * across(axis, dir), along(axis, dir));
    place(axis, a, c)
}

/// Column and row of the tile that the ray enters in its `k`-th crossing of
/// a line of `axis`.
pub open spec fn crossing_cell(world: &World, start: (int, int), dir: (int, int), axis: Axis, k: int) -> (int, int)
    recommends
        along(axis, dir) != 0,
{
    let ts = world.tile_span();
    let line = line_index(ts, along(axis, start), along(axis, dir), k);
    let point = crossing(world, start, dir, axis, k);
    place(axis, cell_behind(line, along(axis, dir)), across(axis, point) / ts)
}

/// The tile entered in the `k`-th crossing is solid.
pub open spec fn sample_solid(world: &World, start: (int, int), dir: (int, int), axis: Axis, k: int) -> bool {
    let cell = crossing_cell(world, start, dir, axis, k);
    world.solid(cell.0, cell.1)
}

/// The tile entered in the `k`-th crossing lies in the grid and lets the ray
/// pass.
pub open spec fn sample_clear(world: &World, start: (int, int), dir: (int, int), axis: Axis, k: int) -> bool {
    let cell = crossing_cell(world, start, dir, axis, k);
    world.in_bounds(cell.0, cell.1) && !world.solid(cell.0, cell.1)
}

/// The crossing at which a walk that has come as far as crossing `k` ends:
/// the first from `k` on whose tile is solid or outside the grid, and
/// [`MAX_STEPS`] if there is none before.
pub open spec fn walk_end(world: &World, start: (int, int), dir: (int, int), axis: Axis, k: nat) -> nat
    decreases MAX_STEPS - k,
{
    if k < MAX_STEPS && sample_clear(world, start, dir, axis, k as int) {
        walk_end(world, start, dir, axis, k + 1)
    } else {
        k
    }
}

/// The pass along `axis` finds a solid tile. A ray that runs parallel to the
/// lines of `axis` finds none.
pub open spec fn pass_hit(world: &World, start: (int, int), dir: (int, int), axis: Axis) -> bool {
    let k = walk_end(world, start, dir, axis, 0);
    along(axis, dir) != 0 && k < MAX_STEPS && sample_solid(world, start, dir, axis, k as int)
}

/// The point at which the pass along `axis` ends: the crossing at which the
/// walk ends, and `start` for a ray that runs parallel to the lines of `axis`.
pub open spec fn pass_point(world: &World, start: (int, int), dir: (int, int), axis: Axis) -> (int, int) {
    if along(axis, dir) == 0 {
        start
    } else {
        crossing(world, start, dir, axis, walk_end(world, start, dir, axis, 0) as int)
    }
}

/// The Euclidean distance between two points, rounded down to a whole
/// sub-unit.
pub open spec fn distance(a: (int, int), b: (int, int)) -> int {
    isqrt(((b.0 - a.0) * (b.0 - a.0) + (b.1 - a.1) * (b.1 - a.1)) as nat) as int
}

/// What a ray from `start` in direction `dir` finds: the distance and the
/// point.
///
/// A start inside a solid tile is a hit at distance zero. Otherwise each of
/// the two passes may find a solid tile; the nearer find wins, the one on a
/// vertical line where both are equally far. If neither finds one, the
/// distance is [`MISS_DISTANCE`] and the point is the end of the pass that
/// walked farther, the one along the vertical lines where both walked
/// equally far.
pub open spec fn raycast(world: &World, start: (int, int), dir: (int, int)) -> (int, (int, int)) {
    let ts = world.tile_span();
    let h_hit = pass_hit(world, start, dir, Axis::Horizontal);
    let v_hit = pass_hit(world, start, dir, Axis::Vertical);
    let h_point = pass_point(world, start, dir, Axis::Horizontal);
    let v_point = pass_point(world, start, dir, Axis::Vertical);
    let h_dist = distance(start, h_point);
    let v_dist = distance(start, v_point);
    if world.solid(start.0 / ts, start.1 / ts) {
        (0, start)
    } else if v_hit && (!h_hit || v_dist <= h_dist) {
        (v_dist, v_point)
    } else if h_hit {
        (h_dist, h_point)
    } else if v_dist >= h_dist {
        (MISS_DISTANCE as int, v_point)
    } else {
        (MISS_DISTANCE as int, h_point)
    }
}

/// The ray from `start` in direction `dir` finds a solid tile: it starts in
/// one, or one of its two passes meets one.
pub open spec fn finds_solid(world: &World, start: (int, int), dir: (int, int)) -> bool {
    let ts = world.tile_span();
    ||| world.solid(start.0 / ts, start.1 / ts)
    ||| pass_hit(world, start, dir, Axis::Horizontal)
    ||| pass_hit(world, start, dir, Axis::Vertical)
}

/// The Euclidean distance from `(ax, ay)` to `(bx, by)`, rounded down.
pub fn dist(ax: i64, ay: i64, bx: i64, by: i64) -> (r: i64)
    requires
        -DIST_COORD_MAX <= ax <= DIST_COORD_MAX,
        -DIST_COORD_MAX <= ay <= DIST_COORD_MAX,
        -DIST_COORD_MAX <= bx <= DIST_COORD_MAX,
        -DIST_COORD_MAX <= by <= DIST_COORD_MAX,
    ensures
        r == distance((ax as int, ay as int), (bx as int, by as int)),
        0 <= r < MISS_DISTANCE,
{
    let dx: i64 = bx - ax;
    let dy: i64 = by - ay;
    let ux: u128 = if dx < 0 { (-dx) as u128 } else { dx as u128 };
    let uy: u128 = if dy < 0 { (-dy) as u128 } else { dy as u128 };
    proof {
        assert(ux * ux == dx * dx) by (nonlinear_arith)
            requires
                ux == dx || ux == -dx,
        ;
        assert(uy * uy == dy * dy) by (nonlinear_arith)
            requires
                uy == dy || uy == -dy,
        ;
        assert(ux * ux <= 0x1000_0000_0000_0000_0000_0000_0000_0000) by (nonlinear_arith)
            requires
                ux <= 0x4000_0000_0000_0000,
        ;
        assert(uy * uy <= 0x1000_0000_0000_0000_0000_0000_0000_0000) by (nonlinear_arith)
            requires
                uy <= 0x4000_0000_0000_0000,
        ;
    }
    let n: u128 = ux * ux + uy * uy;
    let root: u64 = isqrt_u128(n);
    proof {
        lemma_isqrt_bounds(n as nat);
        assert(root < 0x7fff_ffff_ffff_ffff) by (nonlinear_arith)
            requires
                root * root <= n,
                n <= 0x2000_0000_0000_0000_0000_0000_0000_0000,
        ;
    }
    root as i64
}

/// One crossing of a gridline: the point, and column and row of the tile
/// that the ray enters there.
pub struct Crossing {
    pub point: Vector2,
    pub col: i64,
    pub row: i64,
}

/// What one pass found: whether it met a solid tile, the point at which it
/// ended, and how far from the start that point lies.
pub struct Pass {
    pub hit: bool,
    pub point: Vector2,
    pub distance: i64,
}

/// The `k`-th crossing of a line of `axis` by the ray from `start` in
/// direction `dir`.
pub fn crossing_at(world: &World, start: Vector2, dir: Vector2, axis: Axis, k: u32) -> (r: Crossing)
    requires
        world.wf(),
        start.in_range(),
        dir.is_direction(),
        along(axis, dir.pair()) != 0,
        k <= MAX_STEPS,
    ensures
        r.point.pair() == crossing(world, start.pair(), dir.pair(), axis, k as int),
        (r.col as int, r.row as int) == crossing_cell(world, start.pair(), dir.pair(), axis, k as int),
        -DIST_COORD_MAX <= r.point.x <= DIST_COORD_MAX,
        -DIST_COORD_MAX <= r.point.y <= DIST_COORD_MAX,
{
    let ts: i64 = world.span();
    let p: i64 = match axis {
        Axis::Horizontal => start.y,
        Axis::Vertical => start.x,
    };
    let q: i64 = match axis {
        Axis::Horizontal => start.x,
        Axis::Vertical => start.y,
    };
    let dp: i64 = match axis {
        Axis::Horizontal => dir.y,
        Axis::Vertical => dir.x,
    };
    let dq: i64 = match axis {
        Axis::Horizontal => dir.x,
        Axis::Vertical => dir.y,
    };
    let base: i64 = floor_div_i64(p, ts);
    proof {
        lemma_floor_div_bounds(p as int, ts as int);
        lemma_floor_div_magnitude(p as int, ts as int, COORD_MAX as int);
    }
    let steps: i64 = k as i64;
    let line: i64 = if dp > 0 { base + 1 + steps } else { base - steps };
    proof {
        lemma_line_offset(ts as int, p as int, base as int, line as int, steps as int);
    }
    let a: i64 = line * ts;
    let delta: i64 = a - p;
    proof {
        lemma_product_bound(delta as int, dq as int, 9 * MAX_TILE_SIZE * ONE, ONE as int);
    }
    let product: i64 = delta * dq;
    let offset: i64 = floor_div_i64(product, dp);
    proof {
        lemma_floor_div_magnitude(product as int, dp as int, 9 * MAX_TILE_SIZE * ONE * ONE);
    }
    let c: i64 = q + offset;
    let cell_a: i64 = if dp > 0 { line } else { line - 1 };
    let cell_c: i64 = floor_div_i64(c, ts);
    match axis {
        Axis::Horizontal => Crossing { point: Vector2 { x: c, y: a }, col: cell_c, row: cell_a },
        Axis::Vertical => Crossing { point: Vector2 { x: a, y: c }, col: cell_a, row: cell_c },
    }
}

/// A gridline at most nine tiles from the tile of `p` lies at most nine tile
/// widths from `p`.
proof fn lemma_line_offset(ts: int, p: int, base: int, line: int, steps: int)
    requires
        1 <= ts,
        base * ts <= p < (base + 1) * ts,
        0 <= steps <= 8,
        line == base + 1 + steps || line == base - steps,
    ensures
        -9 * ts <= line * ts - p <= 9 * ts,
{
    assert((base + 1) * ts == base * ts + ts) by (nonlinear_arith);
    assert((base + 1 + steps) * ts == base * ts + ts + steps * ts) by (nonlinear_arith);
    assert((base - steps) * ts == base * ts - steps * ts) by (nonlinear_arith);
    assert(0 <= steps * ts <= 8 * ts) by (nonlinear_arith)
        requires
            0 <= steps <= 8,
            1 <= ts,
    ;
}

/// The pass along the lines of `axis`: the walk from crossing to crossing
/// until a tile is solid or outside the grid, or [`MAX_STEPS`] crossings
/// have let the ray pass.
pub fn cast_pass(world: &World, start: Vector2, dir: Vector2, axis: Axis) -> (r: Pass)
    requires
        world.wf(),
        start.in_range(),
        dir.is_direction(),
    ensures
        r.hit == pass_hit(world, start.pair(), dir.pair(), axis),
        r.point.pair() == pass_point(world, start.pair(), dir.pair(), axis),
        r.distance == distance(start.pair(), r.point.pair()),
        0 <= r.distance < MISS_DISTANCE,
{
    let dp: i64 = match axis {
        Axis::Horizontal => dir.y,
        Axis::Vertical => dir.x,
    };
    if dp == 0 {
        let d: i64 = dist(start.x, start.y, start.x, start.y);
        return Pass { hit: false, point: start, distance: d };
    }
    let mut k: u32 = 0;
    let mut hit: bool = false;
    let mut stopped: bool = false;
    while k < MAX_STEPS && !stopped
        invariant
            world.wf(),
            start.in_range(),
            dir.is_direction(),
            along(axis, dir.pair()) != 0,
            k <= MAX_STEPS,
            walk_end(world, start.pair(), dir.pair(), axis, 0) == walk_end(
                world,
                start.pair(),
                dir.pair(),
                axis,
                k as nat,
            ),
            stopped ==> k < MAX_STEPS && !sample_clear(world, start.pair(), dir.pair(), axis, k as int),
            hit == (stopped && sample_solid(world, start.pair(), dir.pair(), axis, k as int)),
        decreases (MAX_STEPS - k) * 2 + (if stopped { 0int } else { 1int }),
    {
        let here: Crossing = crossing_at(world, start, dir, axis, k);
        match world.tile_at(here.col, here.row) {
            None => {
                stopped = true;
            },
            Some(Blocks::STONE) => {
                stopped = true;
                hit = true;
            },
            Some(_) => {
                k = k + 1;
            },
        }
    }
    let end: Crossing = crossing_at(world, start, dir, axis, k);
    let d: i64 = dist(start.x, start.y, end.point.x, end.point.y);
    Pass { hit, point: end.point, distance: d }
}

/// Casts one ray from `start` in direction `dir`, a cosine and a sine in
/// fixed point, and returns the distance and the point that it finds.
pub fn cast_ray(start: Vector2, dir: Vector2, world: &World) -> (r: (i64, Vector2))
    requires
        world.wf(),
        start.in_range(),
        dir.is_direction(),
    ensures
        (r.0 as int, r.1.pair()) == raycast(world, start.pair(), dir.pair()),
        finds_solid(world, start.pair(), dir.pair()) <==> r.0 < MISS_DISTANCE,
        0 <= r.0,
{
    let ts: i64 = world.span();
    let col: i64 = floor_div_i64(start.x, ts);
    let row: i64 = floor_div_i64(start.y, ts);
    if world.is_solid(col, row) {
        return (0, start);
    }
    let h: Pass = cast_pass(world, start, dir, Axis::Horizontal);
    let v: Pass = cast_pass(world, start, dir, Axis::Vertical);
    if v.hit && (!h.hit || v.distance <= h.distance) {
        (v.distance, v.point)
    } else if h.hit {
        (h.distance, h.point)
    } else if v.distance >= h.distance {
        (MISS_DISTANCE, v.point)
    } else {
        (MISS_DISTANCE, h.point)
    }
}

/// Why a cast was refused.
#[derive(Clone, Copy, Debug, PartialEq, Eq, Structural)]
pub enum CastError {
    /// A fan needs two rays at least: the step between its rays divides by
    /// their number less one.
    InvalidRayCount,
    /// A component of a direction lies outside `[-ONE, ONE]`.
    InvalidDirection,
}

/// `r` is the answer to a ray from `start` in direction `dir`: what the ray
/// finds, or the refusal of a direction that is none.
pub open spec fn ray_result(world: &World, start: Vector2, dir: Vector2, r: Result<(i64, Vector2), CastError>) -> bool {
    if dir.is_direction() {
        r matches Ok(found) && (found.0 as int, found.1.pair()) == raycast(world, start.pair(), dir.pair())
    } else {
        r == Err::<(i64, Vector2), CastError>(CastError::InvalidDirection)
    }
}

/// Casts one ray in a direction that may be none: a direction with a
/// component outside `[-ONE, ONE]` is refused.
pub fn check_ray(start: Vector2, dir: Vector2, world: &World) -> (r: Result<(i64, Vector2), CastError>)
    requires
        world.wf(),
        start.in_range(),
    ensures
        ray_result(world, start, dir, r),
{
    if dir.check_direction() {
        Ok(cast_ray(start, dir, world))
    } else {
        Err(CastError::InvalidDirection)
    }
}

/// Casts one ray from `start` at `angle`, in degrees in fixed point.
/// `direction_of` turns the angle into its cosine and sine in fixed point;
/// the ray is cast in whatever direction it returns.
pub fn raycast_dda<F: Fn(i64) -> Vector2>(start: Vector2, angle: i64, world: &World, direction_of: &F) -> (r: Result<(i64, Vector2), CastError>)
    requires
        world.wf(),
        start.in_range(),
        call_requires(*direction_of, (angle,)),
    ensures
        exists|dir: Vector2| call_ensures(*direction_of, (angle,), dir) && ray_result(world, start, dir, r),
{
    let dir: Vector2 = direction_of(angle);
    check_ray(start, dir, world)
}

/// The angle of ray `i` in a fan of `num_rays` rays that spans `fov` degrees
/// around `player_angle`: the first ray at half the field of view before
/// the heading, the last at half of it after, the others in even steps
/// between, each rounded down to a whole sub-unit.
pub open spec fn fan_angle(player_angle: int, fov: int, num_rays: int, i: int) -> int
    recommends
        num_rays >= 2,
{
    player_angle - fov / 2 + (i * fov) / (num_rays - 1)
}

/// A step of the fan lies between zero and the field of view.
pub proof fn lemma_fan_step_bounds(fov: int, num_rays: int, i: int)
    requires
        num_rays >= 2,
        0 <= i <= num_rays - 1,
    ensures
        fov >= 0 ==> 0 <= (i * fov) / (num_rays - 1) <= fov,
        fov <= 0 ==> fov <= (i * fov) / (num_rays - 1) <= 0,
{
    let m = num_rays - 1;
    let q = (i * fov) / m;
    lemma_floor_div_bounds(i * fov, m);
    assert(floor_div(i * fov, m) == q);
    if fov >= 0 {
        assert(0 <= q <= fov) by (nonlinear_arith)
            requires
                q * m <= i * fov < (q + 1) * m,
                0 <= i <= m,
                1 <= m,
                0 <= fov,
        ;
    }
    if fov <= 0 {
        assert(fov <= q <= 0) by (nonlinear_arith)
            requires
                q * m <= i * fov < (q + 1) * m,
                0 <= i <= m,
                1 <= m,
                fov <= 0,
        ;
    }
}

/// The angle of ray `i` of a fan.
pub fn fan_angle_at(player_angle: i64, fov: i64, num_rays: i32, i: i32) -> (angle: i64)
    requires
        0 <= player_angle < FULL_TURN,
        num_rays >= 2,
        0 <= i < num_rays,
    ensures
        angle == fan_angle(player_angle as int, fov as int, num_rays as int, i as int),
{
    let half: i128 = floor_div_i128(fov as i128, 2);
    proof {
        lemma_product_bound(i as int, fov as int, 0x8000_0000, 0x8000_0000_0000_0000);
        lemma_fan_step_bounds(fov as int, num_rays as int, i as int);
    }
    let step: i128 = floor_div_i128((i as i128) * (fov as i128), (num_rays - 1) as i128);
    ((player_angle as i128) - half + step) as i64
}

/// The angles of a fan of `num_rays` rays, from its left edge to its right
/// edge. A fan of fewer than two rays is refused.
pub fn fan_angles(player_angle: i64, fov: i64, num_rays: i32) -> (r: Result<Vec<i64>, CastError>)
    requires
        0 <= player_angle < FULL_TURN,
    ensures
        num_rays < 2 <==> r == Err::<Vec<i64>, CastError>(CastError::InvalidRayCount),
        num_rays >= 2 <==> r is Ok,
        r matches Ok(angles) ==> {
            &&& angles@.len() == num_rays
            &&& forall|i: int|
                0 <= i < num_rays ==> #[trigger] angles@[i] == fan_angle(
                    player_angle as int,
                    fov as int,
                    num_rays as int,
                    i,
                )
        },
{
    if num_rays < 2 {
        return Err(CastError::InvalidRayCount);
    }
    let mut angles: Vec<i64> = Vec::new();
    let mut i: i32 = 0;
    while i < num_rays
        invariant
            0 <= player_angle < FULL_TURN,
            num_rays >= 2,
            0 <= i <= num_rays,
            angles@.len() == i,
            forall|j: int|
                0 <= j < i ==> #[trigger] angles@[j] == fan_angle(
                    player_angle as int,
                    fov as int,
                    num_rays as int,
                    j,
                ),
        decreases num_rays - i,
    {
        angles.push(fan_angle_at(player_angle, fov, num_rays, i));
        i = i + 1;
    }
    Ok(angles)
}

/// Every one of `dirs` is a direction.
pub open spec fn all_directions(dirs: Seq<Vector2>) -> bool {
    forall|i: int| 0 <= i < dirs.len() ==> (#[trigger] dirs[i]).is_direction()
}

/// `found` holds, ray by ray and in the order of `dirs`, what the rays from
/// `pos` find: the distances first, the points second.
pub open spec fn fan_hits(world: &World, pos: Vector2, dirs: Seq<Vector2>, found: (Vec<i64>, Vec<Vector2>)) -> bool {
    &&& found.0@.len() == dirs.len()
    &&& found.1@.len() == dirs.len()
    &&& forall|i: int|
        0 <= i < dirs.len() ==> (#[trigger] found.0@[i] as int, found.1@[i].pair()) == raycast(
            world,
            pos.pair(),
            dirs[i].pair(),
        )
}

/// `r` is the answer to a fan of rays from `pos` in the directions `dirs`:
/// a fan of fewer than two rays is refused, then one with a direction that
/// is none; any other is cast.
pub open spec fn fan_result(world: &World, pos: Vector2, dirs: Seq<Vector2>, r: Result<(Vec<i64>, Vec<Vector2>), CastError>) -> bool {
    if dirs.len() < 2 {
        r == Err::<(Vec<i64>, Vec<Vector2>), CastError>(CastError::InvalidRayCount)
    } else if !all_directions(dirs) {
        r == Err::<(Vec<i64>, Vec<Vector2>), CastError>(CastError::InvalidDirection)
    } else {
        r matches Ok(found) && fan_hits(world, pos, dirs, found)
    }
}

/// Casts one ray from `pos` in each of the directions `dirs`, and returns
/// the distances and the points in the order of the directions.
pub fn cast_rays(pos: Vector2, dirs: &Vec<Vector2>, world: &World) -> (r: Result<(Vec<i64>, Vec<Vector2>), CastError>)
    requires
        world.wf(),
        pos.in_range(),
    ensures
        fan_result(world, pos, dirs@, r),
{
    if dirs.len() < 2 {
        return Err(CastError::InvalidRayCount);
    }
    let mut n: usize = 0;
    while n < dirs.len()
        invariant
            2 <= dirs@.len(),
            n <= dirs@.len(),
            forall|j: int| 0 <= j < n ==> (#[trigger] dirs@[j]).is_direction(),
        decreases dirs@.len() - n,
    {
        if !dirs[n].check_direction() {
            assert(!dirs@[n as int].is_direction());
            return Err(CastError::InvalidDirection);
        }
        n = n + 1;
    }
    let mut distances: Vec<i64> = Vec::new();
    let mut hit_positions: Vec<Vector2> = Vec::new();
    let mut i: usize = 0;
    while i < dirs.len()
        invariant
            world.wf(),
            pos.in_range(),
            all_directions(dirs@),
            2 <= dirs@.len(),
            i <= dirs@.len(),
            distances@.len() == i,
            hit_positions@.len() == i,
            forall|j: int|
                0 <= j < i ==> (#[trigger] distances@[j] as int, hit_positions@[j].pair()) == raycast(
                    world,
                    pos.pair(),
                    dirs@[j].pair(),
                ),
        decreases dirs@.len() - i,
    {
        let found: (i64, Vector2) = cast_ray(pos, dirs[i], world);
        distances.push(found.0);
        hit_positions.push(found.1);
        i = i + 1;
    }
    Ok((distances, hit_positions))
}

/// `dirs` holds, ray by ray, a direction that `direction_of` may return for
/// the angle of that ray of the fan.
pub open spec fn fan_directions<F: Fn(i64) -> Vector2>(direction_of: &F, player_angle: i64, fov: i64, num_rays: i32, dirs: Seq<Vector2>) -> bool {
    &&& dirs.len() == num_rays
    &&& forall|i: int|
        0 <= i < num_rays ==> call_ensures(
            *direction_of,
            (fan_angle(player_angle as int, fov as int, num_rays as int, i) as i64,),
            #[trigger] dirs[i],
        )
}

/// Casts a fan of `num_rays` rays from `pos` that spans `fov` degrees around
/// `player_angle`, and returns the distances and the points from the left
/// edge of the field of view to its right edge. `direction_of` turns an
/// angle, in degrees in fixed point, into its cosine and sine in fixed
/// point. A fan of fewer than two rays is refused before any ray is cast.
pub fn cast_fov<F: Fn(i64) -> Vector2>(pos: Vector2, player_angle: i64, fov: i64, num_rays: i32, world: &World, direction_of: &F) -> (r: Result<(Vec<i64>, Vec<Vector2>), CastError>)
    requires
        world.wf(),
        pos.in_range(),
        0 <= player_angle < FULL_TURN,
        forall|angle: i64| call_requires(*direction_of, (angle,)),
    ensures
        num_rays < 2 ==> r == Err::<(Vec<i64>, Vec<Vector2>), CastError>(CastError::InvalidRayCount),
        num_rays >= 2 ==> exists|dirs: Seq<Vector2>|
            fan_directions(direction_of, player_angle, fov, num_rays, dirs) && fan_result(world, pos, dirs, r),
{
    let angles: Vec<i64> = match fan_angles(player_angle, fov, num_rays) {
        Ok(angles) => angles,
        Err(e) => {
            return Err(e);
        },
    };
    let mut dirs: Vec<Vector2> = Vec::new();
    let mut i: usize = 0;
    while i < angles.len()
        invariant
            forall|angle: i64| call_requires(*direction_of, (angle,)),
            i <= angles@.len(),
            dirs@.len() == i,
            forall|j: int| 0 <= j < i ==> call_ensures(*direction_of, (angles@[j],), #[trigger] dirs@[j]),
        decreases angles@.len() - i,
    {
        let dir: Vector2 = direction_of(angles[i]);
        dirs.push(dir);
        i = i + 1;
    }
    let r = cast_rays(pos, &dirs, world);
    proof {
        assert(fan_directions(direction_of, player_angle, fov, num_rays, dirs@));
    }
    r
}

/// The point that a march from `start` reaches with its `n`-th step: each
/// step is two world units long, which makes it twice the direction.
pub open spec fn march_point(start: (int, int), dir: (int, int), n: int) -> (int, int) {
    (start.0 + n * (2 * dir.0), start.1 + n * (2 * dir.1))
}

/// The point `p` lies in a tile of the grid that is not solid.
pub open spec fn free(world: &World, p: (int, int)) -> bool {
    let ts = world.tile_span();
    world.in_bounds(p.0 / ts, p.1 / ts) && !world.solid(p.0 / ts, p.1 / ts)
}

/// `end` is where the march from `start` in direction `dir` ends: the
/// first of its points that lies in no free tile.
pub open spec fn march_end(world: &World, start: (int, int), dir: (int, int), end: (int, int)) -> bool {
    exists|n: int|
        {
            &&& 0 <= n
            &&& end == #[trigger] march_point(start, dir, n)
            &&& !free(world, end)
            &&& forall|j: int| 0 <= j < n ==> free(world, #[trigger] march_point(start, dir, j))
        }
}

/// Tells whether `p` lies in a tile of the grid that is not solid.
pub fn is_free(world: &World, p: Vector2) -> (r: bool)
    requires
        world.wf(),
        p.x != i64::MIN,
        p.y != i64::MIN,
    ensures
        r == free(world, p.pair()),
{
    let ts: i64 = world.span();
    let col: i64 = floor_div_i64(p.x, ts);
    let row: i64 = floor_div_i64(p.y, ts);
    match world.tile_at(col, row) {
        None => false,
        Some(Blocks::STONE) => false,
        Some(_) => true,
    }
}

/// A point in a tile of a well-formed world lies within the extent of the
/// world.
pub proof fn lemma_free_point_in_extent(world: &World, p: (int, int))
    requires
        world.wf(),
        free(world, p),
    ensures
        0 <= p.0 < world.size * world.tile_span(),
        0 <= p.1 < world.size * world.tile_span(),
        world.size * world.tile_span() <= COORD_MAX,
{
    let ts = world.tile_span();
    let n = world.size as int;
    lemma_floor_div_bounds(p.0, ts);
    lemma_floor_div_bounds(p.1, ts);
    let c = p.0 / ts;
    let r = p.1 / ts;
    assert(0 <= c * ts && (c + 1) * ts <= n * ts) by (nonlinear_arith)
        requires
            0 <= c < n,
            ts > 0,
    ;
    assert(0 <= r * ts && (r + 1) * ts <= n * ts) by (nonlinear_arith)
        requires
            0 <= r < n,
            ts > 0,
    ;
    assert(n * ts <= 0x8000_0000_0000) by (nonlinear_arith)
        requires
            n * world.tile_size <= 0x8000_0000,
            ts == world.tile_size * 65536,
    ;
}

/// Marches from `start` in direction `dir`, a cosine and a sine in fixed
/// point, in steps of two world units, and returns the first point that
/// lies in a solid tile or outside the grid.
pub fn march(start: Vector2, dir: Vector2, world: &World) -> (r: Vector2)
    requires
        world.wf(),
        start.in_range(),
        dir.is_direction(),
        dir.x != 0 || dir.y != 0,
    ensures
        march_end(world, start.pair(), dir.pair(), r.pair()),
{
    let step_x: i64 = 2 * dir.x;
    let step_y: i64 = 2 * dir.y;
    let mut ray_end: Vector2 = start;
    let ghost mut n: int = 0;
    let ghost extent: int = world.size * world.tile_span();
    let mut going: bool = is_free(world, ray_end);
    assert(march_point(start.pair(), dir.pair(), 0) == start.pair()) by (nonlinear_arith);
    while going
        invariant
            world.wf(),
            dir.is_direction(),
            step_x == 2 * dir.x,
            step_y == 2 * dir.y,
            step_x != 0 || step_y != 0,
            extent == world.size * world.tile_span(),
            0 <= n,
            ray_end.pair() == march_point(start.pair(), dir.pair(), n),
            going == free(world, ray_end.pair()),
            forall|j: int| 0 <= j < n ==> free(world, #[trigger] march_point(start.pair(), dir.pair(), j)),
        decreases
                (if !going {
                    0
                } else if step_x > 0 {
                    1 + extent - ray_end.x
                } else if step_x < 0 {
                    1 + ray_end.x
                } else if step_y > 0 {
                    1 + extent - ray_end.y
                } else {
                    1 + ray_end.y
                }),
    {
        proof {
            lemma_free_point_in_extent(world, ray_end.pair());
            assert(march_point(start.pair(), dir.pair(), n + 1) == (
                march_point(start.pair(), dir.pair(), n).0 + step_x,
                march_point(start.pair(), dir.pair(), n).1 + step_y,
            )) by (nonlinear_arith)
                requires
                    step_x == 2 * dir.x,
                    step_y == 2 * dir.y,
            ;
        }
        ray_end = Vector2 { x: ray_end.x + step_x, y: ray_end.y + step_y };
        proof {
            n = n + 1;
        }
        going = is_free(world, ray_end);
        proof {
            if going {
                lemma_free_point_in_extent(world, ray_end.pair());
            }
        }
    }
    ray_end
}

/// `r` is the answer to a march from `start` in direction `dir`: where the
/// march ends, or the refusal of a direction that is none or has no
/// length.
pub open spec fn march_result(world: &World, start: Vector2, dir: Vector2, r: Result<Vector2, CastError>) -> bool {
    if dir.is_direction() && (dir.x != 0 || dir.y != 0) {
        r matches Ok(end) && march_end(world, start.pair(), dir.pair(), end.pair())
    } else {
        r == Err::<Vector2, CastError>(CastError::InvalidDirection)
    }
}

/// Marches in a direction that may be none: a direction with a component
/// outside `[-ONE, ONE]` is refused, and so is one without length, along
/// which no march would end.
pub fn check_march(start: Vector2, dir: Vector2, world: &World) -> (r: Result<Vector2, CastError>)
    requires
        world.wf(),
        start.in_range(),
    ensures
        march_result(world, start, dir, r),
{
    if dir.check_direction() && (dir.x != 0 || dir.y != 0) {
        Ok(march(start, dir, world))
    } else {
        Err(CastError::InvalidDirection)
    }
}

/// Casts one ray from `start` at `angle`, in degrees in fixed point, by
/// marching in steps of two world units until a point lies in a solid tile
/// or outside the grid. `direction_of` turns the angle into its cosine and
/// sine in fixed point. The world is left as it is.
pub fn ray_cast_brute_force<F: Fn(i64) -> Vector2>(start: Vector2, angle: i64, world: &mut World, direction_of: &F) -> (r: Result<Vector2, CastError>)
    requires
        old(world).wf(),
        start.in_range(),
        call_requires(*direction_of, (angle,)),
    ensures
        *final(world) == *old(world),
        exists|dir: Vector2| call_ensures(*direction_of, (angle,), dir) && march_result(&*old(world), start, dir, r),
{
    let dir: Vector2 = direction_of(angle);
    check_march(start, dir, world)
}

} // verus!
