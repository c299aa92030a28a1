//! What holds of every cast: straight rays, open space and the order of a
//! fan.

use vstd::prelude::*;
use vstd::arithmetic::div_mod::{lemma_div_basics, lemma_div_is_ordered, lemma_fundamental_div_mod};
use vstd::arithmetic::div_mod::lemma_mod_multiples_basic;
use crate::fixed::{floor_div, lemma_floor_div_bounds, lemma_floor_div_unique, lemma_isqrt_unique};
use crate::my_ray::{along, across, place, line_index, cell_behind, crossing, crossing_cell};
use crate::my_ray::{sample_clear, sample_solid, walk_end, pass_hit, pass_point, distance, raycast};
use crate::my_ray::{fan_angle, finds_solid, Axis, MAX_STEPS, MISS_DISTANCE};
use crate::world::World;

verus! {

/// A walk whose crossings before the `k`-th all let the ray pass, and whose
/// `k`-th does not or is beyond the last that a pass examines, ends at `k`.
pub proof fn lemma_walk_ends_at(world: &World, start: (int, int), dir: (int, int), axis: Axis, from: nat, k: nat)
    requires
        from <= k <= MAX_STEPS,
        forall|j: int| from <= j < k ==> sample_clear(world, start, dir, axis, j),
        k == MAX_STEPS || !sample_clear(world, start, dir, axis, k as int),
    ensures
        walk_end(world, start, dir, axis, from) == k,
    decreases k - from,
{
    if from < k {
        assert(sample_clear(world, start, dir, axis, from as int));
        lemma_walk_ends_at(world, start, dir, axis, from + 1, k);
    }
}

/// The end of a walk: every crossing before it lets the ray pass, and the
/// walk went no further because the tile there is solid or outside the grid,
/// or because a pass examines no more crossings.
pub proof fn lemma_walk_end_is_first_stop(world: &World, start: (int, int), dir: (int, int), axis: Axis, from: nat)
    requires
        from <= MAX_STEPS,
    ensures
        from <= walk_end(world, start, dir, axis, from) <= MAX_STEPS,
        forall|j: int|
            from <= j < walk_end(world, start, dir, axis, from) ==> sample_clear(world, start, dir, axis, j),
        walk_end(world, start, dir, axis, from) == MAX_STEPS || !sample_clear(
            world,
            start,
            dir,
            axis,
            walk_end(world, start, dir, axis, from) as int,
        ),
    decreases MAX_STEPS - from,
{
    if from < MAX_STEPS && sample_clear(world, start, dir, axis, from as int) {
        lemma_walk_end_is_first_stop(world, start, dir, axis, from + 1);
    }
}

/// A crossing lies on a gridline, and less than one sub-unit from the ray:
/// measured from the start, its coordinate along the line is the one that
/// the direction gives for its distance from the start across the lines,
/// rounded down to a whole sub-unit.
pub proof fn lemma_crossing_lies_on_ray(world: &World, start: (int, int), dir: (int, int), axis: Axis, k: int)
    requires
        world.tile_span() > 0,
        along(axis, dir) != 0,
    ensures
        ({
            let point = crossing(world, start, dir, axis, k);
            let a = along(axis, point) - along(axis, start);
            let c = across(axis, point) - across(axis, start);
            let dp = along(axis, dir);
            let dq = across(axis, dir);
            &&& along(axis, point) % world.tile_span() == 0
            &&& dp > 0 ==> c * dp <= a * dq < (c + 1) * dp
            &&& dp < 0 ==> c * dp >= a * dq > (c + 1) * dp
        }),
{
    let ts = world.tile_span();
    let line = line_index(ts, along(axis, start), along(axis, dir), k);
    let a = line * ts - along(axis, start);
    lemma_floor_div_bounds(a * across(axis, dir), along(axis, dir));
    lemma_mod_multiples_basic(line, ts);
}

/// A ray that runs straight along one axis meets the lines that lie
/// across its way at its own height: the `k`-th crossing lies on the line,
/// level with the start, and the tile entered there lies in the row (or the
/// column) of the start.
pub proof fn lemma_straight_crossing(world: &World, start: (int, int), dir: (int, int), axis: Axis, k: int)
    requires
        world.tile_span() > 0,
        along(axis, dir) != 0,
        across(axis, dir) == 0,
    ensures
        crossing(world, start, dir, axis, k) == place(
            axis,
            line_index(world.tile_span(), along(axis, start), along(axis, dir), k) * world.tile_span(),
            across(axis, start),
        ),
        crossing_cell(world, start, dir, axis, k) == place(
            axis,
            cell_behind(line_index(world.tile_span(), along(axis, start), along(axis, dir), k), along(axis, dir)),
            across(axis, start) / world.tile_span(),
        ),
{
    let ts = world.tile_span();
    let a = line_index(ts, along(axis, start), along(axis, dir), k) * ts;
    let dp = along(axis, dir);
    assert((a - along(axis, start)) * 0 == 0) by (nonlinear_arith);
    lemma_div_basics(dp);
    lemma_div_basics(-dp);
    assert(floor_div(0, dp) == 0);
}

/// The distance between two points that differ in one coordinate only is
/// the difference of that coordinate.
pub proof fn lemma_distance_along_axis(axis: Axis, p: int, q: int, a: int)
    ensures
        distance(place(axis, p, q), place(axis, a, q)) == if a >= p {
            a - p
        } else {
            p - a
        },
{
    let r = if a >= p { a - p } else { p - a };
    let n = (a - p) * (a - p) + (q - q) * (q - q);
    assert(n == r * r) by (nonlinear_arith)
        requires
            r == a - p || r == p - a,
            n == (a - p) * (a - p) + (q - q) * (q - q),
    ;
    assert(r * r < (r + 1) * (r + 1)) by (nonlinear_arith)
        requires
            r >= 0,
    ;
    lemma_isqrt_unique(n as nat, r as nat);
}

/// A ray cast straight along an axis at a solid tile, with nothing but
/// tiles that let it pass before that tile, finds the tile at the distance
/// of the tile's near edge: it starts outside every solid tile, its first
/// `k` crossings let it pass, and the tile behind crossing `k` is solid.
/// The distance is then exactly the distance from the start to the gridline
/// of crossing `k`, and the point lies on that line, level with the start.
pub proof fn lemma_straight_ray_hits_near_edge(world: &World, start: (int, int), dir: (int, int), axis: Axis, k: int)
    requires
        world.tile_span() > 0,
        along(axis, dir) != 0,
        across(axis, dir) == 0,
        0 <= k < MAX_STEPS,
        !world.solid(start.0 / world.tile_span(), start.1 / world.tile_span()),
        forall|j: int| 0 <= j < k ==> sample_clear(world, start, dir, axis, j),
        sample_solid(world, start, dir, axis, k),
    ensures
        ({
            let edge = line_index(world.tile_span(), along(axis, start), along(axis, dir), k) * world.tile_span();
            &&& raycast(world, start, dir).1 == place(axis, edge, across(axis, start))
            &&& raycast(world, start, dir).0 == if along(axis, dir) > 0 {
                edge - along(axis, start)
            } else {
                along(axis, start) - edge
            }
            &&& raycast(world, start, dir).0 >= 0
        }),
{
    let ts = world.tile_span();
    let p = along(axis, start);
    let q = across(axis, start);
    let dp = along(axis, dir);
    let line = line_index(ts, p, dp, k);
    let edge = line * ts;
    let other = match axis {
        Axis::Horizontal => Axis::Vertical,
        Axis::Vertical => Axis::Horizontal,
    };
    lemma_walk_ends_at(world, start, dir, axis, 0, k as nat);
    lemma_straight_crossing(world, start, dir, axis, k);
    assert(pass_hit(world, start, dir, axis));
    assert(pass_point(world, start, dir, axis) == place(axis, edge, q));
    assert(along(other, dir) == 0);
    assert(!pass_hit(world, start, dir, other));
    assert(start == place(axis, p, q));
    lemma_distance_along_axis(axis, p, q, edge);
    // The line of crossing `k` lies ahead of the start.
    lemma_fundamental_div_mod(p, ts);
    assert(ts * (p / ts) == (p / ts) * ts) by (nonlinear_arith);
    if dp > 0 {
        assert((p / ts + 1 + k) * ts >= (p / ts) * ts + ts) by (nonlinear_arith)
            requires
                k >= 0,
                ts > 0,
        ;
    } else {
        assert((p / ts - k) * ts <= (p / ts) * ts) by (nonlinear_arith)
            requires
                k >= 0,
                ts > 0,
        ;
    }
}

/// A ray cast due east at a solid tile in its own row finds the left edge
/// of that tile: if the tiles from the one of the start up to column `col`
/// lie in the grid and let the ray pass, and the tile in column `col` is
/// solid and at most [`MAX_STEPS`] columns away, the point lies on the left
/// edge of column `col`, level with the start, and the distance is the
/// difference in `x`.
pub proof fn lemma_east_ray_hits_left_edge(world: &World, start: (int, int), dx: int, col: int)
    requires
        world.tile_span() > 0,
        dx > 0,
        start.0 / world.tile_span() < col <= start.0 / world.tile_span() + MAX_STEPS,
        forall|c: int|
            start.0 / world.tile_span() <= c < col ==> {
                &&& #[trigger] world.in_bounds(c, start.1 / world.tile_span())
                &&& !world.solid(c, start.1 / world.tile_span())
            },
        world.solid(col, start.1 / world.tile_span()),
    ensures
        raycast(world, start, (dx, 0)) == (
            col * world.tile_span() - start.0,
            (col * world.tile_span(), start.1),
        ),
{
    let ts = world.tile_span();
    let dir = (dx, 0int);
    let first = start.0 / ts;
    let row = start.1 / ts;
    let k = col - first - 1;
    assert(world.in_bounds(first, row) && !world.solid(first, row));
    assert forall|j: int| 0 <= j < k implies sample_clear(world, start, dir, Axis::Vertical, j) by {
        lemma_straight_crossing(world, start, dir, Axis::Vertical, j);
        assert(world.in_bounds(first + 1 + j, row) && !world.solid(first + 1 + j, row));
    }
    lemma_straight_crossing(world, start, dir, Axis::Vertical, k);
    lemma_straight_ray_hits_near_edge(world, start, dir, Axis::Vertical, k);
}

/// A ray into open space is a miss: if it starts outside every solid tile
/// and none of the crossings that its two passes examine leads into a solid
/// tile, the distance is [`MISS_DISTANCE`].
pub proof fn lemma_open_space_is_a_miss(world: &World, start: (int, int), dir: (int, int))
    requires
        !world.solid(start.0 / world.tile_span(), start.1 / world.tile_span()),
        forall|k: int| 0 <= k < MAX_STEPS ==> !sample_solid(world, start, dir, Axis::Horizontal, k),
        forall|k: int| 0 <= k < MAX_STEPS ==> !sample_solid(world, start, dir, Axis::Vertical, k),
    ensures
        !finds_solid(world, start, dir),
        raycast(world, start, dir).0 == MISS_DISTANCE,
{
}

/// The angles of a fan never decrease from one ray to the next, provided
/// the field of view is not negative.
pub proof fn lemma_fan_is_ordered(player_angle: int, fov: int, num_rays: int, i: int, j: int)
    requires
        num_rays >= 2,
        fov >= 0,
        0 <= i <= j < num_rays,
    ensures
        fan_angle(player_angle, fov, num_rays, i) <= fan_angle(player_angle, fov, num_rays, j),
{
    assert(i * fov <= j * fov) by (nonlinear_arith)
        requires
            0 <= i <= j,
            fov >= 0,
    ;
    lemma_div_is_ordered(i * fov, j * fov, num_rays - 1);
}

/// A fan begins half a field of view before the heading and ends a whole
/// field of view after its beginning.
pub proof fn lemma_fan_spans_field_of_view(player_angle: int, fov: int, num_rays: int)
    requires
        num_rays >= 2,
    ensures
        fan_angle(player_angle, fov, num_rays, 0) == player_angle - fov / 2,
        fan_angle(player_angle, fov, num_rays, num_rays - 1) == player_angle - fov / 2 + fov,
{
    let m = num_rays - 1;
    assert(0 * fov == 0) by (nonlinear_arith);
    lemma_div_basics(m);
    assert(m * fov == fov * m) by (nonlinear_arith);
    assert((fov + 1) * m == fov * m + m) by (nonlinear_arith);
    lemma_floor_div_unique(fov * m, m, fov);
}

} // verus!
