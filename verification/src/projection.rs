//! From the distance that a ray reports to the slice of wall that shows it
//! in the first-person view.

use vstd::prelude::*;
use crate::fixed::{clamp, floor_div_i128, lemma_floor_div_magnitude, lemma_product_bound};
use crate::fixed::{mul_fixed, product, trunc_div, trunc_div_i128, clamp_to};
use crate::my_ray::{lemma_fan_step_bounds, MISS_DISTANCE};
use crate::render::{Color, Shape};
use crate::world::World;

verus! {

/// The angle between the heading and ray `i` of `ray_count` rays across a
/// field of view of `fov`: the `i`-th part of the field of view, less half
/// of it.
pub open spec fn angle_offset(i: int, ray_count: int, fov: int) -> int
    recommends
        ray_count > 0,
{
    (i * fov) / ray_count - fov / 2
}

/// The height in pixels of the wall that a ray shows: the height of the
/// screen times the width of a tile, divided by the distance, rounded down
/// and narrowed to an `i32`.
pub open spec fn wall_height(screen_height: int, tile_span: int, corrected: int) -> int
    recommends
        corrected > 0,
{
    clamp((screen_height * tile_span) / corrected, i32::MIN as int, i32::MAX as int)
}

/// The slice of wall that shows ray `i` of `ray_count`, if it shows one.
///
/// `raw` is the distance that the ray reports and `cosine` the cosine of
/// its angle to the heading; their product is the distance along the
/// heading. A ray that met nothing shows no wall, nor does one whose
/// distance along the heading is not positive. The slice is as wide as the
/// screen divided by the number of rays, begins as many widths from the
/// left as the ray's number says, and is centred between top and bottom.
pub open spec fn wall_slice(
    i: int,
    ray_count: int,
    raw: int,
    cosine: int,
    screen_width: int,
    screen_height: int,
    tile_span: int,
) -> Option<Shape>
    recommends
        0 <= i < ray_count,
{
    let corrected = product(raw, cosine);
    if raw >= MISS_DISTANCE || corrected <= 0 {
        None
    } else {
        let height = wall_height(screen_height, tile_span, corrected);
        let width = trunc_div(screen_width, ray_count);
        Some(
            Shape::Rect {
                x: (i * width) as i32,
                y: clamp(trunc_div(screen_height - height, 2), i32::MIN as int, i32::MAX as int) as i32,
                width: width as i32,
                height: height as i32,
                color: Color::BLUE,
            },
        )
    }
}

/// The angle between the heading and ray `i` of `ray_count` rays.
pub fn angle_offset_at(i: i32, ray_count: i32, fov: i64) -> (r: i64)
    requires
        0 <= i < ray_count,
    ensures
        r == angle_offset(i as int, ray_count as int, fov as int),
{
    let half: i128 = floor_div_i128(fov as i128, 2);
    proof {
        lemma_product_bound(i as int, fov as int, 0x8000_0000, 0x8000_0000_0000_0000);
        lemma_part_of_field(fov as int, ray_count as int, i as int);
    }
    let part: i128 = floor_div_i128((i as i128) * (fov as i128), ray_count as i128);
    (part - half) as i64
}

/// A part of the field of view lies between zero and the field of view.
proof fn lemma_part_of_field(fov: int, ray_count: int, i: int)
    requires
        0 <= i < ray_count,
    ensures
        fov >= 0 ==> 0 <= (i * fov) / ray_count <= fov,
        fov <= 0 ==> fov <= (i * fov) / ray_count <= 0,
{
    lemma_fan_step_bounds(fov, ray_count + 1, i);
}

/// The slice of wall that shows ray `i` of `ray_count`, if it shows one.
pub fn project(
    i: i32,
    ray_count: i32,
    raw: i64,
    cosine: i64,
    screen_width: i32,
    screen_height: i32,
    world: &World,
) -> (r: Option<Shape>)
    requires
        0 <= i < ray_count,
        world.wf(),
    ensures
        r == wall_slice(
            i as int,
            ray_count as int,
            raw as int,
            cosine as int,
            screen_width as int,
            screen_height as int,
            world.tile_span(),
        ),
{
    let corrected: i64 = mul_fixed(raw, cosine);
    if raw >= MISS_DISTANCE || corrected <= 0 {
        return None;
    }
    let ts: i64 = world.span();
    proof {
        lemma_product_bound(screen_height as int, ts as int, 0x8000_0000, 0x100_0000_0000);
        lemma_floor_div_magnitude(screen_height * ts, corrected as int, 0x8000_0000int * 0x100_0000_0000int);
    }
    let ratio: i128 = floor_div_i128((screen_height as i128) * (ts as i128), corrected as i128);
    let height: i64 = clamp_to(ratio, i32::MIN as i64, i32::MAX as i64);
    let width: i128 = trunc_div_i128(screen_width as i128, ray_count as i128);
    proof {
        lemma_column(i as int, ray_count as int, screen_width as int, width as int);
    }
    let x: i128 = (i as i128) * width;
    let top: i128 = trunc_div_i128((screen_height as i128) - (height as i128), 2);
    let y: i64 = clamp_to(top, i32::MIN as i64, i32::MAX as i64);
    Some(Shape::Rect { x: x as i32, y: y as i32, width: width as i32, height: height as i32, color: Color::BLUE })
}

/// The slices of a screen divided among its rays begin on the screen.
proof fn lemma_column(i: int, ray_count: int, screen_width: int, width: int)
    by (nonlinear_arith)
    requires
        0 <= i < ray_count,
        screen_width >= 0 ==> 0 <= width && width * ray_count <= screen_width,
        screen_width <= 0 ==> width <= 0 && width * ray_count >= screen_width,
    ensures
        screen_width >= 0 ==> 0 <= i * width <= screen_width,
        screen_width <= 0 ==> screen_width <= i * width <= 0,
{
}

} // verus!
