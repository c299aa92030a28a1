use raycaster::fixed::{Vector2, ONE};
use raycaster::my_ray::{cast_fov, cast_ray, cast_rays, fan_angle_at, fan_angles, CastError, MISS_DISTANCE};
use raycaster::world::{Blocks, World};

fn degrees(n: i64) -> i64 {
    n * ONE
}

fn trig(angle: i64) -> Vector2 {
    let radians = (angle as f64 / 65536.0).to_radians();
    Vector2::new((radians.cos() * 65536.0).round() as i64, (radians.sin() * 65536.0).round() as i64)
}

fn walled_world() -> World {
    let mut world = World::new();
    for row in 0..8 {
        world.data[6][row] = Blocks::STONE;
    }
    world
}

#[test]
fn fan_spans_the_field_of_view_around_the_heading() {
    let angles = fan_angles(degrees(90), degrees(60), 5).unwrap();
    assert_eq!(angles, vec![degrees(60), degrees(75), degrees(90), degrees(105), degrees(120)]);
}

#[test]
fn fan_steps_are_rounded_down() {
    let angles = fan_angles(0, degrees(60), 60).unwrap();
    assert_eq!(angles.len(), 60);
    assert_eq!(angles[0], degrees(-30));
    assert_eq!(angles[1], degrees(-30) + 66646);
    assert_eq!(angles[2], degrees(-30) + 133293);
    assert_eq!(angles[59], degrees(30));
    assert_eq!(fan_angle_at(0, degrees(60), 60, 1), degrees(-30) + 66646);
    assert_eq!(fan_angle_at(degrees(10), 3, 2, 0), degrees(10) - 1);
    assert_eq!(fan_angle_at(degrees(10), 3, 2, 1), degrees(10) + 2);
}

#[test]
fn fan_angles_never_decrease() {
    for count in [2, 3, 7, 60, 61, 1000] {
        let angles = fan_angles(degrees(359), degrees(77) + 13, count).unwrap();
        assert_eq!(angles.len(), count as usize);
        for pair in angles.windows(2) {
            assert!(pair[0] <= pair[1]);
        }
        assert_eq!(angles[angles.len() - 1] - angles[0], degrees(77) + 13);
    }
}

#[test]
fn negative_field_of_view_sweeps_the_other_way() {
    let angles = fan_angles(degrees(90), degrees(-60), 3).unwrap();
    assert_eq!(angles, vec![degrees(120), degrees(90), degrees(60)]);
    let widest = fan_angles(0, i64::MIN, 2).unwrap();
    assert_eq!(widest, vec![1 << 62, -(1 << 62)]);
    let other = fan_angles(degrees(360) - 1, i64::MAX, 3).unwrap();
    assert_eq!(other[2] - other[0], i64::MAX);
}

#[test]
fn fan_of_fewer_than_two_rays_is_refused() {
    for count in [1, 0, -1, i32::MIN] {
        assert_eq!(fan_angles(0, degrees(60), count), Err(CastError::InvalidRayCount));
        let world = World::new();
        let asked = std::cell::Cell::new(0u32);
        let counting = |angle: i64| {
            asked.set(asked.get() + 1);
            trig(angle)
        };
        let cast = cast_fov(Vector2::new(degrees(64), degrees(64)), 0, degrees(60), count, &world, &counting);
        assert_eq!(cast, Err(CastError::InvalidRayCount));
        assert_eq!(asked.get(), 0);
    }
    let world = World::new();
    let pos = Vector2::new(degrees(64), degrees(64));
    assert_eq!(cast_rays(pos, &vec![], &world), Err(CastError::InvalidRayCount));
    assert_eq!(cast_rays(pos, &vec![Vector2::new(ONE, 0)], &world), Err(CastError::InvalidRayCount));
    assert_eq!(cast_rays(pos, &vec![Vector2::new(7 * ONE, 0)], &world), Err(CastError::InvalidRayCount));
}

#[test]
fn fan_returns_one_result_for_each_ray_in_order() {
    let world = walled_world();
    let pos = Vector2::new(degrees(96), degrees(224));
    for count in [2, 3, 16, 60] {
        let (distances, points) = cast_fov(pos, 0, degrees(60), count, &world, &trig).unwrap();
        assert_eq!(distances.len(), count as usize);
        assert_eq!(points.len(), count as usize);
        let angles = fan_angles(0, degrees(60), count).unwrap();
        for i in 0..count as usize {
            assert_eq!((distances[i], points[i]), cast_ray(pos, trig(angles[i]), &world));
        }
    }
}

#[test]
fn fan_hands_its_angles_to_the_trigonometry() {
    let world = World::new();
    let asked = std::cell::RefCell::new(Vec::new());
    let recording = |angle: i64| {
        asked.borrow_mut().push(angle);
        trig(angle)
    };
    let pos = Vector2::new(degrees(64), degrees(64));
    cast_fov(pos, degrees(45), degrees(90), 4, &world, &recording).unwrap();
    assert_eq!(*asked.borrow(), vec![0, degrees(30), degrees(60), degrees(90)]);
}

#[test]
fn fan_sees_the_wall_ahead_and_misses_beside_it() {
    let world = walled_world();
    let pos = Vector2::new(degrees(96), degrees(224));
    let (distances, points) = cast_fov(pos, 0, degrees(180), 3, &world, &trig).unwrap();
    assert_eq!(distances[0], MISS_DISTANCE);
    assert_eq!(points[0], Vector2::new(degrees(96), 0));
    assert_eq!(distances[1], degrees(288));
    assert_eq!(points[1], Vector2::new(degrees(384), degrees(224)));
    assert_eq!(distances[2], MISS_DISTANCE);
    assert_eq!(points[2], Vector2::new(degrees(96), degrees(512)));
}

#[test]
fn rays_in_given_directions() {
    let world = walled_world();
    let pos = Vector2::new(degrees(96), degrees(224));
    let dirs = vec![Vector2::new(ONE, 0), Vector2::new(-ONE, 0), Vector2::new(ONE, 0)];
    let (distances, points) = cast_rays(pos, &dirs, &world).unwrap();
    assert_eq!(distances, vec![degrees(288), MISS_DISTANCE, degrees(288)]);
    assert_eq!(points[0], Vector2::new(degrees(384), degrees(224)));
    assert_eq!(points[1], Vector2::new(0, degrees(224)));
    assert_eq!(points[2], points[0]);
}

#[test]
fn fan_with_a_direction_out_of_range_is_refused() {
    let world = walled_world();
    let pos = Vector2::new(degrees(96), degrees(224));
    let dirs = vec![Vector2::new(ONE, 0), Vector2::new(ONE, ONE + 1), Vector2::new(ONE, 0)];
    assert_eq!(cast_rays(pos, &dirs, &world), Err(CastError::InvalidDirection));
    let wild = |angle: i64| if angle > 0 { Vector2::new(-ONE - 1, 0) } else { Vector2::new(ONE, 0) };
    assert_eq!(cast_fov(pos, 0, degrees(60), 5, &world, &wild), Err(CastError::InvalidDirection));
}
