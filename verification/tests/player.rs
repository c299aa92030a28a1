use raycaster::fixed::{Vector2, COORD_MAX, FULL_TURN, ONE};
use raycaster::my_ray::{cast_fov, CastError, MISS_DISTANCE};
use raycaster::player::{
    Intents, Player, DIRECTION_LINE, FOV, LINE_THICKNESS, NUM_RAYS, PLAYER_RADIUS, START, TURN_STEP,
    VELOCITY, ZOOM_STEP,
};
use raycaster::render::{Camera, Color, Shape};
use raycaster::state::{State, View};
use raycaster::world::{Blocks, World};

fn cosine_and_sine(angle: i64) -> Vector2 {
    let radians = (angle as f64 / 65536.0).to_radians();
    Vector2::new((radians.cos() * 65536.0).round() as i64, (radians.sin() * 65536.0).round() as i64)
}

fn camera() -> Camera {
    Camera { target: Vector2::new(0, 0), offset: Vector2::new(0, 0), rotation: 0, zoom: ONE }
}

fn ringed_world() -> World {
    let mut world = World::new();
    for i in 0..8 {
        world.data[0][i] = Blocks::STONE;
        world.data[7][i] = Blocks::STONE;
        world.data[i][0] = Blocks::STONE;
        world.data[i][7] = Blocks::STONE;
    }
    world
}

#[test]
fn constants_of_the_player() {
    assert_eq!(NUM_RAYS, 60);
    assert_eq!(FOV, 60 * ONE);
    assert_eq!(TURN_STEP, 10 * ONE);
    assert_eq!(ZOOM_STEP, 3277);
    assert_eq!(DIRECTION_LINE, 25 * ONE);
    assert_eq!(PLAYER_RADIUS, 5 * ONE);
    assert_eq!(LINE_THICKNESS, 2 * ONE);
    assert_eq!(START, 256 * ONE);
    assert_eq!(VELOCITY, 10 * ONE);
}

#[test]
fn new_player_stands_in_the_middle_and_sees_the_fan() {
    let world = ringed_world();
    let player = Player::new(&world, &cosine_and_sine);
    assert_eq!(player.pos, Vector2::new(256 * ONE, 256 * ONE));
    assert_eq!(player.angle, 0);
    assert_eq!(player.velocity, 10 * ONE);
    assert_eq!(player.direction, Vector2::new(0, 0));
    let cast = cast_fov(player.pos, 0, FOV, NUM_RAYS, &world, &cosine_and_sine).unwrap();
    assert_eq!(player.distances, cast);
    assert_eq!(player.distances.0.len(), 60);
    for distance in &player.distances.0 {
        assert!(*distance < MISS_DISTANCE);
    }
}

#[test]
fn new_player_sees_nothing_through_broken_trigonometry() {
    let world = ringed_world();
    let broken = |_angle: i64| Vector2::new(ONE + 1, 0);
    let player = Player::new(&world, &broken);
    assert!(player.distances.0.is_empty());
    assert!(player.distances.1.is_empty());
}

#[test]
fn forward_and_back_move_along_the_direction() {
    let world = ringed_world();
    let mut player = Player::new(&world, &cosine_and_sine);
    let mut cam = camera();
    let mut state = State::new(0);
    player.direction = Vector2::new(ONE / 2, -ONE / 4);
    let mut intents = Intents::none();
    intents.forward = true;
    player.step(&mut cam, &mut state, &intents);
    assert_eq!(player.pos, Vector2::new(261 * ONE, 256 * ONE - 5 * ONE / 2));
    assert_eq!(cam.target, player.pos);
    intents.forward = false;
    intents.back = true;
    player.step(&mut cam, &mut state, &intents);
    player.step(&mut cam, &mut state, &intents);
    assert_eq!(player.pos, Vector2::new(251 * ONE, 256 * ONE + 5 * ONE / 2));
    intents.forward = true;
    player.step(&mut cam, &mut state, &intents);
    assert_eq!(player.pos, Vector2::new(251 * ONE, 256 * ONE + 5 * ONE / 2));
}

#[test]
fn moves_stop_at_the_edge_of_the_coordinates() {
    let world = ringed_world();
    let mut player = Player::new(&world, &cosine_and_sine);
    let mut cam = camera();
    let mut state = State::new(0);
    player.pos = Vector2::new(COORD_MAX - ONE, -COORD_MAX + ONE);
    player.direction = Vector2::new(ONE, -ONE);
    let mut intents = Intents::none();
    intents.forward = true;
    player.step(&mut cam, &mut state, &intents);
    assert_eq!(player.pos, Vector2::new(COORD_MAX, -COORD_MAX));
    player.velocity = i64::MAX;
    player.direction = Vector2::new(-ONE, ONE);
    player.step(&mut cam, &mut state, &intents);
    assert_eq!(player.pos, Vector2::new(-COORD_MAX, COORD_MAX));
}

#[test]
fn turns_wrap_around_the_full_turn() {
    let world = ringed_world();
    let mut player = Player::new(&world, &cosine_and_sine);
    let mut cam = camera();
    let mut state = State::new(0);
    let mut left = Intents::none();
    left.turn_left = true;
    let mut right = Intents::none();
    right.turn_right = true;
    player.step(&mut cam, &mut state, &left);
    assert_eq!(player.angle, 350 * ONE);
    player.step(&mut cam, &mut state, &right);
    assert_eq!(player.angle, 0);
    player.angle = 355 * ONE;
    player.step(&mut cam, &mut state, &right);
    assert_eq!(player.angle, 5 * ONE);
    player.step(&mut cam, &mut state, &left);
    assert_eq!(player.angle, 355 * ONE);
    player.angle = FULL_TURN - 1;
    player.step(&mut cam, &mut state, &right);
    assert_eq!(player.angle, TURN_STEP - 1);
    let mut both = Intents::none();
    both.turn_left = true;
    both.turn_right = true;
    player.step(&mut cam, &mut state, &both);
    assert_eq!(player.angle, TURN_STEP - 1);
}

#[test]
fn zoom_changes_by_a_twentieth() {
    let world = ringed_world();
    let mut player = Player::new(&world, &cosine_and_sine);
    let mut cam = camera();
    let mut state = State::new(0);
    let mut intents = Intents::none();
    intents.zoom_in = true;
    player.step(&mut cam, &mut state, &intents);
    assert_eq!(cam.zoom, ONE + 3277);
    intents.zoom_in = false;
    intents.zoom_out = true;
    player.step(&mut cam, &mut state, &intents);
    player.step(&mut cam, &mut state, &intents);
    assert_eq!(cam.zoom, ONE - 3277);
    cam.zoom = i64::MIN + 5;
    player.step(&mut cam, &mut state, &intents);
    assert_eq!(cam.zoom, i64::MIN);
    intents.zoom_in = true;
    player.step(&mut cam, &mut state, &intents);
    assert_eq!(cam.zoom, i64::MIN + 3277);
    assert_eq!(cam.offset, Vector2::new(0, 0));
    assert_eq!(cam.rotation, 0);
}

#[test]
fn last_view_asked_for_wins() {
    let world = ringed_world();
    let mut player = Player::new(&world, &cosine_and_sine);
    let mut cam = camera();
    let mut state = State::new(7);
    let mut intents = Intents::none();
    player.step(&mut cam, &mut state, &intents);
    assert_eq!(state.view, View::Minimap);
    intents.view_editor = true;
    player.step(&mut cam, &mut state, &intents);
    assert_eq!(state.view, View::Editor);
    intents.view_minimap = true;
    player.step(&mut cam, &mut state, &intents);
    assert_eq!(state.view, View::Editor);
    intents.view_fps = true;
    player.step(&mut cam, &mut state, &intents);
    assert_eq!(state.view, View::FPS);
    intents = Intents::none();
    intents.view_minimap = true;
    player.step(&mut cam, &mut state, &intents);
    assert_eq!(state.view, View::Minimap);
    assert_eq!((state.screen_width, state.screen_height, state.time_start), (1024, 1024, 7));
}

#[test]
fn frame_without_a_move_keeps_what_the_player_saw() {
    let world = ringed_world();
    let mut player = Player::new(&world, &cosine_and_sine);
    let mut cam = camera();
    let mut state = State::new(0);
    let before = player.distances.clone();
    let mut other = World::new();
    other.data[5][4] = Blocks::STONE;
    let mut intents = Intents::none();
    intents.zoom_in = true;
    intents.reload = true;
    player.input_update(&mut cam, &mut state, &other, &intents, &cosine_and_sine);
    assert_eq!(player.distances, before);
    assert_eq!(player.direction, Vector2::new(ONE, 0));
    assert_eq!(cam.target, player.pos);
}

#[test]
fn frame_with_a_move_casts_the_fan_again() {
    let world = ringed_world();
    let mut player = Player::new(&world, &cosine_and_sine);
    let mut cam = camera();
    let mut state = State::new(0);
    let mut turn = Intents::none();
    turn.turn_right = true;
    player.input_update(&mut cam, &mut state, &world, &turn, &cosine_and_sine);
    assert_eq!(player.angle, 10 * ONE);
    assert_eq!(player.direction, cosine_and_sine(10 * ONE));
    assert_eq!(player.pos, Vector2::new(256 * ONE, 256 * ONE));
    let cast = cast_fov(player.pos, 10 * ONE, FOV, NUM_RAYS, &world, &cosine_and_sine).unwrap();
    assert_eq!(player.distances, cast);
    let mut walk = Intents::none();
    walk.forward = true;
    player.input_update(&mut cam, &mut state, &world, &walk, &cosine_and_sine);
    let step = cosine_and_sine(10 * ONE);
    assert_eq!(player.pos, Vector2::new(256 * ONE + step.x * 10, 256 * ONE + step.y * 10));
    let cast = cast_fov(player.pos, 10 * ONE, FOV, NUM_RAYS, &world, &cosine_and_sine).unwrap();
    assert_eq!(player.distances, cast);
    assert_eq!(cam.target, player.pos);
}

#[test]
fn broken_trigonometry_changes_neither_direction_nor_sight() {
    let world = ringed_world();
    let mut player = Player::new(&world, &cosine_and_sine);
    let mut cam = camera();
    let mut state = State::new(0);
    player.direction = Vector2::new(0, ONE);
    let before = player.distances.clone();
    let broken = |_angle: i64| Vector2::new(0, -ONE - 1);
    let mut walk = Intents::none();
    walk.forward = true;
    player.input_update(&mut cam, &mut state, &world, &walk, &broken);
    assert_eq!(player.pos, Vector2::new(256 * ONE, 266 * ONE));
    assert_eq!(player.direction, Vector2::new(0, ONE));
    assert_eq!(player.distances, before);
}

#[test]
fn well_formed_player_is_in_range_and_within_a_turn() {
    let world = ringed_world();
    let mut player = Player::new(&world, &cosine_and_sine);
    assert!(player.check());
    player.angle = FULL_TURN;
    assert!(!player.check());
    player.angle = -1;
    assert!(!player.check());
    player.angle = FULL_TURN - 1;
    assert!(player.check());
    player.pos.x = COORD_MAX + 1;
    assert!(!player.check());
    player.pos.x = -COORD_MAX;
    assert!(player.check());
    player.distances.0.push(5);
    assert!(!player.check());
}

#[test]
fn look_and_see_take_only_what_is_valid() {
    let world = ringed_world();
    let mut player = Player::new(&world, &cosine_and_sine);
    player.look(Vector2::new(-ONE, ONE));
    assert_eq!(player.direction, Vector2::new(-ONE, ONE));
    player.look(Vector2::new(-ONE - 1, ONE));
    assert_eq!(player.direction, Vector2::new(-ONE, ONE));
    let before = player.distances.clone();
    player.see(Err(CastError::InvalidDirection));
    assert_eq!(player.distances, before);
    player.see(Err(CastError::InvalidRayCount));
    assert_eq!(player.distances, before);
    let found = (vec![1, 2], vec![Vector2::new(3, 4), Vector2::new(5, 6)]);
    player.see(Ok(found.clone()));
    assert_eq!(player.distances, found);
}

#[test]
fn minimap_shows_heading_player_and_rays() {
    let world = ringed_world();
    let mut player = Player::new(&world, &cosine_and_sine);
    player.direction = Vector2::new(ONE, 0);
    player.distances = (vec![7, 8], vec![Vector2::new(448 * ONE, 200 * ONE), Vector2::new(448 * ONE, 300 * ONE)]);
    let cam = Camera {
        target: Vector2::new(256 * ONE, 256 * ONE),
        offset: Vector2::new(512 * ONE, 512 * ONE),
        rotation: 0,
        zoom: 2 * ONE,
    };
    let shapes = player.render_minimap(&cam);
    assert_eq!(shapes.len(), 4);
    let at = Vector2::new(512 * ONE, 512 * ONE);
    assert_eq!(
        shapes[0],
        Shape::Line { start: at, end: Vector2::new(562 * ONE, 512 * ONE), thick: 4 * ONE, color: Color::RED }
    );
    assert_eq!(shapes[0], player.draw_direction_line(&cam));
    assert_eq!(shapes[1], Shape::Circle { center_x: 512, center_y: 512, radius: 10 * ONE, color: Color::RED });
    assert_eq!(
        shapes[2],
        Shape::Line { start: at, end: Vector2::new(896 * ONE, 400 * ONE), thick: 2 * ONE, color: Color::BLUE }
    );
    assert_eq!(
        shapes[3],
        Shape::Line { start: at, end: Vector2::new(896 * ONE, 600 * ONE), thick: 2 * ONE, color: Color::BLUE }
    );
}

#[test]
fn first_person_view_shows_a_slice_for_each_hit() {
    let world = ringed_world();
    let mut player = Player::new(&world, &cosine_and_sine);
    player.distances = (
        vec![192 * ONE, MISS_DISTANCE, 64 * ONE, 192 * ONE],
        vec![Vector2::new(0, 0), Vector2::new(0, 0), Vector2::new(0, 0), Vector2::new(0, 0)],
    );
    let state = State::new(0);
    let straight = |_angle: i64| Vector2::new(ONE, 0);
    let shapes = player.render_fps(&state, &world, &straight);
    assert_eq!(
        shapes,
        vec![
            Shape::Rect { x: 0, y: 341, width: 256, height: 341, color: Color::BLUE },
            Shape::Rect { x: 512, y: 0, width: 256, height: 1024, color: Color::BLUE },
            Shape::Rect { x: 768, y: 341, width: 256, height: 341, color: Color::BLUE },
        ]
    );
    let asked = std::cell::RefCell::new(Vec::new());
    let half = |angle: i64| {
        asked.borrow_mut().push(angle);
        Vector2::new(ONE / 2, 0)
    };
    let shapes = player.render_fps(&state, &world, &half);
    assert_eq!(*asked.borrow(), vec![-30 * ONE, -15 * ONE, 0, 15 * ONE]);
    assert_eq!(shapes[0], Shape::Rect { x: 0, y: 171, width: 256, height: 682, color: Color::BLUE });
    let broken = |_angle: i64| Vector2::new(ONE / 2, 2 * ONE);
    assert_eq!(player.render_fps(&state, &world, &broken), player.render_fps(&state, &world, &straight));
}

#[test]
fn player_is_drawn_in_the_view_on_display() {
    let world = ringed_world();
    let player = Player::new(&world, &cosine_and_sine);
    let cam = camera();
    let mut state = State::new(0);
    assert_eq!(player.render(&state, &cam, &world, &cosine_and_sine), player.render_minimap(&cam));
    state.change_view(View::Editor);
    assert_eq!(player.render(&state, &cam, &world, &cosine_and_sine), player.render_minimap(&cam));
    state.change_view(View::FPS);
    let slices = player.render(&state, &cam, &world, &cosine_and_sine);
    assert_eq!(slices, player.render_fps(&state, &world, &cosine_and_sine));
    assert_eq!(slices.len(), 60);
}
