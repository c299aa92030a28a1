use raycaster::fixed::{Vector2, ONE};
use raycaster::my_ray::MISS_DISTANCE;
use raycaster::player::{Intents, Player};
use raycaster::projection::{angle_offset_at, project};
use raycaster::render::{
    entity_to_screen, entity_to_world, texture_section, world_to_entity, Camera, Color, REditor, RFPS,
    RMinimap, Rectangle, Renderer, RendererType, Shape, ATLAS_TILE, EDITOR_MARK_RADIUS,
};
use raycaster::state::{State, View};
use raycaster::world::{Blocks, World};

fn sine_and_cosine(angle: i64) -> Vector2 {
    let radians = (angle as f64 / 65536.0).to_radians();
    Vector2::new((radians.cos() * 65536.0).round() as i64, (radians.sin() * 65536.0).round() as i64)
}

fn still_camera() -> Camera {
    Camera { target: Vector2::new(0, 0), offset: Vector2::new(0, 0), rotation: 0, zoom: ONE }
}

#[test]
fn screen_position_follows_target_zoom_and_offset() {
    let camera = Camera {
        target: Vector2::new(100 * ONE, 50 * ONE),
        offset: Vector2::new(512 * ONE, 384 * ONE),
        rotation: 0,
        zoom: 3 * ONE / 2,
    };
    let at = entity_to_screen(Vector2::new(120 * ONE, 40 * ONE), &camera);
    assert_eq!(at, Vector2::new(542 * ONE, 369 * ONE));
    assert_eq!(entity_to_screen(camera.target, &camera), camera.offset);
    let flat = Camera { zoom: 0, ..camera };
    assert_eq!(entity_to_screen(Vector2::new(7, -9), &flat), camera.offset);
}

#[test]
fn screen_position_rounds_down_and_saturates() {
    let camera = Camera { zoom: ONE / 2, ..still_camera() };
    assert_eq!(entity_to_screen(Vector2::new(3, -3), &camera), Vector2::new(1, -2));
    let wide = Camera {
        target: Vector2::new(i64::MIN, i64::MAX),
        offset: Vector2::new(0, 0),
        rotation: 0,
        zoom: i64::MAX,
    };
    assert_eq!(entity_to_screen(Vector2::new(i64::MAX, i64::MIN), &wide), Vector2::new(i64::MAX, i64::MIN));
}

#[test]
fn point_of_the_world_lies_in_a_tile() {
    let world = World::new();
    assert_eq!(entity_to_world(Vector2::new(64 * ONE, 64 * ONE), &world), Vector2::new(ONE, ONE));
    assert_eq!(entity_to_world(Vector2::new(64 * ONE - 1, 200 * ONE), &world), Vector2::new(0, 3 * ONE));
    assert_eq!(entity_to_world(Vector2::new(-1, -64 * ONE - 1), &world), Vector2::new(-ONE, -2 * ONE));
    assert_eq!(world_to_entity(Vector2::new(ONE, 3 * ONE), &world), Vector2::new(64 * ONE, 192 * ONE));
    assert_eq!(world_to_entity(Vector2::new(-ONE, 0), &world), Vector2::new(-64 * ONE, 0));
    assert_eq!(world_to_entity(Vector2::new(i64::MAX, i64::MIN), &world), Vector2::new(i64::MAX, i64::MIN));
}

#[test]
fn tile_kinds_have_their_part_of_the_atlas() {
    assert_eq!(ATLAS_TILE, 32 * ONE);
    let edge = 32 * ONE;
    assert_eq!(texture_section(Blocks::STONE), Rectangle { x: 0, y: edge, width: edge, height: edge });
    assert_eq!(texture_section(Blocks::GRASS), Rectangle { x: edge, y: edge, width: edge, height: edge });
    assert_eq!(texture_section(Blocks::PLAYER), Rectangle { x: 0, y: 0, width: edge, height: edge });
}

#[test]
fn world_is_drawn_column_after_column() {
    let mut world = World::new();
    world.data[1][2] = Blocks::STONE;
    let camera = Camera {
        target: Vector2::new(64 * ONE, 64 * ONE),
        offset: Vector2::new(10 * ONE, 20 * ONE),
        rotation: 0,
        zoom: ONE / 2,
    };
    let shapes = world.render(&camera);
    assert_eq!(shapes.len(), 64);
    assert_eq!(
        shapes[0],
        Shape::Texture {
            source: texture_section(Blocks::GRASS),
            dest: Rectangle { x: -22 * ONE, y: -12 * ONE, width: 32 * ONE, height: 32 * ONE },
            origin: Vector2::new(0, 0),
            rotation: 0,
            tint: Color::WHITE,
        }
    );
    assert_eq!(
        shapes[8 + 2],
        Shape::Texture {
            source: texture_section(Blocks::STONE),
            dest: Rectangle { x: 10 * ONE, y: 52 * ONE, width: 32 * ONE, height: 32 * ONE },
            origin: Vector2::new(0, 0),
            rotation: 0,
            tint: Color::WHITE,
        }
    );
    assert_eq!(
        shapes[63],
        Shape::Texture {
            source: texture_section(Blocks::GRASS),
            dest: Rectangle { x: 202 * ONE, y: 212 * ONE, width: 32 * ONE, height: 32 * ONE },
            origin: Vector2::new(0, 0),
            rotation: 0,
            tint: Color::WHITE,
        }
    );
}

#[test]
fn wall_is_as_high_as_screen_times_tile_over_distance() {
    let world = World::new();
    let slice = project(3, 60, 192 * ONE, ONE, 1024, 1024, &world);
    assert_eq!(slice, Some(Shape::Rect { x: 51, y: 341, width: 17, height: 341, color: Color::BLUE }));
    let near = project(0, 2, 32 * ONE, ONE, 800, 600, &world);
    assert_eq!(near, Some(Shape::Rect { x: 0, y: -300, width: 400, height: 1200, color: Color::BLUE }));
    let odd = project(1, 2, 64 * ONE, ONE, 801, 601, &world);
    assert_eq!(odd, Some(Shape::Rect { x: 400, y: 0, width: 400, height: 601, color: Color::BLUE }));
    let taller = project(1, 2, 63 * ONE, ONE, 801, 601, &world);
    assert_eq!(taller, Some(Shape::Rect { x: 400, y: -4, width: 400, height: 610, color: Color::BLUE }));
}

#[test]
fn distance_is_corrected_by_the_cosine() {
    let world = World::new();
    let cosine = 56756;
    let slice = project(0, 60, 192 * ONE, cosine, 1024, 1024, &world);
    assert_eq!(slice, Some(Shape::Rect { x: 0, y: 315, width: 17, height: 394, color: Color::BLUE }));
    assert_eq!(project(0, 60, 192 * ONE, 0, 1024, 1024, &world), None);
    assert_eq!(project(0, 60, 192 * ONE, -ONE, 1024, 1024, &world), None);
    assert_eq!(project(0, 60, 0, ONE, 1024, 1024, &world), None);
}

#[test]
fn miss_shows_no_wall() {
    let world = World::new();
    assert_eq!(project(0, 60, MISS_DISTANCE, ONE, 1024, 1024, &world), None);
    assert!(project(0, 60, MISS_DISTANCE - 1, 1, 1024, 1024, &world).is_some());
}

#[test]
fn wall_height_saturates() {
    let world = World { data: World::uniform(1, Blocks::GRASS), tile_size: 16777216, size: 1 };
    let slice = project(0, 1, 1, ONE, 1024, i32::MAX, &world);
    assert_eq!(slice, Some(Shape::Rect { x: 0, y: 0, width: 1024, height: i32::MAX, color: Color::BLUE }));
    let slice = project(0, 1, 1, ONE, -1024, i32::MIN, &world);
    assert_eq!(slice, Some(Shape::Rect { x: 0, y: 0, width: -1024, height: i32::MIN, color: Color::BLUE }));
    let slice = project(2, 3, 64 * ONE, ONE, -1000, -10, &world);
    assert_eq!(
        slice,
        Some(Shape::Rect { x: -666, y: 1310715, width: -333, height: -2621440, color: Color::BLUE })
    );
}

#[test]
fn offsets_run_from_half_the_field_before_the_heading() {
    assert_eq!(angle_offset_at(0, 60, 60 * ONE), -30 * ONE);
    assert_eq!(angle_offset_at(30, 60, 60 * ONE), 0);
    assert_eq!(angle_offset_at(59, 60, 60 * ONE), 29 * ONE);
    assert_eq!(angle_offset_at(1, 3, 10), 3 - 5);
    assert_eq!(angle_offset_at(1, 3, -10), -4 + 5);
    assert_eq!(angle_offset_at(0, 1, i64::MIN), 1 << 62);
}

#[test]
fn new_renderer_has_a_camera_at_rest() {
    let renderer = Renderer::new(RendererType::FPS);
    assert_eq!(renderer.render_t, RendererType::FPS);
    assert_eq!(
        renderer.camera,
        Camera { target: Vector2::new(0, 0), offset: Vector2::new(0, 0), rotation: 0, zoom: 0 }
    );
}

#[test]
fn editor_draws_its_mark_and_the_world() {
    let world = World::new();
    let mut camera = still_camera();
    let shapes = REditor::render(&world, &mut camera);
    assert_eq!(EDITOR_MARK_RADIUS, 20 * ONE);
    assert_eq!(shapes[0], Shape::Circle { center_x: 200, center_y: 200, radius: 20 * ONE, color: Color::BLUE });
    assert_eq!(shapes[1..].to_vec(), world.render(&still_camera()));
    assert_eq!(camera, still_camera());
}

#[test]
fn minimap_draws_world_and_player_and_centres_the_camera() {
    let world = World::new();
    let player = Player::new(&world, &sine_and_cosine);
    let state = State::new(0);
    let mut camera = still_camera();
    let _ = RMinimap::new();
    let shapes = RMinimap::render(&state, &world, &player, &mut camera, 1024, 768, &sine_and_cosine);
    let mut expected = world.render(&still_camera());
    expected.extend(player.render_minimap(&still_camera()));
    assert_eq!(shapes, expected);
    assert_eq!(
        camera,
        Camera {
            target: player.pos,
            offset: Vector2::new(512 * ONE, 384 * ONE),
            rotation: 0,
            zoom: ONE,
        }
    );
    RMinimap::render(&state, &world, &player, &mut camera, 1023, -1, &sine_and_cosine);
    assert_eq!(camera.offset, Vector2::new(511 * ONE + ONE / 2, -ONE / 2));
}

#[test]
fn first_person_renderer_draws_the_player_only() {
    let world = World::new();
    let player = Player::new(&world, &sine_and_cosine);
    let mut state = State::new(0);
    state.change_view(View::FPS);
    let mut camera = still_camera();
    let shapes = RFPS::render(&state, &world, &player, &mut camera, &sine_and_cosine);
    assert_eq!(shapes, player.render_fps(&state, &world, &sine_and_cosine));
    assert_eq!(camera, still_camera());
}

#[test]
fn renderer_draws_the_view_it_is_set_to() {
    let mut world = World::new();
    world.data[6][4] = Blocks::STONE;
    let player = Player::new(&world, &sine_and_cosine);
    let mut state = State::new(0);
    let mut renderer = Renderer::new(RendererType::Editor);
    renderer.camera = still_camera();
    let shapes = renderer.render(&state, &world, &player, 1024, 1024, &sine_and_cosine);
    assert_eq!(shapes, REditor::render(&world, &mut still_camera()));
    assert_eq!(renderer.camera, still_camera());
    renderer.render_t = RendererType::Minimap;
    let shapes = renderer.render(&state, &world, &player, 1024, 1024, &sine_and_cosine);
    assert_eq!(shapes.len(), 64 + 2 + 60);
    assert_eq!(renderer.camera.target, player.pos);
    assert_eq!(renderer.camera.offset, Vector2::new(512 * ONE, 512 * ONE));
    renderer.render_t = RendererType::FPS;
    state.change_view(View::FPS);
    let before = renderer.camera;
    let shapes = renderer.render(&state, &world, &player, 1024, 1024, &sine_and_cosine);
    assert_eq!(shapes, player.render_fps(&state, &world, &sine_and_cosine));
    assert!(!shapes.is_empty());
    assert_eq!(renderer.camera, before);
    assert_eq!(renderer.render_t, RendererType::FPS);
}

#[test]
fn new_state_shows_the_minimap() {
    let state = State::new(5 * ONE);
    assert_eq!(state.screen_width, 1024);
    assert_eq!(state.screen_height, 1024);
    assert_eq!(state.view, View::Minimap);
    assert_eq!(state.time_start, 5 * ONE);
    assert_eq!(state.delta_time, 0);
    assert_eq!(state.last_tick_time, 5 * ONE);
}

#[test]
fn tick_comes_once_a_second() {
    let mut state = State::new(5 * ONE);
    assert!(!state.tick(5 * ONE));
    assert!(!state.tick(6 * ONE - 1));
    assert_eq!(state.last_tick_time, 5 * ONE);
    assert!(state.tick(6 * ONE));
    assert_eq!(state.last_tick_time, 6 * ONE);
    assert!(!state.tick(6 * ONE + 1));
    assert!(state.tick(100 * ONE));
    assert_eq!(state.last_tick_time, 100 * ONE);
    assert!(!state.tick(i64::MIN));
    state.last_tick_time = i64::MIN;
    assert!(state.tick(i64::MAX));
    assert_eq!(state.time_start, 5 * ONE);
}

#[test]
fn view_changes_to_what_is_asked() {
    let mut state = State::new(0);
    state.change_view(View::FPS);
    assert_eq!(state.view, View::FPS);
    state.change_view(View::Editor);
    assert_eq!(state.view, View::Editor);
    state.change_view(View::Minimap);
    assert_eq!(state.view, View::Minimap);
    assert_eq!((state.screen_width, state.screen_height), (1024, 1024));
}

#[test]
fn update_sets_the_renderer_and_moves_the_player() {
    let world = World::new();
    let mut player = Player::new(&world, &sine_and_cosine);
    let mut state = State::new(0);
    let mut renderer = Renderer::new(RendererType::Editor);
    let mut intents = Intents::none();
    intents.turn_right = true;
    intents.view_fps = true;
    state.update(&mut renderer, &mut player, &world, 3277, &intents, &sine_and_cosine);
    assert_eq!(state.delta_time, 3277);
    assert_eq!(renderer.render_t, RendererType::Minimap);
    assert_eq!(player.angle, 10 * ONE);
    assert_eq!(renderer.camera.target, player.pos);
    assert_eq!(state.view, View::FPS);
    intents = Intents::none();
    intents.view_editor = true;
    state.update(&mut renderer, &mut player, &world, 1, &intents, &sine_and_cosine);
    assert_eq!(renderer.render_t, RendererType::FPS);
    assert_eq!(state.view, View::Editor);
    assert_eq!(state.delta_time, 1);
}

#[test]
fn update_in_the_editor_leaves_the_player_alone() {
    let world = World::new();
    let mut player = Player::new(&world, &sine_and_cosine);
    let mut state = State::new(0);
    state.change_view(View::Editor);
    let mut renderer = Renderer::new(RendererType::FPS);
    let mut intents = Intents::none();
    intents.forward = true;
    intents.turn_left = true;
    intents.zoom_in = true;
    intents.view_fps = true;
    let before = (player.pos, player.angle, player.direction, player.distances.clone());
    state.update(&mut renderer, &mut player, &world, 9, &intents, &sine_and_cosine);
    assert_eq!(renderer.render_t, RendererType::Editor);
    assert_eq!((player.pos, player.angle, player.direction, player.distances.clone()), before);
    assert_eq!(state.view, View::Editor);
    assert_eq!(state.delta_time, 9);
    assert_eq!(renderer.camera.zoom, 0);
}
