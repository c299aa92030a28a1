use raycaster::fixed::ONE;
use raycaster::world::{Blocks, World, MAX_EXTENT, MAX_TILE_SIZE};

#[test]
fn new_world_is_eight_by_eight_grass() {
    let world = World::new();
    assert_eq!(world.size, 8);
    assert_eq!(world.tile_size, 64);
    assert_eq!(world.data.len(), 8);
    for column in &world.data {
        assert_eq!(column.len(), 8);
        for tile in column {
            assert_eq!(*tile, Blocks::GRASS);
        }
    }
    assert_eq!(world.dimensions(), (8, 8));
    assert_eq!(world.tile_size(), 64);
    assert_eq!(world.span(), 64 * ONE);
}

#[test]
fn only_stone_inside_the_grid_is_solid() {
    let mut world = World::new();
    world.data[4][4] = Blocks::STONE;
    world.data[2][3] = Blocks::PLAYER;
    assert!(world.is_solid(4, 4));
    assert!(!world.is_solid(3, 4));
    assert!(!world.is_solid(4, 3));
    assert!(!world.is_solid(2, 3));
    assert!(!world.is_solid(-1, 4));
    assert!(!world.is_solid(4, -1));
    assert!(!world.is_solid(8, 4));
    assert!(!world.is_solid(4, 8));
    assert!(!world.is_solid(i64::MAX, i64::MIN));
}

#[test]
fn tiles_are_addressed_by_column_then_row() {
    let mut world = World::new();
    world.data[5][1] = Blocks::STONE;
    assert_eq!(world.tile_at(5, 1), Some(Blocks::STONE));
    assert_eq!(world.tile_at(1, 5), Some(Blocks::GRASS));
    assert_eq!(world.tile_at(0, 0), Some(Blocks::GRASS));
    assert_eq!(world.tile_at(7, 7), Some(Blocks::GRASS));
    assert_eq!(world.tile_at(8, 0), None);
    assert_eq!(world.tile_at(0, 8), None);
    assert_eq!(world.tile_at(-1, 0), None);
}

#[test]
fn tile_codes_are_zero_one_and_two() {
    assert_eq!(Blocks::from_u8(0), Some(Blocks::GRASS));
    assert_eq!(Blocks::from_u8(1), Some(Blocks::STONE));
    assert_eq!(Blocks::from_u8(2), Some(Blocks::PLAYER));
    assert_eq!(Blocks::from_u8(3), None);
    assert_eq!(Blocks::from_u8(255), None);
    assert_eq!(Blocks::GRASS.to_u8(), 0);
    assert_eq!(Blocks::STONE.to_u8(), 1);
    assert_eq!(Blocks::PLAYER.to_u8(), 2);
    for code in 0..=255u8 {
        if let Some(block) = Blocks::from_u8(code) {
            assert_eq!(block.to_u8(), code);
        }
    }
}

#[test]
fn uniform_grid_is_square() {
    let data = World::uniform(3, Blocks::STONE);
    assert_eq!(data, vec![vec![Blocks::STONE; 3]; 3]);
    assert!(World::uniform(0, Blocks::GRASS).is_empty());
}

#[test]
fn well_formed_worlds_are_square_and_within_the_limits() {
    assert!(World::new().check());
    let square = |size: usize, tile_size: usize| World { data: World::uniform(size, Blocks::GRASS), tile_size, size };
    assert!(square(1, 1).check());
    assert!(square(1, 16777216).check());
    assert!(square(128, 16777216).check());
    assert!(!square(129, 16777216).check());
    assert!(!square(1, 16777217).check());
    assert!(!square(1, 0).check());
    assert!(!square(0, 64).check());
    let mut jagged = World::new();
    jagged.data[7].pop();
    assert!(!jagged.check());
    let mut short = World::new();
    short.data.pop();
    assert!(!short.check());
    let mut mislabelled = World::new();
    mislabelled.size = 9;
    assert!(!mislabelled.check());
    let huge = World { data: Vec::new(), tile_size: 1, size: usize::MAX };
    assert!(!huge.check());
}

#[test]
fn limits_of_a_world() {
    assert_eq!(MAX_TILE_SIZE, 1 << 24);
    assert_eq!(MAX_EXTENT, 1 << 31);
}
