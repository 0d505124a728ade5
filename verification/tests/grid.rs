use ecs_wasm_game::component::{Color, Position, Size};
use ecs_wasm_game::grid::init_grid;
use ecs_wasm_game::world::World;

#[test]
fn default_grid_has_64_white_cells() {
    let mut world = World::new();
    init_grid(&mut world, 8, 50);
    assert_eq!(world.entity_count(), 64);
    for e in 0..64u32 {
        assert_eq!(world.size(e), Some(Size { width: 50, height: 50 }));
        assert_eq!(world.color(e), Some(Color { r: 255, g: 255, b: 255 }));
    }
    assert_eq!(world.position(0), Some(Position { x: 0, y: 0 }));
    assert_eq!(world.position(1), Some(Position { x: 50, y: 0 }));
    assert_eq!(world.position(7), Some(Position { x: 350, y: 0 }));
    assert_eq!(world.position(8), Some(Position { x: 0, y: 50 }));
    assert_eq!(world.position(9), Some(Position { x: 50, y: 50 }));
    assert_eq!(world.position(63), Some(Position { x: 350, y: 350 }));
    assert_eq!(world.position(64), None);
    assert_eq!(world.size(64), None);
    assert_eq!(world.color(64), None);
}

#[test]
fn cell_in_column_x_of_row_y_is_entity_y_n_plus_x() {
    for n in 0..12u32 {
        for cell in [0u32, 1, 7, 50, 1000] {
            let mut world = World::new();
            init_grid(&mut world, n, cell);
            assert_eq!(world.entity_count(), n * n);
            for y in 0..n {
                for x in 0..n {
                    let e = y * n + x;
                    assert_eq!(
                        world.position(e),
                        Some(Position { x: (x * cell) as i64, y: (y * cell) as i64 })
                    );
                    assert_eq!(world.size(e), Some(Size { width: cell, height: cell }));
                    assert_eq!(world.color(e), Some(Color::white()));
                }
            }
            assert_eq!(world.position(n * n), None);
        }
    }
}

#[test]
fn grid_of_dimension_zero_is_empty() {
    let mut world = World::new();
    init_grid(&mut world, 0, 50);
    assert_eq!(world.entity_count(), 0);
    assert_eq!(world.position(0), None);
}

#[test]
fn grid_with_the_widest_cells_does_not_overflow() {
    let mut world = World::new();
    init_grid(&mut world, 3, u32::MAX);
    assert_eq!(world.entity_count(), 9);
    let w = u32::MAX as i64;
    assert_eq!(world.position(8), Some(Position { x: 2 * w, y: 2 * w }));
    assert_eq!(world.size(8), Some(Size { width: u32::MAX, height: u32::MAX }));
}

#[test]
fn two_viewers_agree_on_every_cell() {
    let mut first = World::new();
    let mut second = World::new();
    init_grid(&mut first, 8, 50);
    init_grid(&mut second, 8, 50);
    assert_eq!(first.entity_count(), second.entity_count());
    for e in 0..first.entity_count() {
        assert_eq!(first.position(e), second.position(e));
        assert_eq!(first.size(e), second.size(e));
        assert_eq!(first.color(e), second.color(e));
    }
}

#[test]
fn a_second_grid_is_added_after_the_first() {
    let mut world = World::new();
    init_grid(&mut world, 2, 10);
    world.set_color(3, Color { r: 1, g: 2, b: 3 });
    init_grid(&mut world, 3, 20);
    assert_eq!(world.entity_count(), 13);
    assert_eq!(world.position(3), Some(Position { x: 10, y: 10 }));
    assert_eq!(world.size(3), Some(Size { width: 10, height: 10 }));
    assert_eq!(world.color(3), Some(Color { r: 1, g: 2, b: 3 }));
    assert_eq!(world.position(4), Some(Position { x: 0, y: 0 }));
    assert_eq!(world.position(8), Some(Position { x: 20, y: 20 }));
    assert_eq!(world.position(12), Some(Position { x: 40, y: 40 }));
    assert_eq!(world.size(12), Some(Size { width: 20, height: 20 }));
    assert_eq!(world.color(12), Some(Color::white()));
    assert_eq!(world.position(13), None);
}
