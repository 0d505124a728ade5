use ecs_wasm_game::{Color, Game, MessageType, Position, Size, World};

#[test]
fn items_are_reached_from_the_root() {
    let mut world = World::new();
    let e = world.create_entity();
    world.add_position(e, Position { x: 0, y: 0 });
    world.add_size(e, Size { width: 50, height: 50 });
    world.add_color(e, Color { r: 255, g: 255, b: 255 });
    assert_eq!(world.hit_test(50, 50), Some(e));
    let update = MessageType::ColorUpdate { entity: e, r: 0, g: 0, b: 0 };
    let mut game = Game::new();
    game.init();
    game.handle_message(&update.encode());
    assert_eq!(game.world().color(e), Some(Color { r: 0, g: 0, b: 0 }));
}

#[test]
fn sessions_that_see_the_same_events_show_the_same_colours() {
    let mut first = Game::new();
    let mut second = Game::new();
    first.init();
    second.init();
    first.connect();
    first.link_event(ecs_wasm_game::link::LinkEvent::Opened);
    let clicks = [(5, 5), (395, 395), (200, 50), (5, 5), (120, 380), (200, 50), (77, 310)];
    for (x, y) in clicks {
        let payload = first.handle_click(x, y).unwrap();
        assert!(second.handle_message(&payload).needs_redraw());
    }
    for e in 0..64 {
        assert_eq!(first.world().color(e), second.world().color(e));
    }
    assert_eq!(first.world().color(0), Some(Color::white()));
    assert_eq!(first.world().color(63), Some(Color { r: 0, g: 0, b: 0 }));
    assert_eq!(first.render(400, 400), second.render(400, 400));
}
