use ecs_wasm_game::component::Color;
use ecs_wasm_game::game::{Game, Inbound, CELL_SIZE, GRID_SIZE};
use ecs_wasm_game::link::{LinkEvent, LinkState};
use ecs_wasm_game::message::MessageType;
use ecs_wasm_game::render::DrawCommand;

fn open_session() -> Game {
    let mut game = Game::new();
    game.init();
    game.connect();
    game.link_event(LinkEvent::Opened);
    game
}

fn colors_of(game: &Game) -> Vec<Option<Color>> {
    (0..game.world().entity_count() + 2).map(|e| game.world().color(e)).collect()
}

#[test]
fn new_session_is_empty_and_disconnected() {
    let game = Game::new();
    assert_eq!(game.world().entity_count(), 0);
    assert_eq!(game.link(), LinkState::Disconnected);
    assert_eq!(game.grid_size(), 8);
    assert_eq!(GRID_SIZE, 8);
    assert_eq!(CELL_SIZE, 50);
}

#[test]
fn init_builds_the_default_grid() {
    let mut game = Game::new();
    game.init();
    assert_eq!(game.world().entity_count(), 64);
    assert_eq!(game.world().color(0), Some(Color { r: 255, g: 255, b: 255 }));
    assert_eq!(game.world().hit_test(375, 375), Some(63));
    assert_eq!(game.link(), LinkState::Disconnected);
}

#[test]
fn click_toggles_and_update_reaches_a_second_session() {
    let mut first = open_session();
    assert_eq!(first.world().color(0), Some(Color { r: 255, g: 255, b: 255 }));
    let outbound = first.handle_click(5, 5);
    assert_eq!(first.world().color(0), Some(Color { r: 0, g: 0, b: 0 }));
    assert_eq!(
        outbound,
        Some(String::from(r#"{"ColorUpdate":{"entity":0,"r":0,"g":0,"b":0}}"#))
    );

    let mut second = Game::new();
    second.init();
    assert_eq!(second.world().color(0), Some(Color { r: 255, g: 255, b: 255 }));
    let outcome = second.handle_message(r#"{"ColorUpdate":{"entity":0,"r":0,"g":0,"b":0}}"#);
    assert_eq!(outcome, Inbound::Applied);
    assert_eq!(second.world().color(0), Some(Color { r: 0, g: 0, b: 0 }));
    for e in 1..64 {
        assert_eq!(second.world().color(e), Some(Color::white()));
    }
}

#[test]
fn click_without_an_open_connection_still_toggles() {
    let mut game = Game::new();
    game.init();
    assert_eq!(game.handle_click(5, 5), None);
    assert_eq!(game.world().color(0), Some(Color { r: 0, g: 0, b: 0 }));
    game.connect();
    assert_eq!(game.link(), LinkState::Connecting);
    assert_eq!(game.handle_click(60, 5), None);
    assert_eq!(game.world().color(1), Some(Color { r: 0, g: 0, b: 0 }));
    game.link_event(LinkEvent::Opened);
    game.link_event(LinkEvent::Lost);
    assert_eq!(game.link(), LinkState::Closed);
    assert_eq!(game.handle_click(110, 5), None);
    assert_eq!(game.world().color(2), Some(Color { r: 0, g: 0, b: 0 }));
}

#[test]
fn click_outside_the_grid_changes_nothing() {
    let mut game = open_session();
    let before = colors_of(&game);
    assert_eq!(game.handle_click(401, 5), None);
    assert_eq!(game.handle_click(-1, -1), None);
    assert_eq!(colors_of(&game), before);
}

#[test]
fn click_toggles_one_cell_only() {
    let mut game = open_session();
    let outbound = game.handle_click(50, 50);
    assert_eq!(
        outbound,
        Some(String::from(r#"{"ColorUpdate":{"entity":0,"r":0,"g":0,"b":0}}"#))
    );
    assert_eq!(game.world().color(0), Some(Color { r: 0, g: 0, b: 0 }));
    for e in 1..64 {
        assert_eq!(game.world().color(e), Some(Color::white()));
    }
}

#[test]
fn two_clicks_give_the_colour_back() {
    let mut game = open_session();
    let before = colors_of(&game);
    let first = game.handle_click(125, 75);
    assert_eq!(
        first,
        Some(String::from(r#"{"ColorUpdate":{"entity":10,"r":0,"g":0,"b":0}}"#))
    );
    let second = game.handle_click(125, 75);
    assert_eq!(
        second,
        Some(String::from(r#"{"ColorUpdate":{"entity":10,"r":255,"g":255,"b":255}}"#))
    );
    assert_eq!(colors_of(&game), before);
}

#[test]
fn update_that_went_round_gives_the_colour_back() {
    let mut first = open_session();
    let mut second = open_session();
    first.deliver(Some(MessageType::ColorUpdate { entity: 20, r: 12, g: 200, b: 99 }));
    second.deliver(Some(MessageType::ColorUpdate { entity: 20, r: 12, g: 200, b: 99 }));
    let there = first.handle_click(225, 125).unwrap();
    assert_eq!(there, r#"{"ColorUpdate":{"entity":20,"r":243,"g":55,"b":156}}"#);
    assert_eq!(second.handle_message(&there), Inbound::Applied);
    let back = second.handle_click(225, 125).unwrap();
    assert_eq!(back, r#"{"ColorUpdate":{"entity":20,"r":12,"g":200,"b":99}}"#);
    assert_eq!(first.handle_message(&back), Inbound::Applied);
    assert_eq!(first.world().color(20), Some(Color { r: 12, g: 200, b: 99 }));
    assert_eq!(second.world().color(20), Some(Color { r: 12, g: 200, b: 99 }));
}

#[test]
fn update_for_an_entity_beyond_the_count_is_dropped() {
    let mut game = open_session();
    let before = colors_of(&game);
    assert_eq!(
        game.handle_message(r#"{"ColorUpdate":{"entity":64,"r":1,"g":2,"b":3}}"#),
        Inbound::UnknownEntity
    );
    assert_eq!(
        game.handle_message(r#"{"ColorUpdate":{"entity":4294967295,"r":1,"g":2,"b":3}}"#),
        Inbound::UnknownEntity
    );
    assert_eq!(
        game.deliver(Some(MessageType::ColorUpdate { entity: 1000, r: 1, g: 2, b: 3 })),
        Inbound::UnknownEntity
    );
    assert_eq!(colors_of(&game), before);
    assert_eq!(game.world().entity_count(), 64);
    assert_eq!(game.world().color(64), None);
}

#[test]
fn update_before_the_grid_is_built_is_dropped() {
    let mut game = Game::new();
    assert_eq!(
        game.handle_message(r#"{"ColorUpdate":{"entity":0,"r":1,"g":2,"b":3}}"#),
        Inbound::UnknownEntity
    );
    assert_eq!(game.world().color(0), None);
    assert_eq!(game.world().entity_count(), 0);
}

#[test]
fn payload_that_cannot_be_read_is_dropped() {
    let mut game = open_session();
    game.handle_click(5, 5);
    let before = colors_of(&game);
    for payload in [
        "",
        "not json",
        "{",
        "[1,2,3]",
        "17",
        r#"{"ColorUpdate":{"entity":1,"r":1,"g":2}}"#,
        r#"{"ColorUpdate":{"entity":1,"r":1,"g":2,"b":"3"}}"#,
        r#"{"ColorUpdate":{"entity":1,"r":1,"g":2,"b":300}}"#,
        r#"{"Paint":{"entity":1,"r":1,"g":2,"b":3}}"#,
        r#"{"ColorUpdate":[1,1,2,3]}"#,
    ] {
        assert_eq!(game.handle_message(payload), Inbound::Malformed);
        assert_eq!(colors_of(&game), before);
        assert_eq!(game.world().entity_count(), 64);
        assert_eq!(game.link(), LinkState::Open);
    }
    assert_eq!(game.deliver(None), Inbound::Malformed);
    assert_eq!(colors_of(&game), before);
}

#[test]
fn click_message_is_ignored() {
    let mut game = open_session();
    let before = colors_of(&game);
    assert_eq!(game.handle_message(r#"{"Click":{"x":5,"y":5}}"#), Inbound::Ignored);
    assert_eq!(game.deliver(Some(MessageType::Click { x: 5, y: 5 })), Inbound::Ignored);
    assert_eq!(colors_of(&game), before);
}

#[test]
fn last_update_wins() {
    let mut game = open_session();
    assert_eq!(
        game.handle_message(r#"{"ColorUpdate":{"entity":3,"r":1,"g":2,"b":3}}"#),
        Inbound::Applied
    );
    assert_eq!(
        game.handle_message(r#"{"ColorUpdate":{"entity":3,"r":4,"g":5,"b":6}}"#),
        Inbound::Applied
    );
    assert_eq!(game.world().color(3), Some(Color { r: 4, g: 5, b: 6 }));
}

#[test]
fn only_an_applied_update_asks_for_a_redraw() {
    assert!(Inbound::Applied.needs_redraw());
    assert!(!Inbound::UnknownEntity.needs_redraw());
    assert!(!Inbound::Ignored.needs_redraw());
    assert!(!Inbound::Malformed.needs_redraw());
}

#[test]
fn connection_goes_through_its_states() {
    let mut state = LinkState::Disconnected;
    assert!(!state.can_send());
    state = state.after(LinkEvent::Requested);
    assert_eq!(state, LinkState::Connecting);
    assert!(!state.can_send());
    state = state.after(LinkEvent::Opened);
    assert_eq!(state, LinkState::Open);
    assert!(state.can_send());
    state = state.after(LinkEvent::Lost);
    assert_eq!(state, LinkState::Closed);
    assert!(!state.can_send());
}

#[test]
fn events_out_of_turn_change_nothing() {
    assert_eq!(LinkState::Disconnected.after(LinkEvent::Opened), LinkState::Disconnected);
    assert_eq!(LinkState::Disconnected.after(LinkEvent::Lost), LinkState::Disconnected);
    assert_eq!(LinkState::Open.after(LinkEvent::Opened), LinkState::Open);
    assert_eq!(LinkState::Closed.after(LinkEvent::Opened), LinkState::Closed);
    assert_eq!(LinkState::Closed.after(LinkEvent::Lost), LinkState::Closed);
    assert_eq!(LinkState::Connecting.after(LinkEvent::Lost), LinkState::Closed);
}

#[test]
fn a_request_starts_a_connection_anew() {
    for state in [
        LinkState::Disconnected,
        LinkState::Connecting,
        LinkState::Open,
        LinkState::Closed,
    ] {
        assert_eq!(state.after(LinkEvent::Requested), LinkState::Connecting);
    }
    let mut game = Game::new();
    game.connect();
    game.link_event(LinkEvent::Opened);
    game.connect();
    assert_eq!(game.link(), LinkState::Connecting);
}

#[test]
fn render_clears_then_draws_every_cell_in_order() {
    let mut game = Game::new();
    game.init();
    game.handle_click(75, 25);
    let list = game.render(400, 300);
    assert_eq!(list.len(), 1 + 2 * 64);
    assert_eq!(list[0], DrawCommand::Clear { width: 400, height: 300 });
    for e in 0..64usize {
        let x = ((e % 8) * 50) as i64;
        let y = ((e / 8) * 50) as i64;
        let style = if e == 1 { "rgb(0,0,0)" } else { "rgb(255,255,255)" };
        assert_eq!(
            list[1 + 2 * e],
            DrawCommand::FillRect { x, y, width: 50, height: 50, style: style.to_string() }
        );
        assert_eq!(
            list[2 + 2 * e],
            DrawCommand::StrokeRect { x, y, width: 50, height: 50, style: "black".to_string() }
        );
    }
}

#[test]
fn render_of_an_empty_world_only_clears() {
    let game = Game::new();
    assert_eq!(game.render(10, 20), vec![DrawCommand::Clear { width: 10, height: 20 }]);
}
