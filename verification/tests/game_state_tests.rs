use poly_battle::game_state::GameState;
use poly_battle::structs::game_object_type::GameObjectType;
use poly_battle::structs::movement::Direction;
use poly_battle::structs::pixel::Point;
use poly_battle::structs::player_input::{Key, PlayerInput};

fn key(k: Key) -> Option<PlayerInput> {
    Some(PlayerInput::KeyDown(k))
}

#[test]
fn init_places_the_player_at_the_center() {
    let state = GameState::init(200, 200);
    assert_eq!(state.player().origin(), Point::new(100, 100));
    assert_eq!(state.coins().len(), 1);
    assert_eq!(state.coins()[0].origin(), Point::new(100, 100));
}

#[test]
fn player_collects_a_coin_by_touching_it() {
    // The player spawns exactly on the coin at (100, 100); the first tick
    // collects it and a fresh coin respawns inside the arena.
    let mut state = GameState::init(200, 200);
    state.tick(None);
    assert_eq!(state.player().coin_count(), 1);
    assert_eq!(state.coins().len(), 1);
    let respawned = state.coins()[0].origin();
    assert!(0 <= respawned.x && respawned.x < 200);
    assert!(0 <= respawned.y && respawned.y < 200);
}

#[test]
fn state_coins_survive_every_tick() {
    let mut state = GameState::init(200, 200);
    let inputs = [key(Key::D), None, key(Key::Num2), key(Key::S), None, None];
    for input in inputs {
        state.tick(input);
        assert!(state.coins().len() >= 1);
    }
}

#[test]
fn state_direction_keys_steer_the_player() {
    let mut state = GameState::init(200, 200);
    state.tick(key(Key::S));
    assert_eq!(state.player().direction(), Direction::Down);
}

#[test]
fn state_collect_coin_removes_by_id_and_counts() {
    let mut state = GameState::init(200, 200);
    state.collect_coin(0);
    assert_eq!(state.coins().len(), 0);
    assert_eq!(state.player().coin_count(), 1);
}

#[test]
fn state_can_tick_accepts_an_ordinary_world() {
    let state = GameState::init(200, 200);
    assert!(state.can_tick(None));
    assert!(state.can_tick(key(Key::A)));
}

#[test]
fn state_draw_order_is_wall_player_coins() {
    let state = GameState::init(200, 200);
    let all = state.all_game_objects();
    assert_eq!(all.len(), 3);
    assert_eq!(all[0].0, GameObjectType::Boundary);
    assert_eq!(all[1].0, GameObjectType::Player);
    assert_eq!(all[2].0, GameObjectType::Coin);
}
