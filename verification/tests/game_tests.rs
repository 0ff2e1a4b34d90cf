use poly_battle::game::{
    collect_coins_hit, rollback_player_if_collided, Game, GameMapDimensions,
    MIN_FRAMES_BETWEEN_SHOTS,
};
use poly_battle::game_objects::boundary::Boundary;
use poly_battle::game_objects::coin::Coin;
use poly_battle::game_objects::player::Player;
use poly_battle::structs::game_object_type::GameObjectType;
use poly_battle::structs::movement::{Direction, Rotation};
use poly_battle::structs::pixel::Point;
use poly_battle::structs::pixel_map::PointSet;
use poly_battle::structs::player_input::{Key, PlayerInput};

fn fire() -> Option<PlayerInput> {
    Some(PlayerInput::KeyDown(Key::SpaceBar))
}

fn key(k: Key) -> Option<PlayerInput> {
    Some(PlayerInput::KeyDown(k))
}

#[test]
fn min_frames_between_shots_is_eight() {
    // frameRate 60 at up to 7 shots per second gives 8 ticks between shots.
    assert_eq!(MIN_FRAMES_BETWEEN_SHOTS, 8);
}

#[test]
fn boundary_rollback_restores_previous_origin() {
    // A player at (100, 100) whose previous origin is (95, 100) and whose
    // pixels overlap the wall band ends at (95, 100), not anywhere between.
    let mut player = Player::new(Point::new(95, 100));
    player.set_origin(Point::new(100, 100));
    assert_eq!(player.origin(), Point::new(100, 100));
    assert_eq!(player.prev_origin(), Some(Point::new(95, 100)));
    // Arena 108 wide: the right wall band covers x in [103, 108), and the
    // 8-wide player at x 100 reaches x 107.
    let boundary = Boundary::new(108, 208);
    rollback_player_if_collided(&mut player, &boundary);
    assert_eq!(player.origin(), Point::new(95, 100));
}

#[test]
fn no_rollback_without_wall_contact() {
    let mut player = Player::new(Point::new(40, 100));
    player.set_origin(Point::new(45, 100));
    let boundary = Boundary::new(108, 208);
    rollback_player_if_collided(&mut player, &boundary);
    assert_eq!(player.origin(), Point::new(45, 100));
}

#[test]
fn fire_rate_gate_rejects_the_seventh_tick() {
    // Firing on tick 0 succeeds; firing again on tick 7 is rejected; firing
    // on tick 8 succeeds.
    let mut game = Game::init(800, 600);
    game.tick(fire());
    assert_eq!(game.projectiles().len(), 1);
    for _ in 1..7 {
        game.tick(None);
    }
    game.tick(fire());
    assert_eq!(game.projectiles().len(), 1);
    game.tick(fire());
    assert_eq!(game.projectiles().len(), 2);
}

#[test]
fn coin_respawns_in_the_tick_that_collects_the_last_one() {
    // Player at (100, 150) facing up; the coin sits at (100, 100). The shot
    // travels up 10 pixels per tick and sweeps the coin; the world is never
    // left coinless, and the new coin lies inside the arena.
    let mut game = Game::init(200, 200);
    assert_eq!(game.player().origin(), Point::new(100, 150));
    assert_eq!(game.coins().len(), 1);
    assert_eq!(game.coins()[0].origin(), Point::new(100, 100));
    game.tick(fire());
    for _ in 0..4 {
        game.tick(None);
        assert!(game.coins().len() >= 1);
    }
    assert_eq!(game.player().coin_count(), 1);
    assert_eq!(game.coins().len(), 1);
    let respawned = game.coins()[0].origin();
    assert!(0 <= respawned.x && respawned.x < 200);
    assert!(0 <= respawned.y && respawned.y < 200);
}

#[test]
fn coins_survive_every_tick() {
    let mut game = Game::init(200, 200);
    let inputs = [
        key(Key::D),
        None,
        fire(),
        key(Key::Num3),
        None,
        key(Key::W),
        None,
        None,
        fire(),
        None,
    ];
    for input in inputs {
        game.tick(input);
        assert!(game.coins().len() >= 1);
    }
}

#[test]
fn collecting_two_coins_removes_exactly_those_two() {
    // Two of three coins are under fire: exactly those two go, the third
    // stays, and the removed count is exactly two.
    let mut coins = vec![
        Coin::new(0, Point::new(10, 10)),
        Coin::new(1, Point::new(40, 40)),
        Coin::new(2, Point::new(80, 80)),
    ];
    let mut hit_points = PointSet::empty();
    hit_points.insert(Point::new(10, 10));
    hit_points.insert(Point::new(44, 44));
    let removed = collect_coins_hit(&mut coins, &hit_points);
    assert_eq!(removed, 2);
    assert_eq!(coins.len(), 1);
    assert_eq!(coins[0].id(), 2);
}

#[test]
fn collecting_no_coins_removes_none() {
    let mut coins = vec![Coin::new(0, Point::new(10, 10))];
    let mut hit_points = PointSet::empty();
    hit_points.insert(Point::new(30, 30));
    let removed = collect_coins_hit(&mut coins, &hit_points);
    assert_eq!(removed, 0);
    assert_eq!(coins.len(), 1);
}

#[test]
fn projectile_is_destroyed_on_wall_contact() {
    // A shot fired up from (100, 150) reaches the top wall band after 15
    // ticks in flight and is gone from the live collection.
    let mut game = Game::init(200, 200);
    game.tick(fire());
    for _ in 0..5 {
        game.tick(None);
    }
    assert_eq!(game.projectiles().len(), 1);
    for _ in 5..14 {
        game.tick(None);
    }
    assert_eq!(game.projectiles().len(), 0);
}

#[test]
fn direction_key_moves_the_player() {
    let mut game = Game::init(200, 200);
    game.tick(key(Key::D));
    assert_eq!(game.player().direction(), Direction::Right);
    assert_eq!(game.player().origin(), Point::new(105, 150));
    game.tick(key(Key::W));
    assert_eq!(game.player().origin(), Point::new(105, 145));
}

#[test]
fn speed_key_replaces_the_speed() {
    let mut game = Game::init(200, 200);
    game.tick(key(Key::Num3));
    assert_eq!(game.player().speed(), 3);
    game.tick(key(Key::D));
    assert_eq!(game.player().origin(), Point::new(103, 150));
    game.tick(key(Key::Num1));
    assert_eq!(game.player().speed(), 1);
}

#[test]
fn free_roam_keeps_the_facing() {
    let mut game = Game::init(200, 200);
    game.tick(key(Key::S));
    assert_eq!(game.player().direction(), Direction::Down);
    assert_eq!(game.player().rotation(), Rotation::Up);
}

#[test]
fn projectile_keeps_the_firing_facing() {
    let mut game = Game::init(200, 200);
    game.tick(fire());
    let projectile = &game.projectiles()[0];
    assert_eq!(projectile.rotation(), Rotation::Up);
    assert_eq!(projectile.direction(), Direction::Up);
    assert!(!projectile.rotation_enabled());
    assert_eq!(projectile.speed(), 10);
}

#[test]
fn alternate_keyset_maps_to_the_same_directions() {
    let mut game = Game::init(200, 200);
    game.tick(key(Key::J));
    assert_eq!(game.player().direction(), Direction::Left);
    game.tick(key(Key::I));
    assert_eq!(game.player().direction(), Direction::Up);
    game.tick(key(Key::K));
    assert_eq!(game.player().direction(), Direction::Down);
    game.tick(key(Key::L));
    assert_eq!(game.player().direction(), Direction::Right);
}

#[test]
fn destroy_projectile_removes_by_id() {
    let mut game = Game::init(200, 200);
    game.tick(fire());
    assert_eq!(game.projectiles().len(), 1);
    let id = game.projectiles()[0].id();
    game.destroy_projectile(id);
    assert_eq!(game.projectiles().len(), 0);
}

#[test]
fn collect_coin_removes_by_id_and_counts() {
    let mut game = Game::init(200, 200);
    game.collect_coin(0);
    assert_eq!(game.coins().len(), 0);
    assert_eq!(game.player().coin_count(), 1);
}

#[test]
fn all_game_objects_in_draw_order() {
    let mut game = Game::init(200, 200);
    let all = game.all_game_objects();
    assert_eq!(all.len(), 3);
    assert_eq!(all[0].0, GameObjectType::Boundary);
    assert_eq!(all[1].0, GameObjectType::Coin);
    assert_eq!(all[2].0, GameObjectType::Player);
    game.tick(fire());
    let all = game.all_game_objects();
    assert_eq!(all.len(), 4);
    assert_eq!(all[2].0, GameObjectType::Projectile);
}

#[test]
fn render_view_composites_all_layers() {
    let game = Game::init(200, 200);
    let view = game.render_view();
    // A wall pixel, a coin pixel, and a player pixel all appear.
    assert!(view.contains_key(Point::new(0, 0)));
    assert!(view.contains_key(Point::new(100, 100)));
    assert!(view.contains_key(Point::new(100, 150)));
    // The arena's interior away from every entity stays empty.
    assert!(!view.contains_key(Point::new(50, 50)));
}

#[test]
fn can_tick_accepts_an_ordinary_world() {
    let game = Game::init(200, 200);
    assert!(game.can_tick(None));
    assert!(game.can_tick(fire()));
    assert!(game.can_tick(key(Key::D)));
}

#[test]
fn map_dimensions_center() {
    let dims = GameMapDimensions::new(800, 600);
    assert_eq!(dims.width, 800);
    assert_eq!(dims.height, 600);
    assert_eq!(dims.center, Point::new(400, 300));
    assert_eq!(dims.origin, Point::new(0, 0));
}

#[test]
fn boundary_band_is_five_pixels_wide() {
    let boundary = Boundary::new(50, 50);
    let pixels = boundary.effective_pixels();
    assert!(pixels.contains_key(Point::new(0, 0)));
    assert!(pixels.contains_key(Point::new(4, 25)));
    assert!(!pixels.contains_key(Point::new(5, 25)));
    assert!(pixels.contains_key(Point::new(45, 25)));
    assert!(!pixels.contains_key(Point::new(44, 25)));
    assert!(pixels.contains_key(Point::new(25, 4)));
    assert!(pixels.contains_key(Point::new(25, 45)));
    assert!(!pixels.contains_key(Point::new(25, 25)));
    assert!(!pixels.contains_key(Point::new(50, 0)));
}
