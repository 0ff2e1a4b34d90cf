use vstd::prelude::*;

verus! {

use crate::game::{spec_rollback_player, GameMapDimensions};
use crate::game_objects::boundary::{boundary_map, Boundary, BoundaryView};
use crate::game_objects::coin::{Coin, CoinView};
use crate::game_objects::player::{
    player_tick_ok, spec_player_tick, Player, PlayerView,
};
use crate::game_objects::spatial::{default_spatial_at, spatial_consistent};
use crate::structs::game_object_type::GameObjectType;
use crate::structs::movement::{Direction, Rotation};
use crate::structs::pixel::Point;
use crate::structs::pixel_map::{rotatable, sets_intersect, translatable};
use crate::structs::player_input::{Key, PlayerInput};
use crate::structs::sprite::default_sprite_map;

/// A reduced world without projectiles: the player collects a coin by
/// walking into it.
pub struct GameState {
    map_dimensions: GameMapDimensions,
    player: Player,
    boundary: Boundary,
    coins: Vec<Coin>,
    next_coin_id: u32,
}

/// The mathematical state of the reduced world.
#[verifier::ext_equal]
pub struct GameStateView {
    pub width: u32,
    pub height: u32,
    pub player: PlayerView,
    pub boundary: BoundaryView,
    pub coins: Seq<CoinView>,
    pub next_coin_id: u32,
}

impl View for GameState {
    type V = GameStateView;

    closed spec fn view(&self) -> GameStateView {
        GameStateView {
            width: self.map_dimensions.width,
            height: self.map_dimensions.height,
            player: self.player@,
            boundary: self.boundary@,
            coins: self.coins@.map_values(|c: Coin| c@),
            next_coin_id: self.next_coin_id,
        }
    }
}

/// The reduced world is well formed: like the full world, without the
/// projectile clauses.
pub open spec fn game_state_wf(g: GameStateView) -> bool {
    &&& 10 <= g.width <= i32::MAX - 8
    &&& 10 <= g.height <= i32::MAX - 8
    &&& spatial_consistent(g.player.spatial)
    &&& rotatable(g.player.spatial.sprite_original)
    &&& spatial_consistent(g.boundary.spatial)
    &&& g.boundary.spatial.origin == ((0int, 0int))
    &&& g.boundary.spatial.sprite_original == boundary_map(g.width as int, g.height as int)
    &&& g.boundary.spatial.orientation == Rotation::Up
    &&& g.boundary.spatial.effective_points == boundary_map(
        g.width as int,
        g.height as int,
    ).dom()
    &&& g.coins.len() >= 1
    &&& forall|i: int| 0 <= i < g.coins.len() ==> spatial_consistent((#[trigger] g.coins[i]).spatial)
    &&& forall|i: int, j: int|
        0 <= i < g.coins.len() && 0 <= j < g.coins.len() && i != j ==> #[trigger] g.coins[i].id
            != #[trigger] g.coins[j].id
    &&& forall|i: int| 0 <= i < g.coins.len() ==> (#[trigger] g.coins[i].id) < g.next_coin_id
}

/// The reduced world after the input phase: direction and speed keys as in
/// the full world; there is nothing to fire, so the fire key does nothing.
pub open spec fn spec_state_apply_input(
    g: GameStateView,
    event: Option<PlayerInput>,
) -> GameStateView {
    match event {
        None => g,
        Some(PlayerInput::KeyDown(key)) => match key {
            Key::W | Key::I => GameStateView {
                player: PlayerView { direction: Direction::Up, ..g.player },
                ..g
            },
            Key::A | Key::J => GameStateView {
                player: PlayerView { direction: Direction::Left, ..g.player },
                ..g
            },
            Key::S | Key::K => GameStateView {
                player: PlayerView { direction: Direction::Down, ..g.player },
                ..g
            },
            Key::D | Key::L => GameStateView {
                player: PlayerView { direction: Direction::Right, ..g.player },
                ..g
            },
            Key::Num1 => GameStateView { player: PlayerView { speed: 1, ..g.player }, ..g },
            Key::Num2 => GameStateView { player: PlayerView { speed: 2, ..g.player }, ..g },
            Key::Num3 => GameStateView { player: PlayerView { speed: 3, ..g.player }, ..g },
            Key::Num4 => GameStateView { player: PlayerView { speed: 4, ..g.player }, ..g },
            Key::Num5 => GameStateView { player: PlayerView { speed: 5, ..g.player }, ..g },
            Key::SpaceBar => g,
        },
    }
}

/// The reduced world after the coin phase: every coin the player touches is
/// collected — removed in one pass, with the player's counter stepped once
/// per removed coin.
pub open spec fn spec_state_collect_coins(g: GameStateView) -> GameStateView {
    let survivors = g.coins.filter(
        |c: CoinView|
            !sets_intersect(c.spatial.effective_points, g.player.spatial.effective_points),
    );
    GameStateView {
        coins: survivors,
        player: PlayerView {
            coin_count: (g.player.coin_count + g.coins.len() - survivors.len()) as u32,
            ..g.player
        },
        ..g
    }
}

/// The reduced world after the respawn phase.
pub open spec fn spec_state_respawn(g: GameStateView, c: (int, int)) -> GameStateView {
    if g.coins.len() == 0 {
        GameStateView {
            coins: g.coins.push(CoinView { id: g.next_coin_id, spatial: default_spatial_at(c) }),
            next_coin_id: (g.next_coin_id + 1) as u32,
            ..g
        }
    } else {
        g
    }
}

/// One whole tick of the reduced world: input, player movement, wall
/// rollback, player-coin collection, coin respawn, in that fixed order.
pub open spec fn spec_state_tick(
    g: GameStateView,
    event: Option<PlayerInput>,
    c: (int, int),
) -> GameStateView {
    let g1 = spec_state_apply_input(g, event);
    let g2 = GameStateView { player: spec_player_tick(g1.player), ..g1 };
    let g3 = GameStateView { player: spec_rollback_player(g2.player, g2.boundary), ..g2 };
    spec_state_respawn(spec_state_collect_coins(g3), c)
}

/// The arithmetic of one reduced-world tick stays inside the machine's
/// integer types.
pub open spec fn game_state_tick_ok(g: GameStateView, event: Option<PlayerInput>) -> bool {
    let g1 = spec_state_apply_input(g, event);
    &&& player_tick_ok(g1.player)
    &&& translatable(spec_player_tick(g1.player).spatial.sprite, g1.player.spatial.origin)
    &&& g.next_coin_id < u32::MAX
    &&& g.player.coin_count + g.coins.len() <= u32::MAX
}

impl GameState {
    /// Build the reduced world: the wall, the player at the arena's center
    /// with its default facing, and one coin at (100, 100).
    pub fn init(map_width: u32, map_height: u32) -> (r: GameState)
        requires
            10 <= map_width <= i32::MAX - 8,
            10 <= map_height <= i32::MAX - 8,
        ensures
            r@ == (GameStateView {
                width: map_width,
                height: map_height,
                player: PlayerView {
                    id: 0,
                    spatial: default_spatial_at(
                        (map_width as int / 2, map_height as int / 2),
                    ),
                    prev_origin: None,
                    speed: 5,
                    direction: Direction::Up,
                    rotation: Rotation::Up,
                    rotation_enabled: true,
                    coin_count: 0,
                    frames_since_last_shot: u32::MAX,
                },
                boundary: Boundary::spec_initial(map_width, map_height),
                coins: seq![CoinView { id: 0, spatial: default_spatial_at((100, 100)) }],
                next_coin_id: 1,
            }),
            game_state_wf(r@),
    {
        let map_dimensions = GameMapDimensions::new(map_width, map_height);
        let boundary = Boundary::new(map_dimensions.width, map_dimensions.height);
        proof {
            assert forall|p: (int, int)| #[trigger]
                default_sprite_map().dom().contains(p) implies i32::MIN <= p.0 + (map_width as int
                / 2) <= i32::MAX && i32::MIN <= p.1 + (map_height as int / 2) <= i32::MAX by {}
            assert forall|p: (int, int)| #[trigger]
                default_sprite_map().dom().contains(p) implies i32::MIN <= p.0 + 100 <= i32::MAX
                && i32::MIN <= p.1 + 100 <= i32::MAX by {}
        }
        let player = Player::new(Point::new(map_dimensions.center.x, map_dimensions.center.y));
        let coin_origin = Point::new(
            map_dimensions.origin.x + 100,
            map_dimensions.origin.y + 100,
        );
        let first_coin = Coin::new(0, coin_origin);
        let mut coins: Vec<Coin> = Vec::new();
        coins.push(first_coin);
        let r = GameState { map_dimensions, boundary, player, coins, next_coin_id: 1 };
        proof {
            assert(r@.coins =~= seq![
                CoinView { id: 0, spatial: default_spatial_at((100, 100)) },
            ]);
            assert(r@ =~= (GameStateView {
                width: map_width,
                height: map_height,
                player: PlayerView {
                    id: 0,
                    spatial: default_spatial_at(
                        (map_width as int / 2, map_height as int / 2),
                    ),
                    prev_origin: None,
                    speed: 5,
                    direction: Direction::Up,
                    rotation: Rotation::Up,
                    rotation_enabled: true,
                    coin_count: 0,
                    frames_since_last_shot: u32::MAX,
                },
                boundary: Boundary::spec_initial(map_width, map_height),
                coins: seq![CoinView { id: 0, spatial: default_spatial_at((100, 100)) }],
                next_coin_id: 1,
            }));
        }
        r
    }

    /// Roll the player back to its pre-move origin if it touches the wall.
    pub fn handle_collisions_with_boundary(&mut self)
        requires
            sets_intersect(
                old(self)@.player.spatial.effective_points,
                old(self)@.boundary.spatial.effective_points,
            ) ==> old(self)@.player.prev_origin is Some && translatable(
                old(self)@.player.spatial.sprite,
                match old(self)@.player.prev_origin {
                    Some(q) => q,
                    None => old(self)@.player.spatial.origin,
                },
            ),
        ensures
            final(self)@ == (GameStateView {
                player: spec_rollback_player(old(self)@.player, old(self)@.boundary),
                ..old(self)@
            }),
    {
        let collided = self.player.has_collided_with(self.boundary.effective_points());
        if collided {
            let prev_player_origin = self.player.prev_origin_unchecked();
            self.player.set_origin(prev_player_origin);
        }
        proof {
            assert(self@ =~= (GameStateView {
                player: spec_rollback_player(old(self)@.player, old(self)@.boundary),
                ..old(self)@
            }));
        }
    }

    /// Collect every coin the player touches: mark them all, then remove the
    /// marked ones in one pass, counting each for the player.
    pub fn handle_collisions_with_coins(&mut self)
        requires
            old(self)@.player.coin_count + old(self)@.coins.len() <= u32::MAX,
        ensures
            final(self)@ == spec_state_collect_coins(old(self)@),
    {
        let ghost g0 = self@;
        let ghost nc = g0.coins.len();
        let removed = crate::game::collect_coins_hit(
            &mut self.coins,
            self.player.effective_points(),
        );
        let ghost survivors = g0.coins.filter(
            |c: CoinView|
                !sets_intersect(c.spatial.effective_points, g0.player.spatial.effective_points),
        );
        proof {
            assert(self.coins@.map_values(|c: Coin| c@) == survivors);
            assert(removed == nc - survivors.len());
        }
        let mut r: usize = 0;
        while r < removed
            invariant
                0 <= r <= removed,
                removed == nc - survivors.len(),
                survivors.len() <= nc,
                nc == g0.coins.len(),
                g0.player.coin_count + nc <= u32::MAX,
                survivors == g0.coins.filter(
                    |c: CoinView|
                        !sets_intersect(
                            c.spatial.effective_points,
                            g0.player.spatial.effective_points,
                        ),
                ),
                self.coins@.map_values(|c: Coin| c@) == survivors,
                self.player@ == (PlayerView {
                    coin_count: (g0.player.coin_count + r) as u32,
                    ..g0.player
                }),
                self.boundary@ == g0.boundary,
                self.map_dimensions.width == g0.width,
                self.map_dimensions.height == g0.height,
                self.next_coin_id == g0.next_coin_id,
            decreases removed - r,
        {
            self.player.increment_coin_count();
            r += 1;
        }
        proof {
            assert(self@ =~= spec_state_collect_coins(g0));
        }
    }

    /// One whole simulation step of the reduced world, as `spec_state_tick`
    /// describes.
    pub fn tick(&mut self, event: Option<PlayerInput>)
        requires
            game_state_wf(old(self)@),
            game_state_tick_ok(old(self)@, event),
        ensures
            exists|c: (int, int)|
                0 <= c.0 < old(self)@.width && 0 <= c.1 < old(self)@.height && final(self)@
                    == spec_state_tick(old(self)@, event, c),
            final(self)@.coins.len() >= 1,
            game_state_wf(final(self)@),
    {
        let ghost g0 = self@;
        match &event {
            Some(PlayerInput::KeyDown(key)) => match key {
                Key::W | Key::I => self.player.change_direction(Direction::Up),
                Key::A | Key::J => self.player.change_direction(Direction::Left),
                Key::S | Key::K => self.player.change_direction(Direction::Down),
                Key::D | Key::L => self.player.change_direction(Direction::Right),
                Key::Num1 => self.player.change_speed(1),
                Key::Num2 => self.player.change_speed(2),
                Key::Num3 => self.player.change_speed(3),
                Key::Num4 => self.player.change_speed(4),
                Key::Num5 => self.player.change_speed(5),
                Key::SpaceBar => {},
            },
            None => {},
        }
        let ghost g1 = spec_state_apply_input(g0, event);
        proof {
            assert(self@ =~= g1);
        }
        self.player.tick();
        let ghost g2 = GameStateView { player: spec_player_tick(g1.player), ..g1 };
        proof {
            assert(self@ =~= g2);
        }
        self.handle_collisions_with_boundary();
        let ghost g3 = GameStateView {
            player: spec_rollback_player(g2.player, g2.boundary),
            ..g2
        };
        proof {
            assert(g3.player.coin_count == g0.player.coin_count);
            assert(g3.coins == g0.coins);
        }
        self.handle_collisions_with_coins();
        let ghost g4 = spec_state_collect_coins(g3);
        let ghost mut witness: (int, int) = (0int, 0int);
        if self.coins.len() == 0 {
            let x = crate::game::random_below(self.map_dimensions.width);
            let y = crate::game::random_below(self.map_dimensions.height);
            proof {
                assert forall|p: (int, int)| #[trigger]
                    default_sprite_map().dom().contains(p) implies i32::MIN <= p.0 + x <= i32::MAX
                    && i32::MIN <= p.1 + y <= i32::MAX by {}
            }
            let coin = Coin::new(self.next_coin_id, Point::new(x as i32, y as i32));
            let ghost coins_before = self.coins@.map_values(|c: Coin| c@);
            self.coins.push(coin);
            self.next_coin_id = self.next_coin_id + 1;
            proof {
                witness = (x as int, y as int);
                assert(self.coins@.map_values(|c: Coin| c@) =~= coins_before.push(coin@));
            }
        }
        proof {
            assert(self@ =~= spec_state_respawn(g4, witness));
            lemma_spec_state_tick_wf(g0, event, witness);
            assert(self@ == spec_state_tick(g0, event, witness));
        }
    }

    /// Whether a tick with `event` stays inside the machine's integer types:
    /// the executable test for `game_state_tick_ok`.
    pub fn can_tick(&self, event: Option<PlayerInput>) -> (r: bool)
        requires
            game_state_wf(self@),
        ensures
            r == game_state_tick_ok(self@, event),
    {
        let ghost g = self@;
        let ghost g1 = spec_state_apply_input(g, event);
        let mut dir = self.player.direction();
        let mut speed = self.player.speed();
        match &event {
            Some(PlayerInput::KeyDown(key)) => match key {
                Key::W | Key::I => dir = Direction::Up,
                Key::A | Key::J => dir = Direction::Left,
                Key::S | Key::K => dir = Direction::Down,
                Key::D | Key::L => dir = Direction::Right,
                Key::Num1 => speed = 1,
                Key::Num2 => speed = 2,
                Key::Num3 => speed = 3,
                Key::Num4 => speed = 4,
                Key::Num5 => speed = 5,
                Key::SpaceBar => {},
            },
            None => {},
        }
        proof {
            assert(g1.player.direction == dir);
            assert(g1.player.speed == speed);
            assert(g1.player.spatial == g.player.spatial);
            assert(g1.player.rotation == g.player.rotation);
            assert(g1.player.rotation_enabled == g.player.rotation_enabled);
        }
        let rotation = self.player.rotation();
        let origin = self.player.origin();
        let new_rot = if self.player.rotation_enabled() {
            crate::game_objects::spatial::compute_rotation_for(dir, rotation)
        } else {
            rotation
        };
        let mx: i64;
        let my: i64;
        match dir {
            Direction::Up => {
                mx = origin.x as i64;
                my = origin.y as i64 - speed as i64;
            },
            Direction::Down => {
                mx = origin.x as i64;
                my = origin.y as i64 + speed as i64;
            },
            Direction::Left => {
                mx = origin.x as i64 - speed as i64;
                my = origin.y as i64;
            },
            Direction::Right => {
                mx = origin.x as i64 + speed as i64;
                my = origin.y as i64;
            },
            Direction::Stopped => {
                mx = origin.x as i64;
                my = origin.y as i64;
            },
        }
        let move_ok = i32::MIN as i64 <= mx && mx <= i32::MAX as i64 && i32::MIN as i64 <= my && my
            <= i32::MAX as i64;
        proof {
            assert((mx as int, my as int) == crate::game_objects::spatial::moved_origin(
                g1.player.spatial.origin,
                dir,
                speed,
            ));
            assert(move_ok == crate::game_objects::spatial::move_in_range(
                g1.player.spatial.origin,
                dir,
                speed,
            ));
        }
        let mut player_ok = move_ok;
        if move_ok {
            let new_o = Point::new(mx as i32, my as i32);
            let rot_changed = new_rot != rotation;
            let o_changed = new_o != origin;
            if rot_changed {
                let turned = self.player.sprite().original_pixels().rotated(new_rot);
                player_ok = turned.can_translate(new_o) && turned.can_translate(origin);
            } else if o_changed {
                player_ok = self.player.sprite().pixels().can_translate(new_o) && self.player
                    .sprite().pixels().can_translate(origin);
            } else {
                player_ok = self.player.sprite().pixels().can_translate(origin);
            }
        }
        proof {
            assert(player_ok == (player_tick_ok(g1.player) && translatable(
                spec_player_tick(g1.player).spatial.sprite,
                g1.player.spatial.origin,
            )));
        }
        let counters_ok = self.next_coin_id < u32::MAX && (self.player.coin_count() as u128 + self
            .coins.len() as u128 <= u32::MAX as u128);
        player_ok && counters_ok
    }

    /// The player.
    pub fn player(&self) -> (r: &Player)
        ensures
            r@ == self@.player,
    {
        &self.player
    }

    /// The wall.
    pub fn boundary(&self) -> (r: &Boundary)
        ensures
            r@ == self@.boundary,
    {
        &self.boundary
    }

    /// The live coins.
    pub fn coins(&self) -> (r: &Vec<Coin>)
        ensures
            r@.map_values(|c: Coin| c@) == self@.coins,
    {
        &self.coins
    }

    /// Remove the coin with the given id and count it for the player; the id
    /// must be live.
    pub fn collect_coin(&mut self, coin_id: u32)
        requires
            old(self)@.player.coin_count < u32::MAX,
            exists|i: int|
                #![trigger old(self)@.coins[i]]
                0 <= i < old(self)@.coins.len() && old(self)@.coins[i].id == coin_id,
        ensures
            exists|i: int|
                #![trigger old(self)@.coins[i]]
                0 <= i < old(self)@.coins.len() && old(self)@.coins[i].id == coin_id && (forall|
                    j: int,
                |
                    0 <= j < i ==> old(self)@.coins[j].id != coin_id) && final(self)@
                    == (GameStateView {
                    coins: old(self)@.coins.remove(i),
                    player: PlayerView {
                        coin_count: (old(self)@.player.coin_count + 1) as u32,
                        ..old(self)@.player
                    },
                    ..old(self)@
                }),
    {
        let n = self.coins.len();
        let mut i: usize = 0;
        while i < n && self.coins[i].id() != coin_id
            invariant
                n == self.coins@.len(),
                0 <= i <= n,
                forall|j: int| 0 <= j < i ==> #[trigger] self.coins@[j]@.id != coin_id,
            decreases n - i,
        {
            i += 1;
        }
        proof {
            if i == n {
                let j = choose|j: int|
                    #![trigger old(self)@.coins[j]]
                    0 <= j < old(self)@.coins.len() && old(self)@.coins[j].id == coin_id;
                assert(self.coins@[j]@.id == coin_id);
                assert(false);
            }
            assert(self.coins@[i as int]@.id == coin_id);
        }
        self.coins.remove(i);
        self.player.increment_coin_count();
        proof {
            assert(old(self)@.coins[i as int].id == coin_id);
            assert forall|j: int| 0 <= j < i implies old(self)@.coins[j].id != coin_id by {
                assert(old(self)@.coins[j] == old(self).coins@[j]@);
            }
            assert(self@.coins =~= old(self)@.coins.remove(i as int));
            assert(self@ =~= (GameStateView {
                coins: old(self)@.coins.remove(i as int),
                player: PlayerView {
                    coin_count: (old(self)@.player.coin_count + 1) as u32,
                    ..old(self)@.player
                },
                ..old(self)@
            }));
        }
    }

    /// The render-ready pixels of the reduced world: the wall as the base
    /// layer, the player over it, and the coins on top; where entities
    /// overlap, the later layer wins.
    pub fn render_view(&self) -> (r: crate::structs::pixel_map::PixelMap)
        ensures
            r@ == crate::game::merge_coin_pixels(
                self@.boundary.spatial.effective_pixels.union_prefer_right(
                    self@.player.spatial.effective_pixels,
                ),
                self@.coins,
            ),
    {
        let mut acc = self.boundary.effective_pixels().copied();
        self.player.effective_pixels().merge_into(&mut acc);
        let nc = self.coins.len();
        let mut i: usize = 0;
        while i < nc
            invariant
                nc == self.coins@.len(),
                0 <= i <= nc,
                acc@ =~= crate::game::merge_coin_pixels(
                    self@.boundary.spatial.effective_pixels.union_prefer_right(
                        self@.player.spatial.effective_pixels,
                    ),
                    self@.coins.take(i as int),
                ),
            decreases nc - i,
        {
            self.coins[i].effective_pixels().merge_into(&mut acc);
            proof {
                let cs = self@.coins;
                assert(cs.take(i as int + 1).drop_last() =~= cs.take(i as int));
                assert(cs.take(i as int + 1).last() == cs[i as int]);
                assert(cs[i as int] == self.coins@[i as int]@);
            }
            i += 1;
        }
        proof {
            assert(self@.coins.take(nc as int) =~= self@.coins);
        }
        acc
    }

    /// The identities of every live entity, in draw order: the wall first,
    /// then the player, then the coins.
    pub fn all_game_objects(&self) -> (r: Vec<(GameObjectType, u32)>)
        ensures
            r@.len() == 2 + self@.coins.len(),
            r@[0] == (GameObjectType::Boundary, self@.boundary.id),
            r@[1] == (GameObjectType::Player, self@.player.id),
            forall|i: int|
                0 <= i < self@.coins.len() ==> r@[2 + i] == (
                    GameObjectType::Coin,
                    #[trigger] self@.coins[i].id,
                ),
    {
        let mut all: Vec<(GameObjectType, u32)> = Vec::new();
        all.push((GameObjectType::Boundary, self.boundary.id()));
        all.push((GameObjectType::Player, self.player.id()));
        let nc = self.coins.len();
        let mut i: usize = 0;
        while i < nc
            invariant
                nc == self.coins@.len(),
                0 <= i <= nc,
                all@.len() == 2 + i,
                all@[0] == (GameObjectType::Boundary, self@.boundary.id),
                all@[1] == (GameObjectType::Player, self@.player.id),
                forall|j: int|
                    0 <= j < i ==> all@[2 + j] == (
                        GameObjectType::Coin,
                        #[trigger] self@.coins[j].id,
                    ),
            decreases nc - i,
        {
            all.push((GameObjectType::Coin, self.coins[i].id()));
            i += 1;
        }
        all
    }
}

/// A well-formed reduced world stays well formed across a tick, and the tick
/// never ends with the world coinless.
proof fn lemma_spec_state_tick_wf(g: GameStateView, event: Option<PlayerInput>, c: (int, int))
    requires
        game_state_wf(g),
        game_state_tick_ok(g, event),
        0 <= c.0 < g.width,
        0 <= c.1 < g.height,
    ensures
        game_state_wf(spec_state_tick(g, event, c)),
        spec_state_tick(g, event, c).coins.len() >= 1,
{
    let g1 = spec_state_apply_input(g, event);
    assert(game_state_wf(g1));
    let g2 = GameStateView { player: spec_player_tick(g1.player), ..g1 };
    assert(game_state_wf(g2)) by {
        assert(spatial_consistent(spec_player_tick(g1.player).spatial));
    }
    let g3 = GameStateView { player: spec_rollback_player(g2.player, g2.boundary), ..g2 };
    assert(game_state_wf(g3));
    let g4 = spec_state_collect_coins(g3);
    assert(game_state_wf(spec_state_respawn(g4, c)) && spec_state_respawn(g4, c).coins.len()
        >= 1) by {
        let pred = |cv: CoinView|
            !sets_intersect(cv.spatial.effective_points, g3.player.spatial.effective_points);
        crate::game::lemma_filter_id_facts(g3.coins, pred, |cv: CoinView| cv.id as int);
        assert forall|j: int|
            0 <= j < g4.coins.len() implies spatial_consistent(
            (#[trigger] g4.coins[j]).spatial,
        ) && g4.coins[j].id < g4.next_coin_id by {
            let orig = choose|a: int| 0 <= a < g3.coins.len() && g4.coins[j] == g3.coins[a];
            assert(spatial_consistent(g3.coins[orig].spatial));
            assert(g3.coins[orig].id < g3.next_coin_id);
        }
        if g4.coins.len() == 0 {
            crate::structs::sprite::lemma_rotate_identity(default_sprite_map());
            let g5 = spec_state_respawn(g4, c);
            assert(g5.coins[0] == CoinView { id: g4.next_coin_id, spatial: default_spatial_at(c) });
        }
    }
}


} // verus!
