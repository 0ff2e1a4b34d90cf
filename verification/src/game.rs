use vstd::prelude::*;

verus! {

use crate::game_objects::boundary::{boundary_map, Boundary, BoundaryView};
use crate::game_objects::coin::{Coin, CoinView};
use crate::game_objects::player::{
    player_tick_ok, spec_player_tick, Player, PlayerView,
};
use crate::game_objects::projectile::{
    projectile_spatial_at, projectile_tick_ok, spec_projectile_tick, Projectile, ProjectileView,
};
use crate::game_objects::spatial::{
    default_spatial_at, direction_for, spatial_consistent, SpatialView,
};
use crate::structs::game_object_type::GameObjectType;
use crate::structs::movement::{Direction, Rotation};
use crate::structs::pixel::Point;
use crate::structs::pixel_map::{
    rotatable, rotated_map, sets_intersect, translatable, translated_map, PointSet,
};
use crate::structs::player_input::{Key, PlayerInput};
use crate::structs::sprite::default_sprite_map;

/// Ticks per second the surrounding loop aims for.
pub const FRAME_RATE: u32 = 60;

/// The most shots allowed per second.
pub const MAX_FIRE_RATE_PER_SEC: u32 = 7;

/// How many ticks must pass between two successful shots.
pub const MIN_FRAMES_BETWEEN_SHOTS: u32 = FRAME_RATE / MAX_FIRE_RATE_PER_SEC;

/// Free-roam movement: the player keeps its facing instead of turning into
/// the travel direction.
const FREE_ROAM_ENABLED: bool = true;

/// The arena's size and its two reference points.
#[derive(Debug)]
pub struct GameMapDimensions {
    pub width: u32,
    pub height: u32,
    pub center: Point,
    pub origin: Point,
}

impl GameMapDimensions {
    pub fn new(width: u32, height: u32) -> (r: Self)
        ensures
            r.width == width,
            r.height == height,
            r.center@ == (width as int / 2, height as int / 2),
            r.origin@ == (0int, 0int),
    {
        Self {
            width,
            height,
            center: Point::new((width / 2) as i32, (height / 2) as i32),
            origin: Point::new(0, 0),
        }
    }
}

/// The world: one player, one wall, the live coins and projectiles, and the
/// id counters for the entities this engine makes.
pub struct Game {
    map_dimensions: GameMapDimensions,
    player: Player,
    boundary: Boundary,
    coins: Vec<Coin>,
    projectiles: Vec<Projectile>,
    next_coin_id: u32,
    next_projectile_id: u32,
}

/// The mathematical state of the world.
#[verifier::ext_equal]
pub struct GameView {
    pub width: u32,
    pub height: u32,
    pub player: PlayerView,
    pub boundary: BoundaryView,
    pub coins: Seq<CoinView>,
    pub projectiles: Seq<ProjectileView>,
    pub next_coin_id: u32,
    pub next_projectile_id: u32,
}

impl View for Game {
    type V = GameView;

    closed spec fn view(&self) -> GameView {
        GameView {
            width: self.map_dimensions.width,
            height: self.map_dimensions.height,
            player: self.player@,
            boundary: self.boundary@,
            coins: self.coins@.map_values(|c: Coin| c@),
            projectiles: self.projectiles@.map_values(|p: Projectile| p@),
            next_coin_id: self.next_coin_id,
            next_projectile_id: self.next_projectile_id,
        }
    }
}

/// A coin is well formed.
pub open spec fn coin_view_wf(c: CoinView) -> bool {
    spatial_consistent(c.spatial)
}

/// A projectile is well formed.
pub open spec fn projectile_view_wf(p: ProjectileView) -> bool {
    &&& spatial_consistent(p.spatial)
    &&& rotatable(p.spatial.sprite_original)
}

/// The world is well formed: the arena has room for the wall band and every
/// coordinate stays clear of the `i32` edge, every entity's derived state
/// agrees with its primary state, the wall is the arena band anchored at
/// (0, 0), at least one coin is live, and ids are unique per entity kind and
/// below that kind's counter.
pub open spec fn game_wf(g: GameView) -> bool {
    &&& 10 <= g.width <= i32::MAX - 8
    &&& 10 <= g.height <= i32::MAX - 8
    &&& spatial_consistent(g.player.spatial)
    &&& rotatable(g.player.spatial.sprite_original)
    &&& spatial_consistent(g.boundary.spatial)
    &&& g.boundary.spatial.origin == ((0int, 0int))
    &&& g.boundary.spatial.sprite_original == boundary_map(g.width as int, g.height as int)
    &&& g.boundary.spatial.orientation == Rotation::Up
    &&& g.boundary.spatial.effective_points == boundary_map(
        g.width as int,
        g.height as int,
    ).dom()
    &&& g.coins.len() >= 1
    &&& forall|i: int| 0 <= i < g.coins.len() ==> coin_view_wf(#[trigger] g.coins[i])
    &&& forall|i: int, j: int|
        0 <= i < g.coins.len() && 0 <= j < g.coins.len() && i != j ==> #[trigger] g.coins[i].id
            != #[trigger] g.coins[j].id
    &&& forall|i: int| 0 <= i < g.coins.len() ==> (#[trigger] g.coins[i].id) < g.next_coin_id
    &&& forall|i: int|
        0 <= i < g.projectiles.len() ==> projectile_view_wf(#[trigger] g.projectiles[i])
    &&& forall|i: int, j: int|
        0 <= i < g.projectiles.len() && 0 <= j < g.projectiles.len() && i != j ==> #[trigger] g
            .projectiles[i].id != #[trigger] g.projectiles[j].id
    &&& forall|i: int|
        0 <= i < g.projectiles.len() ==> (#[trigger] g.projectiles[i].id) < g.next_projectile_id
}

/// A fire request arrived and the cooldown has elapsed.
pub open spec fn fire_ready(g: GameView, event: Option<PlayerInput>) -> bool {
    &&& event == Some(PlayerInput::KeyDown(Key::SpaceBar))
    &&& g.player.frames_since_last_shot >= MIN_FRAMES_BETWEEN_SHOTS
}

/// The world after the fire phase: on cooldown the request is ignored;
/// otherwise a projectile spawns at the player's origin with the player's
/// facing, and the cooldown starts over.
pub open spec fn spec_fire(g: GameView) -> GameView {
    if g.player.frames_since_last_shot < MIN_FRAMES_BETWEEN_SHOTS {
        g
    } else {
        GameView {
            projectiles: g.projectiles.push(
                ProjectileView {
                    id: g.next_projectile_id,
                    spatial: projectile_spatial_at(g.player.spatial.origin, g.player.rotation),
                    direction: direction_for(g.player.rotation),
                    rotation: g.player.rotation,
                    rotation_enabled: false,
                    speed: 10,
                },
            ),
            next_projectile_id: (g.next_projectile_id + 1) as u32,
            player: PlayerView { frames_since_last_shot: 0, ..g.player },
            ..g
        }
    }
}

/// The world after the input phase: at most one event is honored per tick; a
/// direction key steers the player, a number key replaces its speed
/// outright, and the fire key runs the fire phase.
pub open spec fn spec_apply_input(g: GameView, event: Option<PlayerInput>) -> GameView {
    match event {
        None => g,
        Some(PlayerInput::KeyDown(key)) => match key {
            Key::W | Key::I => GameView {
                player: PlayerView { direction: Direction::Up, ..g.player },
                ..g
            },
            Key::A | Key::J => GameView {
                player: PlayerView { direction: Direction::Left, ..g.player },
                ..g
            },
            Key::S | Key::K => GameView {
                player: PlayerView { direction: Direction::Down, ..g.player },
                ..g
            },
            Key::D | Key::L => GameView {
                player: PlayerView { direction: Direction::Right, ..g.player },
                ..g
            },
            Key::Num1 => GameView { player: PlayerView { speed: 1, ..g.player }, ..g },
            Key::Num2 => GameView { player: PlayerView { speed: 2, ..g.player }, ..g },
            Key::Num3 => GameView { player: PlayerView { speed: 3, ..g.player }, ..g },
            Key::Num4 => GameView { player: PlayerView { speed: 4, ..g.player }, ..g },
            Key::Num5 => GameView { player: PlayerView { speed: 5, ..g.player }, ..g },
            Key::SpaceBar => spec_fire(g),
        },
    }
}

/// The world after the movement phase: the player and every live projectile
/// take one movement tick.
pub open spec fn spec_move(g: GameView) -> GameView {
    GameView {
        player: spec_player_tick(g.player),
        projectiles: g.projectiles.map_values(|p: ProjectileView| spec_projectile_tick(p)),
        ..g
    }
}

/// The player after the wall check: on contact its origin rolls back to the
/// pre-move origin, whole; there is no sliding.
pub open spec fn spec_rollback_player(p: PlayerView, b: BoundaryView) -> PlayerView {
    if sets_intersect(p.spatial.effective_points, b.spatial.effective_points) {
        let back = match p.prev_origin {
            Some(q) => q,
            None => p.spatial.origin,
        };
        PlayerView {
            spatial: SpatialView {
                origin: back,
                effective_pixels: translated_map(p.spatial.sprite, back),
                effective_points: translated_map(p.spatial.sprite, back).dom(),
                ..p.spatial
            },
            prev_origin: Some(p.spatial.origin),
            ..p
        }
    } else {
        p
    }
}

/// The world after the player-wall phase.
pub open spec fn spec_rollback(g: GameView) -> GameView {
    GameView { player: spec_rollback_player(g.player, g.boundary), ..g }
}

/// The world after the projectile-wall phase: every projectile that touches
/// the wall band is destroyed, in one pass.
pub open spec fn spec_destroy_projectiles(g: GameView) -> GameView {
    GameView {
        projectiles: g.projectiles.filter(
            |p: ProjectileView|
                !sets_intersect(p.spatial.effective_points, g.boundary.spatial.effective_points),
        ),
        ..g
    }
}

/// The union of the points covered by the given projectiles.
pub open spec fn union_projectile_points(ps: Seq<ProjectileView>) -> Set<(int, int)>
    decreases ps.len(),
{
    if ps.len() == 0 {
        Set::empty()
    } else {
        union_projectile_points(ps.drop_last()).union(ps.last().spatial.effective_points)
    }
}

/// The world after the projectile-coin phase: every coin touched by any live
/// projectile is collected — removed in one pass, with the player's counter
/// stepped once per removed coin.
pub open spec fn spec_collect_coins(g: GameView) -> GameView {
    let hit = union_projectile_points(g.projectiles);
    let survivors = g.coins.filter(|c: CoinView| !sets_intersect(c.spatial.effective_points, hit));
    GameView {
        coins: survivors,
        player: PlayerView {
            coin_count: (g.player.coin_count + g.coins.len() - survivors.len()) as u32,
            ..g.player
        },
        ..g
    }
}

/// The world after the respawn phase: if no coin is left, exactly one coin
/// spawns at `c`, a position the engine draws uniformly from the arena.
pub open spec fn spec_respawn(g: GameView, c: (int, int)) -> GameView {
    if g.coins.len() == 0 {
        GameView {
            coins: g.coins.push(CoinView { id: g.next_coin_id, spatial: default_spatial_at(c) }),
            next_coin_id: (g.next_coin_id + 1) as u32,
            ..g
        }
    } else {
        g
    }
}

/// One whole tick: input, fire, movement, player-wall rollback,
/// projectile-wall destruction, projectile-coin collection, coin respawn, in
/// that fixed order. `c` is the position the respawned coin takes if the
/// respawn phase runs; it is ignored otherwise.
pub open spec fn spec_tick(g: GameView, event: Option<PlayerInput>, c: (int, int)) -> GameView {
    spec_respawn(
        spec_collect_coins(spec_destroy_projectiles(spec_rollback(spec_move(spec_apply_input(g, event))))),
        c,
    )
}

/// The arithmetic of one whole tick stays inside the machine's integer
/// types: every move and every recomputation of world-space pixels fits in
/// `i32`, and the id and coin counters have room.
pub open spec fn game_tick_ok(g: GameView, event: Option<PlayerInput>) -> bool {
    let g1 = spec_apply_input(g, event);
    &&& player_tick_ok(g1.player)
    &&& forall|i: int|
        0 <= i < g1.projectiles.len() ==> projectile_tick_ok(#[trigger] g1.projectiles[i])
    &&& translatable(spec_player_tick(g1.player).spatial.sprite, g1.player.spatial.origin)
    &&& (fire_ready(g, event) ==> translatable(
        rotated_map(default_sprite_map(), g.player.rotation),
        g.player.spatial.origin,
    ) && g.next_projectile_id < u32::MAX)
    &&& g.next_coin_id < u32::MAX
    &&& g.player.coin_count + g.coins.len() <= u32::MAX
}

/// Relies on rand's `thread_rng` and `Rng::gen_range`: a sample drawn
/// uniformly from the half-open range `[0, bound)`; `gen_range` panics only
/// on an empty range, which `bound >= 1` rules out. Nothing more is assumed
/// of which value comes back.
#[verifier::external_body]
pub(crate) fn random_below(bound: u32) -> (r: u32)
    requires
        bound >= 1,
    ensures
        r < bound,
{
    rand::Rng::gen_range(&mut rand::thread_rng(), 0..bound)
}

impl Game {
    /// Build the world: the wall for the given arena, the player standing
    /// still near the bottom center with its facing frozen for free roam,
    /// and one coin at (100, 100).
    pub fn init(map_width: u32, map_height: u32) -> (r: Game)
        requires
            10 <= map_width <= i32::MAX - 8,
            50 <= map_height <= i32::MAX - 8,
        ensures
            r@ == (GameView {
                width: map_width,
                height: map_height,
                player: PlayerView {
                    id: 0,
                    spatial: default_spatial_at(
                        (map_width as int / 2, map_height as int - 50),
                    ),
                    prev_origin: None,
                    speed: 5,
                    direction: Direction::Stopped,
                    rotation: Rotation::Up,
                    rotation_enabled: false,
                    coin_count: 0,
                    frames_since_last_shot: u32::MAX,
                },
                boundary: Boundary::spec_initial(map_width, map_height),
                coins: seq![CoinView { id: 0, spatial: default_spatial_at((100, 100)) }],
                projectiles: Seq::empty(),
                next_coin_id: 1,
                next_projectile_id: 0,
            }),
            game_wf(r@),
    {
        let map_dimensions = GameMapDimensions::new(map_width, map_height);
        let boundary = Boundary::new(map_dimensions.width, map_dimensions.height);
        proof {
            assert forall|p: (int, int)| #[trigger]
                default_sprite_map().dom().contains(p) implies i32::MIN <= p.0 + (map_width as int
                / 2) <= i32::MAX && i32::MIN <= p.1 + (map_height as int - 50) <= i32::MAX by {}
            assert forall|p: (int, int)| #[trigger]
                default_sprite_map().dom().contains(p) implies i32::MIN <= p.0 + 100 <= i32::MAX
                && i32::MIN <= p.1 + 100 <= i32::MAX by {}
        }
        let mut player = Player::new(
            Point::new((map_dimensions.width / 2) as i32, (map_dimensions.height - 50) as i32),
        );
        player.change_direction(Direction::Stopped);
        if FREE_ROAM_ENABLED {
            player.disable_rotation();
        }
        let coin_origin = Point::new(
            map_dimensions.origin.x + 100,
            map_dimensions.origin.y + 100,
        );
        let first_coin = Coin::new(0, coin_origin);
        let mut coins: Vec<Coin> = Vec::new();
        coins.push(first_coin);
        let r = Game {
            map_dimensions,
            boundary,
            player,
            coins,
            projectiles: Vec::new(),
            next_coin_id: 1,
            next_projectile_id: 0,
        };
        proof {
            assert(r@.coins =~= seq![
                CoinView { id: 0, spatial: default_spatial_at((100, 100)) },
            ]);
            assert(r@.projectiles =~= Seq::<ProjectileView>::empty());
            assert(r@ =~= (GameView {
                width: map_width,
                height: map_height,
                player: PlayerView {
                    id: 0,
                    spatial: default_spatial_at(
                        (map_width as int / 2, map_height as int - 50),
                    ),
                    prev_origin: None,
                    speed: 5,
                    direction: Direction::Stopped,
                    rotation: Rotation::Up,
                    rotation_enabled: false,
                    coin_count: 0,
                    frames_since_last_shot: u32::MAX,
                },
                boundary: Boundary::spec_initial(map_width, map_height),
                coins: seq![CoinView { id: 0, spatial: default_spatial_at((100, 100)) }],
                projectiles: Seq::empty(),
                next_coin_id: 1,
                next_projectile_id: 0,
            }));
        }
        r
    }

    /// Spawn a projectile at the player's origin with the player's facing,
    /// unless the fire cooldown has not elapsed, in which case nothing
    /// happens.
    pub fn fire_projectile(&mut self)
        requires
            old(self)@.player.frames_since_last_shot >= MIN_FRAMES_BETWEEN_SHOTS ==> translatable(
                rotated_map(default_sprite_map(), old(self)@.player.rotation),
                old(self)@.player.spatial.origin,
            ) && old(self)@.next_projectile_id < u32::MAX,
        ensures
            final(self)@ == spec_fire(old(self)@),
    {
        if self.player.frames_since_last_shot() < MIN_FRAMES_BETWEEN_SHOTS {
            return ;
        }
        let rotation = self.player.rotation();
        let projectile_direction = match rotation {
            Rotation::Up => Direction::Up,
            Rotation::Right => Direction::Right,
            Rotation::Down => Direction::Down,
            Rotation::Left => Direction::Left,
        };
        let projectile = Projectile::new(
            self.next_projectile_id,
            self.player.origin(),
            projectile_direction,
            rotation,
        );
        self.projectiles.push(projectile);
        self.next_projectile_id = self.next_projectile_id + 1;
        self.player.reset_frames_since_last_shot();
        proof {
            assert(self@.projectiles =~= spec_fire(old(self)@).projectiles);
            assert(self@ =~= spec_fire(old(self)@));
        }
    }

    /// Roll the player back to its pre-move origin if it touches the wall.
    pub fn handle_collisions_with_boundary(&mut self)
        requires
            sets_intersect(
                old(self)@.player.spatial.effective_points,
                old(self)@.boundary.spatial.effective_points,
            ) ==> old(self)@.player.prev_origin is Some && translatable(
                old(self)@.player.spatial.sprite,
                match old(self)@.player.prev_origin {
                    Some(q) => q,
                    None => old(self)@.player.spatial.origin,
                },
            ),
        ensures
            final(self)@ == spec_rollback(old(self)@),
    {
        rollback_player_if_collided(&mut self.player, &self.boundary);
        proof {
            assert(self@ =~= spec_rollback(old(self)@));
        }
    }

    /// Destroy every projectile that touches the wall: scan them all, then
    /// drop the marked ones in one pass.
    pub fn handle_collisions_projectile_and_boundary(&mut self)
        ensures
            final(self)@ == spec_destroy_projectiles(old(self)@),
    {
        let ghost g0 = self@;
        let mut survivors: Vec<Projectile> = Vec::new();
        let mut scan: Vec<Projectile> = Vec::new();
        core::mem::swap(&mut scan, &mut self.projectiles);
        let ghost s0 = scan@.map_values(|p: Projectile| p@);
        let ghost pred = |p: ProjectileView|
            !sets_intersect(p.spatial.effective_points, g0.boundary.spatial.effective_points);
        let n = scan.len();
        let mut i: usize = 0;
        while i < n
            invariant
                0 <= i <= n,
                s0.len() == n,
                scan@.len() == n - i,
                forall|j: int|
                    0 <= j < n - i ==> #[trigger] scan@[j]@ == s0[j + i],
                pred == (|p: ProjectileView|
                    !sets_intersect(
                        p.spatial.effective_points,
                        g0.boundary.spatial.effective_points,
                    )),
                self.boundary@ == g0.boundary,
                survivors@.map_values(|p: Projectile| p@) =~= s0.take(i as int).filter(pred),
            decreases n - i,
        {
            let ghost scan_before = scan@;
            let projectile = scan.remove(0);
            let hit = projectile.has_collided_with(self.boundary.effective_points());
            proof {
                assert(projectile@ == s0[i as int]);
                assert forall|j: int| 0 <= j < n - (i + 1) implies #[trigger] scan@[j]@ == s0[j + i
                    + 1] by {
                    assert(scan@[j] == scan_before[j + 1]);
                }
                lemma_filter_take_step(s0, pred, i as int);
            }
            if !hit {
                survivors.push(projectile);
                proof {
                    assert(survivors@.map_values(|p: Projectile| p@) =~= s0.take(
                        i as int + 1,
                    ).filter(pred));
                }
            }
            i += 1;
        }
        self.projectiles = survivors;
        proof {
            assert(s0.take(n as int) =~= s0);
            assert(self@ =~= spec_destroy_projectiles(g0));
        }
    }
}

impl Game {
    /// Collect every coin touched by any live projectile: build the union of
    /// all projectile points once, mark every touched coin, then remove the
    /// marked ones in one pass, counting each for the player.
    pub fn handle_collisions_projectiles_and_coins(&mut self)
        requires
            old(self)@.player.coin_count + old(self)@.coins.len() <= u32::MAX,
        ensures
            final(self)@ == spec_collect_coins(old(self)@),
    {
        let ghost g0 = self@;
        let mut all_projectile_points = PointSet::empty();
        let np = self.projectiles.len();
        let mut i: usize = 0;
        while i < np
            invariant
                np == self.projectiles@.len(),
                0 <= i <= np,
                self@ == g0,
                all_projectile_points@ =~= union_projectile_points(
                    g0.projectiles.take(i as int),
                ),
            decreases np - i,
        {
            self.projectiles[i].effective_points().union_into(&mut all_projectile_points);
            proof {
                let views = g0.projectiles;
                assert(views.take(i as int + 1).drop_last() =~= views.take(i as int));
                assert(views.take(i as int + 1).last() == views[i as int]);
                assert(views[i as int] == self.projectiles@[i as int]@);
                assert(all_projectile_points@ =~= union_projectile_points(
                    views.take(i as int + 1),
                ));
            }
            i += 1;
        }
        proof {
            assert(g0.projectiles.take(np as int) =~= g0.projectiles);
        }
        let ghost nc = g0.coins.len();
        let removed = collect_coins_hit(&mut self.coins, &all_projectile_points);
        let ghost survivors = g0.coins.filter(
            |c: CoinView|
                !sets_intersect(
                    c.spatial.effective_points,
                    union_projectile_points(g0.projectiles),
                ),
        );
        proof {
            assert(self.coins@.map_values(|c: Coin| c@) == survivors);
            assert(removed == nc - survivors.len());
        }
        let mut r: usize = 0;
        while r < removed
            invariant
                0 <= r <= removed,
                removed == nc - survivors.len(),
                survivors.len() <= nc,
                nc == g0.coins.len(),
                g0.player.coin_count + nc <= u32::MAX,
                survivors == g0.coins.filter(
                    |c: CoinView|
                        !sets_intersect(
                            c.spatial.effective_points,
                            union_projectile_points(g0.projectiles),
                        ),
                ),
                self.coins@.map_values(|c: Coin| c@) == survivors,
                self.player@ == (PlayerView {
                    coin_count: (g0.player.coin_count + r) as u32,
                    ..g0.player
                }),
                self.boundary@ == g0.boundary,
                self.projectiles@.map_values(|p: Projectile| p@) == g0.projectiles,
                self.map_dimensions.width == g0.width,
                self.map_dimensions.height == g0.height,
                self.next_coin_id == g0.next_coin_id,
                self.next_projectile_id == g0.next_projectile_id,
            decreases removed - r,
        {
            self.player.increment_coin_count();
            r += 1;
        }
        proof {
            assert(self@ =~= spec_collect_coins(g0));
        }
    }

    /// One whole simulation step, in the fixed order `spec_tick` describes:
    /// apply at most one input event, move the player and every projectile,
    /// roll the player back off the wall, destroy projectiles on the wall,
    /// collect coins under projectiles, and respawn a coin if none is left —
    /// at a position drawn uniformly from the arena.
    pub fn tick(&mut self, event: Option<PlayerInput>)
        requires
            game_wf(old(self)@),
            game_tick_ok(old(self)@, event),
        ensures
            exists|c: (int, int)|
                0 <= c.0 < old(self)@.width && 0 <= c.1 < old(self)@.height && final(self)@
                    == spec_tick(old(self)@, event, c),
            final(self)@.coins.len() >= 1,
            game_wf(final(self)@),
    {
        let ghost g0 = self@;
        match &event {
            Some(PlayerInput::KeyDown(key)) => match key {
                Key::W | Key::I => self.player.change_direction(Direction::Up),
                Key::A | Key::J => self.player.change_direction(Direction::Left),
                Key::S | Key::K => self.player.change_direction(Direction::Down),
                Key::D | Key::L => self.player.change_direction(Direction::Right),
                Key::Num1 => self.player.change_speed(1),
                Key::Num2 => self.player.change_speed(2),
                Key::Num3 => self.player.change_speed(3),
                Key::Num4 => self.player.change_speed(4),
                Key::Num5 => self.player.change_speed(5),
                Key::SpaceBar => self.fire_projectile(),
            },
            None => {},
        }
        let ghost g1 = spec_apply_input(g0, event);
        proof {
            assert(self@ =~= g1);
        }
        self.player.tick();
        proof {
            assert(self.player@ == spec_player_tick(g1.player));
        }
        let ghost p1 = g1.projectiles;
        let n = self.projectiles.len();
        let mut i: usize = 0;
        proof {
            assert forall|j: int|
                0 <= j < p1.len() implies projectile_view_wf(#[trigger] p1[j]) by {
                if j < g0.projectiles.len() {
                    assert(projectile_view_wf(g0.projectiles[j]));
                } else {
                    assert forall|p: (int, int)| #[trigger]
                        default_sprite_map().dom().contains(p) implies p.0 > i32::MIN && p.1
                        > i32::MIN by {}
                }
            }
        }
        while i < n
            invariant
                n == self.projectiles@.len(),
                0 <= i <= n,
                p1.len() == n,
                forall|j: int| 0 <= j < n ==> projectile_tick_ok(#[trigger] p1[j]),
                forall|j: int| 0 <= j < n ==> projectile_view_wf(#[trigger] p1[j]),
                forall|j: int|
                    0 <= j < i ==> #[trigger] self.projectiles@[j]@ == spec_projectile_tick(
                        p1[j],
                    ),
                forall|j: int| i <= j < n ==> #[trigger] self.projectiles@[j]@ == p1[j],
                self.player@ == spec_player_tick(g1.player),
                self.boundary@ == g1.boundary,
                self.coins@.map_values(|c: Coin| c@) == g1.coins,
                self.map_dimensions.width == g1.width,
                self.map_dimensions.height == g1.height,
                self.next_coin_id == g1.next_coin_id,
                self.next_projectile_id == g1.next_projectile_id,
            decreases n - i,
        {
            self.projectiles[i].tick();
            i += 1;
        }
        let ghost g2 = spec_move(g1);
        proof {
            assert(self@.projectiles =~= g2.projectiles);
            assert(self@ =~= g2);
        }
        self.handle_collisions_with_boundary();
        let ghost g3 = spec_rollback(g2);
        self.handle_collisions_projectile_and_boundary();
        let ghost g4 = spec_destroy_projectiles(g3);
        proof {
            assert(g4.player.coin_count == g0.player.coin_count);
            assert(g4.coins == g0.coins);
        }
        self.handle_collisions_projectiles_and_coins();
        let ghost g5 = spec_collect_coins(g4);
        let ghost mut witness: (int, int) = (0int, 0int);
        if self.coins.len() == 0 {
            let x = random_below(self.map_dimensions.width);
            let y = random_below(self.map_dimensions.height);
            proof {
                assert forall|p: (int, int)| #[trigger]
                    default_sprite_map().dom().contains(p) implies i32::MIN <= p.0 + x <= i32::MAX
                    && i32::MIN <= p.1 + y <= i32::MAX by {}
            }
            let coin = Coin::new(self.next_coin_id, Point::new(x as i32, y as i32));
            let ghost coins_before = self.coins@.map_values(|c: Coin| c@);
            self.coins.push(coin);
            self.next_coin_id = self.next_coin_id + 1;
            proof {
                witness = (x as int, y as int);
                assert(self.coins@.map_values(|c: Coin| c@) =~= coins_before.push(coin@));
            }
        }
        proof {
            assert(self@ =~= spec_respawn(g5, witness));
            lemma_spec_tick_wf(g0, event, witness);
            assert(self@ == spec_tick(g0, event, witness));
        }
    }
}

/// Roll `player` back to its pre-move origin, whole, if it touches the
/// wall; there is no axis sliding. The pre-move origin must have been
/// recorded before the move that caused the contact.
pub fn rollback_player_if_collided(player: &mut Player, boundary: &Boundary)
    requires
        sets_intersect(
            old(player)@.spatial.effective_points,
            boundary@.spatial.effective_points,
        ) ==> old(player)@.prev_origin is Some && translatable(
            old(player)@.spatial.sprite,
            match old(player)@.prev_origin {
                Some(q) => q,
                None => old(player)@.spatial.origin,
            },
        ),
    ensures
        final(player)@ == spec_rollback_player(old(player)@, boundary@),
{
    let collided = player.has_collided_with(boundary.effective_points());
    if collided {
        let prev_player_origin = player.prev_origin_unchecked();
        player.set_origin(prev_player_origin);
    }
}

/// Remove from `coins` every coin whose points share a point with
/// `hit_points`, in one pass, and say how many were removed. Every other
/// coin stays, in order.
pub fn collect_coins_hit(coins: &mut Vec<Coin>, hit_points: &PointSet) -> (removed: usize)
    ensures
        final(coins)@.map_values(|c: Coin| c@) == old(coins)@.map_values(|c: Coin| c@).filter(
            |c: CoinView| !sets_intersect(c.spatial.effective_points, hit_points@),
        ),
        removed == old(coins)@.len() - final(coins)@.len(),
        final(coins)@.len() <= old(coins)@.len(),
{
    let ghost pred = |c: CoinView| !sets_intersect(c.spatial.effective_points, hit_points@);
    let ghost c0 = coins@.map_values(|c: Coin| c@);
    let mut survivors: Vec<Coin> = Vec::new();
    let mut scan: Vec<Coin> = Vec::new();
    core::mem::swap(&mut scan, coins);
    let nc = scan.len();
    let mut k: usize = 0;
    let mut removed: usize = 0;
    while k < nc
        invariant
            0 <= k <= nc,
            c0.len() == nc,
            scan@.len() == nc - k,
            forall|j: int| 0 <= j < nc - k ==> #[trigger] scan@[j]@ == c0[j + k],
            pred == (|c: CoinView| !sets_intersect(
                c.spatial.effective_points,
                hit_points@,
            )),
            survivors@.map_values(|c: Coin| c@) =~= c0.take(k as int).filter(pred),
            survivors@.len() + removed == k,
        decreases nc - k,
    {
        let ghost scan_before = scan@;
        let coin = scan.remove(0);
        let hit = coin.has_collided_with(hit_points);
        proof {
            assert(coin@ == c0[k as int]);
            assert forall|j: int| 0 <= j < nc - (k + 1) implies #[trigger] scan@[j]@ == c0[j + k
                + 1] by {
                assert(scan@[j] == scan_before[j + 1]);
            }
            lemma_filter_take_step(c0, pred, k as int);
        }
        if hit {
            removed = removed + 1;
        } else {
            survivors.push(coin);
            proof {
                assert(survivors@.map_values(|c: Coin| c@) =~= c0.take(k as int + 1).filter(
                    pred,
                ));
            }
        }
        k += 1;
    }
    *coins = survivors;
    proof {
        assert(c0.take(nc as int) =~= c0);
    }
    removed
}

/// The pixels of `base` with every coin's world-space pixels composited over
/// it, in coin order.
pub open spec fn merge_coin_pixels(
    base: Map<(int, int), crate::structs::pixel::Pixel>,
    coins: Seq<CoinView>,
) -> Map<(int, int), crate::structs::pixel::Pixel>
    decreases coins.len(),
{
    if coins.len() == 0 {
        base
    } else {
        merge_coin_pixels(base, coins.drop_last()).union_prefer_right(
            coins.last().spatial.effective_pixels,
        )
    }
}

/// The pixels of `base` with every projectile's world-space pixels
/// composited over it, in projectile order.
pub open spec fn merge_projectile_pixels(
    base: Map<(int, int), crate::structs::pixel::Pixel>,
    ps: Seq<ProjectileView>,
) -> Map<(int, int), crate::structs::pixel::Pixel>
    decreases ps.len(),
{
    if ps.len() == 0 {
        base
    } else {
        merge_projectile_pixels(base, ps.drop_last()).union_prefer_right(
            ps.last().spatial.effective_pixels,
        )
    }
}

/// The render-ready view of the whole world: the wall as the base layer,
/// then the coins, the projectiles, and the player composited over it; where
/// entities overlap, the later layer wins.
pub open spec fn spec_render_view(g: GameView) -> Map<(int, int), crate::structs::pixel::Pixel> {
    merge_projectile_pixels(
        merge_coin_pixels(g.boundary.spatial.effective_pixels, g.coins),
        g.projectiles,
    ).union_prefer_right(g.player.spatial.effective_pixels)
}

impl Game {
    /// The player.
    pub fn player(&self) -> (r: &Player)
        ensures
            r@ == self@.player,
    {
        &self.player
    }

    /// The wall.
    pub fn boundary(&self) -> (r: &Boundary)
        ensures
            r@ == self@.boundary,
    {
        &self.boundary
    }

    /// The live coins.
    pub fn coins(&self) -> (r: &Vec<Coin>)
        ensures
            r@.map_values(|c: Coin| c@) == self@.coins,
    {
        &self.coins
    }

    /// The live projectiles.
    pub fn projectiles(&self) -> (r: &Vec<Projectile>)
        ensures
            r@.map_values(|p: Projectile| p@) == self@.projectiles,
    {
        &self.projectiles
    }

    /// The arena width.
    pub fn map_width(&self) -> (r: u32)
        ensures
            r == self@.width,
    {
        self.map_dimensions.width
    }

    /// The arena height.
    pub fn map_height(&self) -> (r: u32)
        ensures
            r == self@.height,
    {
        self.map_dimensions.height
    }

    /// Install an externally loaded sprite on the player, recomputing its
    /// world-space pixels at its current origin.
    pub fn set_player_sprite(&mut self, sprite: crate::structs::sprite::Sprite)
        requires
            rotatable(sprite.original()),
            translatable(sprite@, old(self)@.player.spatial.origin),
        ensures
            final(self)@ == (GameView {
                player: PlayerView {
                    spatial: SpatialView {
                        sprite_original: sprite.original(),
                        sprite: sprite@,
                        orientation: sprite.orientation(),
                        dimensions: sprite.spec_dimensions(),
                        effective_pixels: translated_map(
                            sprite@,
                            old(self)@.player.spatial.origin,
                        ),
                        effective_points: translated_map(
                            sprite@,
                            old(self)@.player.spatial.origin,
                        ).dom(),
                        ..old(self)@.player.spatial
                    },
                    ..old(self)@.player
                },
                ..old(self)@
            }),
            game_wf(old(self)@) ==> game_wf(final(self)@),
    {
        self.player.set_sprite(sprite);
        proof {
            assert(self@ =~= (GameView { player: self.player@, ..old(self)@ }));
        }
    }

    /// The identities of every live entity, in draw order: the wall first as
    /// the base layer, then coins, projectiles, and the player on top.
    pub fn all_game_objects(&self) -> (r: Vec<(GameObjectType, u32)>)
        ensures
            r@.len() == 2 + self@.coins.len() + self@.projectiles.len(),
            r@[0] == (GameObjectType::Boundary, self@.boundary.id),
            forall|i: int|
                0 <= i < self@.coins.len() ==> r@[1 + i] == (
                    GameObjectType::Coin,
                    #[trigger] self@.coins[i].id,
                ),
            forall|i: int|
                0 <= i < self@.projectiles.len() ==> r@[1 + self@.coins.len() + i] == (
                    GameObjectType::Projectile,
                    #[trigger] self@.projectiles[i].id,
                ),
            r@[r@.len() - 1] == (GameObjectType::Player, self@.player.id),
    {
        let mut all: Vec<(GameObjectType, u32)> = Vec::new();
        all.push((GameObjectType::Boundary, self.boundary.id()));
        let nc = self.coins.len();
        let mut i: usize = 0;
        while i < nc
            invariant
                nc == self.coins@.len(),
                0 <= i <= nc,
                all@.len() == 1 + i,
                all@[0] == (GameObjectType::Boundary, self@.boundary.id),
                forall|j: int|
                    0 <= j < i ==> all@[1 + j] == (
                        GameObjectType::Coin,
                        #[trigger] self@.coins[j].id,
                    ),
            decreases nc - i,
        {
            all.push((GameObjectType::Coin, self.coins[i].id()));
            i += 1;
        }
        let np = self.projectiles.len();
        let mut k: usize = 0;
        while k < np
            invariant
                nc == self.coins@.len(),
                np == self.projectiles@.len(),
                0 <= k <= np,
                all@.len() == 1 + nc + k,
                all@[0] == (GameObjectType::Boundary, self@.boundary.id),
                forall|j: int|
                    0 <= j < nc ==> all@[1 + j] == (
                        GameObjectType::Coin,
                        #[trigger] self@.coins[j].id,
                    ),
                forall|j: int|
                    0 <= j < k ==> all@[1 + nc + j] == (
                        GameObjectType::Projectile,
                        #[trigger] self@.projectiles[j].id,
                    ),
            decreases np - k,
        {
            all.push((GameObjectType::Projectile, self.projectiles[k].id()));
            k += 1;
        }
        all.push((GameObjectType::Player, self.player.id()));
        all
    }

    /// The render-ready pixels of the whole world, as `spec_render_view`
    /// describes: one map from world point to the color to draw there.
    pub fn render_view(&self) -> (r: crate::structs::pixel_map::PixelMap)
        ensures
            r@ == spec_render_view(self@),
    {
        let mut acc = self.boundary.effective_pixels().copied();
        let nc = self.coins.len();
        let mut i: usize = 0;
        while i < nc
            invariant
                nc == self.coins@.len(),
                0 <= i <= nc,
                acc@ =~= merge_coin_pixels(
                    self@.boundary.spatial.effective_pixels,
                    self@.coins.take(i as int),
                ),
            decreases nc - i,
        {
            self.coins[i].effective_pixels().merge_into(&mut acc);
            proof {
                let cs = self@.coins;
                assert(cs.take(i as int + 1).drop_last() =~= cs.take(i as int));
                assert(cs.take(i as int + 1).last() == cs[i as int]);
                assert(cs[i as int] == self.coins@[i as int]@);
            }
            i += 1;
        }
        proof {
            assert(self@.coins.take(nc as int) =~= self@.coins);
        }
        let np = self.projectiles.len();
        let mut k: usize = 0;
        while k < np
            invariant
                np == self.projectiles@.len(),
                0 <= k <= np,
                acc@ =~= merge_projectile_pixels(
                    merge_coin_pixels(self@.boundary.spatial.effective_pixels, self@.coins),
                    self@.projectiles.take(k as int),
                ),
            decreases np - k,
        {
            self.projectiles[k].effective_pixels().merge_into(&mut acc);
            proof {
                let ps = self@.projectiles;
                assert(ps.take(k as int + 1).drop_last() =~= ps.take(k as int));
                assert(ps.take(k as int + 1).last() == ps[k as int]);
                assert(ps[k as int] == self.projectiles@[k as int]@);
            }
            k += 1;
        }
        proof {
            assert(self@.projectiles.take(np as int) =~= self@.projectiles);
        }
        self.player.effective_pixels().merge_into(&mut acc);
        acc
    }

    /// Remove the projectile with the given id; the id must be live. With
    /// the collect-then-remove discipline a missing id cannot happen.
    pub fn destroy_projectile(&mut self, projectile_id: u32)
        requires
            exists|i: int|
                #![trigger old(self)@.projectiles[i]]
                0 <= i < old(self)@.projectiles.len() && old(self)@.projectiles[i].id
                    == projectile_id,
        ensures
            exists|i: int|
                #![trigger old(self)@.projectiles[i]]
                0 <= i < old(self)@.projectiles.len() && old(self)@.projectiles[i].id
                    == projectile_id && (forall|j: int|
                    0 <= j < i ==> old(self)@.projectiles[j].id != projectile_id) && final(self)@
                    == (GameView {
                    projectiles: old(self)@.projectiles.remove(i),
                    ..old(self)@
                }),
    {
        let n = self.projectiles.len();
        let mut i: usize = 0;
        while i < n && self.projectiles[i].id() != projectile_id
            invariant
                n == self.projectiles@.len(),
                0 <= i <= n,
                forall|j: int| 0 <= j < i ==> #[trigger] self.projectiles@[j]@.id != projectile_id,
            decreases n - i,
        {
            i += 1;
        }
        proof {
            if i == n {
                let j = choose|j: int|
                    #![trigger old(self)@.projectiles[j]]
                    0 <= j < old(self)@.projectiles.len() && old(self)@.projectiles[j].id
                        == projectile_id;
                assert(self.projectiles@[j]@.id == projectile_id);
                assert(false);
            }
            assert(self.projectiles@[i as int]@.id == projectile_id);
        }
        self.projectiles.remove(i);
        proof {
            assert(old(self)@.projectiles[i as int].id == projectile_id);
            assert forall|j: int| 0 <= j < i implies old(self)@.projectiles[j].id
                != projectile_id by {
                assert(old(self)@.projectiles[j] == old(self).projectiles@[j]@);
            }
            assert(self@.projectiles =~= old(self)@.projectiles.remove(i as int));
            assert(self@ =~= (GameView {
                projectiles: old(self)@.projectiles.remove(i as int),
                ..old(self)@
            }));
        }
    }

    /// Remove the coin with the given id and count it for the player; the id
    /// must be live. With the collect-then-remove discipline a missing id
    /// cannot happen.
    pub fn collect_coin(&mut self, coin_id: u32)
        requires
            old(self)@.player.coin_count < u32::MAX,
            exists|i: int|
                #![trigger old(self)@.coins[i]]
                0 <= i < old(self)@.coins.len() && old(self)@.coins[i].id == coin_id,
        ensures
            exists|i: int|
                #![trigger old(self)@.coins[i]]
                0 <= i < old(self)@.coins.len() && old(self)@.coins[i].id == coin_id && (forall|
                    j: int,
                |
                    0 <= j < i ==> old(self)@.coins[j].id != coin_id) && final(self)@ == (GameView {
                    coins: old(self)@.coins.remove(i),
                    player: PlayerView {
                        coin_count: (old(self)@.player.coin_count + 1) as u32,
                        ..old(self)@.player
                    },
                    ..old(self)@
                }),
    {
        let n = self.coins.len();
        let mut i: usize = 0;
        while i < n && self.coins[i].id() != coin_id
            invariant
                n == self.coins@.len(),
                0 <= i <= n,
                forall|j: int| 0 <= j < i ==> #[trigger] self.coins@[j]@.id != coin_id,
            decreases n - i,
        {
            i += 1;
        }
        proof {
            if i == n {
                let j = choose|j: int|
                    #![trigger old(self)@.coins[j]]
                    0 <= j < old(self)@.coins.len() && old(self)@.coins[j].id == coin_id;
                assert(self.coins@[j]@.id == coin_id);
                assert(false);
            }
            assert(self.coins@[i as int]@.id == coin_id);
        }
        self.coins.remove(i);
        self.player.increment_coin_count();
        proof {
            assert(old(self)@.coins[i as int].id == coin_id);
            assert forall|j: int| 0 <= j < i implies old(self)@.coins[j].id != coin_id by {
                assert(old(self)@.coins[j] == old(self).coins@[j]@);
            }
            assert(self@.coins =~= old(self)@.coins.remove(i as int));
            assert(self@ =~= (GameView {
                coins: old(self)@.coins.remove(i as int),
                player: PlayerView {
                    coin_count: (old(self)@.player.coin_count + 1) as u32,
                    ..old(self)@.player
                },
                ..old(self)@
            }));
        }
    }
}

impl Game {
    /// Whether a tick with `event` stays inside the machine's integer types:
    /// the executable test for `game_tick_ok`, for callers that cannot know
    /// it otherwise. A world near the arena's usual sizes always passes.
    #[verifier::rlimit(100)]
    pub fn can_tick(&self, event: Option<PlayerInput>) -> (r: bool)
        requires
            game_wf(self@),
        ensures
            r == game_tick_ok(self@, event),
    {
        let ghost g = self@;
        let ghost g1 = spec_apply_input(g, event);
        let mut dir = self.player.direction();
        let mut speed = self.player.speed();
        let mut fire_requested = false;
        match &event {
            Some(PlayerInput::KeyDown(key)) => match key {
                Key::W | Key::I => dir = Direction::Up,
                Key::A | Key::J => dir = Direction::Left,
                Key::S | Key::K => dir = Direction::Down,
                Key::D | Key::L => dir = Direction::Right,
                Key::Num1 => speed = 1,
                Key::Num2 => speed = 2,
                Key::Num3 => speed = 3,
                Key::Num4 => speed = 4,
                Key::Num5 => speed = 5,
                Key::SpaceBar => fire_requested = true,
            },
            None => {},
        }
        let fire_happens = fire_requested && self.player.frames_since_last_shot()
            >= MIN_FRAMES_BETWEEN_SHOTS;
        proof {
            assert(fire_happens == fire_ready(g, event));
            assert(g1.player.direction == dir);
            assert(g1.player.speed == speed);
            assert(g1.player.spatial == g.player.spatial);
            assert(g1.player.rotation == g.player.rotation);
            assert(g1.player.rotation_enabled == g.player.rotation_enabled);
            if fire_happens {
                assert(g1.projectiles == g.projectiles.push(
                    ProjectileView {
                        id: g.next_projectile_id,
                        spatial: projectile_spatial_at(g.player.spatial.origin, g.player.rotation),
                        direction: direction_for(g.player.rotation),
                        rotation: g.player.rotation,
                        rotation_enabled: false,
                        speed: 10,
                    },
                ));
            } else {
                assert(g1.projectiles == g.projectiles);
            }
        }
        // The fire phase: room for the new id and for the spawned
        // projectile's world-space pixels.
        let rotation = self.player.rotation();
        let origin = self.player.origin();
        let mut fire_ok = true;
        let ghost spawn_spatial = projectile_spatial_at(g.player.spatial.origin, g.player.rotation);
        if fire_happens {
            proof {
                assert forall|p: (int, int)| #[trigger]
                    default_sprite_map().dom().contains(p) implies p.0 > i32::MIN && p.1
                    > i32::MIN by {}
            }
            let spawn_map = crate::structs::sprite::Sprite::build_default_sprite().rotated(
                rotation,
            );
            fire_ok = spawn_map.can_translate(origin) && self.next_projectile_id < u32::MAX;
        }
        // The player's move and its recomputed pixels.
        let new_rot = if self.player.rotation_enabled() {
            crate::game_objects::spatial::compute_rotation_for(dir, rotation)
        } else {
            rotation
        };
        let mx: i64;
        let my: i64;
        match dir {
            Direction::Up => {
                mx = origin.x as i64;
                my = origin.y as i64 - speed as i64;
            },
            Direction::Down => {
                mx = origin.x as i64;
                my = origin.y as i64 + speed as i64;
            },
            Direction::Left => {
                mx = origin.x as i64 - speed as i64;
                my = origin.y as i64;
            },
            Direction::Right => {
                mx = origin.x as i64 + speed as i64;
                my = origin.y as i64;
            },
            Direction::Stopped => {
                mx = origin.x as i64;
                my = origin.y as i64;
            },
        }
        let move_ok = i32::MIN as i64 <= mx && mx <= i32::MAX as i64 && i32::MIN as i64 <= my && my
            <= i32::MAX as i64;
        proof {
            assert((mx as int, my as int) == crate::game_objects::spatial::moved_origin(
                g1.player.spatial.origin,
                dir,
                speed,
            ));
            assert(move_ok == crate::game_objects::spatial::move_in_range(
                g1.player.spatial.origin,
                dir,
                speed,
            ));
        }
        let mut player_ok = move_ok;
        if move_ok {
            let new_o = Point::new(mx as i32, my as i32);
            let rot_changed = new_rot != rotation;
            let o_changed = new_o != origin;
            if rot_changed {
                let turned = self.player.sprite().original_pixels().rotated(new_rot);
                player_ok = turned.can_translate(new_o) && turned.can_translate(origin);
            } else if o_changed {
                player_ok = self.player.sprite().pixels().can_translate(new_o) && self.player
                    .sprite().pixels().can_translate(origin);
            } else {
                player_ok = self.player.sprite().pixels().can_translate(origin);
            }
        }
        proof {
            assert(player_ok == (player_tick_ok(g1.player) && translatable(
                spec_player_tick(g1.player).spatial.sprite,
                g1.player.spatial.origin,
            )));
        }
        // Every live projectile's move and recomputed pixels.
        let mut projectiles_ok = true;
        let np = self.projectiles.len();
        let mut i: usize = 0;
        while i < np
            invariant
                np == self.projectiles@.len(),
                0 <= i <= np,
                g == self@,
                projectiles_ok == (forall|j: int|
                    0 <= j < i ==> projectile_tick_ok(#[trigger] g.projectiles[j])),
            decreases np - i,
        {
            let p = &self.projectiles[i];
            let po = p.origin();
            let pspeed = p.speed();
            let px: i64;
            let py: i64;
            match p.direction() {
                Direction::Up => {
                    px = po.x as i64;
                    py = po.y as i64 - pspeed as i64;
                },
                Direction::Down => {
                    px = po.x as i64;
                    py = po.y as i64 + pspeed as i64;
                },
                Direction::Left => {
                    px = po.x as i64 - pspeed as i64;
                    py = po.y as i64;
                },
                Direction::Right => {
                    px = po.x as i64 + pspeed as i64;
                    py = po.y as i64;
                },
                Direction::Stopped => {
                    px = po.x as i64;
                    py = po.y as i64;
                },
            }
            let p_move_ok = i32::MIN as i64 <= px && px <= i32::MAX as i64 && i32::MIN as i64 <= py
                && py <= i32::MAX as i64;
            let mut p_ok = p_move_ok;
            if p_move_ok {
                p_ok = p.sprite().pixels().can_translate(Point::new(px as i32, py as i32));
            }
            proof {
                assert(g.projectiles[i as int] == self.projectiles@[i as int]@);
                assert(p_ok == projectile_tick_ok(g.projectiles[i as int]));
            }
            projectiles_ok = projectiles_ok && p_ok;
            i += 1;
        }
        // The spawned projectile's own move, when it spawns this tick.
        let mut spawned_ok = true;
        if fire_happens && fire_ok {
            let sx: i64;
            let sy: i64;
            match rotation {
                Rotation::Up => {
                    sx = origin.x as i64;
                    sy = origin.y as i64 - 10;
                },
                Rotation::Down => {
                    sx = origin.x as i64;
                    sy = origin.y as i64 + 10;
                },
                Rotation::Left => {
                    sx = origin.x as i64 - 10;
                    sy = origin.y as i64;
                },
                Rotation::Right => {
                    sx = origin.x as i64 + 10;
                    sy = origin.y as i64;
                },
            }
            let s_move_ok = i32::MIN as i64 <= sx && sx <= i32::MAX as i64 && i32::MIN as i64 <= sy
                && sy <= i32::MAX as i64;
            let mut s_ok = s_move_ok;
            if s_move_ok {
                proof {
                    assert forall|p: (int, int)| #[trigger]
                        default_sprite_map().dom().contains(p) implies p.0 > i32::MIN && p.1
                        > i32::MIN by {}
                }
                let spawn_map = crate::structs::sprite::Sprite::build_default_sprite().rotated(
                    rotation,
                );
                s_ok = spawn_map.can_translate(Point::new(sx as i32, sy as i32));
            }
            spawned_ok = s_ok;
            proof {
                assert((sx as int, sy as int) == crate::game_objects::spatial::moved_origin(
                    spawn_spatial.origin,
                    direction_for(g.player.rotation),
                    10,
                ));
                assert(spawned_ok == projectile_tick_ok(g1.projectiles[g1.projectiles.len() - 1]));
            }
        }
        // Room in the id and coin counters.
        let counters_ok = self.next_coin_id < u32::MAX && (self.player.coin_count() as u128 + self
            .coins.len() as u128 <= u32::MAX as u128);
        let r = fire_ok && player_ok && projectiles_ok && spawned_ok && counters_ok;
        proof {
            if r {
                assert forall|j: int|
                    0 <= j < g1.projectiles.len() implies projectile_tick_ok(
                    #[trigger] g1.projectiles[j],
                ) by {
                    if j < g.projectiles.len() {
                        assert(projectile_tick_ok(g.projectiles[j]));
                    }
                }
                assert(game_tick_ok(g, event));
            } else {
                assert(!game_tick_ok(g, event)) by {
                    if !fire_ok {
                        assert(!game_tick_ok(g, event));
                    } else if !player_ok {
                        assert(!game_tick_ok(g, event));
                    } else if !projectiles_ok {
                        let j = choose|j: int|
                            0 <= j < g.projectiles.len() && !projectile_tick_ok(
                                #[trigger] g.projectiles[j],
                            );
                        assert(g1.projectiles[j] == g.projectiles[j]);
                        assert(!game_tick_ok(g, event));
                    } else if !spawned_ok {
                        assert(!projectile_tick_ok(g1.projectiles[g1.projectiles.len() - 1]));
                        assert(!game_tick_ok(g, event));
                    } else {
                        assert(!game_tick_ok(g, event));
                    }
                }
            }
        }
        r
    }
}

/// A well-formed world stays well formed across a tick, and the tick never
/// ends with the world coinless: the respawn phase restores a coin in the
/// same tick that collected the last one.
proof fn lemma_spec_tick_wf(g: GameView, event: Option<PlayerInput>, c: (int, int))
    requires
        game_wf(g),
        game_tick_ok(g, event),
        0 <= c.0 < g.width,
        0 <= c.1 < g.height,
    ensures
        game_wf(spec_tick(g, event, c)),
        spec_tick(g, event, c).coins.len() >= 1,
{
    let g1 = spec_apply_input(g, event);
    assert forall|p: (int, int)| #[trigger]
        default_sprite_map().dom().contains(p) implies p.0 > i32::MIN && p.1 > i32::MIN by {}
    assert(game_wf(g1)) by {
        if g1.projectiles.len() > g.projectiles.len() {
            assert forall|j: int|
                0 <= j < g1.projectiles.len() implies projectile_view_wf(
                #[trigger] g1.projectiles[j],
            ) by {
                if j < g.projectiles.len() {
                    assert(projectile_view_wf(g.projectiles[j]));
                }
            }
        }
    }
    let g2 = spec_move(g1);
    assert(game_wf(g2)) by {
        assert(spatial_consistent(spec_player_tick(g1.player).spatial));
        assert forall|j: int|
            0 <= j < g2.projectiles.len() implies projectile_view_wf(
            #[trigger] g2.projectiles[j],
        ) by {
            assert(g2.projectiles[j] == spec_projectile_tick(g1.projectiles[j]));
            assert(projectile_view_wf(g1.projectiles[j]));
        }
        assert forall|a: int, b: int|
            0 <= a < g2.projectiles.len() && 0 <= b < g2.projectiles.len() && a != b implies
            #[trigger] g2.projectiles[a].id != #[trigger] g2.projectiles[b].id by {
            assert(g2.projectiles[a].id == g1.projectiles[a].id);
            assert(g2.projectiles[b].id == g1.projectiles[b].id);
        }
        assert forall|j: int|
            0 <= j < g2.projectiles.len() implies (#[trigger] g2.projectiles[j].id)
            < g2.next_projectile_id by {
            assert(g2.projectiles[j].id == g1.projectiles[j].id);
        }
    }
    let g3 = spec_rollback(g2);
    assert(game_wf(g3));
    let g4 = spec_destroy_projectiles(g3);
    assert(game_wf(g4)) by {
        let pred = |p: ProjectileView|
            !sets_intersect(p.spatial.effective_points, g3.boundary.spatial.effective_points);
        lemma_filter_id_facts(g3.projectiles, pred, |p: ProjectileView| p.id as int);
        assert forall|j: int|
            0 <= j < g4.projectiles.len() implies projectile_view_wf(
            #[trigger] g4.projectiles[j],
        ) && (#[trigger] g4.projectiles[j].id) < g4.next_projectile_id by {
            let orig = choose|a: int|
                0 <= a < g3.projectiles.len() && g4.projectiles[j] == g3.projectiles[a];
            assert(projectile_view_wf(g3.projectiles[orig]));
            assert(g3.projectiles[orig].id < g3.next_projectile_id);
        }
    }
    let g5 = spec_collect_coins(g4);
    assert(game_wf(spec_respawn(g5, c)) && spec_respawn(g5, c).coins.len() >= 1) by {
        let hit = union_projectile_points(g4.projectiles);
        let pred = |cv: CoinView| !sets_intersect(cv.spatial.effective_points, hit);
        lemma_filter_id_facts(g4.coins, pred, |cv: CoinView| cv.id as int);
        assert forall|j: int|
            0 <= j < g5.coins.len() implies coin_view_wf(#[trigger] g5.coins[j]) && (
        #[trigger] g5.coins[j].id) < g5.next_coin_id by {
            let orig = choose|a: int| 0 <= a < g4.coins.len() && g5.coins[j] == g4.coins[a];
            assert(coin_view_wf(g4.coins[orig]));
            assert(g4.coins[orig].id < g4.next_coin_id);
        }
        if g5.coins.len() == 0 {
            crate::structs::sprite::lemma_rotate_identity(default_sprite_map());
            let g6 = spec_respawn(g5, c);
            assert(g6.coins[0] == CoinView { id: g5.next_coin_id, spatial: default_spatial_at(c) });
            assert(coin_view_wf(g6.coins[0]));
        }
    }
}

/// Every element kept by a filter is an element of the original sequence,
/// and a key that tells the original elements apart still tells the kept
/// ones apart.
pub(crate) proof fn lemma_filter_id_facts<A>(s: Seq<A>, pred: spec_fn(A) -> bool, f: spec_fn(A) -> int)
    requires
        forall|a: int, b: int|
            0 <= a < s.len() && 0 <= b < s.len() && a != b ==> f(#[trigger] s[a]) != f(
                #[trigger] s[b],
            ),
    ensures
        s.filter(pred).len() <= s.len(),
        forall|i: int|
            0 <= i < s.filter(pred).len() ==> exists|j: int|
                0 <= j < s.len() && #[trigger] s.filter(pred)[i] == s[j],
        forall|a: int, b: int|
            0 <= a < s.filter(pred).len() && 0 <= b < s.filter(pred).len() && a != b ==> f(
                #[trigger] s.filter(pred)[a],
            ) != f(#[trigger] s.filter(pred)[b]),
    decreases s.len(),
{
    reveal(Seq::filter);
    if s.len() > 0 {
        let d = s.drop_last();
        assert forall|a: int, b: int|
            0 <= a < d.len() && 0 <= b < d.len() && a != b implies f(#[trigger] d[a]) != f(
            #[trigger] d[b],
        ) by {
            assert(d[a] == s[a]);
            assert(d[b] == s[b]);
        }
        lemma_filter_id_facts(d, pred, f);
        let df = d.filter(pred);
        let sf = s.filter(pred);
        assert forall|i: int|
            0 <= i < sf.len() implies exists|j: int|
            0 <= j < s.len() && #[trigger] sf[i] == s[j] by {
            if i < df.len() {
                assert(sf[i] == df[i]);
                let j = choose|j: int| 0 <= j < d.len() && df[i] == d[j];
                assert(sf[i] == s[j]);
            } else {
                assert(sf[i] == s.last());
                assert(sf[i] == s[s.len() - 1]);
            }
        }
        assert forall|a: int, b: int|
            0 <= a < sf.len() && 0 <= b < sf.len() && a != b implies f(#[trigger] sf[a]) != f(
            #[trigger] sf[b],
        ) by {
            if a < df.len() && b < df.len() {
                assert(sf[a] == df[a]);
                assert(sf[b] == df[b]);
            } else if a < df.len() {
                assert(sf[a] == df[a]);
                assert(sf[b] == s.last());
                let j = choose|j: int| 0 <= j < d.len() && df[a] == d[j];
                assert(f(sf[a]) == f(s[j]));
                assert(f(sf[b]) == f(s[s.len() - 1]));
            } else if b < df.len() {
                assert(sf[b] == df[b]);
                assert(sf[a] == s.last());
                let j = choose|j: int| 0 <= j < d.len() && df[b] == d[j];
                assert(f(sf[b]) == f(s[j]));
                assert(f(sf[a]) == f(s[s.len() - 1]));
            }
        }
    }
}

/// Filtering one more element keeps it exactly when the predicate holds.
proof fn lemma_filter_take_step<A>(s: Seq<A>, pred: spec_fn(A) -> bool, i: int)
    requires
        0 <= i < s.len(),
    ensures
        s.take(i + 1).filter(pred) == if pred(s[i]) {
            s.take(i).filter(pred).push(s[i])
        } else {
            s.take(i).filter(pred)
        },
{
    reveal(Seq::filter);
    assert(s.take(i + 1).drop_last() =~= s.take(i));
    assert(s.take(i + 1).last() == s[i]);
}

} // verus!
