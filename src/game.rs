//! The game: its state machine, key table, levels and paddle.

use vstd::prelude::*;

use crate::command::RenderCommand;
use crate::entity::{Entity, EntityView};
use crate::geometry::{Extent, Tint, Vector2};
use crate::handles::VertexAttributeArray;
use crate::level::{completed, level_bricks, level_commands, Level, LevelError};
use crate::loader::{Loader, ResourceError};
use crate::sprite_renderer::SpriteRenderer;
use crate::texture2d::Texture2D;

verus! {

/// Number of slots in the key table; key codes are below it.
pub const KEY_COUNT: usize = 1024;

/// Key code that moves the paddle left (the A key).
pub const MOVE_LEFT_KEY: usize = 65;

/// Key code that moves the paddle right (the D key).
pub const MOVE_RIGHT_KEY: usize = 68;

/// Paddle width in pixels.
pub const PLAYER_WIDTH: u32 = 100;

/// Paddle height in pixels.
pub const PLAYER_HEIGHT: u32 = 20;

/// Paddle speed in pixels per second.
pub const PLAYER_VELOCITY: u64 = 500;

/// Microseconds in a second: frame times are given in microseconds.
pub const MICROS_PER_SECOND: u64 = 1000000;

/// Name of the sprite material in the cache.
pub const SPRITE_MATERIAL: &'static str = "sprite";

/// Name of the sprite shader's sampler uniform.
pub const IMAGE_UNIFORM: &'static str = "image";

/// Name of the sprite shader's projection uniform.
pub const PROJECTION_UNIFORM: &'static str = "projection";

/// Texture drawn over the whole window behind everything else.
pub const BACKGROUND_TEXTURE: &'static str = "background";

/// Texture of the paddle.
pub const PADDLE_TEXTURE: &'static str = "paddle";

/// What the game is doing.
#[derive(Debug, Clone, Copy, PartialEq, Eq, Structural)]
pub enum GameState {
    Active,
    Menu,
    Win,
}

/// Why a game operation failed.
#[derive(Debug, Clone, Copy, PartialEq, Eq)]
pub enum GameError {
    /// A material or texture the game needs is not in the cache.
    Resource(ResourceError),
    /// A level could not be loaded.
    Level(LevelError),
    /// No level was given.
    NoLevels,
    /// The operation is not yet supported in this state.
    Unsupported(GameState),
}

/// What a [`Game`] holds.
pub struct GameView {
    pub state: GameState,
    /// Whether each key is held, by key code.
    pub keys: Seq<bool>,
    pub width: u32,
    pub height: u32,
    pub sprite_renderer: SpriteRenderer,
    /// The bricks of each level.
    pub levels: Seq<Seq<EntityView>>,
    pub current_level: int,
    pub player: EntityView,
    /// Paddle travel owed but not yet made, in millionths of a pixel: what is
    /// left over below a whole pixel after each frame of movement.
    pub travel_remainder: int,
}

impl GameView {
    /// The key table has a slot per key code, the current level exists, the
    /// paddle is no further left than its own width and no further right than
    /// the window's width, and the travel remainder is below a whole pixel.
    pub open spec fn wf(self) -> bool {
        &&& self.keys.len() == KEY_COUNT
        &&& 0 <= self.current_level < self.levels.len()
        &&& -(PLAYER_WIDTH as int) <= self.player.position.x <= self.width
        &&& 0 <= self.travel_remainder < MICROS_PER_SECOND
    }
}

/// The paddle's x after one frame in which it may move by `d` pixels: left,
/// stopping at 0, while the left key is held; otherwise right, stopping where
/// its right edge meets the window's, while the right key is held.
pub open spec fn paddle_step(x: int, d: int, left: bool, right: bool, width: int) -> int {
    if left {
        if x - d > 0 {
            x - d
        } else {
            0
        }
    } else if right {
        if x + d < width - PLAYER_WIDTH {
            x + d
        } else {
            width - PLAYER_WIDTH
        }
    } else {
        x
    }
}

/// The paddle's x and travel remainder after a frame of `dt_micros`
/// microseconds that starts at `x` with remainder `remainder`. While a movement
/// key is held the paddle owes `remainder + PLAYER_VELOCITY * dt_micros`
/// millionths of a pixel: it moves by the whole pixels of that (see
/// [`paddle_step`]) and keeps the rest. With no movement key held nothing changes.
pub open spec fn input_step(x: int, remainder: int, dt_micros: int, left: bool, right: bool, width: int) -> (
    int,
    int,
) {
    if left || right {
        let total = remainder + PLAYER_VELOCITY * dt_micros;
        (
            paddle_step(x, total / MICROS_PER_SECOND as int, left, right, width),
            total % MICROS_PER_SECOND as int,
        )
    } else {
        (x, remainder)
    }
}

/// The paddle's x and travel remainder after `frames` frames of `dt_micros`
/// microseconds each, with the same keys held.
pub open spec fn paddle_after(
    x: int,
    remainder: int,
    dt_micros: int,
    left: bool,
    right: bool,
    width: int,
    frames: nat,
) -> (int, int)
    decreases frames,
{
    if frames == 0 {
        (x, remainder)
    } else {
        let before = paddle_after(x, remainder, dt_micros, left, right, width, (frames - 1) as nat);
        input_step(before.0, before.1, dt_micros, left, right, width)
    }
}

/// The bricks of each level text, or the error of the first that fails.
pub open spec fn levels_bricks(
    texts: Seq<Seq<char>>,
    width: u32,
    height: u32,
    textures: Map<Seq<char>, Texture2D>,
) -> Result<Seq<Seq<EntityView>>, LevelError>
    decreases texts.len(),
{
    if texts.len() == 0 {
        Ok(Seq::empty())
    } else {
        match levels_bricks(texts.drop_last(), width, height, textures) {
            Err(e) => Err(e),
            Ok(levels) => match level_bricks(texts.last(), width, height, textures) {
                Err(e) => Err(e),
                Ok(bricks) => Ok(levels.push(bricks)),
            },
        }
    }
}

/// The texts of a list of strings.
pub open spec fn texts_of(sources: Seq<String>) -> Seq<Seq<char>> {
    sources.map_values(|s: String| s@)
}

/// The bricks of each level in a list.
pub open spec fn levels_view(levels: Seq<Level>) -> Seq<Seq<EntityView>> {
    levels.map_values(|l: Level| l@)
}

proof fn lemma_levels_error_persists(
    texts: Seq<Seq<char>>,
    n: int,
    width: u32,
    height: u32,
    textures: Map<Seq<char>, Texture2D>,
    e: LevelError,
)
    requires
        0 <= n <= texts.len(),
        levels_bricks(texts.take(n), width, height, textures) == Err::<Seq<Seq<EntityView>>, LevelError>(e),
    ensures
        levels_bricks(texts, width, height, textures) == Err::<Seq<Seq<EntityView>>, LevelError>(e),
    decreases texts.len() - n,
{
    if n == texts.len() {
        assert(texts.take(n) =~= texts);
    } else {
        assert(texts.take(n + 1).drop_last() =~= texts.take(n));
        lemma_levels_error_persists(texts, n + 1, width, height, textures, e);
    }
}

/// Loads one level from each text, each stretched over the window's width and
/// the upper half of its height.
pub fn load_levels(loader: &Loader, level_sources: &Vec<String>, width: u32, height: u32) -> (r:
    Result<Vec<Level>, LevelError>)
    requires
        loader.wf(),
    ensures
        match levels_bricks(texts_of(level_sources@), width, height / 2, loader.textures()) {
            Ok(levels) => r matches Ok(v) && levels_view(v@) == levels && v@.len()
                == level_sources@.len(),
            Err(e) => r == Err::<Vec<Level>, LevelError>(e),
        },
{
    let ghost texts = texts_of(level_sources@);
    let mut levels: Vec<Level> = Vec::new();
    let mut i: usize = 0;
    proof {
        assert(texts.take(0) =~= Seq::<Seq<char>>::empty());
        assert(levels_view(levels@) =~= Seq::<Seq<EntityView>>::empty());
    }
    while i < level_sources.len()
        invariant
            loader.wf(),
            texts == texts_of(level_sources@),
            0 <= i <= level_sources@.len(),
            levels@.len() == i,
            levels_bricks(texts.take(i as int), width, height / 2, loader.textures()) == Ok::<
                Seq<Seq<EntityView>>,
                LevelError,
            >(levels_view(levels@)),
        decreases level_sources@.len() - i,
    {
        proof {
            assert(texts.take(i + 1).drop_last() =~= texts.take(i as int));
            assert(texts.take(i + 1).last() == level_sources@[i as int]@);
        }
        let mut level = Level::new();
        match level.load(level_sources[i].as_str(), width, height / 2, loader) {
            Ok(()) => {},
            Err(e) => {
                proof {
                    lemma_levels_error_persists(texts, i + 1, width, height / 2, loader.textures(), e);
                }
                return Err(e);
            },
        }
        let ghost before = levels_view(levels@);
        levels.push(level);
        proof {
            assert(levels_view(levels@) =~= before.push(level@));
        }
        i = i + 1;
    }
    proof {
        assert(texts.take(i as int) =~= texts);
    }
    Ok(levels)
}

/// The commands of one frame of an active game: the background over the
/// whole window, then the current level, then the paddle, back to front.
pub open spec fn frame_commands(game: GameView, background: Texture2D) -> Seq<RenderCommand> {
    let renderer = game.sprite_renderer;
    let player = game.player;
    renderer.sprite_commands(
        background,
        Vector2 { x: 0, y: 0 },
        Extent { width: game.width, height: game.height },
        0,
        Tint::spec_white(),
    ) + level_commands(renderer, game.levels[game.current_level]) + renderer.sprite_commands(
        player.sprite,
        player.position,
        player.size,
        player.rotation,
        player.color,
    )
}

/// The paddle as a new game places it: centred, flush with the bottom of the
/// window, untinted.
pub open spec fn initial_player(width: u32, height: u32, sprite: Texture2D) -> EntityView {
    EntityView {
        position: Vector2 {
            x: ((width / 2) as int - (PLAYER_WIDTH / 2) as int) as i64,
            y: (height as int - PLAYER_HEIGHT as int) as i64,
        },
        size: Extent { width: PLAYER_WIDTH, height: PLAYER_HEIGHT },
        velocity: Vector2 { x: 0, y: 0 },
        color: Tint::spec_white(),
        rotation: 0,
        sprite,
        is_solid: false,
        is_destroyed: false,
    }
}

/// The commands that prepare the sprite material for a window of `width` by
/// `height` pixels.
pub open spec fn setup_commands(material: crate::material::Material, width: u32, height: u32) -> Seq<
    RenderCommand,
> {
    seq![
        RenderCommand::UseProgram(material.program),
        RenderCommand::SetInteger { program: material.program, name: IMAGE_UNIFORM, value: 0 },
        RenderCommand::SetProjection {
            program: material.program,
            name: PROJECTION_UNIFORM,
            width,
            height,
        },
    ]
}

/// The whole game: state, key table, window size, renderer, levels and paddle.
pub struct Game {
    state: GameState,
    keys: Vec<bool>,
    width: u32,
    height: u32,
    sprite_renderer: SpriteRenderer,
    levels: Vec<Level>,
    current_level: usize,
    player: Entity,
    travel_remainder: u64,
}

impl View for Game {
    type V = GameView;

    closed spec fn view(&self) -> GameView {
        GameView {
            state: self.state,
            keys: self.keys@,
            width: self.width,
            height: self.height,
            sprite_renderer: self.sprite_renderer,
            levels: levels_view(self.levels@),
            current_level: self.current_level as int,
            player: self.player@,
            travel_remainder: self.travel_remainder as int,
        }
    }
}

impl Game {
    /// A game for a `width` by `height` window, in the active state with no key
    /// held. The cache must already hold the sprite material and the textures:
    /// the levels are read from `level_sources`, each over the window's width
    /// and the upper half of its height, and the first is played; the paddle is
    /// centred on the bottom edge. The commands that prepare the material
    /// (sampler unit 0 and the pixel-space projection) are recorded into `out`
    /// only when the game is made.
    pub fn new(
        width: u32,
        height: u32,
        loader: &Loader,
        quad_vao: VertexAttributeArray,
        level_sources: &Vec<String>,
        out: &mut Vec<RenderCommand>,
    ) -> (r: Result<Game, GameError>)
        requires
            loader.wf(),
        ensures
            ({
                let materials = loader.materials();
                let textures = loader.textures();
                let levels = levels_bricks(texts_of(level_sources@), width, height / 2, textures);
                if !materials.contains_key(SPRITE_MATERIAL@) {
                    r == Err::<Game, GameError>(GameError::Resource(ResourceError::NotFound))
                        && final(out)@ == old(out)@
                } else if levels is Err {
                    r == Err::<Game, GameError>(GameError::Level(levels->Err_0)) && final(out)@ == old(
                        out,
                    )@
                } else if level_sources@.len() == 0 {
                    r == Err::<Game, GameError>(GameError::NoLevels) && final(out)@ == old(out)@
                } else if !textures.contains_key(PADDLE_TEXTURE@) {
                    r == Err::<Game, GameError>(GameError::Resource(ResourceError::NotFound))
                        && final(out)@ == old(out)@
                } else {
                    let material = materials[SPRITE_MATERIAL@];
                    &&& r is Ok
                    &&& r->Ok_0@ == (GameView {
                        state: GameState::Active,
                        keys: Seq::new(KEY_COUNT as nat, |i: int| false),
                        width,
                        height,
                        sprite_renderer: SpriteRenderer { material, quad_vao },
                        levels: levels->Ok_0,
                        current_level: 0,
                        player: initial_player(width, height, textures[PADDLE_TEXTURE@]),
                        travel_remainder: 0,
                    })
                    &&& r->Ok_0@.wf()
                    &&& final(out)@ == old(out)@ + setup_commands(material, width, height)
                }
            }),
    {
        let material = match loader.get_material(SPRITE_MATERIAL) {
            Ok(m) => m,
            Err(e) => {
                return Err(GameError::Resource(e));
            },
        };
        let levels = match load_levels(loader, level_sources, width, height) {
            Ok(levels) => levels,
            Err(e) => {
                return Err(GameError::Level(e));
            },
        };
        if levels.len() == 0 {
            return Err(GameError::NoLevels);
        }
        let paddle = match loader.get_texture(PADDLE_TEXTURE) {
            Ok(t) => t,
            Err(e) => {
                return Err(GameError::Resource(e));
            },
        };
        let sprite_renderer = SpriteRenderer::new(material, quad_vao);
        let player_position = Vector2::new(
            (width / 2) as i64 - (PLAYER_WIDTH / 2) as i64,
            height as i64 - PLAYER_HEIGHT as i64,
        );
        let player = Entity::new(
            player_position,
            Extent::new(PLAYER_WIDTH, PLAYER_HEIGHT),
            paddle,
            Tint::white(),
        );
        material.use_(out);
        material.set_integer(IMAGE_UNIFORM, 0, out);
        material.set_projection(PROJECTION_UNIFORM, width, height, out);
        proof {
            assert(out@ =~= old(out)@ + setup_commands(material, width, height));
        }
        let keys = vec![false; KEY_COUNT];
        let game = Game {
            state: GameState::Active,
            keys,
            width,
            height,
            sprite_renderer,
            levels,
            current_level: 0,
            player,
            travel_remainder: 0,
        };
        proof {
            assert(game@.keys =~= Seq::new(KEY_COUNT as nat, |i: int| false));
        }
        Ok(game)
    }

    /// Advances time-driven simulation by a frame; nothing moves on its own yet.
    pub fn update(&self, _dt_micros: u32) {
    }

    /// Moves the paddle for a frame of `dt_micros` microseconds at
    /// `PLAYER_VELOCITY` pixels a second: while the left key is held, left,
    /// stopping at the window's left edge; otherwise, while the right key is
    /// held, right, stopping at the right edge. Travel below a whole pixel is
    /// carried to the next frame, so the speed does not depend on the frame
    /// rate. Nothing else changes. Only an active game takes input.
    pub fn process_input(&mut self, dt_micros: u32) -> (r: Result<(), GameError>)
        requires
            old(self)@.wf(),
        ensures
            final(self)@.wf(),
            old(self)@.state != GameState::Active ==> r == Err::<(), GameError>(
                GameError::Unsupported(old(self)@.state),
            ) && final(self)@ == old(self)@,
            old(self)@.state == GameState::Active ==> ({
                let next = input_step(
                    old(self)@.player.position.x as int,
                    old(self)@.travel_remainder,
                    dt_micros as int,
                    old(self)@.keys[MOVE_LEFT_KEY as int],
                    old(self)@.keys[MOVE_RIGHT_KEY as int],
                    old(self)@.width as int,
                );
                r is Ok && final(self)@ == (GameView {
                    player: EntityView {
                        position: Vector2 { x: next.0 as i64, ..old(self)@.player.position },
                        ..old(self)@.player
                    },
                    travel_remainder: next.1,
                    ..old(self)@
                })
            }),
    {
        match self.state {
            GameState::Active => {},
            other => {
                return Err(GameError::Unsupported(other));
            },
        }
        let left = self.keys[MOVE_LEFT_KEY];
        let right = self.keys[MOVE_RIGHT_KEY];
        if !left && !right {
            return Ok(());
        }
        let total = self.travel_remainder + PLAYER_VELOCITY * dt_micros as u64;
        let velocity = (total / MICROS_PER_SECOND) as i64;
        let position = self.player.position();
        let x = position.x;
        if left {
            let moved = if x - velocity > 0 {
                x - velocity
            } else {
                0
            };
            self.player.set_position(Vector2 { x: moved, ..position });
        } else {
            let limit = self.width as i64 - PLAYER_WIDTH as i64;
            let moved = if x + velocity < limit {
                x + velocity
            } else {
                limit
            };
            self.player.set_position(Vector2 { x: moved, ..position });
        }
        self.travel_remainder = total % MICROS_PER_SECOND;
        Ok(())
    }

    /// Records one frame: in an active game the background over the whole
    /// window, then the current level's standing bricks, then the paddle. Other
    /// states are not yet drawn. On failure nothing is recorded.
    pub fn render(&self, loader: &Loader, out: &mut Vec<RenderCommand>) -> (r: Result<(), GameError>)
        requires
            self@.wf(),
            loader.wf(),
        ensures
            self@.state != GameState::Active ==> r == Err::<(), GameError>(
                GameError::Unsupported(self@.state),
            ) && final(out)@ == old(out)@,
            self@.state == GameState::Active && !loader.textures().contains_key(BACKGROUND_TEXTURE@)
                ==> r == Err::<(), GameError>(GameError::Resource(ResourceError::NotFound))
                && final(out)@ == old(out)@,
            self@.state == GameState::Active && loader.textures().contains_key(BACKGROUND_TEXTURE@)
                ==> r is Ok && final(out)@ == old(out)@ + frame_commands(
                self@,
                loader.textures()[BACKGROUND_TEXTURE@],
            ),
    {
        match self.state {
            GameState::Active => {},
            other => {
                return Err(GameError::Unsupported(other));
            },
        }
        let background = match loader.get_texture(BACKGROUND_TEXTURE) {
            Ok(t) => t,
            Err(e) => {
                return Err(GameError::Resource(e));
            },
        };
        self.sprite_renderer.draw(
            &background,
            Vector2::new(0, 0),
            Extent::new(self.width, self.height),
            0,
            Tint::white(),
            out,
        );
        let level = &self.levels[self.current_level];
        assert(level@ == self@.levels[self@.current_level]);
        level.draw(&self.sprite_renderer, out);
        self.player.draw(&self.sprite_renderer, out);
        proof {
            assert(out@ =~= old(out)@ + frame_commands(self@, background));
        }
        Ok(())
    }

    /// Records whether the key with code `key` is held.
    pub fn set_bool(&mut self, key: usize, value: bool)
        requires
            old(self)@.wf(),
            key < KEY_COUNT,
        ensures
            final(self)@.wf(),
            final(self)@ == (GameView { keys: old(self)@.keys.update(key as int, value), ..old(self)@ }),
    {
        self.keys.set(key, value);
    }

    /// Moves the game to `state`.
    pub fn set_state(&mut self, state: GameState)
        ensures
            final(self)@ == (GameView { state, ..old(self)@ }),
    {
        self.state = state;
    }

    pub fn state(&self) -> (r: GameState)
        ensures
            r == self@.state,
    {
        self.state
    }

    pub fn width(&self) -> (r: u32)
        ensures
            r == self@.width,
    {
        self.width
    }

    pub fn height(&self) -> (r: u32)
        ensures
            r == self@.height,
    {
        self.height
    }

    /// Whether the key with code `key` is held.
    pub fn key(&self, key: usize) -> (r: bool)
        requires
            self@.wf(),
            key < KEY_COUNT,
        ensures
            r == self@.keys[key as int],
    {
        self.keys[key]
    }

    pub fn player(&self) -> (r: &Entity)
        ensures
            r@ == self@.player,
    {
        &self.player
    }

    /// The level being played.
    pub fn current_level(&self) -> (r: &Level)
        requires
            self@.wf(),
        ensures
            r@ == self@.levels[self@.current_level],
    {
        &self.levels[self.current_level]
    }

    /// Whether the level being played is complete.
    pub fn is_level_completed(&self) -> (r: bool)
        requires
            self@.wf(),
        ensures
            r == completed(self@.levels[self@.current_level]),
    {
        self.levels[self.current_level].is_completed()
    }
}

/// Carrying the remainder of `a` below `m` into the next sum loses nothing:
/// the whole parts add up and the remainders agree.
proof fn lemma_carry(a: int, b: int, m: int)
    requires
        m > 0,
        a >= 0,
        b >= 0,
    ensures
        (a % m + b) / m + a / m == (a + b) / m,
        (a % m + b) % m == (a + b) % m,
{
    let r = a % m + b;
    vstd::arithmetic::div_mod::lemma_fundamental_div_mod(a, m);
    vstd::arithmetic::div_mod::lemma_mod_pos_bound(a, m);
    vstd::arithmetic::div_mod::lemma_fundamental_div_mod(r, m);
    vstd::arithmetic::div_mod::lemma_mod_pos_bound(r, m);
    let q = a / m + r / m;
    assert(a + b == q * m + r % m) by (nonlinear_arith)
        requires
            a == m * (a / m) + a % m,
            r == m * (r / m) + r % m,
            r == a % m + b,
            q == a / m + r / m,
    ;
    vstd::arithmetic::div_mod::lemma_fundamental_div_mod_converse_div(a + b, m, q, r % m);
    vstd::arithmetic::div_mod::lemma_fundamental_div_mod_converse_mod(a + b, m, q, r % m);
}

/// `t / m` reaches `k` once `t` reaches `k * m`.
proof fn lemma_whole_part_reaches(t: int, k: int, m: int)
    requires
        m > 0,
        t >= 0,
        t >= k * m,
    ensures
        t / m >= k,
{
    vstd::arithmetic::div_mod::lemma_div_pos_is_pos(t, m);
    if k > 0 {
        vstd::arithmetic::div_mod::lemma_div_is_ordered(k * m, t, m);
        vstd::arithmetic::mul::lemma_mul_is_commutative(k, m);
        vstd::arithmetic::div_mod::lemma_div_multiples_vanish(k, m);
    }
}

/// Holding the left key for `frames` frames of `dt_micros` microseconds moves
/// the paddle left by the whole pixels of the time's travel,
/// `remainder + frames * PLAYER_VELOCITY * dt_micros` millionths of a pixel,
/// and never past the window's left edge. Once that time covers the distance,
/// `frames * PLAYER_VELOCITY * dt_micros >= x * 10^6`, the paddle is at 0,
/// whatever the frame length.
pub proof fn lemma_paddle_left_stops_at_edge(
    x: int,
    remainder: int,
    dt_micros: int,
    right: bool,
    width: int,
    frames: nat,
)
    requires
        0 <= remainder < MICROS_PER_SECOND,
        dt_micros >= 0,
        frames >= 1,
    ensures
        ({
            let travel = remainder + frames * PLAYER_VELOCITY * dt_micros;
            let after = paddle_after(x, remainder, dt_micros, true, right, width, frames);
            &&& after.0 == if x - travel / MICROS_PER_SECOND as int > 0 {
                x - travel / MICROS_PER_SECOND as int
            } else {
                0
            }
            &&& after.1 == travel % MICROS_PER_SECOND as int
            &&& after.0 >= 0
        }),
        frames * PLAYER_VELOCITY * dt_micros >= x * MICROS_PER_SECOND ==> paddle_after(
            x,
            remainder,
            dt_micros,
            true,
            right,
            width,
            frames,
        ).0 == 0,
    decreases frames,
{
    let m = MICROS_PER_SECOND as int;
    let step = PLAYER_VELOCITY * dt_micros;
    let travel = remainder + frames * PLAYER_VELOCITY * dt_micros;
    assert(step >= 0);
    if frames > 1 {
        lemma_paddle_left_stops_at_edge(x, remainder, dt_micros, right, width, (frames - 1) as nat);
        let earlier = remainder + (frames - 1) * PLAYER_VELOCITY * dt_micros;
        assert(earlier + step == travel) by (nonlinear_arith)
            requires
                earlier == remainder + (frames - 1) * PLAYER_VELOCITY * dt_micros,
                step == PLAYER_VELOCITY * dt_micros,
                travel == remainder + frames * PLAYER_VELOCITY * dt_micros,
        ;
        assert(earlier >= 0) by (nonlinear_arith)
            requires
                earlier == remainder + (frames - 1) * PLAYER_VELOCITY * dt_micros,
                frames >= 1,
                remainder >= 0,
                dt_micros >= 0,
        ;
        lemma_carry(earlier, step, m);
        vstd::arithmetic::div_mod::lemma_div_pos_is_pos(earlier % m + step, m);
        vstd::arithmetic::div_mod::lemma_mod_pos_bound(earlier, m);
    } else {
        assert(paddle_after(x, remainder, dt_micros, true, right, width, 0) == (x, remainder));
        assert(travel == remainder + step);
    }
    if frames * PLAYER_VELOCITY * dt_micros >= x * MICROS_PER_SECOND {
        lemma_whole_part_reaches(travel, x, m);
    }
}

/// Holding only the right key for `frames` frames of `dt_micros` microseconds
/// moves the paddle right by the whole pixels of the time's travel, and its
/// right edge never past the window's. Once that time covers the distance,
/// `frames * PLAYER_VELOCITY * dt_micros >= (width - PLAYER_WIDTH - x) * 10^6`,
/// the paddle's right edge is at `width`, whatever the frame length.
pub proof fn lemma_paddle_right_stops_at_edge(
    x: int,
    remainder: int,
    dt_micros: int,
    width: int,
    frames: nat,
)
    requires
        0 <= remainder < MICROS_PER_SECOND,
        dt_micros >= 0,
        frames >= 1,
    ensures
        ({
            let travel = remainder + frames * PLAYER_VELOCITY * dt_micros;
            let after = paddle_after(x, remainder, dt_micros, false, true, width, frames);
            &&& after.0 == if x + travel / (MICROS_PER_SECOND as int) < width - PLAYER_WIDTH {
                x + travel / MICROS_PER_SECOND as int
            } else {
                width - PLAYER_WIDTH
            }
            &&& after.1 == travel % MICROS_PER_SECOND as int
            &&& after.0 + PLAYER_WIDTH <= width
        }),
        frames * PLAYER_VELOCITY * dt_micros >= (width - PLAYER_WIDTH - x) * MICROS_PER_SECOND
            ==> paddle_after(x, remainder, dt_micros, false, true, width, frames).0 + PLAYER_WIDTH
            == width,
    decreases frames,
{
    let m = MICROS_PER_SECOND as int;
    let step = PLAYER_VELOCITY * dt_micros;
    let travel = remainder + frames * PLAYER_VELOCITY * dt_micros;
    assert(step >= 0);
    if frames > 1 {
        lemma_paddle_right_stops_at_edge(x, remainder, dt_micros, width, (frames - 1) as nat);
        let earlier = remainder + (frames - 1) * PLAYER_VELOCITY * dt_micros;
        assert(earlier + step == travel) by (nonlinear_arith)
            requires
                earlier == remainder + (frames - 1) * PLAYER_VELOCITY * dt_micros,
                step == PLAYER_VELOCITY * dt_micros,
                travel == remainder + frames * PLAYER_VELOCITY * dt_micros,
        ;
        assert(earlier >= 0) by (nonlinear_arith)
            requires
                earlier == remainder + (frames - 1) * PLAYER_VELOCITY * dt_micros,
                frames >= 1,
                remainder >= 0,
                dt_micros >= 0,
        ;
        lemma_carry(earlier, step, m);
        vstd::arithmetic::div_mod::lemma_div_pos_is_pos(earlier % m + step, m);
        vstd::arithmetic::div_mod::lemma_mod_pos_bound(earlier, m);
    } else {
        assert(paddle_after(x, remainder, dt_micros, false, true, width, 0) == (x, remainder));
        assert(travel == remainder + step);
    }
    if frames * PLAYER_VELOCITY * dt_micros >= (width - PLAYER_WIDTH - x) * MICROS_PER_SECOND {
        lemma_whole_part_reaches(travel, width - PLAYER_WIDTH - x, m);
    }
}

/// With both movement keys held the paddle moves left: the left key wins.
pub proof fn lemma_left_key_wins(x: int, remainder: int, dt_micros: int, width: int)
    ensures
        input_step(x, remainder, dt_micros, true, true, width) == input_step(
            x,
            remainder,
            dt_micros,
            true,
            false,
            width,
        ),
{
}

} // verus!
