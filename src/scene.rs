use vstd::prelude::*;

use crate::collision::{collide_from, CollisionSystem};
use crate::component::{Components, FontStyle, Label, LabelVariable, Position, Render};
use crate::component::Entity;
use crate::enemy::{
    is_boss, is_flyer, is_shooter, is_shower, is_walker, lemma_shower_kept, shower_draw,
    create_boss_with, create_fireball_shower, create_flyer, create_shooter, create_walker,
};
use crate::fireball::{rearmed_store, FireballSystem};
use crate::geom::{Vector, POS_SCALE};
use crate::healing::{create_healing_potion, is_potion};
use crate::hero::{create_hero, is_new_hero};
use crate::random::random_in;
use crate::resources::{DeltaTime, KeyboardKeys, PressedKeys, VariableDictionary};
use crate::system::{
    blink_all, bound_all, control_all, walk_all, HeroBlinkingSystem, HeroControlSystem,
    OutOfBoundsSystem, WalkSystem,
};
use crate::world::{flush_all, live_in, Slot, World};

verus! {

/// The slots that a spawn may need at most; below this much room no wave is
/// spawned.
pub const SPAWN_ROOM: usize = 64;

/// The phases of a game. `GameOver` is final.
#[derive(Clone, Copy, Debug, PartialEq, Eq, Structural)]
pub enum GameState {
    Initializing,
    Running,
    GameOver,
}

/// How a game ended.
#[derive(Clone, Copy, Debug, PartialEq, Eq, Structural)]
pub enum Outcome {
    Victory,
    Defeat,
}

/// The background music.
#[derive(Clone, Copy, Debug, PartialEq, Eq, Structural)]
pub enum Track {
    Normal,
    Boss,
    Victory,
    GameOver,
}

/// Settings fixed at the start of a game: after how many cycles the boss
/// comes, how many ticks make a cycle, and the boss's own settings.
#[derive(Clone, Debug)]
pub struct SceneConfig {
    pub boss_cycle: u32,
    pub new_body_cycle: u32,
    pub boss_lives: u32,
    pub boss_normal_lives: u32,
    pub boss_projectile_sprite: String,
    pub boss_maximum_projectiles: u32,
}

impl SceneConfig {
    /// The standard level: the boss after 20 cycles of 125 ticks.
    pub fn new() -> (r: SceneConfig)
        ensures
            r.boss_cycle == 20,
            r.new_body_cycle == 125,
            r.boss_lives == 10,
            r.boss_normal_lives == 5,
            r.boss_projectile_sprite@ == "bossfireball"@,
            r.boss_maximum_projectiles == 2,
    {
        SceneConfig {
            boss_cycle: 20,
            new_body_cycle: 125,
            boss_lives: 10,
            boss_normal_lives: 5,
            boss_projectile_sprite: "bossfireball".to_string(),
            boss_maximum_projectiles: 2,
        }
    }
}

/// What the host has to do after a tick.
#[derive(Clone, Copy, Debug, PartialEq, Eq, Structural)]
pub struct SceneAction {
    /// A track to start; `None` when the music goes on as it is.
    pub play: Option<Track>,
    /// The player asked to leave.
    pub close: bool,
}

/// Decides what a cycle boundary brings.
pub trait SpawnFactory {
    /// Spawns a wave into `world` for the cycle numbered `cycle`.
    /// The entities that were live are left alone.
    fn spawn(&mut self, world: &mut World, cycle: u32)
        requires
            old(world)@.len() < usize::MAX - SPAWN_ROOM,
        ensures
            final(world)@.len() >= old(world)@.len(),
            forall|i: int|
                0 <= i < old(world)@.len() && old(world)@[i].alive ==> #[trigger] final(world)@[i]
                    == old(world)@[i],
    ;
}

/// The standard mix: a walker, a shooter, a flyer or a fireball shower at
/// random, and a potion every third cycle.
pub struct RandomSpawns;

impl SpawnFactory for RandomSpawns {
    fn spawn(&mut self, world: &mut World, cycle: u32) {
        spawn_wave(world, random_in(0, 4), cycle);
    }
}

/// `e` is live in `w1` and was not in `w0`.
pub open spec fn new_in(w0: Seq<Slot>, w1: Seq<Slot>, e: Entity) -> bool {
    live_in(w1, e) && !live_in(w0, e)
}

/// Spawns the wave numbered `kind` (a walker, a shooter, a flyer or a
/// fireball shower, for 0 to 3), and a potion when `cycle` is a multiple of
/// three. The entities that were live are left alone.
pub fn spawn_wave(world: &mut World, kind: i64, cycle: u32)
    requires
        old(world)@.len() < usize::MAX - SPAWN_ROOM,
    ensures
        final(world)@.len() >= old(world)@.len(),
        forall|i: int|
            0 <= i < old(world)@.len() && old(world)@[i].alive ==> #[trigger] final(world)@[i]
                == old(world)@[i],
        kind == 0 ==> exists|e: Entity|
            #[trigger] new_in(old(world)@, final(world)@, e) && (is_walker(
                final(world)@[e.index as int].data,
                true,
            ) || is_walker(final(world)@[e.index as int].data, false)),
        kind == 1 ==> exists|e: Entity|
            #[trigger] new_in(old(world)@, final(world)@, e) && is_shooter(
                final(world)@[e.index as int].data,
            ),
        kind == 2 ==> exists|e: Entity|
            #[trigger] new_in(old(world)@, final(world)@, e) && is_flyer(
                final(world)@[e.index as int].data,
            ),
        kind == 3 ==> exists|r: Seq<Entity>, x0: int, xe: int, st: int|
            shower_draw(x0, xe, st) && #[trigger] is_shower(old(world)@, final(world)@, r, x0, xe, st),
        cycle % 3 == 0 ==> exists|e: Entity, x: int|
            50 * POS_SCALE <= x < 750 * POS_SCALE && new_in(old(world)@, final(world)@, e)
                && #[trigger] is_potion(final(world)@[e.index as int].data, x),
        (kind < 0 || kind > 3) && cycle % 3 != 0 ==> final(world)@ == old(world)@,
{
    let ghost w0 = world@;
    let mut one: Option<Entity> = None;
    let mut many: Vec<Entity> = Vec::new();
    if kind == 0 {
        one = Some(create_walker(world));
    } else if kind == 1 {
        one = Some(create_shooter(world));
    } else if kind == 2 {
        one = Some(create_flyer(world));
    } else if kind == 3 {
        many = create_fireball_shower(world);
    }
    let ghost w1 = world@;
    assert(0 <= kind <= 2 ==> one is Some && new_in(w0, w1, one->0));
    assert(kind == 0 ==> is_walker(w1[one->0.index as int].data, true) || is_walker(w1[one->0.index as int].data, false));
    assert(kind == 1 ==> is_shooter(w1[one->0.index as int].data));
    assert(kind == 2 ==> is_flyer(w1[one->0.index as int].data));
    assert(w1.len() >= w0.len());
    assert(forall|i: int| 0 <= i < w0.len() && w0[i].alive ==> #[trigger] w1[i] == w0[i]);
    if cycle % 3 == 0 {
        let p = create_healing_potion(world);
        proof {
            let w2 = world@;
            assert(forall|i: int| 0 <= i < w1.len() && w1[i].alive ==> #[trigger] w2[i] == w1[i]);
            let x = choose|x: int| 50 * POS_SCALE <= x < 750 * POS_SCALE && #[trigger] is_potion(
                w2[p.index as int].data,
                x,
            );
            if p.index < w0.len() && w0[p.index as int].alive {
                assert(w1[p.index as int] == w0[p.index as int]);
            }
            assert(new_in(w0, w2, p));
            match one {
                Some(e) => {
                    assert(w2[e.index as int] == w1[e.index as int]);
                    assert(new_in(w0, w2, e));
                },
                None => {},
            }
            if kind == 3 {
                let (x0, xe, st) = choose|x0: int, xe: int, st: int|
                    shower_draw(x0, xe, st) && #[trigger] is_shower(w0, w1, many@, x0, xe, st);
                lemma_shower_kept(w0, w1, w2, many@, x0, xe, st);
            }
        }
    }
    proof {
        if kind == 3 {
            let (x0, xe, st) = choose|x0: int, xe: int, st: int|
                shower_draw(x0, xe, st) && #[trigger] is_shower(w0, world@, many@, x0, xe, st);
            assert(is_shower(w0, world@, many@, x0, xe, st));
        }
        if 0 <= kind <= 2 {
            let e = one->0;
            assert(world@[e.index as int] == w1[e.index as int]);
            assert(new_in(w0, world@, e));
        }
    }
}

/// The store after Collision, OutOfBounds, HeroBlinking and the flush,
/// from the store `w` that FireballSystem left.
pub open spec fn systems_after(w: Seq<Slot>, dt: u64) -> Seq<Slot> {
    flush_all(blink_all(bound_all(collide_from(w, 0, w.len() as int)), dt))
}

/// The store has room for any spawn.
pub open spec fn has_room(w: Seq<Slot>) -> bool {
    w.len() < usize::MAX - SPAWN_ROOM
}

/// `ws` is `w0` after the spawns of `plan`: the boss of `config` for
/// `Boss`, a wave of the factory (which leaves live entities alone) for
/// `Wave`, and nothing for `Nothing` or when the store has no room.
pub open spec fn spawned_by(w0: Seq<Slot>, ws: Seq<Slot>, plan: SpawnPlan, config: SceneConfig) -> bool {
    &&& ws.len() >= w0.len()
    &&& forall|i: int| 0 <= i < w0.len() && w0[i].alive ==> #[trigger] ws[i] == w0[i]
    &&& (!has_room(w0) || plan == SpawnPlan::Nothing) ==> ws == w0
    &&& has_room(w0) && plan == SpawnPlan::Boss ==> exists|e: Entity|
        #[trigger] new_in(w0, ws, e) && is_boss(
            ws[e.index as int].data,
            config.boss_lives,
            config.boss_normal_lives,
            config.boss_projectile_sprite@,
            config.boss_maximum_projectiles,
        )
}

/// One running tick took the store from `w0` to `wt`: the spawns of `plan`
/// gave `ws`, HeroControl, Walk and FireballSystem gave `w3`, and the other
/// systems and the flush gave `wt`.
pub open spec fn tick_ran(
    w0: Seq<Slot>,
    ws: Seq<Slot>,
    w3: Seq<Slot>,
    wt: Seq<Slot>,
    keys: PressedKeys,
    dt: u64,
    plan: SpawnPlan,
    config: SceneConfig,
) -> bool {
    &&& spawned_by(w0, ws, plan, config)
    &&& rearmed_store(walk_all(control_all(ws, keys), dt), w3)
    &&& wt == systems_after(w3, dt)
}

/// The tick and cycle counters after one more tick: every `cadence` ticks
/// the cycle moves on by one.
pub open spec fn next_counters(tick: u32, cycle: u32, cadence: u32) -> (u32, u32) {
    if tick + 1 >= cadence {
        (0, if cycle < u32::MAX {
            (cycle + 1) as u32
        } else {
            cycle
        })
    } else {
        ((tick + 1) as u32, cycle)
    }
}

/// What a tick brings before the systems run.
#[derive(Clone, Copy, Debug, PartialEq, Eq, Structural)]
pub enum SpawnPlan {
    Nothing,
    /// A wave from the spawn factory.
    Wave,
    /// The boss.
    Boss,
}

/// At a cycle boundary, the boss when the new cycle is the boss cycle and
/// a wave before it; nothing between boundaries or after the boss cycle.
pub open spec fn plan_of(tick: u32, cycle: u32, cadence: u32, boss_cycle: u32) -> SpawnPlan {
    let c = next_counters(tick, cycle, cadence).1;
    if tick + 1 < cadence {
        SpawnPlan::Nothing
    } else if c == boss_cycle {
        SpawnPlan::Boss
    } else if c < boss_cycle {
        SpawnPlan::Wave
    } else {
        SpawnPlan::Nothing
    }
}

/// Counts one tick: the new tick and cycle counters, and what spawns.
pub fn advance_counters(tick: u32, cycle: u32, cadence: u32, boss_cycle: u32) -> (r: (
    u32,
    u32,
    SpawnPlan,
))
    ensures
        (r.0, r.1) == next_counters(tick, cycle, cadence),
        r.2 == plan_of(tick, cycle, cadence, boss_cycle),
{
    if tick as u64 + 1 >= cadence as u64 {
        let c = if cycle < u32::MAX {
            cycle + 1
        } else {
            cycle
        };
        let plan = if c == boss_cycle {
            SpawnPlan::Boss
        } else if c < boss_cycle {
            SpawnPlan::Wave
        } else {
            SpawnPlan::Nothing
        };
        (0, c, plan)
    } else {
        (tick + 1, cycle, SpawnPlan::Nothing)
    }
}

pub open spec fn live_hero(s: Slot) -> bool {
    s.alive && s.data.hero is Some
}

pub open spec fn live_boss(s: Slot) -> bool {
    s.alive && s.data.boss is Some
}

/// The way the game ends in a store, if it does: defeat when no hero with
/// lives is left, victory when the boss cycle has come and no boss is left.
pub open spec fn outcome_of(w: Seq<Slot>, cycle: u32, boss_cycle: u32) -> Option<Outcome> {
    if !(exists|i: int| 0 <= i < w.len() && live_hero(w[i]) && w[i].data.hero->0.lives > 0) {
        Some(Outcome::Defeat)
    } else if cycle >= boss_cycle && !(exists|i: int| 0 <= i < w.len() && #[trigger] live_boss(w[i])) {
        Some(Outcome::Victory)
    } else {
        None
    }
}

/// The level: the store, the counters that pace the waves, and the state
/// of the game.
pub struct Scene<F: SpawnFactory> {
    pub state: GameState,
    pub world: World,
    pub keys: PressedKeys,
    pub tick_counter: u32,
    pub cycle: u32,
    pub config: SceneConfig,
    pub outcome: Option<Outcome>,
    pub music: Option<Track>,
    pub labels: VariableDictionary,
    pub factory: F,
}

/// The track request that starts `t` unless it is already playing.
pub open spec fn track_change(current: Option<Track>, t: Track) -> Option<Track> {
    if current == Some(t) {
        None
    } else {
        Some(t)
    }
}

fn label(var: LabelVariable, x: i64, y: i64) -> (r: Components)
    ensures
        r.hero is None,
        r.boss is None,
        r.label is Some,
{
    let mut c = Components::empty();
    c.label = Some(Label { bind_variable: var, font_style: FontStyle { size: 48, color: 0x0000_00ff } });
    c.position = Some(Position { position: Vector { x, y } });
    c
}

fn backdrop(sprite: &str) -> (r: Components)
    ensures
        r.background,
        r.hero is None,
        r.boss is None,
{
    let mut c = Components::empty();
    c.background = true;
    c.position = Some(Position { position: Vector { x: 400 * POS_SCALE, y: 300 * POS_SCALE } });
    c.render = Some(Render::new(sprite));
    c
}

/// Finds out whether the game has ended in `world`.
pub fn check_outcome(world: &World, cycle: u32, boss_cycle: u32) -> (r: Option<Outcome>)
    ensures
        r == outcome_of(world@, cycle, boss_cycle),
{
    let n = world.len();
    let mut hero_found = false;
    let mut boss_found = false;
    let mut i: usize = 0;
    while i < n
        invariant
            n == world@.len(),
            i <= n,
            hero_found == exists|j: int| 0 <= j < i && live_hero(world@[j]) && world@[j].data.hero->0.lives > 0,
            boss_found == exists|j: int| 0 <= j < i && #[trigger] live_boss(world@[j]),
        decreases n - i,
    {
        let s = world.slot(i);
        proof {
            if live_boss(world@[i as int]) {
                assert(0 <= i < i + 1 && live_boss(world@[i as int]));
            }
        }
        if s.alive {
            match s.data.hero {
                Some(h) => {
                    if h.lives > 0 {
                        hero_found = true;
                    }
                },
                None => {},
            }
            if s.data.boss.is_some() {
                boss_found = true;
            }
        }
        i = i + 1;
    }
    if !hero_found {
        Some(Outcome::Defeat)
    } else if cycle >= boss_cycle && !boss_found {
        Some(Outcome::Victory)
    } else {
        None
    }
}

impl<F: SpawnFactory> Scene<F> {
    /// A game has an outcome exactly when it is over, and no hero is left
    /// once it is.
    pub open spec fn wf(&self) -> bool {
        &&& (self.state == GameState::GameOver) == (self.outcome is Some)
        &&& self.state == GameState::GameOver ==> forall|i: int|
            0 <= i < self.world@.len() ==> !live_hero(#[trigger] self.world@[i])
    }

    pub fn new(factory: F, config: SceneConfig) -> (r: Scene<F>)
        ensures
            r.state == GameState::Initializing,
            r.world@.len() == 0,
            r.tick_counter == 0,
            r.cycle == 0,
            r.outcome is None,
            r.music is None,
            r.wf(),
    {
        Scene {
            state: GameState::Initializing,
            world: World::new(),
            keys: PressedKeys::new(),
            tick_counter: 0,
            cycle: 0,
            config,
            outcome: None,
            music: None,
            labels: VariableDictionary::new(),
            factory,
        }
    }

    /// Records a key-down (`down`) or key-up event.
    pub fn key_event(&mut self, key: KeyboardKeys, down: bool)
        requires
            old(self).wf(),
        ensures
            final(self).wf(),
            final(self).keys.holds(key) == down,
            forall|o: KeyboardKeys| o != key ==> final(self).keys.holds(o) == old(self).keys.holds(o),
            final(self).state == old(self).state,
    {
        self.keys.set(key, down);
    }

    /// Asks for track `t`, unless it is playing already.
    fn play(&mut self, t: Track) -> (r: Option<Track>)
        ensures
            r == track_change(old(self).music, t),
            final(self).music == Some(t),
            final(self).state == old(self).state,
            final(self).world@ == old(self).world@,
            final(self).cycle == old(self).cycle,
            final(self).tick_counter == old(self).tick_counter,
            final(self).outcome == old(self).outcome,
            final(self).config == old(self).config,
            final(self).keys == old(self).keys,
    {
        if self.music == Some(t) {
            None
        } else {
            self.music = Some(t);
            Some(t)
        }
    }

    /// Ends the game: every entity goes, the backdrop of the outcome comes,
    /// and its track is asked for.
    fn finish(&mut self, outcome: Outcome) -> (r: Option<Track>)
        ensures
            final(self).state == GameState::GameOver,
            final(self).outcome == Some(outcome),
            r == track_change(
                old(self).music,
                if outcome == Outcome::Victory {
                    Track::Victory
                } else {
                    Track::GameOver
                },
            ),
            forall|i: int| 0 <= i < final(self).world@.len() ==> !live_hero(#[trigger] final(self).world@[i]),
            final(self).cycle == old(self).cycle,
            final(self).tick_counter == old(self).tick_counter,
    {
        self.world.clear();
        if self.world.len() < usize::MAX {
            let sprite = if outcome == Outcome::Victory {
                "victory"
            } else {
                "game_over"
            };
            let c = backdrop(sprite);
            let ghost w0 = self.world@;
            self.world.create_entity(c);
            proof {
                assert forall|i: int| 0 <= i < self.world@.len() implies !live_hero(#[trigger] self.world@[i]) by {
                    if i < w0.len() {
                        assert(!w0[i].alive);
                    }
                }
            }
        }
        self.state = GameState::GameOver;
        self.outcome = Some(outcome);
        let t = if outcome == Outcome::Victory {
            Track::Victory
        } else {
            Track::GameOver
        };
        self.play(t)
    }

    /// Runs the systems once, in their fixed order, then applies the
    /// deletions that they marked.
    fn run_systems(world: &mut World, keys: PressedKeys, delta: DeltaTime)
        ensures
            exists|w3: Seq<Slot>|
                #[trigger] rearmed_store(walk_all(control_all(old(world)@, keys), delta.millis), w3)
                    && final(world)@ == systems_after(w3, delta.millis),
    {
        let ghost w0 = world@;
        HeroControlSystem.run(world, keys);
        assert(world@ =~= control_all(w0, keys));
        let ghost w1 = world@;
        WalkSystem.run(world, delta);
        assert(world@ =~= walk_all(w1, delta.millis));
        let ghost w2 = world@;
        FireballSystem.run(world);
        let ghost w3 = world@;
        assert(rearmed_store(w2, w3));
        CollisionSystem.run(world);
        let ghost w4 = world@;
        OutOfBoundsSystem.run(world);
        assert(world@ =~= bound_all(w4));
        let ghost w5 = world@;
        HeroBlinkingSystem.run(world, delta);
        assert(world@ =~= blink_all(w5, delta.millis));
        let ghost w6 = world@;
        world.flush_deletions();
        assert(world@ =~= flush_all(w6));
    }

    /// Copies the hero's lives and score into the labels.
    fn refresh_labels(&mut self)
        ensures
            final(self).state == old(self).state,
            final(self).world@ == old(self).world@,
            final(self).cycle == old(self).cycle,
            final(self).tick_counter == old(self).tick_counter,
            final(self).outcome == old(self).outcome,
            final(self).music == old(self).music,
            final(self).config == old(self).config,
    {
        let n = self.world.len();
        let mut i: usize = 0;
        while i < n
            invariant
                n == self.world@.len(),
                i <= n,
                self.state == old(self).state,
                self.world@ == old(self).world@,
                self.cycle == old(self).cycle,
                self.tick_counter == old(self).tick_counter,
                self.outcome == old(self).outcome,
                self.music == old(self).music,
                self.config == old(self).config,
            decreases n - i,
        {
            let s = self.world.slot(i);
            if s.alive {
                match s.data.hero {
                    Some(h) => {
                        self.labels.insert(LabelVariable::Lives, h.lives as u64);
                        self.labels.insert(LabelVariable::Score, h.score);
                        return;
                    },
                    None => {},
                }
            }
            i = i + 1;
        }
    }

    /// Sets the frame rate that the labels show.
    pub fn set_fps(&mut self, fps: u64)
        requires
            old(self).wf(),
        ensures
            final(self).wf(),
            final(self).labels.lookup(LabelVariable::Fps) == Some(fps),
            final(self).state == old(self).state,
    {
        self.labels.insert(LabelVariable::Fps, fps);
    }

    /// One tick of the game. While the sprites are loading nothing moves;
    /// once they are, the hero comes and the game runs. A running game
    /// counts ticks into cycles, spawns a wave at each cycle boundary before
    /// the boss cycle and the boss at it, runs the systems, and ends in
    /// defeat (Escape, or no hero with lives left) or in victory (boss cycle
    /// reached and no boss left). After the end, Escape or Enter closes.
    pub fn update(&mut self, delta: DeltaTime, atlas_ready: bool) -> (r: SceneAction)
        requires
            old(self).wf(),
        ensures
            final(self).wf(),
            old(self).state == GameState::Initializing && !atlas_ready ==> final(self).state
                == GameState::Initializing && r.play is None && !r.close,
            old(self).state == GameState::Initializing && atlas_ready ==> final(self).state
                == GameState::Running && r.play == track_change(old(self).music, Track::Normal)
                && !r.close,
            old(self).state == GameState::GameOver ==> final(self).state == GameState::GameOver
                && r.play is None && r.close == (old(self).keys.escape || old(self).keys.enter),
            old(self).state == GameState::Running && old(self).keys.escape ==> final(self).state
                == GameState::GameOver && final(self).outcome == Some(Outcome::Defeat),
            old(self).state == GameState::Running && !old(self).keys.escape ==> (
            final(self).tick_counter,
            final(self).cycle,
            ) == next_counters(old(self).tick_counter, old(self).cycle, old(self).config.new_body_cycle),
            old(self).state == GameState::Running ==> !r.close,
            old(self).state == GameState::Running && !old(self).keys.escape ==> exists|
                ws: Seq<Slot>,
                w3: Seq<Slot>,
                wt: Seq<Slot>,
            |
                #[trigger] tick_ran(
                    old(self).world@,
                    ws,
                    w3,
                    wt,
                    old(self).keys,
                    delta.millis,
                    plan_of(
                        old(self).tick_counter,
                        old(self).cycle,
                        old(self).config.new_body_cycle,
                        old(self).config.boss_cycle,
                    ),
                    old(self).config,
                ) && (final(self).state == GameState::Running ==> final(self).world@ == wt),
            old(self).state == GameState::Initializing && atlas_ready && old(self).world@.len()
                < usize::MAX - 4 ==> exists|e: Entity|
                #[trigger] live_in(final(self).world@, e) && is_new_hero(
                    final(self).world@[e.index as int].data,
                ),
            old(self).state == GameState::Running && final(self).state == GameState::Running
                ==> outcome_of(final(self).world@, final(self).cycle, final(self).config.boss_cycle) is None,
    {
        match self.state {
            GameState::Initializing => {
                if !atlas_ready {
                    return SceneAction { play: None, close: false };
                }
                if self.world.len() < usize::MAX - 4 {
                    let c = backdrop("background");
                    self.world.create_entity(c);
                    self.world.create_entity(label(LabelVariable::Fps, 20 * POS_SCALE, 587 * POS_SCALE));
                    self.world.create_entity(label(LabelVariable::Lives, 10 * POS_SCALE, 20 * POS_SCALE));
                    self.world.create_entity(label(LabelVariable::Score, 730 * POS_SCALE, 20 * POS_SCALE));
                    let hero = create_hero(&mut self.world);
                    assert(live_in(self.world@, hero) && is_new_hero(self.world@[hero.index as int].data));
                }
                self.state = GameState::Running;
                self.outcome = None;
                let play = self.play(Track::Normal);
                SceneAction { play, close: false }
            },
            GameState::GameOver => {
                let close = self.keys.contains(KeyboardKeys::KeyEscape) || self.keys.contains(
                    KeyboardKeys::KeyEnter,
                );
                SceneAction { play: None, close }
            },
            GameState::Running => {
                if self.keys.contains(KeyboardKeys::KeyEscape) {
                    let play = self.finish(Outcome::Defeat);
                    return SceneAction { play, close: false };
                }
                let mut play: Option<Track> = None;
                let (tick, cycle, plan) = advance_counters(
                    self.tick_counter,
                    self.cycle,
                    self.config.new_body_cycle,
                    self.config.boss_cycle,
                );
                self.tick_counter = tick;
                self.cycle = cycle;
                let ghost w0 = self.world@;
                if self.world.len() < usize::MAX - SPAWN_ROOM {
                    match plan {
                        SpawnPlan::Boss => {
                            let b = create_boss_with(
                                &mut self.world,
                                self.config.boss_lives,
                                self.config.boss_normal_lives,
                                self.config.boss_projectile_sprite.as_str(),
                                self.config.boss_maximum_projectiles,
                            );
                            assert(new_in(w0, self.world@, b));
                            play = self.play(Track::Boss);
                        },
                        SpawnPlan::Wave => {
                            self.factory.spawn(&mut self.world, self.cycle);
                        },
                        SpawnPlan::Nothing => {},
                    }
                }
                let ghost ws = self.world@;
                assert(ws.len() >= w0.len());
                assert(forall|i: int| 0 <= i < w0.len() && w0[i].alive ==> #[trigger] ws[i] == w0[i]);
                assert((!has_room(w0) || plan == SpawnPlan::Nothing) ==> ws == w0);
                assert(spawned_by(w0, ws, plan, self.config));
                let keys = self.keys;
                Scene::<F>::run_systems(&mut self.world, keys, delta);
                proof {
                    let w3 = choose|w3: Seq<Slot>|
                        #[trigger] rearmed_store(walk_all(control_all(ws, keys), delta.millis), w3)
                            && self.world@ == systems_after(w3, delta.millis);
                    assert(tick_ran(w0, ws, w3, self.world@, keys, delta.millis, plan, self.config));
                }
                let ghost wt = self.world@;
                self.refresh_labels();
                match check_outcome(&self.world, self.cycle, self.config.boss_cycle) {
                    Some(o) => {
                        let t = self.finish(o);
                        SceneAction { play: t, close: false }
                    },
                    None => {
                        SceneAction { play, close: false }
                    },
                }
            },
        }
    }
}

} // verus!
