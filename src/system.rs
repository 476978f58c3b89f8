use vstd::prelude::*;

use crate::component::{Components, Hero, Position, Velocity};
use crate::geom::{Vector, POS_SCALE, VEL_SCALE};
use crate::resources::{DeltaTime, KeyboardKeys, PressedKeys};
use crate::world::{Slot, World};

verus! {

/// `v` saturated to the range of `i64`.
pub open spec fn clamp_i64(v: int) -> i64 {
    if v < i64::MIN {
        i64::MIN
    } else if v > i64::MAX {
        i64::MAX
    } else {
        v as i64
    }
}

/// One coordinate after moving at `v` for `dt` milliseconds.
pub open spec fn advance(p: i64, v: i64, dt: u64) -> i64 {
    clamp_i64(p + v * dt)
}

pub open spec fn moves(s: Slot) -> bool {
    s.alive && s.data.position is Some && s.data.velocity is Some
}

/// A slot after one walk step: a live entity with a position and a velocity
/// moves by `velocity * dt`; nothing else changes.
pub open spec fn walked(s: Slot, dt: u64) -> Slot {
    if moves(s) {
        let p = s.data.position->0.position;
        let v = s.data.velocity->0.velocity;
        Slot {
            data: Components {
                position: Some(
                    Position { position: Vector { x: advance(p.x, v.x, dt), y: advance(p.y, v.y, dt) } },
                ),
                ..s.data
            },
            ..s
        }
    } else {
        s
    }
}

fn advance_coordinate(p: i64, v: i64, dt: u64) -> (r: i64)
    ensures
        r == advance(p, v, dt),
{
    assert(-0x8000_0000_0000_0000 * 0xFFFF_FFFF_FFFF_FFFF <= v * dt <= 0x7FFF_FFFF_FFFF_FFFF
        * 0xFFFF_FFFF_FFFF_FFFF) by (nonlinear_arith)
        requires
            i64::MIN <= v <= i64::MAX,
            0 <= dt <= u64::MAX,
    ;
    let moved: i128 = v as i128 * dt as i128;
    let n: i128 = p as i128 + moved;
    if n < i64::MIN as i128 {
        i64::MIN
    } else if n > i64::MAX as i128 {
        i64::MAX
    } else {
        n as i64
    }
}

/// Integrates positions: every entity with a position and a velocity moves
/// by `velocity * delta`.
pub struct WalkSystem;

impl WalkSystem {
    pub fn run(&self, world: &mut World, delta: DeltaTime)
        ensures
            final(world)@.len() == old(world)@.len(),
            forall|i: int|
                0 <= i < old(world)@.len() ==> #[trigger] final(world)@[i] == walked(
                    old(world)@[i],
                    delta.millis,
                ),
    {
        let dt = delta.millis;
        let n = world.len();
        let mut i: usize = 0;
        while i < n
            invariant
                n == old(world)@.len(),
                world@.len() == n,
                i <= n,
                forall|j: int| 0 <= j < i ==> #[trigger] world@[j] == walked(old(world)@[j], dt),
                forall|j: int| i <= j < n ==> #[trigger] world@[j] == old(world)@[j],
            decreases n - i,
        {
            if world.slot(i).alive {
                let d = world.data_mut(i);
                match (d.position, d.velocity) {
                    (Some(p), Some(v)) => {
                        let x = advance_coordinate(p.position.x, v.velocity.x, dt);
                        let y = advance_coordinate(p.position.y, v.velocity.y, dt);
                        d.position = Some(Position { position: Vector { x, y } });
                    },
                    _ => {},
                }
            }
            i = i + 1;
        }
    }
}

/// The height at and below which the hero stands on the ground.
pub const GROUND_Y: i64 = 425 * POS_SCALE;

/// The height at and above which a jump turns into a fall.
pub const APEX_Y: i64 = 300 * POS_SCALE;

/// Vertical speed of a jump (upward, hence negative).
pub const JUMP_SPEED: i64 = -400 * VEL_SCALE;

/// Vertical speed of a fall.
pub const FALL_SPEED: i64 = 200 * VEL_SCALE;

/// Horizontal speed of the hero while one arrow key is held.
pub const RUN_SPEED: i64 = 250 * VEL_SCALE;

/// Where the hero is put back after stomping the boss.
pub const RESET_X: i64 = 15 * POS_SCALE;

pub const RESET_Y: i64 = 300 * POS_SCALE;

/// The hero is kept within these horizontal bounds.
pub const HERO_MIN_X: i64 = 15 * POS_SCALE;

pub const HERO_MAX_X: i64 = 785 * POS_SCALE;

/// Other tagged entities are removed beyond these bounds.
pub const DELETE_BELOW_Y: i64 = 700 * POS_SCALE;

pub const DELETE_LEFT_OF_X: i64 = -100 * POS_SCALE;

pub const DELETE_RIGHT_OF_X: i64 = 900 * POS_SCALE;

/// How long the hero blinks after being hit, in milliseconds.
pub const BLINK_DURATION: u64 = 1250;

/// The hero is drawn during even periods of this length while blinking.
pub const BLINK_PERIOD: u64 = 150;

/// The slot `s` with `data` in place of its components.
pub open spec fn with_data(s: Slot, data: Components) -> Slot {
    Slot { data, ..s }
}

pub open spec fn controls_hero(s: Slot) -> bool {
    &&& s.alive
    &&& s.data.hero is Some
    &&& s.data.position is Some
    &&& s.data.velocity is Some
}

/// The vertical velocity that the hero takes at height `y`.
pub open spec fn vertical_speed(y: i64, vy: i64, keys: PressedKeys) -> i64 {
    if y >= GROUND_Y {
        if keys.up {
            JUMP_SPEED
        } else {
            0
        }
    } else if y <= APEX_Y {
        FALL_SPEED
    } else {
        vy
    }
}

/// The horizontal velocity given by the arrow keys: one of them alone runs,
/// none or both stand still.
pub open spec fn horizontal_speed(keys: PressedKeys) -> i64 {
    if keys.right && !keys.left {
        RUN_SPEED
    } else if !keys.right && keys.left {
        (-RUN_SPEED) as i64
    } else {
        0
    }
}

/// A slot after the hero has read the keys.
pub open spec fn controlled(s: Slot, keys: PressedKeys) -> Slot {
    if controls_hero(s) {
        let h = s.data.hero->0;
        let p = s.data.position->0.position;
        let v = s.data.velocity->0.velocity;
        let nv = Vector { x: horizontal_speed(keys), y: vertical_speed(p.y, v.y, keys) };
        let np = if h.reset_position {
            Vector { x: RESET_X, y: RESET_Y }
        } else {
            p
        };
        with_data(
            s,
            Components {
                velocity: Some(Velocity { velocity: nv }),
                position: Some(Position { position: np }),
                hero: Some(Hero { reset_position: false, ..h }),
                ..s.data
            },
        )
    } else {
        s
    }
}

/// Turns the pressed keys into the hero's velocity, and carries out a
/// pending reset of the hero's position.
pub struct HeroControlSystem;

impl HeroControlSystem {
    pub fn run(&self, world: &mut World, keys: PressedKeys)
        ensures
            final(world)@.len() == old(world)@.len(),
            forall|i: int|
                0 <= i < old(world)@.len() ==> #[trigger] final(world)@[i] == controlled(
                    old(world)@[i],
                    keys,
                ),
    {
        let up = keys.contains(KeyboardKeys::KeyUp);
        let left = keys.contains(KeyboardKeys::KeyLeft);
        let right = keys.contains(KeyboardKeys::KeyRight);
        let n = world.len();
        let mut i: usize = 0;
        while i < n
            invariant
                n == old(world)@.len(),
                world@.len() == n,
                i <= n,
                up == keys.up,
                left == keys.left,
                right == keys.right,
                forall|j: int| 0 <= j < i ==> #[trigger] world@[j] == controlled(old(world)@[j], keys),
                forall|j: int| i <= j < n ==> #[trigger] world@[j] == old(world)@[j],
            decreases n - i,
        {
            if world.slot(i).alive {
                let d = world.data_mut(i);
                match (d.hero, d.position, d.velocity) {
                    (Some(h), Some(p), Some(v)) => {
                        let vy = if p.position.y >= GROUND_Y {
                            if up {
                                JUMP_SPEED
                            } else {
                                0
                            }
                        } else if p.position.y <= APEX_Y {
                            FALL_SPEED
                        } else {
                            v.velocity.y
                        };
                        let vx = if right && !left {
                            RUN_SPEED
                        } else if !right && left {
                            -RUN_SPEED
                        } else {
                            0
                        };
                        d.velocity = Some(Velocity { velocity: Vector { x: vx, y: vy } });
                        if h.reset_position {
                            d.position = Some(Position { position: Vector { x: RESET_X, y: RESET_Y } });
                        }
                        d.hero = Some(Hero { reset_position: false, ..h });
                    },
                    _ => {},
                }
            }
            i = i + 1;
        }
    }
}

pub open spec fn bounds_checked(s: Slot) -> bool {
    s.alive && s.data.out_of_bounds && s.data.position is Some
}

pub open spec fn clamp_x(x: i64) -> i64 {
    if x < HERO_MIN_X {
        HERO_MIN_X
    } else if x > HERO_MAX_X {
        HERO_MAX_X
    } else {
        x
    }
}

pub open spec fn off_screen(p: Vector) -> bool {
    p.y > DELETE_BELOW_Y || p.x < DELETE_LEFT_OF_X || p.x > DELETE_RIGHT_OF_X
}

/// A slot after the bounds check: a tagged hero is held within the
/// horizontal bounds, any other tagged entity off screen is marked for
/// deletion, and an untagged slot is left alone.
pub open spec fn bounded(s: Slot) -> Slot {
    if bounds_checked(s) {
        let p = s.data.position->0.position;
        if s.data.hero is Some {
            with_data(
                s,
                Components {
                    position: Some(Position { position: Vector { x: clamp_x(p.x), y: p.y } }),
                    ..s.data
                },
            )
        } else if off_screen(p) {
            Slot { marked: true, ..s }
        } else {
            s
        }
    } else {
        s
    }
}

/// Keeps the hero on screen and retires tagged entities that left it.
pub struct OutOfBoundsSystem;

impl OutOfBoundsSystem {
    pub fn run(&self, world: &mut World)
        ensures
            final(world)@.len() == old(world)@.len(),
            forall|i: int|
                0 <= i < old(world)@.len() ==> #[trigger] final(world)@[i] == bounded(
                    old(world)@[i],
                ),
            forall|i: int|
                0 <= i < old(world)@.len() && !old(world)@[i].data.out_of_bounds
                    ==> #[trigger] final(world)@[i] == old(world)@[i],
    {
        let n = world.len();
        let mut i: usize = 0;
        while i < n
            invariant
                n == old(world)@.len(),
                world@.len() == n,
                i <= n,
                forall|j: int| 0 <= j < i ==> #[trigger] world@[j] == bounded(old(world)@[j]),
                forall|j: int| i <= j < n ==> #[trigger] world@[j] == old(world)@[j],
            decreases n - i,
        {
            let s = world.slot(i);
            if s.alive && s.data.out_of_bounds {
                match s.data.position {
                    Some(p) => {
                        let is_hero = s.data.hero.is_some();
                        let x = p.position.x;
                        let y = p.position.y;
                        if is_hero {
                            let cx = if x < HERO_MIN_X {
                                HERO_MIN_X
                            } else if x > HERO_MAX_X {
                                HERO_MAX_X
                            } else {
                                x
                            };
                            let d = world.data_mut(i);
                            d.position = Some(Position { position: Vector { x: cx, y } });
                        } else if y > DELETE_BELOW_Y || x < DELETE_LEFT_OF_X || x > DELETE_RIGHT_OF_X {
                            world.mark_at(i);
                        }
                    },
                    None => {},
                }
            }
            i = i + 1;
        }
    }
}

/// The hero after one blink step of `dt` milliseconds. A blinking hero is
/// drawn in even periods only and turns solid again once more than the blink
/// duration has passed; a solid hero is always drawn.
pub open spec fn blink_step(h: Hero, dt: u64) -> Hero {
    if h.blinking {
        let t = h.blink_timer + dt;
        if t > BLINK_DURATION {
            Hero { blink_timer: 0, blinking: false, render: true, ..h }
        } else {
            Hero { blink_timer: t as u64, render: (t / BLINK_PERIOD as int) % 2 == 0, ..h }
        }
    } else {
        Hero { blink_timer: 0, render: true, ..h }
    }
}

pub open spec fn blinked(s: Slot, dt: u64) -> Slot {
    if s.alive && s.data.hero is Some {
        with_data(s, Components { hero: Some(blink_step(s.data.hero->0, dt)), ..s.data })
    } else {
        s
    }
}

/// Runs the hero's blinking after a hit: when it is drawn, and when it
/// stops.
pub struct HeroBlinkingSystem;

impl HeroBlinkingSystem {
    pub fn blink(h: Hero, dt: u64) -> (r: Hero)
        ensures
            r == blink_step(h, dt),
    {
        if h.blinking {
            let t = h.blink_timer.saturating_add(dt);
            if t > BLINK_DURATION {
                Hero { blink_timer: 0, blinking: false, render: true, ..h }
            } else {
                Hero { blink_timer: t, render: (t / BLINK_PERIOD) % 2 == 0, ..h }
            }
        } else {
            Hero { blink_timer: 0, render: true, ..h }
        }
    }

    pub fn run(&self, world: &mut World, delta: DeltaTime)
        ensures
            final(world)@.len() == old(world)@.len(),
            forall|i: int|
                0 <= i < old(world)@.len() ==> #[trigger] final(world)@[i] == blinked(
                    old(world)@[i],
                    delta.millis,
                ),
    {
        let dt = delta.millis;
        let n = world.len();
        let mut i: usize = 0;
        while i < n
            invariant
                n == old(world)@.len(),
                world@.len() == n,
                i <= n,
                forall|j: int| 0 <= j < i ==> #[trigger] world@[j] == blinked(old(world)@[j], dt),
                forall|j: int| i <= j < n ==> #[trigger] world@[j] == old(world)@[j],
            decreases n - i,
        {
            if world.slot(i).alive {
                let d = world.data_mut(i);
                match d.hero {
                    Some(h) => {
                        d.hero = Some(HeroBlinkingSystem::blink(h, dt));
                    },
                    None => {},
                }
            }
            i = i + 1;
        }
    }
}

/// One walk step is exact: where the new position fits in an `i64`, a
/// moving entity ends at `position + velocity * dt`, and nothing else of it
/// changes.
pub proof fn lemma_walk_exact(s: Slot, dt: u64)
    requires
        moves(s),
        i64::MIN <= s.data.position->0.position.x + s.data.velocity->0.velocity.x * dt <= i64::MAX,
        i64::MIN <= s.data.position->0.position.y + s.data.velocity->0.velocity.y * dt <= i64::MAX,
    ensures
        walked(s, dt).data.position->0.position.x == s.data.position->0.position.x
            + s.data.velocity->0.velocity.x * dt,
        walked(s, dt).data.position->0.position.y == s.data.position->0.position.y
            + s.data.velocity->0.velocity.y * dt,
        walked(s, dt) == with_data(
            s,
            Components { position: walked(s, dt).data.position, ..s.data },
        ),
{
}

/// The sum of a run of tick lengths.
pub open spec fn total(ds: Seq<u64>) -> int
    decreases ds.len(),
{
    if ds.len() == 0 {
        0
    } else {
        ds[0] + total(ds.subrange(1, ds.len() as int))
    }
}

/// The hero after one blink step per tick length in `ds`, in order.
pub open spec fn blink_steps(h: Hero, ds: Seq<u64>) -> Hero
    decreases ds.len(),
{
    if ds.len() == 0 {
        h
    } else {
        blink_steps(blink_step(h, ds[0]), ds.subrange(1, ds.len() as int))
    }
}

/// A blinking hero after `t` more milliseconds in all.
pub open spec fn blink_after(h: Hero, t: int) -> Hero {
    let e = h.blink_timer + t;
    if e > BLINK_DURATION {
        Hero { blink_timer: 0, blinking: false, render: true, ..h }
    } else {
        Hero { blink_timer: e as u64, render: (e / BLINK_PERIOD as int) % 2 == 0, ..h }
    }
}

proof fn lemma_blink_steps_total(h: Hero, ds: Seq<u64>)
    requires
        ds.len() > 0,
    ensures
        h.blinking ==> blink_steps(h, ds) == blink_after(h, total(ds)),
        !h.blinking ==> blink_steps(h, ds) == (Hero { blink_timer: 0, render: true, ..h }),
    decreases ds.len(),
{
    let rest = ds.subrange(1, ds.len() as int);
    let h1 = blink_step(h, ds[0]);
    assert(blink_steps(h, ds) == blink_steps(h1, rest));
    assert(total(ds) == ds[0] + total(rest));
    if rest.len() > 0 {
        lemma_blink_steps_total(h1, rest);
        lemma_total_nonneg(rest);
        if h.blinking && h.blink_timer + ds[0] <= BLINK_DURATION {
            assert(h1.blink_timer == h.blink_timer + ds[0]);
            assert(blink_after(h1, total(rest)) == blink_after(h, total(ds)));
        }
    } else {
        assert(total(rest) == 0);
        assert(blink_steps(h1, rest) == h1);
    }
}

proof fn lemma_total_nonneg(ds: Seq<u64>)
    ensures
        total(ds) >= 0,
    decreases ds.len(),
{
    if ds.len() > 0 {
        lemma_total_nonneg(ds.subrange(1, ds.len() as int));
    }
}

/// Blinking does not depend on how time is cut into ticks: two non-empty
/// runs of ticks with the same total leave the hero in the same state. In
/// particular the hero blinks for as long as the total stays within the
/// blink duration, and is solid again once it exceeds it.
pub proof fn lemma_blink_same_total(h: Hero, a: Seq<u64>, b: Seq<u64>)
    requires
        a.len() > 0,
        b.len() > 0,
        total(a) == total(b),
    ensures
        blink_steps(h, a) == blink_steps(h, b),
        h.blinking ==> blink_steps(h, a) == blink_after(h, total(a)),
        h.blinking && h.blink_timer + total(a) <= BLINK_DURATION ==> blink_steps(h, a).blinking,
        h.blink_timer + total(a) > BLINK_DURATION ==> !blink_steps(h, a).blinking,
{
    lemma_blink_steps_total(h, a);
    lemma_blink_steps_total(h, b);
}

/// The whole store after HeroControl.
pub open spec fn control_all(w: Seq<Slot>, keys: PressedKeys) -> Seq<Slot> {
    Seq::new(w.len(), |i: int| controlled(w[i], keys))
}

/// The whole store after Walk.
pub open spec fn walk_all(w: Seq<Slot>, dt: u64) -> Seq<Slot> {
    Seq::new(w.len(), |i: int| walked(w[i], dt))
}

/// The whole store after OutOfBounds.
pub open spec fn bound_all(w: Seq<Slot>) -> Seq<Slot> {
    Seq::new(w.len(), |i: int| bounded(w[i]))
}

/// The whole store after HeroBlinking.
pub open spec fn blink_all(w: Seq<Slot>, dt: u64) -> Seq<Slot> {
    Seq::new(w.len(), |i: int| blinked(w[i], dt))
}

/// A slot after one walk step per tick length in `ds`, in order.
pub open spec fn walk_steps(s: Slot, ds: Seq<u64>) -> Slot
    decreases ds.len(),
{
    if ds.len() == 0 {
        s
    } else {
        walk_steps(walked(s, ds[0]), ds.subrange(1, ds.len() as int))
    }
}

proof fn lemma_walk_coordinate(p: int, v: int, ds: Seq<u64>)
    requires
        i64::MIN <= p <= i64::MAX,
        i64::MIN <= v <= i64::MAX,
        i64::MIN <= p + v * total(ds) <= i64::MAX,
    ensures
        total(ds) >= 0,
        i64::MIN <= p + v * ds[0] <= i64::MAX || ds.len() == 0,
{
    lemma_total_nonneg(ds);
    if ds.len() > 0 {
        let rest = ds.subrange(1, ds.len() as int);
        lemma_total_nonneg(rest);
        let t = total(ds);
        let d = ds[0] as int;
        assert(total(ds) == d + total(rest));
        assert(0 <= d <= t);
        assert(v >= 0 ==> 0 <= v * d <= v * t) by (nonlinear_arith)
            requires
                0 <= d <= t,
        ;
        assert(v < 0 ==> v * t <= v * d <= 0) by (nonlinear_arith)
            requires
                0 <= d <= t,
        ;
    }
}

/// Walking is additive over ticks: a moving entity whose start and end
/// positions fit in an `i64` ends at `position + velocity * total`, however
/// the time is cut into ticks.
pub proof fn lemma_walk_total(s: Slot, ds: Seq<u64>)
    requires
        moves(s),
        i64::MIN <= s.data.position->0.position.x + s.data.velocity->0.velocity.x * total(ds) <= i64::MAX,
        i64::MIN <= s.data.position->0.position.y + s.data.velocity->0.velocity.y * total(ds) <= i64::MAX,
    ensures
        moves(walk_steps(s, ds)),
        walk_steps(s, ds).data.velocity == s.data.velocity,
        walk_steps(s, ds).data.position->0.position.x == s.data.position->0.position.x
            + s.data.velocity->0.velocity.x * total(ds),
        walk_steps(s, ds).data.position->0.position.y == s.data.position->0.position.y
            + s.data.velocity->0.velocity.y * total(ds),
    decreases ds.len(),
{
    let p = s.data.position->0.position;
    let v = s.data.velocity->0.velocity;
    lemma_walk_coordinate(p.x as int, v.x as int, ds);
    lemma_walk_coordinate(p.y as int, v.y as int, ds);
    if ds.len() > 0 {
        let rest = ds.subrange(1, ds.len() as int);
        let d = ds[0] as int;
        let s1 = walked(s, ds[0]);
        assert(total(ds) == d + total(rest));
        assert(v.x * total(ds) == v.x * d + v.x * total(rest)) by (nonlinear_arith)
            requires
                total(ds) == d + total(rest),
        ;
        assert(v.y * total(ds) == v.y * d + v.y * total(rest)) by (nonlinear_arith)
            requires
                total(ds) == d + total(rest),
        ;
        lemma_walk_total(s1, rest);
    }
}

/// A potion dropped at height -100 that falls at 250 units per second stays
/// above height 700, the deletion threshold, for less than 3.2 seconds in
/// all and is exactly at it after 3.2 seconds, however the time is cut into
/// ticks.
pub proof fn lemma_potion_reaches_threshold(s: Slot, ds: Seq<u64>)
    requires
        moves(s),
        s.data.position->0.position.y == -100 * POS_SCALE,
        s.data.velocity->0.velocity.x == 0,
        s.data.velocity->0.velocity.y == 250 * VEL_SCALE,
        total(ds) <= 3200,
    ensures
        total(ds) < 3200 ==> walk_steps(s, ds).data.position->0.position.y < 700 * POS_SCALE,
        total(ds) == 3200 ==> walk_steps(s, ds).data.position->0.position.y == 700 * POS_SCALE,
        walk_steps(s, ds).data.position->0.position.x == s.data.position->0.position.x,
{
    lemma_total_nonneg(ds);
    let t = total(ds);
    let v = s.data.velocity->0.velocity;
    assert(v.y * t == 250_000 * t);
    assert(v.x * t == 0);
    lemma_walk_total(s, ds);
}

} // verus!
