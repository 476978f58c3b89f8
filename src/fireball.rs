use vstd::prelude::*;

use crate::component::{
    fresh_render, kinds, Boss, ChangeSprite, Components, Entity, Fireball, Position, Render, Shooter,
    Velocity,
};
use crate::geom::Vector;
use crate::random::random_in;
use crate::system::{clamp_i64, with_data};
use crate::world::{handle_of, live_in, placed, spawned, Slot, World};

verus! {

/// Half the width of the range that a launch speed is jittered within, in
/// thousandths per second.
pub const SPEED_JITTER: i64 = 10;

/// `s` is a live fireball launched by `o`.
pub open spec fn owns(s: Slot, o: Entity) -> bool {
    &&& s.alive
    &&& s.data.fireball matches Some(f) && f.owner_id == Some(o)
}

/// The number of live fireballs of `o` in the store.
pub open spec fn count_owned(w: Seq<Slot>, o: Entity) -> nat
    decreases w.len(),
{
    if w.len() == 0 {
        0
    } else {
        count_owned(w.drop_last(), o) + if owns(w.last(), o) {
            1nat
        } else {
            0nat
        }
    }
}

pub open spec fn one_if(b: bool) -> int {
    if b {
        1
    } else {
        0
    }
}

proof fn lemma_count_update(w: Seq<Slot>, i: int, s: Slot, o: Entity)
    requires
        0 <= i < w.len(),
    ensures
        count_owned(w.update(i, s), o) == count_owned(w, o) - one_if(owns(w[i], o)) + one_if(
            owns(s, o),
        ),
    decreases w.len(),
{
    if i == w.len() - 1 {
        assert(w.update(i, s).drop_last() =~= w.drop_last());
    } else {
        lemma_count_update(w.drop_last(), i, s, o);
        assert(w.update(i, s).drop_last() =~= w.drop_last().update(i, s));
    }
}

proof fn lemma_count_placed(w: Seq<Slot>, i: int, g: u64, data: Components, o: Entity)
    requires
        0 <= i <= w.len(),
        i < w.len() ==> !w[i].alive,
    ensures
        count_owned(placed(w, i, g, data), o) == count_owned(w, o) + one_if(
            owns(Slot { generation: g, alive: true, marked: false, data }, o),
        ),
{
    let s = Slot { generation: g, alive: true, marked: false, data };
    if i == w.len() {
        assert(w.push(s).drop_last() =~= w);
    } else {
        lemma_count_update(w, i, s, o);
    }
}

/// A boss whose lives have come down to its threshold turns angry: its
/// fireball limit doubles (saturating) and its sprite swap is triggered.
/// An angry boss, and any other entity, is left as it is.
pub open spec fn enraged(c: Components) -> Components {
    match (c.boss, c.shooter) {
        (Some(b), Some(sh)) => if !b.angry && b.lives <= b.normal_lives {
            Components {
                boss: Some(Boss { angry: true, ..b }),
                shooter: Some(
                    Shooter {
                        maximum_fireballs: if sh.maximum_fireballs <= u32::MAX / 2 {
                            (sh.maximum_fireballs * 2) as u32
                        } else {
                            u32::MAX
                        },
                        ..sh
                    },
                ),
                change_sprite: match c.change_sprite {
                    Some(cs) => Some(ChangeSprite { do_change: true, ..cs }),
                    None => None,
                },
                ..c
            }
        } else {
            c
        },
        _ => c,
    }
}

/// A triggered sprite swap takes place: the new sprite, not drawn yet.
pub open spec fn swapped(c: Components) -> Components {
    match (c.change_sprite, c.render) {
        (Some(cs), Some(r)) => if cs.do_change {
            Components {
                render: Some(Render { sprite: cs.new_sprite, bounding_box: None }),
                change_sprite: Some(ChangeSprite { do_change: false, ..cs }),
                ..c
            }
        } else {
            c
        },
        _ => c,
    }
}

/// Turning angry is one-way. A calm boss turns angry exactly when its lives
/// have come down to its threshold, and its fireball limit doubles then; an
/// angry boss stays angry and keeps its limit, whatever its lives. Its lives
/// are never touched.
pub proof fn lemma_boss_angry_one_way(c: Components)
    requires
        c.boss is Some,
        c.shooter is Some,
    ensures
        enraged(c).boss->0.angry == (c.boss->0.angry || c.boss->0.lives <= c.boss->0.normal_lives),
        enraged(c).boss->0.lives == c.boss->0.lives,
        c.boss->0.angry ==> enraged(c) == c,
        !c.boss->0.angry && c.boss->0.lives <= c.boss->0.normal_lives && c.shooter->0.maximum_fireballs
            <= u32::MAX / 2 ==> enraged(c).shooter->0.maximum_fireballs == 2
            * c.shooter->0.maximum_fireballs,
        !c.boss->0.angry && c.boss->0.lives > c.boss->0.normal_lives ==> enraged(c) == c,
{
}

/// The shooter after its rearming, with `n` fireballs in flight.
pub open spec fn rearmed(c: Components, n: nat) -> Components {
    let d = swapped(enraged(c));
    Components {
        shooter: Some(
            Shooter {
                fireball_amount: if n <= u32::MAX {
                    n as u32
                } else {
                    u32::MAX
                },
                ..d.shooter->0
            },
        ),
        ..d
    }
}

pub open spec fn shooter_ready(s: Slot) -> bool {
    s.alive && s.data.shooter is Some && s.data.position is Some
}

/// The number of fireballs that shooter `s`, with `count` in flight, has
/// once it has been rearmed.
pub open spec fn goal_of(s: Slot, count: nat) -> nat {
    let m = enraged(s.data).shooter->0.maximum_fireballs as nat;
    if count >= m {
        count
    } else {
        m
    }
}

/// The number of fireballs that the shooter in slot `i` has in flight once
/// it has been rearmed.
pub open spec fn fireball_goal(w: Seq<Slot>, i: int) -> nat {
    goal_of(w[i], count_owned(w, handle_of(w, i)))
}

/// The position of the first live hero, which fireballs are aimed at.
pub open spec fn hero_target(w: Seq<Slot>, i: int) -> Option<Vector>
    decreases w.len() - i,
{
    if i >= w.len() || i < 0 {
        None
    } else if w[i].alive && w[i].data.hero is Some && w[i].data.position is Some {
        Some(w[i].data.position->0.position)
    } else {
        hero_target(w, i + 1)
    }
}

/// Where the shooter `s` aims: at the first live hero of `w`, or, with no
/// hero, at the left edge of the screen at its own height.
pub open spec fn aim_point(w: Seq<Slot>, s: Slot) -> Vector {
    match hero_target(w, 0) {
        Some(t) => t,
        None => Vector { x: 0, y: s.data.position->0.position.y },
    }
}

/// `a / b` rounded toward zero.
pub open spec fn div_toward_zero(a: int, b: int) -> int {
    if a >= 0 {
        a / b
    } else {
        -((-a) / b)
    }
}

/// The launch speed of the fireball in slot `k`, in thousandths per second.
pub open spec fn launch_speed(sh: Shooter, k: int, jitter: int) -> i64 {
    clamp_i64(sh.coefficient_1 * (k + 1) + sh.coefficient_2 + jitter)
}

/// One velocity component of a fireball that covers `speed` thousandths of
/// the distance `d` (in micro-units) each second.
pub open spec fn aim(d: int, speed: i64) -> i64 {
    clamp_i64(div_toward_zero(d * speed, 1_000_000))
}

/// A fireball launched by `owner` from `origin` with velocity `v`.
pub open spec fn is_launched(
    c: Components,
    owner: Entity,
    origin: Vector,
    sprite: Seq<char>,
    v: Vector,
) -> bool {
    &&& c.fireball == Some(Fireball { owner_id: Some(owner) })
    &&& c.position == Some(Position { position: origin })
    &&& c.velocity == Some(Velocity { velocity: v })
    &&& fresh_render(c.render, sprite)
    &&& c.out_of_bounds
    &&& kinds(c, false, false, false, true, false, false)
}

fn aim_component(d: i128, speed: i64) -> (r: i64)
    requires
        -0x1_0000_0000_0000_0000 < d < 0x1_0000_0000_0000_0000,
    ensures
        r == aim(d as int, speed),
{
    assert(-0xFFFF_FFFF_FFFF_FFFF * 0x8000_0000_0000_0000 <= d * speed <= 0xFFFF_FFFF_FFFF_FFFF
        * 0x8000_0000_0000_0000) by (nonlinear_arith)
        requires
            -0x1_0000_0000_0000_0000 < d < 0x1_0000_0000_0000_0000,
            i64::MIN <= speed <= i64::MAX,
    ;
    let p: i128 = d * speed as i128;
    let q: i128 = if p >= 0 {
        p / 1_000_000
    } else {
        -((-p) / 1_000_000)
    };
    if q < i64::MIN as i128 {
        i64::MIN
    } else if q > i64::MAX as i128 {
        i64::MAX
    } else {
        q as i64
    }
}

/// The velocity that covers `speed` thousandths of the way from `origin` to
/// `target` each second.
pub open spec fn aimed(target: Vector, origin: Vector, speed: i64) -> Vector {
    Vector { x: aim(target.x - origin.x, speed), y: aim(target.y - origin.y, speed) }
}

/// `c` is the fireball of slot `k` of shooter `s` (whose handle is
/// `owner`), launched from its position toward `target` with its speed
/// moved by `jitter`.
pub open spec fn launch_of(c: Components, s: Slot, owner: Entity, k: int, jitter: int, target: Vector) -> bool {
    let sh = s.data.shooter->0;
    let o = s.data.position->0.position;
    is_launched(c, owner, o, sh.projectile_sprite@, aimed(target, o, launch_speed(sh, k, jitter)))
}

/// `c` is one of the fireballs that shooter `s`, with `count` in flight,
/// launches when rearmed: a slot from `count` up to its goal, and a jitter
/// within `SPEED_JITTER`.
pub open spec fn launched_from(c: Components, s: Slot, owner: Entity, count: nat, target: Vector) -> bool {
    exists|k: int, j: int|
        count <= k < goal_of(s, count) && -SPEED_JITTER <= j < SPEED_JITTER && #[trigger] launch_of(
            c,
            s,
            owner,
            k,
            j,
            target,
        )
}

/// Launches the fireball of slot `k` of the shooter in slot `i` toward
/// `target`, its speed moved by `jitter`.
pub fn launch_fireball(world: &mut World, i: usize, k: u32, jitter: i64, target: Vector) -> (r: Entity)
    requires
        i < old(world)@.len(),
        shooter_ready(old(world)@[i as int]),
        old(world)@.len() < usize::MAX,
    ensures
        !live_in(old(world)@, r),
        live_in(final(world)@, r),
        spawned(old(world)@, final(world)@, r),
        launch_of(
            final(world)@[r.index as int].data,
            old(world)@[i as int],
            handle_of(old(world)@, i as int),
            k as int,
            jitter as int,
            target,
        ),
{
    let owner = world.entity_at(i);
    let s = world.slot(i);
    let (origin, sprite, c1, c2) = match (&s.data.shooter, s.data.position) {
        (Some(sh), Some(p)) => (p.position, sh.projectile_sprite.clone(), sh.coefficient_1, sh.coefficient_2),
        _ => {
            proof {
                assert(false);
            }
            (Vector { x: 0, y: 0 }, String::new(), 0, 0)
        },
    };
    assert(-0x8000_0000_0000_0000 * 0x1_0000_0000 <= c1 * (k + 1) <= 0x8000_0000_0000_0000
        * 0x1_0000_0000) by (nonlinear_arith)
        requires
            i64::MIN <= c1 <= i64::MAX,
            0 <= k <= u32::MAX,
    ;
    let raw: i128 = c1 as i128 * (k as i128 + 1) + c2 as i128 + jitter as i128;
    let speed: i64 = if raw < i64::MIN as i128 {
        i64::MIN
    } else if raw > i64::MAX as i128 {
        i64::MAX
    } else {
        raw as i64
    };
    let vx = aim_component(target.x as i128 - origin.x as i128, speed);
    let vy = aim_component(target.y as i128 - origin.y as i128, speed);
    let mut c = Components::empty();
    c.fireball = Some(Fireball { owner_id: Some(owner) });
    c.out_of_bounds = true;
    c.position = Some(Position { position: origin });
    c.velocity = Some(Velocity { velocity: Vector { x: vx, y: vy } });
    c.render = Some(Render { sprite, bounding_box: None });
    world.create_entity(c)
}

fn count_fireballs(world: &World, o: Entity) -> (r: usize)
    ensures
        r == count_owned(world@, o),
{
    let n = world.len();
    let mut cnt: usize = 0;
    let mut i: usize = 0;
    while i < n
        invariant
            n == world@.len(),
            i <= n,
            cnt <= i,
            cnt == count_owned(world@.subrange(0, i as int), o),
        decreases n - i,
    {
        assert(world@.subrange(0, i + 1).drop_last() =~= world@.subrange(0, i as int));
        let s = world.slot(i);
        let mine = s.alive && match s.data.fireball {
            Some(f) => match f.owner_id {
                Some(e) => e == o,
                None => false,
            },
            None => false,
        };
        if mine {
            cnt = cnt + 1;
        }
        i = i + 1;
    }
    assert(world@.subrange(0, n as int) =~= world@);
    cnt
}

fn find_target(world: &World) -> (r: Option<Vector>)
    ensures
        r == hero_target(world@, 0),
{
    let n = world.len();
    let mut i: usize = 0;
    while i < n
        invariant
            n == world@.len(),
            i <= n,
            hero_target(world@, i as int) == hero_target(world@, 0),
        decreases n - i,
    {
        let s = world.slot(i);
        if s.alive && s.data.hero.is_some() {
            match s.data.position {
                Some(p) => {
                    return Some(p.position);
                },
                None => {},
            }
        }
        i = i + 1;
    }
    None
}

fn rearm(c: &mut Components)
    ensures
        *final(c) == swapped(enraged(*old(c))),
{
    match (c.boss, &mut c.shooter) {
        (Some(b), Some(sh)) => {
            if !b.angry && b.lives <= b.normal_lives {
                c.boss = Some(Boss { angry: true, ..b });
                sh.maximum_fireballs = if sh.maximum_fireballs <= u32::MAX / 2 {
                    sh.maximum_fireballs * 2
                } else {
                    u32::MAX
                };
                match &mut c.change_sprite {
                    Some(cs) => {
                        cs.do_change = true;
                    },
                    None => {},
                }
            }
        },
        _ => {},
    }
    match (&mut c.change_sprite, &mut c.render) {
        (Some(cs), Some(r)) => {
            if cs.do_change {
                r.sprite = cs.new_sprite.clone();
                r.bounding_box = None;
                cs.do_change = false;
            }
        },
        _ => {},
    }
}

/// `w1` is `w0` after every shooter has been rearmed, as
/// `FireballSystem::run` promises.
pub open spec fn rearmed_store(w0: Seq<Slot>, w1: Seq<Slot>) -> bool {
    &&& w1.len() >= w0.len()
    &&& forall|i: int|
        0 <= i < w0.len() && shooter_ready(w0[i]) ==> #[trigger] w1[i] == with_data(
            w0[i],
            rearmed(w0[i].data, count_owned(w1, handle_of(w0, i))),
        )
    &&& forall|i: int|
        0 <= i < w0.len() && shooter_ready(w0[i]) ==> count_owned(w1, #[trigger] handle_of(w0, i))
            == fireball_goal(w0, i) || w1.len() + 1 >= usize::MAX
    &&& forall|j: int|
        0 <= j < w1.len() && (#[trigger] w1[j]).alive && !(j < w0.len() && w0[j].alive) ==> exists|i: int|
            0 <= i < w0.len() && shooter_ready(w0[i]) && #[trigger] launched_from(
                w1[j].data,
                w0[i],
                handle_of(w0, i),
                count_owned(w0, handle_of(w0, i)),
                aim_point(w0, w0[i]),
            )
    &&& forall|i: int|
        0 <= i < w0.len() && w0[i].alive && !shooter_ready(w0[i]) ==> #[trigger] w1[i] == w0[i]
}

/// Keeps each shooter's fireballs in flight at its limit: a shooter below
/// its limit launches new fireballs at its aim point. A boss at its
/// threshold turns angry first.
pub struct FireballSystem;

impl FireballSystem {
    /// Rearms the shooter in slot `i`. Fireballs are launched only while the
    /// store has room for more slots.
    fn arm_shooter(world: &mut World, i: usize, target: Vector)
        requires
            i < old(world)@.len(),
            shooter_ready(old(world)@[i as int]),
        ensures
            final(world)@.len() >= old(world)@.len(),
            final(world)@[i as int] == with_data(
                old(world)@[i as int],
                rearmed(old(world)@[i as int].data, count_owned(final(world)@, handle_of(old(world)@, i as int))),
            ),
            count_owned(final(world)@, handle_of(old(world)@, i as int))
                == fireball_goal(old(world)@, i as int) || final(world)@.len() + 1 >= usize::MAX,
            forall|j: int|
                0 <= j < final(world)@.len() && (#[trigger] final(world)@[j]).alive && !(j < old(world)@.len()
                    && old(world)@[j].alive) ==> launched_from(
                    final(world)@[j].data,
                    old(world)@[i as int],
                    handle_of(old(world)@, i as int),
                    count_owned(old(world)@, handle_of(old(world)@, i as int)),
                    target,
                ),
            forall|j: int|
                0 <= j < old(world)@.len() && j != i && old(world)@[j].alive ==> #[trigger] final(world)@[j]
                    == old(world)@[j],
            forall|j: int|
                0 <= j < old(world)@.len() && !old(world)@[j].alive ==> #[trigger] final(world)@[j]
                    == old(world)@[j] || final(world)@[j].data.shooter is None,
            forall|o: Entity|
                o != handle_of(old(world)@, i as int) ==> #[trigger] count_owned(final(world)@, o)
                    == count_owned(old(world)@, o),
    {
        let ghost w0 = world@;
        let h = world.entity_at(i);
        {
            let d = world.data_mut(i);
            rearm(d);
        }
        let ghost w1 = world@;
        proof {
            assert forall|o: Entity| #[trigger] count_owned(w1, o) == count_owned(w0, o) by {
                lemma_count_update(w0, i as int, w1[i as int], o);
            }
        }
        let limit: u32 = match &world.slot(i).data.shooter {
            Some(sh) => sh.maximum_fireballs,
            None => 0,
        };
        let mut cnt = count_fireballs(world, h);
        proof {
            assert(w1[i as int].data.shooter->0.coefficient_1 == w0[i as int].data.shooter->0.coefficient_1);
            assert(w1[i as int].data.shooter->0.coefficient_2 == w0[i as int].data.shooter->0.coefficient_2);
            assert(w1[i as int].data.shooter->0.projectile_sprite == w0[i as int].data.shooter->0.projectile_sprite);
            assert(w1[i as int].data.position == w0[i as int].data.position);
        }
        {
            {
                while cnt < limit as usize && world.len() < usize::MAX - 1
                    invariant
                        i < w0.len() <= world@.len(),
                        world@[i as int] == w1[i as int],
                        shooter_ready(w1[i as int]),
                        h == handle_of(w0, i as int),
                        h == handle_of(world@, i as int),
                        count_owned(world@, h) == cnt,
                        cnt >= count_owned(w0, h),
                        count_owned(w0, h) < limit ==> cnt <= limit,
                        count_owned(w0, h) >= limit ==> cnt == count_owned(w0, h),
                        w1.len() == w0.len(),
                        limit == enraged(w0[i as int].data).shooter->0.maximum_fireballs,
                        forall|o: Entity| o != h ==> #[trigger] count_owned(world@, o) == count_owned(w0, o),
                        forall|j: int|
                            0 <= j < w0.len() && j != i && w0[j].alive ==> #[trigger] world@[j] == w0[j],
                        forall|j: int|
                            0 <= j < w0.len() && !w0[j].alive ==> #[trigger] world@[j] == w0[j]
                                || world@[j].data.shooter is None,
                        w1[i as int].data.shooter->0.coefficient_1 == w0[i as int].data.shooter->0.coefficient_1,
                        w1[i as int].data.shooter->0.coefficient_2 == w0[i as int].data.shooter->0.coefficient_2,
                        w1[i as int].data.shooter->0.projectile_sprite == w0[i as int].data.shooter->0.projectile_sprite,
                        w1[i as int].data.position == w0[i as int].data.position,
                        forall|j: int|
                            0 <= j < world@.len() && (#[trigger] world@[j]).alive && !(j < w0.len() && w0[j].alive)
                                ==> launched_from(world@[j].data, w0[i as int], h, count_owned(w0, h), target),
                    decreases limit - cnt,
                {
                    let jitter = random_in(-SPEED_JITTER, SPEED_JITTER);
                    let ghost wp = world@;
                    let e = launch_fireball(world, i, cnt as u32, jitter, target);
                    proof {
                        assert(launch_of(world@[e.index as int].data, w0[i as int], h, cnt as int, jitter as int, target));
                        assert forall|j: int|
                            0 <= j < world@.len() && (#[trigger] world@[j]).alive && !(j < w0.len() && w0[j].alive)
                                implies launched_from(world@[j].data, w0[i as int], h, count_owned(w0, h), target) by {
                            if j != e.index {
                                assert(world@[j] == wp[j]);
                            }
                        }
                        let ns = Slot { generation: e.generation, alive: true, marked: false, data: world@[e.index as int].data };
                        assert forall|o: Entity| #[trigger] count_owned(world@, o) == count_owned(wp, o) + one_if(owns(ns, o)) by {
                            lemma_count_placed(wp, e.index as int, e.generation, ns.data, o);
                        }
                        assert(owns(ns, h));
                        assert forall|j: int|
                            0 <= j < w0.len() && j != i && w0[j].alive implies #[trigger] world@[j] == w0[j] by {
                            assert(wp[j] == w0[j]);
                            assert(e.index != j);
                        }
                        assert forall|j: int|
                            0 <= j < w0.len() && !w0[j].alive implies #[trigger] world@[j] == w0[j]
                                || world@[j].data.shooter is None by {
                            if e.index != j {
                                assert(world@[j] == wp[j]);
                            }
                        }
                        assert(e.index != i);
                    }
                    cnt = cnt + 1;
                }
            }
        }
        let amount: u32 = if cnt <= u32::MAX as usize {
            cnt as u32
        } else {
            u32::MAX
        };
        let ghost w2 = world@;
        {
            let d = world.data_mut(i);
            match &mut d.shooter {
                Some(sh) => {
                    sh.fireball_amount = amount;
                },
                None => {},
            }
        }
        proof {
            assert forall|o: Entity| #[trigger] count_owned(world@, o) == count_owned(w2, o) by {
                lemma_count_update(w2, i as int, world@[i as int], o);
            }
            assert forall|j: int|
                0 <= j < world@.len() && (#[trigger] world@[j]).alive && !(j < w0.len() && w0[j].alive)
                    implies launched_from(world@[j].data, w0[i as int], h, count_owned(w0, h), target) by {
                assert(j != i);
                assert(world@[j] == w2[j]);
            }
        }
    }

    /// Rearms every shooter of the store, in its order. Each ends with its
    /// fireballs in flight at its limit, or at what it had if that was more,
    /// unless the store has no room left. Every entity that comes is a
    /// fireball of one of the shooters, aimed at the first hero (or at the
    /// left edge when there is none).
    pub fn run(&self, world: &mut World)
        ensures
            final(world)@.len() >= old(world)@.len(),
            forall|i: int|
                0 <= i < old(world)@.len() && shooter_ready(old(world)@[i]) ==> #[trigger] final(world)@[i]
                    == with_data(
                    old(world)@[i],
                    rearmed(old(world)@[i].data, count_owned(final(world)@, handle_of(old(world)@, i))),
                ),
            forall|i: int|
                0 <= i < old(world)@.len() && shooter_ready(old(world)@[i]) ==> count_owned(
                    final(world)@,
                    #[trigger] handle_of(old(world)@, i),
                ) == fireball_goal(old(world)@, i) || final(world)@.len() + 1 >= usize::MAX,
            forall|j: int|
                0 <= j < final(world)@.len() && (#[trigger] final(world)@[j]).alive && !(j < old(
                    world,
                )@.len() && old(world)@[j].alive) ==> exists|i: int|
                    0 <= i < old(world)@.len() && shooter_ready(old(world)@[i]) && #[trigger] launched_from(
                        final(world)@[j].data,
                        old(world)@[i],
                        handle_of(old(world)@, i),
                        count_owned(old(world)@, handle_of(old(world)@, i)),
                        aim_point(old(world)@, old(world)@[i]),
                    ),
            forall|i: int|
                0 <= i < old(world)@.len() && old(world)@[i].alive && !shooter_ready(old(world)@[i])
                    ==> #[trigger] final(world)@[i] == old(world)@[i],
    {
        let target = find_target(world);
        let n = world.len();
        let ghost w0 = world@;
        let mut i: usize = 0;
        while i < n
            invariant
                n == w0.len(),
                w0 == old(world)@,
                target == hero_target(w0, 0),
                i <= n <= world@.len(),
                forall|j: int|
                    0 <= j < n && w0[j].alive && !shooter_ready(w0[j]) ==> #[trigger] world@[j] == w0[j],
                forall|j: int| i <= j < n && w0[j].alive ==> #[trigger] world@[j] == w0[j],
                forall|j: int|
                    i <= j < n && !w0[j].alive ==> #[trigger] world@[j] == w0[j] || world@[j].data.shooter is None,
                forall|j: int|
                    0 <= j < i && shooter_ready(w0[j]) ==> #[trigger] world@[j] == with_data(
                        w0[j],
                        rearmed(w0[j].data, count_owned(world@, handle_of(w0, j))),
                    ),
                forall|j: int|
                    0 <= j < i && shooter_ready(w0[j]) ==> count_owned(
                        world@,
                        #[trigger] handle_of(w0, j),
                    ) == fireball_goal(w0, j) || world@.len() + 1 >= usize::MAX,
                forall|j: int|
                    0 <= j < world@.len() && (#[trigger] world@[j]).alive && !(j < n && w0[j].alive)
                        ==> exists|i2: int|
                        0 <= i2 < i && shooter_ready(w0[i2]) && #[trigger] launched_from(
                            world@[j].data,
                            w0[i2],
                            handle_of(w0, i2),
                            count_owned(w0, handle_of(w0, i2)),
                            aim_point(w0, w0[i2]),
                        ),
                forall|j: int|
                    i <= j < n ==> #[trigger] count_owned(world@, handle_of(w0, j)) == count_owned(
                        w0,
                        handle_of(w0, j),
                    ),
            decreases n - i,
        {
            let s = world.slot(i);
            if s.alive && s.data.shooter.is_some() && s.data.position.is_some() {
                let ghost wp = world@;
                assert(wp[i as int] == w0[i as int]);
                assert(handle_of(wp, i as int) == handle_of(w0, i as int));
                let t = match target {
                    Some(t) => t,
                    None => match s.data.position {
                        Some(p) => Vector { x: 0, y: p.position.y },
                        None => Vector { x: 0, y: 0 },
                    },
                };
                assert(t == aim_point(w0, w0[i as int]));
                FireballSystem::arm_shooter(world, i, t);
                proof {
                    assert forall|j: int|
                        0 <= j < world@.len() && (#[trigger] world@[j]).alive && !(j < n && w0[j].alive)
                            implies exists|i2: int|
                            0 <= i2 < i + 1 && shooter_ready(w0[i2]) && #[trigger] launched_from(
                                world@[j].data,
                                w0[i2],
                                handle_of(w0, i2),
                                count_owned(w0, handle_of(w0, i2)),
                                aim_point(w0, w0[i2]),
                            ) by {
                        if j < wp.len() && wp[j].alive {
                            assert(j != i);
                            assert(world@[j] == wp[j]);
                            let i2 = choose|i2: int|
                                0 <= i2 < i && shooter_ready(w0[i2]) && #[trigger] launched_from(
                                    wp[j].data,
                                    w0[i2],
                                    handle_of(w0, i2),
                                    count_owned(w0, handle_of(w0, i2)),
                                    aim_point(w0, w0[i2]),
                                );
                            assert(launched_from(world@[j].data, w0[i2], handle_of(w0, i2), count_owned(w0, handle_of(w0, i2)), aim_point(w0, w0[i2])));
                        } else {
                            assert(launched_from(world@[j].data, w0[i as int], handle_of(w0, i as int), count_owned(w0, handle_of(w0, i as int)), aim_point(w0, w0[i as int])));
                        }
                    }
                    assert forall|j: int|
                        0 <= j < i && shooter_ready(w0[j]) implies #[trigger] world@[j] == with_data(
                            w0[j],
                            rearmed(w0[j].data, count_owned(world@, handle_of(w0, j))),
                        ) && (count_owned(world@, handle_of(w0, j)) == fireball_goal(w0, j)
                            || world@.len() + 1 >= usize::MAX) by {
                        assert(wp[j].alive);
                        assert(world@[j] == wp[j]);
                        assert(handle_of(w0, j) != handle_of(wp, i as int));
                        assert(count_owned(world@, handle_of(w0, j)) == count_owned(wp, handle_of(w0, j)));
                    }
                    assert forall|j: int| i < j < n implies #[trigger] count_owned(world@, handle_of(w0, j))
                        == count_owned(w0, handle_of(w0, j)) by {
                        assert(handle_of(w0, j) != handle_of(wp, i as int));
                        assert(count_owned(world@, handle_of(w0, j)) == count_owned(wp, handle_of(w0, j)));
                    }
                    assert forall|j: int| 0 <= j < n && w0[j].alive && !shooter_ready(w0[j]) implies #[trigger] world@[j] == w0[j] by {
                        assert(j != i);
                        assert(wp[j] == w0[j]);
                    }
                    assert forall|j: int| i < j < n && w0[j].alive implies #[trigger] world@[j] == w0[j] by {
                        assert(wp[j] == w0[j]);
                    }
                    assert forall|j: int| i < j < n && !w0[j].alive implies #[trigger] world@[j] == w0[j] || world@[j].data.shooter is None by {
                        if wp[j] == w0[j] {
                        } else {
                            assert(wp[j].data.shooter is None);
                            if !wp[j].alive {
                            } else {
                                assert(world@[j] == wp[j]);
                            }
                        }
                    }
                }
            }
            i = i + 1;
        }
    }
}

} // verus!
