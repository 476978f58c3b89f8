use vstd::prelude::*;

use crate::component::{
    fresh_render, kinds, Boss, ChangeSprite, Components, Enemy, Entity, Fireball, Position, Render,
    Shooter, Velocity,
};
use crate::geom::{
    centre_in_range, with_center, with_center_spec, Rectangle, Size, Vector, ENEMY_HEAD_HEIGHT,
    POS_SCALE, VEL_SCALE,
};
use crate::random::random_in;
use crate::world::{live_in, spawned, Slot, World};

verus! {

/// An enemy's sprite centred on `position`, cut into the head band at the
/// top and the body below it.
pub open spec fn enemy_areas(size: Size, position: Vector) -> (Rectangle, Rectangle) {
    let a = with_center_spec(size, position);
    (
        Rectangle { x: a.x, y: a.y, width: a.width, height: ENEMY_HEAD_HEIGHT },
        Rectangle {
            x: a.x,
            y: (a.y + ENEMY_HEAD_HEIGHT) as i64,
            width: a.width,
            height: (a.height - ENEMY_HEAD_HEIGHT) as i64,
        },
    )
}

/// Splits an enemy's area into its head and its body.
pub fn get_enemy_head_body_area(size: Size, position: Vector) -> (r: (Rectangle, Rectangle))
    requires
        size.valid(),
        centre_in_range(position),
    ensures
        r == enemy_areas(size, position),
        r.0.bounded(),
        r.1.bounded(),
{
    let a = with_center(size, position);
    (
        Rectangle { x: a.x, y: a.y, width: a.width, height: ENEMY_HEAD_HEIGHT },
        Rectangle {
            x: a.x,
            y: a.y + ENEMY_HEAD_HEIGHT,
            width: a.width,
            height: a.height - ENEMY_HEAD_HEIGHT,
        },
    )
}

pub open spec fn at(c: Components, x: int, y: int, vx: int, vy: int) -> bool {
    &&& c.position == Some(Position { position: Vector { x: x as i64, y: y as i64 } })
    &&& c.velocity == Some(Velocity { velocity: Vector { x: vx as i64, y: vy as i64 } })
}

/// A walker: it enters from the left going right, or from the right going
/// left, and is worth 100.
pub open spec fn is_walker(c: Components, left_to_right: bool) -> bool {
    &&& if left_to_right {
        at(c, -50 * POS_SCALE, 432 * POS_SCALE, 125 * VEL_SCALE, 0) && fresh_render(
            c.render,
            "andador_flipped"@,
        )
    } else {
        at(c, 850 * POS_SCALE, 432 * POS_SCALE, -125 * VEL_SCALE, 0) && fresh_render(
            c.render,
            "andador"@,
        )
    }
    &&& c.enemy == Some(Enemy { score: 100 })
    &&& c.out_of_bounds
    &&& kinds(c, true, false, false, false, false, false)
}

pub open spec fn shooter_is(
    s: Option<Shooter>,
    sprite: Seq<char>,
    maximum: u32,
    coefficient_1: int,
    coefficient_2: int,
) -> bool {
    s matches Some(sh) && sh.projectile_sprite@ == sprite && sh.maximum_fireballs == maximum
        && sh.fireball_amount == 0 && sh.coefficient_1 == coefficient_1 && sh.coefficient_2
        == coefficient_2
}

/// A shooter: it drifts left from the right edge, is worth 200 and keeps two
/// fireballs in flight.
pub open spec fn is_shooter(c: Components) -> bool {
    &&& at(c, 850 * POS_SCALE, 433 * POS_SCALE + POS_SCALE / 2, -125 * VEL_SCALE, 0)
    &&& fresh_render(c.render, "atirador"@)
    &&& c.enemy == Some(Enemy { score: 200 })
    &&& shooter_is(c.shooter, "tiro"@, 2, 175, 0)
    &&& c.out_of_bounds
    &&& kinds(c, true, true, false, false, false, false)
}

/// A flyer: a faster shooter higher up with a single, faster fireball.
pub open spec fn is_flyer(c: Components) -> bool {
    &&& at(c, 850 * POS_SCALE, 400 * POS_SCALE, -150 * VEL_SCALE, 0)
    &&& fresh_render(c.render, "alma"@)
    &&& c.enemy == Some(Enemy { score: 200 })
    &&& shooter_is(c.shooter, "tiro"@, 1, 250, 0)
    &&& c.out_of_bounds
    &&& kinds(c, true, true, false, false, false, false)
}

/// The boss: it stands still, is never retired by the bounds check, and
/// swaps its sprite when it turns angry.
pub open spec fn is_boss(
    c: Components,
    lives: u32,
    normal_lives: u32,
    projectile: Seq<char>,
    maximum: u32,
) -> bool {
    &&& c.position == Some(
        Position {
            position: Vector { x: (748 * POS_SCALE + POS_SCALE / 2) as i64, y: (428 * POS_SCALE) as i64 },
        },
    )
    &&& c.velocity is None
    &&& fresh_render(c.render, "chefe"@)
    &&& c.enemy == Some(Enemy { score: 300 })
    &&& c.boss == Some(Boss { lives, normal_lives, angry: false })
    &&& c.change_sprite matches Some(cs) && cs.new_sprite@ == "chefeapelao"@ && !cs.do_change
    &&& shooter_is(c.shooter, projectile, maximum, 75, -50)
    &&& !c.out_of_bounds
    &&& kinds(c, true, true, true, false, false, false)
}

/// One fireball of a shower: it falls from above the screen at `x` with
/// vertical speed `vy`, and has no owner.
pub open spec fn is_falling_fireball(c: Components, x: int, vy: int) -> bool {
    &&& at(c, x, -100 * POS_SCALE, 0, vy)
    &&& fresh_render(c.render, "fogo"@)
    &&& c.fireball == Some(Fireball { owner_id: None })
    &&& c.out_of_bounds
    &&& kinds(c, false, false, false, true, false, false)
}

/// Adds a walker going right when `left_to_right`, else going left.
pub fn spawn_walker(world: &mut World, left_to_right: bool) -> (r: Entity)
    requires
        old(world)@.len() < usize::MAX,
    ensures
        !live_in(old(world)@, r),
        live_in(final(world)@, r),
        spawned(old(world)@, final(world)@, r),
        is_walker(final(world)@[r.index as int].data, left_to_right),
{
    let mut c = Components::empty();
    if left_to_right {
        c.position = Some(Position { position: Vector { x: -50 * POS_SCALE, y: 432 * POS_SCALE } });
        c.velocity = Some(Velocity { velocity: Vector { x: 125 * VEL_SCALE, y: 0 } });
        c.render = Some(Render::new("andador_flipped"));
    } else {
        c.position = Some(Position { position: Vector { x: 850 * POS_SCALE, y: 432 * POS_SCALE } });
        c.velocity = Some(Velocity { velocity: Vector { x: -125 * VEL_SCALE, y: 0 } });
        c.render = Some(Render::new("andador"));
    }
    c.out_of_bounds = true;
    c.enemy = Some(Enemy { score: 100 });
    world.create_entity(c)
}

/// Adds a walker whose direction is drawn at random.
pub fn create_walker(world: &mut World) -> (r: Entity)
    requires
        old(world)@.len() < usize::MAX,
    ensures
        !live_in(old(world)@, r),
        live_in(final(world)@, r),
        spawned(old(world)@, final(world)@, r),
        is_walker(final(world)@[r.index as int].data, true) || is_walker(
            final(world)@[r.index as int].data,
            false,
        ),
{
    let left_to_right = rand::random::<bool>();
    spawn_walker(world, left_to_right)
}

/// Adds a shooter at the right edge.
pub fn create_shooter(world: &mut World) -> (r: Entity)
    requires
        old(world)@.len() < usize::MAX,
    ensures
        !live_in(old(world)@, r),
        live_in(final(world)@, r),
        spawned(old(world)@, final(world)@, r),
        is_shooter(final(world)@[r.index as int].data),
{
    let mut c = Components::empty();
    c.out_of_bounds = true;
    c.position = Some(
        Position { position: Vector { x: 850 * POS_SCALE, y: 433 * POS_SCALE + POS_SCALE / 2 } },
    );
    c.velocity = Some(Velocity { velocity: Vector { x: -125 * VEL_SCALE, y: 0 } });
    c.render = Some(Render::new("atirador"));
    c.enemy = Some(Enemy { score: 200 });
    c.shooter = Some(
        Shooter {
            projectile_sprite: "tiro".to_string(),
            maximum_fireballs: 2,
            fireball_amount: 0,
            coefficient_1: 175,
            coefficient_2: 0,
        },
    );
    world.create_entity(c)
}

/// Adds a flyer at the right edge.
pub fn create_flyer(world: &mut World) -> (r: Entity)
    requires
        old(world)@.len() < usize::MAX,
    ensures
        !live_in(old(world)@, r),
        live_in(final(world)@, r),
        spawned(old(world)@, final(world)@, r),
        is_flyer(final(world)@[r.index as int].data),
{
    let mut c = Components::empty();
    c.out_of_bounds = true;
    c.position = Some(Position { position: Vector { x: 850 * POS_SCALE, y: 400 * POS_SCALE } });
    c.velocity = Some(Velocity { velocity: Vector { x: -150 * VEL_SCALE, y: 0 } });
    c.render = Some(Render::new("alma"));
    c.enemy = Some(Enemy { score: 200 });
    c.shooter = Some(
        Shooter {
            projectile_sprite: "tiro".to_string(),
            maximum_fireballs: 1,
            fireball_amount: 0,
            coefficient_1: 250,
            coefficient_2: 0,
        },
    );
    world.create_entity(c)
}

/// Adds a boss with the given lives, angry threshold and fireballs.
pub fn create_boss_with(
    world: &mut World,
    lives: u32,
    normal_lives: u32,
    projectile_sprite: &str,
    maximum_fireballs: u32,
) -> (r: Entity)
    requires
        old(world)@.len() < usize::MAX,
    ensures
        !live_in(old(world)@, r),
        live_in(final(world)@, r),
        spawned(old(world)@, final(world)@, r),
        is_boss(
            final(world)@[r.index as int].data,
            lives,
            normal_lives,
            projectile_sprite@,
            maximum_fireballs,
        ),
{
    let mut c = Components::empty();
    c.boss = Some(Boss { lives, normal_lives, angry: false });
    c.position = Some(
        Position { position: Vector { x: 748 * POS_SCALE + POS_SCALE / 2, y: 428 * POS_SCALE } },
    );
    c.render = Some(Render::new("chefe"));
    c.enemy = Some(Enemy { score: 300 });
    c.change_sprite = Some(ChangeSprite { new_sprite: "chefeapelao".to_string(), do_change: false });
    c.shooter = Some(
        Shooter {
            projectile_sprite: projectile_sprite.to_string(),
            maximum_fireballs,
            fireball_amount: 0,
            coefficient_1: 75,
            coefficient_2: -50,
        },
    );
    world.create_entity(c)
}

/// Adds the standard boss: ten lives, angry at five, two fireballs.
pub fn create_boss(world: &mut World) -> (r: Entity)
    requires
        old(world)@.len() < usize::MAX,
    ensures
        !live_in(old(world)@, r),
        live_in(final(world)@, r),
        spawned(old(world)@, final(world)@, r),
        is_boss(final(world)@[r.index as int].data, 10, 5, "bossfireball"@, 2),
{
    create_boss_with(world, 10, 5, "bossfireball", 2)
}

/// The columns of a shower: `x`, `x + step`, ... while below `x_end`.
pub open spec fn shower_columns(x: int, x_end: int, step: int) -> Seq<int>
    decreases (if x < x_end {
        x_end - x
    } else {
        0
    }),
    when step > 0
{
    if x >= x_end {
        Seq::empty()
    } else {
        seq![x].add(shower_columns(x + step, x_end, step))
    }
}

/// Adds a shower of falling fireballs, one per column, the fireball of
/// column `k` falling at `250 + jitters[k]` (in velocity units). Slots that
/// held no live entity may be taken; nothing else changes.
pub fn create_fireball_shower_with(
    world: &mut World,
    x_init: i64,
    x_end: i64,
    step: i64,
    jitters: &Vec<i64>,
) -> (r: Vec<Entity>)
    requires
        0 < step,
        x_end <= i64::MAX - step,
        jitters@.len() == shower_columns(x_init as int, x_end as int, step as int).len(),
        old(world)@.len() + jitters@.len() < usize::MAX,
        forall|k: int| 0 <= k < jitters@.len() ==> jitters@[k] <= i64::MAX - 250 * VEL_SCALE,
    ensures
        r@.len() == jitters@.len(),
        final(world)@.len() <= old(world)@.len() + jitters@.len(),
        forall|k: int|
            0 <= k < r@.len() ==> live_in(final(world)@, #[trigger] r@[k]) && !live_in(
                old(world)@,
                r@[k],
            ) && is_falling_fireball(
                final(world)@[r@[k].index as int].data,
                shower_columns(x_init as int, x_end as int, step as int)[k],
                250 * VEL_SCALE + jitters@[k],
            ),
        forall|i: int|
            0 <= i < old(world)@.len() && (forall|k: int| 0 <= k < r@.len() ==> (#[trigger] r@[k]).index != i)
                ==> #[trigger] final(world)@[i] == old(world)@[i],
        forall|i: int|
            0 <= i < old(world)@.len() && old(world)@[i].alive ==> #[trigger] final(world)@[i]
                == old(world)@[i],
        final(world)@.len() >= old(world)@.len(),
{
    let ghost cols = shower_columns(x_init as int, x_end as int, step as int);
    let mut r: Vec<Entity> = Vec::new();
    let mut x = x_init;
    let mut k: usize = 0;
    while x < x_end
        invariant
            0 < step,
            x_end <= i64::MAX - step,
            x_init <= x,
            x < x_end ==> x + step <= i64::MAX,
            cols == shower_columns(x_init as int, x_end as int, step as int),
            jitters@.len() == cols.len(),
            forall|j: int| 0 <= j < jitters@.len() ==> jitters@[j] <= i64::MAX - 250 * VEL_SCALE,
            k == r@.len(),
            cols == cols.subrange(0, k as int).add(shower_columns(x as int, x_end as int, step as int)),
            k <= cols.len(),
            world@.len() <= old(world)@.len() + k,
            old(world)@.len() <= world@.len(),
            old(world)@.len() + jitters@.len() < usize::MAX,
            forall|j: int|
                0 <= j < k ==> live_in(world@, #[trigger] r@[j]) && !live_in(old(world)@, r@[j])
                    && is_falling_fireball(world@[r@[j].index as int].data, cols[j], 250 * VEL_SCALE + jitters@[j]),
            forall|i: int|
                0 <= i < old(world)@.len() && (forall|j: int| 0 <= j < k ==> (#[trigger] r@[j]).index != i)
                    ==> #[trigger] world@[i] == old(world)@[i],
            forall|i: int| 0 <= i < old(world)@.len() && old(world)@[i].alive ==> #[trigger] world@[i] == old(world)@[i],
        decreases (if x < x_end {
            x_end - x
        } else {
            0
        }),
    {
        assert(cols.subrange(0, k as int).add(shower_columns(x as int, x_end as int, step as int))[k as int] == x);
        assert(k < cols.len());
        let mut c = Components::empty();
        c.fireball = Some(Fireball { owner_id: None });
        c.out_of_bounds = true;
        c.render = Some(Render::new("fogo"));
        c.position = Some(Position { position: Vector { x, y: -100 * POS_SCALE } });
        c.velocity = Some(Velocity { velocity: Vector { x: 0, y: 250 * VEL_SCALE + jitters[k] } });
        let ghost w0 = world@;
        let ghost r0 = r@;
        let e = world.create_entity(c);
        r.push(e);
        proof {
            let ghost rr = r@;
            assert(rr[k as int] == e);
            assert forall|j: int| 0 <= j <= k implies live_in(world@, #[trigger] rr[j]) && !live_in(old(world)@, rr[j])
                && is_falling_fireball(world@[rr[j].index as int].data, cols[j], 250 * VEL_SCALE + jitters@[j]) by {
                if j < k {
                    assert(live_in(w0, rr[j]));
                    assert(rr[j].index != e.index);
                    assert(world@[rr[j].index as int] == w0[rr[j].index as int]);
                } else {
                    assert(world@[e.index as int].data == c);
                    if e.index < old(world)@.len() {
                        assert(!w0[e.index as int].alive);
                        if old(world)@[e.index as int].alive {
                            assert(w0[e.index as int] == old(world)@[e.index as int]);
                        }
                    }
                }
            }
            assert forall|i: int|
                0 <= i < old(world)@.len() && (forall|j: int| 0 <= j <= k ==> (#[trigger] rr[j]).index != i)
                    implies #[trigger] world@[i] == old(world)@[i] by {
                assert(rr[k as int].index != i);
                assert(forall|j: int| 0 <= j < k ==> rr[j] == #[trigger] r0[j]);
                assert(forall|j: int| 0 <= j < k ==> (#[trigger] r0[j]).index != i);
                assert(w0[i] == old(world)@[i]);
            }
            assert forall|i: int| 0 <= i < old(world)@.len() && old(world)@[i].alive implies #[trigger] world@[i] == old(world)@[i] by {
                assert(w0[i] == old(world)@[i]);
                assert(e.index != i);
            }
            assert(cols.subrange(0, k + 1) =~= cols.subrange(0, k as int).push(x as int));
            assert(shower_columns(x as int, x_end as int, step as int) =~= seq![x as int].add(
                shower_columns(x + step, x_end as int, step as int)));
            assert(cols =~= cols.subrange(0, k + 1).add(shower_columns(x + step, x_end as int, step as int)));
        }
        x = x + step;
        k = k + 1;
    }
    proof {
        assert(cols =~= cols.subrange(0, k as int));
    }
    r
}

proof fn lemma_columns_in_range(x: int, x_end: int, step: int)
    requires
        step > 0,
    ensures
        forall|k: int|
            0 <= k < shower_columns(x, x_end, step).len() ==> x <= #[trigger] shower_columns(
                x,
                x_end,
                step,
            )[k] < x_end,
    decreases (if x < x_end {
        x_end - x
    } else {
        0
    }),
{
    if x < x_end {
        lemma_columns_in_range(x + step, x_end, step);
        let rest = shower_columns(x + step, x_end, step);
        assert forall|k: int| 0 <= k < shower_columns(x, x_end, step).len() implies x
            <= #[trigger] shower_columns(x, x_end, step)[k] < x_end by {
            if k > 0 {
                assert(shower_columns(x, x_end, step)[k] == rest[k - 1]);
            }
        }
    }
}

/// A fireball of some shower: in a column between 0 and 900, falling at
/// between 240 and 260.
pub open spec fn is_shower_fireball(c: Components) -> bool {
    exists|x: int, vy: int|
        0 <= x < 900 * POS_SCALE && 240 * VEL_SCALE <= vy < 260 * VEL_SCALE
            && #[trigger] is_falling_fireball(c, x, vy)
}

proof fn lemma_columns_len(x: int, x_end: int, step: int)
    requires
        step > 0,
    ensures
        shower_columns(x, x_end, step).len() * step >= x_end - x,
        shower_columns(x, x_end, step).len() > 0 ==> (shower_columns(x, x_end, step).len() - 1)
            * step < x_end - x,
    decreases (if x < x_end {
        x_end - x
    } else {
        0
    }),
{
    if x < x_end {
        lemma_columns_len(x + step, x_end, step);
        let m = shower_columns(x + step, x_end, step).len() as int;
        assert(shower_columns(x, x_end, step).len() == m + 1);
        assert((m + 1) * step == m * step + step) by (nonlinear_arith);
        assert((m - 1) * step + step == m * step) by (nonlinear_arith);
        assert(m == 0 ==> m * step == 0);
    }
}

/// The draws of a shower: the first column within the first 100 units, the
/// end between 810 and 900, the spacing between 90 and 120.
pub open spec fn shower_draw(x0: int, xe: int, st: int) -> bool {
    &&& 0 <= x0 < 100 * POS_SCALE
    &&& 810 * POS_SCALE <= xe < 900 * POS_SCALE
    &&& 90 * POS_SCALE <= st < 120 * POS_SCALE
}

/// `r` are entities new in `w1`, one fireball per column of the shower
/// drawn as `x0`, `xe`, `st`, each falling at between 240 and 260.
pub open spec fn is_shower(
    w0: Seq<Slot>,
    w1: Seq<Slot>,
    r: Seq<Entity>,
    x0: int,
    xe: int,
    st: int,
) -> bool {
    &&& r.len() == shower_columns(x0, xe, st).len()
    &&& forall|k: int|
        0 <= k < r.len() ==> live_in(w1, #[trigger] r[k]) && !live_in(w0, r[k]) && exists|vy: int|
            240 * VEL_SCALE <= vy < 260 * VEL_SCALE && #[trigger] is_falling_fireball(
                w1[r[k].index as int].data,
                shower_columns(x0, xe, st)[k],
                vy,
            )
}

/// A shower stays what it is while the entities that were live are left
/// alone.
pub proof fn lemma_shower_kept(
    w0: Seq<Slot>,
    w1: Seq<Slot>,
    w2: Seq<Slot>,
    r: Seq<Entity>,
    x0: int,
    xe: int,
    st: int,
)
    requires
        is_shower(w0, w1, r, x0, xe, st),
        w2.len() >= w1.len(),
        forall|i: int| 0 <= i < w1.len() && w1[i].alive ==> #[trigger] w2[i] == w1[i],
    ensures
        is_shower(w0, w2, r, x0, xe, st),
{
    assert forall|k: int| 0 <= k < r.len() implies live_in(w2, #[trigger] r[k]) && !live_in(w0, r[k])
        && exists|vy: int| 240 * VEL_SCALE <= vy < 260 * VEL_SCALE && #[trigger] is_falling_fireball(
            w2[r[k].index as int].data,
            shower_columns(x0, xe, st)[k],
            vy,
        ) by {
        assert(live_in(w1, r[k]));
        assert(w2[r[k].index as int] == w1[r[k].index as int]);
    }
}

/// A shower's column count for any draw: six to ten.
proof fn lemma_shower_size(x0: int, xe: int, st: int)
    requires
        shower_draw(x0, xe, st),
    ensures
        6 <= shower_columns(x0, xe, st).len() <= 10,
{
    lemma_columns_len(x0, xe, st);
    let n = shower_columns(x0, xe, st).len() as int;
    assert(n >= 6) by (nonlinear_arith)
        requires
            n * st >= xe - x0,
            xe - x0 > 710 * POS_SCALE,
            0 < st < 120 * POS_SCALE,
            n >= 0,
    ;
    assert(n <= 10) by (nonlinear_arith)
        requires
            n > 0 ==> (n - 1) * st < xe - x0,
            xe - x0 < 900 * POS_SCALE,
            st >= 90 * POS_SCALE,
            n >= 0,
    ;
}

/// Adds a shower of falling fireballs: the first column is drawn within the
/// first 100 units, the end between 810 and 900, the spacing between 90 and
/// 120, and each speed within 10 of 250.
pub fn create_fireball_shower(world: &mut World) -> (r: Vec<Entity>)
    ensures
        old(world)@.len() + 10 < usize::MAX ==> 6 <= r@.len() <= 10,
        old(world)@.len() + 10 < usize::MAX ==> exists|x0: int, xe: int, st: int|
            shower_draw(x0, xe, st) && #[trigger] is_shower(old(world)@, final(world)@, r@, x0, xe, st),
        final(world)@.len() <= old(world)@.len() + r@.len(),
        forall|k: int|
            0 <= k < r@.len() ==> live_in(final(world)@, #[trigger] r@[k]) && !live_in(
                old(world)@,
                r@[k],
            ) && is_shower_fireball(final(world)@[r@[k].index as int].data),
        forall|i: int|
            0 <= i < old(world)@.len() && (forall|k: int| 0 <= k < r@.len() ==> (#[trigger] r@[k]).index != i)
                ==> #[trigger] final(world)@[i] == old(world)@[i],
        forall|i: int|
            0 <= i < old(world)@.len() && old(world)@[i].alive ==> #[trigger] final(world)@[i]
                == old(world)@[i],
        final(world)@.len() >= old(world)@.len(),
{
    let x_init = random_in(0, 100) * POS_SCALE;
    let x_end = random_in(810, 900) * POS_SCALE;
    let step = random_in(90, 120) * POS_SCALE;
    let ghost cols = shower_columns(x_init as int, x_end as int, step as int);
    let mut jitters: Vec<i64> = Vec::new();
    let mut x = x_init;
    while x < x_end
        invariant
            90 * POS_SCALE <= step < 120 * POS_SCALE,
            x_end < 900 * POS_SCALE,
            x_init <= x <= x_end + step,
            cols == shower_columns(x_init as int, x_end as int, step as int),
            jitters@.len() + shower_columns(x as int, x_end as int, step as int).len() == cols.len(),
            forall|j: int| 0 <= j < jitters@.len() ==> -10 * VEL_SCALE <= #[trigger] jitters@[j] < 10 * VEL_SCALE,
        decreases (if x < x_end {
            x_end - x
        } else {
            0
        }),
    {
        assert(shower_columns(x as int, x_end as int, step as int).len() == 1 + shower_columns(
            x + step,
            x_end as int,
            step as int,
        ).len());
        let j = random_in(-10 * VEL_SCALE, 10 * VEL_SCALE);
        jitters.push(j);
        x = x + step;
    }
    proof {
        lemma_shower_size(x_init as int, x_end as int, step as int);
    }
    if world.len() >= usize::MAX - jitters.len() {
        return Vec::new();
    }
    let ghost w0 = world@;
    let r = create_fireball_shower_with(world, x_init, x_end, step, &jitters);
    proof {
        lemma_columns_in_range(x_init as int, x_end as int, step as int);
        assert forall|k: int| 0 <= k < r@.len() implies live_in(world@, #[trigger] r@[k]) && !live_in(w0, r@[k])
            && exists|vy: int| 240 * VEL_SCALE <= vy < 260 * VEL_SCALE && #[trigger] is_falling_fireball(
                world@[r@[k].index as int].data,
                shower_columns(x_init as int, x_end as int, step as int)[k],
                vy,
            ) by {
            assert(is_falling_fireball(world@[r@[k].index as int].data, cols[k], 250 * VEL_SCALE + jitters@[k]));
        }
        assert(shower_draw(x_init as int, x_end as int, step as int));
        assert(is_shower(w0, world@, r@, x_init as int, x_end as int, step as int));
        assert forall|k: int| 0 <= k < r@.len() implies is_shower_fireball(
            world@[(#[trigger] r@[k]).index as int].data,
        ) by {
            let c = world@[r@[k].index as int].data;
            assert(is_falling_fireball(c, cols[k], 250 * VEL_SCALE + jitters@[k]));
        }
    }
    r
}

} // verus!
