use vstd::prelude::*;

use crate::component::{fresh_render, kinds, Components, Entity, Healing, Position, Render, Velocity};
use crate::geom::{Vector, POS_SCALE, VEL_SCALE};
use crate::random::random_in;
use crate::world::{live_in, spawned, World};

verus! {

/// A potion falling from above the screen at `x`, worth one life and 50.
pub open spec fn is_potion(c: Components, x: int) -> bool {
    &&& c.position == Some(Position { position: Vector { x: x as i64, y: (-100 * POS_SCALE) as i64 } })
    &&& c.velocity == Some(Velocity { velocity: Vector { x: 0, y: (250 * VEL_SCALE) as i64 } })
    &&& fresh_render(c.render, "potion"@)
    &&& c.healing == Some(Healing { score: 50 })
    &&& c.out_of_bounds
    &&& kinds(c, false, false, false, false, true, false)
}

/// Adds a potion falling at `x`.
pub fn spawn_healing_potion(world: &mut World, x: i64) -> (r: Entity)
    requires
        old(world)@.len() < usize::MAX,
    ensures
        !live_in(old(world)@, r),
        live_in(final(world)@, r),
        spawned(old(world)@, final(world)@, r),
        is_potion(final(world)@[r.index as int].data, x as int),
{
    let mut c = Components::empty();
    c.out_of_bounds = true;
    c.position = Some(Position { position: Vector { x, y: -100 * POS_SCALE } });
    c.velocity = Some(Velocity { velocity: Vector { x: 0, y: 250 * VEL_SCALE } });
    c.render = Some(Render::new("potion"));
    c.healing = Some(Healing { score: 50 });
    world.create_entity(c)
}

/// Adds a potion at a column drawn between 50 and 750.
pub fn create_healing_potion(world: &mut World) -> (r: Entity)
    requires
        old(world)@.len() < usize::MAX,
    ensures
        !live_in(old(world)@, r),
        live_in(final(world)@, r),
        spawned(old(world)@, final(world)@, r),
        exists|x: int|
            50 * POS_SCALE <= x < 750 * POS_SCALE && #[trigger] is_potion(
                final(world)@[r.index as int].data,
                x,
            ),
{
    let x = random_in(50 * POS_SCALE, 750 * POS_SCALE);
    spawn_healing_potion(world, x)
}

} // verus!
