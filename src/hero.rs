use vstd::prelude::*;

use crate::component::{fresh_render, kinds, Components, Entity, Hero, Position, Render, Velocity};
use crate::geom::{
    centre_in_range, with_center, with_center_spec, Rectangle, Size, Vector, HERO_FEET_HEIGHT,
    POS_SCALE,
};
use crate::world::{live_in, spawned, World};

verus! {

/// The hero's sprite centred on `position`, cut into the body above and the
/// feet band at the bottom.
pub open spec fn hero_areas(size: Size, position: Vector) -> (Rectangle, Rectangle) {
    let a = with_center_spec(size, position);
    (
        Rectangle { x: a.x, y: a.y, width: a.width, height: (a.height - HERO_FEET_HEIGHT) as i64 },
        Rectangle {
            x: a.x,
            y: (a.y + a.height - HERO_FEET_HEIGHT) as i64,
            width: a.width,
            height: HERO_FEET_HEIGHT,
        },
    )
}

/// Splits the hero's area into its body and its feet.
pub fn get_hero_body_feet_area(size: Size, position: Vector) -> (r: (Rectangle, Rectangle))
    requires
        size.valid(),
        centre_in_range(position),
    ensures
        r == hero_areas(size, position),
        r.0.bounded(),
        r.1.bounded(),
{
    let a = with_center(size, position);
    (
        Rectangle { x: a.x, y: a.y, width: a.width, height: a.height - HERO_FEET_HEIGHT },
        Rectangle {
            x: a.x,
            y: a.y + a.height - HERO_FEET_HEIGHT,
            width: a.width,
            height: HERO_FEET_HEIGHT,
        },
    )
}

/// The hero at the start: five lives, no score, solid, standing on the
/// ground at (425, 425), kept on screen by the bounds check.
pub open spec fn is_new_hero(c: Components) -> bool {
    &&& c.hero == Some(
        Hero {
            lives: 5,
            score: 0,
            blinking: false,
            render: true,
            reset_position: false,
            blink_timer: 0,
        },
    )
    &&& c.position == Some(Position { position: Vector { x: (425 * POS_SCALE) as i64, y: (425 * POS_SCALE) as i64 } })
    &&& c.velocity == Some(Velocity { velocity: Vector { x: 0, y: 0 } })
    &&& fresh_render(c.render, "heroi"@)
    &&& c.out_of_bounds
    &&& kinds(c, false, false, false, false, false, true)
}

/// Adds the hero.
pub fn create_hero(world: &mut World) -> (r: Entity)
    requires
        old(world)@.len() < usize::MAX,
    ensures
        !live_in(old(world)@, r),
        live_in(final(world)@, r),
        spawned(old(world)@, final(world)@, r),
        is_new_hero(final(world)@[r.index as int].data),
{
    let mut c = Components::empty();
    c.hero = Some(
        Hero {
            lives: 5,
            score: 0,
            blinking: false,
            render: true,
            reset_position: false,
            blink_timer: 0,
        },
    );
    c.out_of_bounds = true;
    c.position = Some(Position { position: Vector { x: 425 * POS_SCALE, y: 425 * POS_SCALE } });
    c.velocity = Some(Velocity { velocity: Vector { x: 0, y: 0 } });
    c.render = Some(Render::new("heroi"));
    world.create_entity(c)
}

} // verus!
