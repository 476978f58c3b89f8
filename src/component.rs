use vstd::prelude::*;

use crate::geom::{Size, Vector};

verus! {

/// Where an entity stands: the centre of its sprite.
#[derive(Clone, Copy, Debug, PartialEq, Eq, Structural)]
pub struct Position {
    pub position: Vector,
}

/// How fast an entity moves, in milli-units per second.
#[derive(Clone, Copy, Debug, PartialEq, Eq, Structural)]
pub struct Velocity {
    pub velocity: Vector,
}

/// What an entity looks like. `bounding_box` stays `None` until the sprite
/// has been drawn once; until then the entity has no shape to collide with.
#[derive(Clone, Debug)]
pub struct Render {
    pub sprite: String,
    pub bounding_box: Option<Size>,
}

/// An opponent of the hero, worth `score` when stomped.
#[derive(Clone, Copy, Debug, PartialEq, Eq, Structural)]
pub struct Enemy {
    pub score: u64,
}

/// An entity that keeps `maximum_fireballs` fireballs of its own in flight.
/// The launch speed of the fireball in slot `k` is
/// `coefficient_1 * (k + 1) + coefficient_2`, in thousandths of the
/// distance to its aim point per second.
#[derive(Clone, Debug)]
pub struct Shooter {
    pub projectile_sprite: String,
    pub maximum_fireballs: u32,
    pub fireball_amount: u32,
    pub coefficient_1: i64,
    pub coefficient_2: i64,
}

/// The boss: it survives `lives` stomps and turns angry once its lives have
/// come down to `normal_lives`.
#[derive(Clone, Copy, Debug, PartialEq, Eq, Structural)]
pub struct Boss {
    pub lives: u32,
    pub normal_lives: u32,
    pub angry: bool,
}

/// A one-shot swap of the sprite to `new_sprite`, done when `do_change` is set.
#[derive(Clone, Debug)]
pub struct ChangeSprite {
    pub new_sprite: String,
    pub do_change: bool,
}

/// A handle on an entity: the slot it lives in and the generation of that
/// slot when it was created.
#[derive(Clone, Copy, Debug, PartialEq, Eq, Structural)]
pub struct Entity {
    pub index: usize,
    pub generation: u64,
}

/// A projectile; `owner_id` is the shooter that launched it, if any. The
/// owner is looked up, never assumed to be alive.
#[derive(Clone, Copy, Debug, PartialEq, Eq, Structural)]
pub struct Fireball {
    pub owner_id: Option<Entity>,
}

/// A pickup that gives one life and `score` points.
#[derive(Clone, Copy, Debug, PartialEq, Eq, Structural)]
pub struct Healing {
    pub score: u64,
}

/// The player. `blink_timer` counts the milliseconds spent blinking.
#[derive(Clone, Copy, Debug, PartialEq, Eq, Structural)]
pub struct Hero {
    pub lives: u32,
    pub score: u64,
    pub blinking: bool,
    pub render: bool,
    pub reset_position: bool,
    pub blink_timer: u64,
}

/// The values that a label can show.
#[derive(Clone, Copy, Debug, PartialEq, Eq, Structural)]
pub enum LabelVariable {
    Fps,
    Lives,
    Score,
}

/// How a label's text is drawn: a size in points and an RGBA colour.
#[derive(Clone, Copy, Debug, PartialEq, Eq, Structural)]
pub struct FontStyle {
    pub size: u32,
    pub color: u32,
}

/// A piece of on-screen text bound to a value of the shared dictionary.
#[derive(Clone, Copy, Debug, PartialEq, Eq, Structural)]
pub struct Label {
    pub bind_variable: LabelVariable,
    pub font_style: FontStyle,
}

/// Everything attached to one entity. The presence of a component is what
/// gives an entity its kind; `out_of_bounds` and `background` are tags.
#[derive(Clone, Debug)]
pub struct Components {
    pub position: Option<Position>,
    pub velocity: Option<Velocity>,
    pub render: Option<Render>,
    pub enemy: Option<Enemy>,
    pub shooter: Option<Shooter>,
    pub boss: Option<Boss>,
    pub change_sprite: Option<ChangeSprite>,
    pub fireball: Option<Fireball>,
    pub healing: Option<Healing>,
    pub hero: Option<Hero>,
    pub label: Option<Label>,
    pub out_of_bounds: bool,
    pub background: bool,
}

pub open spec fn no_components() -> Components {
    Components {
        position: None,
        velocity: None,
        render: None,
        enemy: None,
        shooter: None,
        boss: None,
        change_sprite: None,
        fireball: None,
        healing: None,
        hero: None,
        label: None,
        out_of_bounds: false,
        background: false,
    }
}

impl Components {
    pub fn empty() -> (r: Components)
        ensures
            r == no_components(),
    {
        Components {
            position: None,
            velocity: None,
            render: None,
            enemy: None,
            shooter: None,
            boss: None,
            change_sprite: None,
            fireball: None,
            healing: None,
            hero: None,
            label: None,
            out_of_bounds: false,
            background: false,
        }
    }
}

impl Render {
    /// A sprite that has not been drawn yet.
    pub fn new(sprite: &str) -> (r: Render)
        ensures
            r.sprite@ == sprite@,
            r.bounding_box is None,
    {
        Render { sprite: sprite.to_string(), bounding_box: None }
    }
}

/// `r` shows `sprite` and has not been drawn yet.
pub open spec fn fresh_render(r: Option<Render>, sprite: Seq<char>) -> bool {
    r matches Some(rr) && rr.sprite@ == sprite && rr.bounding_box is None
}

/// Of the components that mark a kind of entity, `c` holds only those named.
pub open spec fn kinds(
    c: Components,
    enemy: bool,
    shooter: bool,
    boss: bool,
    fireball: bool,
    healing: bool,
    hero: bool,
) -> bool {
    &&& (c.enemy is Some) == enemy
    &&& (c.shooter is Some) == shooter
    &&& (c.boss is Some) == boss
    &&& (c.change_sprite is Some) == boss
    &&& (c.fireball is Some) == fireball
    &&& (c.healing is Some) == healing
    &&& (c.hero is Some) == hero
    &&& c.label is None
    &&& !c.background
}

} // verus!
