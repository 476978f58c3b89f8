use vstd::prelude::*;

use crate::component::{Components, Entity, FontStyle, Render};
use crate::geom::{Size, Vector};
use crate::resources::VariableDictionary;
use crate::system::with_data;
use crate::world::{handle_of, live_in, Slot, World};

verus! {

/// One sprite to draw, centred on `center`, for `entity`.
#[derive(Clone, Debug)]
pub struct DrawCommand {
    pub entity: Entity,
    pub sprite: String,
    pub center: Vector,
}

/// `s` is drawn in the pass of heroes (`heroes`) or in the pass of the rest.
/// A hero is drawn only while its render flag is set.
pub open spec fn drawn(s: Slot, heroes: bool) -> bool {
    &&& s.alive
    &&& s.data.position is Some
    &&& s.data.render is Some
    &&& (s.data.hero is Some) == heroes
    &&& heroes ==> s.data.hero->0.render
}

pub open spec fn draw_of(w: Seq<Slot>, i: int) -> DrawCommand {
    DrawCommand {
        entity: handle_of(w, i),
        sprite: w[i].data.render->0.sprite,
        center: w[i].data.position->0.position,
    }
}

/// The draw calls of one pass over the first `n` slots, in store order.
pub open spec fn draws(w: Seq<Slot>, n: int, heroes: bool) -> Seq<DrawCommand>
    decreases n,
{
    if n <= 0 {
        Seq::empty()
    } else if drawn(w[n - 1], heroes) {
        draws(w, n - 1, heroes).push(draw_of(w, n - 1))
    } else {
        draws(w, n - 1, heroes)
    }
}

/// The draw calls of a frame: everything but the hero first, then the
/// hero on top.
pub open spec fn frame_draws(w: Seq<Slot>) -> Seq<DrawCommand> {
    draws(w, w.len() as int, false).add(draws(w, w.len() as int, true))
}

/// `s` with the size of its sprite recorded.
pub open spec fn with_bounds(s: Slot, size: Size) -> Slot {
    with_data(
        s,
        Components {
            render: Some(Render { bounding_box: Some(size), ..s.data.render->0 }),
            ..s.data
        },
    )
}

/// Lists what is to be drawn; the host draws it and reports each sprite's
/// size back through `cache_bounds`.
pub struct RenderSystem;

impl RenderSystem {
    pub fn new() -> (r: RenderSystem) {
        RenderSystem
    }

    fn pass(world: &World, heroes: bool, out: &mut Vec<DrawCommand>)
        ensures
            final(out)@ == old(out)@.add(draws(world@, world@.len() as int, heroes)),
    {
        let n = world.len();
        let ghost start = out@;
        let mut i: usize = 0;
        while i < n
            invariant
                n == world@.len(),
                i <= n,
                out@ == start.add(draws(world@, i as int, heroes)),
            decreases n - i,
        {
            let s = world.slot(i);
            let is_hero = s.data.hero.is_some();
            let show = match s.data.hero {
                Some(h) => h.render,
                None => true,
            };
            if s.alive && is_hero == heroes && show {
                match (&s.data.render, s.data.position) {
                    (Some(r), Some(p)) => {
                        let cmd = DrawCommand {
                            entity: world.entity_at(i),
                            sprite: r.sprite.clone(),
                            center: p.position,
                        };
                        out.push(cmd);
                        proof {
                            assert(out@ =~= start.add(draws(world@, i + 1, heroes)));
                        }
                    },
                    _ => {
                        proof {
                            assert(draws(world@, i + 1, heroes) == draws(world@, i as int, heroes));
                        }
                    },
                }
            } else {
                proof {
                    assert(draws(world@, i + 1, heroes) == draws(world@, i as int, heroes));
                }
            }
            i = i + 1;
        }
    }

    /// The draw calls of a frame, in the order they are to be made.
    pub fn run(&self, world: &World) -> (r: Vec<DrawCommand>)
        ensures
            r@ == frame_draws(world@),
    {
        let mut out: Vec<DrawCommand> = Vec::new();
        RenderSystem::pass(world, false, &mut out);
        RenderSystem::pass(world, true, &mut out);
        proof {
            assert(out@ =~= frame_draws(world@));
        }
        out
    }

    /// Records the size of the sprite of `e` once it has been drawn; from
    /// then on the entity can collide. A stale handle, or an entity without
    /// a sprite, changes nothing.
    pub fn cache_bounds(world: &mut World, e: Entity, size: Size)
        ensures
            live_in(old(world)@, e) && old(world)@[e.index as int].data.render is Some
                ==> final(world)@ == old(world)@.update(e.index as int, with_bounds(old(world)@[e.index as int], size)),
            !(live_in(old(world)@, e) && old(world)@[e.index as int].data.render is Some)
                ==> final(world)@ == old(world)@,
    {
        if e.index < world.len() && world.slot(e.index).alive && world.slot(e.index).generation
            == e.generation {
            let d = world.data_mut(e.index);
            match &mut d.render {
                Some(r) => {
                    r.bounding_box = Some(size);
                },
                None => {},
            }
        }
    }
}

/// One piece of text to draw: the value bound to a label, or blank when the
/// dictionary has none.
#[derive(Clone, Copy, Debug, PartialEq, Eq, Structural)]
pub struct TextCommand {
    pub value: Option<u64>,
    pub center: Vector,
    pub style: FontStyle,
}

pub open spec fn shows_label(s: Slot) -> bool {
    s.alive && s.data.position is Some && s.data.label is Some
}

/// The texts of the labels among the first `n` slots, in store order.
pub open spec fn label_texts(w: Seq<Slot>, dict: VariableDictionary, n: int) -> Seq<TextCommand>
    decreases n,
{
    if n <= 0 {
        Seq::empty()
    } else if shows_label(w[n - 1]) {
        let l = w[n - 1].data.label->0;
        label_texts(w, dict, n - 1).push(
            TextCommand {
                value: dict.lookup(l.bind_variable),
                center: w[n - 1].data.position->0.position,
                style: l.font_style,
            },
        )
    } else {
        label_texts(w, dict, n - 1)
    }
}

/// Lists the labels to draw with the values they are bound to.
pub struct LabelRenderSystem;

impl LabelRenderSystem {
    pub fn new() -> (r: LabelRenderSystem) {
        LabelRenderSystem
    }

    pub fn run(&self, world: &World, dict: &VariableDictionary) -> (r: Vec<TextCommand>)
        ensures
            r@ == label_texts(world@, *dict, world@.len() as int),
    {
        let n = world.len();
        let mut out: Vec<TextCommand> = Vec::new();
        let mut i: usize = 0;
        while i < n
            invariant
                n == world@.len(),
                i <= n,
                out@ == label_texts(world@, *dict, i as int),
            decreases n - i,
        {
            let s = world.slot(i);
            if s.alive {
                match (s.data.label, s.data.position) {
                    (Some(l), Some(p)) => {
                        out.push(
                            TextCommand {
                                value: dict.get(l.bind_variable),
                                center: p.position,
                                style: l.font_style,
                            },
                        );
                    },
                    _ => {},
                }
            }
            i = i + 1;
        }
        out
    }
}

} // verus!
