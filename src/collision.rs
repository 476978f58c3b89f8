use vstd::prelude::*;

use crate::component::{Boss, Components, Hero};
use crate::enemy::{enemy_areas, get_enemy_head_body_area};
use crate::geom::{
    centre_in_range, overlaps_spec, with_center, with_center_spec, Size, Vector, POS_SCALE,
};
use crate::hero::{get_hero_body_feet_area, hero_areas};
use crate::system::with_data;
use crate::world::{Slot, World};

verus! {

/// What a meeting of the hero and an enemy amounts to.
#[derive(Clone, Copy, Debug, PartialEq, Eq, Structural)]
pub enum Contact {
    /// The hero's feet came down on the enemy's head.
    Stomp,
    /// The two bodies met.
    Hit,
    Nothing,
}

/// The shape of an entity that can collide: the cached size of its sprite
/// and its position. An entity that was never drawn has none, and so has one
/// too far out to be centred without overflow.
pub open spec fn shape_of(s: Slot) -> Option<(Size, Vector)> {
    match (s.data.render, s.data.position) {
        (Some(r), Some(p)) => match r.bounding_box {
            Some(b) => if b.valid() && centre_in_range(p.position) {
                Some((b, p.position))
            } else {
                None
            },
            None => None,
        },
        _ => None,
    }
}

/// A stomp when the hero's feet overlap the enemy's head, else a hit when
/// the bodies overlap, else nothing.
pub open spec fn contact_spec(hs: Size, hp: Vector, es: Size, ep: Vector) -> Contact {
    let (hero_body, hero_feet) = hero_areas(hs, hp);
    let (enemy_head, enemy_body) = enemy_areas(es, ep);
    if overlaps_spec(enemy_head, hero_feet) {
        Contact::Stomp
    } else if overlaps_spec(enemy_body, hero_body) {
        Contact::Hit
    } else {
        Contact::Nothing
    }
}

pub open spec fn shape_ok(o: Option<(Size, Vector)>) -> bool {
    o matches Some((s, p)) ==> s.valid() && centre_in_range(p)
}

pub open spec fn enemy_candidate(s: Slot) -> bool {
    s.alive && s.data.enemy is Some && s.data.hero is None
}

pub open spec fn healing_candidate(s: Slot) -> bool {
    s.alive && s.data.healing is Some && s.data.hero is None
}

pub open spec fn collides_as_hero(s: Slot) -> bool {
    s.alive && s.data.hero is Some
}

/// The hero and the store after the hero met enemy `j`. A stomp awards the
/// enemy's score and removes it; on the boss it also takes one of the boss's
/// lives (removing the boss at none left), sends the hero back to the start
/// and makes it blink. A hit costs the hero a life and makes it blink,
/// unless it is blinking already.
pub open spec fn enemy_step(h: Hero, hero_shape: Option<(Size, Vector)>, w: Seq<Slot>, j: int) -> (
    Hero,
    Seq<Slot>,
) {
    let e = w[j];
    match (hero_shape, shape_of(e)) {
        (Some((hs, hp)), Some((es, ep))) => match contact_spec(hs, hp, es, ep) {
            Contact::Stomp => {
                let score = h.score.saturating_add(e.data.enemy->0.score);
                match e.data.boss {
                    None => (Hero { score, ..h }, w.update(j, Slot { marked: true, ..e })),
                    Some(b) => {
                        let lives = b.lives.saturating_sub(1);
                        let e2 = with_data(e, Components { boss: Some(Boss { lives, ..b }), ..e.data });
                        (
                            Hero { score, reset_position: true, blinking: true, ..h },
                            w.update(j, Slot { marked: e2.marked || lives == 0, ..e2 }),
                        )
                    },
                }
            },
            Contact::Hit => if !h.blinking {
                (Hero { lives: h.lives.saturating_sub(1), blinking: true, ..h }, w)
            } else {
                (h, w)
            },
            Contact::Nothing => (h, w),
        },
        _ => (h, w),
    }
}

/// The enemies from `j` on, in the order of the store. Every enemy is met;
/// once the hero blinks, contacts cost it no further life.
pub open spec fn enemy_pass(
    h: Hero,
    hero_shape: Option<(Size, Vector)>,
    w: Seq<Slot>,
    j: int,
    n: int,
) -> (Hero, Seq<Slot>)
    decreases n - j,
{
    if j >= n {
        (h, w)
    } else if enemy_candidate(w[j]) {
        let (h2, w2) = enemy_step(h, hero_shape, w, j);
        enemy_pass(h2, hero_shape, w2, j + 1, n)
    } else {
        enemy_pass(h, hero_shape, w, j + 1, n)
    }
}

/// A potion whose area overlaps the hero's gives one life and its score,
/// and is removed.
pub open spec fn healing_step(h: Hero, hero_shape: Option<(Size, Vector)>, w: Seq<Slot>, j: int) -> (
    Hero,
    Seq<Slot>,
) {
    let e = w[j];
    match (hero_shape, shape_of(e)) {
        (Some((hs, hp)), Some((es, ep))) => if overlaps_spec(
            with_center_spec(hs, hp),
            with_center_spec(es, ep),
        ) {
            (
                Hero {
                    lives: h.lives.saturating_add(1),
                    score: h.score.saturating_add(e.data.healing->0.score),
                    ..h
                },
                w.update(j, Slot { marked: true, ..e }),
            )
        } else {
            (h, w)
        },
        _ => (h, w),
    }
}

pub open spec fn healing_pass(
    h: Hero,
    hero_shape: Option<(Size, Vector)>,
    w: Seq<Slot>,
    j: int,
    n: int,
) -> (Hero, Seq<Slot>)
    decreases n - j,
{
    if j >= n {
        (h, w)
    } else if healing_candidate(w[j]) {
        let (h2, w2) = healing_step(h, hero_shape, w, j);
        healing_pass(h2, hero_shape, w2, j + 1, n)
    } else {
        healing_pass(h, hero_shape, w, j + 1, n)
    }
}

/// The store after the hero in slot `i` has met every enemy and potion; a
/// hero left with no lives is marked for deletion.
pub open spec fn collide_hero(w: Seq<Slot>, i: int) -> Seq<Slot> {
    if collides_as_hero(w[i]) {
        let shape = shape_of(w[i]);
        let (h1, w1) = enemy_pass(w[i].data.hero->0, shape, w, 0, w.len() as int);
        let (h2, w2) = healing_pass(h1, shape, w1, 0, w.len() as int);
        let s = with_data(w2[i], Components { hero: Some(h2), ..w2[i].data });
        w2.update(i, Slot { marked: s.marked || h2.lives == 0, ..s })
    } else {
        w
    }
}

proof fn lemma_enemy_pass_len(
    h: Hero,
    hero_shape: Option<(Size, Vector)>,
    w: Seq<Slot>,
    j: int,
    n: int,
)
    requires
        0 <= j,
        n <= w.len(),
    ensures
        enemy_pass(h, hero_shape, w, j, n).1.len() == w.len(),
    decreases n - j,
{
    if j < n {
        if enemy_candidate(w[j]) {
            let (h2, w2) = enemy_step(h, hero_shape, w, j);
            lemma_enemy_pass_len(h2, hero_shape, w2, j + 1, n);
        } else {
            lemma_enemy_pass_len(h, hero_shape, w, j + 1, n);
        }
    }
}

proof fn lemma_healing_pass_len(
    h: Hero,
    hero_shape: Option<(Size, Vector)>,
    w: Seq<Slot>,
    j: int,
    n: int,
)
    requires
        0 <= j,
        n <= w.len(),
    ensures
        healing_pass(h, hero_shape, w, j, n).1.len() == w.len(),
    decreases n - j,
{
    if j < n {
        if healing_candidate(w[j]) {
            let (h2, w2) = healing_step(h, hero_shape, w, j);
            lemma_healing_pass_len(h2, hero_shape, w2, j + 1, n);
        } else {
            lemma_healing_pass_len(h, hero_shape, w, j + 1, n);
        }
    }
}

proof fn lemma_collide_hero_len(w: Seq<Slot>, i: int)
    requires
        0 <= i < w.len(),
    ensures
        collide_hero(w, i).len() == w.len(),
{
    if collides_as_hero(w[i]) {
        let shape = shape_of(w[i]);
        let (h1, w1) = enemy_pass(w[i].data.hero->0, shape, w, 0, w.len() as int);
        lemma_enemy_pass_len(w[i].data.hero->0, shape, w, 0, w.len() as int);
        lemma_healing_pass_len(h1, shape, w1, 0, w.len() as int);
    }
}

proof fn lemma_enemy_pass_blinking(
    h: Hero,
    hero_shape: Option<(Size, Vector)>,
    w: Seq<Slot>,
    j: int,
    n: int,
)
    requires
        0 <= j,
        n <= w.len(),
        h.blinking,
    ensures
        enemy_pass(h, hero_shape, w, j, n).0.lives == h.lives,
        enemy_pass(h, hero_shape, w, j, n).0.blinking,
    decreases n - j,
{
    if j < n {
        if enemy_candidate(w[j]) {
            let (h2, w2) = enemy_step(h, hero_shape, w, j);
            lemma_enemy_pass_blinking(h2, hero_shape, w2, j + 1, n);
        } else {
            lemma_enemy_pass_blinking(h, hero_shape, w, j + 1, n);
        }
    }
}

proof fn lemma_enemy_pass_one_life(
    h: Hero,
    hero_shape: Option<(Size, Vector)>,
    w: Seq<Slot>,
    j: int,
    n: int,
)
    requires
        0 <= j,
        n <= w.len(),
    ensures
        enemy_pass(h, hero_shape, w, j, n).0.lives + 1 >= h.lives,
    decreases n - j,
{
    if j < n {
        if enemy_candidate(w[j]) {
            let (h2, w2) = enemy_step(h, hero_shape, w, j);
            if h2.blinking {
                lemma_enemy_pass_blinking(h2, hero_shape, w2, j + 1, n);
            } else {
                lemma_enemy_pass_one_life(h2, hero_shape, w2, j + 1, n);
            }
        } else {
            lemma_enemy_pass_one_life(h, hero_shape, w, j + 1, n);
        }
    }
}

proof fn lemma_healing_pass_lives(
    h: Hero,
    hero_shape: Option<(Size, Vector)>,
    w: Seq<Slot>,
    j: int,
    n: int,
)
    requires
        0 <= j,
        n <= w.len(),
    ensures
        healing_pass(h, hero_shape, w, j, n).0.lives >= h.lives,
        healing_pass(h, hero_shape, w, j, n).0.blinking == h.blinking,
    decreases n - j,
{
    if j < n {
        if healing_candidate(w[j]) {
            let (h2, w2) = healing_step(h, hero_shape, w, j);
            lemma_healing_pass_lives(h2, hero_shape, w2, j + 1, n);
        } else {
            lemma_healing_pass_lives(h, hero_shape, w, j + 1, n);
        }
    }
}

/// A blinking hero loses no life in a collision pass, whatever it runs
/// into, and is still blinking afterwards: a hit counts only against a
/// solid hero.
pub proof fn lemma_blinking_hero_loses_no_life(w: Seq<Slot>, i: int)
    requires
        0 <= i < w.len(),
        collides_as_hero(w[i]),
        w[i].data.hero->0.blinking,
    ensures
        collide_hero(w, i)[i].data.hero->0.lives >= w[i].data.hero->0.lives,
        collide_hero(w, i)[i].data.hero->0.blinking,
{
    let h = w[i].data.hero->0;
    let shape = shape_of(w[i]);
    let n = w.len() as int;
    let (h1, w1) = enemy_pass(h, shape, w, 0, n);
    lemma_enemy_pass_blinking(h, shape, w, 0, n);
    lemma_enemy_pass_len(h, shape, w, 0, n);
    lemma_healing_pass_lives(h1, shape, w1, 0, n);
    lemma_healing_pass_len(h1, shape, w1, 0, n);
}

/// What one meeting does. A stomp gives the enemy's score and never costs a
/// life; it removes an ordinary enemy, and takes one life of the boss,
/// removing the boss when its last life goes. A hit costs a life and starts
/// the blinking, unless the hero is blinking already.
pub proof fn lemma_meeting(h: Hero, hero_shape: Option<(Size, Vector)>, w: Seq<Slot>, j: int)
    requires
        0 <= j < w.len(),
        enemy_candidate(w[j]),
        hero_shape is Some,
        shape_of(w[j]) is Some,
    ensures
        ({
            let (hs, hp) = hero_shape->0;
            let (es, ep) = shape_of(w[j])->0;
            let (h2, w2) = enemy_step(h, hero_shape, w, j);
            let c = contact_spec(hs, hp, es, ep);
            &&& w2.len() == w.len()
            &&& c == Contact::Stomp ==> h2.score == h.score.saturating_add(w[j].data.enemy->0.score)
                && h2.lives == h.lives
            &&& c == Contact::Stomp && w[j].data.boss is None ==> h2.blinking == h.blinking
                && w2 == w.update(j, Slot { marked: true, ..w[j] })
            &&& c == Contact::Stomp && w[j].data.boss is Some ==> h2.blinking && h2.reset_position
                && w2[j].data.boss->0.lives == w[j].data.boss->0.lives.saturating_sub(1)
                && w2[j].marked == (w[j].marked || w[j].data.boss->0.lives <= 1)
            &&& c == Contact::Hit && !h.blinking ==> h2.lives == h.lives.saturating_sub(1) && h2.blinking
                && w2 == w
            &&& (c == Contact::Hit && h.blinking) || c == Contact::Nothing ==> h2 == h && w2 == w
        }),
{
}

/// A collision pass costs the hero at most one life, however many enemies
/// its body meets.
pub proof fn lemma_one_life_per_pass(w: Seq<Slot>, i: int)
    requires
        0 <= i < w.len(),
        collides_as_hero(w[i]),
    ensures
        collide_hero(w, i)[i].data.hero->0.lives + 1 >= w[i].data.hero->0.lives,
{
    let h = w[i].data.hero->0;
    let shape = shape_of(w[i]);
    let n = w.len() as int;
    let (h1, w1) = enemy_pass(h, shape, w, 0, n);
    lemma_enemy_pass_one_life(h, shape, w, 0, n);
    lemma_enemy_pass_len(h, shape, w, 0, n);
    lemma_healing_pass_lives(h1, shape, w1, 0, n);
    lemma_healing_pass_len(h1, shape, w1, 0, n);
}

/// Two stores agree on which slots are live and which hold a hero.
pub open spec fn same_heroes(a: Seq<Slot>, b: Seq<Slot>) -> bool {
    &&& a.len() == b.len()
    &&& forall|k: int| 0 <= k < a.len() ==> (#[trigger] a[k]).alive == b[k].alive && a[k].data.hero == b[k].data.hero
}

proof fn lemma_enemy_pass_heroes(h: Hero, hero_shape: Option<(Size, Vector)>, w: Seq<Slot>, j: int, n: int)
    requires
        0 <= j,
        n <= w.len(),
    ensures
        same_heroes(w, enemy_pass(h, hero_shape, w, j, n).1),
    decreases n - j,
{
    if j < n {
        if enemy_candidate(w[j]) {
            let (h2, w2) = enemy_step(h, hero_shape, w, j);
            lemma_enemy_pass_heroes(h2, hero_shape, w2, j + 1, n);
            assert(same_heroes(w, w2));
            let r = enemy_pass(h2, hero_shape, w2, j + 1, n).1;
            assert forall|k: int| 0 <= k < w.len() implies (#[trigger] w[k]).alive == r[k].alive
                && w[k].data.hero == r[k].data.hero by {
                assert(w2[k].alive == w[k].alive);
                assert(r[k].alive == w2[k].alive);
            }
        } else {
            lemma_enemy_pass_heroes(h, hero_shape, w, j + 1, n);
        }
    }
}

proof fn lemma_healing_pass_heroes(h: Hero, hero_shape: Option<(Size, Vector)>, w: Seq<Slot>, j: int, n: int)
    requires
        0 <= j,
        n <= w.len(),
    ensures
        same_heroes(w, healing_pass(h, hero_shape, w, j, n).1),
    decreases n - j,
{
    if j < n {
        if healing_candidate(w[j]) {
            let (h2, w2) = healing_step(h, hero_shape, w, j);
            lemma_healing_pass_heroes(h2, hero_shape, w2, j + 1, n);
            assert(same_heroes(w, w2));
            let r = healing_pass(h2, hero_shape, w2, j + 1, n).1;
            assert forall|k: int| 0 <= k < w.len() implies (#[trigger] w[k]).alive == r[k].alive
                && w[k].data.hero == r[k].data.hero by {
                assert(w2[k].alive == w[k].alive);
                assert(r[k].alive == w2[k].alive);
            }
        } else {
            lemma_healing_pass_heroes(h, hero_shape, w, j + 1, n);
        }
    }
}

proof fn lemma_collide_hero_heroes(w: Seq<Slot>, i: int)
    requires
        0 <= i < w.len(),
    ensures
        forall|k: int| 0 <= k < w.len() && k != i ==> (#[trigger] collide_hero(w, i)[k]).alive == w[k].alive
            && collide_hero(w, i)[k].data.hero == w[k].data.hero,
        collide_hero(w, i).len() == w.len(),
{
    lemma_collide_hero_len(w, i);
    if collides_as_hero(w[i]) {
        let shape = shape_of(w[i]);
        let n = w.len() as int;
        let (h1, w1) = enemy_pass(w[i].data.hero->0, shape, w, 0, n);
        lemma_enemy_pass_heroes(w[i].data.hero->0, shape, w, 0, n);
        lemma_healing_pass_heroes(h1, shape, w1, 0, n);
        let (h2, w2) = healing_pass(h1, shape, w1, 0, n);
        assert forall|k: int| 0 <= k < w.len() && k != i implies (#[trigger] collide_hero(w, i)[k]).alive
            == w[k].alive && collide_hero(w, i)[k].data.hero == w[k].data.hero by {
            assert(collide_hero(w, i)[k] == w2[k]);
            assert(w1[k].alive == w[k].alive);
        }
    }
}

proof fn lemma_collide_from_single(w: Seq<Slot>, i: int, m: int, n: int)
    requires
        0 <= m <= n,
        n == w.len(),
        0 <= i < n,
        forall|k: int| 0 <= k < n && k != i ==> !collides_as_hero(#[trigger] w[k]),
    ensures
        collide_from(w, m, n) == if m <= i {
            collide_hero(w, i)
        } else {
            w
        },
    decreases n - m,
{
    if m < n {
        if m == i {
            lemma_collide_hero_heroes(w, i);
            let w2 = collide_hero(w, i);
            assert forall|k: int| 0 <= k < n && k != i implies !collides_as_hero(#[trigger] w2[k]) by {
                assert(w2[k].alive == w[k].alive && w2[k].data.hero == w[k].data.hero);
            }
            lemma_collide_from_single(w2, i, m + 1, n);
        } else {
            assert(collide_hero(w, m) == w);
            lemma_collide_from_single(w, i, m + 1, n);
        }
    }
}

/// With one hero in the store, a collision pass is that hero's pass: it
/// loses at most one life, and none while it blinks.
pub proof fn lemma_single_hero_pass(w: Seq<Slot>, i: int)
    requires
        0 <= i < w.len(),
        collides_as_hero(w[i]),
        forall|k: int| 0 <= k < w.len() && k != i ==> !collides_as_hero(#[trigger] w[k]),
    ensures
        collide_from(w, 0, w.len() as int) == collide_hero(w, i),
        collide_from(w, 0, w.len() as int)[i].data.hero->0.lives + 1 >= w[i].data.hero->0.lives,
        w[i].data.hero->0.blinking ==> collide_from(w, 0, w.len() as int)[i].data.hero->0.lives
            >= w[i].data.hero->0.lives,
{
    lemma_collide_from_single(w, i, 0, w.len() as int);
    lemma_one_life_per_pass(w, i);
    if w[i].data.hero->0.blinking {
        lemma_blinking_hero_loses_no_life(w, i);
    }
}

/// Every hero from slot `i` on, in the order of the store.
pub open spec fn collide_from(w: Seq<Slot>, i: int, n: int) -> Seq<Slot>
    decreases n - i,
{
    if i >= n {
        w
    } else {
        collide_from(collide_hero(w, i), i + 1, n)
    }
}

/// Lets the hero meet enemies and potions: stomps, hits and pickups.
pub struct CollisionSystem;

/// The largest sprite side that takes part in collisions.
pub const MAX_SIDE: i64 = POS_SCALE * 1_000_000;

/// The largest coordinate on which a sprite can be centred.
pub const MAX_CENTRE: i64 = 0x1000_0000_0000_0000;

impl CollisionSystem {
    /// The collision shape of slot `s`, if it has one.
    pub fn shape(s: &Slot) -> (r: Option<(Size, Vector)>)
        ensures
            r == shape_of(*s),
    {
        match (&s.data.render, s.data.position) {
            (Some(r), Some(p)) => match r.bounding_box {
                Some(b) => {
                    let c = p.position;
                    if 0 <= b.width && b.width <= MAX_SIDE && 0 <= b.height && b.height <= MAX_SIDE
                        && -MAX_CENTRE <= c.x && c.x <= MAX_CENTRE && -MAX_CENTRE <= c.y && c.y
                        <= MAX_CENTRE {
                        Some((b, c))
                    } else {
                        None
                    }
                },
                None => None,
            },
            _ => None,
        }
    }

    /// Decides between stomp, hit and nothing for one hero and one enemy.
    /// Exactly one of the three comes out, and a stomp wins over a hit when
    /// the feet meet the head and the bodies meet too.
    pub fn contact(hs: Size, hp: Vector, es: Size, ep: Vector) -> (r: Contact)
        requires
            hs.valid(),
            es.valid(),
            centre_in_range(hp),
            centre_in_range(ep),
        ensures
            r == contact_spec(hs, hp, es, ep),
            (r == Contact::Stomp) == overlaps_spec(enemy_areas(es, ep).0, hero_areas(hs, hp).1),
            (r == Contact::Hit) == (!overlaps_spec(enemy_areas(es, ep).0, hero_areas(hs, hp).1)
                && overlaps_spec(enemy_areas(es, ep).1, hero_areas(hs, hp).0)),
            (r == Contact::Nothing) == (!overlaps_spec(enemy_areas(es, ep).0, hero_areas(hs, hp).1)
                && !overlaps_spec(enemy_areas(es, ep).1, hero_areas(hs, hp).0)),
    {
        let (hero_body, hero_feet) = get_hero_body_feet_area(hs, hp);
        let (enemy_head, enemy_body) = get_enemy_head_body_area(es, ep);
        if enemy_head.overlaps(&hero_feet) {
            Contact::Stomp
        } else if enemy_body.overlaps(&hero_body) {
            Contact::Hit
        } else {
            Contact::Nothing
        }
    }

    fn hero_enemy_collision(
        hero: &mut Hero,
        hero_shape: Option<(Size, Vector)>,
        world: &mut World,
        j: usize,
    )
        requires
            shape_ok(hero_shape),
            j < old(world)@.len(),
            enemy_candidate(old(world)@[j as int]),
        ensures
            (*final(hero), final(world)@) == enemy_step(*old(hero), hero_shape, old(world)@, j as int),
    {
        let enemy_shape = CollisionSystem::shape(world.slot(j));
        match (hero_shape, enemy_shape) {
            (Some((hs, hp)), Some((es, ep))) => {
                let c = CollisionSystem::contact(hs, hp, es, ep);
                match c {
                    Contact::Stomp => {
                        let reward = match world.slot(j).data.enemy {
                            Some(en) => en.score,
                            None => 0,
                        };
                        hero.score = hero.score.saturating_add(reward);
                        match world.slot(j).data.boss {
                            None => {
                                world.mark_at(j);
                            },
                            Some(b) => {
                                let lives = b.lives.saturating_sub(1);
                                let d = world.data_mut(j);
                                d.boss = Some(Boss { lives, ..b });
                                hero.reset_position = true;
                                hero.blinking = true;
                                if lives == 0 {
                                    world.mark_at(j);
                                }
                            },
                        }
                    },
                    Contact::Hit => {
                        if !hero.blinking {
                            hero.lives = hero.lives.saturating_sub(1);
                            hero.blinking = true;
                        }
                    },
                    Contact::Nothing => {},
                }
            },
            _ => {},
        }
    }

    fn hero_healing_collision(
        hero: &mut Hero,
        hero_shape: Option<(Size, Vector)>,
        world: &mut World,
        j: usize,
    )
        requires
            shape_ok(hero_shape),
            j < old(world)@.len(),
            healing_candidate(old(world)@[j as int]),
        ensures
            (*final(hero), final(world)@) == healing_step(*old(hero), hero_shape, old(world)@, j as int),
    {
        let other_shape = CollisionSystem::shape(world.slot(j));
        match (hero_shape, other_shape) {
            (Some((hs, hp)), Some((es, ep))) => {
                let hero_box = with_center(hs, hp);
                let healing_box = with_center(es, ep);
                if hero_box.overlaps(&healing_box) {
                    let reward = match world.slot(j).data.healing {
                        Some(he) => he.score,
                        None => 0,
                    };
                    hero.lives = hero.lives.saturating_add(1);
                    hero.score = hero.score.saturating_add(reward);
                    world.mark_at(j);
                }
            },
            _ => {},
        }
    }

    fn collide_hero_at(world: &mut World, i: usize)
        requires
            i < old(world)@.len(),
        ensures
            final(world)@ == collide_hero(old(world)@, i as int),
    {
        let n = world.len();
        let s = world.slot(i);
        if !s.alive {
            return;
        }
        let mut hero = match s.data.hero {
            Some(h) => h,
            None => {
                return;
            },
        };
        let shape = CollisionSystem::shape(s);
        let ghost h0 = hero;
        let ghost w0 = world@;
        let mut j: usize = 0;
        while j < n
            invariant
                j <= n,
                enemy_pass(hero, shape, world@, j as int, n as int) == enemy_pass(
                    h0,
                    shape,
                    w0,
                    0,
                    n as int,
                ),
                world@.len() == n,
                i < n,
                w0.len() == n,
                shape_ok(shape),
                world@[i as int] == w0[i as int],
                collides_as_hero(w0[i as int]),
            decreases n - j,
        {
            let s = world.slot(j);
            if s.alive && s.data.enemy.is_some() && s.data.hero.is_none() {
                CollisionSystem::hero_enemy_collision(&mut hero, shape, world, j);
            }
            j = j + 1;
        }
        let ghost h1 = hero;
        let ghost w1 = world@;
        let mut j: usize = 0;
        while j < n
            invariant
                world@.len() == n,
                i < n,
                j <= n,
                w0.len() == n,
                shape_ok(shape),
                world@[i as int] == w0[i as int],
                collides_as_hero(w0[i as int]),
                healing_pass(hero, shape, world@, j as int, n as int) == healing_pass(
                    h1,
                    shape,
                    w1,
                    0,
                    n as int,
                ),
            decreases n - j,
        {
            let s = world.slot(j);
            if s.alive && s.data.healing.is_some() && s.data.hero.is_none() {
                CollisionSystem::hero_healing_collision(&mut hero, shape, world, j);
            }
            j = j + 1;
        }
        let d = world.data_mut(i);
        d.hero = Some(hero);
        if hero.lives == 0 {
            world.mark_at(i);
        }
    }

    /// Runs every hero, in the order of the store, against the enemies and
    /// the potions. Deletions are only marked.
    pub fn run(&self, world: &mut World)
        ensures
            final(world)@ == collide_from(old(world)@, 0, old(world)@.len() as int),
    {
        let n = world.len();
        let mut i: usize = 0;
        while i < n
            invariant
                world@.len() == n,
                n == old(world)@.len(),
                i <= n,
                collide_from(world@, i as int, n as int) == collide_from(old(world)@, 0, n as int),
            decreases n - i,
        {
            proof {
                lemma_collide_hero_len(world@, i as int);
            }
            CollisionSystem::collide_hero_at(world, i);
            i = i + 1;
        }
    }
}

} // verus!
