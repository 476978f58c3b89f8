use eangine::collision::{CollisionSystem, Contact};
use eangine::component::{Components, Entity, Hero, Position, Velocity};
use eangine::enemy::{create_boss, spawn_walker};
use eangine::fireball::FireballSystem;
use eangine::geom::{Size, Vector, POS_SCALE, VEL_SCALE};
use eangine::healing::spawn_healing_potion;
use eangine::hero::create_hero;
use eangine::render::RenderSystem;
use eangine::resources::{DeltaTime, PressedKeys};
use eangine::scene::{check_outcome, Outcome};
use eangine::system::{HeroBlinkingSystem, HeroControlSystem, OutOfBoundsSystem, WalkSystem};
use eangine::world::World;

const P: i64 = POS_SCALE;

/// Stands in for the sprite atlas: the size of each sprite, in world units.
fn sprite_size(name: &str) -> Option<Size> {
    let (w, h) = match name {
        "heroi" => (40, 50),
        "andador" | "andador_flipped" => (40, 2),
        "chefe" | "chefeapelao" => (60, 40),
        "potion" => (20, 20),
        _ => return None,
    };
    Some(Size { width: w * P, height: h * P })
}

/// Draws a frame: every drawn sprite gets its size recorded.
fn draw(world: &mut World) {
    let cmds = RenderSystem::new().run(world);
    for c in cmds {
        if let Some(s) = sprite_size(&c.sprite) {
            RenderSystem::cache_bounds(world, c.entity, s);
        }
    }
}

fn hero_of(world: &World, e: Entity) -> Hero {
    world.get(e).unwrap().hero.unwrap()
}

fn position_of(world: &World, e: Entity) -> Vector {
    world.get(e).unwrap().position.unwrap().position
}

fn tick(world: &mut World, keys: PressedKeys, ms: u64) {
    let dt = DeltaTime { millis: ms };
    HeroControlSystem.run(world, keys);
    WalkSystem.run(world, dt);
    CollisionSystem.run(world);
    OutOfBoundsSystem.run(world);
    HeroBlinkingSystem.run(world, dt);
    world.flush_deletions();
    draw(world);
}

#[test]
fn walker_is_stomped_for_one_hundred() {
    let mut world = World::new();
    let hero = create_hero(&mut world);
    let walker = spawn_walker(&mut world, true);
    assert_eq!(position_of(&world, hero), Vector { x: 425 * P, y: 425 * P });
    assert_eq!(position_of(&world, walker), Vector { x: -50 * P, y: 432 * P });
    assert_eq!(world.get(walker).unwrap().velocity.unwrap().velocity, Vector { x: 125 * VEL_SCALE, y: 0 });
    assert_eq!(hero_of(&world, hero).lives, 5);
    draw(&mut world);
    let keys = PressedKeys::new();
    let mut ticks = 0;
    while world.get(walker).is_some() && ticks < 1000 {
        tick(&mut world, keys, 20);
        ticks += 1;
    }
    assert!(world.get(walker).is_none());
    let h = hero_of(&world, hero);
    assert_eq!(h.score, 100);
    assert_eq!(h.lives, 5);
    assert!(!h.blinking);
}

#[test]
fn boss_turns_angry_once_and_falls_after_ten_stomps() {
    let mut world = World::new();
    let hero = create_hero(&mut world);
    let boss = create_boss(&mut world);
    draw(&mut world);
    let keys = PressedKeys::new();
    // right above the boss's head: the feet band meets the head band
    let above_head = Vector { x: 748 * P + P / 2, y: 428 * P - 20 * P - 25 * P + 5 * P };
    let mut angry_turns = 0;
    for stomp in 1..=10u32 {
        world.data_mut(hero.index).position = Some(Position { position: above_head });
        world.data_mut(hero.index).velocity = Some(Velocity { velocity: Vector { x: 0, y: 0 } });
        let before = hero_of(&world, hero).score;
        CollisionSystem.run(&mut world);
        world.flush_deletions();
        let h = hero_of(&world, hero);
        assert_eq!(h.score, before + 300);
        assert!(h.reset_position);
        assert!(h.blinking);
        assert_eq!(h.lives, 5);
        if stomp < 10 {
            assert_eq!(world.get(boss).unwrap().boss.unwrap().lives, 10 - stomp);
            let was_angry = world.get(boss).unwrap().boss.unwrap().angry;
            FireballSystem.run(&mut world);
            let b = world.get(boss).unwrap().boss.unwrap();
            if b.angry && !was_angry {
                angry_turns += 1;
            }
            assert_eq!(b.angry, stomp >= 5);
            let max = world.get(boss).unwrap().shooter.as_ref().unwrap().maximum_fireballs;
            assert_eq!(max, if stomp >= 5 { 4 } else { 2 });
            if stomp == 5 {
                assert_eq!(b.lives, 5);
                assert_eq!(world.get(boss).unwrap().render.as_ref().unwrap().sprite, "chefeapelao");
            }
            draw(&mut world);
            // the hero is sent back, then waits out its blinking
            HeroControlSystem.run(&mut world, keys);
            assert_eq!(position_of(&world, hero), Vector { x: 15 * P, y: 300 * P });
            HeroBlinkingSystem.run(&mut world, DeltaTime { millis: 1300 });
            assert!(!hero_of(&world, hero).blinking);
        }
    }
    assert_eq!(angry_turns, 1);
    assert!(world.get(boss).is_none());
    assert_eq!(check_outcome(&world, 20, 20), Some(Outcome::Victory));
    assert_eq!(check_outcome(&world, 19, 20), None);
}

#[test]
fn potion_reaches_the_threshold_after_three_point_two_seconds() {
    let mut world = World::new();
    let potion = spawn_healing_potion(&mut world, 400 * P);
    assert_eq!(position_of(&world, potion).y, -100 * P);
    for _ in 0..16 {
        WalkSystem.run(&mut world, DeltaTime { millis: 200 });
        OutOfBoundsSystem.run(&mut world);
        world.flush_deletions();
    }
    assert_eq!(position_of(&world, potion), Vector { x: 400 * P, y: 700 * P });
    WalkSystem.run(&mut world, DeltaTime { millis: 1 });
    OutOfBoundsSystem.run(&mut world);
    world.flush_deletions();
    assert!(world.get(potion).is_none());
}

#[test]
fn walk_moves_by_velocity_times_delta() {
    let mut world = World::new();
    let mut c = Components::empty();
    c.position = Some(Position { position: Vector { x: P, y: 2 * P } });
    c.velocity = Some(Velocity { velocity: Vector { x: 3 * VEL_SCALE, y: -4 * VEL_SCALE } });
    let e = world.create_entity(c);
    WalkSystem.run(&mut world, DeltaTime { millis: 500 });
    assert_eq!(position_of(&world, e), Vector { x: 2 * P + P / 2, y: 0 });
    let mut still = Components::empty();
    still.position = Some(Position { position: Vector { x: 7, y: 8 } });
    let s = world.create_entity(still);
    WalkSystem.run(&mut world, DeltaTime { millis: 1000 });
    assert_eq!(position_of(&world, s), Vector { x: 7, y: 8 });
    assert_eq!(position_of(&world, e), Vector { x: 5 * P + P / 2, y: -4 * P });
}

#[test]
fn walk_saturates_at_the_edge_of_the_range() {
    let mut world = World::new();
    let mut c = Components::empty();
    c.position = Some(Position { position: Vector { x: i64::MAX - 5, y: i64::MIN + 5 } });
    c.velocity = Some(Velocity { velocity: Vector { x: 1000, y: -1000 } });
    let e = world.create_entity(c);
    WalkSystem.run(&mut world, DeltaTime { millis: 10 });
    assert_eq!(position_of(&world, e), Vector { x: i64::MAX, y: i64::MIN });
}

