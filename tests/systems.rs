use eangine::collision::{CollisionSystem, Contact};
use eangine::component::{Boss, Components, Enemy, Fireball, Healing, Hero, Position, Render, Velocity};
use eangine::enemy::{
    create_boss, create_fireball_shower, create_fireball_shower_with, create_flyer,
    create_shooter, create_walker, get_enemy_head_body_area, spawn_walker,
};
use eangine::fireball::{launch_fireball, FireballSystem};
use eangine::geom::{Rectangle, Size, Vector, POS_SCALE, VEL_SCALE};
use eangine::healing::create_healing_potion;
use eangine::hero::{create_hero, get_hero_body_feet_area};
use eangine::render::RenderSystem;
use eangine::resources::{DeltaTime, KeyboardKeys, PressedKeys};
use eangine::scene::{check_outcome, Outcome};
use eangine::system::{HeroBlinkingSystem, HeroControlSystem, OutOfBoundsSystem};
use eangine::world::World;

const P: i64 = POS_SCALE;

fn size(w: i64, h: i64) -> Size {
    Size { width: w * P, height: h * P }
}

fn at(x: i64, y: i64) -> Vector {
    Vector { x: x * P, y: y * P }
}

fn hero_components(x: i64, y: i64, lives: u32, blinking: bool) -> Components {
    let mut c = Components::empty();
    c.hero = Some(Hero {
        lives,
        score: 0,
        blinking,
        render: true,
        reset_position: false,
        blink_timer: 0,
    });
    c.position = Some(Position { position: at(x, y) });
    c.velocity = Some(Velocity { velocity: Vector { x: 0, y: 0 } });
    c.render = Some(Render { sprite: "heroi".to_string(), bounding_box: Some(size(40, 50)) });
    c.out_of_bounds = true;
    c
}

fn enemy_components(x: i64, y: i64, w: i64, h: i64) -> Components {
    let mut c = Components::empty();
    c.enemy = Some(Enemy { score: 100 });
    c.position = Some(Position { position: at(x, y) });
    c.render = Some(Render { sprite: "andador".to_string(), bounding_box: Some(size(w, h)) });
    c
}

#[test]
fn areas_split_at_the_bands() {
    let (body, feet) = get_hero_body_feet_area(size(40, 50), at(100, 200));
    assert_eq!(body, Rectangle { x: 80 * P, y: 175 * P, width: 40 * P, height: 40 * P });
    assert_eq!(feet, Rectangle { x: 80 * P, y: 215 * P, width: 40 * P, height: 10 * P });
    let (head, body) = get_enemy_head_body_area(size(30, 40), at(100, 200));
    assert_eq!(head, Rectangle { x: 85 * P, y: 180 * P, width: 30 * P, height: 10 * P });
    assert_eq!(body, Rectangle { x: 85 * P, y: 190 * P, width: 30 * P, height: 30 * P });
}

#[test]
fn feet_on_the_head_is_a_stomp() {
    // hero feet [215, 225], hero body [175, 215]; enemy head [210, 220], body [220, 250]
    let c = CollisionSystem::contact(size(40, 50), at(100, 200), size(40, 40), at(100, 230));
    assert_eq!(c, Contact::Stomp);
    // the same pair gives the same answer every time it is asked
    let again = CollisionSystem::contact(size(40, 50), at(100, 200), size(40, 40), at(100, 230));
    assert_eq!(again, c);
    // an enemy at the hero's own height meets the body only
    let c = CollisionSystem::contact(size(40, 50), at(100, 200), size(40, 50), at(100, 200));
    assert_eq!(c, Contact::Hit);
}

#[test]
fn bodies_meeting_side_by_side_is_a_hit() {
    // enemy head [150, 160] is above the hero's feet; its body [160, 210] meets the hero's body
    let c = CollisionSystem::contact(size(40, 50), at(100, 200), size(40, 60), at(120, 180));
    assert_eq!(c, Contact::Hit);
    // touching edges do not overlap
    let c = CollisionSystem::contact(size(40, 50), at(100, 200), size(40, 60), at(140, 180));
    assert_eq!(c, Contact::Nothing);
}

#[test]
fn blinking_ends_the_same_for_fine_and_coarse_ticks() {
    let h = Hero { lives: 4, score: 0, blinking: true, render: true, reset_position: false, blink_timer: 0 };
    let mut fine = h;
    for _ in 0..125 {
        fine = HeroBlinkingSystem::blink(fine, 16);
    }
    let mut coarse = h;
    for _ in 0..8 {
        coarse = HeroBlinkingSystem::blink(coarse, 250);
    }
    assert_eq!(fine, coarse);
    assert!(!fine.blinking);
    assert!(fine.render);
    assert_eq!(fine.blink_timer, 0);

    let mut fine = h;
    for _ in 0..50 {
        fine = HeroBlinkingSystem::blink(fine, 20);
    }
    let mut coarse = h;
    for _ in 0..4 {
        coarse = HeroBlinkingSystem::blink(coarse, 250);
    }
    assert_eq!(fine, coarse);
    assert!(fine.blinking);
    assert_eq!(fine.blink_timer, 1000);
    assert!(fine.render);
}

#[test]
fn blinking_hero_is_drawn_in_even_periods() {
    let h = Hero { lives: 4, score: 0, blinking: true, render: true, reset_position: false, blink_timer: 0 };
    let a = HeroBlinkingSystem::blink(h, 100);
    assert!(a.render);
    let b = HeroBlinkingSystem::blink(a, 100);
    assert_eq!(b.blink_timer, 200);
    assert!(!b.render);
    let c = HeroBlinkingSystem::blink(b, 1050);
    assert!(c.blinking);
    let d = HeroBlinkingSystem::blink(c, 1);
    assert!(!d.blinking);
    assert_eq!(d.blink_timer, 0);
}

#[test]
fn a_blinking_hero_loses_no_further_life() {
    let mut world = World::new();
    let hero = world.create_entity(hero_components(100, 200, 5, false));
    world.create_entity(enemy_components(120, 180, 40, 60));
    CollisionSystem.run(&mut world);
    let h = world.get(hero).unwrap().hero.unwrap();
    assert_eq!(h.lives, 4);
    assert!(h.blinking);
    for _ in 0..10 {
        HeroBlinkingSystem.run(&mut world, DeltaTime { millis: 100 });
        CollisionSystem.run(&mut world);
        assert_eq!(world.get(hero).unwrap().hero.unwrap().lives, 4);
    }
    // 1300 ms in all: the blinking is over and the next contact costs a life
    HeroBlinkingSystem.run(&mut world, DeltaTime { millis: 300 });
    assert!(!world.get(hero).unwrap().hero.unwrap().blinking);
    CollisionSystem.run(&mut world);
    assert_eq!(world.get(hero).unwrap().hero.unwrap().lives, 3);
}

#[test]
fn the_last_life_removes_the_hero() {
    let mut world = World::new();
    let hero = world.create_entity(hero_components(100, 200, 1, false));
    world.create_entity(enemy_components(120, 180, 40, 60));
    CollisionSystem.run(&mut world);
    assert!(world.get(hero).is_some());
    assert_eq!(world.get(hero).unwrap().hero.unwrap().lives, 0);
    world.flush_deletions();
    assert!(world.get(hero).is_none());
    assert_eq!(check_outcome(&world, 0, 20), Some(Outcome::Defeat));
}

#[test]
fn undrawn_entities_do_not_collide() {
    let mut world = World::new();
    let hero = world.create_entity(hero_components(100, 200, 5, false));
    let mut e = enemy_components(120, 180, 40, 60);
    e.render = Some(Render { sprite: "andador".to_string(), bounding_box: None });
    world.create_entity(e);
    CollisionSystem.run(&mut world);
    assert_eq!(world.get(hero).unwrap().hero.unwrap().lives, 5);
}

#[test]
fn a_potion_gives_a_life_and_fifty() {
    let mut world = World::new();
    let hero = world.create_entity(hero_components(100, 200, 3, false));
    let mut p = Components::empty();
    p.healing = Some(Healing { score: 50 });
    p.position = Some(Position { position: at(110, 210) });
    p.render = Some(Render { sprite: "potion".to_string(), bounding_box: Some(size(20, 20)) });
    let potion = world.create_entity(p);
    CollisionSystem.run(&mut world);
    let h = world.get(hero).unwrap().hero.unwrap();
    assert_eq!(h.lives, 4);
    assert_eq!(h.score, 50);
    world.flush_deletions();
    assert!(world.get(potion).is_none());
}

#[test]
fn boss_anger_is_one_way() {
    let mut world = World::new();
    world.create_entity(hero_components(100, 425, 5, false));
    let boss = create_boss(&mut world);
    world.data_mut(boss.index).boss = Some(Boss { lives: 6, normal_lives: 5, angry: false });
    FireballSystem.run(&mut world);
    assert!(!world.get(boss).unwrap().boss.unwrap().angry);
    assert_eq!(world.get(boss).unwrap().shooter.as_ref().unwrap().maximum_fireballs, 2);
    world.data_mut(boss.index).boss = Some(Boss { lives: 5, normal_lives: 5, angry: false });
    FireballSystem.run(&mut world);
    assert!(world.get(boss).unwrap().boss.unwrap().angry);
    assert_eq!(world.get(boss).unwrap().shooter.as_ref().unwrap().maximum_fireballs, 4);
    assert_eq!(world.get(boss).unwrap().shooter.as_ref().unwrap().fireball_amount, 4);
    // more lives again do not calm it, and the limit does not double twice
    world.data_mut(boss.index).boss = Some(Boss { lives: 9, normal_lives: 5, angry: true });
    FireballSystem.run(&mut world);
    assert!(world.get(boss).unwrap().boss.unwrap().angry);
    assert_eq!(world.get(boss).unwrap().shooter.as_ref().unwrap().maximum_fireballs, 4);
}

#[test]
fn untagged_entities_are_never_retired() {
    let mut world = World::new();
    let mut far = Components::empty();
    far.position = Some(Position { position: at(5000, 5000) });
    let untagged = world.create_entity(far.clone());
    far.out_of_bounds = true;
    let tagged = world.create_entity(far);
    let mut near = Components::empty();
    near.position = Some(Position { position: at(400, 700) });
    near.out_of_bounds = true;
    let inside = world.create_entity(near);
    OutOfBoundsSystem.run(&mut world);
    world.flush_deletions();
    assert!(world.get(untagged).is_some());
    assert!(world.get(tagged).is_none());
    assert!(world.get(inside).is_some());
}

#[test]
fn the_hero_is_held_within_the_screen() {
    let mut world = World::new();
    let left = world.create_entity(hero_components(-30, 425, 5, false));
    let right = world.create_entity(hero_components(2000, 425, 5, false));
    OutOfBoundsSystem.run(&mut world);
    world.flush_deletions();
    assert_eq!(world.get(left).unwrap().position.unwrap().position, at(15, 425));
    assert_eq!(world.get(right).unwrap().position.unwrap().position, at(785, 425));
}

#[test]
fn keys_set_the_hero_velocity() {
    let mut world = World::new();
    let hero = create_hero(&mut world);
    let mut keys = PressedKeys::new();
    keys.set(KeyboardKeys::KeyUp, true);
    keys.set(KeyboardKeys::KeyLeft, true);
    HeroControlSystem.run(&mut world, keys);
    assert_eq!(world.get(hero).unwrap().velocity.unwrap().velocity, Vector { x: -250 * VEL_SCALE, y: -400 * VEL_SCALE });
    keys.set(KeyboardKeys::KeyRight, true);
    HeroControlSystem.run(&mut world, keys);
    assert_eq!(world.get(hero).unwrap().velocity.unwrap().velocity, Vector { x: 0, y: -400 * VEL_SCALE });
    keys.set(KeyboardKeys::KeyLeft, false);
    keys.set(KeyboardKeys::KeyUp, false);
    HeroControlSystem.run(&mut world, keys);
    assert_eq!(world.get(hero).unwrap().velocity.unwrap().velocity, Vector { x: 250 * VEL_SCALE, y: 0 });
    // at the apex the hero falls; between the two heights it keeps going
    world.data_mut(hero.index).position = Some(Position { position: at(400, 300) });
    HeroControlSystem.run(&mut world, keys);
    assert_eq!(world.get(hero).unwrap().velocity.unwrap().velocity.y, 200 * VEL_SCALE);
    world.data_mut(hero.index).position = Some(Position { position: at(400, 350) });
    HeroControlSystem.run(&mut world, keys);
    assert_eq!(world.get(hero).unwrap().velocity.unwrap().velocity.y, 200 * VEL_SCALE);
    let mut h = world.get(hero).unwrap().hero.unwrap();
    h.reset_position = true;
    world.data_mut(hero.index).hero = Some(h);
    HeroControlSystem.run(&mut world, keys);
    assert_eq!(world.get(hero).unwrap().position.unwrap().position, at(15, 300));
    assert!(!world.get(hero).unwrap().hero.unwrap().reset_position);
}

#[test]
fn deletion_is_deferred_and_handles_go_stale() {
    let mut world = World::new();
    let a = world.create_entity(Components::empty());
    let b = world.create_entity(Components::empty());
    world.mark_for_deletion(a);
    world.mark_for_deletion(a);
    assert!(world.get(a).is_some());
    world.flush_deletions();
    assert!(world.get(a).is_none());
    assert!(world.get(b).is_some());
    let c = world.create_entity(Components::empty());
    assert_eq!(c.index, a.index);
    assert_eq!(c.generation, a.generation + 1);
    assert!(world.get(a).is_none());
    world.mark_for_deletion(a);
    world.flush_deletions();
    assert!(world.get(c).is_some());
    world.clear();
    assert!(world.get(b).is_none());
    assert!(world.get(c).is_none());
    assert_eq!(world.len(), 2);
}

#[test]
fn shooters_keep_their_fireballs_in_flight() {
    let mut world = World::new();
    world.create_entity(hero_components(100, 425, 5, false));
    let shooter = create_shooter(&mut world);
    FireballSystem.run(&mut world);
    let owned = |w: &World| {
        (0..w.len())
            .filter(|&i| {
                let s = w.slot(i);
                s.alive && s.data.fireball == Some(Fireball { owner_id: Some(shooter) })
            })
            .collect::<Vec<usize>>()
    };
    assert_eq!(owned(&world).len(), 2);
    assert_eq!(world.get(shooter).unwrap().shooter.as_ref().unwrap().fireball_amount, 2);
    FireballSystem.run(&mut world);
    assert_eq!(owned(&world).len(), 2);
    let first = owned(&world)[0];
    let e = world.entity_at(first);
    world.mark_for_deletion(e);
    world.flush_deletions();
    assert_eq!(owned(&world).len(), 1);
    FireballSystem.run(&mut world);
    assert_eq!(owned(&world).len(), 2);
    let f = world.slot(owned(&world)[0]).data.clone();
    assert_eq!(f.position.unwrap().position, Vector { x: 850 * P, y: 433 * P + P / 2 });
    assert_eq!(f.render.unwrap().sprite, "tiro");
    assert!(f.out_of_bounds);
}

#[test]
fn without_a_hero_fireballs_fly_to_the_left_edge() {
    let mut world = World::new();
    let flyer = create_flyer(&mut world);
    FireballSystem.run(&mut world);
    assert_eq!(world.len(), 2);
    assert_eq!(world.get(flyer).unwrap().shooter.as_ref().unwrap().fireball_amount, 1);
    let f = world.slot(1).data.clone();
    assert_eq!(f.fireball.unwrap().owner_id, Some(flyer));
    assert_eq!(f.position.unwrap().position, at(850, 400));
    let v = f.velocity.unwrap().velocity;
    // from x = 850 toward x = 0 at 240 to 260 thousandths of the way per second
    assert!(-850 * 260 <= v.x && v.x <= -850 * 240);
    assert_eq!(v.y, 0);
}

#[test]
fn a_fireball_is_aimed_at_the_target() {
    let mut world = World::new();
    let shooter = create_shooter(&mut world);
    // slot 0: speed 175 + 0 + 25 = 200 thousandths per second
    let target = Vector { x: 850 * P - 100 * P, y: 433 * P + P / 2 + 50 * P };
    let f = launch_fireball(&mut world, shooter.index, 0, 25, target);
    let v = world.get(f).unwrap().velocity.unwrap().velocity;
    assert_eq!(v, Vector { x: -20 * VEL_SCALE, y: 10 * VEL_SCALE });
    assert_eq!(world.get(f).unwrap().fireball.unwrap().owner_id, Some(shooter));
}

#[test]
fn a_shower_falls_in_even_columns() {
    let mut world = World::new();
    let r = create_fireball_shower_with(&mut world, 0, 250 * P, 100 * P, &vec![0, 1000, -1000]);
    assert_eq!(r.len(), 3);
    for (k, e) in r.iter().enumerate() {
        let c = world.get(*e).unwrap();
        assert_eq!(c.position.unwrap().position, Vector { x: 100 * P * k as i64, y: -100 * P });
        let jitter = [0, 1000, -1000][k];
        assert_eq!(c.velocity.unwrap().velocity, Vector { x: 0, y: 250 * VEL_SCALE + jitter });
        assert_eq!(c.fireball.unwrap().owner_id, None);
        assert!(c.out_of_bounds);
    }
    let r = create_fireball_shower_with(&mut world, 300 * P, 300 * P, 100 * P, &vec![]);
    assert!(r.is_empty());
}

#[test]
fn random_spawns_stay_in_their_ranges() {
    let mut world = World::new();
    for _ in 0..20 {
        let w = create_walker(&mut world);
        let p = world.get(w).unwrap().position.unwrap().position;
        let v = world.get(w).unwrap().velocity.unwrap().velocity;
        assert!(p == at(-50, 432) && v.x == 125 * VEL_SCALE || p == at(850, 432) && v.x == -125 * VEL_SCALE);
        let h = create_healing_potion(&mut world);
        let x = world.get(h).unwrap().position.unwrap().position.x;
        assert!(50 * P <= x && x < 750 * P);
        let shower = create_fireball_shower(&mut world);
        assert!(shower.len() >= 6 && shower.len() <= 10);
        for e in shower {
            let c = world.get(e).unwrap();
            let x = c.position.unwrap().position.x;
            let vy = c.velocity.unwrap().velocity.y;
            assert!(0 <= x && x < 900 * P);
            assert!(240 * VEL_SCALE <= vy && vy < 260 * VEL_SCALE);
        }
    }
}

#[test]
fn factories_build_the_listed_enemies() {
    let mut world = World::new();
    let s = create_shooter(&mut world);
    let c = world.get(s).unwrap();
    assert_eq!(c.position.unwrap().position, Vector { x: 850 * P, y: 433 * P + P / 2 });
    assert_eq!(c.velocity.unwrap().velocity, Vector { x: -125 * VEL_SCALE, y: 0 });
    assert_eq!(c.enemy, Some(Enemy { score: 200 }));
    assert_eq!(c.shooter.as_ref().unwrap().maximum_fireballs, 2);
    let f = create_flyer(&mut world);
    let c = world.get(f).unwrap();
    assert_eq!(c.position.unwrap().position, at(850, 400));
    assert_eq!(c.velocity.unwrap().velocity, Vector { x: -150 * VEL_SCALE, y: 0 });
    assert_eq!(c.shooter.as_ref().unwrap().maximum_fireballs, 1);
    assert_eq!(c.shooter.as_ref().unwrap().coefficient_1, 250);
    let b = create_boss(&mut world);
    let c = world.get(b).unwrap();
    assert_eq!(c.position.unwrap().position, Vector { x: 748 * P + P / 2, y: 428 * P });
    assert!(c.velocity.is_none());
    assert!(!c.out_of_bounds);
    assert_eq!(c.boss, Some(Boss { lives: 10, normal_lives: 5, angry: false }));
    assert_eq!(c.enemy, Some(Enemy { score: 300 }));
    assert_eq!(c.render.as_ref().unwrap().sprite, "chefe");
    let w = spawn_walker(&mut world, false);
    let c = world.get(w).unwrap();
    assert_eq!(c.render.as_ref().unwrap().sprite, "andador");
    assert_eq!(c.enemy, Some(Enemy { score: 100 }));
}

#[test]
fn the_hero_is_drawn_last_and_only_when_visible() {
    let mut world = World::new();
    let hero = create_hero(&mut world);
    let walker = spawn_walker(&mut world, true);
    let cmds = RenderSystem::new().run(&world);
    assert_eq!(cmds.len(), 2);
    assert_eq!(cmds[0].entity, walker);
    assert_eq!(cmds[0].sprite, "andador_flipped");
    assert_eq!(cmds[0].center, at(-50, 432));
    assert_eq!(cmds[1].entity, hero);
    assert_eq!(cmds[1].sprite, "heroi");
    let mut h = world.get(hero).unwrap().hero.unwrap();
    h.render = false;
    world.data_mut(hero.index).hero = Some(h);
    let cmds = RenderSystem::new().run(&world);
    assert_eq!(cmds.len(), 1);
    assert_eq!(cmds[0].entity, walker);
    RenderSystem::cache_bounds(&mut world, walker, size(40, 2));
    assert_eq!(world.get(walker).unwrap().render.as_ref().unwrap().bounding_box, Some(size(40, 2)));
    world.mark_for_deletion(walker);
    world.flush_deletions();
    let before = world.len();
    RenderSystem::cache_bounds(&mut world, walker, size(1, 1));
    assert_eq!(world.len(), before);
    assert!(world.slot(walker.index).data.render.is_none());
}

#[test]
fn a_blinking_hero_still_stomps_every_enemy_under_its_feet() {
    let mut world = World::new();
    let hero = world.create_entity(hero_components(100, 200, 5, true));
    let mut undrawn = enemy_components(300, 200, 40, 40);
    undrawn.render = Some(Render { sprite: "andador".to_string(), bounding_box: None });
    world.create_entity(undrawn);
    let under = world.create_entity(enemy_components(100, 230, 40, 40));
    let beside = world.create_entity(enemy_components(120, 180, 40, 60));
    let under_too = world.create_entity(enemy_components(110, 230, 40, 40));
    CollisionSystem.run(&mut world);
    let h = world.get(hero).unwrap().hero.unwrap();
    assert_eq!(h.score, 200);
    assert_eq!(h.lives, 5);
    world.flush_deletions();
    assert!(world.get(under).is_none());
    assert!(world.get(under_too).is_none());
    assert!(world.get(beside).is_some());
}

#[test]
fn one_life_at_most_per_pass() {
    let mut world = World::new();
    let hero = world.create_entity(hero_components(100, 200, 5, false));
    world.create_entity(enemy_components(120, 180, 40, 60));
    world.create_entity(enemy_components(80, 180, 40, 60));
    CollisionSystem.run(&mut world);
    assert_eq!(world.get(hero).unwrap().hero.unwrap().lives, 4);
}
