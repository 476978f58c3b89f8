use eangine::component::LabelVariable;
use eangine::component::{FontStyle, Label, Position};
use eangine::component::Components;
use eangine::geom::{Vector, POS_SCALE};
use eangine::hud::{HudText, HUD};
use eangine::render::{LabelRenderSystem, TextCommand};
use eangine::resources::{DeltaTime, KeyboardKeys, VariableDictionary};
use eangine::scene::{advance_counters, spawn_wave, GameState, Outcome, Scene, SceneConfig, SpawnFactory, SpawnPlan, Track};
use eangine::world::World;

const P: i64 = POS_SCALE;

struct CountingSpawns {
    cycles: Vec<u32>,
}

impl SpawnFactory for CountingSpawns {
    fn spawn(&mut self, _world: &mut World, cycle: u32) {
        self.cycles.push(cycle);
    }
}

fn config(cadence: u32, boss_cycle: u32) -> SceneConfig {
    let mut c = SceneConfig::new();
    c.new_body_cycle = cadence;
    c.boss_cycle = boss_cycle;
    c
}

const TICK: DeltaTime = DeltaTime { millis: 16 };

#[test]
fn the_game_starts_once_the_sprites_are_ready() {
    let mut scene = Scene::new(CountingSpawns { cycles: vec![] }, SceneConfig::new());
    let a = scene.update(TICK, false);
    assert_eq!(scene.state, GameState::Initializing);
    assert_eq!(a.play, None);
    let a = scene.update(TICK, true);
    assert_eq!(scene.state, GameState::Running);
    assert_eq!(a.play, Some(Track::Normal));
    let a = scene.update(TICK, true);
    assert_eq!(a.play, None);
    assert_eq!(scene.labels.get(LabelVariable::Lives), Some(5));
    assert_eq!(scene.labels.get(LabelVariable::Score), Some(0));
}

#[test]
fn waves_come_each_cycle_and_the_boss_at_its_cycle() {
    let mut scene = Scene::new(CountingSpawns { cycles: vec![] }, config(3, 3));
    scene.update(TICK, true);
    let mut boss_music = false;
    for _ in 0..9 {
        let a = scene.update(TICK, true);
        if a.play == Some(Track::Boss) {
            boss_music = true;
        }
    }
    assert_eq!(scene.factory.cycles, vec![1, 2]);
    assert_eq!(scene.cycle, 3);
    assert!(boss_music);
    assert_eq!(scene.state, GameState::Running);
    let bosses = (0..scene.world.len())
        .filter(|&i| scene.world.slot(i).alive && scene.world.slot(i).data.boss.is_some())
        .count();
    assert_eq!(bosses, 1);
}

#[test]
fn escape_ends_the_game_and_enter_closes_it() {
    let mut scene = Scene::new(CountingSpawns { cycles: vec![] }, SceneConfig::new());
    scene.update(TICK, true);
    scene.key_event(KeyboardKeys::KeyEscape, true);
    let a = scene.update(TICK, true);
    assert_eq!(scene.state, GameState::GameOver);
    assert_eq!(scene.outcome, Some(Outcome::Defeat));
    assert_eq!(a.play, Some(Track::GameOver));
    assert!(!a.close);
    scene.key_event(KeyboardKeys::KeyEscape, false);
    let a = scene.update(TICK, true);
    assert!(!a.close);
    scene.key_event(KeyboardKeys::KeyEnter, true);
    let a = scene.update(TICK, true);
    assert!(a.close);
    assert_eq!(scene.state, GameState::GameOver);
    let heroes = (0..scene.world.len())
        .filter(|&i| scene.world.slot(i).alive && scene.world.slot(i).data.hero.is_some())
        .count();
    assert_eq!(heroes, 0);
}

#[test]
fn no_boss_left_after_its_cycle_is_a_victory() {
    let mut scene = Scene::new(CountingSpawns { cycles: vec![] }, config(1000, 0));
    scene.update(TICK, true);
    let a = scene.update(TICK, true);
    assert_eq!(scene.state, GameState::GameOver);
    assert_eq!(scene.outcome, Some(Outcome::Victory));
    assert_eq!(a.play, Some(Track::Victory));
}

#[test]
fn the_hud_refreshes_the_rate_every_ten_draws() {
    let mut hud = HUD::new();
    for _ in 0..9 {
        let t = hud.draw(30, 5, 100);
        assert_eq!(t[0].value, 60);
    }
    let t = hud.draw(30, 5, 100);
    assert_eq!(hud.draw_counter, 0);
    assert_eq!(t[0], HudText { value: 30, center: Vector { x: 20 * P, y: 587 * P } });
    assert_eq!(t[1], HudText { value: 5, center: Vector { x: 10 * P, y: 20 * P } });
    assert_eq!(t[2], HudText { value: 100, center: Vector { x: 730 * P, y: 20 * P } });
}

#[test]
fn labels_show_their_value_or_nothing() {
    let mut world = World::new();
    let style = FontStyle { size: 48, color: 0xff };
    let mut c = Components::empty();
    c.label = Some(Label { bind_variable: LabelVariable::Score, font_style: style });
    c.position = Some(Position { position: Vector { x: 730 * P, y: 20 * P } });
    world.create_entity(c);
    let mut dict = VariableDictionary::new();
    let texts = LabelRenderSystem::new().run(&world, &dict);
    assert_eq!(texts, vec![TextCommand { value: None, center: Vector { x: 730 * P, y: 20 * P }, style }]);
    dict.insert(LabelVariable::Score, 250);
    dict.insert(LabelVariable::Lives, 3);
    let texts = LabelRenderSystem::new().run(&world, &dict);
    assert_eq!(texts[0].value, Some(250));
}

#[test]
fn cycles_are_counted_in_ticks() {
    assert_eq!(advance_counters(0, 0, 125, 20), (1, 0, SpawnPlan::Nothing));
    assert_eq!(advance_counters(124, 0, 125, 20), (0, 1, SpawnPlan::Wave));
    assert_eq!(advance_counters(124, 19, 125, 20), (0, 20, SpawnPlan::Boss));
    assert_eq!(advance_counters(124, 20, 125, 20), (0, 21, SpawnPlan::Nothing));
    assert_eq!(advance_counters(5, 3, 125, 20), (6, 3, SpawnPlan::Nothing));
}

#[test]
fn the_frame_rate_goes_to_its_label() {
    let mut scene = Scene::new(CountingSpawns { cycles: vec![] }, SceneConfig::new());
    scene.set_fps(59);
    assert_eq!(scene.labels.get(LabelVariable::Fps), Some(59));
}

#[test]
fn each_wave_kind_spawns_its_enemy() {
    let mut world = World::new();
    spawn_wave(&mut world, 0, 1);
    assert_eq!(world.len(), 1);
    assert_eq!(world.slot(0).data.enemy.unwrap().score, 100);
    spawn_wave(&mut world, 1, 1);
    assert_eq!(world.slot(1).data.render.as_ref().unwrap().sprite, "atirador");
    spawn_wave(&mut world, 2, 2);
    assert_eq!(world.slot(2).data.render.as_ref().unwrap().sprite, "alma");
    spawn_wave(&mut world, 3, 4);
    let n = world.len();
    assert!(n >= 3 + 6 && n <= 3 + 10);
    spawn_wave(&mut world, 7, 3);
    assert_eq!(world.len(), n + 1);
    assert_eq!(world.slot(n).data.healing.unwrap().score, 50);
    spawn_wave(&mut world, 7, 4);
    assert_eq!(world.len(), n + 1);
}
