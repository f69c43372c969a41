use hectic::components::BackgroundLayer;
use hectic::components::BeenOnscreen;
use hectic::components::Boss;
use hectic::components::BossMove;
use hectic::components::BulletSetup;
use hectic::components::Circle;
use hectic::components::CollidesWithBomb;
use hectic::components::Colour;
use hectic::components::ColourOverlay;
use hectic::components::Cooldown;
use hectic::components::DieOffscreen;
use hectic::components::Enemy;
use hectic::components::Explosion;
use hectic::components::FiresBullets;
use hectic::components::FrozenUntil;
use hectic::components::Health;
use hectic::components::Hitbox;
use hectic::components::Image;
use hectic::components::MoveTowards;
use hectic::components::Movement;
use hectic::components::Player;
use hectic::components::Position;
use hectic::components::PowerBar;
use hectic::components::PowerOrb;
use hectic::components::TargetPlayer;
use hectic::components::BOSS_SPEED;
use hectic::graphics::Atlas;
use hectic::graphics::Frame;
use hectic::graphics::Image as GraphicsImage;
use hectic::math::Vec2;
use hectic::resources::Aim;
use hectic::resources::BulletSpawner;
use hectic::resources::ControlsState;
use hectic::resources::GameTime;
use hectic::resources::Key;
use hectic::resources::Mode;
use hectic::resources::PlayerPositions;
use hectic::resources::PlayingState;
use hectic::resources::Stage;
use hectic::storage::Entity;
use hectic::systems::build_bullet;
use hectic::systems::build_explosion;
use hectic::systems::bullets::ExpandBombs;
use hectic::systems::is_onscreen;
use hectic::systems::rendering::ExplosionImages;
use hectic::systems::rendering::RepeatBackgroundLayers;
use hectic::systems::steer;
use hectic::systems::AddOnscreen;
use hectic::systems::CollectOrbs;
use hectic::systems::Control;
use hectic::systems::FinishStage;
use hectic::systems::KillOffscreen;
use hectic::systems::MoveBosses;
use hectic::systems::SetPlayerPositions;
use hectic::systems::StartTowardsPlayer;
use hectic::systems::TickTime;
use hectic::systems::OUTCOME_SHOWN_FOR;
use hectic::systems::PLAYER_BULLET_SPEED;
use hectic::systems::PLAYER_SPEED;
use hectic::world::World;

const U: i32 = 1024;

fn at(x: i32, y: i32) -> Vec2 {
    Vec2::new(x * U, y * U)
}

fn atlas() -> Atlas {
    let mut frames = vec![Frame { x: 0, y: 0, w: 20, h: 10 }; 28];
    frames[GraphicsImage::Clouds.to_u16() as usize] = Frame { x: 0, y: 0, w: 480, h: 960 };
    Atlas { frames, width: 2000, height: 2500 }
}

fn spawn(world: &mut World, pos: Vec2) -> Entity {
    let entity = world.entities.create();
    world.storages.position.insert(entity.index, Position(pos));
    entity
}

#[test]
fn the_clock_ticks_and_wakes_the_frozen() {
    let mut world = World::new();
    let early = spawn(&mut world, at(0, 0)).index;
    let due = spawn(&mut world, at(0, 0)).index;
    let late = spawn(&mut world, at(0, 0)).index;
    let dead = spawn(&mut world, at(0, 0));
    world.storages.frozen_until.insert(early, FrozenUntil(0));
    world.storages.frozen_until.insert(due, FrozenUntil(600));
    world.storages.frozen_until.insert(late, FrozenUntil(601));
    world.storages.frozen_until.insert(dead.index, FrozenUntil(0));
    assert!(world.entities.delete(dead).is_ok());
    world.time = GameTime { total_time: 500 };
    TickTime.run(&world.entities, &mut world.time, &mut world.storages.frozen_until);
    assert_eq!(world.time.total_time, 600);
    assert!(!world.storages.frozen_until.contains(early));
    assert!(!world.storages.frozen_until.contains(due));
    assert_eq!(world.storages.frozen_until.get(late), Some(&FrozenUntil(601)));
    assert!(world.storages.frozen_until.contains(dead.index));
}

#[test]
fn sixty_ticks_make_a_second_and_the_clock_stops_at_the_end_of_time() {
    assert_eq!(60 * hectic::TICK, hectic::SECOND);
    let mut world = World::new();
    world.time = GameTime { total_time: u64::MAX - 1 };
    TickTime.run(&world.entities, &mut world.time, &mut world.storages.frozen_until);
    assert_eq!(world.time.total_time, u64::MAX);
}

#[test]
fn player_positions_are_those_of_the_living_players() {
    let mut world = World::new();
    let one = spawn(&mut world, at(1, 1));
    let _enemy = spawn(&mut world, at(2, 2));
    let two = spawn(&mut world, at(3, 3));
    let gone = spawn(&mut world, at(4, 4));
    for player in [one, two, gone] {
        world.storages.player.insert(player.index, Player::One);
    }
    assert!(world.entities.delete(gone).is_ok());
    let mut positions = PlayerPositions(vec![at(9, 9)]);
    let s = &world.storages;
    SetPlayerPositions.run(&world.entities, &s.position, &s.player, &mut positions);
    assert_eq!(positions.0, vec![at(1, 1), at(3, 3)]);
}

#[test]
fn a_sprite_shows_while_any_of_it_is_on_the_screen() {
    let atlas = atlas();
    let sprite = Image(0);
    assert!(is_onscreen(&Position(at(240, 320)), sprite, &atlas));
    assert!(is_onscreen(&Position(Vec2::new(-10 * U + 1, 0)), sprite, &atlas));
    assert!(!is_onscreen(&Position(at(-10, 0)), sprite, &atlas));
    assert!(!is_onscreen(&Position(at(490, 0)), sprite, &atlas));
    assert!(is_onscreen(&Position(Vec2::new(490 * U - 1, 0)), sprite, &atlas));
    assert!(!is_onscreen(&Position(at(0, -5)), sprite, &atlas));
    assert!(is_onscreen(&Position(Vec2::new(0, -5 * U + 1)), sprite, &atlas));
    assert!(!is_onscreen(&Position(at(0, 645)), sprite, &atlas));
    assert!(is_onscreen(&Position(at(240, 320)), Image(99), &atlas));
    assert!(!is_onscreen(&Position(at(0, 320)), Image(99), &atlas));
    assert!(!is_onscreen(&Position(at(240, 640)), Image(99), &atlas));
}

#[test]
fn entities_are_marked_on_entering_and_deleted_on_leaving() {
    let atlas = atlas();
    let mut world = World::new();
    let inside = spawn(&mut world, at(100, 100));
    let outside = spawn(&mut world, at(-100, 100));
    let drifter = spawn(&mut world, at(100, 100));
    for entity in [inside, outside, drifter] {
        world.storages.image.insert(entity.index, Image(0));
    }
    world.storages.die_offscreen.insert(inside.index, DieOffscreen);
    world.storages.die_offscreen.insert(outside.index, DieOffscreen);
    let s = &mut world.storages;
    AddOnscreen.run(
        &world.entities,
        &s.position,
        &s.image,
        &s.die_offscreen,
        &mut s.been_onscreen,
        &atlas,
    );
    assert_eq!(s.been_onscreen.get(inside.index), Some(&BeenOnscreen));
    assert!(!s.been_onscreen.contains(outside.index));
    assert!(!s.been_onscreen.contains(drifter.index));
    s.been_onscreen.insert(outside.index, BeenOnscreen);
    KillOffscreen.run(&mut world.entities, &s.position, &s.been_onscreen, &s.image, &atlas);
    assert!(world.entities.is_alive(inside));
    assert!(!world.entities.is_alive(outside));
    assert!(world.entities.is_alive(drifter));
}

#[test]
fn orbs_are_gathered_once_and_fill_the_bar() {
    let mut world = World::new();
    let player = spawn(&mut world, at(100, 100));
    world.storages.hitbox.insert(player.index, Hitbox(at(10, 10)));
    world.storages.power_bar.insert(player.index, PowerBar(33));
    let second = spawn(&mut world, at(102, 100));
    world.storages.hitbox.insert(second.index, Hitbox(at(10, 10)));
    world.storages.power_bar.insert(second.index, PowerBar(0));
    let mut orb = |world: &mut World, pos: Vec2, worth: u32| {
        let entity = spawn(world, pos);
        world.storages.hitbox.insert(entity.index, Hitbox(at(50, 50)));
        world.storages.power_orb.insert(entity.index, PowerOrb(worth));
        entity
    };
    let near = orb(&mut world, at(110, 110), 1);
    let big = orb(&mut world, at(90, 90), 5);
    let far = orb(&mut world, at(300, 300), 5);
    let s = &mut world.storages;
    CollectOrbs.run(&mut world.entities, &s.power_orb, &s.position, &s.hitbox, &mut s.power_bar);
    assert_eq!(s.power_bar.get(player.index), Some(&PowerBar(35)));
    assert_eq!(s.power_bar.get(second.index), Some(&PowerBar(0)));
    assert!(!world.entities.is_alive(near));
    assert!(!world.entities.is_alive(big));
    assert!(world.entities.is_alive(far));
}

fn pressed(keys: &[Key]) -> ControlsState {
    let mut controls = ControlsState::default();
    for key in keys {
        controls.press(*key, true);
    }
    controls
}

#[test]
fn keys_move_the_player_and_the_screen_holds_it() {
    let keys = pressed(&[Key::Left, Key::Up]);
    let single = keys.get(Player::Single);
    assert_eq!(PLAYER_SPEED, 4267);
    assert_eq!(steer(at(240, 320), single), Vec2::new(240 * U - 4267, 320 * U - 4267));
    assert_eq!(steer(Vec2::new(100, 4267), single), Vec2::new(0, 0));
    let keys = pressed(&[Key::Right, Key::Down, Key::LShift]);
    let single = keys.get(Player::Single);
    assert_eq!(steer(at(240, 320), single), Vec2::new(240 * U + 2133, 320 * U + 2133));
    assert_eq!(steer(at(480, 640), single), at(480, 640));
    let keys = pressed(&[Key::Left, Key::Right]);
    assert_eq!(steer(at(1, 1), keys.get(Player::Single)), Vec2::new(4267, U));
    assert_eq!(steer(at(7, 7), ControlsState::default().get(Player::Single)), at(7, 7));
}

fn seat(world: &mut World, player: Player, pos: Vec2, power: u32) -> Entity {
    let entity = spawn(world, pos);
    world.storages.player.insert(entity.index, player);
    world.storages.cooldown.insert(entity.index, Cooldown::new(450));
    world.storages.power_bar.insert(entity.index, PowerBar(power));
    entity
}

fn control(world: &mut World, controls: &ControlsState, spawner: &mut BulletSpawner) {
    let s = &mut world.storages;
    Control.run(
        &world.entities,
        controls,
        &world.time,
        spawner,
        &mut world.updater,
        &s.player,
        &mut s.position,
        &mut s.cooldown,
        &mut s.power_bar,
    );
}

#[test]
fn fire_asks_for_five_bullets_at_most_once_per_cooldown() {
    let mut world = World::new();
    let player = seat(&mut world, Player::Single, at(240, 320), 0);
    let controls = pressed(&[Key::Z, Key::Up]);
    let mut spawner = BulletSpawner(Vec::new());
    control(&mut world, &controls, &mut spawner);
    let origin = Vec2::new(240 * U, 320 * U - 4267);
    assert_eq!(world.storages.position.get(player.index), Some(&Position(origin)));
    assert_eq!(spawner.0.len(), 5);
    let headings: Vec<Aim> = spawner.0.iter().map(|shot| shot.aim).collect();
    assert_eq!(
        headings,
        vec![
            Aim::Heading(-1_770_796),
            Aim::Heading(-1_670_796),
            Aim::Heading(-1_570_796),
            Aim::Heading(-1_470_796),
            Aim::Heading(-1_370_796),
        ]
    );
    for shot in spawner.0.iter() {
        assert_eq!(shot.pos, origin);
        assert!(!shot.enemy);
        assert_eq!(shot.speed, PLAYER_BULLET_SPEED);
        assert_eq!(shot.image, Image::from(GraphicsImage::PlayerBullet));
        assert_eq!(shot.colour, None);
    }
    world.time.total_time = 449;
    control(&mut world, &controls, &mut spawner);
    assert_eq!(spawner.0.len(), 5);
    world.time.total_time = 450;
    control(&mut world, &controls, &mut spawner);
    assert_eq!(spawner.0.len(), 10);
}

#[test]
fn a_gun_that_is_not_asked_stays_ready() {
    let mut world = World::new();
    let player = seat(&mut world, Player::Single, at(240, 320), 0);
    let mut spawner = BulletSpawner(Vec::new());
    world.time.total_time = 1000;
    control(&mut world, &ControlsState::default(), &mut spawner);
    assert!(spawner.0.is_empty());
    assert_eq!(world.storages.cooldown.get(player.index), Some(&Cooldown::new(450)));
    assert_eq!(world.storages.position.get(player.index), Some(&Position(at(240, 320))));
}

#[test]
fn each_seat_follows_its_own_keys() {
    let mut world = World::new();
    let one = seat(&mut world, Player::One, at(100, 100), 0);
    let two = seat(&mut world, Player::Two, at(200, 100), 0);
    let controls = pressed(&[Key::D, Key::V]);
    let mut spawner = BulletSpawner(Vec::new());
    control(&mut world, &controls, &mut spawner);
    assert_eq!(world.storages.position.get(one.index), Some(&Position(at(100, 100))));
    let moved = Vec2::new(200 * U + 4267, 100 * U);
    assert_eq!(world.storages.position.get(two.index), Some(&Position(moved)));
    assert_eq!(spawner.0.len(), 5);
    assert!(spawner.0.iter().all(|shot| shot.pos == moved));
}

#[test]
fn a_bomb_takes_a_full_bar() {
    let mut world = World::new();
    let full = seat(&mut world, Player::Single, at(10, 10), 35);
    let short = seat(&mut world, Player::Single, at(20, 20), 34);
    let controls = pressed(&[Key::X]);
    let mut spawner = BulletSpawner(Vec::new());
    control(&mut world, &controls, &mut spawner);
    assert_eq!(world.storages.power_bar.get(full.index), Some(&PowerBar(0)));
    assert_eq!(world.storages.power_bar.get(short.index), Some(&PowerBar(34)));
    assert_eq!(world.updater.len(), 1);
    world.maintain();
    let mut bombs = Vec::new();
    for i in 0..world.entities.len() {
        if let Some(circle) = world.storages.circle.get(i) {
            bombs.push((world.storages.position.get(i).unwrap().0, circle.radius));
        }
    }
    assert_eq!(bombs, vec![(at(10, 10), 0)]);
}

#[test]
fn a_blast_grows_and_takes_what_bombs_destroy() {
    let mut world = World::new();
    let bomb = spawn(&mut world, at(100, 100));
    world.storages.circle.insert(bomb.index, Circle { radius: 0 });
    let near = spawn(&mut world, at(100, 108));
    let out = spawn(&mut world, Vec2::new(100 * U, 108 * U + 1));
    let tough = spawn(&mut world, at(100, 100));
    for target in [near, out] {
        world.storages.collides_with_bomb.insert(target.index, CollidesWithBomb);
    }
    world.time.total_time = 77;
    let s = &mut world.storages;
    ExpandBombs.run(
        &mut world.entities,
        &mut world.updater,
        &world.time,
        &mut s.circle,
        &s.position,
        &s.collides_with_bomb,
    );
    assert_eq!(s.circle.get(bomb.index), Some(&Circle { radius: 8 * U }));
    assert!(!world.entities.is_alive(near));
    assert!(world.entities.is_alive(out));
    assert!(world.entities.is_alive(tough));
    assert!(world.entities.is_alive(bomb));
    assert_eq!(world.updater.len(), 1);
    world.maintain();
    let blast = (0..world.entities.len())
        .find(|i| world.storages.explosion.contains(*i))
        .unwrap();
    assert_eq!(world.storages.explosion.get(blast), Some(&Explosion(77)));
    assert_eq!(world.storages.position.get(blast), Some(&Position(at(100, 108))));
}

#[test]
fn a_blast_ends_once_it_covers_the_screen() {
    let mut world = World::new();
    let bomb = spawn(&mut world, at(0, 0));
    world.storages.circle.insert(bomb.index, Circle { radius: 0 });
    let mut ticks = 0;
    while world.entities.is_alive(bomb) {
        let s = &mut world.storages;
        ExpandBombs.run(
            &mut world.entities,
            &mut world.updater,
            &world.time,
            &mut s.circle,
            &s.position,
            &s.collides_with_bomb,
        );
        ticks += 1;
        assert!(ticks <= 100);
    }
    assert_eq!(ticks, 100);
    assert_eq!(world.storages.circle.get(bomb.index), Some(&Circle { radius: 800 * U }));
}

#[test]
fn the_wish_to_fly_at_a_player_becomes_flight() {
    let mut world = World::new();
    let bat = spawn(&mut world, at(100, 0));
    world.storages.target_player.insert(bat.index, TargetPlayer(2560));
    let sleeper = spawn(&mut world, at(100, 0));
    world.storages.target_player.insert(sleeper.index, TargetPlayer(2560));
    world.storages.frozen_until.insert(sleeper.index, FrozenUntil(99));
    let players = PlayerPositions(vec![at(100, 500)]);
    let s = &mut world.storages;
    StartTowardsPlayer.run(
        &world.entities,
        &s.frozen_until,
        &s.position,
        &mut s.target_player,
        &mut s.movement,
        &players,
    );
    assert!(!s.target_player.contains(bat.index));
    assert_eq!(s.movement.get(bat.index), Some(&Movement::Linear(Vec2::new(0, 2560))));
    assert_eq!(s.target_player.get(sleeper.index), Some(&TargetPlayer(2560)));
    assert!(!s.movement.contains(sleeper.index));
}

#[test]
fn without_players_the_flight_still_has_its_pace() {
    let mut world = World::new();
    let bat = spawn(&mut world, at(-400, -400));
    world.storages.target_player.insert(bat.index, TargetPlayer(2560));
    let s = &mut world.storages;
    StartTowardsPlayer.run(
        &world.entities,
        &s.frozen_until,
        &s.position,
        &mut s.target_player,
        &mut s.movement,
        &PlayerPositions(Vec::new()),
    );
    match s.movement.get(bat.index) {
        Some(Movement::Linear(velocity)) => {
            let pace = ((velocity.x as f64).powi(2) + (velocity.y as f64).powi(2)).sqrt();
            assert!(pace <= 2560.0 && pace > 2558.0);
            assert!(velocity.x > 0 && velocity.y > 0);
        }
        _ => panic!("the bat flies in a straight line"),
    }
}

fn pattern() -> FiresBullets {
    FiresBullets::AtPlayer {
        num_bullets: 1,
        spread: 0,
        cooldown: Cooldown::new(100),
        setup: BulletSetup { image: Image(0), speed: 1, colour: None },
    }
}

fn boss(world: &mut World, pos: Vec2, durations: &[u64]) -> Entity {
    let entity = spawn(world, pos);
    let moves = durations
        .iter()
        .enumerate()
        .map(|(i, duration)| BossMove {
            position: at(100 * (i as i32 + 1), 100),
            duration: *duration,
            fires: pattern(),
        })
        .collect();
    let boss = Boss { max_health: 300, move_timer: 0, current_move: 0, moves };
    world.storages.boss.insert(entity.index, boss);
    entity
}

fn move_bosses(world: &mut World) {
    let s = &mut world.storages;
    MoveBosses.run(
        &world.entities,
        &s.position,
        &mut s.boss,
        &mut s.movement,
        &mut s.fires_bullets,
    );
}

#[test]
fn a_boss_on_its_way_only_moves() {
    let mut world = World::new();
    let entity = boss(&mut world, at(240, -50), &[200, 200]);
    move_bosses(&mut world);
    let s = &world.storages;
    assert_eq!(
        s.movement.get(entity.index),
        Some(&Movement::MoveTowards(MoveTowards { position: at(100, 100), speed: BOSS_SPEED }))
    );
    assert!(!s.fires_bullets.contains(entity.index));
    let boss = s.boss.get(entity.index).unwrap();
    assert_eq!((boss.current_move, boss.move_timer), (0, 0));
}

#[test]
fn a_boss_goes_through_its_moves_and_round_again() {
    let mut world = World::new();
    let entity = boss(&mut world, at(100, 100), &[200, 100, 300]);
    let state = |world: &World| {
        let boss = world.storages.boss.get(entity.index).unwrap();
        (boss.current_move, boss.move_timer, world.storages.fires_bullets.contains(entity.index))
    };
    move_bosses(&mut world);
    assert_eq!(state(&world), (0, 100, true));
    move_bosses(&mut world);
    assert_eq!(state(&world), (1, 0, false));
    assert_eq!(
        world.storages.movement.get(entity.index),
        Some(&Movement::MoveTowards(MoveTowards { position: at(100, 100), speed: BOSS_SPEED }))
    );
    move_bosses(&mut world);
    assert_eq!(state(&world), (1, 0, false));
    assert_eq!(
        world.storages.movement.get(entity.index),
        Some(&Movement::MoveTowards(MoveTowards { position: at(200, 100), speed: BOSS_SPEED }))
    );
    world.storages.position.insert(entity.index, Position(at(200, 100)));
    move_bosses(&mut world);
    assert_eq!(state(&world), (2, 0, false));
    world.storages.position.insert(entity.index, Position(at(300, 100)));
    move_bosses(&mut world);
    assert_eq!(state(&world), (2, 100, true));
    move_bosses(&mut world);
    assert_eq!(state(&world), (2, 200, true));
    move_bosses(&mut world);
    assert_eq!(state(&world), (0, 0, false));
}

#[test]
fn a_boss_keeps_the_pattern_it_has() {
    let mut world = World::new();
    let entity = boss(&mut world, at(100, 100), &[1000]);
    let mut used = pattern();
    if let FiresBullets::AtPlayer { cooldown, .. } = &mut used {
        assert!(cooldown.is_ready(50));
    }
    world.storages.fires_bullets.insert(entity.index, used);
    move_bosses(&mut world);
    match world.storages.fires_bullets.get(entity.index) {
        Some(FiresBullets::AtPlayer { cooldown, .. }) => {
            let mut timer = *cooldown;
            assert!(!timer.is_ready(149));
            assert!(timer.is_ready(150));
        }
        _ => panic!("the pattern stays"),
    }
}

fn finish(world: &mut World) {
    let s = &world.storages;
    FinishStage.run(
        &mut world.entities,
        &mut world.updater,
        &mut world.mode,
        &world.time,
        &s.position,
        &s.enemy,
        &s.player,
        &s.boss,
    );
}

fn playing(state: PlayingState) -> Mode {
    Mode::Playing { stage: Stage::One, state, multiplayer: false }
}

#[test]
fn a_stage_goes_on_while_players_and_boss_live() {
    let mut world = World::new();
    let player = spawn(&mut world, at(1, 1));
    world.storages.player.insert(player.index, Player::Single);
    boss(&mut world, at(1, 1), &[10]);
    world.mode = playing(PlayingState::Playing);
    finish(&mut world);
    assert_eq!(world.mode, playing(PlayingState::Playing));
    assert_eq!(world.updater.len(), 0);
}

#[test]
fn a_stage_is_lost_without_players() {
    let mut world = World::new();
    boss(&mut world, at(1, 1), &[10]);
    let enemy = spawn(&mut world, at(2, 2));
    world.storages.enemy.insert(enemy.index, Enemy);
    world.mode = playing(PlayingState::Playing);
    world.time.total_time = 4200;
    finish(&mut world);
    assert_eq!(world.mode, playing(PlayingState::Lost { at: 4200 }));
    assert!(world.entities.is_alive(enemy));
    world.time.total_time = 9000;
    finish(&mut world);
    assert_eq!(world.mode, playing(PlayingState::Lost { at: 4200 }));
}

#[test]
fn a_stage_is_won_without_a_boss_and_the_enemies_blow_up() {
    let mut world = World::new();
    let player = spawn(&mut world, at(1, 1));
    world.storages.player.insert(player.index, Player::Single);
    let dead_boss = boss(&mut world, at(1, 1), &[10]);
    assert!(world.entities.delete(dead_boss).is_ok());
    let enemy = spawn(&mut world, at(2, 2));
    world.storages.enemy.insert(enemy.index, Enemy);
    let other = spawn(&mut world, at(3, 3));
    world.storages.enemy.insert(other.index, Enemy);
    world.mode = playing(PlayingState::Playing);
    world.time.total_time = 555;
    finish(&mut world);
    assert_eq!(world.mode, playing(PlayingState::Won { at: 555 }));
    assert!(!world.entities.is_alive(enemy));
    assert!(!world.entities.is_alive(other));
    assert!(world.entities.is_alive(player));
    assert_eq!(world.updater.len(), 2);
}

#[test]
fn nothing_is_finished_outside_a_stage() {
    let mut world = World::new();
    let enemy = spawn(&mut world, at(2, 2));
    world.storages.enemy.insert(enemy.index, Enemy);
    for mode in [Mode::MainMenu { selected: 0 }, Mode::Quit, playing(PlayingState::Won { at: 1 })] {
        world.mode = mode;
        finish(&mut world);
        assert_eq!(world.mode, mode);
        assert!(world.entities.is_alive(enemy));
    }
}

#[test]
fn the_outcome_is_shown_for_three_seconds() {
    assert_eq!(OUTCOME_SHOWN_FOR, 3 * hectic::SECOND);
    let mut mode = playing(PlayingState::Won { at: 1000 });
    FinishStage.conclude(&mut mode, &GameTime { total_time: 18999 });
    assert_eq!(mode, playing(PlayingState::Won { at: 1000 }));
    FinishStage.conclude(&mut mode, &GameTime { total_time: 19000 });
    assert_eq!(mode, Mode::StageComplete { stage: Stage::One, selected: 0, multiplayer: false });
    let mut mode = playing(PlayingState::Lost { at: 0 });
    FinishStage.conclude(&mut mode, &GameTime { total_time: 18000 });
    assert_eq!(mode, Mode::StageLost { stage: Stage::One, selected: 0, multiplayer: false });
    let mut mode = playing(PlayingState::Playing);
    FinishStage.conclude(&mut mode, &GameTime { total_time: u64::MAX });
    assert_eq!(mode, playing(PlayingState::Playing));
}

#[test]
fn a_blast_effect_runs_through_six_sprites_and_ends() {
    let mut world = World::new();
    let blast = spawn(&mut world, at(1, 1));
    world.storages.explosion.insert(blast.index, Explosion(1000));
    let first = GraphicsImage::Explosion1.to_u16();
    for (now, frame) in [(900u64, 0u16), (1000, 0), (1499, 0), (1500, 1), (3999, 5)] {
        let s = &mut world.storages;
        ExplosionImages.run(
            &mut world.entities,
            &s.explosion,
            &mut s.image,
            &GameTime { total_time: now },
        );
        assert_eq!(s.image.get(blast.index), Some(&Image(first + frame)));
        assert!(world.entities.is_alive(blast));
    }
    let s = &mut world.storages;
    ExplosionImages.run(&mut world.entities, &s.explosion, &mut s.image, &GameTime { total_time: 4000 });
    assert!(!world.entities.is_alive(blast));
    assert_eq!(s.image.get(blast.index), Some(&Image(first + 5)));
}

#[test]
fn a_backdrop_scrolls_round() {
    let atlas = atlas();
    let mut world = World::new();
    let clouds = Image::from(GraphicsImage::Clouds);
    let mut layer = |world: &mut World, y: i32, is_layer: bool| {
        let entity = spawn(world, Vec2::new(5, y));
        world.storages.image.insert(entity.index, clouds);
        if is_layer {
            world.storages.background_layer.insert(entity.index, BackgroundLayer { depth: 1 });
        }
        entity.index
    };
    let edge = layer(&mut world, 1920 * U, true);
    let over = layer(&mut world, 1920 * U + 1, true);
    let other = layer(&mut world, 5000 * U, false);
    let s = &mut world.storages;
    RepeatBackgroundLayers.run(
        &world.entities,
        &s.background_layer,
        &s.image,
        &mut s.position,
        &atlas,
    );
    assert_eq!(s.position.get(edge), Some(&Position(Vec2::new(5, 1920 * U))));
    assert_eq!(s.position.get(over), Some(&Position(Vec2::new(5, -1920 * U + 1))));
    assert_eq!(s.position.get(other), Some(&Position(Vec2::new(5, 5000 * U))));
}

#[test]
fn bullets_are_built_for_their_side() {
    let mut world = World::new();
    let tint = ColourOverlay(Colour { red: 1, green: 2, blue: 3, alpha: 191 });
    build_bullet(&mut world.updater, at(1, 2), Image(12), Vec2::new(3, 4), true, Some(tint));
    build_bullet(&mut world.updater, at(5, 6), Image(1), Vec2::new(0, -9), false, None);
    build_explosion(&mut world.updater, at(7, 8), 42);
    world.maintain();
    let s = &world.storages;
    assert_eq!(world.entities.count_alive(), 3);
    assert_eq!(s.position.get(0), Some(&Position(at(1, 2))));
    assert_eq!(s.image.get(0), Some(&Image(12)));
    assert_eq!(s.movement.get(0), Some(&Movement::Linear(Vec2::new(3, 4))));
    assert_eq!(s.hitbox.get(0), Some(&Hitbox(Vec2::zero())));
    assert_eq!(s.health.get(0), Some(&Health(1)));
    assert_eq!(s.colour_overlay.get(0), Some(&tint));
    assert!(s.enemy.contains(0) && s.collides_with_bomb.contains(0) && !s.friendly.contains(0));
    assert!(s.die_offscreen.contains(0));
    assert!(s.friendly.contains(1) && !s.enemy.contains(1) && !s.collides_with_bomb.contains(1));
    assert_eq!(s.colour_overlay.get(1), None);
    assert_eq!(s.movement.get(1), Some(&Movement::Linear(Vec2::new(0, -9))));
    assert_eq!(s.explosion.get(2), Some(&Explosion(42)));
    assert_eq!(s.position.get(2), Some(&Position(at(7, 8))));
    assert!(!s.image.contains(2));
}
