use hectic::components::BossMove;
use hectic::components::Cooldown;
use hectic::components::FiresBullets;
use hectic::components::FrozenUntil;
use hectic::components::Health;
use hectic::components::Hitbox;
use hectic::components::Image;
use hectic::components::Invulnerability;
use hectic::components::Movement;
use hectic::components::Player;
use hectic::components::Position;
use hectic::components::PowerBar;
use hectic::components::TargetPlayer;
use hectic::graphics::Image as GraphicsImage;
use hectic::lazy::Component;
use hectic::lazy::LazyUpdate;
use hectic::math::Vec2;
use hectic::resources::Aim;
use hectic::resources::BulletToBeSpawned;
use hectic::resources::Damage;
use hectic::resources::Mode;
use hectic::resources::PlayingState;
use hectic::resources::Stage;
use hectic::stages::stage_one;
use hectic::stages::stage_one_scripted;
use hectic::stages::stage_two;
use hectic::stages::stage_two_scripted;
use hectic::stages::STAGE_ONE_ROLLS;
use hectic::stages::STAGE_TWO_ROLLS;
use hectic::storage::Entities;
use hectic::storage::Entity;
use hectic::storage::Storage;
use hectic::storage::WrongGeneration;
use hectic::world::World;

const U: i32 = 1024;

#[test]
fn entities_get_the_first_free_slot() {
    let mut entities = Entities::new();
    let a = entities.create();
    let b = entities.create();
    let c = entities.create();
    assert_eq!(a, Entity { index: 0, generation: 0 });
    assert_eq!((b.index, c.index), (1, 2));
    assert_eq!(entities.len(), 3);
    assert_eq!(entities.count_alive(), 3);
    assert_eq!(entities.delete(b), Ok(()));
    assert!(!entities.is_alive(b));
    assert!(entities.killed_at(1));
    assert_eq!(entities.create().index, 3);
    entities.sweep();
    assert!(!entities.killed_at(1));
    let reused = entities.create();
    assert_eq!(reused, Entity { index: 1, generation: 1 });
    assert!(entities.is_alive(reused));
    assert!(!entities.is_alive(b));
    assert_eq!(entities.delete(b), Err(WrongGeneration));
    assert!(entities.is_alive(reused));
    assert_eq!(entities.entity_at(1), Some(reused));
    assert_eq!(entities.entity_at(9), None);
    assert!(!entities.alive_at(9));
}

#[test]
fn a_deleted_entity_cannot_be_deleted_again() {
    let mut entities = Entities::new();
    let a = entities.create();
    assert_eq!(entities.delete(a), Ok(()));
    assert_eq!(entities.delete(a), Err(WrongGeneration));
    assert_eq!(entities.delete(Entity { index: 5, generation: 0 }), Err(WrongGeneration));
    assert_eq!(entities.count_alive(), 0);
    entities.delete_all();
    assert_eq!(entities.len(), 1);
}

#[test]
fn a_table_is_sparse() {
    let mut table: Storage<Health> = Storage::new();
    assert_eq!(table.get(3), None);
    assert_eq!(table.insert(3, Health(5)), None);
    assert_eq!(table.insert(3, Health(6)), Some(Health(5)));
    assert!(table.contains(3));
    assert!(!table.contains(2) && !table.contains(4));
    if let Some(health) = table.get_mut(3) {
        health.0 = 9;
    }
    assert!(table.get_mut(2).is_none());
    assert_eq!(table.get(3), Some(&Health(9)));
    assert_eq!(table.remove(3), Some(Health(9)));
    assert_eq!(table.remove(3), None);
    assert_eq!(table.remove(100), None);
    table.insert(0, Health(1));
    table.clear();
    assert!(!table.contains(0));
}

#[test]
fn purging_drops_the_components_of_the_deleted() {
    let mut entities = Entities::new();
    let a = entities.create();
    let b = entities.create();
    let mut table: Storage<Health> = Storage::new();
    table.insert(a.index, Health(1));
    table.insert(b.index, Health(2));
    table.insert(7, Health(7));
    assert_eq!(entities.delete(a), Ok(()));
    table.purge(&entities);
    assert_eq!(table.get(a.index), None);
    assert_eq!(table.get(b.index), Some(&Health(2)));
    assert_eq!(table.get(7), Some(&Health(7)));
}

#[test]
fn the_sync_point_makes_what_was_asked_for_in_order() {
    let mut world = World::new();
    let old = world.entities.create();
    world.storages.health.insert(old.index, Health(9));
    world.storages.position.insert(old.index, Position(Vec2::new(1, 1)));
    let kept = world.entities.create();
    world.storages.health.insert(kept.index, Health(8));
    assert!(world.entities.delete(old).is_ok());
    world
        .updater
        .create_entity()
        .with(Component::Health(Health(1)))
        .with(Component::Health(Health(2)))
        .build(&mut world.updater);
    world.updater.create_entity().with(Component::Player(Player::Two)).build(&mut world.updater);
    world.updater.create_entity().build(&mut world.updater);
    assert_eq!(world.updater.len(), 3);
    world.mode = Mode::Quit;
    world.time.total_time = 33;
    world.maintain();
    assert_eq!(world.updater.len(), 0);
    assert_eq!((world.mode, world.time.total_time), (Mode::Quit, 33));
    assert_eq!(world.entities.len(), 4);
    assert_eq!(world.entities.count_alive(), 4);
    assert_eq!(world.storages.health.get(0), Some(&Health(2)));
    assert_eq!(world.storages.position.get(0), None);
    assert_eq!(world.entities.entity_at(0), Some(Entity { index: 0, generation: 1 }));
    assert_eq!(world.storages.health.get(1), Some(&Health(8)));
    assert_eq!(world.storages.player.get(2), Some(&Player::Two));
    assert_eq!(world.storages.health.get(2), None);
    assert!(world.entities.alive_at(3));
    world.maintain();
    assert_eq!(world.entities.count_alive(), 4);
}

#[test]
fn a_new_entity_takes_nothing_over_from_its_slot() {
    let mut world = World::new();
    world.storages.health.insert(0, Health(77));
    world.storages.text.remove(0);
    world.updater.create_entity().with(Component::Player(Player::One)).build(&mut world.updater);
    world.maintain();
    assert_eq!(world.storages.health.get(0), None);
    assert_eq!(world.storages.player.get(0), Some(&Player::One));
}

#[test]
fn storages_insert_and_wipe_by_slot() {
    let mut world = World::new();
    world.storages.insert(4, Component::Health(Health(3)));
    world.storages.insert(4, Component::PowerBar(PowerBar(1)));
    world.storages.insert(5, Component::Health(Health(4)));
    world.storages.wipe(4);
    assert_eq!(world.storages.health.get(4), None);
    assert_eq!(world.storages.power_bar.get(4), None);
    assert_eq!(world.storages.health.get(5), Some(&Health(4)));
}

fn census(world: &World) -> (usize, usize, usize, usize, usize) {
    let s = &world.storages;
    let mut counts = (0, 0, 0, 0, 0);
    for i in 0..world.entities.len() {
        if !world.entities.alive_at(i) {
            continue;
        }
        counts.0 += 1;
        counts.1 += s.player.contains(i) as usize;
        counts.2 += s.enemy.contains(i) as usize;
        counts.3 += s.boss.contains(i) as usize;
        counts.4 += s.background_layer.contains(i) as usize;
    }
    counts
}

fn start_one(world: &mut World, multiplayer: bool, rolls: &Vec<u32>) {
    stage_one_scripted(
        &mut world.entities,
        &mut world.updater,
        multiplayer,
        &mut world.time.total_time,
        rolls,
    );
}

#[test]
fn stage_one_fills_the_world() {
    let mut world = World::new();
    world.time.total_time = 999;
    let rolls: Vec<u32> = (0..STAGE_ONE_ROLLS as u32).collect();
    start_one(&mut world, false, &rolls);
    assert_eq!(world.time.total_time, 0);
    assert_eq!(world.updater.len(), 274);
    world.maintain();
    assert_eq!(census(&world), (274, 1, 269, 1, 3));
    let s = &world.storages;
    assert_eq!(s.text.get(3).map(|t| t.text.as_str()), Some("Stage\nOne"));
    assert_eq!(s.position.get(4), Some(&Position(Vec2::new(240 * U, 320 * U))));
    assert_eq!(s.player.get(4), Some(&Player::Single));
    assert_eq!(s.health.get(4), Some(&Health(3)));
    assert_eq!(s.hitbox.get(4), Some(&Hitbox(Vec2::new(10 * U, 10 * U))));
    assert_eq!(s.power_bar.get(4), Some(&PowerBar(0)));
    assert_eq!(s.cooldown.get(4), Some(&Cooldown::new(450)));
    assert_eq!(s.invulnerability.get(4), Some(&Invulnerability::new()));
    assert!(s.friendly.contains(4));
    assert_eq!(s.frozen_until.get(5), Some(&FrozenUntil(6000)));
    assert_eq!(s.position.get(5), Some(&Position(Vec2::new(-20 * U, 100 * U))));
    assert_eq!(s.health.get(5), Some(&Health(4)));
    assert_eq!(s.image.get(5), Some(&Image::from(GraphicsImage::Bat)));
    assert!(matches!(s.movement.get(5), Some(Movement::FollowCurve(_))));
    assert_eq!(s.frozen_until.get(6), Some(&FrozenUntil(6000)));
    assert_eq!(s.frozen_until.get(7), Some(&FrozenUntil(7500)));
}

#[test]
fn stage_one_uses_its_rolls_in_order() {
    let mut world = World::new();
    let rolls: Vec<u32> = (0..STAGE_ONE_ROLLS as u32).map(|i| 1000 + i).collect();
    start_one(&mut world, false, &rolls);
    world.maintain();
    let s = &world.storages;
    let gargoyle = Image::from(GraphicsImage::Gargoyle);
    let first = (0..world.entities.len()).find(|i| s.image.get(*i) == Some(&gargoyle)).unwrap();
    assert_eq!(s.position.get(first), Some(&Position(Vec2::new(120 * U, -50 * U))));
    assert_eq!(s.frozen_until.get(first), Some(&FrozenUntil(144000)));
    assert_eq!(
        s.movement.get(first),
        Some(&Movement::FiringMove { speed: 2560, return_time: 204000, stop_time: 150000 })
    );
    match s.fires_bullets.get(first) {
        Some(FiresBullets::AtPlayer { num_bullets, spread, cooldown, setup }) => {
            assert_eq!((*num_bullets, *spread), (3, 1_000_000));
            assert_eq!(*cooldown, Cooldown::ready_at(6000, 144000 + 4500 + 1000));
            assert_eq!(setup.image, Image::from(GraphicsImage::RockBullet));
            assert_eq!(setup.speed, 2867);
        }
        _ => panic!("a gargoyle fires fans"),
    }
    assert_eq!(s.position.get(first + 4), Some(&Position(Vec2::new(300 * U, -50 * U))));
    assert_eq!(s.frozen_until.get(first + 4), Some(&FrozenUntil(168000)));
    let hell_bat = Image::from(GraphicsImage::HellBat);
    let bats: Vec<usize> =
        (0..world.entities.len()).filter(|i| s.image.get(*i) == Some(&hell_bat)).collect();
    assert_eq!(bats.len(), 60);
    for (k, bat) in bats.iter().enumerate() {
        assert_eq!(s.position.get(*bat), Some(&Position(Vec2::new(1005 + k as i32, -50 * U))));
        assert_eq!(s.frozen_until.get(*bat), Some(&FrozenUntil(210000 + 1500 * k as u64)));
        assert_eq!(s.target_player.get(*bat), Some(&TargetPlayer(2560)));
        assert_eq!(s.health.get(*bat), Some(&Health(12)));
    }
    let last = world.entities.len() - 1;
    assert_eq!(s.frozen_until.get(last), Some(&FrozenUntil(330000)));
    assert_eq!(s.health.get(last), Some(&Health(300)));
    let boss = s.boss.get(last).unwrap();
    assert_eq!((boss.max_health, boss.current_move, boss.move_timer, boss.moves.len()), (300, 0, 0, 4));
    let first_move: &BossMove = boss.current_move();
    assert_eq!(first_move.position, Vec2::new(100 * U, 100 * U));
    assert_eq!(first_move.duration, 24000);
    match &first_move.fires {
        FiresBullets::Multiple(parts) => assert_eq!(parts.len(), 2),
        _ => panic!("the first move fires two arcs"),
    }
    let sweeper = last - 1;
    assert_eq!(s.frozen_until.get(sweeper), Some(&FrozenUntil(294000)));
    match s.fires_bullets.get(sweeper) {
        Some(FiresBullets::AtPlayer { cooldown, .. }) => {
            assert_eq!(*cooldown, Cooldown::ready_at(6000, 294000 + 1069));
        }
        _ => panic!("a sweeping gargoyle fires"),
    }
}

#[test]
fn two_players_stand_side_by_side() {
    let mut world = World::new();
    let rolls = vec![0; STAGE_ONE_ROLLS];
    start_one(&mut world, true, &rolls);
    world.maintain();
    assert_eq!(census(&world), (275, 2, 269, 1, 3));
    let s = &world.storages;
    assert_eq!(s.player.get(4), Some(&Player::One));
    assert_eq!(s.position.get(4), Some(&Position(Vec2::new(220 * U, 320 * U))));
    assert_eq!(s.player.get(5), Some(&Player::Two));
    assert_eq!(s.position.get(5), Some(&Position(Vec2::new(260 * U, 320 * U))));
}

#[test]
fn stage_two_fills_the_world() {
    let mut world = World::new();
    let rolls: Vec<u32> = (0..STAGE_TWO_ROLLS as u32).collect();
    stage_two_scripted(
        &mut world.entities,
        &mut world.updater,
        false,
        &mut world.time.total_time,
        &rolls,
    );
    world.maintain();
    assert_eq!(census(&world), (168, 1, 161, 1, 5));
    let s = &world.storages;
    let spectre = Image::from(GraphicsImage::Spectre);
    let first = (0..world.entities.len()).find(|i| s.image.get(*i) == Some(&spectre)).unwrap();
    assert_eq!(s.position.get(first), Some(&Position(Vec2::new(-20 * U, 0))));
    assert_eq!(s.frozen_until.get(first), Some(&FrozenUntil(30000)));
    match s.movement.get(first) {
        Some(Movement::FollowCurve(curve)) => {
            assert_eq!((curve.b.y, curve.c.y, curve.speed), (0, 1, 3413));
        }
        _ => panic!("a spectre follows a curve"),
    }
    match s.fires_bullets.get(first) {
        Some(FiresBullets::AtPlayer { cooldown, .. }) => {
            assert_eq!(*cooldown, Cooldown::ready_at(6000, 30002));
        }
        _ => panic!("a spectre fires"),
    }
    let skull = Image::from(GraphicsImage::FlyingSkull);
    let skulls: Vec<usize> =
        (0..world.entities.len()).filter(|i| s.image.get(*i) == Some(&skull)).collect();
    assert_eq!(skulls.len(), 10 + 30 * 4);
    assert_eq!(s.position.get(skulls[0]), Some(&Position(Vec2::new(90, -25 * U))));
    assert_eq!(s.frozen_until.get(skulls[9]), Some(&FrozenUntil(177000)));
    assert_eq!(s.position.get(skulls[9]), Some(&Position(Vec2::new(90 + 36, -25 * U))));
    assert_eq!(s.frozen_until.get(skulls[10]), Some(&FrozenUntil(180000)));
    assert_eq!(s.position.get(skulls[10]), Some(&Position(Vec2::new(130, -25 * U))));
    assert_eq!(s.position.get(skulls[11]), Some(&Position(Vec2::new(131, -25 * U))));
    assert_eq!(s.position.get(skulls[12]), Some(&Position(Vec2::new(-25 * U, 132))));
    assert_eq!(s.position.get(skulls[13]), Some(&Position(Vec2::new(505 * U, 133))));
    let last = world.entities.len() - 1;
    assert_eq!(s.health.get(last), Some(&Health(400)));
    assert_eq!(s.boss.get(last).unwrap().moves.len(), 4);
}

#[test]
fn starting_a_stage_twice_leaves_the_second_start() {
    let mut once = World::new();
    let rolls: Vec<u32> = (0..STAGE_ONE_ROLLS as u32).collect();
    start_one(&mut once, true, &rolls);
    once.maintain();
    let mut twice = World::new();
    let other: Vec<u32> = vec![7; STAGE_TWO_ROLLS];
    stage_two_scripted(
        &mut twice.entities,
        &mut twice.updater,
        false,
        &mut twice.time.total_time,
        &other,
    );
    start_one(&mut twice, true, &rolls);
    twice.maintain();
    assert_eq!(census(&twice), census(&once));
    let mut again = World::new();
    start_one(&mut again, false, &vec![3; STAGE_ONE_ROLLS]);
    again.maintain();
    again.time.total_time = 5000;
    start_one(&mut again, true, &rolls);
    again.maintain();
    assert_eq!(again.time.total_time, 0);
    assert_eq!(census(&again), census(&once));
    assert_eq!(again.entities.len(), once.entities.len());
    for i in 0..again.entities.len() {
        assert_eq!(again.storages.position.get(i), once.storages.position.get(i));
        assert_eq!(again.storages.health.get(i), once.storages.health.get(i));
        assert_eq!(again.storages.frozen_until.get(i), once.storages.frozen_until.get(i));
        assert_eq!(again.storages.player.get(i), once.storages.player.get(i));
        assert_eq!(again.storages.image.get(i), once.storages.image.get(i));
        assert_eq!(again.storages.text.contains(i), once.storages.text.contains(i));
    }
}

#[test]
fn a_stage_start_drops_what_waited() {
    let mut world = World::new();
    world.updater.create_entity().with(Component::Health(Health(1))).build(&mut world.updater);
    start_one(&mut world, false, &vec![0; STAGE_ONE_ROLLS]);
    assert_eq!(world.updater.len(), 274);
}

#[test]
fn a_stage_start_drops_the_bullets_and_contacts_that_wait() {
    let mut world = World::new();
    let entity = world.entities.create();
    world.bullet_spawner.0.push(BulletToBeSpawned {
        pos: Vec2::new(1, 1),
        image: Image(1),
        speed: 5,
        aim: Aim::Heading(0),
        colour: None,
        enemy: true,
    });
    world.damage_tracker.0.push(Damage { friendly: entity, enemy: entity, position: Vec2::zero() });
    world.maintain();
    assert_eq!((world.bullet_spawner.0.len(), world.damage_tracker.0.len()), (1, 1));
    world.start_stage(Stage::Two, false);
    assert!(world.bullet_spawner.0.is_empty());
    assert!(world.damage_tracker.0.is_empty());
    assert_eq!(world.updater.len(), 168);
}

#[test]
fn random_stages_stay_within_their_bounds() {
    let mut entities = Entities::new();
    let mut updater = LazyUpdate::new();
    let mut time = 5;
    stage_one(&mut entities, &mut updater, false, &mut time);
    assert_eq!((time, updater.len()), (0, 274));
    stage_two(&mut entities, &mut updater, true, &mut time);
    assert_eq!(updater.len(), 169);
    let mut world = World::new();
    world.start_stage(Stage::One, false);
    assert_eq!(
        world.mode,
        Mode::Playing { stage: Stage::One, state: PlayingState::Playing, multiplayer: false }
    );
    world.maintain();
    let s = &world.storages;
    let hell_bat = Image::from(GraphicsImage::HellBat);
    let mut seen = std::collections::HashSet::new();
    for i in 0..world.entities.len() {
        if s.image.get(i) == Some(&hell_bat) {
            let x = s.position.get(i).unwrap().0.x;
            assert!(0 <= x && x < hectic::WIDTH);
            seen.insert(x);
        }
    }
    assert!(seen.len() > 30);
    world.start_stage(Stage::Two, true);
    world.maintain();
    assert_eq!(census(&world), (169, 2, 161, 1, 5));
    assert_eq!(world.time.total_time, 0);
}

#[test]
fn two_starts_hold_the_same_kinds() {
    let mut world = World::new();
    for (stage, multiplayer, expected) in [
        (Stage::One, false, (274, 1, 269, 1, 3)),
        (Stage::One, true, (275, 2, 269, 1, 3)),
        (Stage::Two, false, (168, 1, 161, 1, 5)),
        (Stage::Two, true, (169, 2, 161, 1, 5)),
    ] {
        world.start_stage(stage, multiplayer);
        world.maintain();
        let first = census(&world);
        let frozen = |w: &World| {
            (0..w.entities.len())
                .filter(|i| w.entities.alive_at(*i) && w.storages.frozen_until.contains(*i))
                .count()
        };
        let first_frozen = frozen(&world);
        world.start_stage(stage, multiplayer);
        world.maintain();
        assert_eq!(first, expected);
        assert_eq!(census(&world), expected);
        assert_eq!((first_frozen, frozen(&world)), (expected.2, expected.2));
    }
}
