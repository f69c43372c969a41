use hectic::components::BeenOnscreen;
use hectic::components::BulletSetup;
use hectic::components::ColourBullets;
use hectic::components::Cooldown;
use hectic::components::FiresBullets;
use hectic::components::FrozenUntil;
use hectic::components::Image;
use hectic::components::Position;
use hectic::math::Vec2;
use hectic::resources::Aim;
use hectic::resources::BulletSpawner;
use hectic::resources::BulletToBeSpawned;
use hectic::resources::GameTime;
use hectic::resources::PlayerPositions;
use hectic::systems::bullets::draw_targets;
use hectic::systems::bullets::fire;
use hectic::systems::bullets::handle_fires_bullets;
use hectic::systems::bullets::FireBullets;
use hectic::world::World;

fn setup() -> BulletSetup {
    BulletSetup { image: Image(11), speed: 2867, colour: None }
}

fn arc(initial: i32, spread: i32, total: u16, at_once: u16, interval: u64) -> FiresBullets {
    FiresBullets::Arc {
        initial_rotation: initial,
        spread,
        fired_at_once: at_once,
        number_to_fire: total,
        fired_so_far: 0,
        cooldown: Cooldown::new(interval),
        setup: setup(),
    }
}

fn headings(shots: &[BulletToBeSpawned]) -> Vec<i64> {
    shots
        .iter()
        .map(|shot| match shot.aim {
            Aim::Heading(angle) => angle,
            Aim::Towards { .. } => panic!("a heading was expected"),
        })
        .collect()
}

#[test]
fn arc_fires_its_number_and_then_nothing() {
    let mut pattern = arc(1000, 600, 5, 2, 100);
    let mut spawner = BulletSpawner(Vec::new());
    let pos = Vec2::new(7, 8);
    let mut counts = Vec::new();
    let mut time = 0;
    for _ in 0..12 {
        let before = spawner.0.len();
        let next = fire(&mut spawner, &mut pattern, time, &Vec::new(), 0, pos);
        assert_eq!(next, 0);
        counts.push(spawner.0.len() - before);
        time += 50;
    }
    assert_eq!(counts, vec![2, 0, 2, 0, 1, 0, 0, 0, 0, 0, 0, 0]);
    assert_eq!(spawner.0.len(), 5);
    assert_eq!(headings(&spawner.0), vec![1000, 1120, 1240, 1360, 1480]);
    for shot in spawner.0.iter() {
        assert_eq!(shot.pos, pos);
        assert_eq!(shot.image, Image(11));
        assert_eq!(shot.speed, 2867);
        assert_eq!(shot.colour, None);
        assert!(shot.enemy);
    }
    match pattern {
        FiresBullets::Arc { fired_so_far, .. } => assert_eq!(fired_so_far, 5),
        _ => panic!("still an arc"),
    }
}

#[test]
fn arc_takes_as_many_firings_as_its_number_needs() {
    for (total, at_once) in [(20u16, 1u16), (100, 2), (101, 2), (777, 1), (7, 10), (0, 3)] {
        let mut pattern = arc(0, 1000, total, at_once, 10);
        let mut spawner = BulletSpawner(Vec::new());
        let mut firings = 0;
        let mut time = 0;
        while spawner.0.len() < total as usize {
            let before = spawner.0.len();
            fire(&mut spawner, &mut pattern, time, &Vec::new(), 0, Vec2::zero());
            assert!(spawner.0.len() > before);
            firings += 1;
            time += 10;
        }
        let needed = (total as usize + at_once as usize - 1) / at_once as usize;
        assert_eq!(firings, needed);
        for _ in 0..5 {
            fire(&mut spawner, &mut pattern, time, &Vec::new(), 0, Vec2::zero());
            time += 10;
        }
        assert_eq!(spawner.0.len(), total as usize);
    }
}

#[test]
fn arc_with_nothing_at_once_never_fires() {
    let mut pattern = arc(0, 1000, 5, 0, 10);
    let mut spawner = BulletSpawner(Vec::new());
    for time in 0..50 {
        fire(&mut spawner, &mut pattern, time * 10, &Vec::new(), 0, Vec2::zero());
    }
    assert!(spawner.0.is_empty());
}

#[test]
fn arc_sweeps_backwards_through_a_negative_spread() {
    let mut pattern = arc(2_000_000, -2_000_000, 4, 4, 10);
    let mut spawner = BulletSpawner(Vec::new());
    fire(&mut spawner, &mut pattern, 0, &Vec::new(), 0, Vec2::zero());
    assert_eq!(headings(&spawner.0), vec![2_000_000, 1_500_000, 1_000_000, 500_000]);
}

#[test]
fn fan_lies_evenly_about_the_bearing() {
    let mut pattern = FiresBullets::AtPlayer {
        num_bullets: 3,
        spread: 1_000_000,
        cooldown: Cooldown::new(6000),
        setup: BulletSetup { image: Image(14), speed: 3413, colour: Some(ColourBullets::Orange) },
    };
    let mut spawner = BulletSpawner(Vec::new());
    let target = Vec2::new(100, 200);
    let next = fire(&mut spawner, &mut pattern, 10, &vec![Vec2::zero(), target], 1, Vec2::new(5, 5));
    assert_eq!(next, 2);
    let offsets: Vec<i64> = spawner
        .0
        .iter()
        .map(|shot| match shot.aim {
            Aim::Towards { target: aimed_at, offset } => {
                assert_eq!(aimed_at, target);
                offset
            }
            Aim::Heading(_) => panic!("a fan aims at its target"),
        })
        .collect();
    assert_eq!(offsets, vec![333_333, 0, -333_333]);
    assert_eq!(spawner.0[0].colour, Some(ColourBullets::Orange));
    assert_eq!(spawner.0[0].pos, Vec2::new(5, 5));
    let before = spawner.0.len();
    let next = fire(&mut spawner, &mut pattern, 6009, &vec![target], 0, Vec2::new(5, 5));
    assert_eq!(next, 1);
    assert_eq!(spawner.0.len(), before);
}

#[test]
fn fan_of_one_flies_straight_and_fan_of_none_is_empty() {
    for (count, expected) in [(1u16, vec![0i64]), (0, vec![]), (2, vec![125_000, -125_000])] {
        let mut pattern = FiresBullets::AtPlayer {
            num_bullets: count,
            spread: 500_000,
            cooldown: Cooldown::new(1),
            setup: setup(),
        };
        let mut spawner = BulletSpawner(Vec::new());
        fire(&mut spawner, &mut pattern, 0, &vec![Vec2::new(1, 1)], 0, Vec2::zero());
        let offsets: Vec<i64> = spawner
            .0
            .iter()
            .map(|shot| match shot.aim {
                Aim::Towards { offset, .. } => offset,
                Aim::Heading(_) => panic!("a fan aims at its target"),
            })
            .collect();
        assert_eq!(offsets, expected);
    }
}

#[test]
fn ring_is_even_and_turns_on_with_every_volley() {
    let mut pattern = FiresBullets::Circle {
        sides: 4,
        rotation_per_fire: 500_000,
        rotation: 0,
        cooldown: Cooldown::new(600),
        setup: setup(),
    };
    let mut spawner = BulletSpawner(Vec::new());
    fire(&mut spawner, &mut pattern, 0, &Vec::new(), 0, Vec2::zero());
    assert_eq!(headings(&spawner.0), vec![0, 1_570_796, 3_141_592, 4_712_388]);
    fire(&mut spawner, &mut pattern, 599, &Vec::new(), 0, Vec2::zero());
    assert_eq!(spawner.0.len(), 4);
    fire(&mut spawner, &mut pattern, 600, &Vec::new(), 0, Vec2::zero());
    assert_eq!(headings(&spawner.0[4..]), vec![500_000, 2_070_796, 3_641_592, 5_212_388]);
    match pattern {
        FiresBullets::Circle { rotation, .. } => assert_eq!(rotation, 1_000_000),
        _ => panic!("still a ring"),
    }
}

#[test]
fn ring_rotation_is_the_sum_of_its_turns() {
    let mut pattern = FiresBullets::Circle {
        sides: 2,
        rotation_per_fire: 500_000,
        rotation: 6_000_000,
        cooldown: Cooldown::new(1),
        setup: setup(),
    };
    let mut spawner = BulletSpawner(Vec::new());
    fire(&mut spawner, &mut pattern, 0, &Vec::new(), 0, Vec2::zero());
    assert_eq!(headings(&spawner.0), vec![6_000_000, 6_000_000 + 3_141_592]);
    match &pattern {
        FiresBullets::Circle { rotation, sides, rotation_per_fire, .. } => {
            assert_eq!((*rotation, *sides, *rotation_per_fire), (6_500_000, 2, 500_000));
        }
        _ => panic!("still a ring"),
    }
    fire(&mut spawner, &mut pattern, 1, &Vec::new(), 0, Vec2::zero());
    assert_eq!(headings(&spawner.0[2..]), vec![6_500_000, 6_500_000 + 3_141_592]);
    match pattern {
        FiresBullets::Circle { rotation, .. } => assert_eq!(rotation, 7_000_000),
        _ => panic!("still a ring"),
    }
}

#[test]
fn ring_rotation_turns_back_and_saturates() {
    let mut back = FiresBullets::Circle {
        sides: 1,
        rotation_per_fire: -700_000,
        rotation: 200_000,
        cooldown: Cooldown::new(1),
        setup: setup(),
    };
    let mut spawner = BulletSpawner(Vec::new());
    fire(&mut spawner, &mut back, 0, &Vec::new(), 0, Vec2::zero());
    match back {
        FiresBullets::Circle { rotation, .. } => assert_eq!(rotation, -500_000),
        _ => panic!("still a ring"),
    }
    let mut far = FiresBullets::Circle {
        sides: 1,
        rotation_per_fire: i32::MAX,
        rotation: 5,
        cooldown: Cooldown::new(1),
        setup: setup(),
    };
    fire(&mut spawner, &mut far, 0, &Vec::new(), 0, Vec2::zero());
    match far {
        FiresBullets::Circle { rotation, .. } => assert_eq!(rotation, i32::MAX),
        _ => panic!("still a ring"),
    }
}

#[test]
fn nested_patterns_fire_in_order_and_share_the_targets() {
    let fan = |interval| FiresBullets::AtPlayer {
        num_bullets: 1,
        spread: 0,
        cooldown: Cooldown::ready_at(100, interval),
        setup: setup(),
    };
    let mut pattern = FiresBullets::Multiple(vec![
        fan(0),
        FiresBullets::Multiple(vec![arc(5, 0, 1, 1, 10), fan(1000)]),
        fan(0),
    ]);
    let targets = vec![Vec2::new(1, 0), Vec2::new(2, 0), Vec2::new(3, 0)];
    let mut spawner = BulletSpawner(Vec::new());
    let next = fire(&mut spawner, &mut pattern, 0, &targets, 0, Vec2::zero());
    assert_eq!(next, 3);
    let aims: Vec<Aim> = spawner.0.iter().map(|shot| shot.aim).collect();
    assert_eq!(
        aims,
        vec![
            Aim::Towards { target: Vec2::new(1, 0), offset: 0 },
            Aim::Heading(5),
            Aim::Towards { target: Vec2::new(3, 0), offset: 0 },
        ]
    );
    spawner.0.clear();
    fire(&mut spawner, &mut pattern, 1000, &targets, 0, Vec2::zero());
    let aims: Vec<Aim> = spawner.0.iter().map(|shot| shot.aim).collect();
    assert_eq!(
        aims,
        vec![
            Aim::Towards { target: Vec2::new(1, 0), offset: 0 },
            Aim::Towards { target: Vec2::new(2, 0), offset: 0 },
            Aim::Towards { target: Vec2::new(3, 0), offset: 0 },
        ]
    );
}

#[test]
fn targets_are_drawn_from_the_players() {
    let players = PlayerPositions(vec![Vec2::new(10, 10), Vec2::new(20, 20)]);
    let fan = FiresBullets::AtPlayer {
        num_bullets: 2,
        spread: 0,
        cooldown: Cooldown::new(1),
        setup: setup(),
    };
    let pattern = FiresBullets::Multiple(vec![fan.duplicate(), arc(0, 0, 1, 1, 1), fan]);
    let mut rng = rand::thread_rng();
    let mut targets = vec![Vec2::new(-1, -1)];
    for _ in 0..50 {
        draw_targets(&pattern, &players, &mut rng, &mut targets);
    }
    assert_eq!(targets.len(), 101);
    assert_eq!(targets[0], Vec2::new(-1, -1));
    assert!(targets[1..].iter().all(|t| players.0.contains(t)));
    assert!(targets[1..].contains(&Vec2::new(10, 10)));
    assert!(targets[1..].contains(&Vec2::new(20, 20)));
}

#[test]
fn without_players_a_point_of_the_screen_is_the_target() {
    let players = PlayerPositions(Vec::new());
    let mut rng = rand::thread_rng();
    let mut seen = std::collections::HashSet::new();
    for _ in 0..200 {
        let target = players.random(&mut rng);
        assert!(0 <= target.x && target.x < hectic::WIDTH);
        assert!(0 <= target.y && target.y < hectic::HEIGHT);
        seen.insert((target.x, target.y));
    }
    assert!(seen.len() > 100);
}

#[test]
fn a_lone_player_is_always_the_target() {
    let players = PlayerPositions(vec![Vec2::new(240, 320)]);
    let mut rng = rand::thread_rng();
    for _ in 0..20 {
        assert_eq!(players.random(&mut rng), Vec2::new(240, 320));
    }
}

#[test]
fn handling_a_pattern_aims_at_the_lone_player() {
    let players = PlayerPositions(vec![Vec2::new(240, 320)]);
    let mut pattern = FiresBullets::AtPlayer {
        num_bullets: 5,
        spread: 500_000,
        cooldown: Cooldown::new(1500),
        setup: setup(),
    };
    let mut spawner = BulletSpawner(Vec::new());
    let mut rng = rand::thread_rng();
    handle_fires_bullets(&mut spawner, &mut pattern, 0, &players, &mut rng, Vec2::new(1, 2));
    let offsets: Vec<i64> = spawner
        .0
        .iter()
        .map(|shot| match shot.aim {
            Aim::Towards { target, offset } => {
                assert_eq!(target, Vec2::new(240, 320));
                offset
            }
            Aim::Heading(_) => panic!("a fan aims at its target"),
        })
        .collect();
    assert_eq!(offsets, vec![200_000, 100_000, 0, -100_000, -200_000]);
    handle_fires_bullets(&mut spawner, &mut pattern, 1499, &players, &mut rng, Vec2::new(1, 2));
    assert_eq!(spawner.0.len(), 5);
}

#[test]
fn only_those_seen_on_the_screen_and_awake_fire() {
    let mut world = World::new();
    let mut add = |world: &mut World, onscreen: bool, frozen: bool, with_pos: bool| {
        let entity = world.entities.create();
        let s = &mut world.storages;
        if with_pos {
            s.position.insert(entity.index, Position(Vec2::new(entity.index as i32, 0)));
        }
        if onscreen {
            s.been_onscreen.insert(entity.index, BeenOnscreen);
        }
        if frozen {
            s.frozen_until.insert(entity.index, FrozenUntil(5));
        }
        s.fires_bullets.insert(entity.index, arc(0, 0, 3, 1, 10));
        entity
    };
    let shooter = add(&mut world, true, false, true);
    let unseen = add(&mut world, false, false, true);
    let frozen = add(&mut world, true, true, true);
    let nowhere = add(&mut world, true, false, false);
    let dead = add(&mut world, true, false, true);
    assert!(world.entities.delete(dead).is_ok());
    let other = add(&mut world, true, false, true);
    let mut spawner = BulletSpawner(Vec::new());
    let s = &mut world.storages;
    FireBullets.run(
        &world.entities,
        &s.position,
        &mut s.fires_bullets,
        &s.been_onscreen,
        &s.frozen_until,
        &mut spawner,
        &GameTime { total_time: 0 },
        &PlayerPositions(Vec::new()),
    );
    let origins: Vec<Vec2> = spawner.0.iter().map(|shot| shot.pos).collect();
    assert_eq!(
        origins,
        vec![Vec2::new(shooter.index as i32, 0), Vec2::new(other.index as i32, 0)]
    );
    let fired = |world: &World, index: usize| match world.storages.fires_bullets.get(index) {
        Some(FiresBullets::Arc { fired_so_far, .. }) => *fired_so_far,
        _ => panic!("an arc"),
    };
    assert_eq!(fired(&world, shooter.index), 1);
    assert_eq!(fired(&world, other.index), 1);
    for idle in [unseen, frozen, nowhere, dead] {
        assert_eq!(fired(&world, idle.index), 0);
    }
}
