use hectic::components::Colour;
use hectic::components::ColourOverlay;
use hectic::components::Image;
use hectic::components::Movement;
use hectic::components::Position;
use hectic::math::Vec2;
use hectic::pipeline::Pipeline;
use hectic::pipeline::System;
use hectic::resources::Aim;
use hectic::resources::BulletSpawner;
use hectic::resources::BulletToBeSpawned;
use hectic::resources::Mode;
use hectic::resources::PlayingState;
use hectic::resources::Stage;
use hectic::systems::is_paced;
use hectic::systems::SpawnBullets;
use hectic::world::World;

fn place(order: &[System], system: System) -> usize {
    let places: Vec<usize> =
        order.iter().enumerate().filter(|(_, s)| **s == system).map(|(i, _)| i).collect();
    assert_eq!(places.len(), 1);
    places[0]
}

#[test]
fn each_mode_has_its_frame() {
    let playing = Mode::Playing { stage: Stage::One, state: PlayingState::Won { at: 3 }, multiplayer: true };
    assert_eq!(playing.pipeline(), Pipeline::Playing);
    let paused =
        Mode::Paused { selected: 0, stage: Stage::One, state: PlayingState::Playing, multiplayer: true };
    assert_eq!(paused.pipeline(), Pipeline::Paused);
    assert_eq!(
        Mode::StartStage { stage: Stage::Two, multiplayer: false }.pipeline(),
        Pipeline::StartStage { stage: Stage::Two, multiplayer: false }
    );
    assert_eq!(Mode::Quit.pipeline(), Pipeline::Quit);
    for menu in [
        Mode::MainMenu { selected: 0 },
        Mode::Controls { selected: 3 },
        Mode::Stages { selected: 1, multiplayer: true },
        Mode::StageComplete { stage: Stage::One, selected: 0, multiplayer: false },
        Mode::StageLost { stage: Stage::Two, selected: 0, multiplayer: false },
    ] {
        assert_eq!(menu.pipeline(), Pipeline::Menu);
    }
}

#[test]
fn a_played_frame_runs_its_systems_in_order() {
    let order = Pipeline::Playing.systems();
    assert_eq!(order.len(), 25);
    assert_eq!(order[0], System::FinishStage);
    let before = |first, second| assert!(place(&order, first) < place(&order, second));
    before(System::TickTime, System::StartTowardsPlayer);
    before(System::SetPlayerPositions, System::FireBullets);
    before(System::Collisions, System::ApplyCollisions);
    before(System::FireBullets, System::SpawnBullets);
    before(System::Control, System::SpawnBullets);
    before(System::MoveEntities, System::RenderSprite);
    before(System::Control, System::RenderSprite);
    before(System::ExplosionImages, System::RenderSprite);
    for drawn in [System::RenderText, System::RenderBombs, System::RenderHitboxes, System::RenderUI] {
        before(System::RenderSprite, drawn);
    }
    assert_eq!(place(&order, System::Maintain), 24);
}

#[test]
fn the_other_frames_end_with_the_sync_point() {
    assert_eq!(
        Pipeline::Menu.systems(),
        vec![System::ControlMenu, System::RenderMenu, System::Maintain]
    );
    let paused = Pipeline::Paused.systems();
    assert_eq!(paused.len(), 10);
    assert_eq!(paused[0], System::TogglePaused);
    assert_eq!(paused[1], System::ControlMenu);
    assert!(place(&paused, System::RenderPauseBackground) < place(&paused, System::RenderMenu));
    assert!(place(&paused, System::RenderUI) < place(&paused, System::RenderPauseBackground));
    assert_eq!(paused[9], System::Maintain);
    assert_eq!(
        Pipeline::StartStage { stage: Stage::One, multiplayer: true }.systems(),
        vec![System::Maintain]
    );
    assert!(Pipeline::Quit.systems().is_empty());
}

#[test]
fn asked_bullets_are_made_with_their_velocities() {
    let shot = |x: i32, enemy: bool| BulletToBeSpawned {
        pos: Vec2::new(x, 0),
        image: Image(12),
        speed: 9,
        aim: Aim::Heading(0),
        colour: None,
        enemy,
    };
    let mut spawner = BulletSpawner(vec![shot(1, true), shot(2, false)]);
    let tint = ColourOverlay(Colour { red: 1, green: 2, blue: 3, alpha: 4 });
    let mut world = World::new();
    SpawnBullets.run(
        &mut spawner,
        &mut world.updater,
        &vec![Vec2::new(9, 0), Vec2::new(0, -9)],
        &vec![Some(tint), None],
    );
    assert!(spawner.0.is_empty());
    world.maintain();
    let s = &world.storages;
    assert_eq!(s.position.get(0), Some(&Position(Vec2::new(1, 0))));
    assert_eq!(s.movement.get(0), Some(&Movement::Linear(Vec2::new(9, 0))));
    assert_eq!(s.colour_overlay.get(0), Some(&tint));
    assert!(s.enemy.contains(0));
    assert_eq!(s.position.get(1), Some(&Position(Vec2::new(2, 0))));
    assert_eq!(s.movement.get(1), Some(&Movement::Linear(Vec2::new(0, -9))));
    assert!(s.friendly.contains(1) && !s.colour_overlay.contains(1));
    SpawnBullets.run(&mut spawner, &mut world.updater, &Vec::new(), &Vec::new());
    assert_eq!(world.updater.len(), 0);
}

#[test]
fn a_velocity_has_its_pace_within_a_step() {
    assert!(is_paced(Vec2::new(9, 0), 9));
    assert!(is_paced(Vec2::new(0, -9), 9));
    assert!(is_paced(Vec2::new(0, -9), -9));
    assert!(is_paced(Vec2::new(1536, 2048), 2560));
    assert!(is_paced(Vec2::new(1810, 1810), 2560));
    assert!(is_paced(Vec2::new(2561, 0), 2560));
    assert!(is_paced(Vec2::new(2559, 0), 2560));
    assert!(!is_paced(Vec2::new(2562, 0), 2560));
    assert!(!is_paced(Vec2::new(2558, 0), 2560));
    assert!(!is_paced(Vec2::new(0, 0), 2560));
    assert!(!is_paced(Vec2::new(2560, 2560), 2560));
    assert!(is_paced(Vec2::new(0, 0), 0));
    assert!(is_paced(Vec2::new(1, 0), 0));
    assert!(!is_paced(Vec2::new(1, 1), 0));
    assert!(is_paced(Vec2::new(0, 0), 1));
    assert!(is_paced(Vec2::new(i32::MIN, 0), i32::MIN));
    assert!(!is_paced(Vec2::new(i32::MIN, i32::MIN), i32::MIN));
}
