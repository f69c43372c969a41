use hectic::components::Boss;
use hectic::components::BossMove;
use hectic::components::BulletSetup;
use hectic::components::Cooldown;
use hectic::components::FiresBullets;
use hectic::components::Health;
use hectic::components::HorizontalAlign;
use hectic::components::Image;
use hectic::components::Invulnerability;
use hectic::components::PowerBar;
use hectic::components::Text;
use hectic::components::VerticalAlign;
use hectic::components::INVULNERABLE_FOR;
use hectic::graphics::Atlas;
use hectic::graphics::Frame;
use hectic::graphics::Image as GraphicsImage;
use hectic::math::Vec2;

#[test]
fn cooldown_fires_once_per_interval() {
    let mut timer = Cooldown::new(450);
    assert!(timer.is_ready(1000));
    assert!(!timer.is_ready(1449));
    assert!(timer.is_ready(1450));
}

#[test]
fn cooldown_new_is_ready_at_time_nothing() {
    let mut timer = Cooldown::new(6000);
    assert!(timer.is_ready(0));
    assert!(!timer.is_ready(5999));
    assert!(timer.is_ready(6000));
}

#[test]
fn cooldown_ready_at_waits_for_its_time() {
    let mut timer = Cooldown::ready_at(6000, 150000);
    assert!(!timer.is_ready(0));
    assert!(!timer.is_ready(149999));
    assert!(timer.is_ready(150000));
    assert!(!timer.is_ready(155999));
    assert!(timer.is_ready(156000));
}

#[test]
fn cooldown_is_unchanged_by_a_refusal() {
    let mut timer = Cooldown::new(300);
    assert!(timer.is_ready(100));
    let before = timer;
    assert!(!timer.is_ready(250));
    assert_eq!(timer, before);
    assert!(timer.is_ready(400));
}

#[test]
fn cooldown_does_not_fire_when_time_runs_back() {
    let mut timer = Cooldown::new(10);
    assert!(timer.is_ready(1000));
    assert!(!timer.is_ready(5));
}

#[test]
fn cooldown_holds_at_the_end_of_time() {
    let mut timer = Cooldown::new(u64::MAX);
    assert!(timer.is_ready(5));
    assert!(!timer.is_ready(u64::MAX));
    let mut short = Cooldown::new(1);
    assert!(short.is_ready(u64::MAX - 1));
    assert!(short.is_ready(u64::MAX));
}

#[test]
fn invulnerability_window_opens_exactly_when_it_has_elapsed() {
    let mut shield = Invulnerability::new();
    assert!(!shield.is_invul(0));
    assert!(shield.can_damage(1000));
    assert!(shield.is_invul(1000));
    assert!(!shield.can_damage(1000 + INVULNERABLE_FOR - 1));
    assert!(shield.can_damage(1000 + INVULNERABLE_FOR));
    assert!(!shield.can_damage(1000 + INVULNERABLE_FOR + 1));
}

#[test]
fn invulnerability_lasts_five_seconds() {
    assert_eq!(INVULNERABLE_FOR, 5 * hectic::SECOND);
}

#[test]
fn invulnerability_holds_when_time_runs_back() {
    let mut shield = Invulnerability::new();
    assert!(shield.can_damage(50000));
    assert!(!shield.can_damage(10));
    assert!(shield.is_invul(10));
}

#[test]
fn invulnerability_time_remaining_counts_down() {
    let mut shield = Invulnerability::new();
    assert_eq!(shield.time_remaining(77), 0);
    assert!(shield.can_damage(1000));
    assert_eq!(shield.time_remaining(1000), 30000);
    assert_eq!(shield.time_remaining(1100), 29900);
    assert_eq!(shield.time_remaining(30999), 1);
    assert_eq!(shield.time_remaining(31000), 0);
    assert_eq!(shield.time_remaining(900), 30000);
}

#[test]
fn health_stops_at_nothing() {
    let mut health = Health(1);
    assert!(health.damage());
    assert_eq!(health, Health(0));
    assert!(health.damage());
    assert_eq!(health, Health(0));
}

#[test]
fn health_loses_one_per_hit() {
    let mut health = Health(3);
    assert!(!health.damage());
    assert_eq!(health, Health(2));
    assert!(!health.damage());
    assert!(health.damage());
    assert_eq!(health, Health(0));
}

#[test]
fn power_bar_stops_at_full() {
    let mut bar = PowerBar(0);
    bar.add(5);
    assert_eq!(bar, PowerBar(5));
    bar.add(29);
    assert_eq!(bar, PowerBar(34));
    bar.add(5);
    assert_eq!(bar, PowerBar(35));
    bar.add(u32::MAX);
    assert_eq!(bar, PowerBar(35));
    assert_eq!(PowerBar::FULL, 35);
}

#[test]
fn power_bar_is_spent_only_when_exactly_full() {
    let mut bar = PowerBar(34);
    assert!(!bar.empty());
    assert_eq!(bar, PowerBar(34));
    bar.add(1);
    assert!(bar.empty());
    assert_eq!(bar, PowerBar(0));
    assert!(!bar.empty());
    let mut over = PowerBar(36);
    assert!(!over.empty());
    assert_eq!(over, PowerBar(36));
}

#[test]
fn power_bar_share_in_thousandths() {
    assert_eq!(PowerBar(0).perc(), 0);
    assert_eq!(PowerBar(7).perc(), 200);
    assert_eq!(PowerBar(34).perc(), 971);
    assert_eq!(PowerBar(35).perc(), 1000);
    assert_eq!(PowerBar(99).perc(), 1000);
}

fn single(interval: u64) -> FiresBullets {
    FiresBullets::AtPlayer {
        num_bullets: 1,
        spread: 0,
        cooldown: Cooldown::new(interval),
        setup: BulletSetup { image: Image(3), speed: 10, colour: None },
    }
}

fn boss_with(durations: &[u64]) -> Boss {
    let mut moves = Vec::new();
    for (i, duration) in durations.iter().enumerate() {
        moves.push(BossMove {
            position: Vec2::new(i as i32, 0),
            duration: *duration,
            fires: single(100),
        });
    }
    Boss { max_health: 10, move_timer: 0, current_move: 0, moves }
}

#[test]
fn boss_holds_for_the_duration_and_moves_on() {
    let mut boss = boss_with(&[250, 100, 1]);
    assert!(!boss.hold());
    assert_eq!((boss.current_move, boss.move_timer), (0, 100));
    assert!(!boss.hold());
    assert_eq!((boss.current_move, boss.move_timer), (0, 200));
    assert!(boss.hold());
    assert_eq!((boss.current_move, boss.move_timer), (1, 0));
    assert!(boss.hold());
    assert_eq!((boss.current_move, boss.move_timer), (2, 0));
    assert!(boss.hold());
    assert_eq!((boss.current_move, boss.move_timer), (0, 0));
}

#[test]
fn boss_with_one_move_comes_back_to_it() {
    let mut boss = boss_with(&[100]);
    assert!(boss.hold());
    assert_eq!(boss.current_move, 0);
    assert_eq!(boss.current_move().duration, 100);
}

#[test]
fn boss_timer_stops_at_the_end_of_time() {
    let mut boss = boss_with(&[u64::MAX, 5]);
    boss.move_timer = u64::MAX - 50;
    assert!(boss.hold());
    assert_eq!((boss.current_move, boss.move_timer), (1, 0));
}

#[test]
fn pattern_duplicate_is_equal_and_apart() {
    let first = FiresBullets::Multiple(vec![single(5), FiresBullets::Multiple(vec![single(7)])]);
    let mut second = first.duplicate();
    match &mut second {
        FiresBullets::Multiple(list) => {
            assert_eq!(list.len(), 2);
            match &mut list[0] {
                FiresBullets::AtPlayer { num_bullets, cooldown, .. } => {
                    assert_eq!(*cooldown, Cooldown::new(5));
                    *num_bullets = 9;
                }
                _ => panic!("the first part is a fan"),
            }
            match &list[1] {
                FiresBullets::Multiple(inner) => assert_eq!(inner.len(), 1),
                _ => panic!("the second part is a list"),
            }
        }
        _ => panic!("a list was copied"),
    }
    match &first {
        FiresBullets::Multiple(list) => match &list[0] {
            FiresBullets::AtPlayer { num_bullets, .. } => assert_eq!(*num_bullets, 1),
            _ => panic!("the first part is a fan"),
        },
        _ => panic!("a list"),
    }
}

#[test]
fn text_title_is_centred_in_the_large_font() {
    let title = Text::title("Paused");
    assert_eq!(title.text, "Paused");
    assert_eq!(title.font, 0);
    assert_eq!(title.layout.h_align, HorizontalAlign::Center);
    assert_eq!(title.layout.v_align, VerticalAlign::Top);
}

#[test]
fn image_size_comes_from_the_atlas() {
    let mut frames = vec![Frame { x: 0, y: 0, w: 0, h: 0 }; 28];
    frames[GraphicsImage::Bat.to_u16() as usize] = Frame { x: 10, y: 20, w: 25, h: 20 };
    let atlas = Atlas { frames, width: 512, height: 512 };
    let bat = Image::from(GraphicsImage::Bat);
    assert_eq!(bat, Image(3));
    assert_eq!(bat.size(&atlas), Vec2::new(25 * 1024, 20 * 1024));
    assert_eq!(bat.coordinates(&atlas), Frame { x: 10, y: 20, w: 25, h: 20 });
    assert_eq!(Image(500).size(&atlas), Vec2::new(0, 0));
}

#[test]
fn image_size_saturates() {
    let atlas = Atlas {
        frames: vec![Frame { x: 0, y: 0, w: u32::MAX, h: 2097152 }],
        width: 1,
        height: 1,
    };
    assert_eq!(Image(0).size(&atlas), Vec2::new(i32::MAX, i32::MAX));
}

#[test]
fn graphics_image_numbers_go_both_ways() {
    for code in 0..28u16 {
        let image = GraphicsImage::from_u16(code).unwrap();
        assert_eq!(image.to_u16(), code);
    }
    assert_eq!(GraphicsImage::from_u16(28), None);
    assert_eq!(GraphicsImage::Explosion1.to_u16() + 5, GraphicsImage::Explosion6.to_u16());
}
