use hectic::components::BackgroundLayer;
use hectic::components::Boss;
use hectic::components::Circle;
use hectic::components::Colour;
use hectic::components::ColourOverlay;
use hectic::components::FrozenUntil;
use hectic::components::Health;
use hectic::components::Hitbox;
use hectic::components::HorizontalAlign;
use hectic::components::Image;
use hectic::components::Invulnerability;
use hectic::components::Layout;
use hectic::components::Player;
use hectic::components::Position;
use hectic::components::PowerBar;
use hectic::components::Text;
use hectic::components::VerticalAlign;
use hectic::graphics::Atlas;
use hectic::graphics::Frame;
use hectic::graphics::Image as GraphicsImage;
use hectic::math::Vec2;
use hectic::renderer::BufferRenderer;
use hectic::renderer::Draw;
use hectic::resources::ControlsState;
use hectic::resources::GameTime;
use hectic::resources::Mode;
use hectic::systems::rendering::to_decimal;
use hectic::systems::rendering::RenderBombs;
use hectic::systems::rendering::RenderHitboxes;
use hectic::systems::rendering::RenderMenu;
use hectic::systems::rendering::RenderPauseBackground;
use hectic::systems::RenderPauseScreen;
use hectic::systems::rendering::RenderSprite;
use hectic::systems::rendering::RenderText;
use hectic::systems::rendering::RenderUI;
use hectic::world::World;

const U: i32 = 1024;
const CLEAR: Colour = Colour { red: 0, green: 0, blue: 0, alpha: 0 };
const WHITE: Colour = Colour { red: 255, green: 255, blue: 255, alpha: 255 };
const VEIL: Colour = Colour { red: 255, green: 255, blue: 255, alpha: 51 };

fn atlas() -> Atlas {
    let mut frames = vec![Frame { x: 0, y: 0, w: 20, h: 10 }; 28];
    frames[GraphicsImage::Portrait.to_u16() as usize] = Frame { x: 0, y: 0, w: 16, h: 24 };
    Atlas { frames, width: 2000, height: 2500 }
}

fn sprite(world: &mut World, pos: Vec2, image: u16) -> usize {
    let entity = world.entities.create();
    world.storages.position.insert(entity.index, Position(pos));
    world.storages.image.insert(entity.index, Image(image));
    entity.index
}

fn sprites(renderer: &BufferRenderer) -> Vec<(u16, Vec2, Vec2, Colour)> {
    renderer
        .draws
        .iter()
        .map(|draw| match draw {
            Draw::Sprite { image, center, dimensions, rotation, overlay } => {
                assert_eq!(*rotation, 0);
                (image.0, *center, *dimensions, *overlay)
            }
            _ => panic!("a sprite was expected"),
        })
        .collect()
}

fn render_sprites(world: &World, now: u64) -> BufferRenderer {
    let mut renderer = BufferRenderer::new();
    let mut system = RenderSprite::default();
    let s = &world.storages;
    system.run(
        &world.entities,
        &s.position,
        &s.image,
        &s.invulnerability,
        &s.frozen_until,
        &s.background_layer,
        &s.colour_overlay,
        &GameTime { total_time: now },
        &mut renderer,
        &atlas(),
    );
    renderer
}

#[test]
fn backdrops_come_first_in_order_of_depth() {
    let mut world = World::new();
    let actor = sprite(&mut world, Vec2::new(1, 1), 1);
    let deep = sprite(&mut world, Vec2::new(2, 2), 2);
    let shallow = sprite(&mut world, Vec2::new(3, 3), 3);
    let twin = sprite(&mut world, Vec2::new(4, 4), 4);
    let middle = sprite(&mut world, Vec2::new(5, 5), 5);
    let last = sprite(&mut world, Vec2::new(6, 6), 6);
    for (slot, depth) in [(deep, 2), (shallow, 0), (twin, 2), (middle, 1)] {
        world.storages.background_layer.insert(slot, BackgroundLayer { depth });
    }
    let drawn = sprites(&render_sprites(&world, 0));
    let order: Vec<u16> = drawn.iter().map(|d| d.0).collect();
    assert_eq!(order, vec![3, 5, 2, 4, 1, 6]);
    assert_eq!(drawn[0], (3, Vec2::new(3, 3), Vec2::new(40 * U, 20 * U), CLEAR));
    assert_eq!(drawn[4].1, Vec2::new(1, 1));
    let _ = (actor, last);
}

#[test]
fn the_frozen_and_the_dead_are_not_drawn() {
    let mut world = World::new();
    let frozen = sprite(&mut world, Vec2::new(1, 1), 1);
    world.storages.frozen_until.insert(frozen, FrozenUntil(5));
    let dead = sprite(&mut world, Vec2::new(2, 2), 2);
    let handle = world.entities.entity_at(dead).unwrap();
    assert!(world.entities.delete(handle).is_ok());
    let shown = sprite(&mut world, Vec2::new(3, 3), 3);
    let bare = world.entities.create().index;
    world.storages.position.insert(bare, Position(Vec2::zero()));
    let drawn = sprites(&render_sprites(&world, 0));
    assert_eq!(drawn.len(), 1);
    assert_eq!(drawn[0].0, 3);
    let _ = shown;
}

#[test]
fn a_hit_player_is_veiled_and_then_blinks() {
    let mut world = World::new();
    let player = sprite(&mut world, Vec2::new(1, 1), 0);
    let mut shield = Invulnerability::new();
    world.storages.invulnerability.insert(player, shield);
    assert_eq!(sprites(&render_sprites(&world, 500))[0].3, CLEAR);
    assert!(shield.can_damage(1000));
    world.storages.invulnerability.insert(player, shield);
    let overlay = |world: &World, now| sprites(&render_sprites(world, now))[0].3;
    assert_eq!(overlay(&world, 1000), VEIL);
    assert_eq!(overlay(&world, 24999), VEIL);
    assert_eq!(overlay(&world, 25000), CLEAR);
    assert_eq!(overlay(&world, 25001), VEIL);
    assert_eq!(overlay(&world, 25599), VEIL);
    assert_eq!(overlay(&world, 25600), CLEAR);
    assert_eq!(overlay(&world, 26200), CLEAR);
    assert_eq!(overlay(&world, 26201), VEIL);
    assert_eq!(overlay(&world, 30999), CLEAR);
    assert_eq!(overlay(&world, 31000), CLEAR);
    let tint = Colour { red: 9, green: 8, blue: 7, alpha: 191 };
    world.storages.colour_overlay.insert(player, ColourOverlay(tint));
    assert_eq!(overlay(&world, 1000), tint);
}

#[test]
fn hitboxes_show_only_in_the_debug_view() {
    let mut world = World::new();
    let a = world.entities.create().index;
    world.storages.position.insert(a, Position(Vec2::new(1, 1)));
    world.storages.hitbox.insert(a, Hitbox(Vec2::new(0, 5000)));
    let mut controls = ControlsState::default();
    let mut renderer = BufferRenderer::new();
    let s = &world.storages;
    RenderHitboxes.run(&world.entities, &s.position, &s.hitbox, &mut renderer, &controls);
    assert!(renderer.draws.is_empty());
    controls.debug.pressed = true;
    RenderHitboxes.run(&world.entities, &s.position, &s.hitbox, &mut renderer, &controls);
    assert_eq!(renderer.draws.len(), 1);
    match &renderer.draws[0] {
        Draw::Box { center, dimensions, colour } => {
            assert_eq!(*center, Vec2::new(1, 1));
            assert_eq!(*dimensions, Vec2::new(2 * U, 5000));
            assert_eq!(*colour, Colour { red: 255, green: 0, blue: 0, alpha: 128 });
        }
        _ => panic!("a box was expected"),
    }
}

#[test]
fn the_pause_background_covers_the_screen() {
    let mut renderer = BufferRenderer::new();
    RenderPauseBackground.run(&mut renderer);
    match &renderer.draws[..] {
        [Draw::Box { center, dimensions, colour }] => {
            assert_eq!(*center, Vec2::new(240 * U, 320 * U));
            assert_eq!(*dimensions, Vec2::new(480 * U, 640 * U));
            assert_eq!(*colour, Colour { red: 0, green: 0, blue: 0, alpha: 128 });
        }
        _ => panic!("one box was expected"),
    }
    renderer.clear();
    assert!(renderer.draws.is_empty());
}

#[test]
fn the_pause_screen_says_so() {
    let mut renderer = BufferRenderer::new();
    RenderPauseScreen.run(&mut renderer);
    match &renderer.draws[..] {
        [Draw::Text { text, font, layout, position, colour }] => {
            assert_eq!(text, "Paused");
            assert_eq!(*font, 0);
            assert_eq!(layout.h_align, HorizontalAlign::Center);
            assert_eq!(*position, Vec2::new(240 * U, 40 * U));
            assert_eq!(*colour, WHITE);
        }
        _ => panic!("one text was expected"),
    }
}

#[test]
fn texts_and_bombs_are_drawn_where_they_are() {
    let mut world = World::new();
    let title = world.entities.create().index;
    world.storages.position.insert(title, Position(Vec2::new(240 * U, 40 * U)));
    world.storages.text.insert(title, Text::title("Stage\nOne"));
    let bomb = world.entities.create().index;
    world.storages.position.insert(bomb, Position(Vec2::new(7, 7)));
    world.storages.circle.insert(bomb, Circle { radius: 8 * U });
    let mut renderer = BufferRenderer::new();
    let s = &world.storages;
    RenderText.run(&world.entities, &s.position, &s.text, &mut renderer);
    RenderBombs.run(&world.entities, &mut renderer, &s.position, &s.circle);
    assert_eq!(renderer.draws.len(), 2);
    match &renderer.draws[0] {
        Draw::Text { text, font, layout, position, colour } => {
            assert_eq!(text, "Stage\nOne");
            assert_eq!(*font, 0);
            assert_eq!(layout.h_align, HorizontalAlign::Center);
            assert_eq!(*position, Vec2::new(240 * U, 40 * U));
            assert_eq!(*colour, WHITE);
        }
        _ => panic!("a text was expected"),
    }
    match &renderer.draws[1] {
        Draw::Circle { center, radius } => {
            assert_eq!((*center, *radius), (Vec2::new(7, 7), 8 * U));
        }
        _ => panic!("a circle was expected"),
    }
}

#[test]
fn numbers_are_written_in_decimal() {
    assert_eq!(to_decimal(0), "0");
    assert_eq!(to_decimal(7), "7");
    assert_eq!(to_decimal(10), "10");
    assert_eq!(to_decimal(300), "300");
    assert_eq!(to_decimal(1234567890), "1234567890");
    assert_eq!(to_decimal(u32::MAX), "4294967295");
}

fn panel_player(world: &mut World, health: u32, power: u32) {
    let entity = world.entities.create().index;
    world.storages.player.insert(entity, Player::One);
    world.storages.health.insert(entity, Health(health));
    world.storages.power_bar.insert(entity, PowerBar(power));
}

fn render_ui(world: &World) -> BufferRenderer {
    let mut renderer = BufferRenderer::new();
    let s = &world.storages;
    RenderUI.run(
        &world.entities,
        &s.player,
        &s.health,
        &s.power_bar,
        &s.boss,
        &s.frozen_until,
        &mut renderer,
        &atlas(),
    );
    renderer
}

#[test]
fn the_first_two_players_get_panels() {
    let mut world = World::new();
    panel_player(&mut world, 3, 0);
    panel_player(&mut world, 12, 35);
    panel_player(&mut world, 1, 7);
    let renderer = render_ui(&world);
    assert_eq!(renderer.draws.len(), 8);
    let y = 610 * U;
    match &renderer.draws[0] {
        Draw::Text { text, font, layout, position, colour } => {
            assert_eq!(text, "3");
            assert_eq!(*font, 1);
            assert_eq!(
                *layout,
                Layout { h_align: HorizontalAlign::Left, v_align: VerticalAlign::Center }
            );
            assert_eq!(*position, Vec2::new(60 * U, y));
            assert_eq!(*colour, WHITE);
        }
        _ => panic!("a text was expected"),
    }
    match &renderer.draws[1] {
        Draw::Sprite { image, center, dimensions, .. } => {
            assert_eq!(*image, Image::from(GraphicsImage::Portrait));
            assert_eq!(*center, Vec2::new(30 * U, y));
            assert_eq!(*dimensions, Vec2::new(32 * U, 48 * U));
        }
        _ => panic!("a sprite was expected"),
    }
    match (&renderer.draws[2], &renderer.draws[3]) {
        (
            Draw::Box { center, dimensions, colour },
            Draw::Box { center: fill_center, dimensions: fill, .. },
        ) => {
            assert_eq!(*center, Vec2::new(80 * U, y));
            assert_eq!(*dimensions, Vec2::new(16 * U, 32 * U));
            assert_eq!(*colour, Colour { red: 0, green: 0, blue: 0, alpha: 255 });
            assert_eq!(*fill_center, Vec2::new(80 * U, y + 14 * U));
            assert_eq!(*fill, Vec2::new(12 * U, 0));
        }
        _ => panic!("two boxes were expected"),
    }
    match &renderer.draws[4] {
        Draw::Text { text, layout, position, .. } => {
            assert_eq!(text, "12");
            assert_eq!(layout.h_align, HorizontalAlign::Right);
            assert_eq!(*position, Vec2::new(420 * U, y));
        }
        _ => panic!("a text was expected"),
    }
    match &renderer.draws[7] {
        Draw::Box { center, dimensions, colour } => {
            assert_eq!(*center, Vec2::new(400 * U, y));
            assert_eq!(*dimensions, Vec2::new(12 * U, 28 * U));
            assert_eq!(*colour, Colour { red: 128, green: 32, blue: 32, alpha: 255 });
        }
        _ => panic!("a box was expected"),
    }
}

#[test]
fn boss_health_is_drawn_as_its_share() {
    let mut world = World::new();
    let mut boss = |world: &mut World, health: u32, max_health: u32, frozen: bool| {
        let entity = world.entities.create().index;
        world.storages.health.insert(entity, Health(health));
        world
            .storages
            .boss
            .insert(entity, Boss { max_health, move_timer: 0, current_move: 0, moves: Vec::new() });
        if frozen {
            world.storages.frozen_until.insert(entity, FrozenUntil(1));
        }
    };
    boss(&mut world, 300, 300, false);
    boss(&mut world, 100, 400, true);
    boss(&mut world, 100, 400, false);
    boss(&mut world, 5, 0, false);
    let drawn = sprites(&render_ui(&world));
    let bar = GraphicsImage::BossHealthBar.to_u16();
    assert_eq!(
        drawn,
        vec![
            (bar, Vec2::new(240 * U, 10 * U), Vec2::new(460 * U, 10 * U), CLEAR),
            (bar, Vec2::new(240 * U, 25 * U), Vec2::new(115 * U, 10 * U), CLEAR),
            (bar, Vec2::new(240 * U, 40 * U), Vec2::new(0, 10 * U), CLEAR),
        ]
    );
}

#[test]
fn a_menu_is_drawn_with_its_cursor() {
    let mut renderer = BufferRenderer::new();
    let mut mode = Mode::MainMenu { selected: 1 };
    RenderMenu.run(&mut renderer, &mut mode, &ControlsState::default());
    assert_eq!(mode, Mode::MainMenu { selected: 1 });
    let lines: Vec<(String, usize, Vec2, Colour)> = renderer
        .draws
        .iter()
        .map(|draw| match draw {
            Draw::Text { text, font, layout, position, colour } => {
                assert_eq!(layout.h_align, HorizontalAlign::Center);
                (text.clone(), *font, *position, *colour)
            }
            _ => panic!("a text was expected"),
        })
        .collect();
    assert_eq!(
        lines,
        vec![
            (String::from("Hectic"), 0, Vec2::new(240 * U, 40 * U), WHITE),
            (String::from("Play"), 1, Vec2::new(240 * U, 190 * U), WHITE),
            (String::from("> Controls"), 1, Vec2::new(240 * U, 210 * U), WHITE),
            (String::from("Quit"), 1, Vec2::new(240 * U, 230 * U), WHITE),
        ]
    );
}

#[test]
fn headings_of_a_menu_are_grey_and_no_menu_draws_nothing() {
    let mut renderer = BufferRenderer::new();
    let mut mode = Mode::Controls { selected: 0 };
    RenderMenu.run(&mut renderer, &mut mode, &ControlsState::default());
    assert_eq!(renderer.draws.len(), 29);
    match &renderer.draws[1] {
        Draw::Text { text, colour, .. } => {
            assert_eq!(text, "> General:");
            assert_eq!(*colour, Colour { red: 128, green: 128, blue: 128, alpha: 255 });
        }
        _ => panic!("a text was expected"),
    }
    match &renderer.draws[28] {
        Draw::Text { text, position, .. } => {
            assert_eq!(text, "Back");
            assert_eq!(*position, Vec2::new(240 * U, (190 + 27 * 20) * U));
        }
        _ => panic!("a text was expected"),
    }
    let mut quiet = BufferRenderer::new();
    let mut mode = Mode::Quit;
    RenderMenu.run(&mut quiet, &mut mode, &ControlsState::default());
    assert!(quiet.draws.is_empty());
}
