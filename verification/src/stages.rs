//! The scripted stages: what the world is filled with when a stage starts.

use rand::rngs::ThreadRng;
use vstd::prelude::*;
use crate::components::BackgroundLayer;
use crate::components::Boss;
use crate::components::BossMove;
use crate::components::BossMoveView;
use crate::components::BossView;
use crate::components::BulletSetup;
use crate::components::ColourBullets;
use crate::components::Cooldown;
use crate::components::DieOffscreen;
use crate::components::Enemy;
use crate::components::FiresBullets;
use crate::components::Friendly;
use crate::components::FrozenUntil;
use crate::components::Health;
use crate::components::Hitbox;
use crate::components::HorizontalAlign;
use crate::components::Image;
use crate::components::Invulnerability;
use crate::components::Layout;
use crate::components::Movement;
use crate::components::Pattern;
use crate::components::Player;
use crate::components::Position;
use crate::components::PowerBar;
use crate::components::TargetPlayer;
use crate::components::Text;
use crate::components::TextView;
use crate::components::VerticalAlign;
use crate::curve::Curve;
use crate::graphics::Image as GraphicsImage;
use crate::lazy::Component;
use crate::lazy::ComponentView;
use crate::lazy::LazyBuilder;
use crate::lazy::LazyUpdate;
use crate::math::later;
use crate::math::Vec2;
use crate::random::gen_range;
use crate::random::thread_rng;
use crate::storage::all_killed;
use crate::storage::Entities;

verus! {

/// The middle of the screen.
pub open spec fn middle() -> Vec2 {
    Vec2 { x: 245760, y: 327680 }
}

/// The components of a backdrop: drawn with `image`, `position` away from
/// the middle of the screen, scrolling by `velocity`, at `depth`.
pub open spec fn background_blueprint(
    image: GraphicsImage,
    position: Vec2,
    velocity: Vec2,
    depth: u32,
) -> Seq<ComponentView> {
    seq![
        ComponentView::Position(Position(middle().plus(position))),
        ComponentView::Image(Image(image.code())),
        ComponentView::Movement(Movement::Linear(velocity)),
        ComponentView::BackgroundLayer(BackgroundLayer { depth }),
    ]
}

/// The components of a stage's title: it begins forty units below the top
/// and rises off the screen, ever faster.
pub open spec fn title_blueprint(text: Seq<char>) -> Seq<ComponentView> {
    seq![
        ComponentView::Text(
            TextView {
                text,
                font: 0,
                layout: Layout { h_align: HorizontalAlign::Center, v_align: VerticalAlign::Top },
            },
        ),
        ComponentView::Position(Position(Vec2 { x: 245760, y: 40960 })),
        ComponentView::Movement(Movement::Falling { speed: 0, down: false }),
    ]
}

/// The components of a player: three hits of health, a shield that remembers
/// no hit, an empty power bar, a box of ten units, and a gun that fires
/// every 450 steps of the clock.
pub open spec fn player_blueprint(player: Player, position: Vec2) -> Seq<ComponentView> {
    seq![
        ComponentView::Position(Position(position)),
        ComponentView::Image(Image(GraphicsImage::Player.code())),
        ComponentView::Player(player),
        ComponentView::Cooldown(Cooldown::starting(450, 0)),
        ComponentView::Hitbox(Hitbox(Vec2 { x: 10240, y: 10240 })),
        ComponentView::Friendly(Friendly),
        ComponentView::Health(Health(3)),
        ComponentView::Invulnerability(Invulnerability::unhit()),
        ComponentView::PowerBar(PowerBar(0)),
    ]
}

/// The components every enemy has: it waits frozen at `position` until
/// `start`, and dies when it leaves the screen.
pub open spec fn enemy_blueprint(
    position: Vec2,
    start: u64,
    health: u32,
    image: GraphicsImage,
    hitbox: Vec2,
) -> Seq<ComponentView> {
    seq![
        ComponentView::Position(Position(position)),
        ComponentView::FrozenUntil(FrozenUntil(start)),
        ComponentView::DieOffscreen(DieOffscreen),
        ComponentView::Enemy(Enemy),
        ComponentView::Health(Health(health)),
        ComponentView::Image(Image(image.code())),
        ComponentView::Hitbox(Hitbox(hitbox)),
    ]
}

/// The components of an enemy that follows `curve` from its beginning.
pub open spec fn curve_enemy_blueprint(
    curve: Curve,
    start: u64,
    health: u32,
    image: GraphicsImage,
    hitbox: Vec2,
) -> Seq<ComponentView> {
    enemy_blueprint(curve.b, start, health, image, hitbox).push(
        ComponentView::Movement(Movement::FollowCurve(curve)),
    )
}

/// The components of a bat: four hits of health on a curve.
pub open spec fn bat_blueprint(curve: Curve, start: u64) -> Seq<ComponentView> {
    curve_enemy_blueprint(curve, start, 4, GraphicsImage::Bat, Vec2 { x: 25600, y: 20480 })
}

/// The components of a bat from hell: twelve hits of health, and it flies at
/// a player once it wakes.
pub open spec fn hell_bat_blueprint(start: u64, position: Vec2) -> Seq<ComponentView> {
    enemy_blueprint(position, start, 12, GraphicsImage::HellBat, Vec2 { x: 25600, y: 20480 }).push(
        ComponentView::TargetPlayer(TargetPlayer(2560)),
    )
}

/// The components of a flying skull: four hits of health, and it flies at a
/// player once it wakes.
pub open spec fn flying_skull_blueprint(start: u64, position: Vec2) -> Seq<ComponentView> {
    enemy_blueprint(
        position,
        start,
        4,
        GraphicsImage::FlyingSkull,
        Vec2 { x: 25600, y: 25600 },
    ).push(ComponentView::TargetPlayer(TargetPlayer(3413)))
}

/// The bullet of the gargoyles.
pub open spec fn rock_bullet() -> BulletSetup {
    BulletSetup { image: Image(GraphicsImage::RockBullet.code()), speed: 2867, colour: None }
}

/// The bullet of the spectres and of the second boss.
pub open spec fn dark_bullet() -> BulletSetup {
    BulletSetup { image: Image(GraphicsImage::DarkBullet.code()), speed: 3413, colour: None }
}

/// The components of a gargoyle that comes down at `x`, from fifty units
/// above the screen, stops after a second to fire fans of three rocks, the
/// first one `delay` steps of the clock after it is 4500 steps old, and
/// turns back after ten seconds.
pub open spec fn gargoyle_blueprint(x: i32, start: u64, delay: u32) -> Seq<ComponentView> {
    enemy_blueprint(
        Vec2 { x, y: (-51200) as i32 },
        start,
        15,
        GraphicsImage::Gargoyle,
        Vec2 { x: 46080, y: 25600 },
    ).push(
        ComponentView::Movement(
            Movement::FiringMove {
                speed: 2560,
                return_time: later(start, 60000),
                stop_time: later(start, 6000),
            },
        ),
    ).push(
        ComponentView::FiresBullets(
            Pattern::AtPlayer {
                num_bullets: 3,
                spread: 1000000,
                cooldown: Cooldown::starting(6000, later(later(start, 4500), delay as u64)),
                setup: rock_bullet(),
            },
        ),
    )
}

/// The components of a gargoyle that sweeps across the screen and fires
/// single rocks, the first one `delay` steps of the clock after `start`.
pub open spec fn sweeping_gargoyle_blueprint(start: u64, delay: u32) -> Seq<ComponentView> {
    curve_enemy_blueprint(
        Curve {
            a: Vec2 { x: (-1556480) as i32, y: 102400 },
            b: Vec2 { x: (-20480) as i32, y: 102400 },
            c: Vec2 { x: 512000, y: 307200 },
            d: Vec2 { x: 2048000, y: 307200 },
            time: 0,
            speed: 2560,
        },
        start,
        15,
        GraphicsImage::Gargoyle,
        Vec2 { x: 46080, y: 25600 },
    ).push(
        ComponentView::FiresBullets(
            Pattern::AtPlayer {
                num_bullets: 1,
                spread: 0,
                cooldown: Cooldown::starting(6000, later(start, delay as u64)),
                setup: rock_bullet(),
            },
        ),
    )
}

/// The height that a roll of the dice stands for.
pub open spec fn height_of(roll: u32) -> i32 {
    crate::math::saturate(roll as int) as i32
}

/// The components of a spectre that sweeps from the left at the height
/// `from` to the right at the height `to` and fires single dark bullets,
/// the first one `delay` steps of the clock after `start`.
pub open spec fn spectre_blueprint(start: u64, from: u32, to: u32, delay: u32) -> Seq<ComponentView> {
    curve_enemy_blueprint(
        Curve {
            a: Vec2 { x: (-1556480) as i32, y: height_of(from) },
            b: Vec2 { x: (-20480) as i32, y: height_of(from) },
            c: Vec2 { x: 512000, y: height_of(to) },
            d: Vec2 { x: 2048000, y: height_of(to) },
            time: 0,
            speed: 3413,
        },
        start,
        8,
        GraphicsImage::Spectre,
        Vec2 { x: 30720, y: 30720 },
    ).push(
        ComponentView::FiresBullets(
            Pattern::AtPlayer {
                num_bullets: 1,
                spread: 0,
                cooldown: Cooldown::starting(6000, later(start, delay as u64)),
                setup: dark_bullet(),
            },
        ),
    )
}

/// Deletes every entity.
fn clear(entities: &mut Entities)
    ensures
        final(entities)@ == all_killed(old(entities)@),
{
    entities.delete_all();
}

/// Asks for a backdrop.
fn create_background(
    updater: &mut LazyUpdate,
    image: GraphicsImage,
    position: Vec2,
    velocity: Vec2,
    depth: u32,
)
    ensures
        final(updater)@ == old(updater)@.push(
            background_blueprint(image, position, velocity, depth),
        ),
{
    let builder = updater.create_entity().with(
        Component::Position(Position(Vec2 { x: 245760, y: 327680 }.add(position))),
    ).with(Component::Image(Image::from(image))).with(
        Component::Movement(Movement::Linear(velocity)),
    ).with(Component::BackgroundLayer(BackgroundLayer { depth }));
    assert(builder@ =~= background_blueprint(image, position, velocity, depth));
    builder.build(updater);
}

/// Asks for the title of a stage.
fn create_title(updater: &mut LazyUpdate, text: &'static str)
    ensures
        final(updater)@ == old(updater)@.push(title_blueprint(text@)),
{
    let builder = updater.create_entity().with(Component::Text(Text::title(text))).with(
        Component::Position(Position(Vec2 { x: 245760, y: 40960 })),
    ).with(Component::Movement(Movement::Falling { speed: 0, down: false }));
    assert(builder@ =~= title_blueprint(text@));
    builder.build(updater);
}

/// Asks for a player.
fn create_player(updater: &mut LazyUpdate, player: Player, position: Vec2)
    ensures
        final(updater)@ == old(updater)@.push(player_blueprint(player, position)),
{
    let builder = updater.create_entity().with(Component::Position(Position(position))).with(
        Component::Image(Image::from(GraphicsImage::Player)),
    ).with(Component::Player(player)).with(Component::Cooldown(Cooldown::new(450))).with(
        Component::Hitbox(Hitbox(Vec2 { x: 10240, y: 10240 })),
    ).with(Component::Friendly(Friendly)).with(Component::Health(Health(3))).with(
        Component::Invulnerability(Invulnerability::new()),
    ).with(Component::PowerBar(PowerBar(0)));
    assert(builder@ =~= player_blueprint(player, position));
    builder.build(updater);
}

/// The players of a stage: one in the middle of the screen, or two, each
/// twenty units to a side of it.
pub open spec fn players_blueprints(two_players: bool) -> Seq<Seq<ComponentView>> {
    if two_players {
        seq![
            player_blueprint(Player::One, Vec2 { x: 225280, y: 327680 }),
            player_blueprint(Player::Two, Vec2 { x: 266240, y: 327680 }),
        ]
    } else {
        seq![player_blueprint(Player::Single, Vec2 { x: 245760, y: 327680 })]
    }
}

/// Asks for the players of a stage.
fn create_players(updater: &mut LazyUpdate, two_players: bool)
    ensures
        final(updater)@ == old(updater)@ + players_blueprints(two_players),
{
    if two_players {
        create_player(updater, Player::One, Vec2 { x: 245760 - 20480, y: 327680 });
        create_player(updater, Player::Two, Vec2 { x: 245760 + 20480, y: 327680 });
    } else {
        create_player(updater, Player::Single, Vec2 { x: 245760, y: 327680 });
    }
    assert(updater@ =~= old(updater)@ + players_blueprints(two_players));
}

/// Starts an enemy.
fn enemy(
    updater: &LazyUpdate,
    position: Vec2,
    start: u64,
    health: u32,
    image: GraphicsImage,
    hitbox: Vec2,
) -> (r: LazyBuilder)
    ensures
        r@ == enemy_blueprint(position, start, health, image, hitbox),
{
    let builder = updater.create_entity().with(Component::Position(Position(position))).with(
        Component::FrozenUntil(FrozenUntil(start)),
    ).with(Component::DieOffscreen(DieOffscreen)).with(Component::Enemy(Enemy)).with(
        Component::Health(Health(health)),
    ).with(Component::Image(Image::from(image))).with(Component::Hitbox(Hitbox(hitbox)));
    assert(builder@ =~= enemy_blueprint(position, start, health, image, hitbox));
    builder
}

/// Starts an enemy that follows a curve.
fn enemy_with_curve(
    updater: &LazyUpdate,
    curve: Curve,
    start: u64,
    health: u32,
    image: GraphicsImage,
    hitbox: Vec2,
) -> (r: LazyBuilder)
    ensures
        r@ == curve_enemy_blueprint(curve, start, health, image, hitbox),
{
    enemy(updater, curve.start(), start, health, image, hitbox).with(
        Component::Movement(Movement::FollowCurve(curve)),
    )
}

/// Asks for a bat.
fn bat_with_curve(updater: &mut LazyUpdate, curve: Curve, start: u64)
    ensures
        final(updater)@ == old(updater)@.push(bat_blueprint(curve, start)),
{
    let builder = enemy_with_curve(
        updater,
        curve,
        start,
        4,
        GraphicsImage::Bat,
        Vec2 { x: 25600, y: 20480 },
    );
    builder.build(updater);
}

/// Asks for a bat from hell.
fn hell_bat(updater: &mut LazyUpdate, start: u64, position: Vec2)
    ensures
        final(updater)@ == old(updater)@.push(hell_bat_blueprint(start, position)),
{
    let builder = enemy(
        updater,
        position,
        start,
        12,
        GraphicsImage::HellBat,
        Vec2 { x: 25600, y: 20480 },
    ).with(Component::TargetPlayer(TargetPlayer(2560)));
    builder.build(updater);
}

/// Asks for a flying skull.
fn flying_skull(updater: &mut LazyUpdate, start: u64, position: Vec2)
    ensures
        final(updater)@ == old(updater)@.push(flying_skull_blueprint(start, position)),
{
    let builder = enemy(
        updater,
        position,
        start,
        4,
        GraphicsImage::FlyingSkull,
        Vec2 { x: 25600, y: 25600 },
    ).with(Component::TargetPlayer(TargetPlayer(3413)));
    builder.build(updater);
}

/// Asks for a gargoyle that comes down at `x`.
fn gargoyle(updater: &mut LazyUpdate, x: i32, start: u64, delay: u32)
    ensures
        final(updater)@ == old(updater)@.push(gargoyle_blueprint(x, start, delay)),
{
    let rock_bullet = BulletSetup {
        image: Image::from(GraphicsImage::RockBullet),
        speed: 2867,
        colour: None,
    };
    let first: u64 = start.saturating_add(4500).saturating_add(delay as u64);
    let builder = enemy(
        updater,
        Vec2 { x, y: -51200 },
        start,
        15,
        GraphicsImage::Gargoyle,
        Vec2 { x: 46080, y: 25600 },
    ).with(
        Component::Movement(
            Movement::FiringMove {
                speed: 2560,
                return_time: start.saturating_add(60000),
                stop_time: start.saturating_add(6000),
            },
        ),
    ).with(
        Component::FiresBullets(
            FiresBullets::AtPlayer {
                num_bullets: 3,
                spread: 1000000,
                cooldown: Cooldown::ready_at(6000, first),
                setup: rock_bullet,
            },
        ),
    );
    builder.build(updater);
}

/// Asks for a gargoyle that sweeps across the screen.
fn sweeping_gargoyle(updater: &mut LazyUpdate, start: u64, delay: u32)
    ensures
        final(updater)@ == old(updater)@.push(sweeping_gargoyle_blueprint(start, delay)),
{
    let rock_bullet = BulletSetup {
        image: Image::from(GraphicsImage::RockBullet),
        speed: 2867,
        colour: None,
    };
    let builder = enemy_with_curve(
        updater,
        Curve::horizontal(102400, 307200, true, 2560),
        start,
        15,
        GraphicsImage::Gargoyle,
        Vec2 { x: 46080, y: 25600 },
    ).with(
        Component::FiresBullets(
            FiresBullets::AtPlayer {
                num_bullets: 1,
                spread: 0,
                cooldown: Cooldown::ready_at(6000, start.saturating_add(delay as u64)),
                setup: rock_bullet,
            },
        ),
    );
    builder.build(updater);
}

/// Asks for a spectre.
fn spectre(updater: &mut LazyUpdate, start: u64, from: u32, to: u32, delay: u32)
    ensures
        final(updater)@ == old(updater)@.push(spectre_blueprint(start, from, to, delay)),
{
    let setup = BulletSetup {
        image: Image::from(GraphicsImage::DarkBullet),
        speed: 3413,
        colour: None,
    };
    let builder = enemy_with_curve(
        updater,
        Curve::horizontal(
            crate::math::narrow(from as i64),
            crate::math::narrow(to as i64),
            true,
            3413,
        ),
        start,
        8,
        GraphicsImage::Spectre,
        Vec2 { x: 30720, y: 30720 },
    ).with(
        Component::FiresBullets(
            FiresBullets::AtPlayer {
                num_bullets: 1,
                spread: 0,
                cooldown: Cooldown::ready_at(6000, start.saturating_add(delay as u64)),
                setup,
            },
        ),
    );
    builder.build(updater);
}

/// A pattern that fires two patterns, one after the other.
fn both(first: FiresBullets, second: FiresBullets) -> (r: FiresBullets)
    ensures
        r@ == Pattern::Multiple(seq![first@, second@]),
{
    let mut list: Vec<FiresBullets> = Vec::new();
    list.push(first);
    list.push(second);
    let r = FiresBullets::Multiple(list);
    assert(r@->Multiple_0 =~= seq![first@, second@]);
    r
}

/// A boss of four phases, in the first of them, with its timer at nothing.
fn boss_of(max_health: u32, first: BossMove, second: BossMove, third: BossMove, fourth: BossMove) -> (r:
    Boss)
    ensures
        r@ == (BossView {
            max_health,
            move_timer: 0,
            current_move: 0,
            moves: seq![first@, second@, third@, fourth@],
        }),
{
    let mut moves: Vec<BossMove> = Vec::new();
    moves.push(first);
    moves.push(second);
    moves.push(third);
    moves.push(fourth);
    let r = Boss { max_health, move_timer: 0, current_move: 0, moves };
    assert(r@.moves =~= seq![first@, second@, third@, fourth@]);
    r
}

/// The bullet of the first boss.
pub open spec fn sword_bullet() -> BulletSetup {
    BulletSetup { image: Image(GraphicsImage::Sword.code()), speed: 3413, colour: None }
}

/// The bullet of the last phase of the second boss.
pub open spec fn purple_bullet() -> BulletSetup {
    BulletSetup {
        image: Image(GraphicsImage::ColouredBullet.code()),
        speed: 3413,
        colour: Some(ColourBullets::Purple),
    }
}

/// An arc that has not fired.
pub open spec fn new_arc(
    initial_rotation: i32,
    spread: i32,
    number_to_fire: u16,
    fired_at_once: u16,
    interval: u64,
    setup: BulletSetup,
) -> Pattern {
    Pattern::Arc {
        initial_rotation,
        spread,
        fired_at_once,
        number_to_fire,
        fired_so_far: 0,
        cooldown: Cooldown::starting(interval, 0),
        setup,
    }
}

/// An arc that has not fired.
fn arc(
    initial_rotation: i32,
    spread: i32,
    number_to_fire: u16,
    fired_at_once: u16,
    interval: u64,
    setup: BulletSetup,
) -> (r: FiresBullets)
    ensures
        r@ == new_arc(initial_rotation, spread, number_to_fire, fired_at_once, interval, setup),
{
    FiresBullets::Arc {
        initial_rotation,
        spread,
        fired_at_once,
        number_to_fire,
        fired_so_far: 0,
        cooldown: Cooldown::new(interval),
        setup,
    }
}

/// The phases of the first boss.
pub open spec fn boss_one_moves() -> Seq<BossMoveView> {
    seq![
        BossMoveView {
            position: Vec2 { x: 102400, y: 102400 },
            duration: 24000,
            fires: Pattern::Multiple(
                seq![
                    new_arc(0, 2000000, 20, 1, 300, sword_bullet()),
                    new_arc(2000000, (-2000000) as i32, 20, 1, 300, sword_bullet()),
                ],
            ),
        },
        BossMoveView {
            position: Vec2 { x: 153600, y: 153600 },
            duration: 36000,
            fires: Pattern::Multiple(
                seq![
                    Pattern::AtPlayer {
                        num_bullets: 3,
                        spread: 1000000,
                        cooldown: Cooldown::starting(4500, 0),
                        setup: sword_bullet(),
                    },
                    Pattern::Circle {
                        sides: 4,
                        rotation_per_fire: 500000,
                        rotation: 0,
                        cooldown: Cooldown::starting(600, 0),
                        setup: sword_bullet(),
                    },
                ],
            ),
        },
        BossMoveView {
            position: Vec2 { x: 245760, y: 102400 },
            duration: 36000,
            fires: Pattern::Circle {
                sides: 6,
                rotation_per_fire: 200000,
                rotation: 0,
                cooldown: Cooldown::starting(600, 0),
                setup: sword_bullet(),
            },
        },
        BossMoveView {
            position: Vec2 { x: 409600, y: 204800 },
            duration: 12000,
            fires: Pattern::AtPlayer {
                num_bullets: 5,
                spread: 500000,
                cooldown: Cooldown::starting(1500, 0),
                setup: sword_bullet(),
            },
        },
    ]
}

/// The phases of the second boss.
pub open spec fn boss_two_moves() -> Seq<BossMoveView> {
    seq![
        BossMoveView {
            position: Vec2 { x: 245760, y: 153600 },
            duration: 18000,
            fires: new_arc(1570796, 6283185, 100, 2, 90, dark_bullet()),
        },
        BossMoveView {
            position: Vec2 { x: 194560, y: 163840 },
            duration: 18000,
            fires: new_arc(1570796, (-6283185) as i32, 100, 2, 90, dark_bullet()),
        },
        BossMoveView {
            position: Vec2 { x: 296960, y: 174080 },
            duration: 30000,
            fires: Pattern::Multiple(
                seq![
                    new_arc(0, 6283185, 101, 2, 180, dark_bullet()),
                    new_arc(6283185, (-6283185) as i32, 101, 2, 180, dark_bullet()),
                ],
            ),
        },
        BossMoveView {
            position: Vec2 { x: 102400, y: 102400 },
            duration: 60000,
            fires: new_arc(1570796, (-62831853) as i32, 777, 1, 90, purple_bullet()),
        },
    ]
}

/// The components of a boss: it waits frozen fifty units above the middle of
/// the screen's upper edge until `start`, with `health` hits of health.
pub open spec fn boss_blueprint(
    start: u64,
    health: u32,
    image: GraphicsImage,
    moves: Seq<BossMoveView>,
) -> Seq<ComponentView> {
    enemy_blueprint(
        Vec2 { x: 245760, y: (-51200) as i32 },
        start,
        health,
        image,
        Vec2 { x: 30720, y: 40960 },
    ).push(
        ComponentView::Boss(
            BossView { max_health: health, move_timer: 0, current_move: 0, moves },
        ),
    )
}

/// The components of the first boss: three hundred hits of health.
pub open spec fn boss_one_blueprint(start: u64) -> Seq<ComponentView> {
    boss_blueprint(start, 300, GraphicsImage::BossOne, boss_one_moves())
}

/// The components of the second boss: four hundred hits of health.
pub open spec fn boss_two_blueprint(start: u64) -> Seq<ComponentView> {
    boss_blueprint(start, 400, GraphicsImage::BossTwo, boss_two_moves())
}

/// Asks for the first boss.
fn boss_one(updater: &mut LazyUpdate, start: u64)
    ensures
        final(updater)@ == old(updater)@.push(boss_one_blueprint(start)),
{
    let orange_bullet = BulletSetup {
        image: Image::from(GraphicsImage::Sword),
        speed: 3413,
        colour: None,
    };
    let boss = boss_of(
        300,
        BossMove {
            position: Vec2 { x: 102400, y: 102400 },
            fires: both(
                arc(0, 2000000, 20, 1, 300, orange_bullet),
                arc(2000000, -2000000, 20, 1, 300, orange_bullet),
            ),
            duration: 24000,
        },
        BossMove {
            position: Vec2 { x: 153600, y: 153600 },
            fires: both(
                FiresBullets::AtPlayer {
                    num_bullets: 3,
                    spread: 1000000,
                    cooldown: Cooldown::new(4500),
                    setup: orange_bullet,
                },
                FiresBullets::Circle {
                    sides: 4,
                    rotation_per_fire: 500000,
                    rotation: 0,
                    cooldown: Cooldown::new(600),
                    setup: orange_bullet,
                },
            ),
            duration: 36000,
        },
        BossMove {
            position: Vec2 { x: 245760, y: 102400 },
            fires: FiresBullets::Circle {
                sides: 6,
                rotation_per_fire: 200000,
                rotation: 0,
                cooldown: Cooldown::new(600),
                setup: orange_bullet,
            },
            duration: 36000,
        },
        BossMove {
            position: Vec2 { x: 409600, y: 204800 },
            fires: FiresBullets::AtPlayer {
                num_bullets: 5,
                spread: 500000,
                cooldown: Cooldown::new(1500),
                setup: orange_bullet,
            },
            duration: 12000,
        },
    );
    assert(boss@.moves =~= boss_one_moves());
    let builder = enemy(
        updater,
        Vec2 { x: 245760, y: -51200 },
        start,
        300,
        GraphicsImage::BossOne,
        Vec2 { x: 30720, y: 40960 },
    ).with(Component::Boss(boss));
    builder.build(updater);
}

/// Asks for the second boss.
fn boss_two(updater: &mut LazyUpdate, start: u64)
    ensures
        final(updater)@ == old(updater)@.push(boss_two_blueprint(start)),
{
    let dark_bullet = BulletSetup {
        image: Image::from(GraphicsImage::DarkBullet),
        speed: 3413,
        colour: None,
    };
    let purple_bullet = BulletSetup {
        image: Image::from(GraphicsImage::ColouredBullet),
        speed: 3413,
        colour: Some(ColourBullets::Purple),
    };
    let boss = boss_of(
        400,
        BossMove {
            position: Vec2 { x: 245760, y: 153600 },
            fires: arc(1570796, 6283185, 100, 2, 90, dark_bullet),
            duration: 18000,
        },
        BossMove {
            position: Vec2 { x: 194560, y: 163840 },
            fires: arc(1570796, -6283185, 100, 2, 90, dark_bullet),
            duration: 18000,
        },
        BossMove {
            position: Vec2 { x: 296960, y: 174080 },
            duration: 30000,
            fires: both(
                arc(0, 6283185, 101, 2, 180, dark_bullet),
                arc(6283185, -6283185, 101, 2, 180, dark_bullet),
            ),
        },
        BossMove {
            position: Vec2 { x: 102400, y: 102400 },
            fires: arc(1570796, -62831853, 777, 1, 90, purple_bullet),
            duration: 60000,
        },
    );
    assert(boss@.moves =~= boss_two_moves());
    let builder = enemy(
        updater,
        Vec2 { x: 245760, y: -51200 },
        start,
        400,
        GraphicsImage::BossTwo,
        Vec2 { x: 30720, y: 40960 },
    ).with(Component::Boss(boss));
    builder.build(updater);
}

/// The times from `start` on, `step` apart, that lie before `end`.
pub open spec fn steps(start: u64, end: u64, step: u64) -> Seq<u64>
    decreases end - start,
{
    if start >= end || step == 0 {
        Seq::empty()
    } else if end - start <= step {
        seq![start]
    } else {
        seq![start] + steps((start + step) as u64, end, step)
    }
}

/// The times that `steps` gives are `step` apart from `start` on, and all
/// lie before `end`.
pub proof fn law_steps_are_even(start: u64, end: u64, step: u64, k: int)
    requires
        step > 0,
        0 <= k < steps(start, end, step).len(),
    ensures
        steps(start, end, step)[k] == start + k * step,
        steps(start, end, step)[k] < end,
    decreases end - start,
{
    assert(k == 0 ==> k * step == 0) by (nonlinear_arith);
    if start < end && end - start > step {
        let rest = steps((start + step) as u64, end, step);
        if k > 0 {
            law_steps_are_even((start + step) as u64, end, step, k - 1);
            assert(start + step + (k - 1) * step == start + k * step) by (nonlinear_arith);
            assert((seq![start] + rest)[k] == rest[k - 1]);
        }
    }
}

/// How many times `steps` gives.
pub proof fn lemma_steps_len(start: u64, end: u64, step: u64)
    requires
        step > 0,
    ensures
        steps(start, end, step).len() == if start >= end {
            0
        } else {
            (end - start - 1) / (step as int) + 1
        },
    decreases end - start,
{
    if start >= end {
    } else if end - start <= step {
        vstd::arithmetic::div_mod::lemma_basic_div(end - start - 1, step as int);
    } else {
        lemma_steps_len((start + step) as u64, end, step);
        let x = end - start - 1;
        vstd::arithmetic::div_mod::lemma_div_plus_one(x - step, step as int);
    }
}

/// The times from `start` on, `step` apart, that lie before `end`.
fn time_steps(start: u64, end: u64, step: u64) -> (r: Vec<u64>)
    requires
        step > 0,
    ensures
        r@ == steps(start, end, step),
{
    let mut out: Vec<u64> = Vec::new();
    let mut t: u64 = start;
    loop
        invariant_except_break
            out@ + steps(t, end, step) == steps(start, end, step),
        invariant
            step > 0,
        ensures
            out@ == steps(start, end, step),
        decreases end - t,
    {
        if t >= end {
            assert(out@ + steps(t, end, step) =~= out@);
            break ;
        }
        let ghost before = out@;
        out.push(t);
        if end - t <= step {
            assert(steps(t, end, step) =~= seq![t]);
            assert(out@ =~= before + seq![t]);
            break ;
        }
        assert(out@ + steps((t + step) as u64, end, step) =~= before + steps(t, end, step)) by {
            assert(steps(t, end, step) =~= seq![t] + steps((t + step) as u64, end, step));
        }
        t = t + step;
    }
    out
}

/// The kinds of enemy groups that a stage sends at regular times.
#[derive(Clone, Copy, Debug, PartialEq, Eq, Structural)]
pub enum Wave {
    /// Two bats that sweep in from the left.
    BatsFromLeft,
    /// Two bats that sweep in from the right.
    BatsFromRight,
    /// Three bats that sweep down the screen.
    BatsFromAbove,
    /// One bat that sweeps in from the left, low on the screen.
    LowBats,
    /// One bat that sweeps in from the left in a bulge.
    CirclingBats,
    /// One bat from hell, somewhere above the screen.
    HellBats,
    /// One gargoyle that sweeps in from the left and fires.
    SweepingGargoyles,
    /// One spectre that sweeps in from the left and fires.
    Spectres,
    /// One flying skull above the screen and, from the thirtieth second on,
    /// three more: above, to the left and to the right.
    Skulls,
}

/// The curve of a sweep in from one side, by the heights given in world
/// units, at a pace of two and a half units.
pub open spec fn sweep(start_y: int, end_y: int, left_to_right: bool) -> Curve {
    if left_to_right {
        Curve {
            a: Vec2 { x: (-1556480) as i32, y: (start_y * 1024) as i32 },
            b: Vec2 { x: (-20480) as i32, y: (start_y * 1024) as i32 },
            c: Vec2 { x: 512000, y: (end_y * 1024) as i32 },
            d: Vec2 { x: 2048000, y: (end_y * 1024) as i32 },
            time: 0,
            speed: 2560,
        }
    } else {
        Curve {
            a: Vec2 { x: 2048000, y: (start_y * 1024) as i32 },
            b: Vec2 { x: 512000, y: (start_y * 1024) as i32 },
            c: Vec2 { x: (-20480) as i32, y: (end_y * 1024) as i32 },
            d: Vec2 { x: (-1556480) as i32, y: (end_y * 1024) as i32 },
            time: 0,
            speed: 2560,
        }
    }
}

/// The curve of a sweep down the screen, from and to the given world units
/// across, at a pace of two and a half units.
pub open spec fn dive(start_x: int, end_x: int) -> Curve {
    Curve {
        a: Vec2 { x: (start_x * 1024) as i32, y: (-2068480) as i32 },
        b: Vec2 { x: (start_x * 1024) as i32, y: (-20480) as i32 },
        c: Vec2 { x: (end_x * 1024) as i32, y: 655360 },
        d: Vec2 { x: (end_x * 1024) as i32, y: 2703360 },
        time: 0,
        speed: 2560,
    }
}

/// The curve of the bulging sweep of the circling bats.
pub open spec fn bulge() -> Curve {
    Curve {
        a: Vec2 { x: (-20480) as i32, y: (-819200) as i32 },
        b: Vec2 { x: (-20480) as i32, y: 204800 },
        c: Vec2 { x: 512000, y: 204800 },
        d: Vec2 { x: 512000, y: (-819200) as i32 },
        time: 0,
        speed: 2560,
    }
}

impl Wave {
    /// How many rolls of the dice a group of this kind takes.
    pub open spec fn rolls(self) -> nat {
        match self {
            Wave::HellBats => 1,
            Wave::SweepingGargoyles => 1,
            Wave::Spectres => 3,
            Wave::Skulls => 4,
            _ => 0,
        }
    }

    /// The group of this kind that wakes at `t`, with the rolls of the dice
    /// from place `at` on.
    pub open spec fn group(self, t: u64, rolls: Seq<u32>, at: int) -> Seq<Seq<ComponentView>> {
        match self {
            Wave::BatsFromLeft => seq![
                bat_blueprint(sweep(100, 300, true), t),
                bat_blueprint(sweep(150, 350, true), t),
            ],
            Wave::BatsFromRight => seq![
                bat_blueprint(sweep(200, 400, false), t),
                bat_blueprint(sweep(250, 450, false), t),
            ],
            Wave::BatsFromAbove => seq![
                bat_blueprint(dive(120, 240), t),
                bat_blueprint(dive(240, 360), t),
                bat_blueprint(dive(360, 120), t),
            ],
            Wave::LowBats => seq![bat_blueprint(sweep(400, 600, true), t)],
            Wave::CirclingBats => seq![bat_blueprint(bulge(), t)],
            Wave::HellBats => seq![
                hell_bat_blueprint(t, Vec2 { x: height_of(rolls[at]), y: (-51200) as i32 }),
            ],
            Wave::SweepingGargoyles => seq![sweeping_gargoyle_blueprint(t, rolls[at])],
            Wave::Spectres => seq![spectre_blueprint(t, rolls[at], rolls[at + 1], rolls[at + 2])],
            Wave::Skulls => if t >= 180000 {
                seq![
                    flying_skull_blueprint(
                        t,
                        Vec2 { x: height_of(rolls[at]), y: (-25600) as i32 },
                    ),
                    flying_skull_blueprint(
                        t,
                        Vec2 { x: height_of(rolls[at + 1]), y: (-25600) as i32 },
                    ),
                    flying_skull_blueprint(
                        t,
                        Vec2 { x: (-25600) as i32, y: height_of(rolls[at + 2]) },
                    ),
                    flying_skull_blueprint(t, Vec2 { x: 517120, y: height_of(rolls[at + 3]) }),
                ]
            } else {
                seq![
                    flying_skull_blueprint(
                        t,
                        Vec2 { x: height_of(rolls[at]), y: (-25600) as i32 },
                    ),
                ]
            },
        }
    }

    /// The groups of this kind that wake at the first `n` of `times`, the
    /// first group taking the rolls of the dice from place `from` on.
    pub open spec fn groups(self, times: Seq<u64>, n: nat, rolls: Seq<u32>, from: int) -> Seq<
        Seq<ComponentView>,
    >
        decreases n,
    {
        if n == 0 || n > times.len() {
            Seq::empty()
        } else {
            self.groups(times, (n - 1) as nat, rolls, from) + self.group(
                times[n - 1],
                rolls,
                from + (n - 1) * self.rolls(),
            )
        }
    }

    /// The whole wave: the groups that wake from `start` on, `step` apart,
    /// before `end`.
    pub open spec fn wave(self, start: u64, end: u64, step: u64, rolls: Seq<u32>, from: int) -> Seq<
        Seq<ComponentView>,
    > {
        self.groups(steps(start, end, step), steps(start, end, step).len(), rolls, from)
    }

    /// How many rolls of the dice a group of this kind takes.
    fn rolls_needed(self) -> (r: usize)
        ensures
            r == self.rolls(),
    {
        match self {
            Wave::HellBats => 1,
            Wave::SweepingGargoyles => 1,
            Wave::Spectres => 3,
            Wave::Skulls => 4,
            _ => 0,
        }
    }

    /// Asks for the group of this kind that wakes at `t`.
    fn spawn_group(self, updater: &mut LazyUpdate, t: u64, rolls: &Vec<u32>, at: usize)
        requires
            at + self.rolls() <= rolls@.len(),
        ensures
            final(updater)@ == old(updater)@ + self.group(t, rolls@, at as int),
    {
        assert(rolls@.len() == rolls.len());
        match self {
            Wave::BatsFromLeft => {
                bat_with_curve(updater, Curve::horizontal(102400, 307200, true, 2560), t);
                bat_with_curve(updater, Curve::horizontal(153600, 358400, true, 2560), t);
            },
            Wave::BatsFromRight => {
                bat_with_curve(updater, Curve::horizontal(204800, 409600, false, 2560), t);
                bat_with_curve(updater, Curve::horizontal(256000, 460800, false, 2560), t);
            },
            Wave::BatsFromAbove => {
                bat_with_curve(updater, Curve::vertical(256, 512, 2560), t);
                bat_with_curve(updater, Curve::vertical(512, 768, 2560), t);
                bat_with_curve(updater, Curve::vertical(768, 256, 2560), t);
            },
            Wave::LowBats => {
                bat_with_curve(updater, Curve::horizontal(409600, 614400, true, 2560), t);
            },
            Wave::CirclingBats => {
                bat_with_curve(updater, Curve::circular(204800, 1024000, 2560), t);
            },
            Wave::HellBats => {
                hell_bat(
                    updater,
                    t,
                    Vec2 { x: crate::math::narrow(rolls[at] as i64), y: -51200 },
                );
            },
            Wave::SweepingGargoyles => {
                sweeping_gargoyle(updater, t, rolls[at]);
            },
            Wave::Spectres => {
                spectre(updater, t, rolls[at], rolls[at + 1], rolls[at + 2]);
            },
            Wave::Skulls => {
                flying_skull(
                    updater,
                    t,
                    Vec2 { x: crate::math::narrow(rolls[at] as i64), y: -25600 },
                );
                if t >= 180000 {
                    flying_skull(
                        updater,
                        t,
                        Vec2 { x: crate::math::narrow(rolls[at + 1] as i64), y: -25600 },
                    );
                    flying_skull(
                        updater,
                        t,
                        Vec2 { x: -25600, y: crate::math::narrow(rolls[at + 2] as i64) },
                    );
                    flying_skull(
                        updater,
                        t,
                        Vec2 { x: 517120, y: crate::math::narrow(rolls[at + 3] as i64) },
                    );
                }
            },
        }
        assert(updater@ =~= old(updater)@ + self.group(t, rolls@, at as int));
    }

    /// Asks for the whole wave.
    fn spawn(
        self,
        updater: &mut LazyUpdate,
        start: u64,
        end: u64,
        step: u64,
        rolls: &Vec<u32>,
        from: usize,
    )
        requires
            step > 0,
            from <= rolls@.len(),
            self.rolls() > 0 ==> from + steps(start, end, step).len() * self.rolls()
                <= rolls@.len(),
        ensures
            final(updater)@ == old(updater)@ + self.wave(start, end, step, rolls@, from as int),
    {
        let ghost limit = rolls.len();
        let times = time_steps(start, end, step);
        let per: usize = self.rolls_needed();
        let n: usize = times.len();
        let mut cursor: usize = from;
        let mut k: usize = 0;
        while k < n
            invariant
                k <= n,
                n == times@.len(),
                per == self.rolls(),
                limit == rolls@.len(),
                cursor == from + k * per,
                from <= rolls@.len(),
                per > 0 ==> from + n * per <= rolls@.len(),
                updater@ == old(updater)@ + self.groups(times@, k as nat, rolls@, from as int),
            decreases n - k,
        {
            assert(cursor + per <= rolls@.len() && (k + 1) * per == k * per + per) by (nonlinear_arith)
                requires
                    cursor == from + k * per,
                    from <= rolls@.len(),
                    per > 0 ==> from + n * per <= rolls@.len(),
                    k < n,
                    per >= 0,
            ;
            self.spawn_group(updater, times[k], rolls, cursor);
            assert(updater@ =~= old(updater)@ + self.groups(
                times@,
                (k + 1) as nat,
                rolls@,
                from as int,
            ));
            cursor = cursor + per;
            k = k + 1;
        }
    }
}

/// How many rolls of the dice the first stage takes.
pub const STAGE_ONE_ROLLS: usize = 70;

/// How many rolls of the dice the second stage takes.
pub const STAGE_TWO_ROLLS: usize = 250;

/// What the first stage asks for, in order: the night sky and two layers of
/// clouds, the title, the players, four waves of bats, five gargoyles that
/// come down and fire, the circling bats, the bats from hell, the sweeping
/// gargoyles, and the boss at the fifty-fifth second. The rolls of the dice
/// go to the delays of the five gargoyles, the places of the sixty bats from
/// hell and the delays of the five sweeping gargoyles, in that order.
pub open spec fn stage_one_script(multiplayer: bool, rolls: Seq<u32>) -> Seq<Seq<ComponentView>> {
    seq![
        background_blueprint(
            GraphicsImage::NightSky,
            Vec2 { x: 0, y: 0 },
            Vec2 { x: 0, y: 0 },
            0,
        ),
        background_blueprint(
            GraphicsImage::Clouds,
            Vec2 { x: 0, y: 0 },
            Vec2 { x: 0, y: 1024 },
            1,
        ),
        background_blueprint(
            GraphicsImage::Clouds,
            Vec2 { x: 0, y: 1966080 },
            Vec2 { x: 0, y: 1024 },
            1,
        ),
        title_blueprint("Stage\nOne"@),
    ] + players_blueprints(multiplayer) + Wave::BatsFromLeft.wave(6000, 36000, 1500, rolls, 0)
        + Wave::BatsFromRight.wave(18000, 60000, 1500, rolls, 0) + Wave::BatsFromAbove.wave(
        72000,
        102000,
        1500,
        rolls,
        0,
    ) + Wave::LowBats.wave(90000, 120000, 3000, rolls, 0) + seq![
        gargoyle_blueprint(122880, 144000, rolls[0]),
        gargoyle_blueprint(245760, 144000, rolls[1]),
        gargoyle_blueprint(368640, 144000, rolls[2]),
        gargoyle_blueprint(184320, 168000, rolls[3]),
        gargoyle_blueprint(307200, 168000, rolls[4]),
    ] + Wave::CirclingBats.wave(150000, 198000, 1500, rolls, 0) + Wave::HellBats.wave(
        210000,
        300000,
        1500,
        rolls,
        5,
    ) + Wave::SweepingGargoyles.wave(270000, 300000, 6000, rolls, 65) + seq![
        boss_one_blueprint(330000),
    ]
}

/// Whether each roll of the dice for the first stage is one that the dice
/// can show: a delay of less than three quarters of a second for a gargoyle
/// that comes down, a place across the screen for a bat from hell, a delay
/// of less than half a second for a sweeping gargoyle.
pub open spec fn stage_one_fair(rolls: Seq<u32>) -> bool {
    &&& rolls.len() == STAGE_ONE_ROLLS
    &&& forall|i: int| 0 <= i < 5 ==> #[trigger] rolls[i] < 4500
    &&& forall|i: int| 5 <= i < 65 ==> #[trigger] rolls[i] < crate::WIDTH
    &&& forall|i: int| 65 <= i < 70 ==> #[trigger] rolls[i] < 3000
}

/// What the second stage asks for, in order: two layers of graveyard, two
/// of fog and the darkness, the title, the players, the spectres, the flying
/// skulls, and the boss at the fiftieth second. The rolls of the dice go to
/// the spectres, three each, and then to the skulls, four to a group.
pub open spec fn stage_two_script(multiplayer: bool, rolls: Seq<u32>) -> Seq<Seq<ComponentView>> {
    seq![
        background_blueprint(
            GraphicsImage::Graveyard,
            Vec2 { x: 0, y: 0 },
            Vec2 { x: 0, y: 512 },
            0,
        ),
        background_blueprint(
            GraphicsImage::Graveyard,
            Vec2 { x: 0, y: 1474560 },
            Vec2 { x: 0, y: 512 },
            0,
        ),
        background_blueprint(GraphicsImage::Fog, Vec2 { x: 0, y: 0 }, Vec2 { x: 0, y: 512 }, 1),
        background_blueprint(
            GraphicsImage::Fog,
            Vec2 { x: 0, y: 1966080 },
            Vec2 { x: 0, y: 512 },
            1,
        ),
        background_blueprint(
            GraphicsImage::Darkness,
            Vec2 { x: 0, y: 0 },
            Vec2 { x: 0, y: 0 },
            2,
        ),
        title_blueprint("Stage\nTwo"@),
    ] + players_blueprints(multiplayer) + Wave::Spectres.wave(30000, 120000, 3000, rolls, 0)
        + Wave::Skulls.wave(150000, 270000, 3000, rolls, 90) + seq![boss_two_blueprint(300000)]
}

/// Whether each roll of the dice for the second stage is one that the dice
/// can show: for a spectre two heights in the upper half of the screen and a
/// delay of less than a second, for a group of skulls two places across the
/// screen and two heights in its upper half.
pub open spec fn stage_two_fair(rolls: Seq<u32>) -> bool {
    &&& rolls.len() == STAGE_TWO_ROLLS
    &&& forall|i: int| 0 <= i < 250 ==> (#[trigger] rolls[i]) < stage_two_bound(i)
}

/// The bound of roll `i` of the second stage.
pub open spec fn stage_two_bound(i: int) -> int {
    if i < 90 {
        if i % 3 == 2 {
            6000
        } else {
            327680
        }
    } else if (i - 90) % 4 < 2 {
        491520
    } else {
        327680
    }
}

/// Resets the world to the start of the first stage, with the rolls of the
/// dice given: the clock goes back to nothing, every entity is deleted,
/// whatever was asked for and not yet made is dropped, and the stage's
/// entities are asked for.
pub fn stage_one_scripted(
    entities: &mut Entities,
    updater: &mut LazyUpdate,
    multiplayer: bool,
    time: &mut u64,
    rolls: &Vec<u32>,
)
    requires
        rolls@.len() == STAGE_ONE_ROLLS,
    ensures
        *final(time) == 0,
        final(entities)@ == all_killed(old(entities)@),
        final(updater)@ == stage_one_script(multiplayer, rolls@),
{
    *time = 0;
    clear(entities);
    updater.clear();
    create_background(updater, GraphicsImage::NightSky, Vec2::zero(), Vec2::zero(), 0);
    create_background(updater, GraphicsImage::Clouds, Vec2::zero(), Vec2::new(0, 1024), 1);
    create_background(
        updater,
        GraphicsImage::Clouds,
        Vec2::new(0, 1966080),
        Vec2::new(0, 1024),
        1,
    );
    create_title(updater, "Stage\nOne");
    create_players(updater, multiplayer);
    Wave::BatsFromLeft.spawn(updater, 6000, 36000, 1500, rolls, 0);
    Wave::BatsFromRight.spawn(updater, 18000, 60000, 1500, rolls, 0);
    Wave::BatsFromAbove.spawn(updater, 72000, 102000, 1500, rolls, 0);
    Wave::LowBats.spawn(updater, 90000, 120000, 3000, rolls, 0);
    gargoyle(updater, 122880, 144000, rolls[0]);
    gargoyle(updater, 245760, 144000, rolls[1]);
    gargoyle(updater, 368640, 144000, rolls[2]);
    gargoyle(updater, 184320, 168000, rolls[3]);
    gargoyle(updater, 307200, 168000, rolls[4]);
    Wave::CirclingBats.spawn(updater, 150000, 198000, 1500, rolls, 0);
    proof {
        lemma_steps_len(210000, 300000, 1500);
        lemma_steps_len(270000, 300000, 6000);
    }
    Wave::HellBats.spawn(updater, 210000, 300000, 1500, rolls, 5);
    Wave::SweepingGargoyles.spawn(updater, 270000, 300000, 6000, rolls, 65);
    boss_one(updater, 330000);
    assert(updater@ =~= stage_one_script(multiplayer, rolls@));
}

/// Resets the world to the start of the second stage, with the rolls of the
/// dice given: the clock goes back to nothing, every entity is deleted,
/// whatever was asked for and not yet made is dropped, and the stage's
/// entities are asked for.
pub fn stage_two_scripted(
    entities: &mut Entities,
    updater: &mut LazyUpdate,
    multiplayer: bool,
    time: &mut u64,
    rolls: &Vec<u32>,
)
    requires
        rolls@.len() == STAGE_TWO_ROLLS,
    ensures
        *final(time) == 0,
        final(entities)@ == all_killed(old(entities)@),
        final(updater)@ == stage_two_script(multiplayer, rolls@),
{
    *time = 0;
    clear(entities);
    updater.clear();
    create_background(updater, GraphicsImage::Graveyard, Vec2::zero(), Vec2::new(0, 512), 0);
    create_background(
        updater,
        GraphicsImage::Graveyard,
        Vec2::new(0, 1474560),
        Vec2::new(0, 512),
        0,
    );
    create_background(updater, GraphicsImage::Fog, Vec2::zero(), Vec2::new(0, 512), 1);
    create_background(updater, GraphicsImage::Fog, Vec2::new(0, 1966080), Vec2::new(0, 512), 1);
    create_background(updater, GraphicsImage::Darkness, Vec2::zero(), Vec2::zero(), 2);
    create_title(updater, "Stage\nTwo");
    create_players(updater, multiplayer);
    proof {
        lemma_steps_len(30000, 120000, 3000);
        lemma_steps_len(150000, 270000, 3000);
    }
    Wave::Spectres.spawn(updater, 30000, 120000, 3000, rolls, 0);
    Wave::Skulls.spawn(updater, 150000, 270000, 3000, rolls, 90);
    boss_two(updater, 300000);
    assert(updater@ =~= stage_two_script(multiplayer, rolls@));
}

/// Adds `count` rolls of the dice to `rolls`, each less than `bound`.
fn roll_more(rng: &mut ThreadRng, rolls: &mut Vec<u32>, count: usize, bound: u32)
    requires
        bound > 0,
    ensures
        final(rolls)@.len() == old(rolls)@.len() + count,
        forall|i: int| 0 <= i < old(rolls)@.len() ==> final(rolls)@[i] == old(rolls)@[i],
        forall|i: int|
            old(rolls)@.len() <= i < final(rolls)@.len() ==> (#[trigger] final(rolls)@[i]) < bound,
{
    let mut k: usize = 0;
    while k < count
        invariant
            k <= count,
            bound > 0,
            rolls@.len() == old(rolls)@.len() + k,
            forall|i: int| 0 <= i < old(rolls)@.len() ==> rolls@[i] == old(rolls)@[i],
            forall|i: int| old(rolls)@.len() <= i < rolls@.len() ==> (#[trigger] rolls@[i]) < bound,
        decreases count - k,
    {
        let roll: u64 = gen_range(rng, 0, bound as u64);
        rolls.push(roll as u32);
        k = k + 1;
    }
}

/// Resets the world to the start of the first stage. The outcome is that of
/// `stage_one_scripted` for some fair rolls of the dice.
pub fn stage_one(entities: &mut Entities, updater: &mut LazyUpdate, multiplayer: bool, time: &mut u64)
    ensures
        *final(time) == 0,
        final(entities)@ == all_killed(old(entities)@),
        exists|rolls: Seq<u32>|
            stage_one_fair(rolls) && final(updater)@ == stage_one_script(multiplayer, rolls),
{
    let mut rng = thread_rng();
    let mut rolls: Vec<u32> = Vec::new();
    roll_more(&mut rng, &mut rolls, 5, 4500);
    roll_more(&mut rng, &mut rolls, 60, 491520);
    roll_more(&mut rng, &mut rolls, 5, 3000);
    assert(stage_one_fair(rolls@));
    stage_one_scripted(entities, updater, multiplayer, time, &rolls);
}

/// Resets the world to the start of the second stage. The outcome is that
/// of `stage_two_scripted` for some fair rolls of the dice.
pub fn stage_two(entities: &mut Entities, updater: &mut LazyUpdate, multiplayer: bool, time: &mut u64)
    ensures
        *final(time) == 0,
        final(entities)@ == all_killed(old(entities)@),
        exists|rolls: Seq<u32>|
            stage_two_fair(rolls) && final(updater)@ == stage_two_script(multiplayer, rolls),
{
    let mut rng = thread_rng();
    let mut rolls: Vec<u32> = Vec::new();
    let mut k: usize = 0;
    while k < 30
        invariant
            k <= 30,
            rolls@.len() == 3 * k,
            forall|i: int| 0 <= i < rolls@.len() ==> (#[trigger] rolls@[i]) < stage_two_bound(i),
        decreases 30 - k,
    {
        roll_more(&mut rng, &mut rolls, 2, 327680);
        roll_more(&mut rng, &mut rolls, 1, 6000);
        k = k + 1;
    }
    let mut k: usize = 0;
    while k < 40
        invariant
            k <= 40,
            rolls@.len() == 90 + 4 * k,
            forall|i: int| 0 <= i < rolls@.len() ==> (#[trigger] rolls@[i]) < stage_two_bound(i),
        decreases 40 - k,
    {
        roll_more(&mut rng, &mut rolls, 2, 491520);
        roll_more(&mut rng, &mut rolls, 2, 327680);
        k = k + 1;
    }
    assert(stage_two_fair(rolls@));
    stage_two_scripted(entities, updater, multiplayer, time, &rolls);
}

/// The boss is the last entity of its stage: whatever the number of players
/// and the rolls of the dice, a stage asks for its boss after everything
/// else.
pub proof fn law_boss_comes_last(multiplayer: bool, rolls: Seq<u32>)
    ensures
        stage_one_script(multiplayer, rolls).last() == boss_one_blueprint(330000),
        stage_two_script(multiplayer, rolls).last() == boss_two_blueprint(300000),
{
}

} // verus!
