//! The per-frame systems: each reads and writes the tables and singletons it
//! is handed and nothing else.

use vstd::prelude::*;
use crate::components::BeenOnscreen;
use crate::components::Boss;
use crate::components::Circle;
use crate::components::Cooldown;
use crate::components::PowerBar;
use crate::components::PowerOrb;
use crate::graphics::Image as GraphicsImage;
use crate::resources::Aim;
use crate::resources::BulletSpawner;
use crate::resources::BulletToBeSpawned;
use crate::resources::PlayingState;
use crate::components::CollidesWithBomb;
use crate::components::ColourOverlay;
use crate::components::DieOffscreen;
use crate::components::Enemy;
use crate::components::Friendly;
use crate::components::Health;
use crate::components::Hitbox;
use crate::components::Image;
use crate::components::TargetPlayer;
use crate::graphics::frame_size;
use crate::graphics::Atlas;
use crate::math::later;
use crate::random::thread_rng;
use crate::resources::PlayerPositions;
use crate::storage::Life;
use crate::components::FrozenUntil;
use crate::curve::Curve;
use crate::firing::div_wide_towards_zero;
use crate::firing::tdiv;
use crate::math::ceil_sqrt;
use crate::math::isqrt_ceil;
use crate::math::narrow;
use crate::math::saturate;
use crate::resources::GameTime;
use crate::components::Explosion;
use crate::components::FiresBullets;
use crate::components::MoveTowards;
use crate::components::Movement;
use crate::components::BOSS_SPEED;
use crate::storage::alive_in;
use crate::storage::Entities;
use crate::storage::Slot;
use crate::storage::Storage;
use crate::components::Player;
use crate::components::Position;
use crate::lazy::Component;
use crate::lazy::ComponentView;
use crate::lazy::LazyUpdate;
use crate::math::Vec2;
use crate::resources::rest_above;
use crate::resources::rest_below;
use crate::resources::ControlsState;
use crate::resources::Mode;
use crate::resources::PlayerControlsState;

pub mod bullets;
pub mod rendering;

pub use self::bullets::damage_entity;
pub use self::bullets::handle_fires_bullets;
pub use self::bullets::ApplyCollisions;
pub use self::bullets::Collisions;
pub use self::bullets::ExpandBombs;
pub use self::bullets::FireBullets;
pub use self::rendering::ExplosionImages;
pub use self::rendering::RenderBombs;
pub use self::rendering::RenderHitboxes;
pub use self::rendering::RenderMenu;
pub use self::rendering::RenderPauseBackground;
pub use self::rendering::RenderPauseScreen;
pub use self::rendering::RenderSprite;
pub use self::rendering::RenderText;
pub use self::rendering::RenderUI;
pub use self::rendering::RepeatBackgroundLayers;

verus! {

/// Switches between playing and the pause menu when pause was pressed.
pub struct TogglePaused;

/// The mode after pause was pressed: a game that is played is paused with
/// the cursor on the first line, a paused game goes on; no other mode cares.
pub open spec fn pause_toggled(mode: Mode) -> Mode {
    match mode {
        Mode::Playing { stage, state, multiplayer } => Mode::Paused {
            selected: 0,
            stage,
            state,
            multiplayer,
        },
        Mode::Paused { stage, state, multiplayer, .. } => Mode::Playing {
            stage,
            state,
            multiplayer,
        },
        _ => mode,
    }
}

impl TogglePaused {
    /// A pending press of pause is used up and toggles the mode; without one
    /// nothing changes.
    pub fn run(&mut self, ctrl_state: &mut ControlsState, mode: &mut Mode)
        ensures
            *final(mode) == if old(ctrl_state).pause.pressed {
                pause_toggled(*old(mode))
            } else {
                *old(mode)
            },
            *final(ctrl_state) == (ControlsState {
                pause: old(ctrl_state).pause.set(false),
                ..*old(ctrl_state)
            }),
    {
        if ctrl_state.pause.pressed {
            *mode = match *mode {
                Mode::Playing { stage, state, multiplayer } => Mode::Paused {
                    selected: 0,
                    stage,
                    state,
                    multiplayer,
                },
                Mode::Paused { stage, state, multiplayer, .. } => Mode::Playing {
                    stage,
                    state,
                    multiplayer,
                },
                _ => *mode,
            };
            ctrl_state.pause.pressed = false;
        }
    }
}

/// Steers the menus with the lone player's keys.
pub struct ControlMenu;

/// The mode after a frame of menu steering: the cursor goes down, then up,
/// then the line under it is chosen, each where the key for it was pressed.
pub open spec fn menu_steered(mode: Mode, controls: ControlsState) -> Mode {
    let keys = controls.of(Player::Single);
    let lines = mode.menu_lines(controls);
    let down = if keys.down.pressed {
        mode.with_cursor(rest_below(lines, mode.cursor().unwrap() as int, lines.len()) as usize)
    } else {
        mode
    };
    let up = if keys.up.pressed {
        down.with_cursor(rest_above(lines, down.cursor().unwrap() as int, lines.len()) as usize)
    } else {
        down
    };
    if keys.fire.pressed {
        up.chosen(lines.len() - 1)
    } else {
        up
    }
}

/// The lone player's actions with down, up and fire used up.
pub open spec fn menu_keys_used(keys: PlayerControlsState) -> PlayerControlsState {
    PlayerControlsState {
        down: keys.down.set(false),
        up: keys.up.set(false),
        fire: keys.fire.set(false),
        ..keys
    }
}

impl ControlMenu {
    /// In a mode that shows a menu, pending presses of down, up and fire are
    /// used up and steer it; in any other mode nothing changes.
    pub fn run(&mut self, ctrl_state: &mut ControlsState, mode: &mut Mode)
        requires
            old(mode).cursor_on_menu(*old(ctrl_state)),
        ensures
            *final(mode) == if old(mode).cursor() is Some {
                menu_steered(*old(mode), *old(ctrl_state))
            } else {
                *old(mode)
            },
            *final(ctrl_state) == if old(mode).cursor() is Some {
                old(ctrl_state).with(
                    Player::Single,
                    menu_keys_used(old(ctrl_state).of(Player::Single)),
                )
            } else {
                *old(ctrl_state)
            },
            final(mode).cursor_on_menu(*final(ctrl_state)),
    {
        let keys = *ctrl_state.get(Player::Single);
        let mut last_item: usize = 0;
        let mut shown = false;
        if let Some(mut menu) = mode.as_menu(ctrl_state) {
            shown = true;
            if keys.down.pressed {
                menu.rotate_down();
            }
            if keys.up.pressed {
                menu.rotate_up();
            }
            last_item = menu.items.len() - 1;
        }
        if shown {
            let player_ctrl_state = ctrl_state.get_mut(Player::Single);
            player_ctrl_state.down.pressed = false;
            player_ctrl_state.up.pressed = false;
            if keys.fire.pressed {
                match *mode {
                    Mode::Paused { selected, stage, state, multiplayer } => {
                        *mode = if selected == 0 {
                            Mode::Playing { stage, state, multiplayer }
                        } else {
                            Mode::MainMenu { selected: 0 }
                        };
                    },
                    Mode::MainMenu { selected } => {
                        *mode = if selected == 0 {
                            Mode::Stages { selected: 0, multiplayer: false }
                        } else if selected == 1 {
                            Mode::Controls { selected: 0 }
                        } else {
                            Mode::Quit
                        };
                    },
                    Mode::Stages { selected, multiplayer } => {
                        *mode = if selected == 0 {
                            Mode::StartStage { stage: crate::resources::Stage::One, multiplayer }
                        } else if selected == 1 {
                            Mode::StartStage { stage: crate::resources::Stage::Two, multiplayer }
                        } else if selected == 2 {
                            Mode::Stages { selected, multiplayer: !multiplayer }
                        } else {
                            Mode::MainMenu { selected: 0 }
                        };
                    },
                    Mode::Controls { selected } => {
                        if selected == last_item {
                            *mode = Mode::MainMenu { selected: 1 };
                        }
                    },
                    Mode::StageComplete { stage, selected, multiplayer } => {
                        *mode = if selected == 0 {
                            match stage {
                                crate::resources::Stage::One => Mode::StartStage {
                                    stage: crate::resources::Stage::Two,
                                    multiplayer,
                                },
                                crate::resources::Stage::Two => Mode::StageComplete {
                                    stage,
                                    selected,
                                    multiplayer,
                                },
                            }
                        } else {
                            Mode::MainMenu { selected: 0 }
                        };
                    },
                    Mode::StageLost { .. } => {
                        *mode = Mode::MainMenu { selected: 0 };
                    },
                    Mode::Playing { .. } | Mode::StartStage { .. } | Mode::Quit => {},
                }
                player_ctrl_state.fire.pressed = false;
            }
        }
    }
}

/// Whether two boxes share a point. A box is centred on its position and
/// reaches as far from it, each way, as its extent says.
pub open spec fn boxes_meet(pos_a: Vec2, hit_a: Vec2, pos_b: Vec2, hit_b: Vec2) -> bool {
    !(pos_a.x - hit_a.x > pos_b.x + hit_b.x || pos_a.x + hit_a.x < pos_b.x - hit_b.x || pos_a.y
        - hit_a.y > pos_b.y + hit_b.y || pos_a.y + hit_a.y < pos_b.y - hit_b.y)
}

/// Where two entities touch, if they do. Two boxes without extent never
/// touch. Otherwise boxes that meet touch at the position of the one with the
/// smaller area, and at the first position where the areas are equal.
pub open spec fn touching(pos_a: Vec2, hit_a: Vec2, pos_b: Vec2, hit_b: Vec2) -> Option<Vec2> {
    if hit_a == (Vec2 { x: 0, y: 0 }) && hit_b == (Vec2 { x: 0, y: 0 }) {
        None
    } else if boxes_meet(pos_a, hit_a, pos_b, hit_b) {
        Some(
            if hit_a.x * hit_a.y > hit_b.x * hit_b.y {
                pos_b
            } else {
                pos_a
            },
        )
    } else {
        None
    }
}

/// Where two entities touch, if they do.
pub fn is_touching(pos_a: Vec2, hit_a: Vec2, pos_b: Vec2, hit_b: Vec2) -> (r: Option<Vec2>)
    ensures
        r == touching(pos_a, hit_a, pos_b, hit_b),
{
    if hit_a.x == 0 && hit_a.y == 0 && hit_b.x == 0 && hit_b.y == 0 {
        return None;
    }
    let a_left: i64 = pos_a.x as i64 - hit_a.x as i64;
    let a_right: i64 = pos_a.x as i64 + hit_a.x as i64;
    let a_top: i64 = pos_a.y as i64 - hit_a.y as i64;
    let a_bottom: i64 = pos_a.y as i64 + hit_a.y as i64;
    let b_left: i64 = pos_b.x as i64 - hit_b.x as i64;
    let b_right: i64 = pos_b.x as i64 + hit_b.x as i64;
    let b_top: i64 = pos_b.y as i64 - hit_b.y as i64;
    let b_bottom: i64 = pos_b.y as i64 + hit_b.y as i64;
    let is_touching = !(a_left > b_right || a_right < b_left || a_top > b_bottom || a_bottom
        < b_top);
    if is_touching {
        assert(-0x8000_0000 * 0x8000_0000 <= hit_a.x * hit_a.y <= 0x8000_0000 * 0x8000_0000)
            by (nonlinear_arith)
            requires
                -0x8000_0000 <= hit_a.x <= 0x8000_0000,
                -0x8000_0000 <= hit_a.y <= 0x8000_0000,
        ;
        assert(-0x8000_0000 * 0x8000_0000 <= hit_b.x * hit_b.y <= 0x8000_0000 * 0x8000_0000)
            by (nonlinear_arith)
            requires
                -0x8000_0000 <= hit_b.x <= 0x8000_0000,
                -0x8000_0000 <= hit_b.y <= 0x8000_0000,
        ;
        let area_a: i64 = (hit_a.x as i64) * (hit_a.y as i64);
        let area_b: i64 = (hit_b.x as i64) * (hit_b.y as i64);
        Some(
            if area_a > area_b {
                pos_b
            } else {
                pos_a
            },
        )
    } else {
        None
    }
}

/// Two boxes without extent never touch, wherever they are.
pub proof fn law_points_never_touch(pos_a: Vec2, pos_b: Vec2)
    ensures
        touching(pos_a, Vec2 { x: 0, y: 0 }, pos_b, Vec2 { x: 0, y: 0 }) is None,
{
}

/// Whether two entities touch does not depend on which is asked first; only
/// the position that is reported may.
pub proof fn law_touching_symmetric(pos_a: Vec2, hit_a: Vec2, pos_b: Vec2, hit_b: Vec2)
    ensures
        touching(pos_a, hit_a, pos_b, hit_b) is Some <==> touching(pos_b, hit_b, pos_a, hit_a)
            is Some,
        touching(pos_a, hit_a, pos_b, hit_b) matches Some(p) ==> p == pos_a || p == pos_b,
{
}

/// The components of a blast effect at `pos` that begins at `time`.
pub open spec fn explosion_blueprint(pos: Vec2, time: u64) -> Seq<ComponentView> {
    seq![ComponentView::Position(Position(pos)), ComponentView::Explosion(Explosion(time))]
}

/// Asks for a blast effect at `pos` that begins at `time`.
pub fn build_explosion(updater: &mut LazyUpdate, pos: Vec2, time: u64)
    ensures
        final(updater)@ == old(updater)@.push(explosion_blueprint(pos, time)),
{
    let builder = updater.create_entity().with(Component::Position(Position(pos))).with(
        Component::Explosion(Explosion(time)),
    );
    assert(builder@ =~= explosion_blueprint(pos, time));
    builder.build(updater);
}

/// Drives the bosses through their phases.
pub struct MoveBosses;

/// Whether the entity in slot `i` is a boss that acts: it is alive and has a
/// position.
pub open spec fn boss_acts(
    entities: Seq<Slot>,
    pos: Map<int, Position>,
    boss: Map<int, Boss>,
    i: int,
) -> bool {
    alive_in(entities, i) && pos.dom().contains(i) && boss.dom().contains(i)
}

impl MoveBosses {
    /// Sends every boss towards the position of its phase. A boss that is
    /// exactly there is given the pattern of the phase unless it has one,
    /// and holds for a tick; when that ends the phase, the pattern is taken
    /// away and the next phase begins. A boss on its way only moves.
    pub fn run(
        &mut self,
        entities: &Entities,
        pos: &Storage<Position>,
        boss: &mut Storage<Boss>,
        movement: &mut Storage<Movement>,
        fires: &mut Storage<FiresBullets>,
    )
        requires
            forall|i: int|
                boss_acts(entities@, pos@, old(boss)@, i) ==> (#[trigger] old(boss)@[i]).current_move < old(boss)@[i].moves@.len(),
        ensures
            final(boss)@.dom() == old(boss)@.dom(),
            forall|i: int|
                boss_acts(entities@, pos@, old(boss)@, i) ==> (#[trigger] final(boss)@[i]).current_move < final(boss)@[i].moves@.len(),
            forall|i: int|
                !boss_acts(entities@, pos@, old(boss)@, i) ==> {
                    &&& (#[trigger] final(boss).at(i)) == old(boss).at(i)
                    &&& final(movement).at(i) == old(movement).at(i)
                    &&& final(fires).at(i) == old(fires).at(i)
                },
            forall|i: int|
                boss_acts(entities@, pos@, old(boss)@, i) ==> {
                    let was = old(boss)@[i]@;
                    let there = pos@[i].0 == was.phase().position;
                    &&& (#[trigger] final(movement).at(i)) == Some(
                        Movement::MoveTowards(
                            MoveTowards { position: was.phase().position, speed: BOSS_SPEED },
                        ),
                    )
                    &&& final(boss)@[i]@ == if there {
                        was.held()
                    } else {
                        was
                    }
                    &&& !there ==> final(fires).at(i) == old(fires).at(i)
                    &&& there && was.expires() ==> final(fires).at(i) is None
                    &&& there && !was.expires() ==> final(fires).at(i) is Some
                    &&& there && !was.expires() && old(fires).at(i) is Some ==> final(fires).at(i)
                        == old(fires).at(i)
                    &&& there && !was.expires() && old(fires).at(i) is None ==> final(fires)@[i]@
                        == was.phase().fires
                },
    {
        let n: usize = entities.len();
        let mut i: usize = 0;
        while i < n
            invariant
                i <= n,
                n == entities@.len(),
                boss@.dom() == old(boss)@.dom(),
                forall|j: int|
                    boss_acts(entities@, pos@, old(boss)@, j) ==> (#[trigger] boss@[j]).current_move
                        < boss@[j].moves@.len(),
                forall|j: int|
                    j >= i || !boss_acts(entities@, pos@, old(boss)@, j) ==> {
                        &&& (#[trigger] boss.at(j)) == old(boss).at(j)
                        &&& movement.at(j) == old(movement).at(j)
                        &&& fires.at(j) == old(fires).at(j)
                    },
                forall|j: int|
                    0 <= j < i && boss_acts(entities@, pos@, old(boss)@, j) ==> {
                        let was = old(boss)@[j]@;
                        let there = pos@[j].0 == was.phase().position;
                        &&& (#[trigger] movement.at(j)) == Some(
                            Movement::MoveTowards(
                                MoveTowards { position: was.phase().position, speed: BOSS_SPEED },
                            ),
                        )
                        &&& boss@[j]@ == if there {
                            was.held()
                        } else {
                            was
                        }
                        &&& !there ==> fires.at(j) == old(fires).at(j)
                        &&& there && was.expires() ==> fires.at(j) is None
                        &&& there && !was.expires() ==> fires.at(j) is Some
                        &&& there && !was.expires() && old(fires).at(j) is Some ==> fires.at(j)
                            == old(fires).at(j)
                        &&& there && !was.expires() && old(fires).at(j) is None ==> fires@[j]@
                            == was.phase().fires
                    },
            decreases n - i,
        {
            let ghost boss_before = *boss;
            let ghost movement_before = *movement;
            let ghost fires_before = *fires;
            if entities.alive_at(i) {
                if let Some(at) = pos.get(i) {
                    if let Some(the_boss) = boss.get_mut(i) {
                        let target_position = the_boss.current_move().position;
                        movement.insert(
                            i,
                            Movement::MoveTowards(
                                MoveTowards { position: target_position, speed: BOSS_SPEED },
                            ),
                        );
                        if at.0.x == target_position.x && at.0.y == target_position.y {
                            if !fires.contains(i) {
                                fires.insert(i, the_boss.current_move().fires.duplicate());
                            }
                            if the_boss.hold() {
                                fires.remove(i);
                            }
                        }
                    }
                    assert(boss@.dom() =~= old(boss)@.dom());
                }
            }
            proof {
                assert(boss_before.at(i as int) == old(boss).at(i as int));
                assert(movement_before.at(i as int) == old(movement).at(i as int));
                assert(fires_before.at(i as int) == old(fires).at(i as int));
                assert forall|j: int| j != i implies boss.at(j) == boss_before.at(j)
                    && movement.at(j) == movement_before.at(j) && fires.at(j) == fires_before.at(
                    j,
                ) by {}
                assert forall|j: int|
                    j >= i + 1 || !boss_acts(entities@, pos@, old(boss)@, j) implies {
                    &&& (#[trigger] boss.at(j)) == old(boss).at(j)
                    &&& movement.at(j) == old(movement).at(j)
                    &&& fires.at(j) == old(fires).at(j)
                } by {
                    assert(boss_before.at(j) == old(boss).at(j));
                    assert(movement_before.at(j) == old(movement).at(j));
                    assert(fires_before.at(j) == old(fires).at(j));
                }
                assert forall|j: int|
                    0 <= j < i + 1 && boss_acts(entities@, pos@, old(boss)@, j) implies {
                    let was = old(boss)@[j]@;
                    let there = pos@[j].0 == was.phase().position;
                    &&& (#[trigger] movement.at(j)) == Some(
                        Movement::MoveTowards(
                            MoveTowards { position: was.phase().position, speed: BOSS_SPEED },
                        ),
                    )
                    &&& boss@[j]@ == if there {
                        was.held()
                    } else {
                        was
                    }
                    &&& !there ==> fires.at(j) == old(fires).at(j)
                    &&& there && was.expires() ==> fires.at(j) is None
                    &&& there && !was.expires() ==> fires.at(j) is Some
                    &&& there && !was.expires() && old(fires).at(j) is Some ==> fires.at(j)
                        == old(fires).at(j)
                    &&& there && !was.expires() && old(fires).at(j) is None ==> fires@[j]@
                        == was.phase().fires
                } by {
                    if j < i {
                        assert(movement_before.at(j) == movement.at(j));
                        assert(boss_before.at(j) == boss.at(j));
                        assert(fires_before.at(j) == fires.at(j));
                    }
                }
            }
            i = i + 1;
        }
    }
}

/// How much a falling entity gains in speed each tick: a sixteenth of a
/// world unit.
pub const GRAVITY: i32 = 64;

/// The displacement of length `speed` from `from` towards `to`: the
/// difference, scaled by `speed` over its length. The length is rounded up
/// and each component towards zero, so that the step is never longer than
/// `speed`.
pub open spec fn stride(from: Vec2, to: Vec2, speed: int) -> Vec2 {
    let len = ceil_sqrt(from.dist2(to) as nat) as int;
    Vec2 {
        x: saturate(tdiv((to.x - from.x) * speed, len)) as i32,
        y: saturate(tdiv((to.y - from.y) * speed, len)) as i32,
    }
}

/// Where homing takes an entity in one tick: the whole way when the target
/// is no further than `speed`, and `speed` towards it when it is.
pub open spec fn homed(pos: Vec2, towards: MoveTowards) -> Vec2 {
    if pos.dist2(towards.position) > towards.speed * towards.speed {
        pos.plus(stride(pos, towards.position, towards.speed as int))
    } else {
        towards.position
    }
}

/// Where an entity at `pos` is after one tick of `movement` at the time
/// `now`, and what the movement has become.
pub open spec fn moved(pos: Vec2, movement: Movement, now: u64) -> (Vec2, Movement) {
    match movement {
        Movement::Linear(velocity) => (pos.plus(velocity), movement),
        Movement::Falling { speed, down } => (
            Vec2 {
                x: pos.x,
                y: if down {
                    saturate(pos.y + speed) as i32
                } else {
                    saturate(pos.y - speed) as i32
                },
            },
            Movement::Falling { speed: saturate(speed + GRAVITY) as i32, down },
        ),
        Movement::FollowCurve(curve) => (
            curve.point_at(curve.next_time(pos)),
            Movement::FollowCurve(Curve { time: curve.next_time(pos) as u32, ..curve }),
        ),
        Movement::FiringMove { speed, return_time, stop_time } => (
            Vec2 {
                x: pos.x,
                y: if return_time <= now {
                    saturate(pos.y - speed) as i32
                } else if stop_time > now {
                    saturate(pos.y + speed) as i32
                } else {
                    pos.y
                },
            },
            movement,
        ),
        Movement::MoveTowards(towards) => (homed(pos, towards), movement),
    }
}

/// Takes one homing step.
pub fn home(pos: Vec2, towards: MoveTowards) -> (r: Vec2)
    ensures
        r == homed(pos, towards),
{
    let speed: i128 = towards.speed as i128;
    assert(0 <= speed * speed <= 0x8000_0000 * 0x8000_0000) by (nonlinear_arith)
        requires
            -0x8000_0000 <= speed <= 0x8000_0000,
    ;
    let dist2: u128 = pos.distance2(towards.position);
    if dist2 > (speed * speed) as u128 {
        let len: u128 = isqrt_ceil(dist2);
        proof {
            assert(0x2_0000_0000int * 0x2_0000_0000int >= 0x2_0000_0000_0000_0000int);
            crate::math::lemma_ceil_sqrt_reaches(dist2 as nat);
            crate::math::lemma_ceil_sqrt_least(dist2 as nat, 0x2_0000_0000);
            if len == 0 {
                assert(len * len == 0) by (nonlinear_arith)
                    requires
                        len == 0,
                ;
            }
        }
        let dx: i128 = towards.position.x as i128 - pos.x as i128;
        let dy: i128 = towards.position.y as i128 - pos.y as i128;
        assert(-0xffff_ffff * 0x8000_0000 <= dx * speed <= 0xffff_ffff * 0x8000_0000)
            by (nonlinear_arith)
            requires
                -0xffff_ffff <= dx <= 0xffff_ffff,
                -0x8000_0000 <= speed <= 0x8000_0000,
        ;
        assert(-0xffff_ffff * 0x8000_0000 <= dy * speed <= 0xffff_ffff * 0x8000_0000)
            by (nonlinear_arith)
            requires
                -0xffff_ffff <= dy <= 0xffff_ffff,
                -0x8000_0000 <= speed <= 0x8000_0000,
        ;
        let vx: i128 = div_wide_towards_zero(dx * speed, len as u64);
        let vy: i128 = div_wide_towards_zero(dy * speed, len as u64);
        pos.add(Vec2 { x: narrow(vx as i64), y: narrow(vy as i64) })
    } else {
        towards.position
    }
}

/// Takes one tick of a movement.
pub fn advance(pos: Vec2, movement: Movement, now: u64) -> (r: (Vec2, Movement))
    ensures
        r == moved(pos, movement, now),
{
    match movement {
        Movement::Linear(velocity) => (pos.add(velocity), movement),
        Movement::Falling { speed, down } => {
            let y: i32 = if down {
                narrow(pos.y as i64 + speed as i64)
            } else {
                narrow(pos.y as i64 - speed as i64)
            };
            (
                Vec2 { x: pos.x, y },
                Movement::Falling { speed: narrow(speed as i64 + GRAVITY as i64), down },
            )
        },
        Movement::FollowCurve(curve) => {
            let mut curve = curve;
            let point = curve.step(pos);
            (point, Movement::FollowCurve(curve))
        },
        Movement::FiringMove { speed, return_time, stop_time } => {
            let y: i32 = if return_time <= now {
                narrow(pos.y as i64 - speed as i64)
            } else if stop_time > now {
                narrow(pos.y as i64 + speed as i64)
            } else {
                pos.y
            };
            (Vec2 { x: pos.x, y }, movement)
        },
        Movement::MoveTowards(towards) => (home(pos, towards), movement),
    }
}

/// Moves the entities.
pub struct MoveEntities;

/// Whether the entity in slot `i` moves: it is alive, not frozen, and has a
/// position and a movement.
pub open spec fn mover(
    entities: Seq<Slot>,
    pos: Map<int, Position>,
    mov: Map<int, Movement>,
    frozen: Map<int, FrozenUntil>,
    i: int,
) -> bool {
    alive_in(entities, i) && pos.dom().contains(i) && mov.dom().contains(i) && !frozen.dom().contains(
        i,
    )
}

impl MoveEntities {
    /// Takes every mover through one tick of its movement. Nothing else
    /// changes.
    pub fn run(
        &mut self,
        entities: &Entities,
        pos: &mut Storage<Position>,
        mov: &mut Storage<Movement>,
        frozen: &Storage<FrozenUntil>,
        game_time: &GameTime,
    )
        ensures
            final(pos)@.dom() == old(pos)@.dom(),
            final(mov)@.dom() == old(mov)@.dom(),
            forall|i: int|
                mover(entities@, old(pos)@, old(mov)@, frozen@, i) ==> {
                    let after = moved(old(pos)@[i].0, old(mov)@[i], game_time.total_time);
                    &&& (#[trigger] final(pos).at(i)) == Some(Position(after.0))
                    &&& final(mov).at(i) == Some(after.1)
                },
            forall|i: int|
                !mover(entities@, old(pos)@, old(mov)@, frozen@, i) ==> {
                    &&& (#[trigger] final(pos).at(i)) == old(pos).at(i)
                    &&& final(mov).at(i) == old(mov).at(i)
                },
    {
        let n: usize = entities.len();
        let mut i: usize = 0;
        while i < n
            invariant
                i <= n,
                n == entities@.len(),
                pos@.dom() == old(pos)@.dom(),
                mov@.dom() == old(mov)@.dom(),
                forall|j: int|
                    0 <= j < i && mover(entities@, old(pos)@, old(mov)@, frozen@, j) ==> {
                        let after = moved(old(pos)@[j].0, old(mov)@[j], game_time.total_time);
                        &&& (#[trigger] pos.at(j)) == Some(Position(after.0))
                        &&& mov.at(j) == Some(after.1)
                    },
                forall|j: int|
                    j >= i || !mover(entities@, old(pos)@, old(mov)@, frozen@, j) ==> {
                        &&& (#[trigger] pos.at(j)) == old(pos).at(j)
                        &&& mov.at(j) == old(mov).at(j)
                    },
            decreases n - i,
        {
            let ghost pos_before = *pos;
            let ghost mov_before = *mov;
            if entities.alive_at(i) && !frozen.contains(i) {
                if let Some(at) = pos.get(i) {
                    if let Some(movement) = mov.get(i) {
                        let at: Position = *at;
                        let movement: Movement = *movement;
                        assert(Some(at) == old(pos).at(i as int));
                        assert(Some(movement) == old(mov).at(i as int));
                        let (next, movement) = advance(at.0, movement, game_time.total_time);
                        pos.insert(i, Position(next));
                        mov.insert(i, movement);
                        assert(pos@.dom() =~= old(pos)@.dom());
                        assert(mov@.dom() =~= old(mov)@.dom());
                    }
                }
            }
            proof {
                assert(pos_before.at(i as int) == old(pos).at(i as int));
                assert(mov_before.at(i as int) == old(mov).at(i as int));
                assert forall|j: int|
                    0 <= j < i + 1 && mover(entities@, old(pos)@, old(mov)@, frozen@, j) implies {
                    let after = moved(old(pos)@[j].0, old(mov)@[j], game_time.total_time);
                    &&& (#[trigger] pos.at(j)) == Some(Position(after.0))
                    &&& mov.at(j) == Some(after.1)
                } by {
                    if j < i {
                        assert(pos_before.at(j) == pos.at(j));
                        assert(mov_before.at(j) == mov.at(j));
                    }
                }
                assert forall|j: int|
                    j >= i + 1 || !mover(entities@, old(pos)@, old(mov)@, frozen@, j) implies {
                    &&& (#[trigger] pos.at(j)) == old(pos).at(j)
                    &&& mov.at(j) == old(mov).at(j)
                } by {
                    assert(pos_before.at(j) == old(pos).at(j));
                    assert(mov_before.at(j) == old(mov).at(j));
                }
            }
            i = i + 1;
        }
    }
}

/// Lets the clock tick and wakes the entities whose time has come.
pub struct TickTime;

impl TickTime {
    /// The clock goes on by a tick, stopping at the end of time. Every living
    /// entity that was frozen until a time that the clock has now reached is
    /// frozen no more. Nothing else changes.
    pub fn run(&mut self, entities: &Entities, game_time: &mut GameTime, frozen: &mut Storage<FrozenUntil>)
        ensures
            final(game_time).total_time == later(old(game_time).total_time, crate::TICK),
            forall|i: int|
                (#[trigger] final(frozen).at(i)) == if alive_in(entities@, i) && old(frozen).at(i)
                    is Some && old(frozen)@[i].0 <= final(game_time).total_time {
                    None
                } else {
                    old(frozen).at(i)
                },
    {
        game_time.total_time = game_time.total_time.saturating_add(crate::TICK);
        let now: u64 = game_time.total_time;
        let n: usize = entities.len();
        let mut i: usize = 0;
        while i < n
            invariant
                i <= n,
                n == entities@.len(),
                now == game_time.total_time,
                forall|j: int|
                    (#[trigger] frozen.at(j)) == if j < i && alive_in(entities@, j) && old(frozen).at(j) is Some && old(frozen)@[j].0 <= now {
                        None
                    } else {
                        old(frozen).at(j)
                    },
            decreases n - i,
        {
            let ghost before = *frozen;
            if entities.alive_at(i) {
                let thaws = match frozen.get(i) {
                    Some(until) => until.0 <= now,
                    None => false,
                };
                if thaws {
                    frozen.remove(i);
                }
            }
            proof {
                assert forall|j: int|
                    (#[trigger] frozen.at(j)) == if j < i + 1 && alive_in(entities@, j) && old(frozen).at(j) is Some && old(frozen)@[j].0 <= now {
                        None
                    } else {
                        old(frozen).at(j)
                    } by {
                    assert(before.at(j) == if j < i && alive_in(entities@, j) && old(frozen).at(j)
                        is Some && old(frozen)@[j].0 <= now {
                        None
                    } else {
                        old(frozen).at(j)
                    });
                }
            }
            i = i + 1;
        }
    }
}

/// Notes where the players are.
pub struct SetPlayerPositions;

/// The positions of the living players in the slots below `n`, by rising
/// slot.
pub open spec fn player_spots(
    entities: Seq<Slot>,
    pos: Map<int, Position>,
    player: Map<int, Player>,
    n: int,
) -> Seq<Vec2>
    decreases n,
{
    if n <= 0 {
        Seq::empty()
    } else if alive_in(entities, n - 1) && pos.dom().contains(n - 1) && player.dom().contains(
        n - 1,
    ) {
        player_spots(entities, pos, player, n - 1).push(pos[n - 1].0)
    } else {
        player_spots(entities, pos, player, n - 1)
    }
}

impl SetPlayerPositions {
    /// Replaces the list by the positions of the living players, by rising
    /// slot.
    pub fn run(
        &mut self,
        entities: &Entities,
        pos: &Storage<Position>,
        player: &Storage<Player>,
        positions: &mut PlayerPositions,
    )
        ensures
            final(positions).0@ == player_spots(entities@, pos@, player@, entities@.len() as int),
    {
        positions.0.clear();
        let n: usize = entities.len();
        let mut i: usize = 0;
        while i < n
            invariant
                i <= n,
                n == entities@.len(),
                positions.0@ == player_spots(entities@, pos@, player@, i as int),
            decreases n - i,
        {
            if entities.alive_at(i) && player.contains(i) {
                if let Some(at) = pos.get(i) {
                    positions.0.push(at.0);
                }
            }
            i = i + 1;
        }
    }
}

/// Whether a sprite of the extent `size`, centred on `p`, shows on the
/// screen. The test is made on doubled coordinates, so that halving an odd
/// extent loses nothing.
pub open spec fn onscreen(p: Vec2, size: Vec2) -> bool {
    !(2 * p.y + size.y <= 0 || 2 * p.y - size.y >= 2 * crate::HEIGHT || 2 * p.x + size.x <= 0 || 2
        * p.x - size.x >= 2 * crate::WIDTH)
}

/// Whether the sprite `image` at `pos` shows on the screen.
pub fn is_onscreen(pos: &Position, image: Image, atlas: &Atlas) -> (b: bool)
    ensures
        b == onscreen(pos.0, frame_size(atlas.frame_of(image.0))),
{
    let size = image.size(atlas);
    let x: i64 = 2 * (pos.0.x as i64);
    let y: i64 = 2 * (pos.0.y as i64);
    !(y + size.y as i64 <= 0 || y - size.y as i64 >= 2 * (crate::HEIGHT as i64) || x
        + size.x as i64 <= 0 || x - size.x as i64 >= 2 * (crate::WIDTH as i64))
}

/// Deletes what has left the screen.
pub struct KillOffscreen;

/// Whether the entity in slot `i` has left the screen: it is alive, has been
/// seen on the screen, and its sprite does not show there.
pub open spec fn has_left(
    entities: Seq<Slot>,
    pos: Map<int, Position>,
    been_onscreen: Map<int, BeenOnscreen>,
    image: Map<int, Image>,
    atlas: Atlas,
    i: int,
) -> bool {
    alive_in(entities, i) && pos.dom().contains(i) && been_onscreen.dom().contains(i)
        && image.dom().contains(i) && !onscreen(pos[i].0, frame_size(atlas.frame_of(image[i].0)))
}

impl KillOffscreen {
    /// Deletes every entity that has left the screen. Nothing else changes.
    pub fn run(
        &mut self,
        entities: &mut Entities,
        pos: &Storage<Position>,
        been_onscreen: &Storage<BeenOnscreen>,
        image: &Storage<Image>,
        atlas: &Atlas,
    )
        ensures
            final(entities)@.len() == old(entities)@.len(),
            forall|i: int|
                0 <= i < old(entities)@.len() ==> (#[trigger] final(entities)@[i]) == if has_left(
                    old(entities)@,
                    pos@,
                    been_onscreen@,
                    image@,
                    *atlas,
                    i,
                ) {
                    Slot { generation: old(entities)@[i].generation, life: Life::Killed }
                } else {
                    old(entities)@[i]
                },
    {
        let n: usize = entities.len();
        let mut i: usize = 0;
        while i < n
            invariant
                i <= n,
                n == entities@.len(),
                n == old(entities)@.len(),
                forall|j: int|
                    0 <= j < n ==> (#[trigger] entities@[j]) == if j < i && has_left(
                        old(entities)@,
                        pos@,
                        been_onscreen@,
                        image@,
                        *atlas,
                        j,
                    ) {
                        Slot { generation: old(entities)@[j].generation, life: Life::Killed }
                    } else {
                        old(entities)@[j]
                    },
            decreases n - i,
        {
            if let Some(entity) = entities.entity_at(i) {
                if been_onscreen.contains(i) {
                    if let Some(at) = pos.get(i) {
                        if let Some(sprite) = image.get(i) {
                            if !is_onscreen(at, *sprite, atlas) {
                                let _ = entities.delete(entity);
                            }
                        }
                    }
                }
            }
            i = i + 1;
        }
    }
}

/// Notes what has come onto the screen.
pub struct AddOnscreen;

/// Whether the entity in slot `i` shows on the screen and is to die when it
/// leaves it.
pub open spec fn has_entered(
    entities: Seq<Slot>,
    pos: Map<int, Position>,
    image: Map<int, Image>,
    die_offscreen: Map<int, DieOffscreen>,
    atlas: Atlas,
    i: int,
) -> bool {
    alive_in(entities, i) && pos.dom().contains(i) && die_offscreen.dom().contains(i)
        && image.dom().contains(i) && onscreen(pos[i].0, frame_size(atlas.frame_of(image[i].0)))
}

impl AddOnscreen {
    /// Marks every entity that shows on the screen and is to die when it
    /// leaves it as having been seen there. Nothing else changes.
    pub fn run(
        &mut self,
        entities: &Entities,
        pos: &Storage<Position>,
        image: &Storage<Image>,
        die_offscreen: &Storage<DieOffscreen>,
        been_onscreen: &mut Storage<BeenOnscreen>,
        atlas: &Atlas,
    )
        ensures
            forall|i: int|
                (#[trigger] final(been_onscreen).at(i)) == if has_entered(
                    entities@,
                    pos@,
                    image@,
                    die_offscreen@,
                    *atlas,
                    i,
                ) {
                    Some(BeenOnscreen)
                } else {
                    old(been_onscreen).at(i)
                },
    {
        let n: usize = entities.len();
        let mut i: usize = 0;
        while i < n
            invariant
                i <= n,
                n == entities@.len(),
                forall|j: int|
                    (#[trigger] been_onscreen.at(j)) == if j < i && has_entered(
                        entities@,
                        pos@,
                        image@,
                        die_offscreen@,
                        *atlas,
                        j,
                    ) {
                        Some(BeenOnscreen)
                    } else {
                        old(been_onscreen).at(j)
                    },
            decreases n - i,
        {
            let ghost before = *been_onscreen;
            if entities.alive_at(i) && die_offscreen.contains(i) {
                if let Some(at) = pos.get(i) {
                    if let Some(sprite) = image.get(i) {
                        if is_onscreen(at, *sprite, atlas) {
                            been_onscreen.insert(i, BeenOnscreen);
                        }
                    }
                }
            }
            proof {
                assert forall|j: int|
                    (#[trigger] been_onscreen.at(j)) == if j < i + 1 && has_entered(
                        entities@,
                        pos@,
                        image@,
                        die_offscreen@,
                        *atlas,
                        j,
                    ) {
                        Some(BeenOnscreen)
                    } else {
                        old(been_onscreen).at(j)
                    } by {
                    assert(before.at(j) == if j < i && has_entered(
                        entities@,
                        pos@,
                        image@,
                        die_offscreen@,
                        *atlas,
                        j,
                    ) {
                        Some(BeenOnscreen)
                    } else {
                        old(been_onscreen).at(j)
                    });
                }
            }
            i = i + 1;
        }
    }
}

/// The components of a bullet: one hit of health, a box without extent,
/// and it dies when it leaves the screen. An enemy's bullet is destroyed by
/// the blast of a bomb.
pub open spec fn bullet_blueprint(
    pos: Vec2,
    image: Image,
    velocity: Vec2,
    enemy: bool,
    overlay: Option<ColourOverlay>,
) -> Seq<ComponentView> {
    let side = if enemy {
        seq![ComponentView::Enemy(Enemy), ComponentView::CollidesWithBomb(CollidesWithBomb)]
    } else {
        seq![ComponentView::Friendly(Friendly)]
    };
    let body = seq![
        ComponentView::Position(Position(pos)),
        ComponentView::Image(image),
        ComponentView::Movement(Movement::Linear(velocity)),
        ComponentView::DieOffscreen(DieOffscreen),
        ComponentView::Hitbox(Hitbox(Vec2 { x: 0, y: 0 })),
        ComponentView::Health(Health(1)),
    ];
    match overlay {
        Some(colour) => side + body + seq![ComponentView::ColourOverlay(colour)],
        None => side + body,
    }
}

/// Asks for a bullet.
pub fn build_bullet(
    updater: &mut LazyUpdate,
    pos: Vec2,
    image: Image,
    velocity: Vec2,
    enemy: bool,
    overlay: Option<ColourOverlay>,
)
    ensures
        final(updater)@ == old(updater)@.push(
            bullet_blueprint(pos, image, velocity, enemy, overlay),
        ),
{
    let mut builder = if enemy {
        updater.create_entity().with(Component::Enemy(Enemy)).with(
            Component::CollidesWithBomb(CollidesWithBomb),
        )
    } else {
        updater.create_entity().with(Component::Friendly(Friendly))
    };
    builder = builder.with(Component::Position(Position(pos))).with(Component::Image(image)).with(
        Component::Movement(Movement::Linear(velocity)),
    ).with(Component::DieOffscreen(DieOffscreen)).with(
        Component::Hitbox(Hitbox(Vec2 { x: 0, y: 0 })),
    ).with(Component::Health(Health(1)));
    if let Some(colour) = overlay {
        builder = builder.with(Component::ColourOverlay(colour));
    }
    assert(builder@ =~= bullet_blueprint(pos, image, velocity, enemy, overlay));
    builder.build(updater);
}

/// The velocity of the pace `speed` from `from` towards `target`; along the
/// x axis where the two are the same point.
pub open spec fn aimed(from: Vec2, target: Vec2, speed: i32) -> Vec2 {
    if from.dist2(target) == 0 {
        Vec2 { x: speed, y: 0 }
    } else {
        stride(from, target, speed as int)
    }
}

/// The velocity of the pace `speed` from `from` towards `target`.
pub fn aim(from: Vec2, target: Vec2, speed: i32) -> (r: Vec2)
    ensures
        r == aimed(from, target, speed),
{
    let dist2: u128 = from.distance2(target);
    if dist2 == 0 {
        return Vec2 { x: speed, y: 0 };
    }
    let len: u128 = isqrt_ceil(dist2);
    proof {
        assert(0x2_0000_0000int * 0x2_0000_0000int >= 0x2_0000_0000_0000_0000int);
        crate::math::lemma_ceil_sqrt_reaches(dist2 as nat);
        crate::math::lemma_ceil_sqrt_least(dist2 as nat, 0x2_0000_0000);
        if len == 0 {
            assert(len * len == 0) by (nonlinear_arith)
                requires
                    len == 0,
            ;
        }
    }
    let pace: i128 = speed as i128;
    let dx: i128 = target.x as i128 - from.x as i128;
    let dy: i128 = target.y as i128 - from.y as i128;
    assert(-0xffff_ffff * 0x8000_0000 <= dx * pace <= 0xffff_ffff * 0x8000_0000)
        by (nonlinear_arith)
        requires
            -0xffff_ffff <= dx <= 0xffff_ffff,
            -0x8000_0000 <= pace <= 0x8000_0000,
    ;
    assert(-0xffff_ffff * 0x8000_0000 <= dy * pace <= 0xffff_ffff * 0x8000_0000)
        by (nonlinear_arith)
        requires
            -0xffff_ffff <= dy <= 0xffff_ffff,
            -0x8000_0000 <= pace <= 0x8000_0000,
    ;
    let vx: i128 = div_wide_towards_zero(dx * pace, len as u64);
    let vy: i128 = div_wide_towards_zero(dy * pace, len as u64);
    Vec2 { x: narrow(vx as i64), y: narrow(vy as i64) }
}

/// Turns the wish to fly at a player into flight.
pub struct StartTowardsPlayer;

/// Whether the entity in slot `i` is to lock onto a player now: it is alive,
/// not frozen, and has a position and the wish.
pub open spec fn locks_on(
    entities: Seq<Slot>,
    frozen: Map<int, FrozenUntil>,
    pos: Map<int, Position>,
    target: Map<int, TargetPlayer>,
    i: int,
) -> bool {
    alive_in(entities, i) && pos.dom().contains(i) && target.dom().contains(i)
        && !frozen.dom().contains(i)
}

/// Whether `movement` is straight flight of the pace `speed` from `from` at
/// a point that `players` admits.
pub open spec fn flies_at_player(
    players: PlayerPositions,
    from: Vec2,
    speed: i32,
    movement: Option<Movement>,
) -> bool {
    exists|p: Vec2| #[trigger]
        players.admits(p) && movement == Some(Movement::Linear(aimed(from, p, speed)))
}

impl StartTowardsPlayer {
    /// Every entity that is to lock onto a player loses the wish and flies
    /// from then on in a straight line towards the position of one of the
    /// players, or towards some point of the screen when there is none.
    /// Nothing else changes.
    pub fn run(
        &mut self,
        entities: &Entities,
        frozen: &Storage<FrozenUntil>,
        pos: &Storage<Position>,
        target: &mut Storage<TargetPlayer>,
        movement: &mut Storage<Movement>,
        player_positions: &PlayerPositions,
    )
        ensures
            forall|i: int|
                locks_on(entities@, frozen@, pos@, old(target)@, i) ==> (#[trigger] final(target).at(i)) is None && flies_at_player(
                    *player_positions,
                    pos@[i].0,
                    old(target)@[i].0,
                    final(movement).at(i),
                ),
            forall|i: int|
                !locks_on(entities@, frozen@, pos@, old(target)@, i) ==> (#[trigger] final(target).at(i)) == old(target).at(i) && final(movement).at(i) == old(movement).at(i),
    {
        let mut rng = thread_rng();
        let n: usize = entities.len();
        let mut i: usize = 0;
        while i < n
            invariant
                i <= n,
                n == entities@.len(),
                forall|j: int|
                    0 <= j < i && locks_on(entities@, frozen@, pos@, old(target)@, j) ==> (
                    #[trigger] target.at(j)) is None && flies_at_player(
                        *player_positions,
                        pos@[j].0,
                        old(target)@[j].0,
                        movement.at(j),
                    ),
                forall|j: int|
                    j >= i || !locks_on(entities@, frozen@, pos@, old(target)@, j) ==> (
                    #[trigger] target.at(j)) == old(target).at(j) && movement.at(j) == old(movement).at(j),
            decreases n - i,
        {
            let ghost target_before = *target;
            let ghost movement_before = *movement;
            if entities.alive_at(i) && !frozen.contains(i) {
                if let Some(at) = pos.get(i) {
                    if let Some(wish) = target.remove(i) {
                        let player = player_positions.random(&mut rng);
                        movement.insert(i, Movement::Linear(aim(at.0, player, wish.0)));
                        assert(player_positions.admits(player));
                        assert(flies_at_player(
                            *player_positions,
                            pos@[i as int].0,
                            old(target)@[i as int].0,
                            movement.at(i as int),
                        ));
                    }
                }
            }
            proof {
                assert(target_before.at(i as int) == old(target).at(i as int));
                assert forall|j: int|
                    0 <= j < i + 1 && locks_on(
                        entities@,
                        frozen@,
                        pos@,
                        old(target)@,
                        j,
                    ) implies (#[trigger] target.at(j)) is None && flies_at_player(
                    *player_positions,
                    pos@[j].0,
                    old(target)@[j].0,
                    movement.at(j),
                ) by {
                    if j < i {
                        assert(target_before.at(j) == target.at(j));
                        assert(movement_before.at(j) == movement.at(j));
                    }
                }
                assert forall|j: int|
                    j >= i + 1 || !locks_on(
                        entities@,
                        frozen@,
                        pos@,
                        old(target)@,
                        j,
                    ) implies (#[trigger] target.at(j)) == old(target).at(j) && movement.at(j)
                    == old(movement).at(j) by {
                    assert(target_before.at(j) == old(target).at(j));
                    assert(movement_before.at(j) == old(movement).at(j));
                }
            }
            i = i + 1;
        }
    }
}

/// How far a player moves in a tick: 250 units a second.
pub const PLAYER_SPEED: i32 = 4267;

/// How fast a player's bullet flies: 1000 units a second.
pub const PLAYER_BULLET_SPEED: i32 = 17067;

/// Steers the players.
pub struct Control;

/// Where the keys take a player from `p` in a tick: left and then right, up
/// and then down, each by the player's speed, which is halved while the key
/// for slow movement is held, and never off the screen.
pub open spec fn steered(p: Vec2, keys: PlayerControlsState) -> Vec2 {
    let speed = if keys.slow_movement.pressed {
        PLAYER_SPEED / 2
    } else {
        PLAYER_SPEED as int
    };
    let x1 = if keys.left.pressed {
        if p.x - speed > 0 {
            p.x - speed
        } else {
            0
        }
    } else {
        p.x as int
    };
    let x2 = if keys.right.pressed {
        if x1 + speed < crate::WIDTH {
            x1 + speed
        } else {
            crate::WIDTH as int
        }
    } else {
        x1
    };
    let y1 = if keys.up.pressed {
        if p.y - speed > 0 {
            p.y - speed
        } else {
            0
        }
    } else {
        p.y as int
    };
    let y2 = if keys.down.pressed {
        if y1 + speed < crate::HEIGHT {
            y1 + speed
        } else {
            crate::HEIGHT as int
        }
    } else {
        y1
    };
    Vec2 { x: x2 as i32, y: y2 as i32 }
}

/// Bullet `k` of the five a player fires from `pos`: a fan about straight
/// up, a tenth of a radian between neighbours.
pub open spec fn player_shot(pos: Vec2, k: int) -> BulletToBeSpawned {
    BulletToBeSpawned {
        pos,
        image: Image(GraphicsImage::PlayerBullet.code()),
        speed: PLAYER_BULLET_SPEED,
        aim: Aim::Heading((-1770796 + 100000 * k) as i64),
        colour: None,
        enemy: false,
    }
}

/// The five bullets a player fires from `pos`.
pub open spec fn player_volley(pos: Vec2) -> Seq<BulletToBeSpawned> {
    Seq::new(5, |k: int| player_shot(pos, k))
}

/// The components of the blast of a bomb that is set off at `pos`.
pub open spec fn bomb_blueprint(pos: Vec2) -> Seq<ComponentView> {
    seq![ComponentView::Position(Position(pos)), ComponentView::Circle(Circle { radius: 0 })]
}

/// What steering reads: who is alive and in which seat, where, with which
/// gun and power, the state of the keys, and the time.
pub struct Cockpit {
    pub entities: Seq<Slot>,
    pub player: Map<int, Player>,
    pub pos: Map<int, Position>,
    pub cooldown: Map<int, Cooldown>,
    pub bar: Map<int, PowerBar>,
    pub controls: ControlsState,
    pub now: u64,
}

impl Cockpit {
    /// Whether the entity in slot `i` is a player that is steered: it is
    /// alive and has a seat, a position, a gun and a power bar.
    pub open spec fn pilot(self, i: int) -> bool {
        alive_in(self.entities, i) && self.player.dom().contains(i) && self.pos.dom().contains(i)
            && self.cooldown.dom().contains(i) && self.bar.dom().contains(i)
    }

    /// The keys of the player in slot `i`.
    pub open spec fn keys(self, i: int) -> PlayerControlsState {
        self.controls.of(self.player[i])
    }

    /// Whether the player in slot `i` fires: fire is held and the gun is
    /// ready.
    pub open spec fn fires(self, i: int) -> bool {
        self.keys(i).fire.pressed && self.cooldown[i].ready(self.now)
    }

    /// Whether the player in slot `i` sets off a bomb: the key is held and
    /// the power bar is exactly full.
    pub open spec fn bombs(self, i: int) -> bool {
        self.keys(i).bomb.pressed && self.bar[i].0 == 35
    }

    /// The bullets the players in the slots below `n` fire, by rising slot.
    pub open spec fn volleys(self, n: int) -> Seq<BulletToBeSpawned>
        decreases n,
    {
        if n <= 0 {
            Seq::empty()
        } else if self.pilot(n - 1) && self.fires(n - 1) {
            self.volleys(n - 1) + player_volley(steered(self.pos[n - 1].0, self.keys(n - 1)))
        } else {
            self.volleys(n - 1)
        }
    }

    /// The blasts the players in the slots below `n` set off, by rising
    /// slot.
    pub open spec fn blasts(self, n: int) -> Seq<Seq<ComponentView>>
        decreases n,
    {
        if n <= 0 {
            Seq::empty()
        } else if self.pilot(n - 1) && self.bombs(n - 1) {
            self.blasts(n - 1).push(
                bomb_blueprint(steered(self.pos[n - 1].0, self.keys(n - 1))),
            )
        } else {
            self.blasts(n - 1)
        }
    }
}

/// Takes a player through a tick of the keys.
pub fn steer(p: Vec2, keys: &PlayerControlsState) -> (r: Vec2)
    ensures
        r == steered(p, *keys),
{
    let speed: i64 = if keys.slow_movement.pressed {
        (PLAYER_SPEED / 2) as i64
    } else {
        PLAYER_SPEED as i64
    };
    let mut x: i64 = p.x as i64;
    let mut y: i64 = p.y as i64;
    if keys.left.pressed {
        x = if x - speed > 0 {
            x - speed
        } else {
            0
        };
    }
    if keys.right.pressed {
        x = if x + speed < crate::WIDTH as i64 {
            x + speed
        } else {
            crate::WIDTH as i64
        };
    }
    if keys.up.pressed {
        y = if y - speed > 0 {
            y - speed
        } else {
            0
        };
    }
    if keys.down.pressed {
        y = if y + speed < crate::HEIGHT as i64 {
            y + speed
        } else {
            crate::HEIGHT as i64
        };
    }
    Vec2 { x: x as i32, y: y as i32 }
}

impl Control {
    /// Takes every player through a tick of its keys: it moves; where fire
    /// is held its gun is asked, and fires five bullets if it is ready;
    /// where the bomb key is held a full power bar is spent on a blast.
    /// Nothing else changes.
    pub fn run(
        &mut self,
        entities: &Entities,
        ctrl_state: &ControlsState,
        time: &GameTime,
        spawner: &mut BulletSpawner,
        updater: &mut LazyUpdate,
        player: &Storage<Player>,
        position: &mut Storage<Position>,
        cooldown: &mut Storage<Cooldown>,
        bar: &mut Storage<PowerBar>,
    )
        ensures
            ({
                let cockpit = Cockpit {
                    entities: entities@,
                    player: player@,
                    pos: old(position)@,
                    cooldown: old(cooldown)@,
                    bar: old(bar)@,
                    controls: *ctrl_state,
                    now: time.total_time,
                };
                &&& forall|i: int|
                    cockpit.pilot(i) ==> {
                        &&& (#[trigger] final(position).at(i)) == Some(
                            Position(steered(cockpit.pos[i].0, cockpit.keys(i))),
                        )
                        &&& final(cooldown).at(i) == Some(
                            if cockpit.keys(i).fire.pressed {
                                cockpit.cooldown[i].asked(cockpit.now)
                            } else {
                                cockpit.cooldown[i]
                            },
                        )
                        &&& final(bar).at(i) == Some(
                            if cockpit.bombs(i) {
                                PowerBar(0)
                            } else {
                                cockpit.bar[i]
                            },
                        )
                    }
                &&& forall|i: int|
                    !cockpit.pilot(i) ==> {
                        &&& (#[trigger] final(position).at(i)) == old(position).at(i)
                        &&& final(cooldown).at(i) == old(cooldown).at(i)
                        &&& final(bar).at(i) == old(bar).at(i)
                    }
                &&& final(spawner).0@ == old(spawner).0@ + cockpit.volleys(entities@.len() as int)
                &&& final(updater)@ == old(updater)@ + cockpit.blasts(entities@.len() as int)
            }),
    {
        let ghost cockpit = Cockpit {
            entities: entities@,
            player: player@,
            pos: position@,
            cooldown: cooldown@,
            bar: bar@,
            controls: *ctrl_state,
            now: time.total_time,
        };
        let n: usize = entities.len();
        let mut i: usize = 0;
        while i < n
            invariant
                i <= n,
                n == entities@.len(),
                cockpit == (Cockpit {
                    entities: entities@,
                    player: player@,
                    pos: old(position)@,
                    cooldown: old(cooldown)@,
                    bar: old(bar)@,
                    controls: *ctrl_state,
                    now: time.total_time,
                }),
                forall|j: int|
                    0 <= j < i && cockpit.pilot(j) ==> {
                        &&& (#[trigger] position.at(j)) == Some(
                            Position(steered(cockpit.pos[j].0, cockpit.keys(j))),
                        )
                        &&& cooldown.at(j) == Some(
                            if cockpit.keys(j).fire.pressed {
                                cockpit.cooldown[j].asked(cockpit.now)
                            } else {
                                cockpit.cooldown[j]
                            },
                        )
                        &&& bar.at(j) == Some(
                            if cockpit.bombs(j) {
                                PowerBar(0)
                            } else {
                                cockpit.bar[j]
                            },
                        )
                    },
                forall|j: int|
                    j >= i || !cockpit.pilot(j) ==> {
                        &&& (#[trigger] position.at(j)) == old(position).at(j)
                        &&& cooldown.at(j) == old(cooldown).at(j)
                        &&& bar.at(j) == old(bar).at(j)
                    },
                spawner.0@ == old(spawner).0@ + cockpit.volleys(i as int),
                updater@ == old(updater)@ + cockpit.blasts(i as int),
            decreases n - i,
        {
            let ghost position_before = *position;
            let ghost cooldown_before = *cooldown;
            let ghost bar_before = *bar;
            let ghost shots_before = spawner.0@;
            if entities.alive_at(i) && position.contains(i) && cooldown.contains(i) && bar.contains(
                i,
            ) {
                if let Some(seat) = player.get(i) {
                    let player_ctrl_state = ctrl_state.get(*seat);
                    let mut at = Vec2::zero();
                    if let Some(pos) = position.get_mut(i) {
                        pos.0 = steer(pos.0, player_ctrl_state);
                        at = pos.0;
                    }
                    let mut fires = false;
                    if player_ctrl_state.fire.pressed {
                        if let Some(gun) = cooldown.get_mut(i) {
                            fires = gun.is_ready(time.total_time);
                        }
                    }
                    if fires {
                        let mut k: i64 = 0;
                        while k < 5
                            invariant
                                0 <= k <= 5,
                                spawner.0@ == shots_before + Seq::new(
                                    k as nat,
                                    |d: int| player_shot(at, d),
                                ),
                            decreases 5 - k,
                        {
                            spawner.0.push(
                                BulletToBeSpawned {
                                    pos: at,
                                    image: Image::from(GraphicsImage::PlayerBullet),
                                    speed: PLAYER_BULLET_SPEED,
                                    aim: Aim::Heading(-1770796 + 100000 * k),
                                    colour: None,
                                    enemy: false,
                                },
                            );
                            k = k + 1;
                        }
                    }
                    let mut bombs = false;
                    if player_ctrl_state.bomb.pressed {
                        if let Some(power) = bar.get_mut(i) {
                            bombs = power.empty();
                        }
                    }
                    if bombs {
                        let builder = updater.create_entity().with(
                            Component::Position(Position(at)),
                        ).with(Component::Circle(Circle { radius: 0 }));
                        assert(builder@ =~= bomb_blueprint(at));
                        builder.build(updater);
                    }
                }
            }
            proof {
                assert(position_before.at(i as int) == old(position).at(i as int));
                assert(cooldown_before.at(i as int) == old(cooldown).at(i as int));
                assert(bar_before.at(i as int) == old(bar).at(i as int));
                assert forall|j: int| 0 <= j < i + 1 && cockpit.pilot(j) implies {
                    &&& (#[trigger] position.at(j)) == Some(
                        Position(steered(cockpit.pos[j].0, cockpit.keys(j))),
                    )
                    &&& cooldown.at(j) == Some(
                        if cockpit.keys(j).fire.pressed {
                            cockpit.cooldown[j].asked(cockpit.now)
                        } else {
                            cockpit.cooldown[j]
                        },
                    )
                    &&& bar.at(j) == Some(
                        if cockpit.bombs(j) {
                            PowerBar(0)
                        } else {
                            cockpit.bar[j]
                        },
                    )
                } by {
                    if j < i {
                        assert(position_before.at(j) == position.at(j));
                        assert(cooldown_before.at(j) == cooldown.at(j));
                        assert(bar_before.at(j) == bar.at(j));
                    }
                }
                assert forall|j: int| j >= i + 1 || !cockpit.pilot(j) implies {
                    &&& (#[trigger] position.at(j)) == old(position).at(j)
                    &&& cooldown.at(j) == old(cooldown).at(j)
                    &&& bar.at(j) == old(bar).at(j)
                } by {
                    assert(position_before.at(j) == old(position).at(j));
                    assert(cooldown_before.at(j) == old(cooldown).at(j));
                    assert(bar_before.at(j) == old(bar).at(j));
                }
            }
            i = i + 1;
        }
    }
}

/// Lets the players gather the orbs they touch.
pub struct CollectOrbs;

/// What gathering changes: who is alive, and the power of the players.
pub struct Harvest {
    pub entities: Seq<Slot>,
    pub bars: Map<int, PowerBar>,
}

/// What gathering reads: the worth of the orbs, and where everything is and
/// how large.
pub struct Orchard {
    pub orb: Map<int, PowerOrb>,
    pub pos: Map<int, Position>,
    pub hitbox: Map<int, Hitbox>,
}

impl Orchard {
    /// Whether the entity in slot `i` gathers: it is alive and has a
    /// position, a box and a power bar.
    pub open spec fn gatherer(self, harvest: Harvest, i: int) -> bool {
        alive_in(harvest.entities, i) && self.pos.dom().contains(i) && self.hitbox.dom().contains(
            i,
        ) && harvest.bars.dom().contains(i)
    }

    /// Whether the gatherer in slot `i` picks up the entity in slot `j`: that
    /// is a living orb with a position and a box, and the two touch.
    pub open spec fn picks(self, harvest: Harvest, i: int, j: int) -> bool {
        alive_in(harvest.entities, j) && self.orb.dom().contains(j) && self.pos.dom().contains(j)
            && self.hitbox.dom().contains(j) && touching(
            self.pos[i].0,
            self.hitbox[i].0,
            self.pos[j].0,
            self.hitbox[j].0,
        ) is Some
    }

    /// The world after the gatherer in slot `i` has come to the entity in
    /// slot `j`: an orb that is picked up is deleted, and its worth is added
    /// to the power of the gatherer.
    pub open spec fn picked(self, harvest: Harvest, i: int, j: int) -> Harvest {
        if self.picks(harvest, i, j) {
            Harvest {
                entities: harvest.entities.update(
                    j,
                    Slot { generation: harvest.entities[j].generation, life: Life::Killed },
                ),
                bars: if harvest.bars.dom().contains(i) {
                    harvest.bars.insert(i, harvest.bars[i].gained(self.orb[j].0))
                } else {
                    harvest.bars
                },
            }
        } else {
            harvest
        }
    }

    /// The world after the gatherer in slot `i` has come to the entities in
    /// the slots below `m`, by rising slot.
    pub open spec fn gathered(self, harvest: Harvest, i: int, m: int) -> Harvest
        decreases m,
    {
        if m <= 0 {
            harvest
        } else {
            self.picked(self.gathered(harvest, i, m - 1), i, m - 1)
        }
    }

    /// The world after the gatherers in the slots below `n` have each come
    /// to every entity, by rising slot.
    pub open spec fn harvested(self, harvest: Harvest, n: int) -> Harvest
        decreases n,
    {
        if n <= 0 {
            harvest
        } else {
            let earlier = self.harvested(harvest, n - 1);
            if self.gatherer(earlier, n - 1) {
                self.gathered(earlier, n - 1, harvest.entities.len() as int)
            } else {
                earlier
            }
        }
    }
}

impl CollectOrbs {
    /// Every gatherer, by rising slot, comes to every entity, by rising
    /// slot, and picks up the living orbs it touches: the orb is deleted at
    /// once and its worth goes to the gatherer's power bar, which stops at
    /// full.
    pub fn run(
        &mut self,
        entities: &mut Entities,
        orb: &Storage<PowerOrb>,
        position: &Storage<Position>,
        hitbox: &Storage<Hitbox>,
        power_bar: &mut Storage<PowerBar>,
    )
        ensures
            (Harvest { entities: final(entities)@, bars: final(power_bar)@ }) == (Orchard {
                orb: orb@,
                pos: position@,
                hitbox: hitbox@,
            }).harvested(
                Harvest { entities: old(entities)@, bars: old(power_bar)@ },
                old(entities)@.len() as int,
            ),
    {
        let ghost orchard = Orchard { orb: orb@, pos: position@, hitbox: hitbox@ };
        let ghost start = Harvest { entities: entities@, bars: power_bar@ };
        let n: usize = entities.len();
        let mut i: usize = 0;
        while i < n
            invariant
                i <= n,
                n == entities@.len(),
                n == start.entities.len(),
                orchard == (Orchard { orb: orb@, pos: position@, hitbox: hitbox@ }),
                (Harvest { entities: entities@, bars: power_bar@ }) == orchard.harvested(
                    start,
                    i as int,
                ),
            decreases n - i,
        {
            let ghost row_start = Harvest { entities: entities@, bars: power_bar@ };
            if entities.alive_at(i) && power_bar.contains(i) {
                if let Some(player_pos) = position.get(i) {
                    if let Some(player_hit) = hitbox.get(i) {
                        let mut j: usize = 0;
                        while j < n
                            invariant
                                j <= n,
                                i < n,
                                n == entities@.len(),
                                orchard == (Orchard { orb: orb@, pos: position@, hitbox: hitbox@ }),
                                *player_pos == position@[i as int],
                                *player_hit == hitbox@[i as int],
                                (Harvest { entities: entities@, bars: power_bar@ })
                                    == orchard.gathered(row_start, i as int, j as int),
                            decreases n - j,
                        {
                            let ghost before = Harvest { entities: entities@, bars: power_bar@ };
                            if let Some(orb_entity) = entities.entity_at(j) {
                                if let Some(worth) = orb.get(j) {
                                    if let Some(orb_pos) = position.get(j) {
                                        if let Some(orb_hit) = hitbox.get(j) {
                                            if is_touching(
                                                player_pos.0,
                                                player_hit.0,
                                                orb_pos.0,
                                                orb_hit.0,
                                            ).is_some() {
                                                let _ = entities.delete(orb_entity);
                                                if let Some(bar) = power_bar.get_mut(i) {
                                                    bar.add(worth.0);
                                                }
                                            }
                                        }
                                    }
                                }
                            }
                            proof {
                                let after = orchard.picked(before, i as int, j as int);
                                assert(entities@ =~= after.entities);
                                assert(power_bar@ =~= after.bars);
                            }
                            j = j + 1;
                        }
                    }
                }
            }
            i = i + 1;
        }
    }
}

/// Ends the stage when it is won or lost.
pub struct FinishStage;

/// Whether some living entity has a component in `table`.
pub open spec fn any_alive<T>(entities: Seq<Slot>, table: Map<int, T>) -> bool {
    exists|i: int| alive_in(entities, i) && #[trigger] table.dom().contains(i)
}

/// Whether some living entity in a slot below `n` has a component in
/// `table`.
pub open spec fn any_alive_below<T>(entities: Seq<Slot>, table: Map<int, T>, n: int) -> bool {
    exists|i: int| i < n && alive_in(entities, i) && #[trigger] table.dom().contains(i)
}

/// Whether the entity in slot `i` is a living enemy with a position.
pub open spec fn enemy_at(
    entities: Seq<Slot>,
    pos: Map<int, Position>,
    enemy: Map<int, Enemy>,
    i: int,
) -> bool {
    alive_in(entities, i) && pos.dom().contains(i) && enemy.dom().contains(i)
}

/// The blasts that mark the end of the enemies in the slots below `n`, by
/// rising slot.
pub open spec fn last_blasts(
    entities: Seq<Slot>,
    pos: Map<int, Position>,
    enemy: Map<int, Enemy>,
    now: u64,
    n: int,
) -> Seq<Seq<ComponentView>>
    decreases n,
{
    if n <= 0 {
        Seq::empty()
    } else if enemy_at(entities, pos, enemy, n - 1) {
        last_blasts(entities, pos, enemy, now, n - 1).push(explosion_blueprint(pos[n - 1].0, now))
    } else {
        last_blasts(entities, pos, enemy, now, n - 1)
    }
}

/// Whether some living entity has a component in `table`.
fn some_alive<T>(entities: &Entities, table: &Storage<T>) -> (b: bool)
    ensures
        b == any_alive(entities@, table@),
{
    let n: usize = entities.len();
    let mut found = false;
    let mut i: usize = 0;
    while i < n
        invariant
            i <= n,
            n == entities@.len(),
            found == any_alive_below(entities@, table@, i as int),
        decreases n - i,
    {
        if entities.alive_at(i) && table.contains(i) {
            found = true;
        }
        i = i + 1;
    }
    found
}

/// How long the outcome of a stage is shown before the game moves on: three
/// seconds.
pub const OUTCOME_SHOWN_FOR: u64 = 18000;

/// The mode once the outcome of a stage has been shown for long enough at
/// `now`: a stage that was won is complete, one that was lost is lost, each
/// with the cursor on the first line of its menu. Any other mode stays.
pub open spec fn concluded(mode: Mode, now: u64) -> Mode {
    match mode {
        Mode::Playing { stage, state: PlayingState::Won { at }, multiplayer } => if now >= at
            + OUTCOME_SHOWN_FOR {
            Mode::StageComplete { stage, selected: 0, multiplayer }
        } else {
            mode
        },
        Mode::Playing { stage, state: PlayingState::Lost { at }, multiplayer } => if now >= at
            + OUTCOME_SHOWN_FOR {
            Mode::StageLost { stage, selected: 0, multiplayer }
        } else {
            mode
        },
        _ => mode,
    }
}

impl FinishStage {
    /// While a stage is played and undecided: it is lost at the time of the
    /// clock if no player is alive; and it is won, whether lost or not, if no
    /// boss is alive, and then every living enemy with a position is deleted
    /// and marked by a blast. In any other mode nothing changes.
    pub fn run(
        &mut self,
        entities: &mut Entities,
        updater: &mut LazyUpdate,
        mode: &mut Mode,
        time: &GameTime,
        pos: &Storage<Position>,
        enemy: &Storage<Enemy>,
        player: &Storage<Player>,
        boss: &Storage<Boss>,
    )
        ensures
            ({
                let undecided = old(mode) matches Mode::Playing {
                    state: PlayingState::Playing,
                    ..
                };
                let won = undecided && !any_alive(old(entities)@, boss@);
                let lost = undecided && !any_alive(old(entities)@, player@);
                &&& *final(mode) == if won {
                    Mode::Playing {
                        stage: old(mode)->Playing_stage,
                        state: PlayingState::Won { at: time.total_time },
                        multiplayer: old(mode)->Playing_multiplayer,
                    }
                } else if lost {
                    Mode::Playing {
                        stage: old(mode)->Playing_stage,
                        state: PlayingState::Lost { at: time.total_time },
                        multiplayer: old(mode)->Playing_multiplayer,
                    }
                } else {
                    *old(mode)
                }
                &&& final(entities)@.len() == old(entities)@.len()
                &&& forall|i: int|
                    0 <= i < old(entities)@.len() ==> (#[trigger] final(entities)@[i]) == if won
                        && enemy_at(old(entities)@, pos@, enemy@, i) {
                        Slot { generation: old(entities)@[i].generation, life: Life::Killed }
                    } else {
                        old(entities)@[i]
                    }
                &&& final(updater)@ == if won {
                    old(updater)@ + last_blasts(
                        old(entities)@,
                        pos@,
                        enemy@,
                        time.total_time,
                        old(entities)@.len() as int,
                    )
                } else {
                    old(updater)@
                }
            }),
    {
        let ghost queue = updater@;
        match *mode {
            Mode::Playing { stage, state: PlayingState::Playing, multiplayer } => {
                let mut state = PlayingState::Playing;
                if !some_alive(entities, player) {
                    state = PlayingState::Lost { at: time.total_time };
                }
                if !some_alive(entities, boss) {
                    let n: usize = entities.len();
                    let mut i: usize = 0;
                    while i < n
                        invariant
                            i <= n,
                            n == entities@.len(),
                            n == old(entities)@.len(),
                            forall|j: int|
                                0 <= j < n ==> (#[trigger] entities@[j]) == if j < i && enemy_at(
                                    old(entities)@,
                                    pos@,
                                    enemy@,
                                    j,
                                ) {
                                    Slot {
                                        generation: old(entities)@[j].generation,
                                        life: Life::Killed,
                                    }
                                } else {
                                    old(entities)@[j]
                                },
                            updater@ == queue + last_blasts(
                                old(entities)@,
                                pos@,
                                enemy@,
                                time.total_time,
                                i as int,
                            ),
                        decreases n - i,
                    {
                        if let Some(entity) = entities.entity_at(i) {
                            if enemy.contains(i) {
                                if let Some(at) = pos.get(i) {
                                    build_explosion(updater, at.0, time.total_time);
                                    let _ = entities.delete(entity);
                                }
                            }
                        }
                        i = i + 1;
                    }
                    state = PlayingState::Won { at: time.total_time };
                } else {
                    assert(updater@ =~= queue);
                }
                *mode = Mode::Playing { stage, state, multiplayer };
            },
            _ => {
                assert(updater@ =~= queue);
            },
        }
    }

    /// Moves on from a stage whose outcome has been shown for long enough.
    pub fn conclude(&mut self, mode: &mut Mode, time: &GameTime)
        ensures
            *final(mode) == concluded(*old(mode), time.total_time),
    {
        match *mode {
            Mode::Playing { stage, state: PlayingState::Won { at }, multiplayer } => {
                if time.total_time >= at && time.total_time - at >= OUTCOME_SHOWN_FOR {
                    *mode = Mode::StageComplete { stage, selected: 0, multiplayer };
                }
            },
            Mode::Playing { stage, state: PlayingState::Lost { at }, multiplayer } => {
                if time.total_time >= at && time.total_time - at >= OUTCOME_SHOWN_FOR {
                    *mode = Mode::StageLost { stage, selected: 0, multiplayer };
                }
            },
            _ => {},
        }
    }
}

/// Makes the bullets that were asked for.
pub struct SpawnBullets;

/// Whether `velocity` has the pace `speed`, as nearly as whole steps allow:
/// its length is less than one step from the pace, whichever way the pace
/// is signed.
pub open spec fn paced(velocity: Vec2, speed: i32) -> bool {
    let pace = if speed < 0 {
        -speed
    } else {
        speed as int
    };
    velocity.len2() <= (pace + 1) * (pace + 1) && (pace >= 1 ==> velocity.len2() >= (pace - 1) * (
    pace - 1))
}

/// Whether `velocity` has the pace `speed`, as nearly as whole steps allow.
pub fn is_paced(velocity: Vec2, speed: i32) -> (b: bool)
    ensures
        b == paced(velocity, speed),
{
    let pace: i128 = if speed < 0 {
        -(speed as i128)
    } else {
        speed as i128
    };
    let x: i128 = velocity.x as i128;
    let y: i128 = velocity.y as i128;
    assert(0 <= x * x <= 0x8000_0000 * 0x8000_0000) by (nonlinear_arith)
        requires
            -0x8000_0000 <= x <= 0x8000_0000,
    ;
    assert(0 <= y * y <= 0x8000_0000 * 0x8000_0000) by (nonlinear_arith)
        requires
            -0x8000_0000 <= y <= 0x8000_0000,
    ;
    assert(0 <= (pace + 1) * (pace + 1) <= 0x8000_0001 * 0x8000_0001) by (nonlinear_arith)
        requires
            0 <= pace <= 0x8000_0000,
    ;
    assert(0 <= (pace - 1) * (pace - 1) <= 0x8000_0001 * 0x8000_0001) by (nonlinear_arith)
        requires
            0 <= pace <= 0x8000_0000,
    ;
    let len2: i128 = x * x + y * y;
    len2 <= (pace + 1) * (pace + 1) && (pace < 1 || len2 >= (pace - 1) * (pace - 1))
}

/// Whether each of the velocities has the pace of the shot of the same
/// place.
pub open spec fn all_paced(shots: Seq<BulletToBeSpawned>, velocities: Seq<Vec2>) -> bool {
    forall|i: int|
        0 <= i < shots.len() && i < velocities.len() ==> paced(
            #[trigger] velocities[i],
            shots[i].speed,
        )
}

/// The bullets of the first `n` of the shots `shots`, each with the velocity
/// and the tint of the same place.
pub open spec fn bullets_of(
    shots: Seq<BulletToBeSpawned>,
    velocities: Seq<Vec2>,
    overlays: Seq<Option<ColourOverlay>>,
    n: int,
) -> Seq<Seq<ComponentView>>
    decreases n,
{
    if n <= 0 || n > shots.len() || n > velocities.len() || n > overlays.len() {
        Seq::empty()
    } else {
        bullets_of(shots, velocities, overlays, n - 1).push(
            bullet_blueprint(
                shots[n - 1].pos,
                shots[n - 1].image,
                velocities[n - 1],
                shots[n - 1].enemy,
                overlays[n - 1],
            ),
        )
    }
}

impl SpawnBullets {
    /// Asks for a bullet for every shot of the list, in order, and empties the
    /// list. Each bullet flies with the velocity of the same place, which has
    /// the pace of its shot in the direction that the shot was aimed in, and
    /// is tinted with the tint of the same place.
    pub fn run(
        &mut self,
        spawner: &mut BulletSpawner,
        updater: &mut LazyUpdate,
        velocities: &Vec<Vec2>,
        overlays: &Vec<Option<ColourOverlay>>,
    )
        requires
            velocities@.len() == old(spawner).0@.len(),
            overlays@.len() == old(spawner).0@.len(),
            all_paced(old(spawner).0@, velocities@),
        ensures
            final(spawner).0@ == Seq::<BulletToBeSpawned>::empty(),
            final(updater)@ == old(updater)@ + bullets_of(
                old(spawner).0@,
                velocities@,
                overlays@,
                old(spawner).0@.len() as int,
            ),
    {
        let n: usize = spawner.0.len();
        let mut i: usize = 0;
        while i < n
            invariant
                i <= n,
                n == spawner.0@.len(),
                n == velocities@.len(),
                n == overlays@.len(),
                spawner.0@ == old(spawner).0@,
                updater@ == old(updater)@ + bullets_of(
                    spawner.0@,
                    velocities@,
                    overlays@,
                    i as int,
                ),
            decreases n - i,
        {
            let shot = spawner.0[i];
            build_bullet(updater, shot.pos, shot.image, velocities[i], shot.enemy, overlays[i]);
            i = i + 1;
        }
        spawner.0.clear();
    }
}

/// A length `a` scaled by `s` over `len`, rounded down: no longer than `a`
/// or than `s`, and nothing only where `a * s` falls short of `len`.
proof fn lemma_scaled(a: int, s: int, len: int)
    requires
        0 <= a <= len,
        0 <= s < len,
    ensures
        0 <= (a * s) / len <= a,
        (a * s) / len <= s,
        (a * s) / len == 0 ==> a * s < len,
{
    assert(0 <= a * s) by (nonlinear_arith)
        requires
            0 <= a,
            0 <= s,
    ;
    assert(a * s <= a * len && a * s <= len * s) by (nonlinear_arith)
        requires
            0 <= a <= len,
            0 <= s < len,
    ;
    vstd::arithmetic::div_mod::lemma_div_is_ordered(a * s, a * len, len);
    vstd::arithmetic::div_mod::lemma_div_is_ordered(a * s, len * s, len);
    vstd::arithmetic::div_mod::lemma_div_multiples_vanish(a, len);
    vstd::arithmetic::div_mod::lemma_div_multiples_vanish(s, len);
    assert(a * len == len * a && len * s == len * s) by (nonlinear_arith);
    vstd::arithmetic::div_mod::lemma_div_pos_is_pos(a * s, len);
    if (a * s) / len == 0 {
        vstd::arithmetic::div_mod::lemma_fundamental_div_mod(a * s, len);
        vstd::arithmetic::div_mod::lemma_mod_bound(a * s, len);
        assert(len * ((a * s) / len) == 0) by (nonlinear_arith)
            requires
                (a * s) / len == 0,
        ;
    }
}

/// One component of a homing step: it points the way of the difference
/// `d`, is no longer than it or than the speed, and is nothing only where
/// `|d| * s` falls short of `len`.
proof fn lemma_stride_component(d: int, s: int, len: int)
    requires
        -len <= d <= len,
        0 < s < len,
    ensures
        d >= 0 ==> 0 <= tdiv(d * s, len) <= d,
        d < 0 ==> d <= tdiv(d * s, len) <= 0,
        -s <= tdiv(d * s, len) <= s,
        tdiv(d * s, len) == 0 ==> d * s < len && -(d * s) < len,
{
    if d >= 0 {
        lemma_scaled(d, s, len);
        assert(d * s >= 0) by (nonlinear_arith)
            requires
                d >= 0,
                s > 0,
        ;
    } else {
        lemma_scaled(-d, s, len);
        assert(d * s < 0 && -(d * s) == (-d) * s) by (nonlinear_arith)
            requires
                d < 0,
                s > 0,
        ;
    }
}

/// Homing comes closer with every step and never passes its target: while
/// the target is further than the speed, a step of a speed of at least two
/// fixed-point steps ends nearer to the target than it began, no further
/// from it along either axis; and a step from no further than the speed
/// ends exactly on the target.
pub proof fn law_homing_approaches(pos: Vec2, towards: MoveTowards)
    requires
        towards.speed >= 2,
    ensures
        pos.dist2(towards.position) <= towards.speed * towards.speed ==> homed(pos, towards)
            == towards.position,
        pos.dist2(towards.position) > towards.speed * towards.speed ==> homed(
            pos,
            towards,
        ).dist2(towards.position) < pos.dist2(towards.position),
{
    let target = towards.position;
    let s = towards.speed as int;
    let dist2 = pos.dist2(target);
    if dist2 > s * s {
        let dx = target.x - pos.x;
        let dy = target.y - pos.y;
        let len = ceil_sqrt(dist2 as nat) as int;
        assert(dist2 == dx * dx + dy * dy) by (nonlinear_arith)
            requires
                dist2 == (pos.x - target.x) * (pos.x - target.x) + (pos.y - target.y) * (pos.y
                    - target.y),
                dx == target.x - pos.x,
                dy == target.y - pos.y,
        ;
        crate::math::lemma_ceil_sqrt_reaches(dist2 as nat);
        assert(len > s) by (nonlinear_arith)
            requires
                len * len >= dist2,
                dist2 > s * s,
                s >= 0,
                len >= 0,
        ;
        assert(-len <= dx <= len && -len <= dy <= len) by (nonlinear_arith)
            requires
                len * len >= dx * dx + dy * dy,
                len >= 0,
        ;
        lemma_stride_component(dx, s, len);
        lemma_stride_component(dy, s, len);
        let vx = tdiv(dx * s, len);
        let vy = tdiv(dy * s, len);
        let step = stride(pos, target, s);
        assert(step.x == vx && step.y == vy);
        let next = pos.plus(step);
        assert(next.x == pos.x + vx && next.y == pos.y + vy);
        assert(next == homed(pos, towards));
        let ex = dx - vx;
        let ey = dy - vy;
        assert(next.dist2(target) == ex * ex + ey * ey) by (nonlinear_arith)
            requires
                next.dist2(target) == (next.x - target.x) * (next.x - target.x) + (next.y
                    - target.y) * (next.y - target.y),
                ex == target.x - next.x,
                ey == target.y - next.y,
        ;
        // The step is not nothing: else the longer side, times the speed,
        // would fall short of the length, which it cannot.
        if vx == 0 && vy == 0 {
            if (len - 1) * (len - 1) >= dist2 {
                crate::math::lemma_ceil_sqrt_least(dist2 as nat, (len - 1) as nat);
            }
            assert(false) by (nonlinear_arith)
                requires
                    dx * s < len,
                    -(dx * s) < len,
                    dy * s < len,
                    -(dy * s) < len,
                    s >= 2,
                    len > s,
                    dist2 == dx * dx + dy * dy,
                    (len - 1) * (len - 1) >= dist2 ==> false,
                    dist2 > s * s,
            ;
        }
        assert(ex * ex + ey * ey < dx * dx + dy * dy) by (nonlinear_arith)
            requires
                ex == dx - vx,
                ey == dy - vy,
                dx >= 0 ==> 0 <= vx <= dx,
                dx < 0 ==> dx <= vx <= 0,
                dy >= 0 ==> 0 <= vy <= dy,
                dy < 0 ==> dy <= vy <= 0,
                vx != 0 || vy != 0,
        ;
    }
}

} // verus!
