//! What a stage asks for, by kind of entity, whatever the dice show.

use vstd::prelude::*;
use crate::components::BossMoveView;
use crate::components::FrozenUntil;
use crate::components::Movement;
use crate::components::Player;
use crate::curve::Curve;
use crate::graphics::Image as GraphicsImage;
use crate::lazy::ComponentView;
use crate::math::Vec2;
use crate::stages::background_blueprint;
use crate::stages::bat_blueprint;
use crate::stages::boss_blueprint;
use crate::stages::bulge;
use crate::stages::dive;
use crate::stages::sweep;
use crate::stages::boss_one_blueprint;
use crate::stages::boss_one_moves;
use crate::stages::boss_two_moves;
use crate::stages::boss_two_blueprint;
use crate::stages::curve_enemy_blueprint;
use crate::stages::enemy_blueprint;
use crate::stages::flying_skull_blueprint;
use crate::stages::gargoyle_blueprint;
use crate::stages::height_of;
use crate::stages::hell_bat_blueprint;
use crate::stages::law_steps_are_even;
use crate::stages::lemma_steps_len;
use crate::stages::player_blueprint;
use crate::stages::players_blueprints;
use crate::stages::spectre_blueprint;
use crate::stages::stage_one_script;
use crate::stages::stage_two_script;
use crate::stages::steps;
use crate::stages::sweeping_gargoyle_blueprint;
use crate::stages::title_blueprint;
use crate::stages::Wave;
use crate::storage::alive_in;
use crate::storage::all_killed;
use crate::storage::swept;
use crate::storage::Slot;
use crate::world::bundle_of;
use crate::world::given;
use crate::world::law_stage_start_resets;
use crate::world::lemma_slots_differ;
use crate::world::made_in;
use crate::world::no_components;
use crate::world::slot_of;
use crate::world::spawned;
use crate::world::synced;
use crate::world::Bundle;

verus! {

/// The kind of an entity, as far as a stage tells its entities apart: the
/// seat if it is a player, whether it is an enemy, a boss or a backdrop, and
/// the time until which it is frozen.
pub struct Kinds {
    pub player: Option<Player>,
    pub enemy: bool,
    pub boss: bool,
    pub background: bool,
    pub frozen_until: Option<FrozenUntil>,
}

/// The kind of an entity with the components `bundle`.
pub open spec fn kinds_in(bundle: Bundle) -> Kinds {
    Kinds {
        player: bundle.player,
        enemy: bundle.enemy is Some,
        boss: bundle.boss is Some,
        background: bundle.background_layer is Some,
        frozen_until: bundle.frozen_until,
    }
}

/// The kind of the entity that is made from `blueprint`.
pub open spec fn kinds_of(blueprint: Seq<ComponentView>) -> Kinds {
    kinds_in(bundle_of(blueprint))
}

/// The kinds of the entities that are made from `script`, in its order.
pub open spec fn kinds_seq(script: Seq<Seq<ComponentView>>) -> Seq<Kinds> {
    Seq::new(script.len(), |k: int| kinds_of(script[k]))
}

/// The kind of an entity that is none of the kinds.
pub open spec fn no_kind() -> Kinds {
    Kinds { player: None, enemy: false, boss: false, background: false, frozen_until: None }
}

/// The kind of a backdrop.
pub open spec fn backdrop_kind() -> Kinds {
    Kinds { background: true, ..no_kind() }
}

/// The kind of the player in the seat `player`.
pub open spec fn player_kind(player: Player) -> Kinds {
    Kinds { player: Some(player), ..no_kind() }
}

/// The kind of an enemy that is frozen until `start`.
pub open spec fn enemy_kind(start: u64) -> Kinds {
    Kinds { enemy: true, frozen_until: Some(FrozenUntil(start)), ..no_kind() }
}

/// The kind of a boss that is frozen until `start`.
pub open spec fn boss_kind(start: u64) -> Kinds {
    Kinds { boss: true, ..enemy_kind(start) }
}

/// The kind of an entity of the kind `kinds` that was given `c`.
pub open spec fn kinds_given(kinds: Kinds, c: ComponentView) -> Kinds {
    match c {
        ComponentView::Player(p) => Kinds { player: Some(p), ..kinds },
        ComponentView::Enemy(_) => Kinds { enemy: true, ..kinds },
        ComponentView::Boss(_) => Kinds { boss: true, ..kinds },
        ComponentView::BackgroundLayer(_) => Kinds { background: true, ..kinds },
        ComponentView::FrozenUntil(f) => Kinds { frozen_until: Some(f), ..kinds },
        _ => kinds,
    }
}

/// The kind of the entity of a blueprint with one more component is the
/// kind of the blueprint's entity, given that component.
proof fn lemma_push(s: Seq<ComponentView>, c: ComponentView)
    ensures
        kinds_of(s.push(c)) == kinds_given(kinds_of(s), c),
{
    assert(s.push(c).drop_last() =~= s);
    assert(bundle_of(s.push(c)) == given(bundle_of(s), c));
}

/// The entity of the blueprint without components is of no kind.
proof fn lemma_empty()
    ensures
        kinds_of(Seq::<ComponentView>::empty()) == no_kind(),
{
    assert(bundle_of(Seq::<ComponentView>::empty()) == no_components());
}

/// The kinds of two scripts, one after the other, are the kinds of the one
/// and then of the other.
proof fn lemma_kinds_concat(a: Seq<Seq<ComponentView>>, b: Seq<Seq<ComponentView>>)
    ensures
        kinds_seq(a + b) == kinds_seq(a) + kinds_seq(b),
{
    assert(kinds_seq(a + b) =~= kinds_seq(a) + kinds_seq(b));
}

/// A backdrop is of the kind of the backdrops.
pub proof fn lemma_background_kind(
    image: GraphicsImage,
    position: Vec2,
    velocity: Vec2,
    depth: u32,
)
    ensures
        kinds_of(background_blueprint(image, position, velocity, depth)) == backdrop_kind(),
{
    let b = background_blueprint(image, position, velocity, depth);
    let s0 = Seq::<ComponentView>::empty();
    let s1 = s0.push(b[0]);
    let s2 = s1.push(b[1]);
    let s3 = s2.push(b[2]);
    assert(s3.push(b[3]) =~= b);
    lemma_empty();
    lemma_push(s0, b[0]);
    lemma_push(s1, b[1]);
    lemma_push(s2, b[2]);
    lemma_push(s3, b[3]);
}

/// A title is of no kind.
pub proof fn lemma_title_kind(text: Seq<char>)
    ensures
        kinds_of(title_blueprint(text)) == no_kind(),
{
    let b = title_blueprint(text);
    let s0 = Seq::<ComponentView>::empty();
    let s1 = s0.push(b[0]);
    let s2 = s1.push(b[1]);
    assert(s2.push(b[2]) =~= b);
    lemma_empty();
    lemma_push(s0, b[0]);
    lemma_push(s1, b[1]);
    lemma_push(s2, b[2]);
}

/// A player is of the kind of the players in its seat.
pub proof fn lemma_player_kind(player: Player, position: Vec2)
    ensures
        kinds_of(player_blueprint(player, position)) == player_kind(player),
{
    let b = player_blueprint(player, position);
    let s0 = Seq::<ComponentView>::empty();
    let s1 = s0.push(b[0]);
    let s2 = s1.push(b[1]);
    let s3 = s2.push(b[2]);
    let s4 = s3.push(b[3]);
    let s5 = s4.push(b[4]);
    let s6 = s5.push(b[5]);
    let s7 = s6.push(b[6]);
    let s8 = s7.push(b[7]);
    assert(s8.push(b[8]) =~= b);
    lemma_empty();
    lemma_push(s0, b[0]);
    lemma_push(s1, b[1]);
    lemma_push(s2, b[2]);
    lemma_push(s3, b[3]);
    lemma_push(s4, b[4]);
    lemma_push(s5, b[5]);
    lemma_push(s6, b[6]);
    lemma_push(s7, b[7]);
    lemma_push(s8, b[8]);
}

/// An enemy is of the kind of the enemies that are frozen until its start.
pub proof fn lemma_enemy_kind(
    position: Vec2,
    start: u64,
    health: u32,
    image: GraphicsImage,
    hitbox: Vec2,
)
    ensures
        kinds_of(enemy_blueprint(position, start, health, image, hitbox)) == enemy_kind(start),
{
    let b = enemy_blueprint(position, start, health, image, hitbox);
    let s0 = Seq::<ComponentView>::empty();
    let s1 = s0.push(b[0]);
    let s2 = s1.push(b[1]);
    let s3 = s2.push(b[2]);
    let s4 = s3.push(b[3]);
    let s5 = s4.push(b[4]);
    let s6 = s5.push(b[5]);
    assert(s6.push(b[6]) =~= b);
    lemma_empty();
    lemma_push(s0, b[0]);
    lemma_push(s1, b[1]);
    lemma_push(s2, b[2]);
    lemma_push(s3, b[3]);
    lemma_push(s4, b[4]);
    lemma_push(s5, b[5]);
    lemma_push(s6, b[6]);
}

/// An enemy on a curve is of the kind of the enemies.
pub proof fn lemma_curve_enemy_kind(
    curve: Curve,
    start: u64,
    health: u32,
    image: GraphicsImage,
    hitbox: Vec2,
)
    ensures
        kinds_of(curve_enemy_blueprint(curve, start, health, image, hitbox)) == enemy_kind(start),
{
    lemma_enemy_kind(curve.b, start, health, image, hitbox);
    lemma_push(
        enemy_blueprint(curve.b, start, health, image, hitbox),
        ComponentView::Movement(Movement::FollowCurve(curve)),
    );
}

/// A bat is of the kind of the enemies.
pub proof fn lemma_bat_kind(curve: Curve, start: u64)
    ensures
        kinds_of(bat_blueprint(curve, start)) == enemy_kind(start),
{
    lemma_curve_enemy_kind(curve, start, 4, GraphicsImage::Bat, Vec2 { x: 25600, y: 20480 });
}

/// A bat from hell is of the kind of the enemies.
pub proof fn lemma_hell_bat_kind(start: u64, position: Vec2)
    ensures
        kinds_of(hell_bat_blueprint(start, position)) == enemy_kind(start),
{
    let b = hell_bat_blueprint(start, position);
    let e = enemy_blueprint(
        position,
        start,
        12,
        GraphicsImage::HellBat,
        Vec2 { x: 25600, y: 20480 },
    );
    lemma_enemy_kind(position, start, 12, GraphicsImage::HellBat, Vec2 { x: 25600, y: 20480 });
    lemma_push(e, b[7]);
    assert(e.push(b[7]) =~= b);
}

/// A flying skull is of the kind of the enemies.
pub proof fn lemma_flying_skull_kind(start: u64, position: Vec2)
    ensures
        kinds_of(flying_skull_blueprint(start, position)) == enemy_kind(start),
{
    let b = flying_skull_blueprint(start, position);
    let e = enemy_blueprint(
        position,
        start,
        4,
        GraphicsImage::FlyingSkull,
        Vec2 { x: 25600, y: 25600 },
    );
    lemma_enemy_kind(position, start, 4, GraphicsImage::FlyingSkull, Vec2 { x: 25600, y: 25600 });
    lemma_push(e, b[7]);
    assert(e.push(b[7]) =~= b);
}

/// A gargoyle is of the kind of the enemies.
pub proof fn lemma_gargoyle_kind(x: i32, start: u64, delay: u32)
    ensures
        kinds_of(gargoyle_blueprint(x, start, delay)) == enemy_kind(start),
{
    let b = gargoyle_blueprint(x, start, delay);
    let e = enemy_blueprint(
        Vec2 { x, y: (-51200) as i32 },
        start,
        15,
        GraphicsImage::Gargoyle,
        Vec2 { x: 46080, y: 25600 },
    );
    lemma_enemy_kind(
        Vec2 { x, y: (-51200) as i32 },
        start,
        15,
        GraphicsImage::Gargoyle,
        Vec2 { x: 46080, y: 25600 },
    );
    lemma_push(e, b[7]);
    lemma_push(e.push(b[7]), b[8]);
    assert(e.push(b[7]).push(b[8]) =~= b);
}

/// A sweeping gargoyle is of the kind of the enemies.
pub proof fn lemma_sweeping_gargoyle_kind(start: u64, delay: u32)
    ensures
        kinds_of(sweeping_gargoyle_blueprint(start, delay)) == enemy_kind(start),
{
    let b = sweeping_gargoyle_blueprint(start, delay);
    let curve = Curve {
        a: Vec2 { x: (-1556480) as i32, y: 102400 },
        b: Vec2 { x: (-20480) as i32, y: 102400 },
        c: Vec2 { x: 512000, y: 307200 },
        d: Vec2 { x: 2048000, y: 307200 },
        time: 0,
        speed: 2560,
    };
    let e = curve_enemy_blueprint(
        curve,
        start,
        15,
        GraphicsImage::Gargoyle,
        Vec2 { x: 46080, y: 25600 },
    );
    lemma_curve_enemy_kind(curve, start, 15, GraphicsImage::Gargoyle, Vec2 { x: 46080, y: 25600 });
    lemma_push(e, b.last());
    assert(e.push(b.last()) =~= b);
}

/// A spectre is of the kind of the enemies.
pub proof fn lemma_spectre_kind(start: u64, from: u32, to: u32, delay: u32)
    ensures
        kinds_of(spectre_blueprint(start, from, to, delay)) == enemy_kind(start),
{
    let b = spectre_blueprint(start, from, to, delay);
    let curve = Curve {
        a: Vec2 { x: (-1556480) as i32, y: height_of(from) },
        b: Vec2 { x: (-20480) as i32, y: height_of(from) },
        c: Vec2 { x: 512000, y: height_of(to) },
        d: Vec2 { x: 2048000, y: height_of(to) },
        time: 0,
        speed: 3413,
    };
    let e = curve_enemy_blueprint(
        curve,
        start,
        8,
        GraphicsImage::Spectre,
        Vec2 { x: 30720, y: 30720 },
    );
    lemma_curve_enemy_kind(curve, start, 8, GraphicsImage::Spectre, Vec2 { x: 30720, y: 30720 });
    lemma_push(e, b.last());
    assert(e.push(b.last()) =~= b);
}

/// A boss is of the kind of the bosses.
pub proof fn lemma_boss_kind(
    start: u64,
    health: u32,
    image: GraphicsImage,
    moves: Seq<BossMoveView>,
)
    ensures
        kinds_of(boss_blueprint(start, health, image, moves)) == boss_kind(start),
{
    let b = boss_blueprint(start, health, image, moves);
    let e = enemy_blueprint(
        Vec2 { x: 245760, y: (-51200) as i32 },
        start,
        health,
        image,
        Vec2 { x: 30720, y: 40960 },
    );
    lemma_enemy_kind(
        Vec2 { x: 245760, y: (-51200) as i32 },
        start,
        health,
        image,
        Vec2 { x: 30720, y: 40960 },
    );
    lemma_push(e, b[7]);
    assert(e.push(b[7]) =~= b);
}

/// How many enemies a group of the kind `wave` has that wakes at `t`.
pub open spec fn group_size(wave: Wave, t: u64) -> nat {
    match wave {
        Wave::BatsFromLeft => 2,
        Wave::BatsFromRight => 2,
        Wave::BatsFromAbove => 3,
        Wave::Skulls => if t >= 180000 {
            4
        } else {
            1
        },
        _ => 1,
    }
}

/// The kinds of a group of the kind `wave` that wakes at `t`: enemies, all
/// of them frozen until `t`.
pub open spec fn group_kinds(wave: Wave, t: u64) -> Seq<Kinds> {
    Seq::new(group_size(wave, t), |k: int| enemy_kind(t))
}

/// The kinds of the groups of the kind `wave` that wake at the first `n` of
/// `times`.
pub open spec fn groups_kinds(wave: Wave, times: Seq<u64>, n: nat) -> Seq<Kinds>
    decreases n,
{
    if n == 0 || n > times.len() {
        Seq::empty()
    } else {
        groups_kinds(wave, times, (n - 1) as nat) + group_kinds(wave, times[n - 1])
    }
}

/// The kinds of a whole wave: of the groups that wake from `start` on,
/// `step` apart, before `end`.
pub open spec fn wave_kinds(wave: Wave, start: u64, end: u64, step: u64) -> Seq<Kinds> {
    groups_kinds(wave, steps(start, end, step), steps(start, end, step).len())
}

/// The kinds of the players of a stage.
pub open spec fn players_kinds(two_players: bool) -> Seq<Kinds> {
    if two_players {
        seq![player_kind(Player::One), player_kind(Player::Two)]
    } else {
        seq![player_kind(Player::Single)]
    }
}

/// The kinds of what the first stage asks for, in order.
pub open spec fn stage_one_kinds(multiplayer: bool) -> Seq<Kinds> {
    seq![backdrop_kind(), backdrop_kind(), backdrop_kind(), no_kind()] + players_kinds(
        multiplayer,
    ) + wave_kinds(Wave::BatsFromLeft, 6000, 36000, 1500) + wave_kinds(
        Wave::BatsFromRight,
        18000,
        60000,
        1500,
    ) + wave_kinds(Wave::BatsFromAbove, 72000, 102000, 1500) + wave_kinds(
        Wave::LowBats,
        90000,
        120000,
        3000,
    ) + seq![
        enemy_kind(144000),
        enemy_kind(144000),
        enemy_kind(144000),
        enemy_kind(168000),
        enemy_kind(168000),
    ] + wave_kinds(Wave::CirclingBats, 150000, 198000, 1500) + wave_kinds(
        Wave::HellBats,
        210000,
        300000,
        1500,
    ) + wave_kinds(Wave::SweepingGargoyles, 270000, 300000, 6000) + seq![boss_kind(330000)]
}

/// The kinds of what the second stage asks for, in order.
pub open spec fn stage_two_kinds(multiplayer: bool) -> Seq<Kinds> {
    seq![
        backdrop_kind(),
        backdrop_kind(),
        backdrop_kind(),
        backdrop_kind(),
        backdrop_kind(),
        no_kind(),
    ] + players_kinds(multiplayer) + wave_kinds(Wave::Spectres, 30000, 120000, 3000) + wave_kinds(
        Wave::Skulls,
        150000,
        270000,
        3000,
    ) + seq![boss_kind(300000)]
}

/// A group is of the kinds of its wave, whatever the dice show.
proof fn lemma_group_kinds(wave: Wave, t: u64, rolls: Seq<u32>, at: int)
    ensures
        kinds_seq(wave.group(t, rolls, at)) == group_kinds(wave, t),
{
    let group = wave.group(t, rolls, at);
    assert(group.len() == group_size(wave, t));
    assert forall|k: int| 0 <= k < group.len() implies kinds_of(#[trigger] group[k]) == enemy_kind(
        t,
    ) by {
        match wave {
            Wave::BatsFromLeft => {
                lemma_bat_kind(sweep(100, 300, true), t);
                lemma_bat_kind(sweep(150, 350, true), t);
            },
            Wave::BatsFromRight => {
                lemma_bat_kind(sweep(200, 400, false), t);
                lemma_bat_kind(sweep(250, 450, false), t);
            },
            Wave::BatsFromAbove => {
                lemma_bat_kind(dive(120, 240), t);
                lemma_bat_kind(dive(240, 360), t);
                lemma_bat_kind(dive(360, 120), t);
            },
            Wave::LowBats => {
                lemma_bat_kind(sweep(400, 600, true), t);
            },
            Wave::CirclingBats => {
                lemma_bat_kind(bulge(), t);
            },
            Wave::HellBats => {
                lemma_hell_bat_kind(t, Vec2 { x: height_of(rolls[at]), y: (-51200) as i32 });
            },
            Wave::SweepingGargoyles => {
                lemma_sweeping_gargoyle_kind(t, rolls[at]);
            },
            Wave::Spectres => {
                lemma_spectre_kind(t, rolls[at], rolls[at + 1], rolls[at + 2]);
            },
            Wave::Skulls => {
                lemma_flying_skull_kind(t, Vec2 { x: height_of(rolls[at]), y: (-25600) as i32 });
                lemma_flying_skull_kind(
                    t,
                    Vec2 { x: height_of(rolls[at + 1]), y: (-25600) as i32 },
                );
                lemma_flying_skull_kind(
                    t,
                    Vec2 { x: (-25600) as i32, y: height_of(rolls[at + 2]) },
                );
                lemma_flying_skull_kind(t, Vec2 { x: 517120, y: height_of(rolls[at + 3]) });
            },
        }
    }
    assert(kinds_seq(group) =~= group_kinds(wave, t));
}

/// The groups of a wave are of the kinds of the wave, whatever the dice
/// show.
proof fn lemma_groups_kinds(wave: Wave, times: Seq<u64>, n: nat, rolls: Seq<u32>, from: int)
    ensures
        kinds_seq(wave.groups(times, n, rolls, from)) == groups_kinds(wave, times, n),
    decreases n,
{
    if n == 0 || n > times.len() {
        assert(kinds_seq(Seq::<Seq<ComponentView>>::empty()) =~= Seq::<Kinds>::empty());
    } else {
        lemma_groups_kinds(wave, times, (n - 1) as nat, rolls, from);
        lemma_group_kinds(wave, times[n - 1], rolls, from + (n - 1) * wave.rolls());
        lemma_kinds_concat(
            wave.groups(times, (n - 1) as nat, rolls, from),
            wave.group(times[n - 1], rolls, from + (n - 1) * wave.rolls()),
        );
    }
}

/// A wave is of the kinds of its groups, whatever the dice show.
proof fn lemma_wave_kinds(wave: Wave, start: u64, end: u64, step: u64, rolls: Seq<u32>, from: int)
    ensures
        kinds_seq(wave.wave(start, end, step, rolls, from)) == wave_kinds(wave, start, end, step),
{
    lemma_groups_kinds(wave, steps(start, end, step), steps(start, end, step).len(), rolls, from);
}

/// The players of a stage are of the kinds of its players.
proof fn lemma_players_kinds(two_players: bool)
    ensures
        kinds_seq(players_blueprints(two_players)) == players_kinds(two_players),
{
    lemma_player_kind(Player::One, Vec2 { x: 225280, y: 327680 });
    lemma_player_kind(Player::Two, Vec2 { x: 266240, y: 327680 });
    lemma_player_kind(Player::Single, Vec2 { x: 245760, y: 327680 });
    assert(kinds_seq(players_blueprints(two_players)) =~= players_kinds(two_players));
}

/// The first stage asks for the same kinds of entities in the same order,
/// whatever the dice show.
pub proof fn law_stage_one_kinds(multiplayer: bool, rolls: Seq<u32>)
    ensures
        kinds_seq(stage_one_script(multiplayer, rolls)) == stage_one_kinds(multiplayer),
{
    let nothing = Vec2 { x: 0, y: 0 };
    let drift = Vec2 { x: 0, y: 1024 };
    let p0 = seq![
        background_blueprint(GraphicsImage::NightSky, nothing, nothing, 0),
        background_blueprint(GraphicsImage::Clouds, nothing, drift, 1),
        background_blueprint(GraphicsImage::Clouds, Vec2 { x: 0, y: 1966080 }, drift, 1),
        title_blueprint("Stage\nOne"@),
    ];
    let p1 = players_blueprints(multiplayer);
    let p2 = Wave::BatsFromLeft.wave(6000, 36000, 1500, rolls, 0);
    let p3 = Wave::BatsFromRight.wave(18000, 60000, 1500, rolls, 0);
    let p4 = Wave::BatsFromAbove.wave(72000, 102000, 1500, rolls, 0);
    let p5 = Wave::LowBats.wave(90000, 120000, 3000, rolls, 0);
    let p6 = seq![
        gargoyle_blueprint(122880, 144000, rolls[0]),
        gargoyle_blueprint(245760, 144000, rolls[1]),
        gargoyle_blueprint(368640, 144000, rolls[2]),
        gargoyle_blueprint(184320, 168000, rolls[3]),
        gargoyle_blueprint(307200, 168000, rolls[4]),
    ];
    let p7 = Wave::CirclingBats.wave(150000, 198000, 1500, rolls, 0);
    let p8 = Wave::HellBats.wave(210000, 300000, 1500, rolls, 5);
    let p9 = Wave::SweepingGargoyles.wave(270000, 300000, 6000, rolls, 65);
    let p10 = seq![boss_one_blueprint(330000)];
    assert(kinds_seq(p0) =~= seq![backdrop_kind(), backdrop_kind(), backdrop_kind(), no_kind()])
        by {
        lemma_background_kind(GraphicsImage::NightSky, nothing, nothing, 0);
        lemma_background_kind(GraphicsImage::Clouds, nothing, drift, 1);
        lemma_background_kind(GraphicsImage::Clouds, Vec2 { x: 0, y: 1966080 }, drift, 1);
        lemma_title_kind("Stage\nOne"@);
    }
    lemma_players_kinds(multiplayer);
    lemma_wave_kinds(Wave::BatsFromLeft, 6000, 36000, 1500, rolls, 0);
    lemma_wave_kinds(Wave::BatsFromRight, 18000, 60000, 1500, rolls, 0);
    lemma_wave_kinds(Wave::BatsFromAbove, 72000, 102000, 1500, rolls, 0);
    lemma_wave_kinds(Wave::LowBats, 90000, 120000, 3000, rolls, 0);
    assert(kinds_seq(p6) =~= seq![
        enemy_kind(144000),
        enemy_kind(144000),
        enemy_kind(144000),
        enemy_kind(168000),
        enemy_kind(168000),
    ]) by {
        lemma_gargoyle_kind(122880, 144000, rolls[0]);
        lemma_gargoyle_kind(245760, 144000, rolls[1]);
        lemma_gargoyle_kind(368640, 144000, rolls[2]);
        lemma_gargoyle_kind(184320, 168000, rolls[3]);
        lemma_gargoyle_kind(307200, 168000, rolls[4]);
    }
    lemma_wave_kinds(Wave::CirclingBats, 150000, 198000, 1500, rolls, 0);
    lemma_wave_kinds(Wave::HellBats, 210000, 300000, 1500, rolls, 5);
    lemma_wave_kinds(Wave::SweepingGargoyles, 270000, 300000, 6000, rolls, 65);
    assert(kinds_seq(p10) =~= seq![boss_kind(330000)]) by {
        lemma_boss_kind(330000, 300, GraphicsImage::BossOne, boss_one_moves());
    }
    let a1 = p0 + p1;
    let a2 = a1 + p2;
    let a3 = a2 + p3;
    let a4 = a3 + p4;
    let a5 = a4 + p5;
    let a6 = a5 + p6;
    let a7 = a6 + p7;
    let a8 = a7 + p8;
    let a9 = a8 + p9;
    lemma_kinds_concat(p0, p1);
    lemma_kinds_concat(a1, p2);
    lemma_kinds_concat(a2, p3);
    lemma_kinds_concat(a3, p4);
    lemma_kinds_concat(a4, p5);
    lemma_kinds_concat(a5, p6);
    lemma_kinds_concat(a6, p7);
    lemma_kinds_concat(a7, p8);
    lemma_kinds_concat(a8, p9);
    lemma_kinds_concat(a9, p10);
    assert(stage_one_script(multiplayer, rolls) == a9 + p10);
}

/// The second stage asks for the same kinds of entities in the same order,
/// whatever the dice show.
pub proof fn law_stage_two_kinds(multiplayer: bool, rolls: Seq<u32>)
    ensures
        kinds_seq(stage_two_script(multiplayer, rolls)) == stage_two_kinds(multiplayer),
{
    let nothing = Vec2 { x: 0, y: 0 };
    let drift = Vec2 { x: 0, y: 512 };
    let p0 = seq![
        background_blueprint(GraphicsImage::Graveyard, nothing, drift, 0),
        background_blueprint(GraphicsImage::Graveyard, Vec2 { x: 0, y: 1474560 }, drift, 0),
        background_blueprint(GraphicsImage::Fog, nothing, drift, 1),
        background_blueprint(GraphicsImage::Fog, Vec2 { x: 0, y: 1966080 }, drift, 1),
        background_blueprint(GraphicsImage::Darkness, nothing, nothing, 2),
        title_blueprint("Stage\nTwo"@),
    ];
    let p1 = players_blueprints(multiplayer);
    let p2 = Wave::Spectres.wave(30000, 120000, 3000, rolls, 0);
    let p3 = Wave::Skulls.wave(150000, 270000, 3000, rolls, 90);
    let p4 = seq![boss_two_blueprint(300000)];
    assert(kinds_seq(p0) =~= seq![
        backdrop_kind(),
        backdrop_kind(),
        backdrop_kind(),
        backdrop_kind(),
        backdrop_kind(),
        no_kind(),
    ]) by {
        lemma_background_kind(GraphicsImage::Graveyard, nothing, drift, 0);
        lemma_background_kind(GraphicsImage::Graveyard, Vec2 { x: 0, y: 1474560 }, drift, 0);
        lemma_background_kind(GraphicsImage::Fog, nothing, drift, 1);
        lemma_background_kind(GraphicsImage::Fog, Vec2 { x: 0, y: 1966080 }, drift, 1);
        lemma_background_kind(GraphicsImage::Darkness, nothing, nothing, 2);
        lemma_title_kind("Stage\nTwo"@);
    }
    lemma_players_kinds(multiplayer);
    lemma_wave_kinds(Wave::Spectres, 30000, 120000, 3000, rolls, 0);
    lemma_wave_kinds(Wave::Skulls, 150000, 270000, 3000, rolls, 90);
    assert(kinds_seq(p4) =~= seq![boss_kind(300000)]) by {
        lemma_boss_kind(300000, 400, GraphicsImage::BossTwo, boss_two_moves());
    }
    let a1 = p0 + p1;
    let a2 = a1 + p2;
    let a3 = a2 + p3;
    lemma_kinds_concat(p0, p1);
    lemma_kinds_concat(a1, p2);
    lemma_kinds_concat(a2, p3);
    lemma_kinds_concat(a3, p4);
    assert(stage_two_script(multiplayer, rolls) == a3 + p4);
}

/// A stage that is started twice asks both times for as many entities, and
/// for entities of the same kinds in the same order: the dice decide where
/// an enemy comes in and when it first fires, not what there is.
pub proof fn law_dice_keep_the_kinds(multiplayer: bool, first: Seq<u32>, second: Seq<u32>)
    ensures
        stage_one_script(multiplayer, first).len() == stage_one_script(multiplayer, second).len(),
        kinds_seq(stage_one_script(multiplayer, first)) == kinds_seq(
            stage_one_script(multiplayer, second),
        ),
        stage_two_script(multiplayer, first).len() == stage_two_script(multiplayer, second).len(),
        kinds_seq(stage_two_script(multiplayer, first)) == kinds_seq(
            stage_two_script(multiplayer, second),
        ),
{
    law_stage_one_kinds(multiplayer, first);
    law_stage_one_kinds(multiplayer, second);
    law_stage_two_kinds(multiplayer, first);
    law_stage_two_kinds(multiplayer, second);
    assert(kinds_seq(stage_one_script(multiplayer, first)).len() == stage_one_script(
        multiplayer,
        first,
    ).len());
    assert(kinds_seq(stage_one_script(multiplayer, second)).len() == stage_one_script(
        multiplayer,
        second,
    ).len());
    assert(kinds_seq(stage_two_script(multiplayer, first)).len() == stage_two_script(
        multiplayer,
        first,
    ).len());
    assert(kinds_seq(stage_two_script(multiplayer, second)).len() == stage_two_script(
        multiplayer,
        second,
    ).len());
}

/// What an entity can be counted as.
pub enum Kind {
    /// It has a seat.
    Player,
    /// It is an enemy; a boss is one too.
    Enemy,
    /// It is a boss.
    Boss,
    /// It is a backdrop.
    Backdrop,
    /// It waits frozen.
    Frozen,
}

/// Whether an entity of the kind `kinds` counts as `kind`.
pub open spec fn counts_as(kinds: Kinds, kind: Kind) -> bool {
    match kind {
        Kind::Player => kinds.player is Some,
        Kind::Enemy => kinds.enemy,
        Kind::Boss => kinds.boss,
        Kind::Backdrop => kinds.background,
        Kind::Frozen => kinds.frozen_until is Some,
    }
}

/// How many of `kinds` count as `kind`.
pub open spec fn tally(kinds: Seq<Kinds>, kind: Kind) -> nat
    decreases kinds.len(),
{
    if kinds.len() == 0 {
        0
    } else {
        tally(kinds.drop_last(), kind) + if counts_as(kinds.last(), kind) {
            1nat
        } else {
            0nat
        }
    }
}

/// Whether `kinds` holds nothing but enemies that wait frozen and are no
/// bosses.
pub open spec fn all_enemies(kinds: Seq<Kinds>) -> bool {
    forall|k: int| 0 <= k < kinds.len() ==> exists|t: u64| #[trigger] kinds[k] == enemy_kind(t)
}

/// How many of `n` enemies count as `kind`.
pub open spec fn of_enemies(n: nat, kind: Kind) -> nat {
    match kind {
        Kind::Enemy => n,
        Kind::Frozen => n,
        _ => 0,
    }
}

/// How many players a stage has.
pub open spec fn seats(multiplayer: bool) -> nat {
    if multiplayer {
        2
    } else {
        1
    }
}

/// How many entities of the first stage count as `kind`.
pub open spec fn stage_one_tally(multiplayer: bool, kind: Kind) -> nat {
    match kind {
        Kind::Player => seats(multiplayer),
        Kind::Enemy => 269,
        Kind::Boss => 1,
        Kind::Backdrop => 3,
        Kind::Frozen => 269,
    }
}

/// How many entities of the second stage count as `kind`.
pub open spec fn stage_two_tally(multiplayer: bool, kind: Kind) -> nat {
    match kind {
        Kind::Player => seats(multiplayer),
        Kind::Enemy => 161,
        Kind::Boss => 1,
        Kind::Backdrop => 5,
        Kind::Frozen => 161,
    }
}

/// One more entity counts once more where it counts, and not where it does
/// not.
proof fn lemma_tally_push(kinds: Seq<Kinds>, last: Kinds, kind: Kind)
    ensures
        tally(kinds.push(last), kind) == tally(kinds, kind) + if counts_as(last, kind) {
            1nat
        } else {
            0nat
        },
{
    assert(kinds.push(last).drop_last() =~= kinds);
}

/// The tally of two lists, one after the other, is the sum of their
/// tallies.
proof fn lemma_tally_concat(a: Seq<Kinds>, b: Seq<Kinds>, kind: Kind)
    ensures
        tally(a + b, kind) == tally(a, kind) + tally(b, kind),
    decreases b.len(),
{
    if b.len() == 0 {
        assert(a + b =~= a);
    } else {
        lemma_tally_concat(a, b.drop_last(), kind);
        assert((a + b).drop_last() =~= a + b.drop_last());
    }
}

/// Of a list of enemies each counts as an enemy and as frozen, and none as
/// anything else.
proof fn lemma_tally_enemies(kinds: Seq<Kinds>, kind: Kind)
    requires
        all_enemies(kinds),
    ensures
        tally(kinds, kind) == of_enemies(kinds.len(), kind),
    decreases kinds.len(),
{
    if kinds.len() > 0 {
        let t = choose|t: u64| kinds[kinds.len() - 1] == enemy_kind(t);
        assert forall|k: int| 0 <= k < kinds.drop_last().len() implies exists|t: u64| #[trigger]
            kinds.drop_last()[k] == enemy_kind(t) by {
            let t = choose|t: u64| kinds[k] == enemy_kind(t);
            assert(kinds.drop_last()[k] == enemy_kind(t));
        }
        lemma_tally_enemies(kinds.drop_last(), kind);
    }
}

/// The groups of a wave hold nothing but enemies.
proof fn lemma_groups_are_enemies(wave: Wave, times: Seq<u64>, n: nat)
    ensures
        all_enemies(groups_kinds(wave, times, n)),
    decreases n,
{
    if n == 0 || n > times.len() {
    } else {
        lemma_groups_are_enemies(wave, times, (n - 1) as nat);
        let before = groups_kinds(wave, times, (n - 1) as nat);
        let group = group_kinds(wave, times[n - 1]);
        assert forall|k: int| 0 <= k < (before + group).len() implies exists|t: u64| #[trigger]
            (before + group)[k] == enemy_kind(t) by {
            if k < before.len() {
                let t = choose|t: u64| before[k] == enemy_kind(t);
                assert((before + group)[k] == enemy_kind(t));
            } else {
                assert((before + group)[k] == enemy_kind(times[n - 1]));
            }
        }
    }
}

/// How many enemies the first `n` groups of a wave hold whose groups are
/// all of the size `size`.
proof fn lemma_groups_len(wave: Wave, times: Seq<u64>, n: nat, size: nat)
    requires
        n <= times.len(),
        forall|k: int| 0 <= k < n ==> group_size(wave, #[trigger] times[k]) == size,
    ensures
        groups_kinds(wave, times, n).len() == n * size,
    decreases n,
{
    if n == 0 {
        assert(0 * size == 0) by (nonlinear_arith);
    } else {
        lemma_groups_len(wave, times, (n - 1) as nat, size);
        assert((n - 1) * size + size == n * size) by (nonlinear_arith);
    }
}

/// How many enemies a wave holds whose groups wake before the thirtieth
/// second, or are not of skulls.
proof fn lemma_wave_len(wave: Wave, start: u64, end: u64, step: u64, size: nat)
    requires
        step > 0,
        start < end,
        wave != Wave::Skulls || end <= 180000,
        size == group_size(wave, 0),
    ensures
        wave_kinds(wave, start, end, step).len() == ((end - start - 1) / (step as int) + 1) * size,
{
    let times = steps(start, end, step);
    lemma_steps_len(start, end, step);
    assert forall|k: int| 0 <= k < times.len() implies group_size(wave, #[trigger] times[k])
        == size by {
        law_steps_are_even(start, end, step, k);
    }
    lemma_groups_len(wave, times, times.len(), size);
}

/// How many skulls the first `n` groups hold of those that wake every half
/// second from the twenty-fifth second on: one to a group for the first
/// ten, four to a group after them.
proof fn lemma_skulls_len(times: Seq<u64>, n: nat)
    requires
        n <= times.len(),
        forall|k: int| 0 <= k < n ==> #[trigger] times[k] == 150000 + k * 3000,
    ensures
        groups_kinds(Wave::Skulls, times, n).len() == if n <= 10 {
            n as int
        } else {
            4 * n - 30
        },
    decreases n,
{
    if n > 0 {
        lemma_skulls_len(times, (n - 1) as nat);
        assert(times[n - 1] == 150000 + (n - 1) * 3000);
    }
}

/// The tally of a wave of enemies.
proof fn lemma_wave_tally(wave: Wave, start: u64, end: u64, step: u64, kind: Kind)
    ensures
        tally(wave_kinds(wave, start, end, step), kind) == of_enemies(
            wave_kinds(wave, start, end, step).len(),
            kind,
        ),
{
    lemma_groups_are_enemies(wave, steps(start, end, step), steps(start, end, step).len());
    lemma_tally_enemies(wave_kinds(wave, start, end, step), kind);
}

/// The tally of the players of a stage.
proof fn lemma_players_tally(multiplayer: bool, kind: Kind)
    ensures
        tally(players_kinds(multiplayer), kind) == if kind is Player {
            seats(multiplayer)
        } else {
            0
        },
{
    let none = Seq::<Kinds>::empty();
    if multiplayer {
        lemma_tally_push(none, player_kind(Player::One), kind);
        lemma_tally_push(none.push(player_kind(Player::One)), player_kind(Player::Two), kind);
        assert(players_kinds(multiplayer) =~= none.push(player_kind(Player::One)).push(
            player_kind(Player::Two),
        ));
    } else {
        lemma_tally_push(none, player_kind(Player::Single), kind);
        assert(players_kinds(multiplayer) =~= none.push(player_kind(Player::Single)));
    }
}

/// The tally of `n` backdrops and a title after them.
proof fn lemma_scenery_tally(scenery: Seq<Kinds>, kind: Kind)
    requires
        scenery.len() > 0,
        scenery.last() == no_kind(),
        forall|k: int| 0 <= k < scenery.len() - 1 ==> #[trigger] scenery[k] == backdrop_kind(),
    ensures
        tally(scenery, kind) == if kind is Backdrop {
            scenery.len() - 1
        } else {
            0
        },
{
    lemma_backdrops_tally(scenery.drop_last(), kind);
}

/// The tally of backdrops.
proof fn lemma_backdrops_tally(backdrops: Seq<Kinds>, kind: Kind)
    requires
        forall|k: int| 0 <= k < backdrops.len() ==> #[trigger] backdrops[k] == backdrop_kind(),
    ensures
        tally(backdrops, kind) == if kind is Backdrop {
            backdrops.len()
        } else {
            0
        },
    decreases backdrops.len(),
{
    if backdrops.len() > 0 {
        lemma_backdrops_tally(backdrops.drop_last(), kind);
    }
}

/// The tally and the length of the first stage.
proof fn lemma_stage_one_tally(multiplayer: bool, kind: Kind)
    ensures
        tally(stage_one_kinds(multiplayer), kind) == stage_one_tally(multiplayer, kind),
        stage_one_kinds(multiplayer).len() == 273 + seats(multiplayer),
{
    let p0 = seq![backdrop_kind(), backdrop_kind(), backdrop_kind(), no_kind()];
    let p1 = players_kinds(multiplayer);
    let p2 = wave_kinds(Wave::BatsFromLeft, 6000, 36000, 1500);
    let p3 = wave_kinds(Wave::BatsFromRight, 18000, 60000, 1500);
    let p4 = wave_kinds(Wave::BatsFromAbove, 72000, 102000, 1500);
    let p5 = wave_kinds(Wave::LowBats, 90000, 120000, 3000);
    let p6 = seq![
        enemy_kind(144000),
        enemy_kind(144000),
        enemy_kind(144000),
        enemy_kind(168000),
        enemy_kind(168000),
    ];
    let p7 = wave_kinds(Wave::CirclingBats, 150000, 198000, 1500);
    let p8 = wave_kinds(Wave::HellBats, 210000, 300000, 1500);
    let p9 = wave_kinds(Wave::SweepingGargoyles, 270000, 300000, 6000);
    let p10 = seq![boss_kind(330000)];
    lemma_scenery_tally(p0, kind);
    lemma_players_tally(multiplayer, kind);
    lemma_wave_tally(Wave::BatsFromLeft, 6000, 36000, 1500, kind);
    lemma_wave_len(Wave::BatsFromLeft, 6000, 36000, 1500, 2);
    lemma_wave_tally(Wave::BatsFromRight, 18000, 60000, 1500, kind);
    lemma_wave_len(Wave::BatsFromRight, 18000, 60000, 1500, 2);
    lemma_wave_tally(Wave::BatsFromAbove, 72000, 102000, 1500, kind);
    lemma_wave_len(Wave::BatsFromAbove, 72000, 102000, 1500, 3);
    lemma_wave_tally(Wave::LowBats, 90000, 120000, 3000, kind);
    lemma_wave_len(Wave::LowBats, 90000, 120000, 3000, 1);
    assert(all_enemies(p6)) by {
        assert(p6[0] == enemy_kind(144000));
        assert(p6[1] == enemy_kind(144000));
        assert(p6[2] == enemy_kind(144000));
        assert(p6[3] == enemy_kind(168000));
        assert(p6[4] == enemy_kind(168000));
    }
    lemma_tally_enemies(p6, kind);
    lemma_wave_tally(Wave::CirclingBats, 150000, 198000, 1500, kind);
    lemma_wave_len(Wave::CirclingBats, 150000, 198000, 1500, 1);
    lemma_wave_tally(Wave::HellBats, 210000, 300000, 1500, kind);
    lemma_wave_len(Wave::HellBats, 210000, 300000, 1500, 1);
    lemma_wave_tally(Wave::SweepingGargoyles, 270000, 300000, 6000, kind);
    lemma_wave_len(Wave::SweepingGargoyles, 270000, 300000, 6000, 1);
    lemma_tally_push(Seq::<Kinds>::empty(), boss_kind(330000), kind);
    assert(p10 =~= Seq::<Kinds>::empty().push(boss_kind(330000)));
    let a1 = p0 + p1;
    let a2 = a1 + p2;
    let a3 = a2 + p3;
    let a4 = a3 + p4;
    let a5 = a4 + p5;
    let a6 = a5 + p6;
    let a7 = a6 + p7;
    let a8 = a7 + p8;
    let a9 = a8 + p9;
    lemma_tally_concat(p0, p1, kind);
    lemma_tally_concat(a1, p2, kind);
    lemma_tally_concat(a2, p3, kind);
    lemma_tally_concat(a3, p4, kind);
    lemma_tally_concat(a4, p5, kind);
    lemma_tally_concat(a5, p6, kind);
    lemma_tally_concat(a6, p7, kind);
    lemma_tally_concat(a7, p8, kind);
    lemma_tally_concat(a8, p9, kind);
    lemma_tally_concat(a9, p10, kind);
    assert(stage_one_kinds(multiplayer) == a9 + p10);
}

/// The tally and the length of the second stage.
proof fn lemma_stage_two_tally(multiplayer: bool, kind: Kind)
    ensures
        tally(stage_two_kinds(multiplayer), kind) == stage_two_tally(multiplayer, kind),
        stage_two_kinds(multiplayer).len() == 167 + seats(multiplayer),
{
    let p0 = seq![
        backdrop_kind(),
        backdrop_kind(),
        backdrop_kind(),
        backdrop_kind(),
        backdrop_kind(),
        no_kind(),
    ];
    let p1 = players_kinds(multiplayer);
    let p2 = wave_kinds(Wave::Spectres, 30000, 120000, 3000);
    let p3 = wave_kinds(Wave::Skulls, 150000, 270000, 3000);
    let p4 = seq![boss_kind(300000)];
    lemma_scenery_tally(p0, kind);
    lemma_players_tally(multiplayer, kind);
    lemma_wave_tally(Wave::Spectres, 30000, 120000, 3000, kind);
    lemma_wave_len(Wave::Spectres, 30000, 120000, 3000, 1);
    lemma_wave_tally(Wave::Skulls, 150000, 270000, 3000, kind);
    let times = steps(150000, 270000, 3000);
    lemma_steps_len(150000, 270000, 3000);
    assert forall|k: int| 0 <= k < times.len() implies #[trigger] times[k] == 150000 + k * 3000 by {
        law_steps_are_even(150000, 270000, 3000, k);
    }
    lemma_skulls_len(times, times.len());
    lemma_tally_push(Seq::<Kinds>::empty(), boss_kind(300000), kind);
    assert(p4 =~= Seq::<Kinds>::empty().push(boss_kind(300000)));
    let a1 = p0 + p1;
    let a2 = a1 + p2;
    let a3 = a2 + p3;
    lemma_tally_concat(p0, p1, kind);
    lemma_tally_concat(a1, p2, kind);
    lemma_tally_concat(a2, p3, kind);
    lemma_tally_concat(a3, p4, kind);
    assert(stage_two_kinds(multiplayer) == a3 + p4);
}

/// What a stage holds. Whatever the dice show, the first stage asks for 273
/// entities and the players, the second for 167 and the players; of them
/// one is a boss, one or two are players, three or five are backdrops, and
/// 269 or 161 are enemies, the boss among them, which all wait frozen.
pub proof fn law_stage_census(multiplayer: bool, rolls: Seq<u32>, kind: Kind)
    ensures
        stage_one_script(multiplayer, rolls).len() == 273 + seats(multiplayer),
        tally(kinds_seq(stage_one_script(multiplayer, rolls)), kind) == stage_one_tally(
            multiplayer,
            kind,
        ),
        stage_two_script(multiplayer, rolls).len() == 167 + seats(multiplayer),
        tally(kinds_seq(stage_two_script(multiplayer, rolls)), kind) == stage_two_tally(
            multiplayer,
            kind,
        ),
{
    law_stage_one_kinds(multiplayer, rolls);
    law_stage_two_kinds(multiplayer, rolls);
    lemma_stage_one_tally(multiplayer, kind);
    lemma_stage_two_tally(multiplayer, kind);
    assert(kinds_seq(stage_one_script(multiplayer, rolls)).len() == stage_one_script(
        multiplayer,
        rolls,
    ).len());
    assert(kinds_seq(stage_two_script(multiplayer, rolls)).len() == stage_two_script(
        multiplayer,
        rolls,
    ).len());
}

/// What lives after a stage start. Whatever the entity table held before
/// and whatever the dice show, once the sync point has made the entities of
/// a stage, the entity that was asked for at place `k` of the script is of
/// the kind at place `k` of the stage's kinds.
pub proof fn law_stage_start_kinds(
    slots: Seq<Slot>,
    multiplayer: bool,
    rolls: Seq<u32>,
    before: Bundle,
    k: nat,
)
    ensures
        k < stage_one_script(multiplayer, rolls).len() ==> kinds_in(
            synced(
                all_killed(slots),
                stage_one_script(multiplayer, rolls),
                before,
                slot_of(swept(all_killed(slots)), k),
            ),
        ) == stage_one_kinds(multiplayer)[k as int],
        k < stage_two_script(multiplayer, rolls).len() ==> kinds_in(
            synced(
                all_killed(slots),
                stage_two_script(multiplayer, rolls),
                before,
                slot_of(swept(all_killed(slots)), k),
            ),
        ) == stage_two_kinds(multiplayer)[k as int],
{
    law_stage_start_resets(slots, stage_one_script(multiplayer, rolls));
    law_stage_start_resets(slots, stage_two_script(multiplayer, rolls));
    law_stage_one_kinds(multiplayer, rolls);
    law_stage_two_kinds(multiplayer, rolls);
    if k < stage_one_script(multiplayer, rolls).len() {
        assert(kinds_seq(stage_one_script(multiplayer, rolls))[k as int] == kinds_of(
            stage_one_script(multiplayer, rolls)[k as int],
        ));
    }
    if k < stage_two_script(multiplayer, rolls).len() {
        assert(kinds_seq(stage_two_script(multiplayer, rolls))[k as int] == kinds_of(
            stage_two_script(multiplayer, rolls)[k as int],
        ));
    }
}

/// The places of `kinds` that count as `kind`.
pub open spec fn places(kinds: Seq<Kinds>, kind: Kind) -> Set<int> {
    Set::new(|k: int| 0 <= k < kinds.len() && counts_as(kinds[k], kind))
}

/// The slots of the entities that live once every entity of the table
/// `slots` was deleted and the sync point has made the entities of
/// `script`.
pub open spec fn living_after(slots: Seq<Slot>, script: Seq<Seq<ComponentView>>) -> Set<int> {
    Set::new(|i: int| alive_in(spawned(swept(all_killed(slots)), script.len()), i))
}

/// Those of `living_after` whose entity counts as `kind`, where `before`
/// gives the components that each slot held before the start.
pub open spec fn living_of(
    slots: Seq<Slot>,
    script: Seq<Seq<ComponentView>>,
    before: spec_fn(int) -> Bundle,
    kind: Kind,
) -> Set<int> {
    Set::new(
        |i: int|
            alive_in(spawned(swept(all_killed(slots)), script.len()), i) && counts_as(
                kinds_in(synced(all_killed(slots), script, before(i), i)),
                kind,
            ),
    )
}

/// There are as many places that count as the tally says.
proof fn lemma_places_len(kinds: Seq<Kinds>, kind: Kind)
    ensures
        places(kinds, kind).finite(),
        places(kinds, kind).len() == tally(kinds, kind),
    decreases kinds.len(),
{
    if kinds.len() == 0 {
        assert(places(kinds, kind) =~= Set::<int>::empty());
    } else {
        lemma_places_len(kinds.drop_last(), kind);
        let rest = places(kinds.drop_last(), kind);
        if counts_as(kinds.last(), kind) {
            assert(places(kinds, kind) =~= rest.insert(kinds.len() - 1));
            assert(!rest.contains(kinds.len() - 1));
        } else {
            assert(places(kinds, kind) =~= rest);
        }
    }
}

/// The entity that is found to be made in a slot was made, in that slot.
proof fn lemma_made_where(s: Seq<Slot>, n: nat, i: int)
    requires
        made_in(s, n, i) is Some,
    ensures
        made_in(s, n, i)->0 < n,
        slot_of(s, made_in(s, n, i)->0) == i,
    decreases n,
{
    if n > 0 && slot_of(s, (n - 1) as nat) != i {
        lemma_made_where(s, (n - 1) as nat, i);
    }
}

/// Entities that are made one after the other fill as many slots as there
/// are entities.
proof fn lemma_slots_len(s: Seq<Slot>, n: nat, made: Set<int>)
    requires
        made.subset_of(vstd::set_lib::set_int_range(0, n as int)),
    ensures
        made.finite(),
        made.map(|k: int| slot_of(s, k as nat)).finite(),
        made.map(|k: int| slot_of(s, k as nat)).len() == made.len(),
{
    let slot = |k: int| slot_of(s, k as nat);
    vstd::set_lib::lemma_int_range(0, n as int);
    vstd::set_lib::lemma_len_subset(made, vstd::set_lib::set_int_range(0, n as int));
    assert forall|a: int, b: int|
        made.contains(a) && made.contains(b) && #[trigger] slot(a) == #[trigger] slot(b) implies a
        == b by {
        if a < b {
            lemma_slots_differ(s, a as nat, b as nat);
        }
        if b < a {
            lemma_slots_differ(s, b as nat, a as nat);
        }
    }
    vstd::set_lib::lemma_map_size(made, made.map(slot), slot);
}

/// The census of a stage start. Whatever the entity table held before,
/// once every entity was deleted and the sync point has made the entities
/// of a script, as many entities live as the script has items, and as many
/// of them count as `kind` as of the script's kinds.
pub proof fn law_census_after_start(
    slots: Seq<Slot>,
    script: Seq<Seq<ComponentView>>,
    before: spec_fn(int) -> Bundle,
    kind: Kind,
)
    ensures
        living_after(slots, script).finite(),
        living_after(slots, script).len() == script.len(),
        living_of(slots, script, before, kind).finite(),
        living_of(slots, script, before, kind).len() == tally(kinds_seq(script), kind),
{
    let fresh = swept(all_killed(slots));
    let n = script.len();
    let slot = |k: int| slot_of(fresh, k as nat);
    let all = vstd::set_lib::set_int_range(0, n as int);
    let some = places(kinds_seq(script), kind);
    law_stage_start_resets(slots, script);
    lemma_places_len(kinds_seq(script), kind);
    vstd::set_lib::lemma_int_range(0, n as int);
    lemma_slots_len(fresh, n, all);
    lemma_slots_len(fresh, n, some);
    assert forall|i: int| living_after(slots, script).contains(i) implies all.map(slot).contains(
        i,
    ) by {
        lemma_made_where(fresh, n, i);
        let k = made_in(fresh, n, i)->0 as int;
        assert(all.contains(k) && slot(k) == i);
    }
    assert forall|i: int| all.map(slot).contains(i) implies living_after(slots, script).contains(
        i,
    ) by {
        let k = choose|k: int| all.contains(k) && slot(k) == i;
        assert(alive_in(spawned(fresh, n), slot_of(fresh, k as nat)));
    }
    assert(living_after(slots, script) =~= all.map(slot));
    assert forall|i: int| living_of(slots, script, before, kind).contains(i) implies some.map(
        slot,
    ).contains(i) by {
        lemma_made_where(fresh, n, i);
        let k = made_in(fresh, n, i)->0;
        assert(synced(all_killed(slots), script, before(i), slot_of(fresh, k)) == bundle_of(
            script[k as int],
        ));
        assert(some.contains(k as int) && slot(k as int) == i);
    }
    assert forall|i: int| some.map(slot).contains(i) implies living_of(
        slots,
        script,
        before,
        kind,
    ).contains(i) by {
        let k = choose|k: int| some.contains(k) && slot(k) == i;
        assert(alive_in(spawned(fresh, n), slot_of(fresh, k as nat)));
        assert(synced(all_killed(slots), script, before(i), slot_of(fresh, k as nat)) == bundle_of(
            script[k],
        ));
    }
    assert(living_of(slots, script, before, kind) =~= some.map(slot));
}

/// Two starts, one census. Whatever the entity table held before each
/// start and whatever the dice showed, a stage that is started leaves the
/// same number of entities, and the same number of each kind: the first
/// stage 273 and the players, the second 167 and the players; one boss, one
/// or two players, three or five backdrops, and 269 or 161 enemies, which
/// all wait frozen.
pub proof fn law_two_starts_one_census(
    slots: Seq<Slot>,
    multiplayer: bool,
    rolls: Seq<u32>,
    before: spec_fn(int) -> Bundle,
    kind: Kind,
)
    ensures
        living_after(slots, stage_one_script(multiplayer, rolls)).len() == 273 + seats(
            multiplayer,
        ),
        living_of(slots, stage_one_script(multiplayer, rolls), before, kind).len()
            == stage_one_tally(multiplayer, kind),
        living_after(slots, stage_two_script(multiplayer, rolls)).len() == 167 + seats(
            multiplayer,
        ),
        living_of(slots, stage_two_script(multiplayer, rolls), before, kind).len()
            == stage_two_tally(multiplayer, kind),
{
    law_census_after_start(slots, stage_one_script(multiplayer, rolls), before, kind);
    law_census_after_start(slots, stage_two_script(multiplayer, rolls), before, kind);
    law_stage_census(multiplayer, rolls, kind);
}

} // verus!
