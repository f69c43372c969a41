//! The plain data records that entities own.

use vstd::prelude::*;
use vstd::string::*;
use crate::curve::Curve;
use crate::graphics::Atlas;
use crate::graphics::Frame;
use crate::graphics::Image as GraphicsImage;
use crate::graphics::frame_size;
use crate::math::Vec2;

verus! {

/// The sprite an entity is drawn with, as its number in the sheet.
#[derive(Clone, Copy, Debug, PartialEq, Eq, Structural)]
pub struct Image(pub u16);

impl Image {
    /// The frame of the sheet that the sprite is cut from.
    pub fn coordinates(self, atlas: &Atlas) -> (f: Frame)
        ensures
            f == atlas.frame_of(self.0),
    {
        atlas.coordinates(self.0)
    }

    /// The sprite's extent in fixed-point steps.
    pub fn size(self, atlas: &Atlas) -> (r: Vec2)
        ensures
            r == frame_size(atlas.frame_of(self.0)),
    {
        atlas.size(self.0)
    }

    /// The component for a sprite of the game.
    pub fn from(image: GraphicsImage) -> (r: Image)
        ensures
            r == Image(image.code()),
    {
        Image(image.to_u16())
    }
}

/// Which seat a player entity is steered from.
#[derive(Clone, Copy, Debug, PartialEq, Eq, Structural)]
pub enum Player {
    Single,
    One,
    Two,
}

/// A scrolling backdrop; deeper layers are drawn later.
#[derive(Clone, Copy, Debug, PartialEq, Eq, Structural)]
pub struct BackgroundLayer {
    pub depth: u32,
}

/// Where an entity is.
#[derive(Clone, Copy, Debug, PartialEq, Eq, Structural)]
pub struct Position(pub Vec2);

/// Homing on a point at a fixed speed, stopping exactly on it.
#[derive(Clone, Copy, Debug, PartialEq, Eq, Structural)]
pub struct MoveTowards {
    pub position: Vec2,
    pub speed: i32,
}

/// How an entity moves each tick.
#[derive(Clone, Copy, Debug, PartialEq, Eq, Structural)]
pub enum Movement {
    /// The velocity is added to the position.
    Linear(Vec2),
    /// Vertical motion that gains speed every tick.
    Falling { speed: i32, down: bool },
    /// Motion along a spline at a steady pace.
    FollowCurve(Curve),
    /// Advance until `stop_time`, hold, and retreat from `return_time` on.
    FiringMove { speed: i32, return_time: u64, stop_time: u64 },
    /// Homing on a point.
    MoveTowards(MoveTowards),
}

/// The entity dies when it leaves the screen after having been on it.
#[derive(Clone, Copy, Debug, PartialEq, Eq, Structural)]
pub struct DieOffscreen;

/// The entity has been seen on the screen.
#[derive(Clone, Copy, Debug, PartialEq, Eq, Structural)]
pub struct BeenOnscreen;

/// The entity is inert until the clock reaches this time.
#[derive(Clone, Copy, Debug, PartialEq, Eq, Structural)]
pub struct FrozenUntil(pub u64);

/// The blast of a bomb, growing from its centre.
#[derive(Clone, Copy, Debug, PartialEq, Eq, Structural)]
pub struct Circle {
    pub radius: i32,
}

/// The entity is destroyed by the blast of a bomb.
#[derive(Clone, Copy, Debug, PartialEq, Eq, Structural)]
pub struct CollidesWithBomb;

/// Horizontal placement of a text against its position.
#[derive(Clone, Copy, Debug, PartialEq, Eq, Structural)]
pub enum HorizontalAlign {
    Left,
    Center,
    Right,
}

/// Vertical placement of a text against its position.
#[derive(Clone, Copy, Debug, PartialEq, Eq, Structural)]
pub enum VerticalAlign {
    Top,
    Center,
    Bottom,
}

/// How a text is laid out against its position.
#[derive(Clone, Copy, Debug, PartialEq, Eq, Structural)]
pub struct Layout {
    pub h_align: HorizontalAlign,
    pub v_align: VerticalAlign,
}

impl Layout {
    /// Left and top aligned.
    pub fn new() -> (r: Layout)
        ensures
            r == (Layout { h_align: HorizontalAlign::Left, v_align: VerticalAlign::Top }),
    {
        Layout { h_align: HorizontalAlign::Left, v_align: VerticalAlign::Top }
    }

    /// The same layout with another horizontal alignment.
    pub fn h_align(self, h_align: HorizontalAlign) -> (r: Layout)
        ensures
            r == (Layout { h_align, v_align: self.v_align }),
    {
        Layout { h_align, v_align: self.v_align }
    }

    /// The same layout with another vertical alignment.
    pub fn v_align(self, v_align: VerticalAlign) -> (r: Layout)
        ensures
            r == (Layout { h_align: self.h_align, v_align }),
    {
        Layout { h_align: self.h_align, v_align }
    }
}

/// A line of text shown at the entity's position.
pub struct Text {
    pub text: String,
    pub font: usize,
    pub layout: Layout,
}

/// What a `Text` says, with the string as its characters.
pub struct TextView {
    pub text: Seq<char>,
    pub font: usize,
    pub layout: Layout,
}

impl View for Text {
    type V = TextView;

    open spec fn view(&self) -> TextView {
        TextView { text: self.text@, font: self.font, layout: self.layout }
    }
}

impl Text {
    /// A title: the large font, centred on its position.
    pub fn title(text: &str) -> (r: Text)
        ensures
            r@ == (TextView {
                text: text@,
                font: 0,
                layout: Layout { h_align: HorizontalAlign::Center, v_align: VerticalAlign::Top },
            }),
    {
        Text {
            text: String::from_str(text),
            font: 0,
            layout: Layout::new().h_align(HorizontalAlign::Center),
        }
    }
}

/// A colour with its opacity, each channel from 0 to 255.
#[derive(Clone, Copy, Debug, PartialEq, Eq, Structural)]
pub struct Colour {
    pub red: u8,
    pub green: u8,
    pub blue: u8,
    pub alpha: u8,
}

/// A colour laid over the entity's sprite.
#[derive(Clone, Copy, Debug, PartialEq, Eq, Structural)]
pub struct ColourOverlay(pub Colour);

/// The family of tints a bullet may be given when it is fired.
#[derive(Clone, Copy, Debug, PartialEq, Eq, Structural)]
pub enum ColourBullets {
    Purple,
    Orange,
}

/// What every bullet of a pattern looks like and how fast it flies.
#[derive(Clone, Copy, Debug, PartialEq, Eq, Structural)]
pub struct BulletSetup {
    pub image: Image,
    pub speed: i32,
    pub colour: Option<ColourBullets>,
}

/// The entity will lock onto a player and fly at it with this speed.
#[derive(Clone, Copy, Debug, PartialEq, Eq, Structural)]
pub struct TargetPlayer(pub i32);

/// The entity sides with the players.
#[derive(Clone, Copy, Debug, PartialEq, Eq, Structural)]
pub struct Friendly;

/// The entity sides against the players.
#[derive(Clone, Copy, Debug, PartialEq, Eq, Structural)]
pub struct Enemy;

/// Hits the entity can still take.
#[derive(Clone, Copy, Debug, PartialEq, Eq, Structural)]
pub struct Health(pub u32);

impl Health {
    /// What is left after one hit: one less, and never less than nothing.
    pub open spec fn hit(self) -> Health {
        if self.0 == 0 {
            Health(0)
        } else {
            Health((self.0 - 1) as u32)
        }
    }

    /// Takes one hit and says whether nothing is left.
    pub fn damage(&mut self) -> (dead: bool)
        ensures
            *final(self) == old(self).hit(),
            dead == (final(self).0 == 0),
            final(self).0 <= old(self).0,
    {
        self.0 = self.0.saturating_sub(1);
        self.0 == 0
    }
}

/// How far the box an entity collides with reaches from its position, each
/// way. A box without extent marks an entity that never collides with
/// another such entity.
#[derive(Clone, Copy, Debug, PartialEq, Eq, Structural)]
pub struct Hitbox(pub Vec2);

/// A blast effect that began at this time.
#[derive(Clone, Copy, Debug, PartialEq, Eq, Structural)]
pub struct Explosion(pub u64);

/// Loot worth this much power.
#[derive(Clone, Copy, Debug, PartialEq, Eq, Structural)]
pub struct PowerOrb(pub u32);

/// Power gathered towards a bomb.
#[derive(Clone, Copy, Debug, PartialEq, Eq, Structural)]
pub struct PowerBar(pub u32);

impl PowerBar {
    /// The power at which the bar is full.
    pub const FULL: u32 = 35;

    /// The bar after gaining `value`: the sum, and no more than full.
    pub open spec fn gained(self, value: u32) -> PowerBar {
        if self.0 + value >= 35 {
            PowerBar(35)
        } else {
            PowerBar((self.0 + value) as u32)
        }
    }

    /// Adds power; the bar stops at full.
    pub fn add(&mut self, value: u32)
        ensures
            *final(self) == old(self).gained(value),
    {
        let sum: u32 = self.0.saturating_add(value);
        self.0 = if sum >= 35 {
            35
        } else {
            sum
        };
    }

    /// How full the bar is, in thousandths; an overfull bar counts as full.
    pub fn perc(&self) -> (r: u32)
        ensures
            r == if self.0 >= 35 {
                1000
            } else {
                self.0 * 1000 / 35
            },
    {
        if self.0 >= 35 {
            1000
        } else {
            self.0 * 1000 / 35
        }
    }

    /// Spends a bar that is exactly full: it goes back to nothing and the
    /// answer is yes. Any other bar is left as it is.
    pub fn empty(&mut self) -> (spent: bool)
        ensures
            spent == (old(self).0 == 35),
            *final(self) == if old(self).0 == 35 {
                PowerBar(0)
            } else {
                *old(self)
            },
    {
        if self.0 == 35 {
            self.0 = 0;
            true
        } else {
            false
        }
    }
}

/// For how long a hit protects against the next one.
pub const INVULNERABLE_FOR: u64 = 30000;

/// The shield that keeps an entity from being hit again too soon.
#[derive(Clone, Copy, Debug, PartialEq, Eq, Structural)]
pub struct Invulnerability {
    last_hit: Option<u64>,
}

impl Invulnerability {
    /// The time of the hit that the shield remembers.
    pub closed spec fn last_hit(self) -> Option<u64> {
        self.last_hit
    }

    /// Whether a hit at `time` is held off: the remembered hit is less than
    /// the protected span in the past, or lies ahead.
    pub open spec fn invul_at(self, time: u64) -> bool {
        match self.last_hit() {
            Some(last) => time < last + INVULNERABLE_FOR,
            None => false,
        }
    }

    /// The shield after a hit was tried at `time`: it remembers `time` where the
    /// hit lands, and is as before where it is held off.
    pub open spec fn tried(self, time: u64) -> Invulnerability {
        if self.invul_at(time) {
            self
        } else {
            Self::hit_at(time)
        }
    }

    /// The shield that remembers a hit at `time`.
    pub closed spec fn hit_at(time: u64) -> Invulnerability {
        Invulnerability { last_hit: Some(time) }
    }

    /// The shield that remembers a hit at `time` remembers that hit.
    pub proof fn lemma_hit_at(time: u64)
        ensures
            Self::hit_at(time).last_hit() == Some(time),
    {
    }

    /// The shield that remembers no hit.
    pub closed spec fn unhit() -> Invulnerability {
        Invulnerability { last_hit: None }
    }

    /// A shield that remembers no hit.
    pub fn new() -> (r: Invulnerability)
        ensures
            r == Self::unhit(),
            r.last_hit() is None,
    {
        Invulnerability { last_hit: None }
    }

    /// Whether a hit at `time` would be held off.
    pub fn is_invul(&self, time: u64) -> (b: bool)
        ensures
            b == self.invul_at(time),
    {
        match self.last_hit {
            Some(last) => time < last || time - last < INVULNERABLE_FOR,
            None => false,
        }
    }

    /// How much of the protected span is left at `time`.
    pub fn time_remaining(&self, time: u64) -> (r: u64)
        ensures
            r == match self.last_hit() {
                Some(last) => if time < last {
                    INVULNERABLE_FOR
                } else if time - last < INVULNERABLE_FOR {
                    (INVULNERABLE_FOR - (time - last)) as u64
                } else {
                    0
                },
                None => 0,
            },
    {
        match self.last_hit {
            Some(last) => if time < last {
                INVULNERABLE_FOR
            } else if time - last < INVULNERABLE_FOR {
                INVULNERABLE_FOR - (time - last)
            } else {
                0
            },
            None => 0,
        }
    }

    /// Tries a hit at `time`. It lands exactly when the shield is down, and the
    /// shield then remembers `time`; a hit that is held off changes nothing.
    pub fn can_damage(&mut self, time: u64) -> (lands: bool)
        ensures
            lands == !old(self).invul_at(time),
            *final(self) == old(self).tried(time),
            lands ==> final(self).last_hit() == Some(time),
    {
        if !self.is_invul(time) {
            self.last_hit = Some(time);
            true
        } else {
            false
        }
    }
}

/// Once a hit has landed at `t`, a second one is held off at every time
/// before `t + INVULNERABLE_FOR` and lands at every time from then on.
pub proof fn law_invulnerability_window(shield: Invulnerability, t: u64, later: u64)
    requires
        !shield.invul_at(t),
    ensures
        shield.tried(t).invul_at(later) <==> later < t + INVULNERABLE_FOR,
{
}

/// What a cooldown last did.
#[derive(Clone, Copy, Debug, PartialEq, Eq, Structural)]
enum Fired {
    /// It has not fired; it may from this time on.
    NotBefore(u64),
    /// It fired at this time.
    At(u64),
}

/// A timer that lets its owner act at most once per interval.
#[derive(Clone, Copy, Debug, PartialEq, Eq, Structural)]
pub struct Cooldown {
    cooldown_time: u64,
    fired: Fired,
}

impl Cooldown {
    /// The least span between two firings.
    pub closed spec fn interval(self) -> u64 {
        self.cooldown_time
    }

    /// The earliest time at which the timer is ready.
    pub closed spec fn ready_from(self) -> int {
        match self.fired {
            Fired::NotBefore(t) => t as int,
            Fired::At(t) => t + self.cooldown_time,
        }
    }

    /// Whether the timer is ready at `time`.
    pub open spec fn ready(self, time: u64) -> bool {
        self.ready_from() <= time
    }

    /// The timer with the same interval that fired at `time`.
    pub closed spec fn fired_at(self, time: u64) -> Cooldown {
        Cooldown { cooldown_time: self.cooldown_time, fired: Fired::At(time) }
    }

    /// The timer after it was asked at `time`: it has fired at `time` where it
    /// was ready, and is as before where it was not.
    pub open spec fn asked(self, time: u64) -> Cooldown {
        if self.ready(time) {
            self.fired_at(time)
        } else {
            self
        }
    }

    /// The timer of the given interval that has not fired and is first
    /// ready at `ready_at`.
    pub closed spec fn starting(cooldown_time: u64, ready_at: u64) -> Cooldown {
        Cooldown { cooldown_time, fired: Fired::NotBefore(ready_at) }
    }

    /// A timer of the given interval that is ready at once.
    pub fn new(cooldown_time: u64) -> (r: Cooldown)
        ensures
            r == Self::starting(cooldown_time, 0),
            r.interval() == cooldown_time,
            r.ready_from() == 0,
    {
        Cooldown { cooldown_time, fired: Fired::NotBefore(0) }
    }

    /// A timer of the given interval that is first ready at `ready_at`.
    pub fn ready_at(cooldown_time: u64, ready_at: u64) -> (r: Cooldown)
        ensures
            r == Self::starting(cooldown_time, ready_at),
            r.interval() == cooldown_time,
            r.ready_from() == ready_at,
    {
        Cooldown { cooldown_time, fired: Fired::NotBefore(ready_at) }
    }

    /// Asks the timer at `time`. It answers yes exactly when it is ready, and
    /// has then fired at `time`; a timer that is not ready is left as it is.
    pub fn is_ready(&mut self, time: u64) -> (is_ready: bool)
        ensures
            is_ready == old(self).ready(time),
            *final(self) == old(self).asked(time),
    {
        let is_ready = match self.fired {
            Fired::NotBefore(t) => t <= time,
            Fired::At(t) => t <= time && time - t >= self.cooldown_time,
        };
        if is_ready {
            self.fired = Fired::At(time);
        }
        is_ready
    }
}

/// Two firings are at least one interval apart: where the timer fires at
/// `t1` and again at a later `t2`, then `t2 - t1` is no less than the
/// interval.
pub proof fn law_cooldown_floor(timer: Cooldown, t1: u64, t2: u64)
    requires
        t1 < t2,
    ensures
        timer.ready(t1) && timer.asked(t1).ready(t2) ==> t2 - t1 >= timer.interval(),
{
}

/// Asking changes a timer only where it fires. A timer that fires at `t`,
/// whatever `t` is, keeps its interval and is ready again exactly one
/// interval later, which may be after the last time the clock can show; a
/// timer that is not ready at `t` is left as it is.
pub proof fn law_cooldown_after_asking(timer: Cooldown, t: u64)
    ensures
        timer.ready(t) ==> timer.asked(t).interval() == timer.interval() && timer.asked(
            t,
        ).ready_from() == t + timer.interval(),
        !timer.ready(t) ==> timer.asked(t) == timer,
        timer.asked(t).ready(t) ==> timer.ready(t) && timer.interval() == 0,
{
}

/// A full turn, in microradians.
pub const TAU: i32 = 6_283_185;

/// How an entity fires.
pub enum FiresBullets {
    /// A fan of `num_bullets` bullets, `spread` microradians wide, centred on
    /// the bearing of a player.
    AtPlayer { num_bullets: u16, spread: i32, cooldown: Cooldown, setup: BulletSetup },
    /// A ring of `sides` bullets, turned by `rotation`; every volley turns
    /// the ring on by `rotation_per_fire`.
    Circle { sides: u16, rotation_per_fire: i32, rotation: i32, cooldown: Cooldown, setup: BulletSetup },
    /// `number_to_fire` bullets, `fired_at_once` per volley, sweeping through
    /// `spread` microradians from `initial_rotation`; then nothing more.
    Arc {
        initial_rotation: i32,
        spread: i32,
        fired_at_once: u16,
        number_to_fire: u16,
        fired_so_far: u16,
        cooldown: Cooldown,
        setup: BulletSetup,
    },
    /// All of these, one after the other.
    Multiple(Vec<FiresBullets>),
}

/// What a `FiresBullets` holds, with its list as a sequence.
pub enum Pattern {
    AtPlayer { num_bullets: u16, spread: i32, cooldown: Cooldown, setup: BulletSetup },
    Circle { sides: u16, rotation_per_fire: i32, rotation: i32, cooldown: Cooldown, setup: BulletSetup },
    Arc {
        initial_rotation: i32,
        spread: i32,
        fired_at_once: u16,
        number_to_fire: u16,
        fired_so_far: u16,
        cooldown: Cooldown,
        setup: BulletSetup,
    },
    Multiple(Seq<Pattern>),
}

/// The plain value of a firing pattern.
pub open spec fn pattern_of(fires: FiresBullets) -> Pattern
    decreases fires,
{
    match fires {
        FiresBullets::AtPlayer { num_bullets, spread, cooldown, setup } => Pattern::AtPlayer {
            num_bullets,
            spread,
            cooldown,
            setup,
        },
        FiresBullets::Circle { sides, rotation_per_fire, rotation, cooldown, setup } => Pattern::Circle {
            sides,
            rotation_per_fire,
            rotation,
            cooldown,
            setup,
        },
        FiresBullets::Arc {
            initial_rotation,
            spread,
            fired_at_once,
            number_to_fire,
            fired_so_far,
            cooldown,
            setup,
        } => Pattern::Arc {
            initial_rotation,
            spread,
            fired_at_once,
            number_to_fire,
            fired_so_far,
            cooldown,
            setup,
        },
        FiresBullets::Multiple(list) => Pattern::Multiple(
            Seq::new(
                list@.len(),
                |i: int|
                    if 0 <= i < list@.len() {
                        pattern_of(list@[i])
                    } else {
                        Pattern::Multiple(Seq::empty())
                    },
            ),
        ),
    }
}

impl View for FiresBullets {
    type V = Pattern;

    open spec fn view(&self) -> Pattern {
        pattern_of(*self)
    }
}

impl FiresBullets {
    /// A pattern equal to this one.
    pub fn duplicate(&self) -> (r: FiresBullets)
        ensures
            r@ == self@,
        decreases self,
    {
        match self {
            FiresBullets::AtPlayer { num_bullets, spread, cooldown, setup } => FiresBullets::AtPlayer {
                num_bullets: *num_bullets,
                spread: *spread,
                cooldown: *cooldown,
                setup: *setup,
            },
            FiresBullets::Circle {
                sides,
                rotation_per_fire,
                rotation,
                cooldown,
                setup,
            } => FiresBullets::Circle {
                sides: *sides,
                rotation_per_fire: *rotation_per_fire,
                rotation: *rotation,
                cooldown: *cooldown,
                setup: *setup,
            },
            FiresBullets::Arc {
                initial_rotation,
                spread,
                fired_at_once,
                number_to_fire,
                fired_so_far,
                cooldown,
                setup,
            } => FiresBullets::Arc {
                initial_rotation: *initial_rotation,
                spread: *spread,
                fired_at_once: *fired_at_once,
                number_to_fire: *number_to_fire,
                fired_so_far: *fired_so_far,
                cooldown: *cooldown,
                setup: *setup,
            },
            FiresBullets::Multiple(list) => {
                let mut copy: Vec<FiresBullets> = Vec::new();
                let mut i: usize = 0;
                while i < list.len()
                    invariant
                        i <= list.len(),
                        copy@.len() == i,
                        *self == FiresBullets::Multiple(*list),
                        forall|j: int| 0 <= j < i ==> (#[trigger] copy@[j])@ == list@[j]@,
                    decreases list.len() - i,
                {
                    proof {
                        vstd::std_specs::vec::axiom_vec_index_decreases(*list, i as int);
                        assert(self->Multiple_0 == *list);
                        assert(decreases_to!(*self => self->Multiple_0));
                    }
                    copy.push(list[i].duplicate());
                    i = i + 1;
                }
                let r = FiresBullets::Multiple(copy);
                proof {
                    lemma_same_patterns(r, *self);
                }
                r
            },
        }
    }
}

/// Two lists of patterns that agree item by item are the same pattern.
pub proof fn lemma_same_patterns(p: FiresBullets, q: FiresBullets)
    requires
        p is Multiple,
        q is Multiple,
        p->Multiple_0@.len() == q->Multiple_0@.len(),
        forall|j: int|
            0 <= j < p->Multiple_0@.len() ==> (#[trigger] p->Multiple_0@[j])@
                == q->Multiple_0@[j]@,
    ensures
        p@ == q@,
{
    assert(p@->Multiple_0 =~= q@->Multiple_0);
}

/// One phase of a boss: where it goes, how it fires there, and for how long.
pub struct BossMove {
    pub position: Vec2,
    pub duration: u64,
    pub fires: FiresBullets,
}

/// What a `BossMove` holds.
pub struct BossMoveView {
    pub position: Vec2,
    pub duration: u64,
    pub fires: Pattern,
}

impl View for BossMove {
    type V = BossMoveView;

    open spec fn view(&self) -> BossMoveView {
        BossMoveView { position: self.position, duration: self.duration, fires: self.fires@ }
    }
}

/// A boss: the phases it cycles through, the one it is in, how long it has
/// held that phase's position, and its health at the start.
pub struct Boss {
    pub max_health: u32,
    pub move_timer: u64,
    pub current_move: usize,
    pub moves: Vec<BossMove>,
}

/// What a `Boss` holds, with its phases as a sequence.
pub struct BossView {
    pub max_health: u32,
    pub move_timer: u64,
    pub current_move: usize,
    pub moves: Seq<BossMoveView>,
}

impl View for Boss {
    type V = BossView;

    open spec fn view(&self) -> BossView {
        BossView {
            max_health: self.max_health,
            move_timer: self.move_timer,
            current_move: self.current_move,
            moves: Seq::new(self.moves@.len(), |i: int| self.moves@[i]@),
        }
    }
}

impl Boss {
    /// The phase the boss is in.
    pub fn current_move(&self) -> (r: &BossMove)
        requires
            self.current_move < self.moves@.len(),
        ensures
            *r == self.moves@[self.current_move as int],
            r@ == self@.moves[self@.current_move as int],
    {
        &self.moves[self.current_move]
    }
}

/// How fast a boss flies to the position of its phase.
pub const BOSS_SPEED: i32 = 3413;

/// The phase after phase `current` of `n`: the next one, and the first after
/// the last.
pub open spec fn next_move(current: int, n: int) -> int {
    if current + 1 >= n {
        0
    } else {
        current + 1
    }
}

impl BossView {
    /// Whether the phase the boss is in is one of its phases.
    pub open spec fn wf(self) -> bool {
        self.current_move < self.moves.len() <= usize::MAX
    }

    /// The phase the boss is in.
    pub open spec fn phase(self) -> BossMoveView {
        self.moves[self.current_move as int]
    }

    /// The timer after one more tick at the position of the phase.
    pub open spec fn ticked(self) -> int {
        if self.move_timer + crate::TICK > u64::MAX {
            u64::MAX as int
        } else {
            self.move_timer + crate::TICK
        }
    }

    /// Whether one more tick at the position ends the phase.
    pub open spec fn expires(self) -> bool {
        self.ticked() >= self.phase().duration
    }

    /// The boss after one tick at the position of its phase: the timer has
    /// gone on; where it has reached the duration of the phase, the boss is
    /// in the next phase with the timer at nothing.
    pub open spec fn held(self) -> BossView {
        if self.expires() {
            BossView {
                move_timer: 0,
                current_move: next_move(self.current_move as int, self.moves.len() as int) as usize,
                ..self
            }
        } else {
            BossView { move_timer: self.ticked() as u64, ..self }
        }
    }

    /// The boss after `ticks` ticks at the position of its phase.
    pub open spec fn held_for(self, ticks: nat) -> BossView
        decreases ticks,
    {
        if ticks == 0 {
            self
        } else {
            self.held_for((ticks - 1) as nat).held()
        }
    }

    /// The boss after `phases` of its phases have ended.
    pub open spec fn advanced(self, phases: nat) -> BossView
        decreases phases,
    {
        if phases == 0 {
            self
        } else {
            let earlier = self.advanced((phases - 1) as nat);
            BossView {
                move_timer: 0,
                current_move: next_move(earlier.current_move as int, self.moves.len() as int) as usize,
                ..earlier
            }
        }
    }
}

/// A boss that has just come to the position of its phase stays in the phase
/// while the time it has held the position is short of the phase's
/// duration, and is in the next phase, with its timer at nothing, at the
/// first tick at which the duration is reached.
pub proof fn law_boss_holds_for_duration(boss: BossView, ticks: nat)
    requires
        boss.wf(),
        boss.move_timer == 0,
        ticks >= 1,
        (ticks - 1) * crate::TICK < boss.phase().duration,
    ensures
        ticks * crate::TICK < boss.phase().duration ==> boss.held_for(ticks) == (BossView {
            move_timer: (ticks * crate::TICK) as u64,
            ..boss
        }),
        ticks * crate::TICK >= boss.phase().duration ==> boss.held_for(ticks) == boss.advanced(
            1,
        ),
        boss.advanced(1).current_move == next_move(
            boss.current_move as int,
            boss.moves.len() as int,
        ),
        boss.advanced(1).move_timer == 0,
    decreases ticks,
{
    assert(boss.advanced(0) == boss);
    if ticks > 1 {
        law_boss_holds_for_duration(boss, (ticks - 1) as nat);
    } else {
        assert(boss.held_for(0) == boss);
    }
}

/// The phases go round: after as many phases have ended as the boss has, it
/// is in the phase it started from, and it never comes to rest.
pub proof fn law_boss_cycles(boss: BossView, phases: nat)
    requires
        boss.wf(),
        phases <= boss.moves.len(),
    ensures
        boss.advanced(phases).wf(),
        boss.advanced(phases).moves == boss.moves,
        boss.advanced(phases).current_move == if boss.current_move + phases < boss.moves.len() {
            boss.current_move + phases
        } else {
            boss.current_move + phases - boss.moves.len()
        },
        phases == boss.moves.len() ==> boss.advanced(phases).current_move == boss.current_move,
    decreases phases,
{
    if phases > 0 {
        law_boss_cycles(boss, (phases - 1) as nat);
    }
}

impl Boss {
    /// Lets one tick pass at the position of the phase, and says whether the
    /// phase has ended with it.
    pub fn hold(&mut self) -> (ended: bool)
        requires
            old(self).current_move < old(self).moves@.len(),
        ensures
            final(self)@ == old(self)@.held(),
            ended == old(self)@.expires(),
            final(self)@.wf(),
    {
        let n: usize = self.moves.len();
        self.move_timer = self.move_timer.saturating_add(crate::TICK);
        let ended = self.move_timer >= self.moves[self.current_move].duration;
        if ended {
            self.move_timer = 0;
            self.current_move = if self.current_move + 1 >= n {
                0
            } else {
                self.current_move + 1
            };
        }
        assert(self@.moves =~= old(self)@.moves);
        ended
    }
}

} // verus!
