//! What a firing pattern emits, and what it becomes by firing.

use vstd::prelude::*;
use crate::components::BulletSetup;
use crate::components::Pattern;
use crate::components::TAU;
use crate::math::Vec2;
use crate::resources::Aim;
use crate::resources::BulletToBeSpawned;

verus! {

/// The quotient of `a` by a positive `b`, rounded towards zero.
pub open spec fn tdiv(a: int, b: int) -> int {
    if a >= 0 {
        a / b
    } else {
        -((-a) / b)
    }
}

/// The quotient of `a` by `b`, rounded towards zero.
pub fn div_towards_zero(a: i64, b: u32) -> (q: i64)
    requires
        b > 0,
    ensures
        q == tdiv(a as int, b as int),
        -(a as int) <= q <= a || a <= q <= -(a as int),
{
    let wide: i128 = div_wide_towards_zero(a as i128, b as u64);
    if a == i64::MIN && b == 1 {
        i64::MIN
    } else {
        assert(wide > i64::MIN) by {
            if a == i64::MIN {
                assert((-(a as int)) / (b as int) <= (-(a as int)) / 2) by (nonlinear_arith)
                    requires
                        -(a as int) >= 0,
                        b >= 2,
                ;
            }
        }
        wide as i64
    }
}

/// The quotient of a wide `a` by `b`, rounded towards zero.
pub fn div_wide_towards_zero(a: i128, b: u64) -> (q: i128)
    requires
        b > 0,
    ensures
        q == tdiv(a as int, b as int),
        -(a as int) <= q <= a || a <= q <= -(a as int),
{
    if a >= 0 {
        let q: u128 = (a as u128) / (b as u128);
        q as i128
    } else if a == i128::MIN {
        let q: u128 = 0x8000_0000_0000_0000_0000_0000_0000_0000u128 / (b as u128);
        if b == 1 {
            i128::MIN
        } else {
            assert(q <= 0x4000_0000_0000_0000_0000_0000_0000_0000u128) by (nonlinear_arith)
                requires
                    q == 0x8000_0000_0000_0000_0000_0000_0000_0000u128 / (b as u128),
                    b >= 2,
            ;
            -(q as i128)
        }
    } else {
        let q: u128 = ((-a) as u128) / (b as u128);
        -(q as i128)
    }
}

/// Bullet `i` of a fan of `n` aimed at `target`: the fan is `spread` wide in
/// all and lies evenly about the bearing of the target.
pub open spec fn fan_shot(pos: Vec2, target: Vec2, i: int, n: int, spread: int, setup: BulletSetup) -> BulletToBeSpawned {
    BulletToBeSpawned {
        pos,
        image: setup.image,
        speed: setup.speed,
        aim: Aim::Towards { target, offset: tdiv(spread * (n - 1 - 2 * i), 2 * n) as i64 },
        colour: setup.colour,
        enemy: true,
    }
}

/// Bullet `side` of a ring of `sides`, the ring being turned by `rotation`.
pub open spec fn ring_shot(pos: Vec2, side: int, sides: int, rotation: int, setup: BulletSetup) -> BulletToBeSpawned {
    BulletToBeSpawned {
        pos,
        image: setup.image,
        speed: setup.speed,
        aim: Aim::Heading((tdiv(TAU * side, sides) + rotation) as i64),
        colour: setup.colour,
        enemy: true,
    }
}

/// Bullet number `fired` of an arc of `total` that sweeps through `spread`
/// from `initial`.
pub open spec fn arc_shot(pos: Vec2, fired: int, total: int, initial: int, spread: int, setup: BulletSetup) -> BulletToBeSpawned {
    BulletToBeSpawned {
        pos,
        image: setup.image,
        speed: setup.speed,
        aim: Aim::Heading((initial + tdiv(spread * fired, total)) as i64),
        colour: setup.colour,
        enemy: true,
    }
}

/// How many bullets an arc fires in a volley: `at_once`, and no more than
/// are left of `total` after `so_far`.
pub open spec fn arc_volley_size(at_once: int, total: int, so_far: int) -> int {
    if so_far >= total {
        0
    } else if total - so_far < at_once {
        total - so_far
    } else {
        at_once
    }
}

/// How many fans aimed at a player the pattern holds; each takes one target
/// per volley.
pub open spec fn leaves(p: Pattern) -> nat
    decreases p, 0nat,
{
    match p {
        Pattern::AtPlayer { .. } => 1,
        Pattern::Multiple(list) => leaves_of(list, list.len()),
        _ => 0,
    }
}

/// How many fans aimed at a player the first `n` patterns of `list` hold.
pub open spec fn leaves_of(list: Seq<Pattern>, n: nat) -> nat
    decreases list, n,
{
    if n == 0 || n > list.len() {
        0
    } else {
        leaves_of(list, (n - 1) as nat) + leaves(list[n - 1])
    }
}

/// The pattern after it was handled at `time`. A part whose timer is ready
/// fires: a ring turns on by its turn per volley, the sum saturating, and an
/// arc counts what it fired. A part whose timer is not ready stays as it is.
pub open spec fn fired(p: Pattern, time: u64) -> Pattern
    decreases p,
{
    match p {
        Pattern::AtPlayer { num_bullets, spread, cooldown, setup } => Pattern::AtPlayer {
            num_bullets,
            spread,
            cooldown: cooldown.asked(time),
            setup,
        },
        Pattern::Circle { sides, rotation_per_fire, rotation, cooldown, setup } => Pattern::Circle {
            sides,
            rotation_per_fire,
            rotation: if cooldown.ready(time) {
                crate::math::saturate(rotation + rotation_per_fire) as i32
            } else {
                rotation
            },
            cooldown: cooldown.asked(time),
            setup,
        },
        Pattern::Arc {
            initial_rotation,
            spread,
            fired_at_once,
            number_to_fire,
            fired_so_far,
            cooldown,
            setup,
        } => Pattern::Arc {
            initial_rotation,
            spread,
            fired_at_once,
            number_to_fire,
            fired_so_far: if cooldown.ready(time) {
                (fired_so_far + arc_volley_size(
                    fired_at_once as int,
                    number_to_fire as int,
                    fired_so_far as int,
                )) as u16
            } else {
                fired_so_far
            },
            cooldown: cooldown.asked(time),
            setup,
        },
        Pattern::Multiple(list) => Pattern::Multiple(
            Seq::new(
                list.len(),
                |i: int|
                    if 0 <= i < list.len() {
                        fired(list[i], time)
                    } else {
                        Pattern::Multiple(Seq::empty())
                    },
            ),
        ),
    }
}

/// The bullets the pattern asks for when it is handled at `time` by an entity
/// at `pos`. The fans aimed at a player take their targets from `targets`,
/// the first fan the one at `start`, whether they fire or not.
pub open spec fn volley(p: Pattern, time: u64, pos: Vec2, targets: Seq<Vec2>, start: int) -> Seq<BulletToBeSpawned>
    decreases p, 0nat,
{
    match p {
        Pattern::AtPlayer { num_bullets, spread, cooldown, setup } => if cooldown.ready(time) && 0
            <= start < targets.len() {
            Seq::new(
                num_bullets as nat,
                |i: int| fan_shot(pos, targets[start], i, num_bullets as int, spread as int, setup),
            )
        } else {
            Seq::empty()
        },
        Pattern::Circle { sides, rotation, cooldown, setup, .. } => if cooldown.ready(time) {
            Seq::new(
                sides as nat,
                |side: int| ring_shot(pos, side, sides as int, rotation as int, setup),
            )
        } else {
            Seq::empty()
        },
        Pattern::Arc {
            initial_rotation,
            spread,
            fired_at_once,
            number_to_fire,
            fired_so_far,
            cooldown,
            setup,
        } => if cooldown.ready(time) {
            Seq::new(
                arc_volley_size(
                    fired_at_once as int,
                    number_to_fire as int,
                    fired_so_far as int,
                ) as nat,
                |j: int|
                    arc_shot(
                        pos,
                        fired_so_far + j,
                        number_to_fire as int,
                        initial_rotation as int,
                        spread as int,
                        setup,
                    ),
            )
        } else {
            Seq::empty()
        },
        Pattern::Multiple(list) => volley_of(list, list.len(), time, pos, targets, start),
    }
}

/// The bullets the first `n` patterns of `list` ask for, one pattern after
/// the other.
pub open spec fn volley_of(
    list: Seq<Pattern>,
    n: nat,
    time: u64,
    pos: Vec2,
    targets: Seq<Vec2>,
    start: int,
) -> Seq<BulletToBeSpawned>
    decreases list, n,
{
    if n == 0 || n > list.len() {
        Seq::empty()
    } else {
        volley_of(list, (n - 1) as nat, time, pos, targets, start) + volley(
            list[n - 1],
            time,
            pos,
            targets,
            start + leaves_of(list, (n - 1) as nat),
        )
    }
}

/// The pattern after it was handled at each of the times of `ticks` in turn.
pub open spec fn after_ticks(p: Pattern, ticks: Seq<u64>) -> Pattern
    decreases ticks.len(),
{
    if ticks.len() == 0 {
        p
    } else {
        fired(after_ticks(p, ticks.drop_last()), ticks.last())
    }
}

/// How many bullets an arc asks for in all when it is handled at each of the
/// times of `ticks` in turn.
pub open spec fn arc_shots_over(p: Pattern, ticks: Seq<u64>, pos: Vec2) -> nat
    decreases ticks.len(),
{
    if ticks.len() == 0 {
        0
    } else {
        arc_shots_over(p, ticks.drop_last(), pos) + volley(
            after_ticks(p, ticks.drop_last()),
            ticks.last(),
            pos,
            Seq::empty(),
            0,
        ).len()
    }
}

/// At how many of the times of `ticks` the arc's timer is ready, the arc
/// being handled at each in turn.
pub open spec fn arc_firings(p: Pattern, ticks: Seq<u64>) -> nat
    decreases ticks.len(),
{
    if ticks.len() == 0 {
        0
    } else {
        arc_firings(p, ticks.drop_last()) + if after_ticks(
            p,
            ticks.drop_last(),
        )->Arc_cooldown.ready(ticks.last()) {
            1nat
        } else {
            0nat
        }
    }
}

/// An arc that has `left` bullets to go fires `fired_at_once` of them each
/// time its timer is ready until none is left, and nothing after that: over
/// any run of ticks, what it asks for in all is the number of firings times
/// `fired_at_once`, and no more than `left`. It is exhausted after the
/// firings that this takes, whatever the ticks in between.
pub proof fn law_arc_exhausts(p: Pattern, ticks: Seq<u64>, pos: Vec2)
    requires
        p is Arc,
        p->Arc_fired_so_far <= p->Arc_number_to_fire,
    ensures
        after_ticks(p, ticks) is Arc,
        after_ticks(p, ticks)->Arc_number_to_fire == p->Arc_number_to_fire,
        after_ticks(p, ticks)->Arc_fired_at_once == p->Arc_fired_at_once,
        arc_shots_over(p, ticks, pos) == if arc_firings(p, ticks) * p->Arc_fired_at_once
            >= p->Arc_number_to_fire - p->Arc_fired_so_far {
            p->Arc_number_to_fire - p->Arc_fired_so_far
        } else {
            arc_firings(p, ticks) * p->Arc_fired_at_once
        },
        after_ticks(p, ticks)->Arc_fired_so_far == p->Arc_fired_so_far + arc_shots_over(
            p,
            ticks,
            pos,
        ),
    decreases ticks.len(),
{
    if ticks.len() == 0 {
        let g = arc_firings(p, ticks) as int;
        let k = p->Arc_fired_at_once as int;
        assert(g * k == 0) by (nonlinear_arith)
            requires
                g == 0,
        ;
    } else {
        let earlier = ticks.drop_last();
        law_arc_exhausts(p, earlier, pos);
        let f = arc_firings(p, earlier) as int;
        let k = p->Arc_fired_at_once as int;
        let total = p->Arc_number_to_fire as int;
        let prev = after_ticks(p, earlier);
        let so_far = prev->Arc_fired_so_far as int;
        let shots = volley(prev, ticks.last(), pos, Seq::empty(), 0);
        assert((f + 1) * k == f * k + k) by (nonlinear_arith);
        assert(f * k >= 0) by (nonlinear_arith)
            requires
                f >= 0,
                k >= 0,
        ;
        assert(so_far <= total);
        let size = arc_volley_size(k, total, so_far);
        assert(0 <= size && so_far + size <= total);
        let g = arc_firings(p, ticks) as int;
        if prev->Arc_cooldown.ready(ticks.last()) {
            assert(shots.len() == size);
            assert(fired(prev, ticks.last())->Arc_fired_so_far == so_far + size);
            assert(g == f + 1);
            assert(g * k == f * k + k) by (nonlinear_arith)
                requires
                    g == f + 1,
            ;
        } else {
            assert(g == f);
            assert(g * k == f * k) by (nonlinear_arith)
                requires
                    g == f,
            ;
            assert(shots.len() == 0);
            assert(fired(prev, ticks.last())->Arc_fired_so_far == so_far);
        }
    }
}

} // verus!
