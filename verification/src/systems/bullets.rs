//! Firing, contact and damage.

use rand::rngs::ThreadRng;
use vstd::prelude::*;
use crate::components::BulletSetup;
use crate::components::Circle;
use crate::components::CollidesWithBomb;
use crate::components::Enemy;
use crate::components::Explosion;
use crate::components::FiresBullets;
use crate::components::Pattern;
use crate::components::TAU;
use crate::components::BeenOnscreen;
use crate::firing::arc_shot;
use crate::firing::arc_volley_size;
use crate::firing::div_towards_zero;
use crate::firing::fan_shot;
use crate::firing::fired;
use crate::firing::leaves;
use crate::firing::leaves_of;
use crate::firing::ring_shot;
use crate::firing::volley;
use crate::firing::volley_of;
use crate::resources::Aim;
use crate::resources::BulletSpawner;
use crate::resources::BulletToBeSpawned;
use crate::resources::PlayerPositions;
use crate::components::Friendly;
use crate::components::FrozenUntil;
use crate::components::Health;
use crate::components::Hitbox;
use crate::components::Image;
use crate::components::Invulnerability;
use crate::components::Movement;
use crate::components::Position;
use crate::components::PowerOrb;
use crate::components::DieOffscreen;
use crate::graphics::Image as GraphicsImage;
use crate::lazy::Component;
use crate::lazy::ComponentView;
use crate::lazy::LazyUpdate;
use crate::math::Vec2;
use crate::random::gen_range;
use crate::random::thread_rng;
use crate::resources::Damage;
use crate::resources::DamageTracker;
use crate::resources::GameTime;
use crate::storage::alive_in;
use crate::storage::Entities;
use crate::storage::Entity;
use crate::storage::Life;
use crate::storage::Slot;
use crate::storage::Storage;
use crate::systems::is_touching;
use crate::systems::touching;
use crate::systems::build_explosion;
use crate::systems::explosion_blueprint;
use crate::storage::swept;
use crate::world::bundle_of;
use crate::world::given;
use crate::world::lemma_made_in;
use crate::world::lemma_spawned_keeps;
use crate::world::made_in;
use crate::world::no_components;
use crate::world::slot_of;
use crate::world::spawned;
use crate::world::synced;
use crate::world::Bundle;

verus! {

/// What contact detection reads: who is alive, where, with what box, on
/// which side, and who is frozen.
pub struct Bodies {
    pub entities: Seq<Slot>,
    pub pos: Map<int, Position>,
    pub hitbox: Map<int, Hitbox>,
    pub friendly: Map<int, Friendly>,
    pub enemy: Map<int, Enemy>,
    pub frozen: Map<int, FrozenUntil>,
}

impl Bodies {
    /// Whether slot `i` holds a living friendly entity with a position and a
    /// box.
    pub open spec fn friendly_body(self, i: int) -> bool {
        alive_in(self.entities, i) && self.pos.dom().contains(i) && self.hitbox.dom().contains(i)
            && self.friendly.dom().contains(i)
    }

    /// Whether slot `j` holds a living enemy entity with a position and a
    /// box, not frozen.
    pub open spec fn enemy_body(self, j: int) -> bool {
        alive_in(self.entities, j) && self.pos.dom().contains(j) && self.hitbox.dom().contains(j)
            && self.enemy.dom().contains(j) && !self.frozen.dom().contains(j)
    }

    /// The handle of the entity in slot `i`.
    pub open spec fn handle(self, i: int) -> Entity {
        Entity { index: i as usize, generation: self.entities[i].generation }
    }

    /// The contact between the friendly entity in slot `i` and the enemy in
    /// slot `j`, if they are such and touch.
    pub open spec fn contact(self, i: int, j: int) -> Option<Damage> {
        if self.friendly_body(i) && self.enemy_body(j) {
            match touching(self.pos[i].0, self.hitbox[i].0, self.pos[j].0, self.hitbox[j].0) {
                Some(position) => Some(
                    Damage { friendly: self.handle(i), enemy: self.handle(j), position },
                ),
                None => None,
            }
        } else {
            None
        }
    }

    /// The contacts of the friendly entity in slot `i` with the enemies in
    /// the slots below `m`, by rising slot.
    pub open spec fn row(self, i: int, m: int) -> Seq<Damage>
        decreases m,
    {
        if m <= 0 {
            Seq::empty()
        } else {
            match self.contact(i, m - 1) {
                Some(d) => self.row(i, m - 1).push(d),
                None => self.row(i, m - 1),
            }
        }
    }

    /// The contacts of the friendly entities in the slots below `n`, by
    /// rising slot of the friendly entity and then of the enemy.
    pub open spec fn rows(self, n: int) -> Seq<Damage>
        decreases n,
    {
        if n <= 0 {
            Seq::empty()
        } else {
            self.rows(n - 1) + self.row(n - 1, self.entities.len() as int)
        }
    }

    /// Every contact of the frame.
    pub open spec fn contacts(self) -> Seq<Damage> {
        self.rows(self.entities.len() as int)
    }

    /// A slot without a friendly body has no contacts.
    pub proof fn lemma_row_empty(self, i: int, m: int)
        requires
            !self.friendly_body(i),
        ensures
            self.row(i, m) == Seq::<Damage>::empty(),
        decreases m,
    {
        if m > 0 {
            self.lemma_row_empty(i, m - 1);
        }
    }
}

/// Whether the friendly entity in slot `i` and the enemy in slot `j` are
/// the only bodies of their sides, and touch.
pub open spec fn lone_pair(bodies: Bodies, i: int, j: int) -> bool {
    &&& bodies.contact(i, j) is Some
    &&& forall|k: int| k != i ==> !#[trigger] bodies.friendly_body(k)
    &&& forall|k: int| k != j ==> !#[trigger] bodies.enemy_body(k)
}

/// The contacts of the friendly entity of a lone pair with the enemies in
/// the slots below `m`: the one contact once `m` is past the enemy.
proof fn lemma_lone_row(bodies: Bodies, i: int, j: int, m: int)
    requires
        lone_pair(bodies, i, j),
    ensures
        bodies.row(i, m) == if m > j {
            seq![bodies.contact(i, j)->0]
        } else {
            Seq::<Damage>::empty()
        },
    decreases m,
{
    if m > 0 {
        lemma_lone_row(bodies, i, j, m - 1);
        if m - 1 != j {
            assert(!bodies.enemy_body(m - 1));
        } else {
            assert(Seq::<Damage>::empty().push(bodies.contact(i, j)->0) =~= seq![
                bodies.contact(i, j)->0,
            ]);
        }
    }
}

/// The contacts of the friendly entities in the slots below `n`, for a lone
/// pair: the one contact once `n` is past the friendly entity.
proof fn lemma_lone_rows(bodies: Bodies, i: int, j: int, n: int)
    requires
        lone_pair(bodies, i, j),
        n <= bodies.entities.len(),
    ensures
        bodies.rows(n) == if n > i {
            seq![bodies.contact(i, j)->0]
        } else {
            Seq::<Damage>::empty()
        },
    decreases n,
{
    if n > 0 {
        lemma_lone_rows(bodies, i, j, n - 1);
        let len = bodies.entities.len() as int;
        if n - 1 == i {
            lemma_lone_row(bodies, i, j, len);
            assert(Seq::<Damage>::empty() + seq![bodies.contact(i, j)->0] =~= seq![
                bodies.contact(i, j)->0,
            ]);
        } else {
            assert(!bodies.friendly_body(n - 1));
            bodies.lemma_row_empty(n - 1, len);
            assert(bodies.rows(n - 1) + Seq::<Damage>::empty() =~= bodies.rows(n - 1));
        }
    }
}

/// One pair, one contact, one hit each. Where a friendly entity and an
/// enemy are the only bodies of their sides and touch, the frame finds
/// exactly their contact; and where a hit lands on either, resolving the
/// frame costs each of them exactly one hit and asks for one blast.
pub proof fn law_lone_pair_costs_one_hit_each(
    bodies: Bodies,
    fight: Fight,
    i: int,
    j: int,
    roll: CollisionRoll,
    time: u64,
)
    requires
        lone_pair(bodies, i, j),
        fight.entities == bodies.entities,
        fight.lands(bodies.handle(i), time),
        fight.lands(bodies.handle(j), time),
        i != j,
        i <= usize::MAX,
        j <= usize::MAX,
    ensures
        bodies.contacts() == seq![bodies.contact(i, j)->0],
        fight.resolved(bodies.contacts(), seq![roll], time).health[i] == fight.health[i].hit(),
        fight.resolved(bodies.contacts(), seq![roll], time).health[j] == fight.health[j].hit(),
        fight.resolved(bodies.contacts(), seq![roll], time).queue.len() >= fight.queue.len() + 1,
        fight.resolved(bodies.contacts(), seq![roll], time).queue[fight.queue.len() as int]
            == explosion_blueprint(
            roll.jittered((bodies.contact(i, j)->0).position),
            time,
        ),
{
    lemma_lone_rows(bodies, i, j, bodies.entities.len() as int);
    let d = bodies.contact(i, j)->0;
    let contacts = seq![d];
    let rolls = seq![roll];
    assert(contacts.drop_last() =~= Seq::<Damage>::empty());
    assert(rolls.drop_last() =~= Seq::<CollisionRoll>::empty());
    assert(fight.resolved(contacts.drop_last(), rolls.drop_last(), time) == fight);
    assert(fight.resolved(contacts, rolls, time) == fight.struck(d, roll, time));
    Invulnerability::lemma_hit_at(time);
}

/// Finds the contacts between the two sides.
pub struct Collisions;

impl Collisions {
    /// Adds every contact between a friendly entity and an enemy that is not
    /// frozen to the list, by rising slot of the friendly entity and then of
    /// the enemy. Nothing else changes.
    pub fn run(
        &mut self,
        entities: &Entities,
        pos: &Storage<Position>,
        friendly: &Storage<Friendly>,
        enemy: &Storage<Enemy>,
        hitbox: &Storage<Hitbox>,
        frozen: &Storage<FrozenUntil>,
        damage_tracker: &mut DamageTracker,
    )
        ensures
            final(damage_tracker).0@ == old(damage_tracker).0@ + (Bodies {
                entities: entities@,
                pos: pos@,
                hitbox: hitbox@,
                friendly: friendly@,
                enemy: enemy@,
                frozen: frozen@,
            }).contacts(),
    {
        let ghost bodies = Bodies {
            entities: entities@,
            pos: pos@,
            hitbox: hitbox@,
            friendly: friendly@,
            enemy: enemy@,
            frozen: frozen@,
        };
        let n: usize = entities.len();
        let mut i: usize = 0;
        while i < n
            invariant
                i <= n,
                n == entities@.len(),
                bodies == (Bodies {
                    entities: entities@,
                    pos: pos@,
                    hitbox: hitbox@,
                    friendly: friendly@,
                    enemy: enemy@,
                    frozen: frozen@,
                }),
                damage_tracker.0@ == old(damage_tracker).0@ + bodies.rows(i as int),
            decreases n - i,
        {
            let ghost before = damage_tracker.0@;
            let mut is_body = false;
            if let Some(f_entity) = entities.entity_at(i) {
                if friendly.contains(i) {
                    if let Some(f_pos) = pos.get(i) {
                        if let Some(f_hitbox) = hitbox.get(i) {
                            is_body = true;
                            let mut j: usize = 0;
                            while j < n
                                invariant
                                    j <= n,
                                    i < n,
                                    n == entities@.len(),
                                    bodies == (Bodies {
                                        entities: entities@,
                                        pos: pos@,
                                        hitbox: hitbox@,
                                        friendly: friendly@,
                                        enemy: enemy@,
                                        frozen: frozen@,
                                    }),
                                    bodies.friendly_body(i as int),
                                    f_entity == bodies.handle(i as int),
                                    *f_pos == pos@[i as int],
                                    *f_hitbox == hitbox@[i as int],
                                    damage_tracker.0@ == before + bodies.row(i as int, j as int),
                                decreases n - j,
                            {
                                if let Some(e_entity) = entities.entity_at(j) {
                                    if enemy.contains(j) && !frozen.contains(j) {
                                        if let Some(e_pos) = pos.get(j) {
                                            if let Some(e_hitbox) = hitbox.get(j) {
                                                if let Some(hit_pos) = is_touching(
                                                    f_pos.0,
                                                    f_hitbox.0,
                                                    e_pos.0,
                                                    e_hitbox.0,
                                                ) {
                                                    damage_tracker.0.push(
                                                        Damage {
                                                            friendly: f_entity,
                                                            enemy: e_entity,
                                                            position: hit_pos,
                                                        },
                                                    );
                                                }
                                            }
                                        }
                                    }
                                }
                                j = j + 1;
                            }
                        }
                    }
                }
            }
            proof {
                if !is_body {
                    bodies.lemma_row_empty(i as int, n as int);
                }
            }
            i = i + 1;
        }
    }
}

/// What damage reads and writes: who is alive, the health and the shields of
/// the entities, and the entities asked for.
pub struct Fight {
    pub entities: Seq<Slot>,
    pub health: Map<int, Health>,
    pub invul: Map<int, Invulnerability>,
    pub queue: Seq<Seq<ComponentView>>,
}

/// Whether a slot index and a generation name a living entity.
pub open spec fn living(entities: Seq<Slot>, e: Entity) -> bool {
    alive_in(entities, e.index as int) && entities[e.index as int].generation == e.generation
}

impl Fight {
    /// Whether a hit on `e` at `time` lands: `e` is alive, has health, and
    /// its shield, if it has one, is down.
    pub open spec fn lands(self, e: Entity, time: u64) -> bool {
        let i = e.index as int;
        living(self.entities, e) && self.health.dom().contains(i) && (self.invul.dom().contains(i)
            ==> !self.invul[i].invul_at(time))
    }

    /// Whether a hit on `e` at `time` lands and leaves no health.
    pub open spec fn fells(self, e: Entity, time: u64) -> bool {
        self.lands(e, time) && self.health[e.index as int].hit().0 == 0
    }

    /// The world after a hit on `e` was tried at `time`. A hit that lands
    /// takes one from the health, never going below nothing, and is
    /// remembered by the shield; the entity is deleted when no health is left.
    /// A hit on an entity that is not alive or has no health changes nothing.
    pub open spec fn hurt(self, e: Entity, time: u64) -> Fight {
        let i = e.index as int;
        if self.lands(e, time) {
            Fight {
                entities: if self.fells(e, time) {
                    self.entities.update(
                        i,
                        Slot { generation: e.generation, life: Life::Killed },
                    )
                } else {
                    self.entities
                },
                health: self.health.insert(i, self.health[i].hit()),
                invul: if self.invul.dom().contains(i) {
                    self.invul.insert(i, self.invul[i].tried(time))
                } else {
                    self.invul
                },
                queue: self.queue,
            }
        } else {
            self
        }
    }

    /// The world after one contact was resolved at `time` with the given
    /// rolls. The friendly side is hit first. Only where that hit lands is
    /// the enemy hit too and a blast shown, at the contact moved by the
    /// jitter; and only where the enemy is felled and the roll allows does it
    /// drop an orb.
    pub open spec fn struck(self, d: Damage, roll: CollisionRoll, time: u64) -> Fight {
        if self.lands(d.friendly, time) {
            let first = self.hurt(d.friendly, time);
            let second = first.hurt(d.enemy, time);
            let at = roll.jittered(d.position);
            let blast = second.queue.push(explosion_blueprint(at, time));
            Fight {
                queue: if first.fells(d.enemy, time) && roll.drops() {
                    blast.push(roll.orb_blueprint(at))
                } else {
                    blast
                },
                ..second
            }
        } else {
            self
        }
    }

    /// The world after the contacts were resolved in order, each with the
    /// roll of the same place.
    pub open spec fn resolved(self, contacts: Seq<Damage>, rolls: Seq<CollisionRoll>, time: u64) -> Fight
        decreases contacts.len(),
    {
        if contacts.len() == 0 || rolls.len() != contacts.len() {
            self
        } else {
            self.resolved(contacts.drop_last(), rolls.drop_last(), time).struck(
                contacts.last(),
                rolls.last(),
                time,
            )
        }
    }
}

/// The chance that goes into resolving one contact.
#[derive(Clone, Copy, Debug, PartialEq, Eq, Structural)]
pub struct CollisionRoll {
    /// Shifts the blast sideways: 0 is five units to the left.
    pub jitter_x: u32,
    /// Shifts the blast up or down: 0 is five units up.
    pub jitter_y: u32,
    /// Whether a felled enemy drops an orb: from 600 on it does.
    pub drop: u32,
    /// Whether the orb is a big one: from 900 on it is.
    pub size: u32,
}

impl CollisionRoll {
    /// Whether each roll is one that the dice can show.
    pub open spec fn fair(self) -> bool {
        self.jitter_x < 10240 && self.jitter_y < 10240 && self.drop < 1000 && self.size < 1000
    }

    /// The contact point moved by the jitter, less than five units each way.
    pub open spec fn jittered(self, p: Vec2) -> Vec2 {
        p.plus(
            Vec2 {
                x: crate::math::saturate(self.jitter_x - 5120) as i32,
                y: crate::math::saturate(self.jitter_y - 5120) as i32,
            },
        )
    }

    /// Whether a felled enemy drops an orb.
    pub open spec fn drops(self) -> bool {
        self.drop >= 600
    }

    /// The components of the orb that is dropped at `at`.
    pub open spec fn orb_blueprint(self, at: Vec2) -> Seq<ComponentView> {
        seq![
            ComponentView::Position(Position(at)),
            ComponentView::PowerOrb(
                PowerOrb(
                    if self.size >= 900 {
                        5
                    } else {
                        1
                    },
                ),
            ),
            ComponentView::Movement(Movement::Falling { speed: 0, down: true }),
            ComponentView::Image(
                Image(
                    if self.size >= 900 {
                        GraphicsImage::BigOrb.code()
                    } else {
                        GraphicsImage::Orb.code()
                    },
                ),
            ),
            ComponentView::Hitbox(Hitbox(Vec2 { x: 51200, y: 51200 })),
            ComponentView::DieOffscreen(DieOffscreen),
        ]
    }

    /// The contact point moved by the jitter.
    pub fn jitter(&self, p: Vec2) -> (r: Vec2)
        ensures
            r == self.jittered(p),
    {
        p.add(
            Vec2 {
                x: crate::math::narrow(self.jitter_x as i64 - 5120),
                y: crate::math::narrow(self.jitter_y as i64 - 5120),
            },
        )
    }

    /// Asks for the orb that is dropped at `at`.
    pub fn drop_orb(&self, updater: &mut LazyUpdate, at: Vec2)
        ensures
            final(updater)@ == old(updater)@.push(self.orb_blueprint(at)),
    {
        let big = self.size >= 900;
        let value: u32 = if big {
            5
        } else {
            1
        };
        let image = if big {
            GraphicsImage::BigOrb
        } else {
            GraphicsImage::Orb
        };
        let builder = updater.create_entity().with(Component::Position(Position(at))).with(
            Component::PowerOrb(PowerOrb(value)),
        ).with(Component::Movement(Movement::Falling { speed: 0, down: true })).with(
            Component::Image(Image::from(image)),
        ).with(Component::Hitbox(Hitbox(Vec2 { x: 51200, y: 51200 }))).with(
            Component::DieOffscreen(DieOffscreen),
        );
        assert(builder@ =~= self.orb_blueprint(at));
        builder.build(updater);
    }

    /// Rolls the dice for one contact.
    pub fn roll(rng: &mut ThreadRng) -> (r: CollisionRoll)
        ensures
            r.fair(),
    {
        let jitter_x: u64 = gen_range(rng, 0, 10240);
        let jitter_y: u64 = gen_range(rng, 0, 10240);
        let drop: u64 = gen_range(rng, 0, 1000);
        let size: u64 = gen_range(rng, 0, 1000);
        CollisionRoll {
            jitter_x: jitter_x as u32,
            jitter_y: jitter_y as u32,
            drop: drop as u32,
            size: size as u32,
        }
    }
}

/// Tries a hit on `entity` at `time` and says whether it landed and whether
/// it felled the entity.
pub fn damage_entity(
    entity: Entity,
    entities: &mut Entities,
    health: &mut Storage<Health>,
    invul: &mut Storage<Invulnerability>,
    time: u64,
) -> (r: (bool, bool))
    ensures
        ({
            let before = Fight {
                entities: old(entities)@,
                health: old(health)@,
                invul: old(invul)@,
                queue: Seq::empty(),
            };
            let after = Fight {
                entities: final(entities)@,
                health: final(health)@,
                invul: final(invul)@,
                queue: Seq::empty(),
            };
            &&& after == before.hurt(entity, time)
            &&& r.0 == before.lands(entity, time)
            &&& r.1 == before.fells(entity, time)
        }),
{
    let ghost before = Fight {
        entities: entities@,
        health: health@,
        invul: invul@,
        queue: Seq::empty(),
    };
    let (mut triggered_invul, mut dead) = (false, false);
    if !entities.is_alive(entity) {
        return (false, false);
    }
    if let Some(health) = health.get_mut(entity.index) {
        triggered_invul = match invul.get_mut(entity.index) {
            Some(invul) => invul.can_damage(time),
            None => true,
        };
        if triggered_invul {
            dead = health.damage();
            if dead {
                let _ = entities.delete(entity);
            }
        }
    }
    proof {
        let after = before.hurt(entity, time);
        assert(health@ =~= after.health);
        assert(invul@ =~= after.invul);
        assert(entities@ =~= after.entities);
    }
    (triggered_invul, dead)
}

/// Resolves the contacts that were found.
pub struct ApplyCollisions;

impl ApplyCollisions {
    /// Resolves the contacts in order, each with the roll of the same place,
    /// and empties the list.
    pub fn resolve(
        &mut self,
        entities: &mut Entities,
        damage_tracker: &mut DamageTracker,
        time: &GameTime,
        health: &mut Storage<Health>,
        invul: &mut Storage<Invulnerability>,
        updater: &mut LazyUpdate,
        rolls: &Vec<CollisionRoll>,
    )
        requires
            rolls@.len() == old(damage_tracker).0@.len(),
        ensures
            final(damage_tracker).0@ == Seq::<Damage>::empty(),
            (Fight {
                entities: final(entities)@,
                health: final(health)@,
                invul: final(invul)@,
                queue: final(updater)@,
            }) == (Fight {
                entities: old(entities)@,
                health: old(health)@,
                invul: old(invul)@,
                queue: old(updater)@,
            }).resolved(old(damage_tracker).0@, rolls@, time.total_time),
    {
        let ghost start = Fight {
            entities: entities@,
            health: health@,
            invul: invul@,
            queue: updater@,
        };
        let ghost contacts = damage_tracker.0@;
        let n: usize = damage_tracker.0.len();
        let now: u64 = time.total_time;
        let mut i: usize = 0;
        while i < n
            invariant
                i <= n,
                n == contacts.len(),
                n == rolls@.len(),
                damage_tracker.0@ == contacts,
                now == time.total_time,
                (Fight {
                    entities: entities@,
                    health: health@,
                    invul: invul@,
                    queue: updater@,
                }) == start.resolved(contacts.take(i as int), rolls@.take(i as int), now),
            decreases n - i,
        {
            let damage = damage_tracker.0[i];
            let roll = rolls[i];
            let ghost before = Fight {
                entities: entities@,
                health: health@,
                invul: invul@,
                queue: updater@,
            };
            let (player_triggered_invul, _) = damage_entity(
                damage.friendly,
                entities,
                health,
                invul,
                now,
            );
            if player_triggered_invul {
                let (_, enemy_dead) = damage_entity(damage.enemy, entities, health, invul, now);
                let hit_pos = roll.jitter(damage.position);
                build_explosion(updater, hit_pos, now);
                if enemy_dead && roll.drop >= 600 {
                    roll.drop_orb(updater, hit_pos);
                }
            }
            proof {
                assert(contacts.take(i + 1).drop_last() =~= contacts.take(i as int));
                assert(rolls@.take(i + 1).drop_last() =~= rolls@.take(i as int));
                let after = before.struck(damage, roll, now);
                assert(entities@ == after.entities);
                assert(health@ == after.health);
                assert(invul@ == after.invul);
                assert(updater@ == after.queue);
            }
            i = i + 1;
        }
        proof {
            assert(contacts.take(n as int) =~= contacts);
            assert(rolls@.take(n as int) =~= rolls@);
        }
        damage_tracker.0.clear();
    }

    /// Resolves the contacts in order and empties the list. The outcome is
    /// that of `resolve` for some fair roll of the dice per contact.
    pub fn run(
        &mut self,
        entities: &mut Entities,
        damage_tracker: &mut DamageTracker,
        time: &GameTime,
        health: &mut Storage<Health>,
        invul: &mut Storage<Invulnerability>,
        updater: &mut LazyUpdate,
    )
        ensures
            final(damage_tracker).0@ == Seq::<Damage>::empty(),
            exists|rolls: Seq<CollisionRoll>|
                {
                    &&& rolls.len() == old(damage_tracker).0@.len()
                    &&& forall|i: int| 0 <= i < rolls.len() ==> (#[trigger] rolls[i]).fair()
                    &&& (Fight {
                        entities: final(entities)@,
                        health: final(health)@,
                        invul: final(invul)@,
                        queue: final(updater)@,
                    }) == (Fight {
                        entities: old(entities)@,
                        health: old(health)@,
                        invul: old(invul)@,
                        queue: old(updater)@,
                    }).resolved(old(damage_tracker).0@, rolls, time.total_time)
                },
    {
        let mut rng = thread_rng();
        let n: usize = damage_tracker.0.len();
        let mut rolls: Vec<CollisionRoll> = Vec::new();
        while rolls.len() < n
            invariant
                rolls@.len() <= n,
                forall|i: int| 0 <= i < rolls@.len() ==> (#[trigger] rolls@[i]).fair(),
            decreases n - rolls@.len(),
        {
            rolls.push(CollisionRoll::roll(&mut rng));
        }
        self.resolve(entities, damage_tracker, time, health, invul, updater, &rolls);
    }
}

/// One contact, resolved: where a hit lands on the friendly entity and one
/// would land on the enemy, which is another entity, each side loses
/// exactly one hit, never going below nothing, and a shield on either side
/// remembers the time.
pub proof fn law_contact_costs_one_each(fight: Fight, d: Damage, roll: CollisionRoll, time: u64)
    requires
        fight.lands(d.friendly, time),
        fight.lands(d.enemy, time),
        d.enemy.index != d.friendly.index,
    ensures
        fight.struck(d, roll, time).health[d.friendly.index as int] == fight.health[d.friendly.index as int].hit(),
        fight.struck(d, roll, time).health[d.enemy.index as int] == fight.health[d.enemy.index as int].hit(),
        fight.invul.dom().contains(d.friendly.index as int) ==> fight.struck(
            d,
            roll,
            time,
        ).invul[d.friendly.index as int].invul_at(time),
        fight.invul.dom().contains(d.enemy.index as int) ==> fight.struck(
            d,
            roll,
            time,
        ).invul[d.enemy.index as int].invul_at(time),
{
    Invulnerability::lemma_hit_at(time);
}

/// A friendly entity whose shield is up takes no damage and shields the
/// enemy that touches it: the contact changes nothing.
pub proof fn law_shielded_player_shields_enemy(fight: Fight, d: Damage, roll: CollisionRoll, time: u64)
    requires
        fight.invul.dom().contains(d.friendly.index as int),
        fight.invul[d.friendly.index as int].invul_at(time),
    ensures
        fight.struck(d, roll, time) == fight,
{
}

/// Handles a firing pattern at `total_time` for an entity at `pos`: every
/// part whose timer is ready asks for its bullets and moves on. The fans
/// aimed at a player take their targets from `targets`, the first fan the one
/// at `start`; the place after the last one is handed back.
#[verifier::loop_isolation(false)]
pub fn fire(
    spawner: &mut BulletSpawner,
    fires: &mut FiresBullets,
    total_time: u64,
    targets: &Vec<Vec2>,
    start: usize,
    pos: Vec2,
) -> (next: usize)
    requires
        start + leaves(old(fires)@) <= targets@.len(),
    ensures
        final(fires)@ == fired(old(fires)@, total_time),
        final(spawner).0@ == old(spawner).0@ + volley(
            old(fires)@,
            total_time,
            pos,
            targets@,
            start as int,
        ),
        next == start + leaves(old(fires)@),
    decreases *old(fires),
{
    let ghost before = spawner.0@;
    let ghost at_entry = *fires;
    assert(targets@.len() == targets.len());
    match fires {
        FiresBullets::AtPlayer { num_bullets, spread, cooldown, setup } => {
            if cooldown.is_ready(total_time) {
                let player = targets[start];
                let n: u16 = *num_bullets;
                let wide: i32 = *spread;
                let setup: BulletSetup = *setup;
                let mut i: u16 = 0;
                while i < n
                    invariant
                        i <= n,
                        spawner.0@ == before + Seq::new(
                            i as nat,
                            |k: int| fan_shot(pos, player, k, n as int, wide as int, setup),
                        ),
                    decreases n - i,
                {
                    let steps: i64 = n as i64 - 1 - 2 * (i as i64);
                    assert(-0x8000_0000 * 0x20000 <= wide * steps <= 0x8000_0000 * 0x20000)
                        by (nonlinear_arith)
                        requires
                            -0x8000_0000 <= wide <= 0x8000_0000,
                            -0x20000 <= steps <= 0x20000,
                    ;
                    let offset: i64 = div_towards_zero((wide as i64) * steps, 2 * (n as u32));
                    spawner.0.push(
                        BulletToBeSpawned {
                            pos,
                            image: setup.image,
                            speed: setup.speed,
                            aim: Aim::Towards { target: player, offset },
                            colour: setup.colour,
                            enemy: true,
                        },
                    );
                    i = i + 1;
                }
            }
            start + 1
        },
        FiresBullets::Circle { sides, rotation, rotation_per_fire, cooldown, setup } => {
            if cooldown.is_ready(total_time) {
                let n: u16 = *sides;
                let turned: i32 = *rotation;
                let setup: BulletSetup = *setup;
                let mut side: u16 = 0;
                while side < n
                    invariant
                        side <= n,
                        spawner.0@ == before + Seq::new(
                            side as nat,
                            |k: int| ring_shot(pos, k, n as int, turned as int, setup),
                        ),
                    decreases n - side,
                {
                    let angle: i64 = div_towards_zero((TAU as i64) * (side as i64), n as u32)
                        + turned as i64;
                    spawner.0.push(
                        BulletToBeSpawned {
                            pos,
                            image: setup.image,
                            speed: setup.speed,
                            aim: Aim::Heading(angle),
                            colour: setup.colour,
                            enemy: true,
                        },
                    );
                    side = side + 1;
                }
                *rotation = crate::math::narrow(turned as i64 + *rotation_per_fire as i64);
            }
            start
        },
        FiresBullets::Arc {
            initial_rotation,
            spread,
            fired_at_once,
            number_to_fire,
            fired_so_far,
            cooldown,
            setup,
        } => {
            if cooldown.is_ready(total_time) {
                let first: u16 = *fired_so_far;
                let total: u16 = *number_to_fire;
                let at_once: u16 = *fired_at_once;
                let initial: i32 = *initial_rotation;
                let wide: i32 = *spread;
                let setup: BulletSetup = *setup;
                let ghost size = arc_volley_size(at_once as int, total as int, first as int);
                let mut fired_now: u16 = 0;
                let mut turn: u16 = 0;
                while turn < at_once
                    invariant
                        turn <= at_once,
                        fired_now <= turn,
                        size == arc_volley_size(at_once as int, total as int, first as int),
                        fired_now == if turn <= size {
                            turn as int
                        } else {
                            size
                        },
                        first + fired_now <= u16::MAX,
                        spawner.0@ == before + Seq::new(
                            fired_now as nat,
                            |j: int|
                                arc_shot(
                                    pos,
                                    first + j,
                                    total as int,
                                    initial as int,
                                    wide as int,
                                    setup,
                                ),
                        ),
                    decreases at_once - turn,
                {
                    if first + fired_now < total {
                        let so_far: i64 = first as i64 + fired_now as i64;
                        assert(-0x8000_0000 * 0x10000 <= wide * so_far <= 0x8000_0000 * 0x10000)
                            by (nonlinear_arith)
                            requires
                                -0x8000_0000 <= wide <= 0x8000_0000,
                                0 <= so_far <= 0x10000,
                        ;
                        let angle: i64 = initial as i64 + div_towards_zero(
                            (wide as i64) * so_far,
                            total as u32,
                        );
                        spawner.0.push(
                            BulletToBeSpawned {
                                pos,
                                image: setup.image,
                                speed: setup.speed,
                                aim: Aim::Heading(angle),
                                colour: setup.colour,
                                enemy: true,
                            },
                        );
                        fired_now = fired_now + 1;
                    }
                    turn = turn + 1;
                }
                *fired_so_far = first + fired_now;
            }
            start
        },
        FiresBullets::Multiple(vec) => {
            let ghost list = at_entry@->Multiple_0;
            let n: usize = vec.len();
            let mut cursor: usize = start;
            let mut k: usize = 0;
            while k < n
                invariant
                    k <= n,
                    at_entry == *old(fires),
                    n == vec@.len(),
                    n == list.len(),
                    at_entry@ == Pattern::Multiple(list),
                    at_entry is Multiple,
                    at_entry->Multiple_0@.len() == n,
                    forall|j: int| k <= j < n ==> #[trigger] vec@[j] == at_entry->Multiple_0@[j],
                    forall|j: int| 0 <= j < n ==> list[j] == (#[trigger] at_entry->Multiple_0@[j])@,
                    forall|j: int| 0 <= j < k ==> (#[trigger] vec@[j])@ == fired(list[j], total_time),
                    cursor == start + leaves_of(list, k as nat),
                    start + leaves_of(list, n as nat) <= targets@.len(),
                    spawner.0@ == before + volley_of(
                        list,
                        k as nat,
                        total_time,
                        pos,
                        targets@,
                        start as int,
                    ),
                decreases n - k,
            {
                proof {
                    vstd::std_specs::vec::axiom_vec_index_decreases(
                        at_entry->Multiple_0,
                        k as int,
                    );
                    assert(decreases_to!(at_entry => at_entry->Multiple_0));
                    lemma_leaves_of_grows(list, k as nat, n as nat);
                }
                cursor = fire(spawner, &mut vec[k], total_time, targets, cursor, pos);
                k = k + 1;
            }
            proof {
                let now = pattern_of_list(vec@);
                assert(now =~= fired(at_entry@, total_time)->Multiple_0);
                assert(final(fires)@->Multiple_0 =~= now);
            }
            cursor
        },
    }
}

/// The plain values of a list of firing patterns.
pub open spec fn pattern_of_list(list: Seq<FiresBullets>) -> Seq<Pattern> {
    Seq::new(list.len(), |i: int| list[i]@)
}

/// The count of fans grows with the part of the list that is counted.
pub proof fn lemma_leaves_of_grows(list: Seq<Pattern>, k: nat, n: nat)
    requires
        k < n <= list.len(),
    ensures
        leaves_of(list, (k + 1) as nat) <= leaves_of(list, n),
        leaves_of(list, (k + 1) as nat) == leaves_of(list, k) + leaves(list[k as int]),
    decreases n,
{
    if k + 1 < n {
        lemma_leaves_of_grows(list, k, (n - 1) as nat);
    }
}

/// Adds to `targets` one target for every fan of `fires` that is aimed at a
/// player, each being a point that `player_positions` admits.
pub fn draw_targets(
    fires: &FiresBullets,
    player_positions: &PlayerPositions,
    rng: &mut ThreadRng,
    targets: &mut Vec<Vec2>,
)
    ensures
        final(targets)@.len() == old(targets)@.len() + leaves(fires@),
        final(targets)@.take(old(targets)@.len() as int) == old(targets)@,
        forall|i: int|
            old(targets)@.len() <= i < final(targets)@.len() ==> player_positions.admits(
                #[trigger] final(targets)@[i],
            ),
    decreases *fires,
{
    match fires {
        FiresBullets::AtPlayer { .. } => {
            let player = player_positions.random(rng);
            targets.push(player);
            assert(targets@.take(old(targets)@.len() as int) =~= old(targets)@);
        },
        FiresBullets::Multiple(vec) => {
            let ghost list = fires@->Multiple_0;
            let n: usize = vec.len();
            let mut k: usize = 0;
            assert(targets@.take(old(targets)@.len() as int) =~= old(targets)@);
            while k < n
                invariant
                    k <= n,
                    n == vec@.len(),
                    *fires == FiresBullets::Multiple(*vec),
                    fires@ == Pattern::Multiple(list),
                    list.len() == n,
                    forall|j: int| 0 <= j < n ==> list[j] == (#[trigger] vec@[j])@,
                    targets@.len() == old(targets)@.len() + leaves_of(list, k as nat),
                    targets@.take(old(targets)@.len() as int) == old(targets)@,
                    forall|i: int|
                        old(targets)@.len() <= i < targets@.len() ==> player_positions.admits(
                            #[trigger] targets@[i],
                        ),
                decreases n - k,
            {
                proof {
                    vstd::std_specs::vec::axiom_vec_index_decreases(*vec, k as int);
                    assert(fires->Multiple_0 == *vec);
                    assert(decreases_to!(*fires => fires->Multiple_0));
                    lemma_leaves_of_grows(list, k as nat, n as nat);
                }
                let ghost mid = targets@;
                draw_targets(&vec[k], player_positions, rng, targets);
                proof {
                    assert(targets@.take(old(targets)@.len() as int) =~= mid.take(
                        old(targets)@.len() as int,
                    )) by {
                        assert(targets@.take(mid.len() as int) == mid);
                        assert forall|i: int| 0 <= i < old(targets)@.len() implies targets@[i]
                            == mid[i] by {
                            assert(targets@.take(mid.len() as int)[i] == mid[i]);
                        }
                    }
                    assert forall|i: int|
                        old(targets)@.len() <= i < targets@.len() implies player_positions.admits(
                        #[trigger] targets@[i],
                    ) by {
                        if i < mid.len() {
                            assert(targets@.take(mid.len() as int)[i] == mid[i]);
                        }
                    }
                }
                k = k + 1;
            }
        },
        _ => {
            assert(targets@.take(old(targets)@.len() as int) =~= old(targets)@);
        },
    }
}

/// Handles a firing pattern at `total_time` for an entity at `pos`: every
/// part whose timer is ready asks for its bullets and moves on. Each fan
/// that is aimed at a player gets a target of its own, which is a point
/// that `player_positions` admits.
pub fn handle_fires_bullets(
    spawner: &mut BulletSpawner,
    fires: &mut FiresBullets,
    total_time: u64,
    player_positions: &PlayerPositions,
    rng: &mut ThreadRng,
    pos: Vec2,
)
    ensures
        final(fires)@ == fired(old(fires)@, total_time),
        exists|targets: Seq<Vec2>|
            {
                &&& targets.len() == leaves(old(fires)@)
                &&& forall|i: int|
                    0 <= i < targets.len() ==> player_positions.admits(#[trigger] targets[i])
                &&& final(spawner).0@ == old(spawner).0@ + volley(
                    old(fires)@,
                    total_time,
                    pos,
                    targets,
                    0,
                )
            },
{
    let mut targets: Vec<Vec2> = Vec::new();
    draw_targets(fires, player_positions, rng, &mut targets);
    let _ = fire(spawner, fires, total_time, &targets, 0, pos);
}

/// What firing reads: who is alive, where, with which pattern, who has been
/// seen on the screen and who is frozen.
pub struct Battery {
    pub entities: Seq<Slot>,
    pub pos: Map<int, Position>,
    pub fires: Map<int, FiresBullets>,
    pub onscreen: Map<int, BeenOnscreen>,
    pub frozen: Map<int, FrozenUntil>,
}

impl Battery {
    /// Whether the entity in slot `i` may fire: it is alive, has been on the
    /// screen, is not frozen, and has a position and a pattern.
    pub open spec fn shooter(self, i: int) -> bool {
        alive_in(self.entities, i) && self.onscreen.dom().contains(i) && !self.frozen.dom().contains(
            i,
        ) && self.pos.dom().contains(i) && self.fires.dom().contains(i)
    }

    /// How many targets the shooters in the slots below `n` take.
    pub open spec fn targets_needed(self, n: int) -> nat
        decreases n,
    {
        if n <= 0 {
            0
        } else if self.shooter(n - 1) {
            self.targets_needed(n - 1) + leaves(self.fires[n - 1]@)
        } else {
            self.targets_needed(n - 1)
        }
    }

    /// The bullets the shooters in the slots below `n` ask for at `time`, by
    /// rising slot, the first fan of the first shooter taking the first
    /// target.
    pub open spec fn salvo(self, n: int, time: u64, targets: Seq<Vec2>) -> Seq<BulletToBeSpawned>
        decreases n,
    {
        if n <= 0 {
            Seq::empty()
        } else if self.shooter(n - 1) {
            self.salvo(n - 1, time, targets) + volley(
                self.fires[n - 1]@,
                time,
                self.pos[n - 1].0,
                targets,
                self.targets_needed(n - 1) as int,
            )
        } else {
            self.salvo(n - 1, time, targets)
        }
    }

    /// The count of targets grows with the slots that are counted.
    pub proof fn lemma_targets_needed_grows(self, k: int, n: int)
        requires
            0 <= k <= n,
        ensures
            self.targets_needed(k) <= self.targets_needed(n),
        decreases n - k,
    {
        if k < n {
            self.lemma_targets_needed_grows(k, n - 1);
        }
    }
}

/// Lets the entities fire.
pub struct FireBullets;

impl FireBullets {
    /// Handles the pattern of every shooter at the time of the clock, by
    /// rising slot, with the targets given: the bullets are added to the
    /// list, the patterns move on, and nothing else changes.
    pub fn fire_all(
        &mut self,
        entities: &Entities,
        pos: &Storage<Position>,
        fires: &mut Storage<FiresBullets>,
        onscreen: &Storage<BeenOnscreen>,
        frozen: &Storage<FrozenUntil>,
        spawner: &mut BulletSpawner,
        time: &GameTime,
        targets: &Vec<Vec2>,
    )
        requires
            (Battery {
                entities: entities@,
                pos: pos@,
                fires: old(fires)@,
                onscreen: onscreen@,
                frozen: frozen@,
            }).targets_needed(entities@.len() as int) <= targets@.len(),
        ensures
            ({
                let battery = Battery {
                    entities: entities@,
                    pos: pos@,
                    fires: old(fires)@,
                    onscreen: onscreen@,
                    frozen: frozen@,
                };
                &&& final(fires)@.dom() == old(fires)@.dom()
                &&& forall|i: int| #[trigger]
                    old(fires)@.dom().contains(i) ==> if battery.shooter(i) {
                        final(fires)@[i]@ == fired(old(fires)@[i]@, time.total_time)
                    } else {
                        final(fires)@[i] == old(fires)@[i]
                    }
                &&& final(spawner).0@ == old(spawner).0@ + battery.salvo(
                    entities@.len() as int,
                    time.total_time,
                    targets@,
                )
            }),
    {
        let ghost battery = Battery {
            entities: entities@,
            pos: pos@,
            fires: fires@,
            onscreen: onscreen@,
            frozen: frozen@,
        };
        let n: usize = entities.len();
        let mut cursor: usize = 0;
        let mut i: usize = 0;
        while i < n
            invariant
                i <= n,
                n == entities@.len(),
                battery == (Battery {
                    entities: entities@,
                    pos: pos@,
                    fires: old(fires)@,
                    onscreen: onscreen@,
                    frozen: frozen@,
                }),
                battery.targets_needed(n as int) <= targets@.len(),
                cursor == battery.targets_needed(i as int),
                fires@.dom() == old(fires)@.dom(),
                forall|j: int| #[trigger]
                    old(fires)@.dom().contains(j) ==> if j < i && battery.shooter(j) {
                        fires@[j]@ == fired(old(fires)@[j]@, time.total_time)
                    } else {
                        fires@[j] == old(fires)@[j]
                    },
                spawner.0@ == old(spawner).0@ + battery.salvo(
                    i as int,
                    time.total_time,
                    targets@,
                ),
            decreases n - i,
        {
            proof {
                battery.lemma_targets_needed_grows(i + 1, n as int);
            }
            if entities.alive_at(i) && onscreen.contains(i) && !frozen.contains(i) {
                if let Some(at) = pos.get(i) {
                    let ghost before = fires@;
                    if let Some(pattern) = fires.get_mut(i) {
                        cursor = fire(spawner, pattern, time.total_time, targets, cursor, at.0);
                    }
                    assert(fires@.dom() =~= old(fires)@.dom());
                }
            }
            i = i + 1;
        }
    }

    /// Adds to `targets` one target for every fan aimed at a player that a
    /// shooter holds, by rising slot.
    fn draw_all(
        entities: &Entities,
        pos: &Storage<Position>,
        fires: &Storage<FiresBullets>,
        onscreen: &Storage<BeenOnscreen>,
        frozen: &Storage<FrozenUntil>,
        player_positions: &PlayerPositions,
        rng: &mut ThreadRng,
    ) -> (targets: Vec<Vec2>)
        ensures
            targets@.len() == (Battery {
                entities: entities@,
                pos: pos@,
                fires: fires@,
                onscreen: onscreen@,
                frozen: frozen@,
            }).targets_needed(entities@.len() as int),
            forall|i: int|
                0 <= i < targets@.len() ==> player_positions.admits(#[trigger] targets@[i]),
    {
        let ghost battery = Battery {
            entities: entities@,
            pos: pos@,
            fires: fires@,
            onscreen: onscreen@,
            frozen: frozen@,
        };
        let mut targets: Vec<Vec2> = Vec::new();
        let n: usize = entities.len();
        let mut i: usize = 0;
        while i < n
            invariant
                i <= n,
                n == entities@.len(),
                battery == (Battery {
                    entities: entities@,
                    pos: pos@,
                    fires: fires@,
                    onscreen: onscreen@,
                    frozen: frozen@,
                }),
                targets@.len() == battery.targets_needed(i as int),
                forall|k: int|
                    0 <= k < targets@.len() ==> player_positions.admits(#[trigger] targets@[k]),
            decreases n - i,
        {
            if entities.alive_at(i) && onscreen.contains(i) && !frozen.contains(i) && pos.contains(
                i,
            ) {
                if let Some(pattern) = fires.get(i) {
                    let ghost mid = targets@;
                    draw_targets(pattern, player_positions, rng, &mut targets);
                    proof {
                        assert forall|k: int|
                            0 <= k < targets@.len() implies player_positions.admits(
                            #[trigger] targets@[k],
                        ) by {
                            if k < mid.len() {
                                assert(targets@.take(mid.len() as int)[k] == mid[k]);
                            }
                        }
                    }
                }
            }
            i = i + 1;
        }
        targets
    }

    /// Handles the pattern of every shooter at the time of the clock. The
    /// outcome is that of `fire_all` for some list of targets, each a point
    /// that `player_positions` admits.
    pub fn run(
        &mut self,
        entities: &Entities,
        pos: &Storage<Position>,
        fires: &mut Storage<FiresBullets>,
        onscreen: &Storage<BeenOnscreen>,
        frozen: &Storage<FrozenUntil>,
        spawner: &mut BulletSpawner,
        time: &GameTime,
        player_positions: &PlayerPositions,
    )
        ensures
            ({
                let battery = Battery {
                    entities: entities@,
                    pos: pos@,
                    fires: old(fires)@,
                    onscreen: onscreen@,
                    frozen: frozen@,
                };
                &&& final(fires)@.dom() == old(fires)@.dom()
                &&& forall|i: int| #[trigger]
                    old(fires)@.dom().contains(i) ==> if battery.shooter(i) {
                        final(fires)@[i]@ == fired(old(fires)@[i]@, time.total_time)
                    } else {
                        final(fires)@[i] == old(fires)@[i]
                    }
                &&& exists|targets: Seq<Vec2>|
                    {
                        &&& targets.len() == battery.targets_needed(entities@.len() as int)
                        &&& forall|i: int|
                            0 <= i < targets.len() ==> player_positions.admits(
                                #[trigger] targets[i],
                            )
                        &&& final(spawner).0@ == old(spawner).0@ + battery.salvo(
                            entities@.len() as int,
                            time.total_time,
                            targets,
                        )
                    }
            }),
    {
        let mut rng = thread_rng();
        let targets = Self::draw_all(
            entities,
            pos,
            fires,
            onscreen,
            frozen,
            player_positions,
            &mut rng,
        );
        self.fire_all(entities, pos, fires, onscreen, frozen, spawner, time, &targets);
    }
}

/// Lets the blasts of the bombs grow.
pub struct ExpandBombs;

/// How much the blast of a bomb grows in a tick: eight units.
pub const BLAST_GROWTH: i32 = 8192;

/// The square of the screen's diagonal, in fixed-point steps.
pub const DIAGONAL_SQUARED: u64 = 671088640000;

/// What the blasts change: who is alive, how far each blast has grown, and
/// the entities asked for.
pub struct Blasts {
    pub entities: Seq<Slot>,
    pub circle: Map<int, Circle>,
    pub queue: Seq<Seq<ComponentView>>,
}

/// What the blasts read: where everything is, what a bomb destroys, and the
/// time.
pub struct Targets {
    pub pos: Map<int, Position>,
    pub collides: Map<int, CollidesWithBomb>,
    pub now: u64,
}

impl Targets {
    /// Whether the entity in slot `i` is a blast: it is alive and has a
    /// radius and a position.
    pub open spec fn blast(self, blasts: Blasts, i: int) -> bool {
        alive_in(blasts.entities, i) && blasts.circle.dom().contains(i) && self.pos.dom().contains(
            i,
        )
    }

    /// Whether the blast in slot `i`, of the given radius, catches the
    /// entity in slot `j`: that is alive, is destroyed by bombs, and lies no
    /// further from the centre than the radius.
    pub open spec fn catches(self, blasts: Blasts, i: int, j: int, radius: int) -> bool {
        alive_in(blasts.entities, j) && self.pos.dom().contains(j) && self.collides.dom().contains(
            j,
        ) && self.pos[j].0.dist2(self.pos[i].0) <= radius * radius
    }

    /// The world after the blast in slot `i` has come to the entity in slot
    /// `j`: an entity that is caught is deleted and marked by a blast effect.
    pub open spec fn caught(self, blasts: Blasts, i: int, j: int, radius: int) -> Blasts {
        if self.catches(blasts, i, j, radius) {
            Blasts {
                entities: blasts.entities.update(
                    j,
                    Slot { generation: blasts.entities[j].generation, life: Life::Killed },
                ),
                queue: blasts.queue.push(explosion_blueprint(self.pos[j].0, self.now)),
                ..blasts
            }
        } else {
            blasts
        }
    }

    /// The world after the blast in slot `i` has come to the entities in the
    /// slots below `m`, by rising slot.
    pub open spec fn cleared(self, blasts: Blasts, i: int, m: int, radius: int) -> Blasts
        decreases m,
    {
        if m <= 0 {
            blasts
        } else {
            self.caught(self.cleared(blasts, i, m - 1, radius), i, m - 1, radius)
        }
    }

    /// The radius of a blast after a tick.
    pub open spec fn grown(radius: i32) -> i32 {
        crate::math::saturate(radius + BLAST_GROWTH) as i32
    }

    /// The world after the blast in slot `i` has grown by a tick: it is
    /// larger; it is deleted once it covers the screen from any point of
    /// it; and it has come to every entity.
    pub open spec fn expanded(self, blasts: Blasts, i: int) -> Blasts {
        let radius = Self::grown(blasts.circle[i].radius);
        let larger = Blasts {
            entities: if radius * radius >= DIAGONAL_SQUARED {
                blasts.entities.update(
                    i,
                    Slot { generation: blasts.entities[i].generation, life: Life::Killed },
                )
            } else {
                blasts.entities
            },
            circle: blasts.circle.insert(i, Circle { radius }),
            queue: blasts.queue,
        };
        self.cleared(larger, i, blasts.entities.len() as int, radius as int)
    }

    /// The world after the blasts in the slots below `n` have each grown by
    /// a tick, by rising slot.
    pub open spec fn all_expanded(self, blasts: Blasts, n: int) -> Blasts
        decreases n,
    {
        if n <= 0 {
            blasts
        } else {
            let earlier = self.all_expanded(blasts, n - 1);
            if self.blast(earlier, n - 1) {
                self.expanded(earlier, n - 1)
            } else {
                earlier
            }
        }
    }
}

impl ExpandBombs {
    /// Every blast, by rising slot, grows by a tick, is deleted once it
    /// covers the screen, and deletes every living entity within its radius
    /// that bombs destroy, marking each by a blast effect.
    pub fn run(
        &mut self,
        entities: &mut Entities,
        updater: &mut LazyUpdate,
        time: &GameTime,
        circle: &mut Storage<Circle>,
        position: &Storage<Position>,
        collides: &Storage<CollidesWithBomb>,
    )
        ensures
            (Blasts { entities: final(entities)@, circle: final(circle)@, queue: final(updater)@ })
                == (Targets {
                pos: position@,
                collides: collides@,
                now: time.total_time,
            }).all_expanded(
                Blasts { entities: old(entities)@, circle: old(circle)@, queue: old(updater)@ },
                old(entities)@.len() as int,
            ),
    {
        let ghost targets = Targets { pos: position@, collides: collides@, now: time.total_time };
        let ghost start = Blasts { entities: entities@, circle: circle@, queue: updater@ };
        let n: usize = entities.len();
        let mut i: usize = 0;
        while i < n
            invariant
                i <= n,
                n == entities@.len(),
                n == start.entities.len(),
                targets == (Targets { pos: position@, collides: collides@, now: time.total_time }),
                (Blasts { entities: entities@, circle: circle@, queue: updater@ })
                    == targets.all_expanded(start, i as int),
            decreases n - i,
        {
            let ghost before = Blasts { entities: entities@, circle: circle@, queue: updater@ };
            if let Some(bomb) = entities.entity_at(i) {
                if let Some(centre) = position.get(i) {
                    let mut radius: i32 = 0;
                    let mut is_blast = false;
                    if let Some(blast) = circle.get_mut(i) {
                        blast.radius = crate::math::narrow(
                            blast.radius as i64 + BLAST_GROWTH as i64,
                        );
                        radius = blast.radius;
                        is_blast = true;
                    }
                    if is_blast {
                        assert(0 <= radius * radius <= 0x8000_0000 * 0x8000_0000)
                            by (nonlinear_arith)
                            requires
                                -0x8000_0000 <= radius <= 0x8000_0000,
                        ;
                        let reach: u128 = (radius as i128 * radius as i128) as u128;
                        if reach >= DIAGONAL_SQUARED as u128 {
                            let _ = entities.delete(bomb);
                        }
                        let ghost larger = Blasts {
                            entities: entities@,
                            circle: circle@,
                            queue: updater@,
                        };
                        assert(larger.circle =~= before.circle.insert(
                            i as int,
                            Circle { radius },
                        ));
                        let mut j: usize = 0;
                        while j < n
                            invariant
                                j <= n,
                                i < n,
                                n == entities@.len(),
                                targets == (Targets {
                                    pos: position@,
                                    collides: collides@,
                                    now: time.total_time,
                                }),
                                *centre == position@[i as int],
                                reach == radius * radius,
                                (Blasts { entities: entities@, circle: circle@, queue: updater@ })
                                    == targets.cleared(larger, i as int, j as int, radius as int),
                            decreases n - j,
                        {
                            if let Some(entity) = entities.entity_at(j) {
                                if collides.contains(j) {
                                    if let Some(pos) = position.get(j) {
                                        if pos.0.distance2(centre.0) <= reach {
                                            let _ = entities.delete(entity);
                                            build_explosion(updater, pos.0, time.total_time);
                                        }
                                    }
                                }
                            }
                            j = j + 1;
                        }
                    }
                }
            }
            i = i + 1;
        }
    }
}

/// Whether `after` is what `before` may have become for the entity in slot
/// `i` by hits at `time`: nothing has changed, or it has lost one hit and
/// its shield is up.
pub open spec fn at_most_one_hit(before: Fight, after: Fight, i: int, time: u64) -> bool {
    &&& after.invul.dom().contains(i)
    &&& after.health.dom().contains(i) == before.health.dom().contains(i)
    &&& {
        ||| after.health[i] == before.health[i] && after.invul[i] == before.invul[i]
        ||| after.health[i] == before.health[i].hit() && after.invul[i].invul_at(time)
    }
}

/// No double damage. Whatever the contacts of a frame, and however many of
/// them an entity with a shield is part of, on either side, resolving them
/// costs it one hit at most.
pub proof fn law_shield_takes_one_hit_per_frame(
    fight: Fight,
    contacts: Seq<Damage>,
    rolls: Seq<CollisionRoll>,
    time: u64,
    i: int,
)
    requires
        fight.invul.dom().contains(i),
        0 <= i <= usize::MAX,
    ensures
        at_most_one_hit(fight, fight.resolved(contacts, rolls, time), i, time),
    decreases contacts.len(),
{
    Invulnerability::lemma_hit_at(time);
    if contacts.len() > 0 && rolls.len() == contacts.len() {
        let earlier = fight.resolved(contacts.drop_last(), rolls.drop_last(), time);
        law_shield_takes_one_hit_per_frame(fight, contacts.drop_last(), rolls.drop_last(), time, i);
        let d = contacts.last();
        let first = earlier.hurt(d.friendly, time);
        assert(at_most_one_hit(fight, first, i, time));
        let second = first.hurt(d.enemy, time);
        assert(at_most_one_hit(fight, second, i, time));
    }
}

/// The components of an entity that was asked for with one component more
/// are those it was asked for with, given that one.
proof fn lemma_one_more(list: Seq<ComponentView>, c: ComponentView)
    ensures
        bundle_of(list.push(c)) == given(bundle_of(list), c),
{
    assert(list.push(c).drop_last() =~= list);
}

/// A blast is made as a blast where it was asked for, and an orb as none.
proof fn lemma_blast_and_orb(roll: CollisionRoll, at: Vec2, time: u64)
    ensures
        bundle_of(explosion_blueprint(at, time)).explosion == Some(Explosion(time)),
        bundle_of(explosion_blueprint(at, time)).position == Some(Position(at)),
        bundle_of(roll.orb_blueprint(at)).explosion is None,
{
    let none = Seq::<ComponentView>::empty();
    assert(bundle_of(none) == no_components());
    let blast = explosion_blueprint(at, time);
    lemma_one_more(none, blast[0]);
    lemma_one_more(none.push(blast[0]), blast[1]);
    assert(blast =~= none.push(blast[0]).push(blast[1]));
    let orb = roll.orb_blueprint(at);
    let o1 = none.push(orb[0]);
    let o2 = o1.push(orb[1]);
    let o3 = o2.push(orb[2]);
    let o4 = o3.push(orb[3]);
    let o5 = o4.push(orb[4]);
    lemma_one_more(none, orb[0]);
    lemma_one_more(o1, orb[1]);
    lemma_one_more(o2, orb[2]);
    lemma_one_more(o3, orb[3]);
    lemma_one_more(o4, orb[4]);
    lemma_one_more(o5, orb[5]);
    assert(orb =~= o5.push(orb[5]));
}

/// One pair, one blast. Where a friendly entity and an enemy are the only
/// bodies of their sides and touch, a hit lands on either, nothing else
/// waits for the sync point and the entity in `slot` is no blast, then
/// after the frame's contacts were resolved and the sync point has run,
/// exactly one entity is a blast: the first that the sync point made, which
/// is alive, at the contact moved by the jitter. The entity in `slot` is a
/// blast if and only if it is that one.
pub proof fn law_lone_pair_leaves_one_blast(
    bodies: Bodies,
    fight: Fight,
    i: int,
    j: int,
    roll: CollisionRoll,
    time: u64,
    before: Bundle,
    slot: int,
)
    requires
        lone_pair(bodies, i, j),
        fight.entities == bodies.entities,
        fight.lands(bodies.handle(i), time),
        fight.lands(bodies.handle(j), time),
        i != j,
        i <= usize::MAX,
        j <= usize::MAX,
        fight.queue.len() == 0,
        before.explosion is None,
    ensures
        ({
            let after = fight.resolved(bodies.contacts(), seq![roll], time);
            let blast = slot_of(swept(after.entities), 0);
            let at = roll.jittered((bodies.contact(i, j)->0).position);
            &&& alive_in(spawned(swept(after.entities), after.queue.len()), blast)
            &&& synced(after.entities, after.queue, before, blast).explosion == Some(
                Explosion(time),
            )
            &&& synced(after.entities, after.queue, before, blast).position == Some(Position(at))
            &&& synced(after.entities, after.queue, before, slot).explosion is Some <==> slot
                == blast
        }),
{
    law_lone_pair_costs_one_hit_each(bodies, fight, i, j, roll, time);
    let d = bodies.contact(i, j)->0;
    let after = fight.resolved(bodies.contacts(), seq![roll], time);
    let at = roll.jittered(d.position);
    let fresh = swept(after.entities);
    let n = after.queue.len();
    lemma_blast_and_orb(roll, at, time);
    let contacts = seq![d];
    let rolls = seq![roll];
    assert(contacts.drop_last() =~= Seq::<Damage>::empty());
    assert(rolls.drop_last() =~= Seq::<CollisionRoll>::empty());
    assert(fight.resolved(contacts.drop_last(), rolls.drop_last(), time) == fight);
    assert(after == fight.struck(d, roll, time));
    assert(fight.queue =~= Seq::<Seq<ComponentView>>::empty());
    assert(n == 1 || (n == 2 && after.queue[1] == roll.orb_blueprint(at)));
    assert(after.queue[0] == explosion_blueprint(at, time));
    lemma_made_in(fresh, n, 0);
    lemma_spawned_keeps(fresh, 0, n, 0);
    if slot != slot_of(fresh, 0) {
        assert(made_in(fresh, 0, slot) is None);
        assert(made_in(fresh, 1, slot) is None);
        if n == 2 {
            assert(made_in(fresh, 2, slot) == if slot_of(fresh, 1) == slot {
                Some(1nat)
            } else {
                None
            });
        }
    }
}

/// Once a friendly entity with a shield was hit, the other contacts of the
/// frame that it is part of as the friendly side change nothing.
proof fn lemma_one_contact_counts(
    fight: Fight,
    contacts: Seq<Damage>,
    rolls: Seq<CollisionRoll>,
    time: u64,
    player: Entity,
)
    requires
        contacts.len() > 0,
        rolls.len() == contacts.len(),
        forall|k: int| 0 <= k < contacts.len() ==> (#[trigger] contacts[k]).friendly == player,
        fight.lands(player, time),
        fight.invul.dom().contains(player.index as int),
    ensures
        fight.resolved(contacts, rolls, time) == fight.struck(contacts[0], rolls[0], time),
        !fight.resolved(contacts, rolls, time).lands(player, time),
    decreases contacts.len(),
{
    Invulnerability::lemma_hit_at(time);
    let once = fight.struck(contacts[0], rolls[0], time);
    let first = fight.hurt(player, time);
    assert(!first.lands(player, time));
    assert(!first.hurt(contacts[0].enemy, time).lands(player, time));
    assert(!once.lands(player, time));
    if contacts.len() == 1 {
        assert(contacts.drop_last() =~= Seq::<Damage>::empty());
        assert(fight.resolved(contacts.drop_last(), rolls.drop_last(), time) == fight);
    } else {
        lemma_one_contact_counts(fight, contacts.drop_last(), rolls.drop_last(), time, player);
    }
}

/// One shield, one blast. Where every contact of a frame is with the same
/// friendly entity, which has a shield that is down, nothing else waits
/// for the sync point and the entity in `slot` is no blast, then after the
/// contacts were resolved and the sync point has run, however many the
/// contacts were, exactly one entity is a blast: the first that the sync
/// point made, which is alive, at the first contact moved by the jitter.
/// The entity in `slot` is a blast if and only if it is that one.
pub proof fn law_one_shield_leaves_one_blast(
    fight: Fight,
    contacts: Seq<Damage>,
    rolls: Seq<CollisionRoll>,
    time: u64,
    player: Entity,
    before: Bundle,
    slot: int,
)
    requires
        contacts.len() > 0,
        rolls.len() == contacts.len(),
        forall|k: int| 0 <= k < contacts.len() ==> (#[trigger] contacts[k]).friendly == player,
        fight.lands(player, time),
        fight.invul.dom().contains(player.index as int),
        fight.queue.len() == 0,
        before.explosion is None,
    ensures
        ({
            let after = fight.resolved(contacts, rolls, time);
            let blast = slot_of(swept(after.entities), 0);
            let at = rolls[0].jittered(contacts[0].position);
            &&& after.health[player.index as int] == fight.health[player.index as int].hit()
            &&& alive_in(spawned(swept(after.entities), after.queue.len()), blast)
            &&& synced(after.entities, after.queue, before, blast).explosion == Some(
                Explosion(time),
            )
            &&& synced(after.entities, after.queue, before, blast).position == Some(Position(at))
            &&& synced(after.entities, after.queue, before, slot).explosion is Some <==> slot
                == blast
        }),
{
    lemma_one_contact_counts(fight, contacts, rolls, time, player);
    Invulnerability::lemma_hit_at(time);
    let after = fight.resolved(contacts, rolls, time);
    let at = rolls[0].jittered(contacts[0].position);
    let fresh = swept(after.entities);
    let n = after.queue.len();
    lemma_blast_and_orb(rolls[0], at, time);
    assert(fight.queue =~= Seq::<Seq<ComponentView>>::empty());
    assert(n == 1 || (n == 2 && after.queue[1] == rolls[0].orb_blueprint(at)));
    assert(after.queue[0] == explosion_blueprint(at, time));
    lemma_made_in(fresh, n, 0);
    lemma_spawned_keeps(fresh, 0, n, 0);
    if slot != slot_of(fresh, 0) {
        assert(made_in(fresh, 0, slot) is None);
        assert(made_in(fresh, 1, slot) is None);
        if n == 2 {
            assert(made_in(fresh, 2, slot) == if slot_of(fresh, 1) == slot {
                Some(1nat)
            } else {
                None
            });
        }
    }
}

/// The jitter moves a blast less than five units each way: whatever the
/// dice can show, the blast is no more than 5120 steps from the contact,
/// across and down.
pub proof fn law_jitter_stays_within_five_units(roll: CollisionRoll, p: Vec2)
    requires
        roll.fair(),
    ensures
        p.x - 5120 <= roll.jittered(p).x <= p.x + 5119,
        p.y - 5120 <= roll.jittered(p).y <= p.y + 5119,
{
}

} // verus!
