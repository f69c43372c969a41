//! The world: the entity table, every table of components, and the sync
//! point at which entities that were asked for come to be.

use vstd::prelude::*;
use crate::components::BackgroundLayer;
use crate::components::BeenOnscreen;
use crate::components::Boss;
use crate::components::BossView;
use crate::components::Circle;
use crate::components::CollidesWithBomb;
use crate::components::ColourOverlay;
use crate::components::Cooldown;
use crate::components::DieOffscreen;
use crate::components::Enemy;
use crate::components::Explosion;
use crate::components::FiresBullets;
use crate::components::Friendly;
use crate::components::FrozenUntil;
use crate::components::Health;
use crate::components::Hitbox;
use crate::components::Image;
use crate::components::Invulnerability;
use crate::components::Movement;
use crate::components::Pattern;
use crate::components::Player;
use crate::components::Position;
use crate::components::PowerBar;
use crate::components::PowerOrb;
use crate::components::TargetPlayer;
use crate::components::Text;
use crate::components::TextView;
use crate::lazy::component_views;
use crate::lazy::Component;
use crate::lazy::ComponentView;
use crate::lazy::LazyUpdate;
use crate::resources::BulletSpawner;
use crate::resources::BulletToBeSpawned;
use crate::resources::Damage;
use crate::resources::DamageTracker;
use crate::resources::GameTime;
use crate::resources::Mode;
use crate::resources::PlayingState;
use crate::resources::Stage;
use crate::stages::stage_one;
use crate::stages::stage_one_fair;
use crate::stages::stage_one_script;
use crate::stages::stage_two;
use crate::stages::stage_two_fair;
use crate::stages::stage_two_script;
use crate::storage::alive_in;
use crate::storage::all_killed;
use crate::storage::created;
use crate::storage::first_reusable;
use crate::storage::killed_slots;
use crate::storage::lemma_first_reusable_from;
use crate::storage::swept;
use crate::storage::Entities;
use crate::storage::Slot;
use crate::storage::Storage;

verus! {

/// Every table of components, one for each type.
pub struct Storages {
    pub position: Storage<Position>,
    pub image: Storage<Image>,
    pub movement: Storage<Movement>,
    pub die_offscreen: Storage<DieOffscreen>,
    pub been_onscreen: Storage<BeenOnscreen>,
    pub background_layer: Storage<BackgroundLayer>,
    pub player: Storage<Player>,
    pub frozen_until: Storage<FrozenUntil>,
    pub fires_bullets: Storage<FiresBullets>,
    pub cooldown: Storage<Cooldown>,
    pub friendly: Storage<Friendly>,
    pub enemy: Storage<Enemy>,
    pub hitbox: Storage<Hitbox>,
    pub health: Storage<Health>,
    pub explosion: Storage<Explosion>,
    pub invulnerability: Storage<Invulnerability>,
    pub text: Storage<Text>,
    pub target_player: Storage<TargetPlayer>,
    pub power_orb: Storage<PowerOrb>,
    pub power_bar: Storage<PowerBar>,
    pub circle: Storage<Circle>,
    pub collides_with_bomb: Storage<CollidesWithBomb>,
    pub boss: Storage<Boss>,
    pub colour_overlay: Storage<ColourOverlay>,
}

/// The components of one entity, each there or not, with lists as
/// sequences.
pub struct Bundle {
    pub position: Option<Position>,
    pub image: Option<Image>,
    pub movement: Option<Movement>,
    pub die_offscreen: Option<DieOffscreen>,
    pub been_onscreen: Option<BeenOnscreen>,
    pub background_layer: Option<BackgroundLayer>,
    pub player: Option<Player>,
    pub frozen_until: Option<FrozenUntil>,
    pub fires_bullets: Option<Pattern>,
    pub cooldown: Option<Cooldown>,
    pub friendly: Option<Friendly>,
    pub enemy: Option<Enemy>,
    pub hitbox: Option<Hitbox>,
    pub health: Option<Health>,
    pub explosion: Option<Explosion>,
    pub invulnerability: Option<Invulnerability>,
    pub text: Option<TextView>,
    pub target_player: Option<TargetPlayer>,
    pub power_orb: Option<PowerOrb>,
    pub power_bar: Option<PowerBar>,
    pub circle: Option<Circle>,
    pub collides_with_bomb: Option<CollidesWithBomb>,
    pub boss: Option<BossView>,
    pub colour_overlay: Option<ColourOverlay>,
}

/// The entity without components.
pub open spec fn no_components() -> Bundle {
    Bundle {
        position: None,
        image: None,
        movement: None,
        die_offscreen: None,
        been_onscreen: None,
        background_layer: None,
        player: None,
        frozen_until: None,
        fires_bullets: None,
        cooldown: None,
        friendly: None,
        enemy: None,
        hitbox: None,
        health: None,
        explosion: None,
        invulnerability: None,
        text: None,
        target_player: None,
        power_orb: None,
        power_bar: None,
        circle: None,
        collides_with_bomb: None,
        boss: None,
        colour_overlay: None,
    }
}

/// The components of an entity after it was given `component`: that one
/// takes the place of the one of its type, the others stay.
pub open spec fn given(bundle: Bundle, component: ComponentView) -> Bundle {
    match component {
        ComponentView::Position(c) => Bundle { position: Some(c), ..bundle },
        ComponentView::Image(c) => Bundle { image: Some(c), ..bundle },
        ComponentView::Movement(c) => Bundle { movement: Some(c), ..bundle },
        ComponentView::DieOffscreen(c) => Bundle { die_offscreen: Some(c), ..bundle },
        ComponentView::BeenOnscreen(c) => Bundle { been_onscreen: Some(c), ..bundle },
        ComponentView::BackgroundLayer(c) => Bundle { background_layer: Some(c), ..bundle },
        ComponentView::Player(c) => Bundle { player: Some(c), ..bundle },
        ComponentView::FrozenUntil(c) => Bundle { frozen_until: Some(c), ..bundle },
        ComponentView::FiresBullets(c) => Bundle { fires_bullets: Some(c), ..bundle },
        ComponentView::Cooldown(c) => Bundle { cooldown: Some(c), ..bundle },
        ComponentView::Friendly(c) => Bundle { friendly: Some(c), ..bundle },
        ComponentView::Enemy(c) => Bundle { enemy: Some(c), ..bundle },
        ComponentView::Hitbox(c) => Bundle { hitbox: Some(c), ..bundle },
        ComponentView::Health(c) => Bundle { health: Some(c), ..bundle },
        ComponentView::Explosion(c) => Bundle { explosion: Some(c), ..bundle },
        ComponentView::Invulnerability(c) => Bundle { invulnerability: Some(c), ..bundle },
        ComponentView::Text(c) => Bundle { text: Some(c), ..bundle },
        ComponentView::TargetPlayer(c) => Bundle { target_player: Some(c), ..bundle },
        ComponentView::PowerOrb(c) => Bundle { power_orb: Some(c), ..bundle },
        ComponentView::PowerBar(c) => Bundle { power_bar: Some(c), ..bundle },
        ComponentView::Circle(c) => Bundle { circle: Some(c), ..bundle },
        ComponentView::CollidesWithBomb(c) => Bundle { collides_with_bomb: Some(c), ..bundle },
        ComponentView::Boss(c) => Bundle { boss: Some(c), ..bundle },
        ComponentView::ColourOverlay(c) => Bundle { colour_overlay: Some(c), ..bundle },
    }
}

/// The components of an entity that was given the components of `list` in
/// order, starting with none.
pub open spec fn bundle_of(list: Seq<ComponentView>) -> Bundle
    decreases list.len(),
{
    if list.len() == 0 {
        no_components()
    } else {
        given(bundle_of(list.drop_last()), list.last())
    }
}

/// The table after `n` entities were made, one after the other.
pub open spec fn spawned(s: Seq<Slot>, n: nat) -> Seq<Slot>
    decreases n,
{
    if n == 0 {
        s
    } else {
        created(spawned(s, (n - 1) as nat))
    }
}

/// The slot that entity `k` gets of those that are made one after the
/// other, counting from nothing.
pub open spec fn slot_of(s: Seq<Slot>, k: nat) -> int {
    first_reusable(spawned(s, k))
}

/// Which of the first `n` entities that are made one after the other gets
/// slot `i`, if one does.
pub open spec fn made_in(s: Seq<Slot>, n: nat, i: int) -> Option<nat>
    decreases n,
{
    if n == 0 {
        None
    } else if slot_of(s, (n - 1) as nat) == i {
        Some((n - 1) as nat)
    } else {
        made_in(s, (n - 1) as nat, i)
    }
}

/// The components of the entity in slot `i` after the sync point: those it
/// was asked for with where it was made there, none where it was deleted,
/// and those it had in any other case.
pub open spec fn synced(
    slots: Seq<Slot>,
    queue: Seq<Seq<ComponentView>>,
    before: Bundle,
    i: int,
) -> Bundle {
    match made_in(swept(slots), queue.len(), i) {
        Some(k) => bundle_of(queue[k as int]),
        None => if killed_slots(slots).contains(i) {
            no_components()
        } else {
            before
        },
    }
}

impl Storages {
    /// The components of the entity in slot `i`.
    pub open spec fn bundle(&self, i: int) -> Bundle {
        Bundle {
            position: self.position.at(i),
            image: self.image.at(i),
            movement: self.movement.at(i),
            die_offscreen: self.die_offscreen.at(i),
            been_onscreen: self.been_onscreen.at(i),
            background_layer: self.background_layer.at(i),
            player: self.player.at(i),
            frozen_until: self.frozen_until.at(i),
            fires_bullets: match self.fires_bullets.at(i) {
                Some(c) => Some(c@),
                None => None,
            },
            cooldown: self.cooldown.at(i),
            friendly: self.friendly.at(i),
            enemy: self.enemy.at(i),
            hitbox: self.hitbox.at(i),
            health: self.health.at(i),
            explosion: self.explosion.at(i),
            invulnerability: self.invulnerability.at(i),
            text: match self.text.at(i) {
                Some(c) => Some(c@),
                None => None,
            },
            target_player: self.target_player.at(i),
            power_orb: self.power_orb.at(i),
            power_bar: self.power_bar.at(i),
            circle: self.circle.at(i),
            collides_with_bomb: self.collides_with_bomb.at(i),
            boss: match self.boss.at(i) {
                Some(c) => Some(c@),
                None => None,
            },
            colour_overlay: self.colour_overlay.at(i),
        }
    }

    /// Tables that hold nothing.
    pub fn new() -> (r: Storages)
        ensures
            forall|i: int| #[trigger] r.bundle(i) == no_components(),
    {
        Storages {
            position: Storage::new(),
            image: Storage::new(),
            movement: Storage::new(),
            die_offscreen: Storage::new(),
            been_onscreen: Storage::new(),
            background_layer: Storage::new(),
            player: Storage::new(),
            frozen_until: Storage::new(),
            fires_bullets: Storage::new(),
            cooldown: Storage::new(),
            friendly: Storage::new(),
            enemy: Storage::new(),
            hitbox: Storage::new(),
            health: Storage::new(),
            explosion: Storage::new(),
            invulnerability: Storage::new(),
            text: Storage::new(),
            target_player: Storage::new(),
            power_orb: Storage::new(),
            power_bar: Storage::new(),
            circle: Storage::new(),
            collides_with_bomb: Storage::new(),
            boss: Storage::new(),
            colour_overlay: Storage::new(),
        }
    }

    /// Gives the entity in slot `i` a component.
    pub fn insert(&mut self, i: usize, component: Component)
        ensures
            final(self).bundle(i as int) == given(old(self).bundle(i as int), component@),
            forall|j: int| j != i ==> #[trigger] final(self).bundle(j) == old(self).bundle(j),
    {
        match component {
            Component::Position(c) => {
                self.position.insert(i, c);
            },
            Component::Image(c) => {
                self.image.insert(i, c);
            },
            Component::Movement(c) => {
                self.movement.insert(i, c);
            },
            Component::DieOffscreen(c) => {
                self.die_offscreen.insert(i, c);
            },
            Component::BeenOnscreen(c) => {
                self.been_onscreen.insert(i, c);
            },
            Component::BackgroundLayer(c) => {
                self.background_layer.insert(i, c);
            },
            Component::Player(c) => {
                self.player.insert(i, c);
            },
            Component::FrozenUntil(c) => {
                self.frozen_until.insert(i, c);
            },
            Component::FiresBullets(c) => {
                self.fires_bullets.insert(i, c);
            },
            Component::Cooldown(c) => {
                self.cooldown.insert(i, c);
            },
            Component::Friendly(c) => {
                self.friendly.insert(i, c);
            },
            Component::Enemy(c) => {
                self.enemy.insert(i, c);
            },
            Component::Hitbox(c) => {
                self.hitbox.insert(i, c);
            },
            Component::Health(c) => {
                self.health.insert(i, c);
            },
            Component::Explosion(c) => {
                self.explosion.insert(i, c);
            },
            Component::Invulnerability(c) => {
                self.invulnerability.insert(i, c);
            },
            Component::Text(c) => {
                self.text.insert(i, c);
            },
            Component::TargetPlayer(c) => {
                self.target_player.insert(i, c);
            },
            Component::PowerOrb(c) => {
                self.power_orb.insert(i, c);
            },
            Component::PowerBar(c) => {
                self.power_bar.insert(i, c);
            },
            Component::Circle(c) => {
                self.circle.insert(i, c);
            },
            Component::CollidesWithBomb(c) => {
                self.collides_with_bomb.insert(i, c);
            },
            Component::Boss(c) => {
                self.boss.insert(i, c);
            },
            Component::ColourOverlay(c) => {
                self.colour_overlay.insert(i, c);
            },
        }
    }

    /// Takes every component from the entity in slot `i`.
    pub fn wipe(&mut self, i: usize)
        ensures
            final(self).bundle(i as int) == no_components(),
            forall|j: int| j != i ==> #[trigger] final(self).bundle(j) == old(self).bundle(j),
    {
        self.position.remove(i);
        self.image.remove(i);
        self.movement.remove(i);
        self.die_offscreen.remove(i);
        self.been_onscreen.remove(i);
        self.background_layer.remove(i);
        self.player.remove(i);
        self.frozen_until.remove(i);
        self.fires_bullets.remove(i);
        self.cooldown.remove(i);
        self.friendly.remove(i);
        self.enemy.remove(i);
        self.hitbox.remove(i);
        self.health.remove(i);
        self.explosion.remove(i);
        self.invulnerability.remove(i);
        self.text.remove(i);
        self.target_player.remove(i);
        self.power_orb.remove(i);
        self.power_bar.remove(i);
        self.circle.remove(i);
        self.collides_with_bomb.remove(i);
        self.boss.remove(i);
        self.colour_overlay.remove(i);
    }

    /// Takes every component from the entities that were deleted.
    pub fn purge(&mut self, entities: &Entities)
        ensures
            forall|i: int|
                #[trigger] final(self).bundle(i) == if killed_slots(entities@).contains(i) {
                    no_components()
                } else {
                    old(self).bundle(i)
                },
    {
        self.position.purge(entities);
        self.image.purge(entities);
        self.movement.purge(entities);
        self.die_offscreen.purge(entities);
        self.been_onscreen.purge(entities);
        self.background_layer.purge(entities);
        self.player.purge(entities);
        self.frozen_until.purge(entities);
        self.fires_bullets.purge(entities);
        self.cooldown.purge(entities);
        self.friendly.purge(entities);
        self.enemy.purge(entities);
        self.hitbox.purge(entities);
        self.health.purge(entities);
        self.explosion.purge(entities);
        self.invulnerability.purge(entities);
        self.text.purge(entities);
        self.target_player.purge(entities);
        self.power_orb.purge(entities);
        self.power_bar.purge(entities);
        self.circle.purge(entities);
        self.collides_with_bomb.purge(entities);
        self.boss.purge(entities);
        self.colour_overlay.purge(entities);
    }
}

/// The world of the simulation: the entities and their components, the
/// entities that were asked for, the clock, the mode of the game, and the
/// lists that the systems of a frame hand to each other.
pub struct World {
    pub entities: Entities,
    pub updater: LazyUpdate,
    pub storages: Storages,
    pub time: GameTime,
    pub mode: Mode,
    /// The bullets asked for in this frame and not yet made.
    pub bullet_spawner: BulletSpawner,
    /// The contacts found in this frame and not yet resolved.
    pub damage_tracker: DamageTracker,
}

/// Making an entity changes one slot: the one it gets, which then holds a
/// living entity and did not before. The table does not shrink.
pub proof fn lemma_created(s: Seq<Slot>)
    ensures
        0 <= first_reusable(s) <= s.len(),
        !alive_in(s, first_reusable(s)),
        alive_in(created(s), first_reusable(s)),
        created(s).len() >= s.len(),
        forall|i: int| 0 <= i < s.len() && i != first_reusable(s) ==> created(s)[i] == s[i],
        forall|i: int| alive_in(s, i) ==> alive_in(created(s), i),
        forall|i: int| alive_in(created(s), i) ==> alive_in(s, i) || i == first_reusable(s),
{
    lemma_first_reusable_from(s, 0);
}

/// Entities that are made stay alive while more are made, and each is
/// alive from the moment it is made.
pub proof fn lemma_spawned_keeps(s: Seq<Slot>, k: nat, n: nat, i: int)
    requires
        k <= n,
    ensures
        alive_in(spawned(s, k), i) ==> alive_in(spawned(s, n), i),
        k < n ==> alive_in(spawned(s, n), slot_of(s, k)),
    decreases n - k,
{
    if k < n {
        lemma_created(spawned(s, (n - 1) as nat));
        lemma_spawned_keeps(s, k, (n - 1) as nat, i);
        if k < n - 1 {
            lemma_spawned_keeps(s, k, (n - 1) as nat, slot_of(s, k));
        }
    }
}

/// No two of the entities that are made one after the other share a slot.
pub proof fn lemma_slots_differ(s: Seq<Slot>, k: nat, m: nat)
    requires
        k < m,
    ensures
        slot_of(s, k) != slot_of(s, m),
{
    lemma_spawned_keeps(s, k, m, slot_of(s, k));
    lemma_created(spawned(s, m));
}

/// The slot of each entity that is made is found to be its slot.
pub proof fn lemma_made_in(s: Seq<Slot>, n: nat, k: nat)
    requires
        k < n,
    ensures
        made_in(s, n, slot_of(s, k)) == Some(k),
    decreases n,
{
    if k < n - 1 {
        lemma_slots_differ(s, k, (n - 1) as nat);
        lemma_made_in(s, (n - 1) as nat, k);
    }
}

/// Whoever is alive after entities were made was alive before or was made.
pub proof fn lemma_alive_was_made(s: Seq<Slot>, n: nat, i: int)
    requires
        alive_in(spawned(s, n), i),
    ensures
        alive_in(s, i) || made_in(s, n, i) is Some,
    decreases n,
{
    if n > 0 {
        lemma_created(spawned(s, (n - 1) as nat));
        if i != slot_of(s, (n - 1) as nat) {
            lemma_alive_was_made(s, (n - 1) as nat, i);
        }
    }
}

/// A stage start resets the world. Whatever the entity table held before,
/// once every entity was deleted and the sync point has made the entities
/// of a script, the living entities are exactly those of the script, one for
/// each of its items and none besides. So a stage that is started twice in
/// a row leaves what the second start asked for.
pub proof fn law_stage_start_resets(slots: Seq<Slot>, script: Seq<Seq<ComponentView>>)
    ensures
        ({
            let fresh = swept(all_killed(slots));
            let after = spawned(fresh, script.len());
            &&& forall|k: nat|
                k < script.len() ==> alive_in(after, #[trigger] slot_of(fresh, k)) && made_in(
                    fresh,
                    script.len(),
                    slot_of(fresh, k),
                ) == Some(k)
            &&& forall|i: int| #[trigger] alive_in(after, i) ==> made_in(fresh, script.len(), i) is Some
            &&& forall|k: nat, before: Bundle|
                k < script.len() ==> #[trigger] synced(
                    all_killed(slots),
                    script,
                    before,
                    slot_of(fresh, k),
                ) == bundle_of(script[k as int])
        }),
{
    let fresh = swept(all_killed(slots));
    let after = spawned(fresh, script.len());
    assert forall|k: nat, before: Bundle| k < script.len() implies #[trigger] synced(
        all_killed(slots),
        script,
        before,
        slot_of(fresh, k),
    ) == bundle_of(script[k as int]) by {
        lemma_made_in(fresh, script.len(), k);
    }
    assert forall|k: nat| k < script.len() implies alive_in(after, #[trigger] slot_of(fresh, k))
        && made_in(fresh, script.len(), slot_of(fresh, k)) == Some(k) by {
        lemma_spawned_keeps(fresh, k, script.len(), 0);
        lemma_made_in(fresh, script.len(), k);
    }
    assert forall|i: int| #[trigger] alive_in(after, i) implies made_in(
        fresh,
        script.len(),
        i,
    ) is Some by {
        lemma_alive_was_made(fresh, script.len(), i);
    }
}

impl World {
    /// A world without entities.
    pub fn new() -> (r: World)
        ensures
            r.entities@ == Seq::<Slot>::empty(),
            r.updater@ == Seq::<Seq<ComponentView>>::empty(),
            forall|i: int| #[trigger] r.storages.bundle(i) == no_components(),
            r.time.total_time == 0,
            r.mode == (Mode::MainMenu { selected: 0 }),
            r.bullet_spawner.0@ == Seq::<BulletToBeSpawned>::empty(),
            r.damage_tracker.0@ == Seq::<Damage>::empty(),
    {
        World {
            entities: Entities::new(),
            updater: LazyUpdate::new(),
            storages: Storages::new(),
            time: GameTime { total_time: 0 },
            mode: Mode::MainMenu { selected: 0 },
            bullet_spawner: BulletSpawner(Vec::new()),
            damage_tracker: DamageTracker(Vec::new()),
        }
    }

    /// Resets the world to the start of a stage: the clock goes back to
    /// nothing, every entity is deleted, whatever was asked for and not yet
    /// made is dropped, and so are the bullets and the contacts that wait;
    /// the entities of the stage are asked for, with some fair rolls of the
    /// dice, and the game is in play.
    pub fn start_stage(&mut self, stage: Stage, multiplayer: bool)
        ensures
            final(self).time.total_time == 0,
            final(self).mode == (Mode::Playing {
                stage,
                state: PlayingState::Playing,
                multiplayer,
            }),
            final(self).entities@ == all_killed(old(self).entities@),
            final(self).bullet_spawner.0@ == Seq::<BulletToBeSpawned>::empty(),
            final(self).damage_tracker.0@ == Seq::<Damage>::empty(),
            forall|i: int| #[trigger] final(self).storages.bundle(i) == old(self).storages.bundle(i),
            exists|rolls: Seq<u32>|
                match stage {
                    Stage::One => stage_one_fair(rolls) && final(self).updater@
                        == stage_one_script(multiplayer, rolls),
                    Stage::Two => stage_two_fair(rolls) && final(self).updater@
                        == stage_two_script(multiplayer, rolls),
                },
    {
        match stage {
            Stage::One => {
                stage_one(
                    &mut self.entities,
                    &mut self.updater,
                    multiplayer,
                    &mut self.time.total_time,
                );
            },
            Stage::Two => {
                stage_two(
                    &mut self.entities,
                    &mut self.updater,
                    multiplayer,
                    &mut self.time.total_time,
                );
            },
        }
        self.bullet_spawner.0.clear();
        self.damage_tracker.0.clear();
        self.mode = Mode::Playing { stage, state: PlayingState::Playing, multiplayer };
    }

    /// The sync point of a frame. The entities that were deleted lose their
    /// components and their slots become free. Then every entity that was
    /// asked for is made, oldest first, each in the first slot that is free,
    /// with exactly the components it was asked for with.
    pub fn maintain(&mut self)
        ensures
            final(self).updater@ == Seq::<Seq<ComponentView>>::empty(),
            final(self).entities@ == spawned(
                swept(old(self).entities@),
                old(self).updater@.len(),
            ),
            forall|i: int|
                #[trigger] final(self).storages.bundle(i) == synced(
                    old(self).entities@,
                    old(self).updater@,
                    old(self).storages.bundle(i),
                    i,
                ),
            final(self).time == old(self).time,
            final(self).mode == old(self).mode,
            final(self).bullet_spawner.0@ == old(self).bullet_spawner.0@,
            final(self).damage_tracker.0@ == old(self).damage_tracker.0@,
    {
        let ghost slots = self.entities@;
        let ghost queue = self.updater@;
        self.storages.purge(&self.entities);
        self.entities.sweep();
        let ghost purged = self.storages;
        let mut pending = self.updater.take();
        let n: usize = pending.len();
        let mut k: usize = 0;
        while k < n
            invariant
                k <= n,
                n == queue.len(),
                slots == old(self).entities@,
                queue == old(self).updater@,
                self.time == old(self).time,
                self.mode == old(self).mode,
                self.bullet_spawner.0@ == old(self).bullet_spawner.0@,
                self.damage_tracker.0@ == old(self).damage_tracker.0@,
                self.updater@ == Seq::<Seq<ComponentView>>::empty(),
                pending@.len() == n - k,
                forall|j: int| 0 <= j < pending@.len() ==> (#[trigger] pending@[j])@ == queue[k + j],
                self.entities@ == spawned(swept(slots), k as nat),
                forall|i: int|
                    #[trigger] purged.bundle(i) == if killed_slots(slots).contains(i) {
                        no_components()
                    } else {
                        old(self).storages.bundle(i)
                    },
                forall|i: int|
                    #[trigger] self.storages.bundle(i) == match made_in(
                        swept(slots),
                        k as nat,
                        i,
                    ) {
                        Some(m) => bundle_of(queue[m as int]),
                        None => purged.bundle(i),
                    },
            decreases n - k,
        {
            let builder = pending.remove(0);
            let entity = self.entities.create();
            self.storages.wipe(entity.index);
            let mut components = builder.into_components();
            let ghost wanted = component_views(components@);
            let ghost before = self.storages;
            let ghost slots_now = self.entities@;
            let count: usize = components.len();
            let mut c: usize = 0;
            while c < count
                invariant
                    c <= count,
                    self.entities@ == slots_now,
                    self.updater@ == Seq::<Seq<ComponentView>>::empty(),
                    self.time == old(self).time,
                    self.mode == old(self).mode,
                    self.bullet_spawner.0@ == old(self).bullet_spawner.0@,
                    self.damage_tracker.0@ == old(self).damage_tracker.0@,
                    count == wanted.len(),
                    components@.len() == count - c,
                    forall|j: int|
                        0 <= j < components@.len() ==> (#[trigger] components@[j])@ == wanted[c
                            + j],
                    self.storages.bundle(entity.index as int) == bundle_of(wanted.take(c as int)),
                    forall|j: int|
                        j != entity.index ==> #[trigger] self.storages.bundle(j) == before.bundle(j),
                decreases count - c,
            {
                let component = components.remove(0);
                self.storages.insert(entity.index, component);
                proof {
                    assert(wanted.take(c + 1).drop_last() =~= wanted.take(c as int));
                }
                c = c + 1;
            }
            proof {
                assert(wanted.take(count as int) =~= wanted);
            }
            k = k + 1;
        }
    }
}

} // verus!
