//! Entities that systems ask for during a frame and that are made at its end.

use vstd::prelude::*;
use crate::components::BackgroundLayer;
use crate::components::BeenOnscreen;
use crate::components::Boss;
use crate::components::BossView;
use crate::components::Circle;
use crate::components::CollidesWithBomb;
use crate::components::ColourOverlay;
use crate::components::Cooldown;
use crate::components::DieOffscreen;
use crate::components::Enemy;
use crate::components::Explosion;
use crate::components::FiresBullets;
use crate::components::Friendly;
use crate::components::FrozenUntil;
use crate::components::Health;
use crate::components::Hitbox;
use crate::components::Image;
use crate::components::Invulnerability;
use crate::components::Movement;
use crate::components::Pattern;
use crate::components::Player;
use crate::components::Position;
use crate::components::PowerBar;
use crate::components::PowerOrb;
use crate::components::TargetPlayer;
use crate::components::Text;
use crate::components::TextView;

verus! {

/// One component, of any type, on its way to an entity.
pub enum Component {
    Position(Position),
    Image(Image),
    Movement(Movement),
    DieOffscreen(DieOffscreen),
    BeenOnscreen(BeenOnscreen),
    BackgroundLayer(BackgroundLayer),
    Player(Player),
    FrozenUntil(FrozenUntil),
    FiresBullets(FiresBullets),
    Cooldown(Cooldown),
    Friendly(Friendly),
    Enemy(Enemy),
    Hitbox(Hitbox),
    Health(Health),
    Explosion(Explosion),
    Invulnerability(Invulnerability),
    Text(Text),
    TargetPlayer(TargetPlayer),
    PowerOrb(PowerOrb),
    PowerBar(PowerBar),
    Circle(Circle),
    CollidesWithBomb(CollidesWithBomb),
    Boss(Boss),
    ColourOverlay(ColourOverlay),
}

/// What a `Component` holds, with lists as sequences.
pub enum ComponentView {
    Position(Position),
    Image(Image),
    Movement(Movement),
    DieOffscreen(DieOffscreen),
    BeenOnscreen(BeenOnscreen),
    BackgroundLayer(BackgroundLayer),
    Player(Player),
    FrozenUntil(FrozenUntil),
    FiresBullets(Pattern),
    Cooldown(Cooldown),
    Friendly(Friendly),
    Enemy(Enemy),
    Hitbox(Hitbox),
    Health(Health),
    Explosion(Explosion),
    Invulnerability(Invulnerability),
    Text(TextView),
    TargetPlayer(TargetPlayer),
    PowerOrb(PowerOrb),
    PowerBar(PowerBar),
    Circle(Circle),
    CollidesWithBomb(CollidesWithBomb),
    Boss(BossView),
    ColourOverlay(ColourOverlay),
}

impl View for Component {
    type V = ComponentView;

    open spec fn view(&self) -> ComponentView {
        match *self {
            Component::Position(c) => ComponentView::Position(c),
            Component::Image(c) => ComponentView::Image(c),
            Component::Movement(c) => ComponentView::Movement(c),
            Component::DieOffscreen(c) => ComponentView::DieOffscreen(c),
            Component::BeenOnscreen(c) => ComponentView::BeenOnscreen(c),
            Component::BackgroundLayer(c) => ComponentView::BackgroundLayer(c),
            Component::Player(c) => ComponentView::Player(c),
            Component::FrozenUntil(c) => ComponentView::FrozenUntil(c),
            Component::FiresBullets(c) => ComponentView::FiresBullets(c@),
            Component::Cooldown(c) => ComponentView::Cooldown(c),
            Component::Friendly(c) => ComponentView::Friendly(c),
            Component::Enemy(c) => ComponentView::Enemy(c),
            Component::Hitbox(c) => ComponentView::Hitbox(c),
            Component::Health(c) => ComponentView::Health(c),
            Component::Explosion(c) => ComponentView::Explosion(c),
            Component::Invulnerability(c) => ComponentView::Invulnerability(c),
            Component::Text(c) => ComponentView::Text(c@),
            Component::TargetPlayer(c) => ComponentView::TargetPlayer(c),
            Component::PowerOrb(c) => ComponentView::PowerOrb(c),
            Component::PowerBar(c) => ComponentView::PowerBar(c),
            Component::Circle(c) => ComponentView::Circle(c),
            Component::CollidesWithBomb(c) => ComponentView::CollidesWithBomb(c),
            Component::Boss(c) => ComponentView::Boss(c@),
            Component::ColourOverlay(c) => ComponentView::ColourOverlay(c),
        }
    }
}

/// The views of a list of components.
pub open spec fn component_views(list: Seq<Component>) -> Seq<ComponentView> {
    Seq::new(list.len(), |i: int| list[i]@)
}

/// An entity that is being put together: the components it will be given, in
/// the order they were added.
pub struct LazyBuilder {
    components: Vec<Component>,
}

impl View for LazyBuilder {
    type V = Seq<ComponentView>;

    closed spec fn view(&self) -> Seq<ComponentView> {
        component_views(self.components@)
    }
}

impl LazyBuilder {
    /// Adds a component.
    pub fn with(self, component: Component) -> (r: LazyBuilder)
        ensures
            r@ == self@.push(component@),
    {
        let mut components = self.components;
        components.push(component);
        let r = LazyBuilder { components };
        assert(r@ =~= self@.push(component@));
        r
    }

    /// Queues the entity: it will exist from the next sync point on.
    pub fn build(self, updater: &mut LazyUpdate)
        ensures
            final(updater)@ == old(updater)@.push(self@),
    {
        updater.pending.push(self);
        assert(updater@ =~= old(updater)@.push(self@));
    }

    /// The components, for the sync point to hand out.
    pub(crate) fn into_components(self) -> (r: Vec<Component>)
        ensures
            component_views(r@) == self@,
    {
        self.components
    }
}

/// The entities asked for since the last sync point, oldest first.
pub struct LazyUpdate {
    pending: Vec<LazyBuilder>,
}

impl View for LazyUpdate {
    type V = Seq<Seq<ComponentView>>;

    closed spec fn view(&self) -> Seq<Seq<ComponentView>> {
        Seq::new(self.pending@.len(), |i: int| self.pending@[i]@)
    }
}

impl LazyUpdate {
    /// A queue with nothing in it.
    pub fn new() -> (r: LazyUpdate)
        ensures
            r@ == Seq::<Seq<ComponentView>>::empty(),
    {
        let r = LazyUpdate { pending: Vec::new() };
        assert(r@ =~= Seq::<Seq<ComponentView>>::empty());
        r
    }

    /// Starts an entity without components.
    pub fn create_entity(&self) -> (r: LazyBuilder)
        ensures
            r@ == Seq::<ComponentView>::empty(),
    {
        let r = LazyBuilder { components: Vec::new() };
        assert(r@ =~= Seq::<ComponentView>::empty());
        r
    }

    /// Drops every entity that waits.
    pub fn clear(&mut self)
        ensures
            final(self)@ == Seq::<Seq<ComponentView>>::empty(),
    {
        self.pending.clear();
        assert(self@ =~= Seq::<Seq<ComponentView>>::empty());
    }

    /// How many entities wait.
    pub fn len(&self) -> (n: usize)
        ensures
            n == self@.len(),
    {
        self.pending.len()
    }

    /// Empties the queue and hands out what was in it, oldest first.
    pub(crate) fn take(&mut self) -> (r: Vec<LazyBuilder>)
        ensures
            final(self)@ == Seq::<Seq<ComponentView>>::empty(),
            r@.len() == old(self)@.len(),
            forall|i: int| 0 <= i < r@.len() ==> (#[trigger] r@[i])@ == old(self)@[i],
    {
        let mut out: Vec<LazyBuilder> = Vec::new();
        core::mem::swap(&mut self.pending, &mut out);
        assert(self@ =~= Seq::<Seq<ComponentView>>::empty());
        out
    }
}

} // verus!
