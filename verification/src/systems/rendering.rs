//! The systems that fill the draw list, and those that only change how
//! things look.

use vstd::prelude::*;
use vstd::string::*;
use crate::components::BackgroundLayer;
use crate::components::Boss;
use crate::components::Circle;
use crate::components::Colour;
use crate::components::ColourOverlay;
use crate::components::Explosion;
use crate::components::FrozenUntil;
use crate::components::Health;
use crate::components::Hitbox;
use crate::components::HorizontalAlign;
use crate::components::Image;
use crate::components::Invulnerability;
use crate::components::Layout;
use crate::components::Player;
use crate::components::Position;
use crate::components::PowerBar;
use crate::components::Text;
use crate::components::VerticalAlign;
use crate::graphics::frame_size;
use crate::graphics::Atlas;
use crate::graphics::Image as GraphicsImage;
use crate::math::narrow;
use crate::math::saturate;
use crate::math::Vec2;
use crate::renderer::clear_colour;
use crate::renderer::doubled;
use crate::renderer::white;
use crate::renderer::BufferRenderer;
use crate::renderer::DrawView;
use crate::resources::item_views;
use crate::resources::ControlsState;
use crate::resources::GameTime;
use crate::resources::ItemView;
use crate::resources::Mode;
use crate::storage::alive_in;
use crate::storage::Entities;
use crate::storage::Life;
use crate::storage::Slot;
use crate::storage::Storage;

verus! {

/// Lets the backdrops scroll round.
pub struct RepeatBackgroundLayers;

/// Where a backdrop of the height `height` that has scrolled to `y` is
/// drawn: four heights further up once it is more than two heights down.
pub open spec fn scrolled_round(y: i32, height: i32) -> i32 {
    if y > height * 2 {
        saturate(y - height * 4) as i32
    } else {
        y
    }
}

/// Whether the entity in slot `i` is a living backdrop with a sprite and a
/// position.
pub open spec fn backdrop(
    entities: Seq<Slot>,
    layer: Map<int, BackgroundLayer>,
    image: Map<int, Image>,
    pos: Map<int, Position>,
    i: int,
) -> bool {
    alive_in(entities, i) && layer.dom().contains(i) && image.dom().contains(i)
        && pos.dom().contains(i)
}

impl RepeatBackgroundLayers {
    /// Every backdrop that has scrolled more than twice its height down is
    /// set back by four times its height. Nothing else changes.
    pub fn run(
        &mut self,
        entities: &Entities,
        layer: &Storage<BackgroundLayer>,
        image: &Storage<Image>,
        pos: &mut Storage<Position>,
        atlas: &Atlas,
    )
        ensures
            forall|i: int|
                (#[trigger] final(pos).at(i)) == if backdrop(
                    entities@,
                    layer@,
                    image@,
                    old(pos)@,
                    i,
                ) {
                    Some(
                        Position(
                            Vec2 {
                                x: old(pos)@[i].0.x,
                                y: scrolled_round(
                                    old(pos)@[i].0.y,
                                    frame_size(atlas.frame_of(image@[i].0)).y,
                                ),
                            },
                        ),
                    )
                } else {
                    old(pos).at(i)
                },
    {
        let n: usize = entities.len();
        let mut i: usize = 0;
        while i < n
            invariant
                i <= n,
                n == entities@.len(),
                forall|j: int|
                    (#[trigger] pos.at(j)) == if j < i && backdrop(
                        entities@,
                        layer@,
                        image@,
                        old(pos)@,
                        j,
                    ) {
                        Some(
                            Position(
                                Vec2 {
                                    x: old(pos)@[j].0.x,
                                    y: scrolled_round(
                                        old(pos)@[j].0.y,
                                        frame_size(atlas.frame_of(image@[j].0)).y,
                                    ),
                                },
                            ),
                        )
                    } else {
                        old(pos).at(j)
                    },
            decreases n - i,
        {
            let ghost before = *pos;
            if entities.alive_at(i) && layer.contains(i) {
                if let Some(sprite) = image.get(i) {
                    let size = sprite.size(atlas);
                    if let Some(at) = pos.get_mut(i) {
                        if at.0.y as i64 > size.y as i64 * 2 {
                            at.0.y = narrow(at.0.y as i64 - size.y as i64 * 4);
                        }
                    }
                }
            }
            proof {
                assert forall|j: int|
                    (#[trigger] pos.at(j)) == if j < i + 1 && backdrop(
                        entities@,
                        layer@,
                        image@,
                        old(pos)@,
                        j,
                    ) {
                        Some(
                            Position(
                                Vec2 {
                                    x: old(pos)@[j].0.x,
                                    y: scrolled_round(
                                        old(pos)@[j].0.y,
                                        frame_size(atlas.frame_of(image@[j].0)).y,
                                    ),
                                },
                            ),
                        )
                    } else {
                        old(pos).at(j)
                    } by {
                    assert(before.at(j) == if j < i && backdrop(
                        entities@,
                        layer@,
                        image@,
                        old(pos)@,
                        j,
                    ) {
                        Some(
                            Position(
                                Vec2 {
                                    x: old(pos)@[j].0.x,
                                    y: scrolled_round(
                                        old(pos)@[j].0.y,
                                        frame_size(atlas.frame_of(image@[j].0)).y,
                                    ),
                                },
                            ),
                        )
                    } else {
                        old(pos).at(j)
                    });
                }
            }
            i = i + 1;
        }
    }
}

/// Gives the blast effects their sprites and ends them.
pub struct ExplosionImages;

/// How long a blast effect shows each of its six sprites.
pub const EXPLOSION_FRAME: u64 = 500;

/// Which of its sprites a blast effect that began at `began` shows at
/// `now`, counting from nothing; from six on it is over.
pub open spec fn explosion_frame(began: u64, now: u64) -> int {
    if now < began {
        0
    } else {
        (now - began) / (EXPLOSION_FRAME as int)
    }
}

/// The sprite of frame `frame` of a blast effect.
pub open spec fn explosion_sprite(frame: int) -> Image {
    Image((GraphicsImage::Explosion1.code() + frame) as u16)
}

/// Whether the entity in slot `i` is a living blast effect.
pub open spec fn exploding(entities: Seq<Slot>, explosion: Map<int, Explosion>, i: int) -> bool {
    alive_in(entities, i) && explosion.dom().contains(i)
}

impl ExplosionImages {
    /// Every blast effect is given the sprite of the frame it has reached,
    /// and is deleted once its sixth frame is over. Nothing else changes.
    pub fn run(
        &mut self,
        entities: &mut Entities,
        explosion: &Storage<Explosion>,
        image: &mut Storage<Image>,
        time: &GameTime,
    )
        ensures
            final(entities)@.len() == old(entities)@.len(),
            forall|i: int|
                0 <= i < old(entities)@.len() ==> (#[trigger] final(entities)@[i]) == if exploding(
                    old(entities)@,
                    explosion@,
                    i,
                ) && explosion_frame(explosion@[i].0, time.total_time) >= 6 {
                    Slot { generation: old(entities)@[i].generation, life: Life::Killed }
                } else {
                    old(entities)@[i]
                },
            forall|i: int|
                (#[trigger] final(image).at(i)) == if exploding(old(entities)@, explosion@, i)
                    && explosion_frame(explosion@[i].0, time.total_time) < 6 {
                    Some(explosion_sprite(explosion_frame(explosion@[i].0, time.total_time)))
                } else {
                    old(image).at(i)
                },
    {
        let n: usize = entities.len();
        let mut i: usize = 0;
        while i < n
            invariant
                i <= n,
                n == entities@.len(),
                n == old(entities)@.len(),
                forall|j: int|
                    0 <= j < n ==> (#[trigger] entities@[j]) == if j < i && exploding(
                        old(entities)@,
                        explosion@,
                        j,
                    ) && explosion_frame(explosion@[j].0, time.total_time) >= 6 {
                        Slot { generation: old(entities)@[j].generation, life: Life::Killed }
                    } else {
                        old(entities)@[j]
                    },
                forall|j: int|
                    (#[trigger] image.at(j)) == if j < i && exploding(
                        old(entities)@,
                        explosion@,
                        j,
                    ) && explosion_frame(explosion@[j].0, time.total_time) < 6 {
                        Some(explosion_sprite(explosion_frame(explosion@[j].0, time.total_time)))
                    } else {
                        old(image).at(j)
                    },
            decreases n - i,
        {
            let ghost before = *image;
            if let Some(entity) = entities.entity_at(i) {
                if let Some(blast) = explosion.get(i) {
                    let frame: u64 = if time.total_time < blast.0 {
                        0
                    } else {
                        (time.total_time - blast.0) / EXPLOSION_FRAME
                    };
                    if frame < 6 {
                        let first: u16 = GraphicsImage::Explosion1.to_u16();
                        image.insert(i, Image(first + frame as u16));
                    } else {
                        let _ = entities.delete(entity);
                    }
                }
            }
            proof {
                assert forall|j: int|
                    (#[trigger] image.at(j)) == if j < i + 1 && exploding(
                        old(entities)@,
                        explosion@,
                        j,
                    ) && explosion_frame(explosion@[j].0, time.total_time) < 6 {
                        Some(explosion_sprite(explosion_frame(explosion@[j].0, time.total_time)))
                    } else {
                        old(image).at(j)
                    } by {
                    assert(before.at(j) == if j < i && exploding(old(entities)@, explosion@, j)
                        && explosion_frame(explosion@[j].0, time.total_time) < 6 {
                        Some(explosion_sprite(explosion_frame(explosion@[j].0, time.total_time)))
                    } else {
                        old(image).at(j)
                    });
                }
            }
            i = i + 1;
        }
    }
}

/// Where a backdrop of the depth `depth` goes into a list of backdrops that
/// is in order of depth: behind the last one that is no deeper.
pub open spec fn layer_place(list: Seq<(Vec2, Image, u32)>, depth: u32) -> int
    decreases list.len(),
{
    if list.len() == 0 || list.last().2 <= depth {
        list.len() as int
    } else {
        layer_place(list.drop_last(), depth)
    }
}

/// Whether a list of backdrops is in order of depth.
pub open spec fn in_order_of_depth(list: Seq<(Vec2, Image, u32)>) -> bool {
    forall|a: int, b: int| 0 <= a <= b < list.len() ==> (#[trigger] list[a]).2 <= (#[trigger] list[b]).2
}

/// The place of a backdrop lies within the list; what lies before it is no
/// deeper than the backdrop, and what lies from it on, in a list in order of
/// depth, is deeper.
pub proof fn lemma_layer_place(list: Seq<(Vec2, Image, u32)>, depth: u32)
    ensures
        0 <= layer_place(list, depth) <= list.len(),
        layer_place(list, depth) > 0 ==> list[layer_place(list, depth) - 1].2 <= depth,
        forall|k: int| layer_place(list, depth) <= k < list.len() ==> (#[trigger] list[k]).2 > depth,
    decreases list.len(),
{
    if list.len() > 0 && list.last().2 > depth {
        lemma_layer_place(list.drop_last(), depth);
        let place = layer_place(list.drop_last(), depth);
        assert forall|k: int| place <= k < list.len() implies (#[trigger] list[k]).2 > depth by {
            if k < list.len() - 1 {
                assert(list.drop_last()[k] == list[k]);
            }
        }
        if place > 0 {
            assert(list.drop_last()[place - 1] == list[place - 1]);
        }
    }
}

/// What drawing the sprites reads.
pub struct Scene {
    pub entities: Seq<Slot>,
    pub pos: Map<int, Position>,
    pub image: Map<int, Image>,
    pub invul: Map<int, Invulnerability>,
    pub frozen: Map<int, FrozenUntil>,
    pub bg: Map<int, BackgroundLayer>,
    pub overlay: Map<int, ColourOverlay>,
    pub now: u64,
    pub atlas: Atlas,
}

/// The white veil over an entity that has just been hit.
pub open spec fn veil() -> Colour {
    Colour { red: 255, green: 255, blue: 255, alpha: 51 }
}

/// Whether an entity that is protected for another `remaining` steps of
/// the clock is veiled: steadily while more than a second is left, and
/// blinking five times a second after that.
pub open spec fn flashes(remaining: u64) -> bool {
    remaining > 0 && (remaining > 6000 || remaining % 1200 > 600)
}

impl Scene {
    /// Whether the entity in slot `i` is a living backdrop with a sprite and
    /// a position.
    pub open spec fn layer(self, i: int) -> bool {
        backdrop(self.entities, self.bg, self.image, self.pos, i)
    }

    /// The backdrops in the slots below `n`, in order of depth, and by
    /// rising slot where the depth is the same.
    pub open spec fn layers(self, n: int) -> Seq<(Vec2, Image, u32)>
        decreases n,
    {
        if n <= 0 {
            Seq::empty()
        } else if self.layer(n - 1) {
            let earlier = self.layers(n - 1);
            earlier.insert(
                layer_place(earlier, self.bg[n - 1].depth),
                (self.pos[n - 1].0, self.image[n - 1], self.bg[n - 1].depth),
            )
        } else {
            self.layers(n - 1)
        }
    }

    /// How a backdrop is drawn.
    pub open spec fn layer_draw(self, layer: (Vec2, Image, u32)) -> DrawView {
        DrawView::Sprite {
            image: layer.1,
            center: layer.0,
            dimensions: doubled(frame_size(self.atlas.frame_of(layer.1.0))),
            rotation: 0,
            overlay: clear_colour(),
        }
    }

    /// Whether the entity in slot `i` is drawn as a sprite in front of the
    /// backdrops: it is alive, not frozen, no backdrop, and has a sprite and
    /// a position.
    pub open spec fn actor(self, i: int) -> bool {
        alive_in(self.entities, i) && self.pos.dom().contains(i) && self.image.dom().contains(i)
            && !self.frozen.dom().contains(i) && !self.bg.dom().contains(i)
    }

    /// What is laid over the sprite of the entity in slot `i`: its own
    /// colour if it has one, else the veil while it flashes, else nothing.
    pub open spec fn tint(self, i: int) -> Colour {
        if self.overlay.dom().contains(i) {
            self.overlay[i].0
        } else if self.invul.dom().contains(i) && flashes(remaining(self.invul[i], self.now)) {
            veil()
        } else {
            clear_colour()
        }
    }

    /// The sprites of the actors in the slots below `n`, by rising slot.
    pub open spec fn actors(self, n: int) -> Seq<DrawView>
        decreases n,
    {
        if n <= 0 {
            Seq::empty()
        } else if self.actor(n - 1) {
            self.actors(n - 1).push(
                DrawView::Sprite {
                    image: self.image[n - 1],
                    center: self.pos[n - 1].0,
                    dimensions: doubled(frame_size(self.atlas.frame_of(self.image[n - 1].0))),
                    rotation: 0,
                    overlay: self.tint(n - 1),
                },
            )
        } else {
            self.actors(n - 1)
        }
    }

    /// The sprites of the first `n` of the backdrops `layers`.
    pub open spec fn layer_draws(self, layers: Seq<(Vec2, Image, u32)>, n: int) -> Seq<DrawView>
        decreases n,
    {
        if n <= 0 || n > layers.len() {
            Seq::empty()
        } else {
            self.layer_draws(layers, n - 1).push(self.layer_draw(layers[n - 1]))
        }
    }
}

/// The backdrops are drawn from the shallowest to the deepest: the list
/// that `layers` gives is in order of depth.
pub proof fn law_backdrops_in_order_of_depth(scene: Scene, n: int)
    ensures
        in_order_of_depth(scene.layers(n)),
    decreases n,
{
    if n > 0 {
        law_backdrops_in_order_of_depth(scene, n - 1);
        if scene.layer(n - 1) {
            let earlier = scene.layers(n - 1);
            let depth = scene.bg[n - 1].depth;
            let place = layer_place(earlier, depth);
            lemma_layer_place(earlier, depth);
            let item = (scene.pos[n - 1].0, scene.image[n - 1], depth);
            let list = earlier.insert(place, item);
            assert forall|a: int, b: int| 0 <= a <= b < list.len() implies (#[trigger] list[a]).2
                <= (#[trigger] list[b]).2 by {
                if a < place {
                    assert(list[a] == earlier[a]);
                    assert(earlier[a].2 <= earlier[place - 1].2);
                } else if a > place {
                    assert(list[a] == earlier[a - 1]);
                }
                if b < place {
                    assert(list[b] == earlier[b]);
                } else if b > place {
                    assert(list[b] == earlier[b - 1]);
                }
            }
        }
    }
}

/// How much of the protected span of `shield` is left at `now`.
pub open spec fn remaining(shield: Invulnerability, now: u64) -> u64 {
    match shield.last_hit() {
        Some(last) => if now < last {
            crate::components::INVULNERABLE_FOR
        } else if now - last < crate::components::INVULNERABLE_FOR {
            (crate::components::INVULNERABLE_FOR - (now - last)) as u64
        } else {
            0
        },
        None => 0,
    }
}

/// Draws the sprites.
pub struct RenderSprite {
    /// The backdrops of the frame while they are put in order.
    sorted_bgs: Vec<(Vec2, Image, u32)>,
}

impl Default for RenderSprite {
    fn default() -> (r: RenderSprite)
        ensures
            r.held() == Seq::<(Vec2, Image, u32)>::empty(),
    {
        RenderSprite { sorted_bgs: Vec::new() }
    }
}

impl RenderSprite {
    /// The backdrops the system holds; between frames it holds none.
    pub closed spec fn held(&self) -> Seq<(Vec2, Image, u32)> {
        self.sorted_bgs@
    }

    /// Asks for the sprites of the frame: first the backdrops, in order of
    /// depth, then every actor, by rising slot, with what is laid over it.
    pub fn run(
        &mut self,
        entities: &Entities,
        pos: &Storage<Position>,
        image: &Storage<Image>,
        invul: &Storage<Invulnerability>,
        frozen: &Storage<FrozenUntil>,
        bg: &Storage<BackgroundLayer>,
        overlay: &Storage<ColourOverlay>,
        time: &GameTime,
        renderer: &mut BufferRenderer,
        atlas: &Atlas,
    )
        ensures
            final(self).held() == Seq::<(Vec2, Image, u32)>::empty(),
            ({
                let scene = Scene {
                    entities: entities@,
                    pos: pos@,
                    image: image@,
                    invul: invul@,
                    frozen: frozen@,
                    bg: bg@,
                    overlay: overlay@,
                    now: time.total_time,
                    atlas: *atlas,
                };
                let layers = scene.layers(entities@.len() as int);
                final(renderer)@ == old(renderer)@ + scene.layer_draws(layers, layers.len() as int)
                    + scene.actors(entities@.len() as int)
            }),
    {
        let ghost scene = Scene {
            entities: entities@,
            pos: pos@,
            image: image@,
            invul: invul@,
            frozen: frozen@,
            bg: bg@,
            overlay: overlay@,
            now: time.total_time,
            atlas: *atlas,
        };
        self.sorted_bgs.clear();
        let n: usize = entities.len();
        let mut i: usize = 0;
        while i < n
            invariant
                i <= n,
                n == entities@.len(),
                scene == (Scene {
                    entities: entities@,
                    pos: pos@,
                    image: image@,
                    invul: invul@,
                    frozen: frozen@,
                    bg: bg@,
                    overlay: overlay@,
                    now: time.total_time,
                    atlas: *atlas,
                }),
                self.sorted_bgs@ == scene.layers(i as int),
            decreases n - i,
        {
            if entities.alive_at(i) {
                if let Some(at) = pos.get(i) {
                    if let Some(sprite) = image.get(i) {
                        if let Some(layer) = bg.get(i) {
                            let depth: u32 = layer.depth;
                            let ghost list = self.sorted_bgs@;
                            let mut place: usize = self.sorted_bgs.len();
                            assert(list.take(place as int) =~= list);
                            while place > 0 && self.sorted_bgs[place - 1].2 > depth
                                invariant
                                    place <= self.sorted_bgs@.len(),
                                    self.sorted_bgs@ == list,
                                    layer_place(list, depth) == layer_place(
                                        list.take(place as int),
                                        depth,
                                    ),
                                decreases place,
                            {
                                assert(list.take(place as int).drop_last() =~= list.take(
                                    place - 1,
                                ));
                                place = place - 1;
                            }
                            self.sorted_bgs.insert(place, (at.0, *sprite, depth));
                        }
                    }
                }
            }
            i = i + 1;
        }
        let ghost layers = self.sorted_bgs@;
        let ghost start = renderer@;
        let count: usize = self.sorted_bgs.len();
        let mut k: usize = 0;
        while k < count
            invariant
                k <= count,
                count == layers.len(),
                self.sorted_bgs@ == layers,
                scene.atlas == *atlas,
                renderer@ == start + scene.layer_draws(layers, k as int),
            decreases count - k,
        {
            let layer = self.sorted_bgs[k];
            renderer.render_sprite(layer.1, layer.0, 0, Colour { red: 0, green: 0, blue: 0, alpha: 0 }, atlas);
            k = k + 1;
        }
        self.sorted_bgs.clear();
        let ghost drawn = renderer@;
        let mut i: usize = 0;
        while i < n
            invariant
                i <= n,
                n == entities@.len(),
                self.sorted_bgs@ == Seq::<(Vec2, Image, u32)>::empty(),
                scene == (Scene {
                    entities: entities@,
                    pos: pos@,
                    image: image@,
                    invul: invul@,
                    frozen: frozen@,
                    bg: bg@,
                    overlay: overlay@,
                    now: time.total_time,
                    atlas: *atlas,
                }),
                renderer@ == drawn + scene.actors(i as int),
            decreases n - i,
        {
            if entities.alive_at(i) && !frozen.contains(i) && !bg.contains(i) {
                if let Some(at) = pos.get(i) {
                    if let Some(sprite) = image.get(i) {
                        let tint = match overlay.get(i) {
                            Some(colour) => colour.0,
                            None => {
                                let flash = match invul.get(i) {
                                    Some(shield) => {
                                        let left: u64 = shield.time_remaining(time.total_time);
                                        left > 0 && (left > 6000 || left % 1200 > 600)
                                    },
                                    None => false,
                                };
                                if flash {
                                    Colour { red: 255, green: 255, blue: 255, alpha: 51 }
                                } else {
                                    Colour { red: 0, green: 0, blue: 0, alpha: 0 }
                                }
                            },
                        };
                        renderer.render_sprite(*sprite, at.0, 0, tint, atlas);
                    }
                }
            }
            i = i + 1;
        }
    }
}

/// Draws the boxes that entities collide with, for the eye.
pub struct RenderHitboxes;

/// The red of a collision box.
pub open spec fn hitbox_red() -> Colour {
    Colour { red: 255, green: 0, blue: 0, alpha: 128 }
}

/// The extent a collision box is drawn with: its own, and no less than two
/// units each way, so that a box without extent can be seen.
pub open spec fn shown_extent(hit: Vec2) -> Vec2 {
    Vec2 {
        x: if hit.x > 2048 {
            hit.x
        } else {
            2048
        },
        y: if hit.y > 2048 {
            hit.y
        } else {
            2048
        },
    }
}

/// The collision boxes of the living entities in the slots below `n`, by
/// rising slot.
pub open spec fn hitbox_draws(
    entities: Seq<Slot>,
    pos: Map<int, Position>,
    hit: Map<int, Hitbox>,
    n: int,
) -> Seq<DrawView>
    decreases n,
{
    if n <= 0 {
        Seq::empty()
    } else if alive_in(entities, n - 1) && pos.dom().contains(n - 1) && hit.dom().contains(n - 1) {
        hitbox_draws(entities, pos, hit, n - 1).push(
            DrawView::Box {
                center: pos[n - 1].0,
                dimensions: shown_extent(hit[n - 1].0),
                colour: hitbox_red(),
            },
        )
    } else {
        hitbox_draws(entities, pos, hit, n - 1)
    }
}

impl RenderHitboxes {
    /// While the debug view is on, asks for the collision box of every
    /// living entity that has one, by rising slot.
    pub fn run(
        &mut self,
        entities: &Entities,
        pos: &Storage<Position>,
        hit: &Storage<Hitbox>,
        renderer: &mut BufferRenderer,
        ctrl_state: &ControlsState,
    )
        ensures
            final(renderer)@ == if ctrl_state.debug.pressed {
                old(renderer)@ + hitbox_draws(entities@, pos@, hit@, entities@.len() as int)
            } else {
                old(renderer)@
            },
    {
        if !ctrl_state.debug.pressed {
            return ;
        }
        let n: usize = entities.len();
        let mut i: usize = 0;
        while i < n
            invariant
                i <= n,
                n == entities@.len(),
                renderer@ == old(renderer)@ + hitbox_draws(entities@, pos@, hit@, i as int),
            decreases n - i,
        {
            if entities.alive_at(i) {
                if let Some(at) = pos.get(i) {
                    if let Some(hitbox) = hit.get(i) {
                        let mut extent = hitbox.0;
                        if extent.x <= 2048 {
                            extent.x = 2048;
                        }
                        if extent.y <= 2048 {
                            extent.y = 2048;
                        }
                        renderer.render_box(
                            at.0,
                            extent,
                            Colour { red: 255, green: 0, blue: 0, alpha: 128 },
                        );
                    }
                }
            }
            i = i + 1;
        }
    }
}

/// Dims the game behind the pause menu.
pub struct RenderPauseBackground;

impl RenderPauseBackground {
    /// Asks for a half-clear black box over the whole screen.
    pub fn run(&mut self, renderer: &mut BufferRenderer)
        ensures
            final(renderer)@ == old(renderer)@.push(
                DrawView::Box {
                    center: Vec2 { x: 245760, y: 327680 },
                    dimensions: Vec2 { x: 491520, y: 655360 },
                    colour: Colour { red: 0, green: 0, blue: 0, alpha: 128 },
                },
            ),
    {
        renderer.render_box(
            Vec2 { x: crate::WIDTH / 2, y: crate::HEIGHT / 2 },
            Vec2 { x: crate::WIDTH, y: crate::HEIGHT },
            Colour { red: 0, green: 0, blue: 0, alpha: 128 },
        );
    }
}

/// Writes over the game that it is paused.
pub struct RenderPauseScreen;

impl RenderPauseScreen {
    /// Asks for the word `Paused` as a title.
    pub fn run(&mut self, renderer: &mut BufferRenderer)
        ensures
            final(renderer)@ == old(renderer)@.push(menu_title_draw("Paused"@)),
    {
        renderer.render_text(
            &Text::title("Paused"),
            Vec2 { x: crate::WIDTH / 2, y: 40960 },
            Colour { red: 255, green: 255, blue: 255, alpha: 255 },
        );
    }
}

/// Draws the texts that entities carry.
pub struct RenderText;

/// The texts of the living entities in the slots below `n`, by rising slot,
/// in white.
pub open spec fn text_draws(
    entities: Seq<Slot>,
    pos: Map<int, Position>,
    text: Map<int, Text>,
    n: int,
) -> Seq<DrawView>
    decreases n,
{
    if n <= 0 {
        Seq::empty()
    } else if alive_in(entities, n - 1) && pos.dom().contains(n - 1) && text.dom().contains(n - 1) {
        text_draws(entities, pos, text, n - 1).push(
            DrawView::Text {
                text: text[n - 1]@.text,
                font: text[n - 1].font,
                layout: text[n - 1].layout,
                position: pos[n - 1].0,
                colour: white(),
            },
        )
    } else {
        text_draws(entities, pos, text, n - 1)
    }
}

impl RenderText {
    /// Asks for the text of every living entity that has one and a
    /// position, by rising slot.
    pub fn run(
        &mut self,
        entities: &Entities,
        pos: &Storage<Position>,
        text: &Storage<Text>,
        renderer: &mut BufferRenderer,
    )
        ensures
            final(renderer)@ == old(renderer)@ + text_draws(
                entities@,
                pos@,
                text@,
                entities@.len() as int,
            ),
    {
        let n: usize = entities.len();
        let mut i: usize = 0;
        while i < n
            invariant
                i <= n,
                n == entities@.len(),
                renderer@ == old(renderer)@ + text_draws(entities@, pos@, text@, i as int),
            decreases n - i,
        {
            if entities.alive_at(i) {
                if let Some(at) = pos.get(i) {
                    if let Some(line) = text.get(i) {
                        renderer.render_text(
                            line,
                            at.0,
                            Colour { red: 255, green: 255, blue: 255, alpha: 255 },
                        );
                    }
                }
            }
            i = i + 1;
        }
    }
}

/// Draws the blasts of the bombs.
pub struct RenderBombs;

/// The blasts of the living bombs in the slots below `n`, by rising slot.
pub open spec fn bomb_draws(
    entities: Seq<Slot>,
    pos: Map<int, Position>,
    circle: Map<int, Circle>,
    n: int,
) -> Seq<DrawView>
    decreases n,
{
    if n <= 0 {
        Seq::empty()
    } else if alive_in(entities, n - 1) && pos.dom().contains(n - 1) && circle.dom().contains(
        n - 1,
    ) {
        bomb_draws(entities, pos, circle, n - 1).push(
            DrawView::Circle { center: pos[n - 1].0, radius: circle[n - 1].radius },
        )
    } else {
        bomb_draws(entities, pos, circle, n - 1)
    }
}

impl RenderBombs {
    /// Asks for the circle of every living blast, by rising slot.
    pub fn run(
        &mut self,
        entities: &Entities,
        renderer: &mut BufferRenderer,
        pos: &Storage<Position>,
        circle: &Storage<Circle>,
    )
        ensures
            final(renderer)@ == old(renderer)@ + bomb_draws(
                entities@,
                pos@,
                circle@,
                entities@.len() as int,
            ),
    {
        let n: usize = entities.len();
        let mut i: usize = 0;
        while i < n
            invariant
                i <= n,
                n == entities@.len(),
                renderer@ == old(renderer)@ + bomb_draws(entities@, pos@, circle@, i as int),
            decreases n - i,
        {
            if entities.alive_at(i) {
                if let Some(at) = pos.get(i) {
                    if let Some(blast) = circle.get(i) {
                        renderer.render_circle(at.0, blast.radius);
                    }
                }
            }
            i = i + 1;
        }
    }
}

/// The numeral of the digit `d`.
pub open spec fn digit(d: int) -> Seq<char> {
    if d == 0 {
        "0"@
    } else if d == 1 {
        "1"@
    } else if d == 2 {
        "2"@
    } else if d == 3 {
        "3"@
    } else if d == 4 {
        "4"@
    } else if d == 5 {
        "5"@
    } else if d == 6 {
        "6"@
    } else if d == 7 {
        "7"@
    } else if d == 8 {
        "8"@
    } else {
        "9"@
    }
}

/// The number `n` written in decimal digits.
pub open spec fn decimal(n: nat) -> Seq<char>
    decreases n,
{
    if n < 10 {
        digit(n as int)
    } else {
        decimal(n / 10) + digit((n % 10) as int)
    }
}

/// The numeral of the digit `d`.
fn numeral(d: u32) -> (r: &'static str)
    requires
        d < 10,
    ensures
        r@ == digit(d as int),
{
    match d {
        0 => "0",
        1 => "1",
        2 => "2",
        3 => "3",
        4 => "4",
        5 => "5",
        6 => "6",
        7 => "7",
        8 => "8",
        _ => "9",
    }
}

/// The number `n` written in decimal digits.
pub fn to_decimal(n: u32) -> (r: String)
    ensures
        r@ == decimal(n as nat),
    decreases n,
{
    if n < 10 {
        String::from_str(numeral(n))
    } else {
        to_decimal(n / 10).concat(numeral(n % 10))
    }
}

/// Where item `k` of a stack is drawn that begins at `base` and has its
/// items `step` apart, saturating.
fn stacked(base: i32, step: i32, k: usize) -> (r: i32)
    requires
        base >= 0,
        step > 0,
    ensures
        r == saturate(base + step * k),
{
    if k > 0x7fff_ffff {
        assert(base + step * k > i32::MAX) by (nonlinear_arith)
            requires
                base >= 0,
                step >= 1,
                k > 0x7fff_ffff,
        ;
        i32::MAX
    } else {
        assert(0 <= step * k <= 0x7fff_ffff * 0x7fff_ffff) by (nonlinear_arith)
            requires
                0 < step <= 0x7fff_ffff,
                0 <= k <= 0x7fff_ffff,
        ;
        narrow(base as i64 + step as i64 * k as i64)
    }
}

/// Draws the health and power of the players and the health of the bosses.
pub struct RenderUI;

/// What drawing the panels reads.
pub struct Panels {
    pub entities: Seq<Slot>,
    pub player: Map<int, Player>,
    pub health: Map<int, Health>,
    pub bar: Map<int, PowerBar>,
    pub boss: Map<int, Boss>,
    pub frozen: Map<int, FrozenUntil>,
}

/// How full a power bar is, in thousandths.
pub open spec fn thousandths(bar: PowerBar) -> int {
    if bar.0 >= 35 {
        1000
    } else {
        bar.0 * 1000 / 35
    }
}

/// How high the filling of a power bar is drawn: of 28 units, its share.
pub open spec fn filling(bar: PowerBar) -> int {
    thousandths(bar) * 28672 / 1000
}

/// The panel of a player: the number of its hits of health, its portrait,
/// and its power bar, filled from below, all thirty units above the lower
/// edge of the screen; on the left for the first player and mirrored on the
/// right for the second.
pub open spec fn player_panel(health: Health, bar: PowerBar, second: bool) -> Seq<DrawView> {
    seq![
        DrawView::Text {
            text: decimal(health.0 as nat),
            font: 1,
            layout: Layout {
                h_align: if second {
                    HorizontalAlign::Right
                } else {
                    HorizontalAlign::Left
                },
                v_align: VerticalAlign::Center,
            },
            position: Vec2 {
                x: if second {
                    430080
                } else {
                    61440
                },
                y: 624640,
            },
            colour: white(),
        },
        DrawView::Sprite {
            image: Image(GraphicsImage::Portrait.code()),
            center: Vec2 {
                x: if second {
                    460800
                } else {
                    30720
                },
                y: 624640,
            },
            dimensions: Vec2 { x: 0, y: 0 },
            rotation: 0,
            overlay: clear_colour(),
        },
        DrawView::Box {
            center: Vec2 {
                x: if second {
                    409600
                } else {
                    81920
                },
                y: 624640,
            },
            dimensions: Vec2 { x: 16384, y: 32768 },
            colour: Colour { red: 0, green: 0, blue: 0, alpha: 255 },
        },
        DrawView::Box {
            center: Vec2 {
                x: if second {
                    409600
                } else {
                    81920
                },
                y: (624640 + (28672 - filling(bar)) / 2) as i32,
            },
            dimensions: Vec2 { x: 12288, y: filling(bar) as i32 },
            colour: Colour { red: 128, green: 32, blue: 32, alpha: 255 },
        },
    ]
}

/// How wide the health of a boss is drawn: of 460 units, the share of its
/// health at the start that it has left; nothing for a boss that started
/// without health.
pub open spec fn boss_bar_width(health: Health, max_health: u32) -> i32 {
    if max_health == 0 {
        0
    } else {
        saturate(471040 * health.0 / (max_health as int)) as i32
    }
}

impl Panels {
    /// Whether the entity in slot `i` is a living player with health and a
    /// power bar.
    pub open spec fn seat(self, i: int) -> bool {
        alive_in(self.entities, i) && self.player.dom().contains(i) && self.health.dom().contains(
            i,
        ) && self.bar.dom().contains(i)
    }

    /// How many seats there are in the slots below `n`.
    pub open spec fn seats(self, n: int) -> nat
        decreases n,
    {
        if n <= 0 {
            0
        } else if self.seat(n - 1) {
            self.seats(n - 1) + 1
        } else {
            self.seats(n - 1)
        }
    }

    /// The panels of the players in the slots below `n`: one for each of the
    /// first two, by rising slot.
    pub open spec fn player_draws(self, n: int, portrait: Vec2) -> Seq<DrawView>
        decreases n,
    {
        if n <= 0 {
            Seq::empty()
        } else if self.seat(n - 1) && self.seats(n - 1) < 2 {
            self.player_draws(n - 1, portrait) + with_portrait(
                player_panel(self.health[n - 1], self.bar[n - 1], self.seats(n - 1) == 1),
                portrait,
            )
        } else {
            self.player_draws(n - 1, portrait)
        }
    }

    /// Whether the entity in slot `i` is a living boss with health that is
    /// not frozen.
    pub open spec fn shown_boss(self, i: int) -> bool {
        alive_in(self.entities, i) && self.health.dom().contains(i) && self.boss.dom().contains(i)
            && !self.frozen.dom().contains(i)
    }

    /// How many bosses are shown in the slots below `n`.
    pub open spec fn shown_bosses(self, n: int) -> nat
        decreases n,
    {
        if n <= 0 {
            0
        } else if self.shown_boss(n - 1) {
            self.shown_bosses(n - 1) + 1
        } else {
            self.shown_bosses(n - 1)
        }
    }

    /// The health bars of the bosses in the slots below `n`, by rising slot,
    /// the first ten units below the upper edge of the screen and each next
    /// one fifteen units further down.
    pub open spec fn boss_draws(self, n: int) -> Seq<DrawView>
        decreases n,
    {
        if n <= 0 {
            Seq::empty()
        } else if self.shown_boss(n - 1) {
            self.boss_draws(n - 1).push(
                DrawView::Sprite {
                    image: Image(GraphicsImage::BossHealthBar.code()),
                    center: Vec2 {
                        x: 245760,
                        y: saturate((10240 + 15360 * self.shown_bosses(n - 1)) as int) as i32,
                    },
                    dimensions: Vec2 {
                        x: boss_bar_width(self.health[n - 1], self.boss[n - 1].max_health),
                        y: 10240,
                    },
                    rotation: 0,
                    overlay: clear_colour(),
                },
            )
        } else {
            self.boss_draws(n - 1)
        }
    }
}

/// A panel with its portrait drawn at the extent `portrait`.
pub open spec fn with_portrait(panel: Seq<DrawView>, portrait: Vec2) -> Seq<DrawView> {
    panel.update(
        1,
        DrawView::Sprite {
            image: panel[1]->Sprite_image,
            center: panel[1]->Sprite_center,
            dimensions: portrait,
            rotation: 0,
            overlay: clear_colour(),
        },
    )
}

impl RenderUI {
    /// Asks for the panels of the first two players and for the health bar
    /// of every boss that is shown.
    pub fn run(
        &mut self,
        entities: &Entities,
        player: &Storage<Player>,
        health: &Storage<Health>,
        bar: &Storage<PowerBar>,
        boss: &Storage<Boss>,
        frozen: &Storage<FrozenUntil>,
        renderer: &mut BufferRenderer,
        atlas: &Atlas,
    )
        ensures
            ({
                let panels = Panels {
                    entities: entities@,
                    player: player@,
                    health: health@,
                    bar: bar@,
                    boss: boss@,
                    frozen: frozen@,
                };
                final(renderer)@ == old(renderer)@ + panels.player_draws(
                    entities@.len() as int,
                    doubled(frame_size(atlas.frame_of(GraphicsImage::Portrait.code()))),
                ) + panels.boss_draws(entities@.len() as int)
            }),
    {
        let ghost panels = Panels {
            entities: entities@,
            player: player@,
            health: health@,
            bar: bar@,
            boss: boss@,
            frozen: frozen@,
        };
        let ghost portrait = doubled(frame_size(atlas.frame_of(GraphicsImage::Portrait.code())));
        let n: usize = entities.len();
        let mut seen: usize = 0;
        let mut i: usize = 0;
        while i < n
            invariant
                i <= n,
                n == entities@.len(),
                seen <= i,
                seen == panels.seats(i as int),
                portrait == doubled(frame_size(atlas.frame_of(GraphicsImage::Portrait.code()))),
                panels == (Panels {
                    entities: entities@,
                    player: player@,
                    health: health@,
                    bar: bar@,
                    boss: boss@,
                    frozen: frozen@,
                }),
                renderer@ == old(renderer)@ + panels.player_draws(i as int, portrait),
            decreases n - i,
        {
            if entities.alive_at(i) && player.contains(i) {
                if let Some(hits) = health.get(i) {
                    if let Some(power) = bar.get(i) {
                        if seen < 2 {
                            let second = seen == 1;
                            let ghost before = renderer@;
                            let layout = if second {
                                Layout::new().v_align(VerticalAlign::Center).h_align(
                                    HorizontalAlign::Right,
                                )
                            } else {
                                Layout::new().v_align(VerticalAlign::Center)
                            };
                            let text_x: i32 = if second {
                                crate::WIDTH - 61440
                            } else {
                                61440
                            };
                            let portrait_x: i32 = if second {
                                crate::WIDTH - 30720
                            } else {
                                30720
                            };
                            let bar_x: i32 = if second {
                                crate::WIDTH - 81920
                            } else {
                                81920
                            };
                            let y: i32 = crate::HEIGHT - 30720;
                            renderer.render_text(
                                &Text { text: to_decimal(hits.0), font: 1, layout },
                                Vec2 { x: text_x, y },
                                Colour { red: 255, green: 255, blue: 255, alpha: 255 },
                            );
                            renderer.render_sprite(
                                Image::from(GraphicsImage::Portrait),
                                Vec2 { x: portrait_x, y },
                                0,
                                Colour { red: 0, green: 0, blue: 0, alpha: 0 },
                                atlas,
                            );
                            let filled: i32 = (power.perc() * 28672 / 1000) as i32;
                            let missing: i32 = (28672 - filled) / 2;
                            renderer.render_box(
                                Vec2 { x: bar_x, y },
                                Vec2 { x: 16384, y: 32768 },
                                Colour { red: 0, green: 0, blue: 0, alpha: 255 },
                            );
                            renderer.render_box(
                                Vec2 { x: bar_x, y: y + missing },
                                Vec2 { x: 12288, y: filled },
                                Colour { red: 128, green: 32, blue: 32, alpha: 255 },
                            );
                            assert(renderer@ =~= before + with_portrait(
                                player_panel(*hits, *power, second),
                                portrait,
                            ));
                        }
                        seen = seen + 1;
                    }
                }
            }
            i = i + 1;
        }
        let ghost drawn = renderer@;
        let mut shown: usize = 0;
        let mut i: usize = 0;
        while i < n
            invariant
                i <= n,
                n == entities@.len(),
                shown <= i,
                shown == panels.shown_bosses(i as int),
                panels == (Panels {
                    entities: entities@,
                    player: player@,
                    health: health@,
                    bar: bar@,
                    boss: boss@,
                    frozen: frozen@,
                }),
                renderer@ == drawn + panels.boss_draws(i as int),
            decreases n - i,
        {
            if entities.alive_at(i) && !frozen.contains(i) {
                if let Some(hits) = health.get(i) {
                    if let Some(the_boss) = boss.get(i) {
                        let width: i32 = if the_boss.max_health == 0 {
                            0
                        } else {
                            narrow((471040 * hits.0 as u64 / the_boss.max_health as u64) as i64)
                        };
                        let offset: i32 = stacked(10240, 15360, shown);
                        renderer.render_sprite_with_dimensions(
                            Image::from(GraphicsImage::BossHealthBar),
                            Vec2 { x: crate::WIDTH / 2, y: offset },
                            Vec2 { x: width, y: 10240 },
                            0,
                            Colour { red: 0, green: 0, blue: 0, alpha: 0 },
                        );
                        shown = shown + 1;
                    }
                }
            }
            i = i + 1;
        }
    }
}

/// Draws the menu of the mode.
pub struct RenderMenu;

/// The grey of a line the cursor skips.
pub open spec fn grey() -> Colour {
    Colour { red: 128, green: 128, blue: 128, alpha: 255 }
}

/// Line `i` of a menu as it is drawn: centred, marked where the cursor is
/// on it, grey where the cursor skips it, 190 units below the upper edge of
/// the screen and twenty more for every line above it.
pub open spec fn menu_line(item: ItemView, i: int, selected: int) -> DrawView {
    DrawView::Text {
        text: if i == selected {
            "> "@ + item.text
        } else {
            item.text
        },
        font: 1,
        layout: Layout { h_align: HorizontalAlign::Center, v_align: VerticalAlign::Top },
        position: Vec2 { x: 245760, y: saturate(194560 + 20480 * i) as i32 },
        colour: if item.active {
            white()
        } else {
            grey()
        },
    }
}

/// The title of a menu as it is drawn.
pub open spec fn menu_title_draw(title: Seq<char>) -> DrawView {
    DrawView::Text {
        text: title,
        font: 0,
        layout: Layout { h_align: HorizontalAlign::Center, v_align: VerticalAlign::Top },
        position: Vec2 { x: 245760, y: 40960 },
        colour: white(),
    }
}

/// The first `n` lines of a menu as they are drawn.
pub open spec fn menu_lines_draws(items: Seq<ItemView>, selected: int, n: int) -> Seq<DrawView>
    decreases n,
{
    if n <= 0 || n > items.len() {
        Seq::empty()
    } else {
        menu_lines_draws(items, selected, n - 1).push(menu_line(items[n - 1], n - 1, selected))
    }
}

impl RenderMenu {
    /// In a mode that shows a menu, asks for its title and for its lines,
    /// from the top. The mode stays as it is.
    pub fn run(&mut self, renderer: &mut BufferRenderer, mode: &mut Mode, ctrl_state: &ControlsState)
        ensures
            *final(mode) == *old(mode),
            final(renderer)@ == match old(mode).cursor() {
                Some(selected) => old(renderer)@.push(menu_title_draw(old(mode).menu_title()))
                    + menu_lines_draws(
                    old(mode).menu_lines(*ctrl_state),
                    selected as int,
                    old(mode).menu_lines(*ctrl_state).len() as int,
                ),
                None => old(renderer)@,
            },
    {
        if let Some(menu) = mode.as_menu(ctrl_state) {
            let ghost lines = item_views(menu.items@);
            let selected: usize = *menu.selected;
            renderer.render_text(
                &Text::title(menu.title),
                Vec2 { x: crate::WIDTH / 2, y: 40960 },
                Colour { red: 255, green: 255, blue: 255, alpha: 255 },
            );
            let ghost titled = renderer@;
            let n: usize = menu.items.len();
            let mut i: usize = 0;
            while i < n
                invariant
                    i <= n,
                    n == menu.items@.len(),
                    lines == item_views(menu.items@),
                    renderer@ == titled + menu_lines_draws(lines, selected as int, i as int),
                decreases n - i,
            {
                let item = &menu.items[i];
                let text = if i == selected {
                    String::from_str("> ").concat(item.text.as_str())
                } else {
                    item.text.clone()
                };
                let colour = if item.active {
                    Colour { red: 255, green: 255, blue: 255, alpha: 255 }
                } else {
                    Colour { red: 128, green: 128, blue: 128, alpha: 255 }
                };
                let y: i32 = stacked(194560, 20480, i);
                renderer.render_text(
                    &Text {
                        text,
                        font: 1,
                        layout: Layout::new().h_align(HorizontalAlign::Center),
                    },
                    Vec2 { x: crate::WIDTH / 2, y },
                    colour,
                );
                i = i + 1;
            }
        }
    }
}

} // verus!
