//! The sink that the rendering systems fill: an ordered list of what is to
//! be drawn in a frame.

use vstd::prelude::*;
use crate::components::Colour;
use crate::components::Image;
use crate::components::Layout;
use crate::components::Text;
use crate::graphics::frame_size;
use crate::graphics::Atlas;
use crate::math::narrow;
use crate::math::saturate;
use crate::math::Vec2;

verus! {

/// One thing to draw.
pub enum Draw {
    /// A sprite, centred on `center`, stretched to `dimensions`, turned by
    /// `rotation` microradians, with `overlay` laid over it.
    Sprite { image: Image, center: Vec2, dimensions: Vec2, rotation: i32, overlay: Colour },
    /// A box of one colour.
    Box { center: Vec2, dimensions: Vec2, colour: Colour },
    /// The outline of a circle.
    Circle { center: Vec2, radius: i32 },
    /// A line of text.
    Text { text: String, font: usize, layout: Layout, position: Vec2, colour: Colour },
}

/// What a `Draw` holds, with the string as its characters.
pub enum DrawView {
    Sprite { image: Image, center: Vec2, dimensions: Vec2, rotation: i32, overlay: Colour },
    Box { center: Vec2, dimensions: Vec2, colour: Colour },
    Circle { center: Vec2, radius: i32 },
    Text { text: Seq<char>, font: usize, layout: Layout, position: Vec2, colour: Colour },
}

impl View for Draw {
    type V = DrawView;

    open spec fn view(&self) -> DrawView {
        match *self {
            Draw::Sprite { image, center, dimensions, rotation, overlay } => DrawView::Sprite {
                image,
                center,
                dimensions,
                rotation,
                overlay,
            },
            Draw::Box { center, dimensions, colour } => DrawView::Box { center, dimensions, colour },
            Draw::Circle { center, radius } => DrawView::Circle { center, radius },
            Draw::Text { text, font, layout, position, colour } => DrawView::Text {
                text: text@,
                font,
                layout,
                position,
                colour,
            },
        }
    }
}

/// No colour at all.
pub open spec fn clear_colour() -> Colour {
    Colour { red: 0, green: 0, blue: 0, alpha: 0 }
}

/// Solid white.
pub open spec fn white() -> Colour {
    Colour { red: 255, green: 255, blue: 255, alpha: 255 }
}

/// Twice the extent `size`, saturating: sprites are drawn at double size.
pub open spec fn doubled(size: Vec2) -> Vec2 {
    Vec2 { x: saturate(size.x * 2) as i32, y: saturate(size.y * 2) as i32 }
}

/// What is to be drawn in this frame, in the order in which it was asked
/// for, which is the order in which it is drawn.
pub struct BufferRenderer {
    pub draws: Vec<Draw>,
}

impl View for BufferRenderer {
    type V = Seq<DrawView>;

    open spec fn view(&self) -> Seq<DrawView> {
        Seq::new(self.draws@.len(), |i: int| self.draws@[i]@)
    }
}

impl BufferRenderer {
    /// A sink with nothing in it.
    pub fn new() -> (r: BufferRenderer)
        ensures
            r@ == Seq::<DrawView>::empty(),
    {
        let r = BufferRenderer { draws: Vec::new() };
        assert(r@ =~= Seq::<DrawView>::empty());
        r
    }

    /// Empties the sink, as is done once its frame has been drawn.
    pub fn clear(&mut self)
        ensures
            final(self)@ == Seq::<DrawView>::empty(),
    {
        self.draws.clear();
        assert(self@ =~= Seq::<DrawView>::empty());
    }

    /// Adds one thing to draw.
    pub fn push(&mut self, draw: Draw)
        ensures
            final(self)@ == old(self)@.push(draw@),
    {
        self.draws.push(draw);
        assert(self@ =~= old(self)@.push(draw@));
    }

    /// Asks for a sprite at double its size.
    pub fn render_sprite(&mut self, sprite: Image, pos: Vec2, rotation: i32, overlay: Colour, atlas: &Atlas)
        ensures
            final(self)@ == old(self)@.push(
                DrawView::Sprite {
                    image: sprite,
                    center: pos,
                    dimensions: doubled(frame_size(atlas.frame_of(sprite.0))),
                    rotation,
                    overlay,
                },
            ),
    {
        let size = sprite.size(atlas);
        let dimensions = Vec2 { x: narrow(size.x as i64 * 2), y: narrow(size.y as i64 * 2) };
        self.render_sprite_with_dimensions(sprite, pos, dimensions, rotation, overlay);
    }

    /// Asks for a sprite stretched to `dimensions`.
    pub fn render_sprite_with_dimensions(
        &mut self,
        sprite: Image,
        center: Vec2,
        dimensions: Vec2,
        rotation: i32,
        overlay: Colour,
    )
        ensures
            final(self)@ == old(self)@.push(
                DrawView::Sprite { image: sprite, center, dimensions, rotation, overlay },
            ),
    {
        self.push(Draw::Sprite { image: sprite, center, dimensions, rotation, overlay });
    }

    /// Asks for a box of one colour.
    pub fn render_box(&mut self, center: Vec2, dimensions: Vec2, overlay: Colour)
        ensures
            final(self)@ == old(self)@.push(
                DrawView::Box { center, dimensions, colour: overlay },
            ),
    {
        self.push(Draw::Box { center, dimensions, colour: overlay });
    }

    /// Asks for a line of text.
    pub fn render_text(&mut self, text: &Text, pos: Vec2, color: Colour)
        ensures
            final(self)@ == old(self)@.push(
                DrawView::Text {
                    text: text@.text,
                    font: text.font,
                    layout: text.layout,
                    position: pos,
                    colour: color,
                },
            ),
    {
        self.push(
            Draw::Text {
                text: text.text.clone(),
                font: text.font,
                layout: text.layout,
                position: pos,
                colour: color,
            },
        );
    }

    /// Asks for the outline of a circle.
    pub fn render_circle(&mut self, center: Vec2, radius: i32)
        ensures
            final(self)@ == old(self)@.push(DrawView::Circle { center, radius }),
    {
        self.push(Draw::Circle { center, radius });
    }
}

} // verus!
