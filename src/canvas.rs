use vstd::prelude::*;

use crate::color::Color;
use crate::geometry::Rect;

verus! {

/// A canvas of RGBA pixels, held in an image buffer of the image crate.
#[verifier::external_body]
pub struct Canvas {
    image: image::RgbaImage,
}

/// The pixels of a canvas, by `(x, y)`, as `(red, green, blue, alpha)`.
pub uninterp spec fn canvas_pixels(c: Canvas) -> Map<(u32, u32), (u8, u8, u8, u8)>;

/// The width and height of a canvas.
pub uninterp spec fn canvas_dimensions(c: Canvas) -> (u32, u32);

/// A `width` by `height` image whose every channel is zero.
pub open spec fn blank_pixels(width: u32, height: u32) -> Map<(u32, u32), (u8, u8, u8, u8)> {
    Map::new(|p: (u32, u32)| p.0 < width && p.1 < height, |p: (u32, u32)| (0u8, 0u8, 0u8, 0u8))
}

/// One channel of a pixel: red, green, blue, then alpha.
pub open spec fn channel(px: (u8, u8, u8, u8), k: int) -> u8 {
    if k == 0 {
        px.0
    } else if k == 1 {
        px.1
    } else if k == 2 {
        px.2
    } else {
        px.3
    }
}

/// The pixels laid out row by row, four bytes each: red, green, blue, alpha.
pub open spec fn rgba_layout(
    pixels: Map<(u32, u32), (u8, u8, u8, u8)>,
    width: u32,
    height: u32,
) -> Seq<u8> {
    Seq::new(
        (4 * width * height) as nat,
        |i: int|
            channel(pixels[(((i / 4) % (width as int)) as u32, ((i / 4) / (width as int)) as u32)], i % 4),
    )
}

impl Canvas {
    /// Relies on `ImageBuffer::new`, which makes an image of the given size
    /// with every channel zero, and panics when its buffer, four bytes a
    /// pixel, would not fit in a vector.
    #[verifier::external_body]
    fn blank(width: u32, height: u32) -> (c: Canvas)
        requires
            4 * width * height <= isize::MAX,
        ensures
            canvas_dimensions(c) == (width, height),
            canvas_pixels(c) == blank_pixels(width, height),
    {
        Canvas { image: image::RgbaImage::new(width, height) }
    }

    /// Relies on `ImageBuffer::put_pixel`, which replaces the pixel at
    /// `(x, y)` and panics outside the image.
    #[verifier::external_body]
    fn put_pixel(&mut self, x: u32, y: u32, px: (u8, u8, u8, u8))
        requires
            x < canvas_dimensions(*old(self)).0,
            y < canvas_dimensions(*old(self)).1,
        ensures
            canvas_dimensions(*final(self)) == canvas_dimensions(*old(self)),
            canvas_pixels(*final(self)) == canvas_pixels(*old(self)).insert((x, y), px),
    {
        self.image.put_pixel(x, y, image::Rgba([px.0, px.1, px.2, px.3]))
    }

    /// Relies on `ImageBuffer::into_raw`, which hands out the buffer: the
    /// pixels row by row, four bytes each, red first.
    #[verifier::external_body]
    fn into_raw(self) -> (r: Vec<u8>)
        ensures
            r@ == rgba_layout(
                canvas_pixels(self),
                canvas_dimensions(self).0,
                canvas_dimensions(self).1,
            ),
    {
        self.image.into_raw()
    }

    /// The canvas's pixels row by row, four bytes each: red, green, blue,
    /// alpha.
    pub fn into_rgba_bytes(self) -> (r: Vec<u8>)
        ensures
            r@ == rgba_layout(
                canvas_pixels(self),
                canvas_dimensions(self).0,
                canvas_dimensions(self).1,
            ),
    {
        self.into_raw()
    }
}

/// How much of one pixel of a glyph's box the glyph covers, as an alpha
/// value; `x` and `y` count from the box's top-left corner.
#[derive(Debug, Clone, Copy, PartialEq, Eq)]
pub struct Coverage {
    pub x: u32,
    pub y: u32,
    pub alpha: u8,
}

/// The side of the square canvas for a pixel box: its larger extent.
pub open spec fn canvas_side(bbox: Rect) -> nat {
    if bbox.height_spec() >= bbox.width_spec() {
        bbox.height_spec()
    } else {
        bbox.width_spec() as nat
    }
}

/// The horizontal shift that centres the box on its canvas.
pub open spec fn x_offset(bbox: Rect) -> int {
    (canvas_side(bbox) - bbox.width_spec()) / 2
}

/// The vertical shift that centres the box on its canvas.
pub open spec fn y_offset(bbox: Rect) -> int {
    (canvas_side(bbox) - bbox.height_spec()) / 2
}

/// Every coverage sample lies inside the box.
pub open spec fn samples_fit(bbox: Rect, samples: Seq<Coverage>) -> bool {
    forall|i: int|
        0 <= i < samples.len() ==> (#[trigger] samples[i]).x < bbox.width_spec() && samples[i].y
            < bbox.height_spec()
}

/// The canvas fits in memory: four bytes a pixel.
pub open spec fn canvas_fits(bbox: Rect) -> bool {
    4 * canvas_side(bbox) * canvas_side(bbox) <= isize::MAX
}

/// The pixels of a blank canvas after the samples, in order, have been
/// painted in `color` with their alpha, each shifted to centre the box.
pub open spec fn painted(bbox: Rect, color: Color, samples: Seq<Coverage>) -> Map<
    (u32, u32),
    (u8, u8, u8, u8),
>
    decreases samples.len(),
{
    if samples.len() == 0 {
        blank_pixels(canvas_side(bbox) as u32, canvas_side(bbox) as u32)
    } else {
        let s = samples.last();
        painted(bbox, color, samples.drop_last()).insert(
            ((s.x + x_offset(bbox)) as u32, (s.y + y_offset(bbox)) as u32),
            (color.red, color.green, color.blue, s.alpha),
        )
    }
}

/// Paints the coverage of a glyph's pixel box onto a square canvas whose
/// side is the box's larger extent, centring the box on it.
pub fn composite(bbox: &Rect, color: &Color, samples: &Vec<Coverage>) -> (img: Canvas)
    requires
        bbox.wf(),
        canvas_fits(*bbox),
        samples_fit(*bbox, samples@),
    ensures
        canvas_dimensions(img) == (canvas_side(*bbox) as u32, canvas_side(*bbox) as u32),
        canvas_pixels(img) == painted(*bbox, *color, samples@),
{
    let height = bbox.get_glyph_height();
    let width = bbox.get_glyph_width();
    let side = if height >= width {
        height
    } else {
        width
    };
    let x_off = (side - width) / 2;
    let y_off = (side - height) / 2;
    let mut img = Canvas::blank(side, side);
    let mut i: usize = 0;
    while i < samples.len()
        invariant
            i <= samples@.len(),
            side == canvas_side(*bbox),
            x_off == x_offset(*bbox),
            y_off == y_offset(*bbox),
            width == bbox.width_spec(),
            height == bbox.height_spec(),
            samples_fit(*bbox, samples@),
            canvas_dimensions(img) == (side, side),
            canvas_pixels(img) == painted(*bbox, *color, samples@.subrange(0, i as int)),
        decreases samples@.len() - i,
    {
        let s = samples[i];
        assert(s == samples@[i as int]);
        let x = s.x + x_off;
        let y = s.y + y_off;
        img.put_pixel(x, y, (color.red, color.green, color.blue, s.alpha));
        i = i + 1;
        assert(samples@.subrange(0, i as int).drop_last() =~= samples@.subrange(0, i - 1));
    }
    assert(samples@.subrange(0, samples@.len() as int) =~= samples@);
    img
}

/// The canvas of every glyph is a square whose side is the larger extent of
/// the glyph's pixel box, and every sample lands on it.
pub proof fn lemma_canvas_is_square(bbox: Rect, color: Color, samples: Seq<Coverage>)
    requires
        bbox.wf(),
        canvas_fits(bbox),
        samples_fit(bbox, samples),
    ensures
        canvas_side(bbox) >= bbox.height_spec(),
        canvas_side(bbox) >= bbox.width_spec(),
        canvas_side(bbox) == bbox.height_spec() || canvas_side(bbox) == bbox.width_spec(),
        forall|i: int|
            0 <= i < samples.len() ==> 0 <= #[trigger] samples[i].x + x_offset(bbox) < canvas_side(
                bbox,
            ) && 0 <= samples[i].y + y_offset(bbox) < canvas_side(bbox),
        forall|p: (u32, u32)|
            #[trigger] painted(bbox, color, samples).contains_key(p) <==> p.0 < canvas_side(bbox)
                && p.1 < canvas_side(bbox),
    decreases samples.len(),
{
    if samples.len() > 0 {
        let rest = samples.drop_last();
        assert forall|i: int| 0 <= i < rest.len() implies (#[trigger] rest[i]).x < bbox.width_spec()
            && rest[i].y < bbox.height_spec() by {
            assert(rest[i] == samples[i]);
        }
        lemma_canvas_is_square(bbox, color, rest);
        let s = samples.last();
        assert(samples[samples.len() - 1] == s);
        let key = ((s.x + x_offset(bbox)) as u32, (s.y + y_offset(bbox)) as u32);
        assert(key.0 < canvas_side(bbox) && key.1 < canvas_side(bbox));
        assert forall|p: (u32, u32)| #[trigger]
            painted(bbox, color, samples).contains_key(p) <==> p.0 < canvas_side(bbox) && p.1
                < canvas_side(bbox) by {
            assert(painted(bbox, color, samples) == painted(bbox, color, rest).insert(
                key,
                (color.red, color.green, color.blue, s.alpha),
            ));
        }
    } else {
        assert(canvas_side(bbox) <= u32::MAX);
        assert forall|p: (u32, u32)| #[trigger]
            painted(bbox, color, samples).contains_key(p) <==> p.0 < canvas_side(bbox) && p.1
                < canvas_side(bbox) by {
            assert(painted(bbox, color, samples) == blank_pixels(
                canvas_side(bbox) as u32,
                canvas_side(bbox) as u32,
            ));
        }
    }
}

} // verus!
