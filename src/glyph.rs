use vstd::prelude::*;

use crate::canvas::{
    canvas_fits, canvas_side, composite, painted, rgba_layout, samples_fit, Coverage,
};
use crate::color::Color;
use crate::error::AppError;
use crate::geometry::{get_scale, scale_result, Rect, UnitBox};
use crate::naming::{image_file_name_spec, image_path, join_path};

verus! {

/// The placeholder glyph that a font gives to code points it does not define.
pub const NOT_DEFINED_GLYPH_ID: u16 = 0;

/// What `plan_glyph` gives for a glyph.
pub open spec fn plan_result(
    code_point: char,
    glyph_id: u16,
    unit_box: Option<UnitBox>,
    img_size: u32,
) -> Result<u64, AppError> {
    if glyph_id == NOT_DEFINED_GLYPH_ID {
        Err(AppError::GlyphNotDefined(code_point))
    } else {
        scale_result(code_point, unit_box, img_size)
    }
}

/// The first step for one code point: given the id of the glyph that the font
/// maps it to and that glyph's outline box at unit scale, the scale at which
/// to rasterise it.
///
/// Fails with `GlyphNotDefined` for the font's placeholder glyph, before
/// anything else is looked at; otherwise as `get_scale` does.
pub fn plan_glyph(code_point: char, glyph_id: u16, unit_box: Option<UnitBox>, img_size: u32) -> (r:
    Result<u64, AppError>)
    ensures
        r == plan_result(code_point, glyph_id, unit_box, img_size),
{
    if glyph_id == NOT_DEFINED_GLYPH_ID {
        return Err(AppError::GlyphNotDefined(code_point));
    }
    get_scale(code_point, unit_box, img_size)
}

/// The rendered image of one glyph and where it is to be written.
pub struct GlyphImage {
    pub code_point: char,
    /// The path of the image file.
    pub path: String,
    /// The side of the square image, in pixels.
    pub side: u32,
    /// The pixels row by row, four bytes each: red, green, blue, alpha.
    pub rgba: Vec<u8>,
}

/// A glyph's pixel box and coverage can be painted: the box's corners are
/// ordered, its canvas fits in memory, and every sample lies in the box.
pub open spec fn is_renderable(bbox: Rect, samples: Seq<Coverage>) -> bool {
    bbox.wf() && canvas_fits(bbox) && samples_fit(bbox, samples)
}

/// Whether a pixel box and its coverage can be painted.
pub fn can_render(bbox: &Rect, samples: &Vec<Coverage>) -> (r: bool)
    ensures
        r == is_renderable(*bbox, samples@),
{
    if !(bbox.min_x <= bbox.max_x && bbox.min_y <= bbox.max_y) {
        return false;
    }
    let height = bbox.get_glyph_height();
    let width = bbox.get_glyph_width();
    let side = if height >= width {
        height
    } else {
        width
    };
    assert(side * side <= u32::MAX * u32::MAX) by (nonlinear_arith)
        requires
            side <= u32::MAX,
    ;
    let area: u128 = side as u128 * side as u128;
    let limit: u128 = isize::MAX as u128 / 4;
    let ghost m = isize::MAX as int;
    assert(m == 4 * (m / 4) + m % 4 && 0 <= m % 4 < 4) by {
        vstd::arithmetic::div_mod::lemma_fundamental_div_mod(m, 4);
    }
    assert(side == canvas_side(*bbox));
    assert(4 * side * side == 4 * area) by (nonlinear_arith)
        requires
            area == side * side,
    ;
    if area > limit {
        assert(4 * area > m) by (nonlinear_arith)
            requires
                limit == m / 4,
                area > limit,
                m == 4 * (m / 4) + m % 4,
                m % 4 < 4,
        ;
        return false;
    }
    assert(4 * area <= m) by (nonlinear_arith)
        requires
            limit == m / 4,
            area <= limit,
            m == 4 * (m / 4) + m % 4,
            m % 4 >= 0,
    ;
    let mut i: usize = 0;
    while i < samples.len()
        invariant
            i <= samples@.len(),
            width == bbox.width_spec(),
            height == bbox.height_spec(),
            forall|j: int|
                0 <= j < i ==> (#[trigger] samples@[j]).x < width && samples@[j].y < height,
        decreases samples@.len() - i,
    {
        if samples[i].x >= width || samples[i].y >= height {
            return false;
        }
        i = i + 1;
    }
    true
}

/// The second step for one code point: paints the coverage of the glyph's
/// pixel box, at the scale from `plan_glyph`, onto a square canvas whose side
/// is the box's larger extent, centring the box, and names the file that the
/// image goes to in `base_dir`.
///
/// Fails with `NoBoundingBox` when the glyph has no pixel box.
pub fn render_glyph(
    code_point: char,
    pixel_box: Option<Rect>,
    samples: &Vec<Coverage>,
    color: &Color,
    base_dir: &str,
) -> (r: Result<GlyphImage, AppError>)
    requires
        pixel_box is Some ==> is_renderable(pixel_box->0, samples@),
    ensures
        pixel_box is None ==> r == Err::<GlyphImage, AppError>(AppError::NoBoundingBox(code_point)),
        pixel_box is Some ==> r is Ok && {
            let b = pixel_box->0;
            let img = r->Ok_0;
            &&& img.code_point == code_point
            &&& img.path@ == join_path(base_dir@, image_file_name_spec(code_point))
            &&& img.side == canvas_side(b)
            &&& img.rgba@ == rgba_layout(painted(b, *color, samples@), img.side, img.side)
        },
{
    let bbox = match pixel_box {
        None => return Err(AppError::NoBoundingBox(code_point)),
        Some(b) => b,
    };
    let canvas = composite(&bbox, color, samples);
    let side = if bbox.get_glyph_height() >= bbox.get_glyph_width() {
        bbox.get_glyph_height()
    } else {
        bbox.get_glyph_width()
    };
    let rgba = canvas.into_rgba_bytes();
    let path = image_path(base_dir, code_point);
    Ok(GlyphImage { code_point, path, side, rgba })
}

} // verus!
