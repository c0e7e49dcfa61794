use vstd::prelude::*;

use crate::error::AppError;

verus! {

/// The distance between two coordinates.
pub open spec fn spec_abs_diff(a: int, b: int) -> nat {
    if a >= b {
        (a - b) as nat
    } else {
        (b - a) as nat
    }
}

/// The distance between two coordinates, which always fits in a `u32`.
pub fn abs_diff(a: i32, b: i32) -> (r: u32)
    ensures
        r as nat == spec_abs_diff(a as int, b as int),
{
    let d: i64 = a as i64 - b as i64;
    if d >= 0 {
        d as u32
    } else {
        (-d) as u32
    }
}

/// An axis-aligned box with integer corners; `y` grows downwards.
#[derive(Debug, Clone, Copy, PartialEq, Eq)]
pub struct Rect {
    pub min_x: i32,
    pub min_y: i32,
    pub max_x: i32,
    pub max_y: i32,
}

impl Rect {
    /// The corners are ordered on both axes.
    pub open spec fn wf(self) -> bool {
        self.min_x <= self.max_x && self.min_y <= self.max_y
    }

    pub open spec fn height_spec(self) -> nat {
        spec_abs_diff(self.max_y as int, self.min_y as int)
    }

    pub open spec fn width_spec(self) -> int {
        self.max_x - self.min_x
    }

    /// The vertical extent of the box.
    pub fn get_glyph_height(&self) -> (r: u32)
        ensures
            r as nat == self.height_spec(),
    {
        abs_diff(self.min_y, self.max_y)
    }

    /// The horizontal extent of a box whose corners are ordered.
    pub fn get_glyph_width(&self) -> (r: u32)
        requires
            self.min_x <= self.max_x,
        ensures
            r as int == self.width_spec(),
    {
        (self.max_x as i64 - self.min_x as i64) as u32
    }
}

/// The outline box of a glyph at unit scale, held as an exact ratio: the
/// box's coordinates are those of `rect` divided by `units_per_scale`.
///
/// A font measures its outlines in font units, and one unit of scale spans
/// `units_per_scale` of them; a box already measured at unit scale has
/// `units_per_scale == 1`.
#[derive(Debug, Clone, Copy, PartialEq, Eq)]
pub struct UnitBox {
    pub rect: Rect,
    pub units_per_scale: i32,
}

impl UnitBox {
    /// The larger of the box's two extents, in font units.
    pub open spec fn max_dimension(self) -> nat {
        let h = spec_abs_diff(self.rect.max_y as int, self.rect.min_y as int);
        let w = spec_abs_diff(self.rect.max_x as int, self.rect.min_x as int);
        if h >= w {
            h
        } else {
            w
        }
    }

    /// The box has a finite, non-zero size at unit scale.
    pub open spec fn is_measurable(self) -> bool {
        self.units_per_scale > 0 && self.max_dimension() > 0
    }

    /// The largest whole scale at which the glyph's larger extent,
    /// `max_dimension / units_per_scale` at unit scale, fits in `img_size`
    /// pixels: `floor(img_size / (max_dimension / units_per_scale))`.
    pub open spec fn fitting_scale(self, img_size: int) -> int
        recommends
            self.is_measurable(),
    {
        (img_size * self.units_per_scale) / (self.max_dimension() as int)
    }
}

/// What `get_scale` gives for a glyph's unit-scale box and a pixel budget.
pub open spec fn scale_result(code_point: char, unit_box: Option<UnitBox>, img_size: u32) -> Result<
    u64,
    AppError,
> {
    match unit_box {
        None => Err(AppError::GlyphGeometryError(code_point)),
        Some(b) => if !b.is_measurable() {
            Err(AppError::GlyphGeometryError(code_point))
        } else if b.fitting_scale(img_size as int) == 0 {
            Err(AppError::InvalidScale(code_point))
        } else {
            Ok(b.fitting_scale(img_size as int) as u64)
        },
    }
}

/// The scale at which a glyph's larger extent fills `img_size` pixels without
/// exceeding it.
///
/// Fails with `GlyphGeometryError` when there is no box or the box has no
/// finite, non-zero size, and with `InvalidScale` when the glyph is too large
/// for the budget, so that the scale rounds down to zero.
pub fn get_scale(code_point: char, unit_box: Option<UnitBox>, img_size: u32) -> (r: Result<
    u64,
    AppError,
>)
    ensures
        r == scale_result(code_point, unit_box, img_size),
{
    let b = match unit_box {
        None => return Err(AppError::GlyphGeometryError(code_point)),
        Some(b) => b,
    };
    let height = b.rect.get_glyph_height();
    let width = abs_diff(b.rect.max_x, b.rect.min_x);
    let max_dimension = if height >= width {
        height
    } else {
        width
    };
    if b.units_per_scale <= 0 || max_dimension == 0 {
        return Err(AppError::GlyphGeometryError(code_point));
    }
    assert(img_size * b.units_per_scale <= u32::MAX * i32::MAX) by (nonlinear_arith)
        requires
            0 <= img_size <= u32::MAX,
            0 < b.units_per_scale <= i32::MAX,
    ;
    let budget: u64 = img_size as u64 * b.units_per_scale as u64;
    let scale = budget / max_dimension as u64;
    if scale == 0 {
        Err(AppError::InvalidScale(code_point))
    } else {
        Ok(scale)
    }
}

/// The scale that `get_scale` settles on is the floor of the ratio between
/// the pixel budget and the glyph's larger extent at unit scale: the glyph
/// fits at that scale, and would not fit at the next one.
pub proof fn lemma_fitting_scale_is_floor(b: UnitBox, img_size: u32)
    requires
        b.is_measurable(),
    ensures
        b.fitting_scale(img_size as int) >= 0,
        b.fitting_scale(img_size as int) * b.max_dimension() <= img_size * b.units_per_scale,
        (b.fitting_scale(img_size as int) + 1) * b.max_dimension() > img_size * b.units_per_scale,
{
    let n = img_size * b.units_per_scale;
    let d = b.max_dimension() as int;
    assert(n >= 0) by (nonlinear_arith)
        requires
            img_size >= 0,
            b.units_per_scale > 0,
            n == img_size * b.units_per_scale,
    ;
    vstd::arithmetic::div_mod::lemma_fundamental_div_mod(n, d);
    vstd::arithmetic::div_mod::lemma_div_pos_is_pos(n, d);
    assert(0 <= n % d < d) by {
        vstd::arithmetic::div_mod::lemma_mod_bound(n, d);
    }
    assert((n / d) * d <= n) by (nonlinear_arith)
        requires
            n == d * (n / d) + n % d,
            n % d >= 0,
    ;
    assert((n / d + 1) * d > n) by (nonlinear_arith)
        requires
            n == d * (n / d) + n % d,
            n % d < d,
    ;
}

} // verus!
