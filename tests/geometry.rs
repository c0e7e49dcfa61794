use glyph_dump::error::AppError;
use glyph_dump::geometry::{get_scale, Rect, UnitBox};
use glyph_dump::glyph::plan_glyph;

fn glyph_a_box(units_per_scale: i32) -> UnitBox {
    UnitBox {
        rect: Rect { min_x: 0, min_y: -700, max_x: 500, max_y: 0 },
        units_per_scale,
    }
}

#[test]
fn rect_extents() {
    let r = Rect { min_x: -3, min_y: -10, max_x: 4, max_y: 5 };
    assert_eq!(r.get_glyph_height(), 15);
    assert_eq!(r.get_glyph_width(), 7);
}

#[test]
fn rect_extents_at_the_limits() {
    let r = Rect { min_x: i32::MIN, min_y: i32::MIN, max_x: i32::MAX, max_y: i32::MAX };
    assert_eq!(r.get_glyph_height(), u32::MAX);
    assert_eq!(r.get_glyph_width(), u32::MAX);
}

#[test]
fn small_budget_floors_to_invalid_scale() {
    assert!(matches!(
        get_scale('A', Some(glyph_a_box(1)), 128),
        Err(AppError::InvalidScale('A'))
    ));
}

#[test]
fn large_budget_gives_unit_scale() {
    assert_eq!(get_scale('A', Some(glyph_a_box(1)), 1024).unwrap(), 1);
}

#[test]
fn scale_is_floor_of_budget_over_extent() {
    // 128 * 2048 / 1400 = 187.24...
    let b = UnitBox { rect: Rect { min_x: 0, min_y: -1400, max_x: 900, max_y: 0 }, units_per_scale: 2048 };
    let s = get_scale('x', Some(b), 128).unwrap();
    assert_eq!(s, 187);
    assert!(s * 1400 <= 128 * 2048);
    assert!((s + 1) * 1400 > 128 * 2048);
}

#[test]
fn scale_uses_the_wider_extent() {
    let b = UnitBox { rect: Rect { min_x: -100, min_y: -50, max_x: 300, max_y: 0 }, units_per_scale: 1 };
    assert_eq!(get_scale('w', Some(b), 1000).unwrap(), 2);
}

#[test]
fn scale_is_repeatable() {
    let b = glyph_a_box(1000);
    assert_eq!(get_scale('A', Some(b), 256).unwrap(), get_scale('A', Some(b), 256).unwrap());
}

#[test]
fn missing_box_is_geometry_error() {
    assert!(matches!(get_scale('A', None, 128), Err(AppError::GlyphGeometryError('A'))));
}

#[test]
fn empty_box_is_geometry_error() {
    let b = UnitBox { rect: Rect { min_x: 5, min_y: 5, max_x: 5, max_y: 5 }, units_per_scale: 1 };
    assert!(matches!(get_scale('.', Some(b), 128), Err(AppError::GlyphGeometryError('.'))));
}

#[test]
fn non_positive_units_is_geometry_error() {
    assert!(matches!(
        get_scale('A', Some(glyph_a_box(0)), 128),
        Err(AppError::GlyphGeometryError('A'))
    ));
    assert!(matches!(
        get_scale('A', Some(glyph_a_box(-5)), 128),
        Err(AppError::GlyphGeometryError('A'))
    ));
}

#[test]
fn placeholder_glyph_is_not_defined() {
    assert!(matches!(
        plan_glyph('\u{E000}', 0, Some(glyph_a_box(1)), 1024),
        Err(AppError::GlyphNotDefined('\u{E000}'))
    ));
}

#[test]
fn defined_glyph_is_planned_as_scaled() {
    assert_eq!(plan_glyph('A', 36, Some(glyph_a_box(1)), 1024).unwrap(), 1);
    assert!(matches!(
        plan_glyph('A', 36, Some(glyph_a_box(1)), 128),
        Err(AppError::InvalidScale('A'))
    ));
}
