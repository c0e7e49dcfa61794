use glyph_dump::canvas::{composite, Coverage};
use glyph_dump::color::Color;
use glyph_dump::error::AppError;
use glyph_dump::geometry::Rect;
use glyph_dump::glyph::{can_render, render_glyph};

const RED: Color = Color { red: 255, green: 0, blue: 0 };

fn pixel(rgba: &[u8], side: usize, x: usize, y: usize) -> [u8; 4] {
    let i = 4 * (y * side + x);
    [rgba[i], rgba[i + 1], rgba[i + 2], rgba[i + 3]]
}

#[test]
fn wide_box_is_centred_vertically() {
    // 2 wide, 1 high: a 2 x 2 canvas, no shift (floor of 1 / 2)
    let bbox = Rect { min_x: 0, min_y: -1, max_x: 2, max_y: 0 };
    let samples = vec![
        Coverage { x: 0, y: 0, alpha: 255 },
        Coverage { x: 1, y: 0, alpha: 128 },
    ];
    let img = render_glyph('-', Some(bbox), &samples, &RED, "out").unwrap();
    assert_eq!(img.side, 2);
    assert_eq!(img.rgba.len(), 16);
    assert_eq!(pixel(&img.rgba, 2, 0, 0), [255, 0, 0, 255]);
    assert_eq!(pixel(&img.rgba, 2, 1, 0), [255, 0, 0, 128]);
    assert_eq!(pixel(&img.rgba, 2, 0, 1), [0, 0, 0, 0]);
    assert_eq!(pixel(&img.rgba, 2, 1, 1), [0, 0, 0, 0]);
    assert_eq!(img.path, "out/00002d_image.png");
}

#[test]
fn tall_box_is_centred_horizontally() {
    // 1 wide, 3 high: a 3 x 3 canvas, shifted one pixel right
    let bbox = Rect { min_x: 4, min_y: -3, max_x: 5, max_y: 0 };
    let samples = vec![Coverage { x: 0, y: 1, alpha: 200 }];
    let img = render_glyph('l', Some(bbox), &samples, &Color { red: 1, green: 2, blue: 3 }, "o/").unwrap();
    assert_eq!(img.side, 3);
    assert_eq!(pixel(&img.rgba, 3, 1, 1), [1, 2, 3, 200]);
    let painted = (0..9).filter(|p| pixel(&img.rgba, 3, p % 3, p / 3)[3] != 0).count();
    assert_eq!(painted, 1);
    assert_eq!(img.path, "o/00006c_image.png");
}

#[test]
fn later_sample_wins_on_the_same_pixel() {
    let bbox = Rect { min_x: 0, min_y: 0, max_x: 1, max_y: 1 };
    let samples = vec![Coverage { x: 0, y: 0, alpha: 10 }, Coverage { x: 0, y: 0, alpha: 20 }];
    let bytes = composite(&bbox, &RED, &samples).into_rgba_bytes();
    assert_eq!(bytes, vec![255, 0, 0, 20]);
}

#[test]
fn canvas_side_follows_the_scaled_pixel_box() {
    // the glyph of a 500 x 700 unit box at scale 1
    let bbox = Rect { min_x: 0, min_y: -700, max_x: 500, max_y: 0 };
    let img = render_glyph('A', Some(bbox), &Vec::new(), &RED, "out/font").unwrap();
    assert_eq!(img.side, 700);
    assert_eq!(img.rgba.len(), 700 * 700 * 4);
    assert!(img.rgba.iter().all(|b| *b == 0));
}

#[test]
fn canvas_is_square_for_every_aspect() {
    for (w, h) in [(1, 9), (9, 1), (4, 4), (7, 2)] {
        let bbox = Rect { min_x: 0, min_y: 0, max_x: w, max_y: h };
        let samples: Vec<Coverage> = (0..w as u32)
            .flat_map(|x| (0..h as u32).map(move |y| Coverage { x, y, alpha: 255 }))
            .collect();
        let img = render_glyph('#', Some(bbox), &samples, &RED, "d").unwrap();
        let side = w.max(h) as u32;
        assert_eq!(img.side, side);
        assert_eq!(img.rgba.len() as u32, side * side * 4);
        let covered = img.rgba.chunks(4).filter(|p| p[3] == 255).count();
        assert_eq!(covered as i32, w * h);
    }
}

#[test]
fn no_pixel_box_is_an_error() {
    assert!(matches!(
        render_glyph(' ', None, &Vec::new(), &RED, "out"),
        Err(AppError::NoBoundingBox(' '))
    ));
}

#[test]
fn renderable_checks_box_and_samples() {
    let bbox = Rect { min_x: 0, min_y: 0, max_x: 2, max_y: 3 };
    assert!(can_render(&bbox, &vec![Coverage { x: 1, y: 2, alpha: 1 }]));
    assert!(!can_render(&bbox, &vec![Coverage { x: 2, y: 0, alpha: 1 }]));
    assert!(!can_render(&bbox, &vec![Coverage { x: 0, y: 3, alpha: 1 }]));
    let inverted = Rect { min_x: 3, min_y: 0, max_x: 2, max_y: 3 };
    assert!(!can_render(&inverted, &Vec::new()));
    let huge = Rect { min_x: i32::MIN, min_y: 0, max_x: i32::MAX, max_y: 1 };
    assert!(!can_render(&huge, &Vec::new()));
}
