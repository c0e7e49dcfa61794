use glyph_dump::error::AppError;
use glyph_dump::naming::{
    convert_to_be_hex_string, get_base_name, glyph_dir, image_file_name, image_path, join,
};

#[test]
fn identifier_of_basic_plane_letter() {
    assert_eq!(convert_to_be_hex_string('A'), "00000041");
    assert_eq!(convert_to_be_hex_string('é'), "000000e9");
    assert_eq!(convert_to_be_hex_string('\u{FFFD}'), "0000fffd");
}

#[test]
fn identifier_of_supplementary_code_point_is_high_unit_first() {
    assert_eq!(convert_to_be_hex_string('\u{1F600}'), "d83dde00");
    assert_eq!(convert_to_be_hex_string('\u{10FFFF}'), "dbffdfff");
    assert_eq!(convert_to_be_hex_string('\u{10000}'), "d800dc00");
}

#[test]
fn identifier_round_trips_through_utf16() {
    for c in ['\0', 'A', 'é', '\u{D7FF}', '\u{E000}', '\u{FFFF}', '\u{10000}', '\u{1F600}', '\u{10FFFF}'] {
        let hex = convert_to_be_hex_string(c);
        assert_eq!(hex.len(), 8);
        assert!(hex.chars().all(|d| d.is_ascii_digit() || ('a'..='f').contains(&d)));
        let hi = u16::from_str_radix(&hex[0..4], 16).unwrap();
        let lo = u16::from_str_radix(&hex[4..8], 16).unwrap();
        let units: Vec<u16> = if hi == 0 { vec![lo] } else { vec![hi, lo] };
        let decoded: Vec<char> = char::decode_utf16(units).map(|r| r.unwrap()).collect();
        assert_eq!(decoded, vec![c]);
    }
}

#[test]
fn file_name_keeps_last_six_digits() {
    assert_eq!(image_file_name('A'), "000041_image.png");
    assert_eq!(image_file_name('\u{1F600}'), "3dde00_image.png");
}

#[test]
fn file_names_differ_for_distinct_basic_plane_code_points() {
    assert_ne!(image_file_name('A'), image_file_name('B'));
    assert_ne!(image_file_name('\u{0141}'), image_file_name('\u{4101}'));
}

#[test]
fn join_adds_one_separator() {
    assert_eq!(join("out", "x.png"), "out/x.png");
    assert_eq!(join("out/", "x.png"), "out/x.png");
    assert_eq!(join("", "x.png"), "x.png");
}

#[test]
fn image_path_under_font_directory() {
    let dir = glyph_dir("./out", "DejaVuSans.ttf");
    assert_eq!(dir, "./out/DejaVuSans.ttf");
    assert_eq!(image_path(&dir, 'A'), "./out/DejaVuSans.ttf/000041_image.png");
}

#[test]
fn base_name_of_nested_path() {
    assert_eq!(get_base_name("fonts/DejaVuSans.ttf").unwrap(), "DejaVuSans.ttf");
    assert_eq!(get_base_name("/usr/share/fonts/a.otf").unwrap(), "a.otf");
    assert_eq!(get_base_name("plain.ttf").unwrap(), "plain.ttf");
}

#[test]
fn base_name_ignores_trailing_separators_and_dots() {
    assert_eq!(get_base_name("fonts/family/").unwrap(), "family");
    assert_eq!(get_base_name("fonts/family/.").unwrap(), "family");
    assert_eq!(get_base_name("a//b").unwrap(), "b");
    assert_eq!(get_base_name("fonts/.hidden").unwrap(), ".hidden");
}

#[test]
fn base_name_missing_is_path_error() {
    for p in ["", "/", ".", "..", "fonts/..", "./"] {
        match get_base_name(p) {
            Err(AppError::PathError(s)) => assert_eq!(s, p),
            other => panic!("unexpected {:?} for {:?}", other, p),
        }
    }
}

#[test]
fn base_name_agrees_with_std_path() {
    for p in ["fonts/DejaVuSans.ttf", "/a/b/c.ttf", "x/y/", "x/./y", "x/y/.", "..a", "/", "", "..", "a/.."] {
        let expected = std::path::Path::new(p).file_name().map(|s| s.to_str().unwrap().to_string());
        assert_eq!(get_base_name(p).ok(), expected, "path {:?}", p);
    }
}
