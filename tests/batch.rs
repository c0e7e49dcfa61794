use glyph_dump::batch::{BatchPhase, BatchRunner};
use glyph_dump::error::AppError;
use glyph_dump::select::{candidate_code_points, is_default_candidate};
use glyph_dump::unicode::{UnicodeRange, UnicodeValue};

fn range(start: char, end: char) -> Option<UnicodeRange> {
    Some(UnicodeRange {
        start: UnicodeValue { character: start },
        end: UnicodeValue { character: end },
    })
}

#[test]
fn explicit_range_gives_every_value() {
    let r = candidate_code_points(range('A', 'Z'));
    assert_eq!(r.len(), 26);
    assert_eq!(r, ('A'..='Z').collect::<Vec<_>>());
}

#[test]
fn explicit_range_ignores_categories() {
    let r = candidate_code_points(range('\u{0}', '\u{20}'));
    assert_eq!(r.len(), 33);
    assert_eq!(r[0], '\0');
    assert_eq!(r[32], ' ');
}

#[test]
fn explicit_range_skips_surrogates() {
    let r = candidate_code_points(range('\u{D7FF}', '\u{E000}'));
    assert_eq!(r, vec!['\u{D7FF}', '\u{E000}']);
}

#[test]
fn reversed_range_is_empty() {
    assert!(candidate_code_points(range('Z', 'A')).is_empty());
}

#[test]
fn single_value_range() {
    assert_eq!(candidate_code_points(range('\u{10FFFF}', '\u{10FFFF}')), vec!['\u{10FFFF}']);
}

#[test]
fn default_filter_keeps_letters_symbols_punctuation() {
    for c in ['A', 'z', '7', '!', '€', '+', '^', 'ʰ', '中', '©'] {
        assert!(is_default_candidate(c), "{:?}", c);
    }
}

#[test]
fn default_filter_drops_controls_and_spaces() {
    for c in [' ', '\n', '\0', '\u{7F}', '\u{2028}', '\u{00A0}'] {
        assert!(!is_default_candidate(c), "{:?}", c);
    }
}

#[test]
fn default_selection_is_ordered_and_in_range() {
    let r = candidate_code_points(None);
    assert!(!r.is_empty());
    assert!(r.windows(2).all(|w| w[0] < w[1]));
    assert!(r.iter().all(|c| (*c as u32) <= 0x10FFFF && !(0xD800..=0xDFFF).contains(&(*c as u32))));
    assert!(r.iter().all(|c| is_default_candidate(*c)));
    assert!(r.contains(&'A') && r.contains(&'€'));
    assert!(!r.contains(&' ') && !r.contains(&'\n'));
}

#[test]
fn undefined_glyph_is_left_out_and_batch_completes() {
    let mut runner = BatchRunner::new(vec!['A', '\u{E000}', 'B']);
    assert_eq!(runner.phase(), BatchPhase::Init);
    runner.directory_ready();
    assert_eq!(runner.phase(), BatchPhase::DirectoryReady);
    runner.start();
    assert_eq!(runner.phase(), BatchPhase::Processing);
    assert_eq!(runner.next_candidate(), Some('A'));
    runner.record(Ok("out/f/000041_image.png".to_string()));
    assert_eq!(runner.next_candidate(), Some('\u{E000}'));
    runner.record(Err(AppError::GlyphNotDefined('\u{E000}')));
    runner.record(Ok("out/f/000042_image.png".to_string()));
    assert_eq!(runner.phase(), BatchPhase::Done);
    assert_eq!(runner.next_candidate(), None);
    let records: Vec<(char, String)> =
        runner.records().iter().map(|r| (r.code_point, r.path.clone())).collect();
    assert_eq!(
        records,
        vec![
            ('A', "out/f/000041_image.png".to_string()),
            ('B', "out/f/000042_image.png".to_string())
        ]
    );
    assert!(runner.failures().is_empty());
}

#[test]
fn glyph_failures_are_kept_without_stopping() {
    let mut runner = BatchRunner::new(vec!['A', 'B', 'C']);
    runner.directory_ready();
    runner.start();
    runner.record(Err(AppError::InvalidScale('A')));
    runner.record(Err(AppError::NoBoundingBox('B')));
    runner.record(Ok("c.png".to_string()));
    assert_eq!(runner.phase(), BatchPhase::Done);
    assert_eq!(runner.records().len(), 1);
    assert_eq!(runner.records()[0].code_point, 'C');
    let failed: Vec<char> = runner.failures().iter().map(|f| f.code_point).collect();
    assert_eq!(failed, vec!['A', 'B']);
    assert!(matches!(runner.failures()[0].error, AppError::InvalidScale('A')));
}

#[test]
fn empty_batch_is_done_at_start() {
    let mut runner = BatchRunner::new(Vec::new());
    runner.directory_ready();
    runner.start();
    assert_eq!(runner.phase(), BatchPhase::Done);
    assert!(runner.candidates().is_empty());
}
