use screenforge::config::TextPosition;
use screenforge::text::{
    FontMetrics, center_line_x, compute_text_y, copy_total_height, default_wrap_width,
    line_height_px, measure_text_width, wrap_text_by_width,
};

/// Ten pixels (10000 millipixels) per character, no kerning.
fn flat_metrics() -> FontMetrics {
    FontMetrics {
        default_advance: 10000,
        advances: Vec::new(),
        kerning: Vec::new(),
        line_height: 12000,
    }
}

#[test]
fn wrapping_hello_world_foo_gives_three_lines() {
    let m = flat_metrics();
    let max = measure_text_width(&m, "hello");
    let lines = wrap_text_by_width(&m, "hello world foo", max);
    assert_eq!(lines, vec!["hello".to_string(), "world".to_string(), "foo".to_string()]);
}

#[test]
fn a_fitting_line_is_kept_whole() {
    let m = flat_metrics();
    let lines = wrap_text_by_width(&m, "ab cd", 1000000);
    assert_eq!(lines, vec!["ab cd".to_string()]);
}

#[test]
fn empty_input_yields_a_single_empty_line() {
    let m = flat_metrics();
    let lines = wrap_text_by_width(&m, "", 50000);
    assert_eq!(lines, vec![String::new()]);
}

#[test]
fn explicit_newlines_split_lines() {
    let m = flat_metrics();
    let lines = wrap_text_by_width(&m, "one\ntwo\r\nthree", 1000000);
    assert_eq!(lines, vec!["one".to_string(), "two".to_string(), "three".to_string()]);
}

#[test]
fn an_overlong_word_stands_alone() {
    let m = flat_metrics();
    let lines = wrap_text_by_width(&m, "tiny enormousword x", 40000);
    assert_eq!(
        lines,
        vec!["tiny".to_string(), "enormousword".to_string(), "x".to_string()]
    );
}

#[test]
fn no_wrapped_line_exceeds_the_limit_unless_single_word() {
    let m = flat_metrics();
    let max = 45000i64;
    let lines = wrap_text_by_width(&m, "a few words of copy text with more words", max);
    for line in &lines {
        let w = measure_text_width(&m, line);
        assert!(w <= max || !line.contains(' '));
    }
}

#[test]
fn measurement_adds_kerning_between_pairs() {
    let m = FontMetrics {
        default_advance: 10000,
        advances: vec![('i', 4000)],
        kerning: vec![('A', 'V', -1500)],
        line_height: 12000,
    };
    assert_eq!(measure_text_width(&m, "AV"), 10000 - 1500 + 10000);
    assert_eq!(measure_text_width(&m, "ii"), 8000);
    assert_eq!(measure_text_width(&m, ""), 0);
}

#[test]
fn line_height_is_ceil_of_one_point_two_heights() {
    let m = flat_metrics();
    // 12000 millipixels * 1.2 = 14.4 px, rounded up to 15.
    assert_eq!(line_height_px(&m), 15);
}

#[test]
fn vertical_anchors_place_the_block() {
    // Centered in the 600 px above the frame.
    assert_eq!(compute_text_y(TextPosition::AbovePhone, 2000, 600, 1000, 100, 0), 250);
    // Falls back to the fixed padding when the block does not fit.
    assert_eq!(compute_text_y(TextPosition::AbovePhone, 2000, 50, 1000, 100, 0), 60);
    // Centered in the space below the frame.
    assert_eq!(compute_text_y(TextPosition::BelowPhone, 2000, 600, 1000, 100, 0), 1750);
    assert_eq!(compute_text_y(TextPosition::Top, 2000, 600, 1000, 100, 0), 60);
    assert_eq!(compute_text_y(TextPosition::Bottom, 2000, 600, 1000, 100, 0), 1840);
    // The signed offset applies and the result is clamped at zero.
    assert_eq!(compute_text_y(TextPosition::Top, 2000, 600, 1000, 100, -100), 0);
    assert_eq!(compute_text_y(TextPosition::Top, 2000, 600, 1000, 100, 40), 100);
}

#[test]
fn lines_are_centered_and_clamped() {
    // A 100 px line on a 300 px canvas starts at 100.
    assert_eq!(center_line_x(300, 100000), 100);
    // A line wider than the canvas is pinned to the left edge.
    assert_eq!(center_line_x(300, 400000), 0);
}

#[test]
fn the_default_wrap_width_is_eighty_percent() {
    assert_eq!(default_wrap_width(1290), 1032);
}

#[test]
fn block_height_includes_the_gap_only_with_a_subheadline() {
    assert_eq!(copy_total_height(2, 15, 0, 10, 24), 30);
    assert_eq!(copy_total_height(2, 15, 3, 10, 24), 30 + 24 + 30);
}
