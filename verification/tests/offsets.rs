use ui::offsets::char_len_utf16;
use ui::offsets::char_len_utf8;
use ui::offsets::floor_char_boundary;
use ui::offsets::offset_from_utf16;
use ui::offsets::offset_to_utf16;
use ui::offsets::prefix_within;
use ui::offsets::range_from_utf16;
use ui::offsets::range_to_utf16;

#[test]
fn widths_match_the_standard_library() {
    for c in ['a', '\u{7F}', '\u{80}', '\u{7FF}', '\u{800}', '\u{FFFF}', '\u{10000}', '\u{10FFFF}'] {
        assert_eq!(char_len_utf8(c), c.len_utf8());
        assert_eq!(char_len_utf16(c), c.len_utf16());
    }
}

#[test]
fn utf16_offsets_become_byte_offsets() {
    let text = "a\u{1F600}b";
    assert_eq!(offset_from_utf16(text, 0), 0);
    assert_eq!(offset_from_utf16(text, 1), 1);
    assert_eq!(offset_from_utf16(text, 3), 5);
    assert_eq!(offset_from_utf16(text, 4), 6);
}

#[test]
fn utf16_offset_inside_surrogate_pair_rounds_down() {
    assert_eq!(offset_from_utf16("a\u{1F600}b", 2), 1);
    assert_eq!(offset_from_utf16("\u{1F600}", 1), 0);
}

#[test]
fn utf16_offset_past_the_end_is_the_length() {
    assert_eq!(offset_from_utf16("a\u{1F600}b", 5), 6);
    assert_eq!(offset_from_utf16("a\u{1F600}b", usize::MAX), 6);
    assert_eq!(offset_from_utf16("", 3), 0);
}

#[test]
fn byte_offsets_become_utf16_offsets() {
    let text = "a\u{1F600}b\u{4F60}";
    assert_eq!(offset_to_utf16(text, 0), 0);
    assert_eq!(offset_to_utf16(text, 1), 1);
    assert_eq!(offset_to_utf16(text, 5), 3);
    assert_eq!(offset_to_utf16(text, 6), 4);
    assert_eq!(offset_to_utf16(text, 9), 5);
    assert_eq!(offset_to_utf16(text, 3), 1);
    assert_eq!(offset_to_utf16(text, 8), 4);
    assert_eq!(offset_to_utf16(text, 1000), 5);
}

#[test]
fn offsets_round_trip_on_boundaries() {
    let text = "a\u{1F600}\u{E9}b\u{4F60}\u{1F1E9}\u{1F1EA}";
    for (byte, _) in text.char_indices().chain([(text.len(), ' ')]) {
        assert_eq!(offset_from_utf16(text, offset_to_utf16(text, byte)), byte);
    }
    let mut unit = 0;
    for c in text.chars() {
        assert_eq!(offset_to_utf16(text, offset_from_utf16(text, unit)), unit);
        unit += c.len_utf16();
    }
    assert_eq!(offset_to_utf16(text, offset_from_utf16(text, unit)), unit);
}

#[test]
fn ranges_convert_bound_by_bound() {
    let text = "a\u{1F600}b";
    assert_eq!(range_from_utf16(text, &(1..3)), 1..5);
    assert_eq!(range_from_utf16(text, &(3..1)), 5..1);
    assert_eq!(range_to_utf16(text, &(1..5)), 1..3);
    assert_eq!(range_to_utf16(text, &(0..6)), 0..4);
}

#[test]
fn floor_char_boundary_rounds_down_and_clamps() {
    let text = "\u{4F60}\u{597D}";
    assert_eq!(floor_char_boundary(text, 0), 0);
    assert_eq!(floor_char_boundary(text, 2), 0);
    assert_eq!(floor_char_boundary(text, 3), 3);
    assert_eq!(floor_char_boundary(text, 5), 3);
    assert_eq!(floor_char_boundary(text, 6), 6);
    assert_eq!(floor_char_boundary(text, 7), 6);
}

#[test]
fn prefix_is_measured_three_ways() {
    let text = "a\u{1F600}b";
    let p = prefix_within(text, false, 5);
    assert_eq!((p.chars, p.bytes, p.units), (2, 5, 3));
    let p = prefix_within(text, true, 2);
    assert_eq!((p.chars, p.bytes, p.units), (1, 1, 1));
    let p = prefix_within(text, true, 100);
    assert_eq!((p.chars, p.bytes, p.units), (3, 6, 4));
}
