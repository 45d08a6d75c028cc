use countdown::glyphs::{char_width, glyph_for};
use countdown::layout::{plan_frame, start_col, start_row, total_width};
use countdown::timefmt::remain_to_fmt;

#[test]
fn fmt_zero() {
    assert_eq!(remain_to_fmt(0), "00:00");
}

#[test]
fn fmt_last_minute() {
    assert_eq!(remain_to_fmt(59), "00:59");
}

#[test]
fn fmt_one_minute() {
    assert_eq!(remain_to_fmt(60), "01:00");
}

#[test]
fn fmt_last_second_before_an_hour() {
    assert_eq!(remain_to_fmt(3599), "59:59");
}

#[test]
fn fmt_hours_appear_at_one_hour() {
    assert_eq!(remain_to_fmt(3600), "01:00:00");
    assert_eq!(remain_to_fmt(7199), "01:59:59");
}

#[test]
fn fmt_mixed_duration() {
    assert_eq!(remain_to_fmt(9950), "02:45:50");
}

#[test]
fn fmt_widest_value() {
    assert_eq!(remain_to_fmt(u64::MAX), "5124095576030431:00:15");
}

#[test]
fn fmt_is_a_pure_function() {
    let first = remain_to_fmt(9950);
    let _ = remain_to_fmt(12345);
    let again = remain_to_fmt(9950);
    assert_eq!(first, again);
}

#[test]
fn every_clock_character_has_a_glyph() {
    for remain in [0u64, 59, 60, 3599, 3600, 9950, 86399, u64::MAX] {
        for c in remain_to_fmt(remain).chars() {
            let g = glyph_for(c).expect("clock character without a glyph");
            assert_eq!(g.width, char_width(c));
            assert_eq!(g.rows.len(), 6);
            for row in &g.rows {
                assert_eq!(row.chars().count(), g.width);
            }
        }
    }
}

#[test]
fn glyph_widths() {
    for c in ['0', '1', '2', '3', '4', '5', '6', '7', '8', '9'] {
        assert_eq!(char_width(c), 7);
    }
    assert_eq!(char_width(':'), 3);
}

#[test]
fn unsupported_characters_have_no_glyph() {
    assert!(glyph_for('x').is_none());
    assert!(glyph_for(' ').is_none());
    assert_eq!(char_width('x'), 0);
}

#[test]
fn width_is_the_sum_of_glyph_widths() {
    // "00:00": four digits and a colon.
    assert_eq!(total_width("00:00"), 7 + 7 + 3 + 7 + 7);
    // "00:00:00": six digits and two colons.
    assert_eq!(total_width("00:00:00"), 6 * 7 + 2 * 3);
}

#[test]
fn centering_truncates_halves() {
    assert_eq!(start_col(80, 31), 80 / 2 - 31 / 2);
    assert_eq!(start_row(24), 24 / 2 - 3);
}

#[test]
fn centering_clamps_on_small_surfaces() {
    assert_eq!(start_col(10, 31), 0);
    assert_eq!(start_row(4), 0);
}

#[test]
fn frame_places_glyphs_left_to_right() {
    let frame = plan_frame(0, 80, 24);
    let chars: Vec<char> = frame.iter().map(|p| p.ch).collect();
    assert_eq!(chars, vec!['0', '0', ':', '0', '0']);
    let cols: Vec<usize> = frame.iter().map(|p| p.col).collect();
    assert_eq!(cols, vec![25, 32, 39, 42, 49]);
    for p in &frame {
        assert_eq!(p.row, 9);
    }
}

#[test]
fn frame_columns_advance_by_glyph_width() {
    for remain in [0u64, 59, 3600, 9950] {
        let frame = plan_frame(remain, 120, 40);
        let fmt = remain_to_fmt(remain);
        assert_eq!(frame.len(), fmt.chars().count());
        let mut width_sum = 0;
        for (p, c) in frame.iter().zip(fmt.chars()) {
            assert_eq!(p.ch, c);
            assert_eq!(p.col, frame[0].col + width_sum);
            width_sum += char_width(c);
        }
        assert_eq!(width_sum, total_width(&fmt));
        assert_eq!(frame[0].col, start_col(120, total_width(&fmt)));
    }
}
