use xcbars::error::Error;
use xcbars::item_state::{Change, ItemState};
use xcbars::paint::text_baseline;

#[test]
fn new_item_is_one_pixel_wide_and_not_ready() {
    let item = ItemState::new(7);
    assert_eq!(item.get_id(), 7);
    assert_eq!(item.get_content_width(), 1);
    assert_eq!(item.get_buffer_width(), 0);
    assert_eq!(item.get_text(), "");
    assert!(!item.is_ready());
}

#[test]
fn update_with_the_same_text_is_unchanged() {
    let mut item = ItemState::new(0);
    let first = item.update("abc".to_string(), 30);
    assert_eq!(
        first,
        Ok(Change::Changed { size_changed: true, reallocated: true })
    );
    let second = item.update("abc".to_string(), 30);
    assert_eq!(second, Ok(Change::Unchanged));
    assert_eq!(item.get_text(), "abc");
    assert_eq!(item.get_content_width(), 30);
    assert_eq!(item.get_buffer_width(), 39);
}

#[test]
fn update_with_the_same_text_ignores_the_measured_width() {
    let mut item = ItemState::new(0);
    item.update("abc".to_string(), 30).unwrap();
    assert_eq!(item.update("abc".to_string(), 99), Ok(Change::Unchanged));
    assert_eq!(item.get_content_width(), 30);
}

#[test]
fn empty_text_on_a_new_item_is_unchanged() {
    let mut item = ItemState::new(0);
    assert_eq!(item.update(String::new(), 0), Ok(Change::Unchanged));
    assert_eq!(item.get_content_width(), 1);
}

#[test]
fn size_change_is_reported_when_the_width_differs() {
    let mut item = ItemState::new(0);
    item.update("a".to_string(), 10).unwrap();
    assert_eq!(
        item.update("bb".to_string(), 20),
        Ok(Change::Changed { size_changed: true, reallocated: true })
    );
}

#[test]
fn no_size_change_for_another_text_of_the_same_width() {
    let mut item = ItemState::new(0);
    item.update("a".to_string(), 10).unwrap();
    assert_eq!(
        item.update("b".to_string(), 10),
        Ok(Change::Changed { size_changed: false, reallocated: false })
    );
    assert_eq!(item.get_text(), "b");
}

#[test]
fn first_text_of_one_pixel_is_no_size_change() {
    let mut item = ItemState::new(0);
    assert_eq!(
        item.update("i".to_string(), 1),
        Ok(Change::Changed { size_changed: false, reallocated: true })
    );
    assert_eq!(item.get_buffer_width(), 2);
}

#[test]
fn buffer_grows_to_130_percent_rounded_up() {
    let mut item = ItemState::new(0);
    assert_eq!(item.ensure_buffer(10), Ok(true));
    assert_eq!(item.get_buffer_width(), 13);
    assert_eq!(item.ensure_buffer(14), Ok(true));
    assert_eq!(item.get_buffer_width(), 19);
    assert_eq!(item.ensure_buffer(19), Ok(false));
    assert_eq!(item.get_buffer_width(), 19);
    assert_eq!(item.ensure_buffer(20), Ok(true));
    assert_eq!(item.get_buffer_width(), 26);
}

#[test]
fn buffer_is_kept_within_the_band() {
    let mut item = ItemState::new(0);
    item.ensure_buffer(20).unwrap();
    assert_eq!(item.get_buffer_width(), 26);
    // 16 is 61.5% of 26: kept.
    assert_eq!(item.ensure_buffer(16), Ok(false));
    assert_eq!(item.get_buffer_width(), 26);
    assert_eq!(item.ensure_buffer(26), Ok(false));
    assert_eq!(item.get_buffer_width(), 26);
}

#[test]
fn buffer_shrinks_below_60_percent() {
    let mut item = ItemState::new(0);
    item.ensure_buffer(20).unwrap();
    // 15 is 57.7% of 26: replaced by one of 130% of 15, rounded up.
    assert_eq!(item.ensure_buffer(15), Ok(true));
    assert_eq!(item.get_buffer_width(), 20);
}

#[test]
fn buffer_of_exactly_60_percent_is_kept() {
    let mut item = ItemState::new(0);
    item.ensure_buffer(100).unwrap();
    assert_eq!(item.get_buffer_width(), 130);
    assert_eq!(item.ensure_buffer(78), Ok(false));
    assert_eq!(item.ensure_buffer(77), Ok(true));
    assert_eq!(item.get_buffer_width(), 101);
}

#[test]
fn zero_width_needs_no_buffer() {
    let mut item = ItemState::new(0);
    assert_eq!(item.ensure_buffer(0), Ok(false));
    assert_eq!(item.get_buffer_width(), 0);
    item.ensure_buffer(10).unwrap();
    assert_eq!(item.ensure_buffer(0), Ok(true));
    assert_eq!(item.get_buffer_width(), 0);
}

#[test]
fn buffer_that_cannot_be_allocated_fails() {
    let mut item = ItemState::new(0);
    assert_eq!(item.ensure_buffer(50411), Ok(true));
    assert_eq!(item.get_buffer_width(), 65535);
    let mut other = ItemState::new(1);
    assert_eq!(other.ensure_buffer(50412), Err(Error::ItemError));
    assert_eq!(other.get_buffer_width(), 0);
}

#[test]
fn failed_update_keeps_text_and_width() {
    let mut item = ItemState::new(0);
    item.update("short".to_string(), 50).unwrap();
    assert_eq!(item.update("long".to_string(), 60000), Err(Error::ItemError));
    assert_eq!(item.get_text(), "short");
    assert_eq!(item.get_content_width(), 50);
    assert_eq!(item.get_buffer_width(), 65);
}

#[test]
fn growth_by_one_pixel_reallocates_rarely() {
    let mut item = ItemState::new(0);
    let mut reallocations = 0;
    for width in 1..=1000u16 {
        if item.ensure_buffer(width).unwrap() {
            reallocations += 1;
        }
        assert!(item.get_buffer_width() >= width);
    }
    assert_eq!(reallocations, 20);
    assert_eq!(item.get_buffer_width(), 1137);
}

#[test]
fn buffer_never_shrinks_within_the_band_over_a_sequence() {
    let mut item = ItemState::new(0);
    let widths: [u16; 10] = [100, 90, 80, 78, 120, 130, 100, 94, 93, 200];
    for &width in widths.iter() {
        let before = item.get_buffer_width();
        let reallocated = item.ensure_buffer(width).unwrap();
        let after = item.get_buffer_width();
        if after < before {
            assert!(10 * (width as u32) < 6 * (before as u32));
        }
        if reallocated {
            assert!(10 * (after as u32) >= 13 * (width as u32));
        } else {
            assert_eq!(after, before);
        }
    }
    assert_eq!(item.get_buffer_width(), 260);
}

#[test]
fn update_size_reports_the_difference() {
    let mut item = ItemState::new(0);
    assert!(item.update_size(5));
    assert!(!item.update_size(5));
    assert!(item.update_size(1));
    assert_eq!(item.get_content_width(), 1);
}

#[test]
fn set_ready_changes_readiness_only() {
    let mut item = ItemState::new(3);
    item.update("x".to_string(), 10).unwrap();
    item.set_ready(true);
    assert!(item.is_ready());
    assert_eq!(item.get_content_width(), 10);
    assert_eq!(item.get_text(), "x");
    item.set_ready(false);
    assert!(!item.is_ready());
}

#[test]
fn shows_compares_the_text() {
    let mut item = ItemState::new(0);
    item.update("x".to_string(), 10).unwrap();
    assert!(item.shows(&"x".to_string()));
    assert!(!item.shows(&"y".to_string()));
}

#[test]
fn paint_is_the_same_for_the_same_state() {
    let mut item = ItemState::new(0);
    item.update("clock".to_string(), 42).unwrap();
    let first = item.paint(20, 14336, 11264);
    let second = item.paint(20, 14336, 11264);
    assert_eq!(first, second);
    assert_eq!(first.text, "clock");
    assert_eq!(first.width, 55);
    assert_eq!(first.y, 5);
}

#[test]
fn text_baseline_rounds_down() {
    assert_eq!(text_baseline(20, 14336, 11264), 5);
    assert_eq!(text_baseline(21, 14336, 11264), 5);
    assert_eq!(text_baseline(20, 0, 0), 9);
    assert_eq!(text_baseline(30, 10240, 9000), 10);
    assert_eq!(text_baseline(0, 0, 1024), -2);
    assert_eq!(text_baseline(0, -5, 0), -2);
}

#[test]
fn text_baseline_agrees_with_floating_point() {
    let cases: [(u16, i32, i32); 5] = [
        (20, 14336, 11264),
        (33, 12288, 9999),
        (0, 0, 1024),
        (65535, i32::MAX, i32::MIN),
        (1, i32::MIN, i32::MAX),
    ];
    for &(height, size, baseline) in cases.iter() {
        let text_height = size as f64 / 1024.0;
        let y = height as f64 / 2. + (text_height / 2.) - (baseline as f64 / 1024.0);
        assert_eq!(text_baseline(height, size, baseline), (y.floor() - 1.) as i64);
    }
}

#[test]
fn reallocations_grow_by_130_percent_each() {
    // Growing from one pixel on, every width that replaces the buffer is
    // more than 1.3 times the one before.
    let mut item = ItemState::new(0);
    let mut causes: Vec<u32> = Vec::new();
    for width in 1..=1000u16 {
        if item.ensure_buffer(width).unwrap() {
            causes.push(width as u32);
        }
    }
    for pair in causes.windows(2) {
        assert!(10 * pair[1] > 13 * pair[0]);
    }
    assert_eq!(causes.first(), Some(&1));
    assert_eq!(causes.last(), Some(&874));
    assert_eq!(causes.len(), 20);
}

#[test]
fn mark_rendered_needs_a_buffer_for_the_content() {
    let mut item = ItemState::new(0);
    item.mark_rendered(true);
    assert!(!item.is_ready());
    item.update("x".to_string(), 10).unwrap();
    item.mark_rendered(true);
    assert!(item.is_ready());
    item.mark_rendered(false);
    assert!(!item.is_ready());
    item.mark_rendered(true);
    item.update_size(14);
    item.mark_rendered(true);
    assert!(!item.is_ready());
}
