use xcbars::bar::Bar;
use xcbars::bar_builder::Rectangle;
use xcbars::component::{ComponentUpdate, Slot};
use xcbars::error::Error;
use xcbars::item_state::Change;
use xcbars::paint::PaintOp;

/// Ten pixels for every character.
fn measure(text: &str) -> u16 {
    10 * text.len() as u16
}

fn bar(left: usize, center: usize, right: usize) -> Bar {
    Bar::new(Rectangle::new(0, 0, 200, 20), 5, left, center, right).unwrap()
}

/// Sends `text` to the component and paints what follows from it.
fn show(bar: &mut Bar, slot: Slot, index: usize, id: usize, text: &str) -> Vec<PaintOp> {
    let update = ComponentUpdate { slot, index, id, value: text.to_string() };
    let change = bar.update(update, measure(text)).unwrap();
    bar.redraw(slot, index, change, true)
}

#[test]
fn new_bar_has_fresh_items_and_an_empty_table() {
    let bar = bar(2, 1, 3);
    assert_eq!(bar.left_items().len(), 2);
    assert_eq!(bar.center_items().len(), 1);
    assert_eq!(bar.right_items().len(), 3);
    assert_eq!(bar.item_positions(), &vec![None; 6]);
    assert_eq!(bar.left_items()[1].get_id(), 1);
    assert_eq!(bar.center_items()[0].get_id(), 2);
    assert_eq!(bar.right_items()[2].get_id(), 5);
    assert_eq!(bar.right_items()[2].get_content_width(), 1);
    assert_eq!(bar.geometry(), Rectangle::new(0, 0, 200, 20));
    assert_eq!(bar.inner_padding(), 5);
}

#[test]
fn bar_that_cannot_host_its_items_is_refused() {
    let narrow = Rectangle::new(0, 0, 10, 20);
    // Right slot: padding and one pixel for each item must fit the width.
    assert!(Bar::new(narrow, 5, 0, 0, 5).is_some());
    assert!(Bar::new(narrow, 5, 0, 0, 6).is_none());
    assert!(Bar::new(narrow, 11, 0, 0, 0).is_none());
    // Center slot: half its width must not exceed half the bar's width.
    assert!(Bar::new(narrow, 0, 0, 11, 0).is_some());
    assert!(Bar::new(narrow, 0, 0, 12, 0).is_none());
    // Left slot: offsets must stay within 16 bits.
    assert!(Bar::new(narrow, 5, 65530, 0, 0).is_some());
    assert!(Bar::new(narrow, 5, 65531, 0, 0).is_none());
}

#[test]
fn first_update_of_a_left_item_is_a_cascade() {
    let mut bar = bar(1, 0, 0);
    let ops = show(&mut bar, Slot::Left, 0, 0, "A");
    assert_eq!(
        ops,
        vec![
            PaintOp::Fill { x: 5, width: 10 },
            PaintOp::Copy { id: 0, x: 5, width: 10 },
        ]
    );
    assert_eq!(bar.item_positions()[0], Some((5, 10)));
}

#[test]
fn repeated_update_paints_nothing() {
    let mut bar = bar(1, 0, 0);
    show(&mut bar, Slot::Left, 0, 0, "A");
    let update = ComponentUpdate { slot: Slot::Left, index: 0, id: 0, value: "A".to_string() };
    let change = bar.update(update, 10).unwrap();
    assert_eq!(change, Change::Unchanged);
    let ops = bar.redraw(Slot::Left, 0, change, true);
    assert!(ops.is_empty());
    assert_eq!(bar.item_positions()[0], Some((5, 10)));
}

#[test]
fn left_item_of_unchanged_size_is_repainted_alone() {
    let mut bar = bar(3, 0, 0);
    show(&mut bar, Slot::Left, 0, 0, "A");
    show(&mut bar, Slot::Left, 1, 1, "BB");
    show(&mut bar, Slot::Left, 2, 2, "CCC");
    let before = bar.item_positions().clone();
    let ops = show(&mut bar, Slot::Left, 1, 1, "XX");
    assert_eq!(ops, vec![PaintOp::Copy { id: 1, x: 15, width: 20 }]);
    assert_eq!(bar.item_positions(), &before);
    assert_eq!(before, vec![Some((5, 10)), Some((15, 20)), Some((35, 30))]);
}

#[test]
fn growing_left_item_shifts_the_items_after_it() {
    let mut bar = bar(3, 0, 0);
    show(&mut bar, Slot::Left, 0, 0, "A");
    show(&mut bar, Slot::Left, 1, 1, "BB");
    show(&mut bar, Slot::Left, 2, 2, "CCC");
    let ops = show(&mut bar, Slot::Left, 0, 0, "AA");
    assert_eq!(
        ops,
        vec![
            PaintOp::Fill { x: 5, width: 20 },
            PaintOp::Copy { id: 0, x: 5, width: 20 },
            PaintOp::Fill { x: 25, width: 20 },
            PaintOp::Copy { id: 1, x: 25, width: 20 },
            // The last item only shifted: nothing is cleared beyond its end.
            PaintOp::Fill { x: 45, width: 30 },
            PaintOp::Copy { id: 2, x: 45, width: 30 },
        ]
    );
    assert_eq!(
        bar.item_positions(),
        &vec![Some((5, 20)), Some((25, 20)), Some((45, 30))]
    );
}

#[test]
fn shrinking_left_item_clears_what_the_last_item_left_behind() {
    let mut bar = bar(3, 0, 0);
    show(&mut bar, Slot::Left, 0, 0, "AA");
    show(&mut bar, Slot::Left, 1, 1, "BB");
    show(&mut bar, Slot::Left, 2, 2, "CCC");
    assert_eq!(bar.item_positions()[2], Some((45, 30)));
    let ops = show(&mut bar, Slot::Left, 0, 0, "A");
    assert_eq!(
        ops,
        vec![
            PaintOp::Fill { x: 5, width: 10 },
            PaintOp::Copy { id: 0, x: 5, width: 10 },
            PaintOp::Fill { x: 15, width: 20 },
            PaintOp::Copy { id: 1, x: 15, width: 20 },
            // The last item ended at 75 before and ends at 65 now.
            PaintOp::Fill { x: 35, width: 40 },
            PaintOp::Copy { id: 2, x: 35, width: 30 },
        ]
    );
    assert_eq!(
        bar.item_positions(),
        &vec![Some((5, 10)), Some((15, 20)), Some((35, 30))]
    );
}

#[test]
fn cascade_from_the_middle_leaves_earlier_items_alone() {
    let mut bar = bar(3, 0, 0);
    show(&mut bar, Slot::Left, 0, 0, "A");
    show(&mut bar, Slot::Left, 1, 1, "BB");
    show(&mut bar, Slot::Left, 2, 2, "CCC");
    let ops = show(&mut bar, Slot::Left, 1, 1, "B");
    assert_eq!(
        ops,
        vec![
            PaintOp::Fill { x: 15, width: 10 },
            PaintOp::Copy { id: 1, x: 15, width: 10 },
            PaintOp::Fill { x: 25, width: 40 },
            PaintOp::Copy { id: 2, x: 25, width: 30 },
        ]
    );
    assert_eq!(bar.item_positions()[0], Some((5, 10)));
}

#[test]
fn right_items_are_anchored_at_the_right_edge() {
    let mut bar = bar(0, 0, 2);
    // Item 1 is the one next to the edge.
    let ops = show(&mut bar, Slot::Right, 1, 1, "22");
    assert_eq!(
        ops,
        vec![
            PaintOp::Fill { x: 175, width: 20 },
            PaintOp::Copy { id: 1, x: 175, width: 20 },
            PaintOp::Fill { x: 174, width: 1 },
        ]
    );
    assert_eq!(bar.item_positions(), &vec![Some((174, 1)), Some((175, 20))]);
    let ops = show(&mut bar, Slot::Right, 0, 0, "1");
    assert_eq!(
        ops,
        vec![
            // Item 0 started at 174 before and starts at 165 now.
            PaintOp::Fill { x: 165, width: 10 },
            PaintOp::Copy { id: 0, x: 165, width: 10 },
        ]
    );
    assert_eq!(bar.item_positions(), &vec![Some((165, 10)), Some((175, 20))]);
}

#[test]
fn right_item_of_unchanged_size_is_repainted_alone() {
    let mut bar = bar(0, 0, 3);
    show(&mut bar, Slot::Right, 0, 0, "1");
    show(&mut bar, Slot::Right, 1, 1, "22");
    show(&mut bar, Slot::Right, 2, 2, "333");
    let before = bar.item_positions().clone();
    assert_eq!(before, vec![Some((135, 10)), Some((145, 20)), Some((165, 30))]);
    let ops = show(&mut bar, Slot::Right, 1, 1, "ab");
    assert_eq!(ops, vec![PaintOp::Copy { id: 1, x: 145, width: 20 }]);
    assert_eq!(bar.item_positions(), &before);
}

#[test]
fn shrinking_right_item_clears_from_the_old_start_of_the_first_item() {
    let mut bar = bar(0, 0, 3);
    show(&mut bar, Slot::Right, 0, 0, "1");
    show(&mut bar, Slot::Right, 1, 1, "22");
    show(&mut bar, Slot::Right, 2, 2, "333");
    let ops = show(&mut bar, Slot::Right, 2, 2, "3");
    assert_eq!(
        ops,
        vec![
            PaintOp::Fill { x: 185, width: 10 },
            PaintOp::Copy { id: 2, x: 185, width: 10 },
            PaintOp::Fill { x: 165, width: 20 },
            PaintOp::Copy { id: 1, x: 165, width: 20 },
            // The first item started at 135 before and starts at 155 now.
            PaintOp::Fill { x: 135, width: 30 },
            PaintOp::Copy { id: 0, x: 155, width: 10 },
        ]
    );
    assert_eq!(
        bar.item_positions(),
        &vec![Some((155, 10)), Some((165, 20)), Some((185, 10))]
    );
}

#[test]
fn growing_right_item_shifts_the_items_before_it() {
    let mut bar = bar(0, 0, 3);
    show(&mut bar, Slot::Right, 0, 0, "1");
    show(&mut bar, Slot::Right, 1, 1, "22");
    show(&mut bar, Slot::Right, 2, 2, "3");
    let ops = show(&mut bar, Slot::Right, 1, 1, "2222");
    assert_eq!(
        ops,
        vec![
            PaintOp::Fill { x: 145, width: 40 },
            PaintOp::Copy { id: 1, x: 145, width: 40 },
            PaintOp::Fill { x: 135, width: 10 },
            PaintOp::Copy { id: 0, x: 135, width: 10 },
        ]
    );
    assert_eq!(bar.item_positions()[2], Some((185, 10)));
}

#[test]
fn center_items_are_centered_as_a_group() {
    let mut bar = bar(0, 2, 0);
    let ops = show(&mut bar, Slot::Center, 0, 0, "X");
    // Eleven pixels in all: the second item is still one pixel wide.
    assert_eq!(ops, vec![PaintOp::Copy { id: 0, x: 95, width: 10 }]);
    assert_eq!(bar.item_positions(), &vec![Some((95, 10)), Some((105, 1))]);
    let ops = show(&mut bar, Slot::Center, 1, 1, "YY");
    assert_eq!(
        ops,
        vec![
            PaintOp::Copy { id: 0, x: 85, width: 10 },
            PaintOp::Copy { id: 1, x: 95, width: 20 },
        ]
    );
    assert_eq!(bar.item_positions(), &vec![Some((85, 10)), Some((95, 20))]);
}

#[test]
fn growing_center_item_moves_the_whole_group() {
    let mut bar = bar(0, 2, 0);
    show(&mut bar, Slot::Center, 0, 0, "X");
    show(&mut bar, Slot::Center, 1, 1, "YY");
    let ops = show(&mut bar, Slot::Center, 1, 1, "YYYY");
    // The group is 50 wide now: it starts at (200 - 50) / 2.
    assert_eq!(
        ops,
        vec![
            PaintOp::Copy { id: 0, x: 75, width: 10 },
            PaintOp::Copy { id: 1, x: 85, width: 40 },
        ]
    );
    assert_eq!(bar.item_positions(), &vec![Some((75, 10)), Some((85, 40))]);
}

#[test]
fn shrinking_center_group_clears_the_old_span_first() {
    let mut bar = bar(0, 2, 0);
    show(&mut bar, Slot::Center, 0, 0, "X");
    show(&mut bar, Slot::Center, 1, 1, "YYYY");
    let ops = show(&mut bar, Slot::Center, 1, 1, "Y");
    assert_eq!(
        ops,
        vec![
            // The group was painted from 75 on, 50 wide.
            PaintOp::Fill { x: 75, width: 50 },
            PaintOp::Copy { id: 0, x: 90, width: 10 },
            PaintOp::Copy { id: 1, x: 100, width: 10 },
        ]
    );
}

#[test]
fn center_item_of_unchanged_size_still_repaints_the_group() {
    let mut bar = bar(0, 2, 0);
    show(&mut bar, Slot::Center, 0, 0, "X");
    show(&mut bar, Slot::Center, 1, 1, "YY");
    let ops = show(&mut bar, Slot::Center, 0, 0, "Z");
    assert_eq!(
        ops,
        vec![
            PaintOp::Copy { id: 0, x: 85, width: 10 },
            PaintOp::Copy { id: 1, x: 95, width: 20 },
        ]
    );
}

#[test]
fn center_of_odd_width_on_an_even_bar_starts_one_pixel_right_of_half_the_rest() {
    let mut bar = Bar::new(Rectangle::new(0, 0, 4, 20), 0, 0, 1, 0).unwrap();
    let ops = bar.redraw_center();
    // 4 / 2 - 1 / 2 is 2, while (4 - 1) / 2 is 1.
    assert!(ops.is_empty());
    assert_eq!(bar.item_positions()[0], Some((2, 1)));
}

#[test]
fn item_that_is_not_ready_is_laid_out_but_not_copied() {
    let mut bar = bar(2, 0, 0);
    let update = ComponentUpdate { slot: Slot::Left, index: 0, id: 0, value: "A".to_string() };
    let change = bar.update(update, 10).unwrap();
    let ops = bar.redraw(Slot::Left, 0, change, false);
    assert_eq!(
        ops,
        vec![
            PaintOp::Fill { x: 5, width: 10 },
            PaintOp::Fill { x: 15, width: 1 },
        ]
    );
    assert!(!bar.left_items()[0].is_ready());
    assert_eq!(bar.item_positions(), &vec![Some((5, 10)), Some((15, 1))]);
}

#[test]
fn update_that_does_not_fit_is_refused() {
    let mut bar = bar(0, 0, 1);
    show(&mut bar, Slot::Right, 0, 0, "1");
    let update = ComponentUpdate {
        slot: Slot::Right,
        index: 0,
        id: 0,
        value: "far too long".to_string(),
    };
    // 5 pixels of padding and 196 of text do not fit into 200.
    assert_eq!(bar.update(update, 196), Err(Error::ItemError));
    let item = &bar.right_items()[0];
    assert_eq!(item.get_text(), "1");
    assert_eq!(item.get_content_width(), 10);
    assert!(!item.is_ready());
    let update = ComponentUpdate {
        slot: Slot::Right,
        index: 0,
        id: 0,
        value: "just fits".to_string(),
    };
    assert_eq!(
        bar.update(update, 195),
        Ok(Change::Changed { size_changed: true, reallocated: true })
    );
}

#[test]
fn update_whose_buffer_cannot_be_allocated_is_refused() {
    let mut bar = Bar::new(Rectangle::new(0, 0, 65535, 20), 0, 1, 0, 0).unwrap();
    let update = ComponentUpdate { slot: Slot::Left, index: 0, id: 0, value: "x".to_string() };
    assert_eq!(bar.update(update, 60000), Err(Error::ItemError));
    assert_eq!(bar.left_items()[0].get_content_width(), 1);
}

#[test]
fn full_repaint_repaints_every_slot() {
    let mut bar = bar(2, 1, 2);
    show(&mut bar, Slot::Left, 0, 0, "A");
    show(&mut bar, Slot::Left, 1, 1, "AB");
    show(&mut bar, Slot::Center, 0, 2, "X");
    show(&mut bar, Slot::Right, 0, 3, "1");
    show(&mut bar, Slot::Right, 1, 4, "22");
    let before = bar.item_positions().clone();
    let ops = bar.redraw_all();
    assert_eq!(
        ops,
        vec![
            PaintOp::Fill { x: 5, width: 10 },
            PaintOp::Copy { id: 0, x: 5, width: 10 },
            PaintOp::Fill { x: 15, width: 20 },
            PaintOp::Copy { id: 1, x: 15, width: 20 },
            PaintOp::Copy { id: 2, x: 95, width: 10 },
            PaintOp::Fill { x: 175, width: 20 },
            PaintOp::Copy { id: 4, x: 175, width: 20 },
            PaintOp::Fill { x: 165, width: 10 },
            PaintOp::Copy { id: 3, x: 165, width: 10 },
        ]
    );
    assert_eq!(bar.item_positions(), &before);
}

#[test]
fn full_repaint_of_an_empty_bar_paints_nothing() {
    let mut bar = bar(0, 0, 0);
    assert!(bar.redraw_all().is_empty());
}

#[test]
fn mark_rendered_sets_readiness() {
    let mut bar = bar(1, 1, 1);
    let update = ComponentUpdate { slot: Slot::Center, index: 0, id: 1, value: "X".to_string() };
    bar.update(update, 10).unwrap();
    bar.mark_rendered(Slot::Center, 0, true);
    assert!(bar.center_items()[0].is_ready());
    assert!(!bar.left_items()[0].is_ready());
    assert!(!bar.right_items()[0].is_ready());
    bar.mark_rendered(Slot::Center, 0, false);
    assert!(!bar.center_items()[0].is_ready());
}

#[test]
fn item_without_a_buffer_for_its_content_is_never_ready() {
    // A fresh item is one pixel wide and has no buffer yet.
    let mut bar = bar(1, 0, 0);
    bar.mark_rendered(Slot::Left, 0, true);
    assert!(!bar.left_items()[0].is_ready());
    assert!(bar.redraw_left(false, 0).is_empty());
}

#[test]
fn copies_stay_within_the_buffers() {
    let mut bar = bar(2, 2, 2);
    let texts = ["a", "bbbb", "cc", "dddddd", "e", "ff", "g"];
    let places = [
        (Slot::Left, 0, 0),
        (Slot::Left, 1, 1),
        (Slot::Center, 0, 2),
        (Slot::Center, 1, 3),
        (Slot::Right, 0, 4),
        (Slot::Right, 1, 5),
    ];
    for round in 0..12 {
        let (slot, index, id) = places[round % places.len()];
        let text = texts[round % texts.len()];
        for op in show(&mut bar, slot, index, id, text) {
            if let PaintOp::Copy { id, width, .. } = op {
                let item = match id {
                    0 | 1 => &bar.left_items()[id],
                    2 | 3 => &bar.center_items()[id - 2],
                    _ => &bar.right_items()[id - 4],
                };
                assert_eq!(item.get_id(), id);
                assert!(item.is_ready());
                assert_eq!(width, item.get_content_width());
                assert!(width <= item.get_buffer_width());
            }
        }
    }
}

#[test]
fn end_to_end_one_component_in_every_slot() {
    let mut bar = bar(1, 1, 1);
    let mut right_cascades = 0;
    show(&mut bar, Slot::Left, 0, 0, "A");
    show(&mut bar, Slot::Center, 0, 1, "X");
    let ops = show(&mut bar, Slot::Right, 0, 2, "1");
    assert_eq!(
        ops,
        vec![
            PaintOp::Fill { x: 185, width: 10 },
            PaintOp::Copy { id: 2, x: 185, width: 10 },
        ]
    );
    show(&mut bar, Slot::Left, 0, 0, "AB");
    for text in ["22", "333"] {
        let ops = show(&mut bar, Slot::Right, 0, 2, text);
        let fills = ops.iter().filter(|op| matches!(op, PaintOp::Fill { .. })).count();
        let copies = ops.iter().filter(|op| matches!(op, PaintOp::Copy { .. })).count();
        assert_eq!((fills, copies), (1, 1));
        right_cascades += 1;
    }
    assert_eq!(right_cascades, 2);
    assert_eq!(
        bar.item_positions(),
        &vec![
            Some((5, measure("AB"))),
            Some((100 - measure("X") / 2, measure("X"))),
            Some((200 - 5 - measure("333"), measure("333"))),
        ]
    );
}

#[test]
fn end_to_end_three_right_components() {
    let mut bar = bar(1, 1, 3);
    show(&mut bar, Slot::Left, 0, 0, "A");
    show(&mut bar, Slot::Center, 0, 1, "X");
    show(&mut bar, Slot::Right, 0, 2, "1");
    show(&mut bar, Slot::Right, 1, 3, "22");
    show(&mut bar, Slot::Right, 2, 4, "333");
    show(&mut bar, Slot::Left, 0, 0, "AB");
    assert_eq!(
        bar.item_positions(),
        &vec![
            Some((5, 20)),
            Some((95, 10)),
            Some((135, 10)),
            Some((145, 20)),
            Some((165, 30)),
        ]
    );
}
