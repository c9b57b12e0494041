//! What holds of every update and every redraw: that the minimal redraw is
//! enough, that nothing is copied from beyond a buffer, that the position
//! table says what is on the screen.

use vstd::prelude::*;
use crate::bar_builder::Rectangle;
use crate::component::{Slot, identity_of, lemma_identities_distinct, slot_count};
use crate::error::Error;
use crate::item_state::{Change, ItemView, must_reallocate};
use crate::layout::{
    BarView, buffered, fresh_bar, lemma_width_sum_nonneg, lemma_width_sum_update,
    placement_end, placement_start, width_sum,
};
use crate::paint::{PaintOp, copy_ops, fill_ops};

verus! {

/// Repeating the text of an update that the bar took changes nothing: the
/// second update is reported as unchanged, the bar stays as it is, and the
/// redraw that follows paints nothing.
pub proof fn lemma_update_idempotent(
    bar: BarView,
    slot: Slot,
    index: int,
    text: Seq<char>,
    first_width: u16,
    second_width: u16,
    rendered: bool,
)
    requires
        0 <= index < bar.items(slot).len(),
        bar.update_result(slot, index, text, first_width) is Ok,
    ensures
        ({
            let after = bar.after_update(slot, index, text, first_width);
            &&& after.update_result(slot, index, text, second_width) == Ok::<Change, Error>(
                Change::Unchanged,
            )
            &&& after.after_update(slot, index, text, second_width) == after
            &&& after.redraw_ops(slot, index, Change::Unchanged, rendered) == Seq::<
                PaintOp,
            >::empty()
            &&& after.after_redraw(slot, index, Change::Unchanged, rendered) == after
        }),
{
}

/// An update of the bar to another text reports a size change exactly if
/// the measured width differs from the width of the text shown before, as
/// long as the bar can take the update.
pub proof fn lemma_size_change_detected(
    bar: BarView,
    slot: Slot,
    index: int,
    text: Seq<char>,
    width: u16,
)
    requires
        0 <= index < bar.items(slot).len(),
        text != bar.items(slot)[index].text,
        bar.accepts(slot, index, width),
    ensures
        bar.update_result(slot, index, text, width) == Ok::<Change, Error>(
            Change::Changed {
                size_changed: width != bar.items(slot)[index].content_width,
                reallocated: must_reallocate(
                    bar.items(slot)[index].buffer_width as int,
                    width as int,
                ),
            },
        ),
{
}

/// A left item that kept its size is repainted alone: the redraw is one
/// copy of that item at its offset, and the position table changes for
/// that item only.
pub proof fn lemma_left_single_repaint(bar: BarView, index: int)
    requires
        bar.wf(),
        0 <= index < bar.left.len(),
        bar.left[index].ready,
    ensures
        bar.left_ops(false, index) == seq![
            PaintOp::Copy {
                id: index as usize,
                x: bar.left_start(index) as u16,
                width: bar.left[index].content_width,
            },
        ],
        forall|id: int|
            0 <= id < bar.positions.len() && id != index ==> bar.left_positions(false, index)[id]
                == bar.positions[id],
{
}

/// When a left item changes its width, every item after it moves by the
/// difference.
pub proof fn lemma_left_shift(bar: BarView, index: int, item: ItemView, k: int)
    requires
        0 <= index < k <= bar.left.len(),
    ensures
        bar.with_item(Slot::Left, index, item).left_start(k) == bar.left_start(k)
            + item.content_width - bar.left[index].content_width,
{
    assert(bar.left.update(index, item).take(k) =~= bar.left.take(k).update(index, item));
    lemma_width_sum_update(bar.left.take(k), index, item);
}

/// When a right item changes its width, it and every item before it move
/// by the difference, away from the right edge.
pub proof fn lemma_right_shift(bar: BarView, index: int, item: ItemView, k: int)
    requires
        0 <= k <= index < bar.right.len(),
    ensures
        bar.with_item(Slot::Right, index, item).right_start(k) == bar.right_start(k) - (
        item.content_width - bar.right[index].content_width),
{
    assert(bar.right.update(index, item).take(k) =~= bar.right.take(k));
    lemma_width_sum_update(bar.right, index, item);
}

/// The clearing for the last left item in a cascade reaches as far as the
/// item reaches now and as far as it was recorded to reach before.
pub proof fn lemma_left_last_fill_covers(bar: BarView)
    requires
        bar.left.len() > 0,
    ensures
        ({
            let last = bar.left.len() - 1;
            &&& bar.left_fill_end(last) >= bar.left_start(last) + bar.left[last].content_width
            &&& bar.left_fill_end(last) >= placement_end(bar.positions[last])
            &&& bar.left_fill_end(last) == bar.left_start(last) + bar.left[last].content_width
                || bar.left_fill_end(last) == placement_end(bar.positions[last])
        }),
{
}

/// The clearing for the first right item in a cascade starts no further
/// right than the item starts now or was recorded to start before.
pub proof fn lemma_right_first_fill_covers(bar: BarView)
    requires
        bar.right.len() > 0,
    ensures
        bar.right_fill_start(0) <= bar.right_start(0),
        bar.positions[bar.right_base()] is Some ==> bar.right_fill_start(0) <= placement_start(
            bar.positions[bar.right_base()],
        ),
{
}

/// The center slot starts at half of what the bar is wider than the slot,
/// unless the bar's width is even and the slot's width odd: then it starts
/// one pixel further right.
pub proof fn lemma_center_start(bar: BarView)
    requires
        bar.center_fits(),
    ensures
        ({
            let total = width_sum(bar.center);
            &&& !(bar.width % 2 == 0 && total % 2 == 1) ==> bar.center_start() == (bar.width
                - total) / 2
            &&& bar.width % 2 == 0 && total % 2 == 1 ==> bar.center_start() == (bar.width - total)
                / 2 + 1
            &&& 0 <= bar.center_start()
        }),
{
    lemma_width_sum_nonneg(bar.center);
}

/// When the center slot got narrower than it was painted, a redraw first
/// clears the stretch painted before; when it did not, nothing is cleared.
/// Either way every center item is recorded at its new offset.
pub proof fn lemma_center_reanchor(bar: BarView, k: int)
    requires
        bar.wf(),
        0 <= k < bar.center.len(),
    ensures
        width_sum(bar.center) < bar.center_painted() ==> bar.center_ops() == fill_ops(
            bar.center_painted_start(),
            bar.center_painted_start() + bar.center_painted(),
        ) + bar.center_copies(0),
        width_sum(bar.center) >= bar.center_painted() ==> bar.center_ops() == bar.center_copies(0),
        bar.center_positions()[bar.center_base() + k] == Some(
            (
                (bar.center_start() + width_sum(bar.center.take(k))) as u16,
                bar.center[k].content_width,
            ),
        ),
{
    assert(Seq::<PaintOp>::empty() + bar.center_copies(0) =~= bar.center_copies(0));
}

/// No copy reads beyond the buffer it copies from: every item that a
/// redraw of a slot copies to the window is copied in its content width,
/// and its buffer is at least that wide.
pub proof fn lemma_copies_within_buffer(
    bar: BarView,
    slot: Slot,
    size_changed: bool,
    index: int,
    i: int,
)
    requires
        bar.wf(),
        0 <= index < bar.items(slot).len(),
        0 <= i < bar.slot_ops(slot, size_changed, index).len(),
        bar.slot_ops(slot, size_changed, index)[i] is Copy,
    ensures
        ({
            let op = bar.slot_ops(slot, size_changed, index)[i];
            let base = match slot {
                Slot::Left => 0,
                Slot::Center => bar.center_base(),
                Slot::Right => bar.right_base(),
            };
            let k = op->Copy_id - base;
            &&& 0 <= k < bar.items(slot).len()
            &&& bar.items(slot)[k].id == op->Copy_id
            &&& bar.items(slot)[k].ready
            &&& op->Copy_width == bar.items(slot)[k].content_width
            &&& op->Copy_width <= bar.items(slot)[k].buffer_width
        }),
{
    match slot {
        Slot::Left => {
            if size_changed {
                lemma_left_cascade_copies(bar, index, i);
                lemma_left_cascade_ready(bar, index, i);
            } else {
                assert(bar.left[index].id == index);
            }
            let k = bar.slot_ops(slot, size_changed, index)[i]->Copy_id as int;
            assert(buffered(bar.left[k]));
        },
        Slot::Center => {
            let erase = bar.center_erase();
            assert(i >= erase.len());
            lemma_center_copies(bar, 0, i - erase.len());
            lemma_center_copies_ready(bar, 0, i - erase.len());
            let k = bar.slot_ops(slot, size_changed, index)[i]->Copy_id - bar.center_base();
            assert(buffered(bar.center[k]));
        },
        Slot::Right => {
            if size_changed {
                lemma_right_cascade_copies(bar, index, i);
                lemma_right_cascade_ready(bar, index, i);
            } else {
                assert(bar.right[index].id == bar.right_base() + index);
            }
            let k = bar.slot_ops(slot, size_changed, index)[i]->Copy_id - bar.right_base();
            assert(buffered(bar.right[k]));
        },
    }
}

/// Every copy in a redraw of the left items shows an item that is ready.
proof fn lemma_left_cascade_ready(bar: BarView, from: int, i: int)
    requires
        bar.ids_wf(),
        0 <= from,
        0 <= i < bar.left_cascade(from).len(),
        bar.left_cascade(from)[i] is Copy,
    ensures
        0 <= bar.left_cascade(from)[i]->Copy_id < bar.left.len(),
        bar.left[bar.left_cascade(from)[i]->Copy_id as int].ready,
    decreases bar.left.len() - from,
{
    let here = bar.left_item_ops(from, true);
    if i >= here.len() {
        lemma_left_cascade_ready(bar, from + 1, i - here.len());
    } else {
        assert(bar.left[from].id == from);
    }
}

/// Every copy in a redraw of the right items shows an item that is ready.
proof fn lemma_right_cascade_ready(bar: BarView, from: int, i: int)
    requires
        bar.ids_wf(),
        from < bar.right.len(),
        0 <= i < bar.right_cascade(from).len(),
        bar.right_cascade(from)[i] is Copy,
    ensures
        0 <= bar.right_cascade(from)[i]->Copy_id - bar.right_base() < bar.right.len(),
        bar.right[bar.right_cascade(from)[i]->Copy_id - bar.right_base()].ready,
    decreases from + 1,
{
    let here = bar.right_item_ops(from, true);
    if i >= here.len() {
        lemma_right_cascade_ready(bar, from - 1, i - here.len());
    } else {
        assert(bar.right[from].id == bar.right_base() + from);
    }
}

/// Every copy in a redraw of the center items shows an item that is ready.
proof fn lemma_center_copies_ready(bar: BarView, from: int, i: int)
    requires
        bar.ids_wf(),
        0 <= from,
        0 <= i < bar.center_copies(from).len(),
    ensures
        0 <= bar.center_copies(from)[i]->Copy_id - bar.center_base() < bar.center.len(),
        bar.center[bar.center_copies(from)[i]->Copy_id - bar.center_base()].ready,
    decreases bar.center.len() - from,
{
    let here = copy_ops(bar.center[from], bar.center_item_start(from));
    if i >= here.len() {
        lemma_center_copies_ready(bar, from + 1, i - here.len());
    } else {
        assert(bar.center[from].id == bar.center_base() + from);
    }
}

/// The width of a prefix after one item was replaced: the difference of
/// the widths is added if the prefix holds the item.
pub proof fn lemma_width_sum_take_update(items: Seq<ItemView>, index: int, item: ItemView, k: int)
    requires
        0 <= index < items.len(),
        0 <= k <= items.len(),
    ensures
        width_sum(items.update(index, item).take(k)) == width_sum(items.take(k)) + if index < k {
            item.content_width - items[index].content_width
        } else {
            0
        },
{
    if index < k {
        assert(items.update(index, item).take(k) =~= items.take(k).update(index, item));
        lemma_width_sum_update(items.take(k), index, item);
    } else {
        assert(items.update(index, item).take(k) =~= items.take(k));
    }
}

/// Where items belong after one item of their slot was replaced: an item
/// of the left slot moves by the difference of the widths if it comes
/// after the replaced one; an item of the right slot moves against it if
/// it does not come after the replaced one; an item of another slot stays.
pub proof fn lemma_item_start_update(
    bar: BarView,
    slot: Slot,
    index: int,
    item: ItemView,
    other: Slot,
    k: int,
)
    requires
        0 <= index < bar.items(slot).len(),
        0 <= k < bar.items(other).len(),
        other != slot || slot != Slot::Center,
    ensures
        bar.with_item(slot, index, item).item_start(other, k) == bar.item_start(other, k) + if other
            != slot {
            0
        } else if slot == Slot::Left && index < k {
            item.content_width - bar.left[index].content_width
        } else if slot == Slot::Right && k <= index {
            bar.right[index].content_width - item.content_width
        } else {
            0
        },
{
    if other == slot {
        lemma_width_sum_take_update(bar.items(slot), index, item, k);
        lemma_width_sum_update(bar.items(slot), index, item);
    }
}

/// The minimal redraw is enough: if the position table agrees with the
/// layout of a slot before an update, it does so again after the update
/// and the redraw that follows it, whichever item of whichever slot the
/// update was for, and whether it was taken, refused or a repetition.
pub proof fn lemma_redraw_settles(
    bar: BarView,
    slot: Slot,
    index: int,
    text: Seq<char>,
    width: u16,
    rendered: bool,
    other: Slot,
)
    requires
        bar.wf(),
        0 <= index < bar.items(slot).len(),
        bar.settled(other),
    ensures
        bar.after_event(slot, index, text, width, rendered).settled(other),
{
    let result = bar.update_result(slot, index, text, width);
    let old_item = bar.items(slot)[index];
    let after = bar.after_event(slot, index, text, width, rendered);
    if text == old_item.text {
        assert(after == bar);
    } else if result is Err {
        let item = ItemView { ready: false, ..old_item };
        assert forall|k: int|
            0 <= k < after.items(other).len() && (#[trigger] after.recorded(other, k))
                is Some implies after.recorded(other, k) == Some(
            (after.item_start(other, k) as u16, after.items(other)[k].content_width),
        ) by {
            assert(bar.recorded(other, k) is Some);
            if other == Slot::Center {
                if slot == Slot::Center {
                    lemma_width_sum_take_update(bar.center, index, item, k);
                    lemma_width_sum_update(bar.center, index, item);
                }
            } else {
                lemma_item_start_update(bar, slot, index, item, other, k);
            }
        }
    } else {
        let size_changed = width != old_item.content_width;
        let item = old_item.with_content(text, width).rendered(rendered);
        let updated = bar.after_update(slot, index, text, width);
        let marked = updated.rendered(slot, index, rendered);
        assert(marked.items(slot) =~= bar.items(slot).update(index, item));
        assert(marked == bar.with_item(slot, index, item));
        assert(after == marked.after_slot(slot, size_changed, index));
        assert forall|k: int|
            0 <= k < after.items(other).len() && (#[trigger] after.recorded(other, k))
                is Some implies after.recorded(other, k) == Some(
            (after.item_start(other, k) as u16, after.items(other)[k].content_width),
        ) by {
            if other == slot {
                match slot {
                    Slot::Left => {
                        if !(index <= k && (size_changed || k == index)) {
                            assert(bar.recorded(other, k) is Some);
                            lemma_item_start_update(bar, slot, index, item, other, k);
                        }
                    },
                    Slot::Center => {},
                    Slot::Right => {
                        if !(k <= index && (size_changed || k == index)) {
                            assert(bar.recorded(other, k) is Some);
                            lemma_item_start_update(bar, slot, index, item, other, k);
                        }
                    },
                }
            } else {
                assert(after.recorded(other, k) == bar.recorded(other, k));
                if other == Slot::Center {
                    assert(marked.center == bar.center);
                } else {
                    lemma_item_start_update(bar, slot, index, item, other, k);
                }
            }
        }
    }
}

/// After a full repaint the position table agrees with the layout of
/// every slot, and records every item.
pub proof fn lemma_full_repaint_settles(bar: BarView, slot: Slot, k: int)
    requires
        bar.wf(),
        0 <= k < bar.items(slot).len(),
    ensures
        bar.after_full().items(slot) == bar.items(slot),
        bar.after_full().recorded(slot, k) == Some(
            (bar.item_start(slot, k) as u16, bar.items(slot)[k].content_width),
        ),
        bar.after_full().settled(slot),
{
}

/// A bar made for the registered components has every one of them under
/// the identity it was given.
pub proof fn lemma_fresh_bar_hosts(slots: Seq<Slot>, k: int, geometry: Rectangle, padding: u16)
    requires
        0 <= k < slots.len(),
        slots.len() <= usize::MAX,
    ensures
        ({
            let bar = fresh_bar(
                geometry,
                padding,
                slot_count(slots, Slot::Left) as int,
                slot_count(slots, Slot::Center) as int,
                slot_count(slots, Slot::Right) as int,
            );
            let identity = identity_of(slots, k);
            bar.has_component(identity.slot, identity.index as int, identity.id as int)
        }),
{
    lemma_identities_distinct(slots, k, k);
}

/// The components of a bar stay what they are: neither an update nor a
/// redraw adds or removes a component or changes an identity.
pub proof fn lemma_components_stay(
    bar: BarView,
    slot: Slot,
    index: int,
    text: Seq<char>,
    width: u16,
    change: Change,
    rendered: bool,
    other: Slot,
    k: int,
)
    requires
        0 <= index < bar.items(slot).len(),
        0 <= k < bar.items(other).len(),
    ensures
        bar.after_update(slot, index, text, width).items(other).len() == bar.items(other).len(),
        bar.after_update(slot, index, text, width).items(other)[k].id == bar.items(other)[k].id,
        bar.after_redraw(slot, index, change, rendered).items(other).len() == bar.items(
            other,
        ).len(),
        bar.after_redraw(slot, index, change, rendered).items(other)[k].id == bar.items(
            other,
        )[k].id,
        bar.after_full().items(other) == bar.items(other),
{
}

/// Every copy in a redraw of the left items from `from` on shows an item
/// of that stretch at the item's offset and in the item's width.
pub proof fn lemma_left_cascade_copies(bar: BarView, from: int, i: int)
    requires
        bar.ids_wf(),
        0 <= from,
        0 <= i < bar.left_cascade(from).len(),
        bar.left_cascade(from)[i] is Copy,
    ensures
        ({
            let k = bar.left_cascade(from)[i]->Copy_id as int;
            &&& from <= k < bar.left.len()
            &&& bar.left_cascade(from)[i] == PaintOp::Copy {
                id: k as usize,
                x: bar.left_start(k) as u16,
                width: bar.left[k].content_width,
            }
        }),
    decreases bar.left.len() - from,
{
    let here = bar.left_item_ops(from, true);
    if i >= here.len() {
        lemma_left_cascade_copies(bar, from + 1, i - here.len());
    } else {
        assert(bar.left[from].id == from);
    }
}

/// Every copy in a redraw of the right items from `from` down shows an
/// item of that stretch at the item's offset and in the item's width.
pub proof fn lemma_right_cascade_copies(bar: BarView, from: int, i: int)
    requires
        bar.ids_wf(),
        from < bar.right.len(),
        0 <= i < bar.right_cascade(from).len(),
        bar.right_cascade(from)[i] is Copy,
    ensures
        ({
            let k = bar.right_cascade(from)[i]->Copy_id as int - bar.right_base();
            &&& 0 <= k <= from
            &&& bar.right_cascade(from)[i] == PaintOp::Copy {
                id: (bar.right_base() + k) as usize,
                x: bar.right_start(k) as u16,
                width: bar.right[k].content_width,
            }
        }),
    decreases from + 1,
{
    let here = bar.right_item_ops(from, true);
    if i >= here.len() {
        lemma_right_cascade_copies(bar, from - 1, i - here.len());
    } else {
        assert(bar.right[from].id == bar.right_base() + from);
    }
}

/// Every operation in the copies of the center items from `from` on is a
/// copy that shows an item of that stretch at the item's offset and in the
/// item's width.
pub proof fn lemma_center_copies(bar: BarView, from: int, i: int)
    requires
        bar.ids_wf(),
        0 <= from,
        0 <= i < bar.center_copies(from).len(),
    ensures
        ({
            let k = bar.center_copies(from)[i]->Copy_id as int - bar.center_base();
            &&& from <= k < bar.center.len()
            &&& bar.center_copies(from)[i] == PaintOp::Copy {
                id: (bar.center_base() + k) as usize,
                x: bar.center_item_start(k) as u16,
                width: bar.center[k].content_width,
            }
        }),
    decreases bar.center.len() - from,
{
    let here = copy_ops(bar.center[from], bar.center_item_start(from));
    if i >= here.len() {
        lemma_center_copies(bar, from + 1, i - here.len());
    } else {
        assert(bar.center[from].id == bar.center_base() + from);
    }
}

/// The position table says what is on the screen: after a redraw of a
/// slot, every item that the redraw copied to the window is recorded with
/// the offset and the width of that copy.
pub proof fn lemma_copies_recorded(
    bar: BarView,
    slot: Slot,
    size_changed: bool,
    index: int,
    i: int,
)
    requires
        bar.wf(),
        0 <= index < bar.items(slot).len(),
        0 <= i < bar.slot_ops(slot, size_changed, index).len(),
        bar.slot_ops(slot, size_changed, index)[i] is Copy,
    ensures
        ({
            let op = bar.slot_ops(slot, size_changed, index)[i];
            &&& 0 <= op->Copy_id < bar.positions.len()
            &&& bar.after_slot(slot, size_changed, index).positions[op->Copy_id as int] == Some(
                (op->Copy_x, op->Copy_width),
            )
        }),
{
    match slot {
        Slot::Left => {
            if size_changed {
                lemma_left_cascade_copies(bar, index, i);
            } else {
                assert(bar.left[index].id == index);
            }
        },
        Slot::Center => {
            let erase = bar.center_erase();
            assert(i >= erase.len());
            lemma_center_copies(bar, 0, i - erase.len());
        },
        Slot::Right => {
            if size_changed {
                lemma_right_cascade_copies(bar, index, i);
            } else {
                assert(bar.right[index].id == bar.right_base() + index);
            }
        },
    }
}

} // verus!
