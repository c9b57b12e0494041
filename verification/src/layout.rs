//! The mathematical model of the bar: where every item sits, and what a
//! redraw of each slot paints and records.

use vstd::prelude::*;
use crate::bar_builder::Rectangle;
use crate::component::Slot;
use crate::error::Error;
use crate::item_state::{Change, ItemView, must_reallocate};
use crate::paint::{PaintOp, copy_ops, fill_ops};

verus! {

/// The last painted x-offset and width of one item, if it was ever painted.
pub type Placement = Option<(u16, u16)>;

/// The summed content width of `items`.
pub open spec fn width_sum(items: Seq<ItemView>) -> int
    decreases items.len(),
{
    if items.len() == 0 {
        0
    } else {
        width_sum(items.drop_last()) + items.last().content_width
    }
}

/// The summed recorded width of the `count` entries of `positions` from
/// `base` on; an item that was never painted counts as zero.
pub open spec fn painted_sum(positions: Seq<Placement>, base: int, count: int) -> int
    decreases count,
{
    if count <= 0 {
        0
    } else {
        painted_sum(positions, base, count - 1) + placement_width(positions[base + count - 1])
    }
}

/// The recorded width of a placement, zero if there is none.
pub open spec fn placement_width(p: Placement) -> int {
    match p {
        Some((_, w)) => w as int,
        None => 0,
    }
}

/// The recorded start of a placement, zero if there is none.
pub open spec fn placement_start(p: Placement) -> int {
    match p {
        Some((x, _)) => x as int,
        None => 0,
    }
}

/// The recorded end of a placement, zero if there is none.
pub open spec fn placement_end(p: Placement) -> int {
    placement_start(p) + placement_width(p)
}

/// Whether a slot whose items are `sum` pixels wide in all can be laid out
/// on a bar of the given width and padding: every offset computed for it
/// must lie in the coordinate range of the window.
pub open spec fn slot_admits(slot: Slot, padding: u16, width: u16, sum: int) -> bool {
    match slot {
        Slot::Left => padding + sum <= u16::MAX,
        Slot::Center => sum / 2 <= width / 2,
        Slot::Right => padding + sum <= width,
    }
}

/// Whether `item`, if it is ready, has a buffer wide enough for its
/// content.
pub open spec fn buffered(item: ItemView) -> bool {
    item.ready ==> item.fits_buffer()
}

/// The state of an item that was registered and never updated.
pub open spec fn fresh_item(id: int) -> ItemView {
    ItemView {
        id: id as usize,
        text: Seq::empty(),
        content_width: 1,
        buffer_width: 0,
        ready: false,
    }
}

/// `count` fresh items with the ids from `base` on.
pub open spec fn fresh_items(base: int, count: int) -> Seq<ItemView> {
    Seq::new(count as nat, |k: int| fresh_item(base + k))
}

/// Whether a bar of the given width and padding can host the given number
/// of fresh items in its three slots.
pub open spec fn can_host(width: u16, padding: u16, left: int, center: int, right: int) -> bool {
    &&& slot_admits(Slot::Left, padding, width, left)
    &&& slot_admits(Slot::Center, padding, width, center)
    &&& slot_admits(Slot::Right, padding, width, right)
}

/// The bar right after its components were registered: every item fresh,
/// nothing painted.
pub open spec fn fresh_bar(geometry: Rectangle, padding: u16, left: int, center: int, right: int)
    -> BarView {
    BarView {
        left: fresh_items(0, left),
        center: fresh_items(left, center),
        right: fresh_items(left + center, right),
        positions: Seq::new((left + center + right) as nat, |id: int| None::<(u16, u16)>),
        x: geometry.x,
        y: geometry.y,
        width: geometry.width,
        height: geometry.height,
        padding,
    }
}

/// The mathematical value of a bar.
pub struct BarView {
    /// The items of the left slot, in registration order.
    pub left: Seq<ItemView>,
    /// The items of the center slot, in registration order.
    pub center: Seq<ItemView>,
    /// The items of the right slot, in registration order.
    pub right: Seq<ItemView>,
    /// The position table, indexed by global id.
    pub positions: Seq<Placement>,
    /// Horizontal position of the bar's window on the screen.
    pub x: i16,
    /// Vertical position of the bar's window on the screen.
    pub y: i16,
    /// Width of the bar's window.
    pub width: u16,
    /// Height of the bar's window.
    pub height: u16,
    /// Space kept free at the left and right end of the bar.
    pub padding: u16,
}

impl BarView {
    /// The rectangle of the bar's window.
    pub open spec fn geometry(self) -> Rectangle {
        Rectangle { x: self.x, y: self.y, width: self.width, height: self.height }
    }

    /// Global id of the first center item.
    pub open spec fn center_base(self) -> int {
        self.left.len() as int
    }

    /// Global id of the first right item.
    pub open spec fn right_base(self) -> int {
        (self.left.len() + self.center.len()) as int
    }

    /// The items of `slot`, in registration order.
    pub open spec fn items(self, slot: Slot) -> Seq<ItemView> {
        match slot {
            Slot::Left => self.left,
            Slot::Center => self.center,
            Slot::Right => self.right,
        }
    }

    /// The bar with the items of `slot` replaced.
    pub open spec fn with_items(self, slot: Slot, items: Seq<ItemView>) -> BarView {
        match slot {
            Slot::Left => BarView { left: items, ..self },
            Slot::Center => BarView { center: items, ..self },
            Slot::Right => BarView { right: items, ..self },
        }
    }

    /// The bar with item `index` of `slot` replaced.
    pub open spec fn with_item(self, slot: Slot, index: int, item: ItemView) -> BarView {
        self.with_items(slot, self.items(slot).update(index, item))
    }

    /// The bar has a component with this identity.
    pub open spec fn has_component(self, slot: Slot, index: int, id: int) -> bool {
        0 <= index < self.items(slot).len() && self.items(slot)[index].id == id
    }

    /// `slot` can be laid out.
    pub open spec fn fits(self, slot: Slot) -> bool {
        slot_admits(slot, self.padding, self.width, width_sum(self.items(slot)))
    }

    /// `slot` can still be laid out when its item `index` becomes `width`
    /// pixels wide.
    pub open spec fn admits(self, slot: Slot, index: int, width: int) -> bool {
        slot_admits(
            slot,
            self.padding,
            self.width,
            width_sum(self.items(slot)) - self.items(slot)[index].content_width + width,
        )
    }

    /// The left slot can be laid out from the left padding on.
    pub open spec fn left_fits(self) -> bool {
        self.fits(Slot::Left)
    }

    /// The center slot can be laid out around the middle of the bar.
    pub open spec fn center_fits(self) -> bool {
        self.fits(Slot::Center)
    }

    /// The right slot can be laid out leftwards from the right padding.
    pub open spec fn right_fits(self) -> bool {
        self.fits(Slot::Right)
    }

    /// Whether an update of item `index` of `slot` to `text`, measured as
    /// `width` pixels, can be taken: the slot must still fit on the bar,
    /// and the item's buffer must be allocatable.
    pub open spec fn accepts(self, slot: Slot, index: int, width: u16) -> bool {
        &&& self.admits(slot, index, width as int)
        &&& self.items(slot)[index].can_hold(width)
    }

    /// What an update of item `index` of `slot` reports.
    pub open spec fn update_result(self, slot: Slot, index: int, text: Seq<char>, width: u16)
        -> Result<Change, Error> {
        let item = self.items(slot)[index];
        if text == item.text {
            Ok(Change::Unchanged)
        } else if !self.accepts(slot, index, width) {
            Err(Error::ItemError)
        } else {
            Ok(
                Change::Changed {
                    size_changed: width != item.content_width,
                    reallocated: must_reallocate(item.buffer_width as int, width as int),
                },
            )
        }
    }

    /// The bar after an update of item `index` of `slot`: unchanged for the
    /// same text; with the item marked not ready if the update cannot be
    /// taken; else with the item's new text, width and buffer width.
    pub open spec fn after_update(self, slot: Slot, index: int, text: Seq<char>, width: u16)
        -> BarView {
        let item = self.items(slot)[index];
        if text == item.text {
            self
        } else if !self.accepts(slot, index, width) {
            self.with_item(slot, index, ItemView { ready: false, ..item })
        } else {
            self.with_item(slot, index, item.with_content(text, width))
        }
    }

    /// Ids follow the slots: left items first, then center, then right.
    pub open spec fn ids_wf(self) -> bool {
        &&& self.positions.len() == self.left.len() + self.center.len() + self.right.len()
        &&& forall|k: int| 0 <= k < self.left.len() ==> (#[trigger] self.left[k]).id == k
        &&& forall|k: int|
            0 <= k < self.center.len() ==> (#[trigger] self.center[k]).id == self.center_base() + k
        &&& forall|k: int|
            0 <= k < self.right.len() ==> (#[trigger] self.right[k]).id == self.right_base() + k
    }

    /// What was recorded as painted lies within the coordinate range.
    pub open spec fn positions_wf(self) -> bool {
        &&& forall|id: int|
            0 <= id < self.positions.len() ==> placement_end(#[trigger] self.positions[id])
                <= u16::MAX
        &&& self.center.len() > 0 ==> placement_start(self.positions[self.center_base()])
            + painted_sum(self.positions, self.center_base(), self.center.len() as int)
            <= u16::MAX
    }

    /// Every item that is ready has a buffer wide enough for its content.
    pub open spec fn items_wf(self) -> bool {
        &&& forall|k: int| 0 <= k < self.left.len() ==> buffered(#[trigger] self.left[k])
        &&& forall|k: int| 0 <= k < self.center.len() ==> buffered(#[trigger] self.center[k])
        &&& forall|k: int| 0 <= k < self.right.len() ==> buffered(#[trigger] self.right[k])
    }

    /// The invariant of a bar.
    pub open spec fn wf(self) -> bool {
        &&& self.ids_wf()
        &&& self.items_wf()
        &&& self.positions_wf()
        &&& self.left_fits()
        &&& self.center_fits()
        &&& self.right_fits()
    }

    /// The x-offset of left item `k`: the padding plus the widths of the
    /// items before it.
    pub open spec fn left_start(self, k: int) -> int {
        self.padding + width_sum(self.left.take(k))
    }

    /// Where the background is cleared up to when left item `k` is redrawn
    /// after a size change: the item's new end, or, for the last item of the
    /// slot, the recorded end if that lies further right.
    pub open spec fn left_fill_end(self, k: int) -> int {
        let end = self.left_start(k) + self.left[k].content_width;
        let old_end = placement_end(self.positions[k]);
        if k == self.left.len() - 1 && end < old_end {
            old_end
        } else {
            end
        }
    }

    /// The operations that redraw left item `k`.
    pub open spec fn left_item_ops(self, k: int, size_changed: bool) -> Seq<PaintOp> {
        if size_changed {
            fill_ops(self.left_start(k), self.left_fill_end(k)) + copy_ops(
                self.left[k],
                self.left_start(k),
            )
        } else {
            copy_ops(self.left[k], self.left_start(k))
        }
    }

    /// The operations that redraw the left items from `from` to the end of
    /// the slot, left to right.
    pub open spec fn left_cascade(self, from: int) -> Seq<PaintOp>
        decreases self.left.len() - from,
    {
        if from < 0 || from >= self.left.len() {
            Seq::empty()
        } else {
            self.left_item_ops(from, true) + self.left_cascade(from + 1)
        }
    }

    /// The operations of a redraw of the left slot for item `index`: the one
    /// item if its size is unchanged, else that item and all after it.
    pub open spec fn left_ops(self, size_changed: bool, index: int) -> Seq<PaintOp> {
        if size_changed {
            self.left_cascade(index)
        } else {
            self.left_item_ops(index, false)
        }
    }

    /// The position table after a redraw of the left slot for item `index`.
    pub open spec fn left_positions(self, size_changed: bool, index: int) -> Seq<Placement> {
        Seq::new(
            self.positions.len(),
            |id: int|
                if index <= id < self.left.len() && (size_changed || id == index) {
                    Some((self.left_start(id) as u16, self.left[id].content_width))
                } else {
                    self.positions[id]
                },
        )
    }

    /// The x-offset of right item `k`: the slot ends at the right padding,
    /// so the item starts there minus its own width and the widths of the
    /// items after it.
    pub open spec fn right_start(self, k: int) -> int {
        self.width - self.padding - (width_sum(self.right) - width_sum(self.right.take(k)))
    }

    /// Where the background is cleared from when right item `k` is redrawn
    /// after a size change: the item's new start, or, for the first item of
    /// the slot, the recorded start if that lies further left.
    pub open spec fn right_fill_start(self, k: int) -> int {
        let start = self.right_start(k);
        match self.positions[self.right_base() + k] {
            Some((old_start, _)) => if k == 0 && old_start < start {
                old_start as int
            } else {
                start
            },
            None => start,
        }
    }

    /// The operations that redraw right item `k`.
    pub open spec fn right_item_ops(self, k: int, size_changed: bool) -> Seq<PaintOp> {
        if size_changed {
            fill_ops(self.right_fill_start(k), self.right_start(k) + self.right[k].content_width)
                + copy_ops(self.right[k], self.right_start(k))
        } else {
            copy_ops(self.right[k], self.right_start(k))
        }
    }

    /// The operations that redraw the right items from `from` down to the
    /// first of the slot, right to left.
    pub open spec fn right_cascade(self, from: int) -> Seq<PaintOp>
        decreases from + 1,
    {
        if from < 0 || from >= self.right.len() {
            Seq::empty()
        } else {
            self.right_item_ops(from, true) + self.right_cascade(from - 1)
        }
    }

    /// The operations of a redraw of the right slot for item `index`: the
    /// one item if its size is unchanged, else that item and all before it.
    pub open spec fn right_ops(self, size_changed: bool, index: int) -> Seq<PaintOp> {
        if size_changed {
            self.right_cascade(index)
        } else {
            self.right_item_ops(index, false)
        }
    }

    /// The position table after a redraw of the right slot for item `index`.
    pub open spec fn right_positions(self, size_changed: bool, index: int) -> Seq<Placement> {
        Seq::new(
            self.positions.len(),
            |id: int|
                {
                    let k = id - self.right_base();
                    if 0 <= k <= index && k < self.right.len() && (size_changed || k == index) {
                        Some((self.right_start(k) as u16, self.right[k].content_width))
                    } else {
                        self.positions[id]
                    }
                },
        )
    }

    /// The x-offset of the first center item: the items are centered as a
    /// group around the middle of the bar.
    pub open spec fn center_start(self) -> int {
        self.width / 2 - width_sum(self.center) / 2
    }

    /// The x-offset of center item `k`.
    pub open spec fn center_item_start(self, k: int) -> int {
        self.center_start() + width_sum(self.center.take(k))
    }

    /// The summed width that the center slot was last painted with.
    pub open spec fn center_painted(self) -> int {
        painted_sum(self.positions, self.center_base(), self.center.len() as int)
    }

    /// Where the center slot was last painted from.
    pub open spec fn center_painted_start(self) -> int {
        placement_start(self.positions[self.center_base()])
    }

    /// The clearing that precedes a redraw of the center slot: the whole
    /// stretch painted before, if the slot became narrower than that.
    pub open spec fn center_erase(self) -> Seq<PaintOp> {
        if width_sum(self.center) < self.center_painted() {
            fill_ops(self.center_painted_start(), self.center_painted_start() + self.center_painted())
        } else {
            Seq::empty()
        }
    }

    /// The copies of the center items from `from` on, left to right.
    pub open spec fn center_copies(self, from: int) -> Seq<PaintOp>
        decreases self.center.len() - from,
    {
        if from < 0 || from >= self.center.len() {
            Seq::empty()
        } else {
            copy_ops(self.center[from], self.center_item_start(from)) + self.center_copies(from + 1)
        }
    }

    /// The operations of a redraw of the center slot.
    pub open spec fn center_ops(self) -> Seq<PaintOp> {
        self.center_erase() + self.center_copies(0)
    }

    /// The position table after a redraw of the center slot.
    pub open spec fn center_positions(self) -> Seq<Placement> {
        Seq::new(
            self.positions.len(),
            |id: int|
                {
                    let k = id - self.center_base();
                    if 0 <= k < self.center.len() {
                        Some((self.center_item_start(k) as u16, self.center[k].content_width))
                    } else {
                        self.positions[id]
                    }
                },
        )
    }

    /// The bar after the rendering of item `index` of `slot` into its
    /// buffer succeeded or failed.
    pub open spec fn rendered(self, slot: Slot, index: int, ok: bool) -> BarView {
        self.with_item(slot, index, self.items(slot)[index].rendered(ok))
    }

    /// The operations of a redraw of `slot` for its item `index`.
    pub open spec fn slot_ops(self, slot: Slot, size_changed: bool, index: int) -> Seq<PaintOp> {
        match slot {
            Slot::Left => self.left_ops(size_changed, index),
            Slot::Center => self.center_ops(),
            Slot::Right => self.right_ops(size_changed, index),
        }
    }

    /// The position table after a redraw of `slot` for its item `index`.
    pub open spec fn slot_positions(self, slot: Slot, size_changed: bool, index: int) -> Seq<
        Placement,
    > {
        match slot {
            Slot::Left => self.left_positions(size_changed, index),
            Slot::Center => self.center_positions(),
            Slot::Right => self.right_positions(size_changed, index),
        }
    }

    /// The bar after a redraw of `slot` for its item `index`.
    pub open spec fn after_slot(self, slot: Slot, size_changed: bool, index: int) -> BarView {
        BarView { positions: self.slot_positions(slot, size_changed, index), ..self }
    }

    /// What is painted after an update of item `index` of `slot` reported
    /// `change` and the item was rendered with the outcome `ok`: nothing
    /// for an unchanged item, else the redraw of the slot.
    pub open spec fn redraw_ops(self, slot: Slot, index: int, change: Change, ok: bool) -> Seq<
        PaintOp,
    > {
        match change {
            Change::Unchanged => Seq::empty(),
            Change::Changed { size_changed, .. } => self.rendered(slot, index, ok).slot_ops(
                slot,
                size_changed,
                index,
            ),
        }
    }

    /// The bar after that redraw.
    pub open spec fn after_redraw(self, slot: Slot, index: int, change: Change, ok: bool)
        -> BarView {
        match change {
            Change::Unchanged => self,
            Change::Changed { size_changed, .. } => self.rendered(slot, index, ok).after_slot(
                slot,
                size_changed,
                index,
            ),
        }
    }

    /// Global id of the first item of `slot`.
    pub open spec fn slot_base(self, slot: Slot) -> int {
        match slot {
            Slot::Left => 0,
            Slot::Center => self.center_base(),
            Slot::Right => self.right_base(),
        }
    }

    /// The x-offset at which item `k` of `slot` belongs.
    pub open spec fn item_start(self, slot: Slot, k: int) -> int {
        match slot {
            Slot::Left => self.left_start(k),
            Slot::Center => self.center_item_start(k),
            Slot::Right => self.right_start(k),
        }
    }

    /// What the position table records of item `k` of `slot`.
    pub open spec fn recorded(self, slot: Slot, k: int) -> Placement {
        self.positions[self.slot_base(slot) + k]
    }

    /// The position table agrees with the layout of `slot`: every item of
    /// the slot that was painted is recorded where it belongs, in its
    /// width.
    pub open spec fn settled(self, slot: Slot) -> bool {
        forall|k: int|
            0 <= k < self.items(slot).len() && (#[trigger] self.recorded(slot, k)) is Some
                ==> self.recorded(slot, k) == Some(
                (self.item_start(slot, k) as u16, self.items(slot)[k].content_width),
            )
    }

    /// The bar after an update of item `index` of `slot` and the redraw
    /// that follows it.
    pub open spec fn after_event(
        self,
        slot: Slot,
        index: int,
        text: Seq<char>,
        width: u16,
        rendered: bool,
    ) -> BarView {
        match self.update_result(slot, index, text, width) {
            Ok(change) => self.after_update(slot, index, text, width).after_redraw(
                slot,
                index,
                change,
                rendered,
            ),
            Err(_) => self.after_update(slot, index, text, width),
        }
    }

    /// The bar after the left slot was repainted in full.
    pub open spec fn after_left_all(self) -> BarView {
        self.after_slot(Slot::Left, true, 0)
    }

    /// The bar after the left and then the center slot were repainted in
    /// full.
    pub open spec fn after_center_all(self) -> BarView {
        self.after_left_all().after_slot(Slot::Center, true, 0)
    }

    /// The operations of a full repaint: every item of the left slot from
    /// the first on, then the center slot, then every item of the right
    /// slot from the last on.
    pub open spec fn full_ops(self) -> Seq<PaintOp> {
        self.left_cascade(0) + self.after_left_all().center_ops()
            + self.after_center_all().right_cascade(self.right.len() - 1)
    }

    /// The bar after a full repaint.
    pub open spec fn after_full(self) -> BarView {
        self.after_center_all().after_slot(Slot::Right, true, self.right.len() - 1)
    }
}

/// Replacing one item changes the sum by the difference of the widths.
pub proof fn lemma_width_sum_update(items: Seq<ItemView>, k: int, item: ItemView)
    requires
        0 <= k < items.len(),
    ensures
        width_sum(items.update(k, item)) == width_sum(items) - items[k].content_width
            + item.content_width,
    decreases items.len(),
{
    if k == items.len() - 1 {
        assert(items.update(k, item).drop_last() =~= items.drop_last());
    } else {
        assert(items.update(k, item).drop_last() =~= items.drop_last().update(k, item));
        lemma_width_sum_update(items.drop_last(), k, item);
    }
}

/// Fresh items are one pixel wide each.
pub proof fn lemma_width_sum_fresh(base: int, count: int)
    requires
        0 <= count,
    ensures
        width_sum(fresh_items(base, count)) == count,
    decreases count,
{
    if count > 0 {
        assert(fresh_items(base, count).drop_last() =~= fresh_items(base, count - 1));
        lemma_width_sum_fresh(base, count - 1);
    }
}

/// Adding one item to a prefix adds its width to the sum.
pub proof fn lemma_width_sum_step(items: Seq<ItemView>, k: int)
    requires
        0 <= k < items.len(),
    ensures
        width_sum(items.take(k + 1)) == width_sum(items.take(k)) + items[k].content_width,
{
    assert(items.take(k + 1).drop_last() =~= items.take(k));
}

/// A prefix is never wider than the whole, and no sum is negative.
pub proof fn lemma_width_sum_prefix(items: Seq<ItemView>, k: int)
    requires
        0 <= k <= items.len(),
    ensures
        0 <= width_sum(items.take(k)) <= width_sum(items),
    decreases items.len() - k,
{
    if k == items.len() {
        assert(items.take(k) =~= items);
        lemma_width_sum_nonneg(items);
    } else {
        lemma_width_sum_prefix(items, k + 1);
        lemma_width_sum_step(items, k);
        lemma_width_sum_nonneg(items.take(k));
    }
}

/// No sum of widths is negative.
pub proof fn lemma_width_sum_nonneg(items: Seq<ItemView>)
    ensures
        0 <= width_sum(items),
    decreases items.len(),
{
    if items.len() > 0 {
        lemma_width_sum_nonneg(items.drop_last());
    }
}

/// The recorded widths summed over a range depend on that range only.
pub proof fn lemma_painted_sum_frame(a: Seq<Placement>, b: Seq<Placement>, base: int, count: int)
    requires
        forall|id: int| base <= id < base + count ==> a[id] == b[id],
    ensures
        painted_sum(a, base, count) == painted_sum(b, base, count),
    decreases count,
{
    if count > 0 {
        lemma_painted_sum_frame(a, b, base, count - 1);
    }
}

/// A shorter range of recorded widths never sums to more, and no such sum
/// is negative.
pub proof fn lemma_painted_sum_prefix(positions: Seq<Placement>, base: int, k: int, count: int)
    requires
        0 <= k <= count,
    ensures
        0 <= painted_sum(positions, base, k) <= painted_sum(positions, base, count),
    decreases count + k,
{
    if k < count {
        lemma_painted_sum_prefix(positions, base, k, count - 1);
    } else if k > 0 {
        lemma_painted_sum_prefix(positions, base, k - 1, count - 1);
    }
}

/// Where the table records every item of a slot with the item's own width,
/// the recorded widths sum to the width of the slot.
pub proof fn lemma_painted_sum_matches(
    positions: Seq<Placement>,
    base: int,
    items: Seq<ItemView>,
    count: int,
)
    requires
        0 <= count <= items.len(),
        forall|k: int|
            0 <= k < count ==> placement_width(#[trigger] positions[base + k])
                == items[k].content_width,
    ensures
        painted_sum(positions, base, count) == width_sum(items.take(count)),
    decreases count,
{
    if count > 0 {
        lemma_painted_sum_matches(positions, base, items, count - 1);
        lemma_width_sum_step(items, count - 1);
    } else {
        assert(items.take(0) =~= Seq::<ItemView>::empty());
    }
}

} // verus!
