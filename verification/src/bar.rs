//! The redraw scheduler: keeps the items of the three slots and the
//! position table, and turns every change into paint operations.

use vstd::prelude::*;
use crate::bar_builder::Rectangle;
use crate::component::{ComponentUpdate, Slot};
use crate::error::Error;
use crate::item_state::{Change, ItemState, ItemView};
use crate::layout::{
    BarView, Placement, can_host, fresh_bar, fresh_item, fresh_items, lemma_painted_sum_frame,
    lemma_painted_sum_matches, lemma_painted_sum_prefix, lemma_width_sum_fresh,
    lemma_width_sum_prefix, lemma_width_sum_step, lemma_width_sum_update, painted_sum,
    placement_end, slot_admits, width_sum,
};
use crate::paint::{PaintOp, draw_item, paint_bg};

verus! {

/// Everything the scheduler knows about the bar.
pub struct Bar {
    left_items: Vec<ItemState>,
    center_items: Vec<ItemState>,
    right_items: Vec<ItemState>,
    item_positions: Vec<Placement>,
    geometry: Rectangle,
    inner_padding: u16,
}

/// The values of a list of items.
pub open spec fn item_views(items: Seq<ItemState>) -> Seq<ItemView> {
    items.map_values(|item: ItemState| item@)
}

impl View for Bar {
    type V = BarView;

    closed spec fn view(&self) -> BarView {
        BarView {
            left: item_views(self.left_items@),
            center: item_views(self.center_items@),
            right: item_views(self.right_items@),
            positions: self.item_positions@,
            x: self.geometry.x,
            y: self.geometry.y,
            width: self.geometry.width,
            height: self.geometry.height,
            padding: self.inner_padding,
        }
    }
}

/// `count` fresh items with the ids from `base` on.
fn fresh_slot(base: usize, count: usize) -> (items: Vec<ItemState>)
    requires
        base + count <= usize::MAX,
    ensures
        item_views(items@) == fresh_items(base as int, count as int),
{
    let mut items: Vec<ItemState> = Vec::new();
    let mut k: usize = 0;
    while k < count
        invariant
            k <= count,
            base + count <= usize::MAX,
            items@.len() == k,
            forall|i: int| 0 <= i < k ==> (#[trigger] items@[i])@ == fresh_item(base + i),
        decreases count - k,
    {
        items.push(ItemState::new(base + k));
        k += 1;
    }
    assert(item_views(items@) =~= fresh_items(base as int, count as int));
    items
}

/// The summed content width of `items`.
fn slot_width(items: &Vec<ItemState>) -> (sum: u32)
    requires
        width_sum(item_views(items@)) <= u16::MAX,
    ensures
        sum == width_sum(item_views(items@)),
{
    let ghost views = item_views(items@);
    let mut sum: u32 = 0;
    let mut n: usize = 0;
    while n < items.len()
        invariant
            n <= items@.len(),
            views == item_views(items@),
            width_sum(views) <= u16::MAX,
            sum == width_sum(views.take(n as int)),
        decreases items@.len() - n,
    {
        proof {
            lemma_width_sum_step(views, n as int);
            lemma_width_sum_prefix(views, n as int + 1);
        }
        sum += items[n].get_content_width() as u32;
        n += 1;
    }
    assert(views.take(n as int) =~= views);
    sum
}

/// Whether a slot that is `sum` pixels wide in all can be laid out.
fn admits(slot: Slot, padding: u16, width: u16, sum: u32) -> (r: bool)
    ensures
        r == slot_admits(slot, padding, width, sum as int),
{
    match slot {
        Slot::Left => sum <= 65535 && padding as u32 + sum <= 65535,
        Slot::Center => sum / 2 <= (width / 2) as u32,
        Slot::Right => sum <= 65535 && padding as u32 + sum <= width as u32,
    }
}

/// Takes an update for item `index` of a slot: see `Bar::update`.
fn update_slot(
    items: &mut Vec<ItemState>,
    slot: Slot,
    padding: u16,
    width: u16,
    index: usize,
    text: String,
    measured_width: u16,
) -> (r: Result<Change, Error>)
    requires
        index < old(items)@.len(),
        slot_admits(slot, padding, width, width_sum(item_views(old(items)@))),
    ensures
        ({
            let views = item_views(old(items)@);
            let item = views[index as int];
            let sum = width_sum(views) - item.content_width + measured_width;
            let accepted = slot_admits(slot, padding, width, sum) && item.can_hold(measured_width);
            &&& text@ == item.text ==> r == Ok::<Change, Error>(Change::Unchanged) && item_views(
                final(items)@,
            ) == views
            &&& text@ != item.text && !accepted ==> r == Err::<Change, Error>(Error::ItemError)
                && item_views(final(items)@) == views.update(
                index as int,
                ItemView { ready: false, ..item },
            )
            &&& text@ != item.text && accepted ==> r == item.update_result(text@, measured_width)
                && item_views(final(items)@) == views.update(
                index as int,
                item.with_content(text@, measured_width),
            )
            &&& slot_admits(slot, padding, width, width_sum(item_views(final(items)@)))
        }),
{
    let ghost views = item_views(items@);
    if items[index].shows(&text) {
        return Ok(Change::Unchanged);
    }
    proof {
        lemma_width_sum_prefix(views, index as int + 1);
        lemma_width_sum_step(views, index as int);
        lemma_width_sum_prefix(views, index as int);
    }
    let sum: u32 = slot_width(items) - items[index].get_content_width() as u32
        + measured_width as u32;
    let fits = admits(slot, padding, width, sum);
    let r = if fits {
        items[index].update(text, measured_width)
    } else {
        Err(Error::ItemError)
    };
    match r {
        Ok(change) => {
            proof {
                assert(item_views(items@) =~= views.update(index as int, items@[index as int]@));
                lemma_width_sum_update(views, index as int, items@[index as int]@);
            }
            Ok(change)
        },
        Err(e) => {
            items[index].set_ready(false);
            proof {
                assert(item_views(items@) =~= views.update(index as int, items@[index as int]@));
                lemma_width_sum_update(views, index as int, items@[index as int]@);
            }
            Err(e)
        },
    }
}

impl Bar {
    /// A bar of the given geometry with `left`, `center` and `right` fresh
    /// items in its slots, if such a bar can be laid out.
    pub fn new(geometry: Rectangle, inner_padding: u16, left: usize, center: usize, right: usize)
        -> (bar: Option<Bar>)
        ensures
            bar is Some <==> can_host(
                geometry.width,
                inner_padding,
                left as int,
                center as int,
                right as int,
            ),
            bar is Some ==> bar.unwrap()@.wf() && bar.unwrap()@ == fresh_bar(
                geometry,
                inner_padding,
                left as int,
                center as int,
                right as int,
            ),
    {
        if left > 65535 || center > 65536 || right > 65535 {
            return None;
        }
        if !admits(Slot::Left, inner_padding, geometry.width, left as u32) || !admits(
            Slot::Center,
            inner_padding,
            geometry.width,
            center as u32,
        ) || !admits(Slot::Right, inner_padding, geometry.width, right as u32) {
            return None;
        }
        let left_items = fresh_slot(0, left);
        let center_items = fresh_slot(left, center);
        let right_items = fresh_slot(left + center, right);
        let mut item_positions: Vec<Placement> = Vec::new();
        let total: usize = left + center + right;
        let mut k: usize = 0;
        while k < total
            invariant
                k <= total,
                item_positions@.len() == k,
                forall|i: int| 0 <= i < k ==> (#[trigger] item_positions@[i]) is None,
            decreases total - k,
        {
            item_positions.push(None);
            k += 1;
        }
        let bar = Bar {
            left_items,
            center_items,
            right_items,
            item_positions,
            geometry,
            inner_padding,
        };
        proof {
            lemma_width_sum_fresh(0, left as int);
            lemma_width_sum_fresh(left as int, center as int);
            lemma_width_sum_fresh(left + center, right as int);
            assert(bar@.positions =~= fresh_bar(
                geometry,
                inner_padding,
                left as int,
                center as int,
                right as int,
            ).positions);
            lemma_painted_sum_none(bar@.positions, bar@.center_base(), center as int);
        }
        Some(bar)
    }

    /// The items of the left slot.
    pub fn left_items(&self) -> (items: &Vec<ItemState>)
        ensures
            item_views(items@) == self@.left,
    {
        &self.left_items
    }

    /// The items of the center slot.
    pub fn center_items(&self) -> (items: &Vec<ItemState>)
        ensures
            item_views(items@) == self@.center,
    {
        &self.center_items
    }

    /// The items of the right slot.
    pub fn right_items(&self) -> (items: &Vec<ItemState>)
        ensures
            item_views(items@) == self@.right,
    {
        &self.right_items
    }

    /// Item `index` of `slot`.
    pub fn item(&self, slot: Slot, index: usize) -> (item: &ItemState)
        requires
            index < self@.items(slot).len(),
        ensures
            item@ == self@.items(slot)[index as int],
    {
        match slot {
            Slot::Left => &self.left_items[index],
            Slot::Center => &self.center_items[index],
            Slot::Right => &self.right_items[index],
        }
    }

    /// The position table: for every id, where the item was last painted.
    pub fn item_positions(&self) -> (positions: &Vec<Placement>)
        ensures
            positions@ == self@.positions,
    {
        &self.item_positions
    }

    /// The rectangle of the bar's window.
    pub fn geometry(&self) -> (geometry: Rectangle)
        ensures
            geometry == self@.geometry(),
    {
        self.geometry
    }

    /// The space kept free at both ends of the bar.
    pub fn inner_padding(&self) -> (padding: u16)
        ensures
            padding == self@.padding,
    {
        self.inner_padding
    }

    /// Takes a new text of a component together with its measured width.
    ///
    /// An update that repeats the item's text changes nothing. One that
    /// would make the slot too wide to lay out, or whose buffer cannot be
    /// allocated, is refused: the item keeps its text and width and is
    /// marked not ready. Otherwise the item takes the text, the width and,
    /// if need be, a new buffer width; what is to be painted then is the
    /// matter of `redraw`.
    pub fn update(&mut self, update: ComponentUpdate, measured_width: u16) -> (r: Result<
        Change,
        Error,
    >)
        requires
            old(self)@.wf(),
            old(self)@.has_component(update.slot, update.index as int, update.id as int),
        ensures
            final(self)@.wf(),
            r == old(self)@.update_result(
                update.slot,
                update.index as int,
                update.value@,
                measured_width,
            ),
            final(self)@ == old(self)@.after_update(
                update.slot,
                update.index as int,
                update.value@,
                measured_width,
            ),
    {
        let padding = self.inner_padding;
        let width = self.geometry.width;
        let ghost before = self@;
        let r = match update.slot {
            Slot::Left => update_slot(
                &mut self.left_items,
                Slot::Left,
                padding,
                width,
                update.index,
                update.value,
                measured_width,
            ),
            Slot::Center => update_slot(
                &mut self.center_items,
                Slot::Center,
                padding,
                width,
                update.index,
                update.value,
                measured_width,
            ),
            Slot::Right => update_slot(
                &mut self.right_items,
                Slot::Right,
                padding,
                width,
                update.index,
                update.value,
                measured_width,
            ),
        };
        r
    }

    /// Records whether the rendering of item `index` of `slot` into its
    /// buffer succeeded: the item is ready if it did.
    pub fn mark_rendered(&mut self, slot: Slot, index: usize, ok: bool)
        requires
            old(self)@.wf(),
            index < old(self)@.items(slot).len(),
        ensures
            final(self)@.wf(),
            final(self)@ == old(self)@.rendered(slot, index as int, ok),
    {
        let ghost before = self@;
        match slot {
            Slot::Left => {
                self.left_items[index].mark_rendered(ok);
                proof {
                    assert(self@.left =~= before.left.update(index as int, self@.left[index as int]));
                    lemma_width_sum_update(before.left, index as int, self@.left[index as int]);
                }
            },
            Slot::Center => {
                self.center_items[index].mark_rendered(ok);
                proof {
                    assert(self@.center =~= before.center.update(
                        index as int,
                        self@.center[index as int],
                    ));
                    lemma_width_sum_update(before.center, index as int, self@.center[index as int]);
                }
            },
            Slot::Right => {
                self.right_items[index].mark_rendered(ok);
                proof {
                    assert(self@.right =~= before.right.update(
                        index as int,
                        self@.right[index as int],
                    ));
                    lemma_width_sum_update(before.right, index as int, self@.right[index as int]);
                }
            },
        }
    }

    /// Paints what an update of item `index` of `slot` made necessary.
    ///
    /// `change` is what `update` reported for the item, and `rendered`
    /// whether the item's new text was rendered into its buffer since. For
    /// an unchanged item nothing is painted and nothing changes. Otherwise
    /// the item is marked ready or not, and its slot is redrawn.
    pub fn redraw(&mut self, slot: Slot, index: usize, change: Change, rendered: bool) -> (ops:
        Vec<PaintOp>)
        requires
            old(self)@.wf(),
            index < old(self)@.items(slot).len(),
        ensures
            final(self)@.wf(),
            final(self)@ == old(self)@.after_redraw(slot, index as int, change, rendered),
            ops@ == old(self)@.redraw_ops(slot, index as int, change, rendered),
    {
        match change {
            Change::Unchanged => Vec::new(),
            Change::Changed { size_changed, .. } => {
                self.mark_rendered(slot, index, rendered);
                match slot {
                    Slot::Left => self.redraw_left(size_changed, index),
                    Slot::Center => self.redraw_center(),
                    Slot::Right => self.redraw_right(size_changed, index),
                }
            },
        }
    }

    /// Repaints every slot in full, as an event of the windowing system
    /// asks for: such an event does not say which part of the window is
    /// stale.
    pub fn redraw_all(&mut self) -> (ops: Vec<PaintOp>)
        requires
            old(self)@.wf(),
        ensures
            final(self)@.wf(),
            final(self)@ == old(self)@.after_full(),
            ops@ == old(self)@.full_ops(),
    {
        let ghost before = self@;
        let mut ops: Vec<PaintOp> = Vec::new();
        if self.left_items.len() > 0 {
            let mut left = self.redraw_left(true, 0);
            ops.append(&mut left);
        }
        proof {
            assert(self@.positions =~= before.left_positions(true, 0));
            assert(ops@ =~= before.left_cascade(0));
        }
        let mut center = self.redraw_center();
        ops.append(&mut center);
        let ghost middle = self@;
        let count: usize = self.right_items.len();
        if count > 0 {
            let mut right = self.redraw_right(true, count - 1);
            ops.append(&mut right);
        }
        proof {
            assert(self@.positions =~= middle.right_positions(true, count - 1));
            assert(ops@ =~= before.full_ops());
        }
        ops
    }

    /// Redraws the left slot after item `index` changed.
    ///
    /// If the item kept its size, it alone is painted again. If not, it and
    /// every item to its right is cleared and painted at its new offset; for
    /// the last item the cleared stretch reaches to where that item ended
    /// before, so that nothing is left over when the slot got shorter.
    pub fn redraw_left(&mut self, size_changed: bool, index: usize) -> (ops: Vec<PaintOp>)
        requires
            old(self)@.wf(),
            index < old(self)@.left.len(),
        ensures
            final(self)@.wf(),
            final(self)@ == (BarView {
                positions: old(self)@.left_positions(size_changed, index as int),
                ..old(self)@
            }),
            ops@ == old(self)@.left_ops(size_changed, index as int),
    {
        let ghost before = self@;
        let mut ops: Vec<PaintOp> = Vec::new();
        let mut pos: u16 = self.inner_padding;
        let len: usize = self.left_items.len();
        let mut n: usize = 0;
        while n < index
            invariant
                n <= index < len,
                len == before.left.len(),
                self@ == before,
                before.wf(),
                pos == before.left_start(n as int),
            decreases index - n,
        {
            proof {
                lemma_width_sum_step(before.left, n as int);
                lemma_width_sum_prefix(before.left, n as int + 1);
            }
            pos += self.left_items[n].get_content_width();
            n += 1;
        }
        while n < len
            invariant
                index <= n <= len,
                len == before.left.len(),
                before.wf(),
                self@ == (BarView { positions: self@.positions, ..before }),
                self@.positions.len() == before.positions.len(),
                forall|id: int|
                    0 <= id < before.positions.len() ==> #[trigger] self@.positions[id] == (if index
                        <= id < n {
                        Some((before.left_start(id) as u16, before.left[id].content_width))
                    } else {
                        before.positions[id]
                    }),
                pos == before.left_start(n as int),
                size_changed ==> ops@ + before.left_cascade(n as int) == before.left_cascade(
                    index as int,
                ),
                !size_changed ==> n == index && ops@.len() == 0,
                self@.wf(),
                before == old(self)@,
            decreases len - n,
        {
            let w: u16 = self.left_items[n].get_content_width();
            let id: usize = self.left_items[n].get_id();
            proof {
                lemma_width_sum_step(before.left, n as int);
                lemma_width_sum_prefix(before.left, n as int + 1);
                assert(before.left[n as int].id == n);
            }
            let ghost ops_before = ops@;
            if size_changed {
                let bg_start: u16 = pos;
                let mut bg_end: u16 = pos + w;
                if n == len - 1 {
                    match self.item_positions[id] {
                        Some((old_x, old_w)) => {
                            assert(placement_end(before.positions[id as int]) <= u16::MAX);
                            let old_end: u16 = old_x + old_w;
                            if bg_end < old_end {
                                bg_end = old_end;
                            }
                        },
                        None => {},
                    }
                }
                assert(bg_end == before.left_fill_end(n as int));
                paint_bg(&mut ops, bg_start, bg_end);
            }
            let ghost positions_before = self@.positions;
            self.item_positions.set(id, Some((pos, w)));
            draw_item(&mut ops, &self.left_items[n], pos);
            proof {
                assert(ops@ =~= ops_before + before.left_item_ops(n as int, size_changed));
                assert forall|i: int|
                    before.center_base() <= i < before.center_base()
                        + before.center.len() implies self@.positions[i]
                    == positions_before[i] by {}
                lemma_painted_sum_frame(
                    self@.positions,
                    positions_before,
                    before.center_base(),
                    before.center.len() as int,
                );
                if size_changed {
                    assert(ops@ + before.left_cascade(n as int + 1) =~= ops_before
                        + before.left_cascade(n as int));
                }
            }
            if !size_changed {
                proof {
                    assert(self@.positions =~= before.left_positions(size_changed, index as int));
                    assert(ops@ =~= before.left_item_ops(index as int, false));
                }
                return ops;
            }
            pos += w;
            n += 1;
        }
        proof {
            assert(self@.positions =~= before.left_positions(size_changed, index as int));
            assert(before.left_cascade(len as int) =~= Seq::<PaintOp>::empty());
            assert(ops@ + Seq::<PaintOp>::empty() =~= ops@);
        }
        ops
    }

    /// Redraws the right slot after item `index` changed.
    ///
    /// The slot is anchored at the right padding. If the item kept its size,
    /// it alone is painted again. If not, it and every item to its left is
    /// cleared and painted at its new offset; for the first item of the slot
    /// the cleared stretch starts where that item started before, if that is
    /// further left, so that nothing is left over when the slot got shorter.
    pub fn redraw_right(&mut self, size_changed: bool, index: usize) -> (ops: Vec<PaintOp>)
        requires
            old(self)@.wf(),
            index < old(self)@.right.len(),
        ensures
            final(self)@.wf(),
            final(self)@ == (BarView {
                positions: old(self)@.right_positions(size_changed, index as int),
                ..old(self)@
            }),
            ops@ == old(self)@.right_ops(size_changed, index as int),
    {
        let ghost before = self@;
        let mut ops: Vec<PaintOp> = Vec::new();
        let len: usize = self.right_items.len();
        proof {
            lemma_width_sum_prefix(before.right, len as int);
            assert(before.right.take(len as int) =~= before.right);
        }
        let mut pos: u16 = self.geometry.width - self.inner_padding;
        let mut n: usize = len;
        while n > index + 1
            invariant
                index < n <= len,
                len == before.right.len(),
                self@ == before,
                before.wf(),
                pos == before.right_start(n as int),
            decreases n,
        {
            n -= 1;
            proof {
                lemma_width_sum_step(before.right, n as int);
                lemma_width_sum_prefix(before.right, n as int);
            }
            pos -= self.right_items[n].get_content_width();
        }
        while n > 0
            invariant
                n <= index + 1 <= len,
                len == before.right.len(),
                before.wf(),
                before == old(self)@,
                self@ == (BarView { positions: self@.positions, ..before }),
                self@.positions.len() == before.positions.len(),
                forall|id: int|
                    0 <= id < before.positions.len() ==> #[trigger] self@.positions[id] == (if n
                        <= id - before.right_base() <= index {
                        Some(
                            (
                                before.right_start(id - before.right_base()) as u16,
                                before.right[id - before.right_base()].content_width,
                            ),
                        )
                    } else {
                        before.positions[id]
                    }),
                pos == before.right_start(n as int),
                size_changed ==> ops@ + before.right_cascade(n as int - 1) == before.right_cascade(
                    index as int,
                ),
                !size_changed ==> n == index + 1 && ops@.len() == 0,
                self@.wf(),
            decreases n,
        {
            n -= 1;
            let w: u16 = self.right_items[n].get_content_width();
            let id: usize = self.right_items[n].get_id();
            proof {
                lemma_width_sum_step(before.right, n as int);
                lemma_width_sum_prefix(before.right, n as int);
                assert(before.right[n as int].id == before.right_base() + n);
            }
            let end: u16 = pos;
            pos -= w;
            let ghost ops_before = ops@;
            if size_changed {
                let mut bg_start: u16 = pos;
                if n == 0 {
                    match self.item_positions[id] {
                        Some((old_start, _)) => {
                            if old_start < bg_start {
                                bg_start = old_start;
                            }
                        },
                        None => {},
                    }
                }
                assert(bg_start == before.right_fill_start(n as int));
                paint_bg(&mut ops, bg_start, end);
            }
            let ghost positions_before = self@.positions;
            self.item_positions.set(id, Some((pos, w)));
            draw_item(&mut ops, &self.right_items[n], pos);
            proof {
                assert(ops@ =~= ops_before + before.right_item_ops(n as int, size_changed));
                assert forall|i: int|
                    before.center_base() <= i < before.center_base()
                        + before.center.len() implies self@.positions[i]
                    == positions_before[i] by {}
                lemma_painted_sum_frame(
                    self@.positions,
                    positions_before,
                    before.center_base(),
                    before.center.len() as int,
                );
                if size_changed {
                    assert(ops@ + before.right_cascade(n as int - 1) =~= ops_before
                        + before.right_cascade(n as int));
                }
            }
            if !size_changed {
                proof {
                    assert(self@.positions =~= before.right_positions(size_changed, index as int));
                    assert(ops@ =~= before.right_item_ops(index as int, false));
                }
                return ops;
            }
        }
        proof {
            assert(self@.positions =~= before.right_positions(size_changed, index as int));
            assert(before.right_cascade(-1) =~= Seq::<PaintOp>::empty());
            assert(ops@ + Seq::<PaintOp>::empty() =~= ops@);
        }
        ops
    }

    /// Redraws the center slot.
    ///
    /// The items are centered as a group, so a change of any of them moves
    /// all of them. If the group became narrower than it was painted, the
    /// stretch painted before is cleared first. Then every item is painted,
    /// left to right, the first one at half the bar's width minus half the
    /// group's width.
    pub fn redraw_center(&mut self) -> (ops: Vec<PaintOp>)
        requires
            old(self)@.wf(),
        ensures
            final(self)@.wf(),
            final(self)@ == (BarView { positions: old(self)@.center_positions(), ..old(self)@ }),
            ops@ == old(self)@.center_ops(),
    {
        let ghost before = self@;
        let mut ops: Vec<PaintOp> = Vec::new();
        let len: usize = self.center_items.len();
        let mut width_all: u16 = 0;
        let mut old_width_all: u16 = 0;
        let mut n: usize = 0;
        while n < len
            invariant
                n <= len,
                len == before.center.len(),
                self@ == before,
                before.wf(),
                width_all == width_sum(before.center.take(n as int)),
                old_width_all == painted_sum(before.positions, before.center_base(), n as int),
            decreases len - n,
        {
            proof {
                lemma_width_sum_step(before.center, n as int);
                lemma_width_sum_prefix(before.center, n as int + 1);
                lemma_painted_sum_prefix(
                    before.positions,
                    before.center_base(),
                    n as int + 1,
                    len as int,
                );
                assert(before.center[n as int].id == before.center_base() + n);
            }
            let id: usize = self.center_items[n].get_id();
            width_all += self.center_items[n].get_content_width();
            match self.item_positions[id] {
                Some((_, old_w)) => {
                    old_width_all += old_w;
                },
                None => {},
            }
            n += 1;
        }
        proof {
            assert(before.center.take(len as int) =~= before.center);
        }
        if width_all < old_width_all {
            proof {
                lemma_painted_sum_prefix(before.positions, before.center_base(), 0, len as int);
            }
            let first: usize = self.center_items[0].get_id();
            assert(before.center[0].id == before.center_base());
            match self.item_positions[first] {
                Some((old_start, _)) => {
                    paint_bg(&mut ops, old_start, old_start + old_width_all);
                },
                None => {
                    paint_bg(&mut ops, 0, old_width_all);
                },
            }
        }
        assert(ops@ =~= before.center_erase());
        let mut pos: u16 = self.geometry.width / 2 - width_all / 2;
        n = 0;
        while n < len
            invariant
                n <= len,
                len == before.center.len(),
                before.wf(),
                before == old(self)@,
                width_all == width_sum(before.center),
                self@ == (BarView { positions: self@.positions, ..before }),
                self@.positions.len() == before.positions.len(),
                forall|id: int|
                    0 <= id < before.positions.len() ==> #[trigger] self@.positions[id] == (if 0
                        <= id - before.center_base() < n {
                        Some(
                            (
                                before.center_item_start(id - before.center_base()) as u16,
                                before.center[id - before.center_base()].content_width,
                            ),
                        )
                    } else {
                        before.positions[id]
                    }),
                pos == before.center_item_start(n as int),
                ops@ + before.center_copies(n as int) == before.center_ops(),
            decreases len - n,
        {
            let w: u16 = self.center_items[n].get_content_width();
            let id: usize = self.center_items[n].get_id();
            proof {
                lemma_width_sum_step(before.center, n as int);
                lemma_width_sum_prefix(before.center, n as int + 1);
                assert(before.center[n as int].id == before.center_base() + n);
            }
            let ghost ops_before = ops@;
            self.item_positions.set(id, Some((pos, w)));
            draw_item(&mut ops, &self.center_items[n], pos);
            proof {
                assert(ops@ + before.center_copies(n as int + 1) =~= ops_before
                    + before.center_copies(n as int));
            }
            pos += w;
            n += 1;
        }
        proof {
            assert(self@.positions =~= before.center_positions());
            assert(before.center_copies(len as int) =~= Seq::<PaintOp>::empty());
            assert(ops@ + Seq::<PaintOp>::empty() =~= ops@);
            assert forall|id: int| 0 <= id < self@.positions.len() implies placement_end(
                #[trigger] self@.positions[id],
            ) <= u16::MAX by {
                let k = id - before.center_base();
                if 0 <= k < len {
                    lemma_width_sum_step(before.center, k);
                    lemma_width_sum_prefix(before.center, k + 1);
                    lemma_width_sum_prefix(before.center, k);
                    assert(before.center_start() + width_sum(before.center) <= u16::MAX);
                    assert(self@.positions[id] == Some(
                        (before.center_item_start(k) as u16, before.center[k].content_width),
                    ));
                } else {
                    assert(self@.positions[id] == before.positions[id]);
                }
            }
            lemma_painted_sum_matches(
                self@.positions,
                before.center_base(),
                before.center,
                len as int,
            );
            if len > 0 {
                assert(before.center.take(0) =~= Seq::<ItemView>::empty());
            }
        }
        ops
    }
}

/// Where nothing was painted, the recorded widths sum to zero.
proof fn lemma_painted_sum_none(positions: Seq<Placement>, base: int, count: int)
    requires
        forall|k: int| 0 <= k < count ==> (#[trigger] positions[base + k]) is None,
    ensures
        painted_sum(positions, base, count) == 0,
    decreases count,
{
    if count > 0 {
        lemma_painted_sum_none(positions, base, count - 1);
        assert(positions[base + (count - 1)] is None);
    }
}

} // verus!
