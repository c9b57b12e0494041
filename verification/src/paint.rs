//! The paint operations that the bar hands to the compositor.

use vstd::prelude::*;
use crate::item_state::{ItemState, ItemView};

verus! {

/// One operation on the bar's window. All extents are horizontal; every
/// operation covers the full height of the bar.
#[derive(Clone, Copy, Debug, PartialEq, Eq, Structural)]
pub enum PaintOp {
    /// Fill `width` pixels from `x` on with the background color.
    Fill { x: u16, width: u16 },
    /// Copy the first `width` pixels of the buffer of item `id` to `x`.
    Copy { id: usize, x: u16, width: u16 },
}

/// The vertical offset at which a line of text is drawn so that it sits in
/// the middle of a bar of `height` pixels: half the height plus half the
/// font's size, minus the baseline of the laid-out text, rounded down, and
/// one pixel up. The font's size and the baseline are given in 1024ths of a
/// pixel. The offset depends on the font alone, not on the text, so texts
/// of one font share their baseline.
pub open spec fn text_offset(height: u16, font_size: i32, baseline: i32) -> int {
    (1024 * height + font_size - 2 * baseline) / 2048 - 1
}

/// The vertical offset at which a line of text is drawn so that it sits in
/// the middle of a bar of `height` pixels.
pub fn text_baseline(height: u16, font_size: i32, baseline: i32) -> (y: i64)
    ensures
        y == text_offset(height, font_size, baseline),
{
    let scaled: i64 = 1024 * (height as i64) + font_size as i64 - 2 * (baseline as i64);
    if scaled >= 0 {
        scaled / 2048 - 1
    } else {
        -((2047 - scaled) / 2048) - 1
    }
}

/// The operations that show `item` at `x`: one copy if its buffer is ready,
/// nothing otherwise.
pub open spec fn copy_ops(item: ItemView, x: int) -> Seq<PaintOp> {
    if item.ready {
        seq![PaintOp::Copy { id: item.id, x: x as u16, width: item.content_width }]
    } else {
        Seq::empty()
    }
}

/// The operation that clears the pixels from `a` up to, not including, `b`.
pub open spec fn fill_ops(a: int, b: int) -> Seq<PaintOp> {
    seq![PaintOp::Fill { x: a as u16, width: (b - a) as u16 }]
}

/// Appends the copy of `item` to the window at `pos`, unless the item is not
/// ready.
pub fn draw_item(ops: &mut Vec<PaintOp>, item: &ItemState, pos: u16)
    ensures
        final(ops)@ == old(ops)@ + copy_ops(item@, pos as int),
{
    if !item.is_ready() {
        assert(ops@ =~= ops@ + copy_ops(item@, pos as int));
        return ;
    }
    ops.push(PaintOp::Copy { id: item.get_id(), x: pos, width: item.get_content_width() });
    assert(ops@ =~= old(ops)@ + copy_ops(item@, pos as int));
}

/// Appends the clearing of the background from `a` up to `b`.
pub fn paint_bg(ops: &mut Vec<PaintOp>, a: u16, b: u16)
    requires
        a <= b,
    ensures
        final(ops)@ == old(ops)@ + fill_ops(a as int, b as int),
{
    ops.push(PaintOp::Fill { x: a, width: b - a });
    assert(ops@ =~= old(ops)@ + fill_ops(a as int, b as int));
}

} // verus!
