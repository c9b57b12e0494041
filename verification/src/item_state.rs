//! Render state of one component: its text, its measured width and the
//! width of the off-screen buffer that backs it.

use vstd::prelude::*;
use crate::error::Error;
use crate::paint::{text_baseline, text_offset};

verus! {

/// What an update did to an item.
#[derive(Clone, Copy, Debug, PartialEq, Eq, Structural)]
pub enum Change {
    /// The new text equals the current one: nothing happened.
    Unchanged,
    /// The text changed.
    Changed {
        /// The measured width differs from the width before the update.
        size_changed: bool,
        /// The buffer was given a new width and has to be created anew.
        reallocated: bool,
    },
}

/// What is to be rendered into the buffer of an item: the buffer is
/// cleared to the background color over its whole width, then the text is
/// drawn at its left edge, `y` pixels from the top.
#[derive(Clone, Debug, PartialEq, Eq)]
pub struct Rendering {
    pub text: String,
    pub width: u16,
    pub y: i64,
}

/// The mathematical value of an `ItemState`.
pub struct ItemView {
    pub id: usize,
    pub text: Seq<char>,
    pub content_width: u16,
    pub buffer_width: u16,
    pub ready: bool,
}

/// The render state of one registered component.
pub struct ItemState {
    id: usize,
    text: String,
    content_width: u16,
    buffer_width: u16,
    ready: bool,
}

/// Whether a buffer of width `allocated` has to be replaced to hold content
/// of width `required`: when the content no longer fits, or when it has
/// dropped below 60% of the buffer.
pub open spec fn must_reallocate(allocated: int, required: int) -> bool {
    required > allocated || 10 * required < 6 * allocated
}

/// The width given to a new buffer for content of width `required`: the
/// least whole number of pixels that is at least 130% of it.
pub open spec fn headroom(required: int) -> int {
    (13 * required + 9) / 10
}

/// Whether asking for content of width `required` replaces a buffer of
/// width `allocated`: it must be replaced, and the new one can be allocated.
pub open spec fn reallocates(allocated: int, required: int) -> bool {
    must_reallocate(allocated, required) && headroom(required) <= u16::MAX
}

/// The buffer width after content of width `required` was asked for: the
/// buffer is replaced where it must be and the new one can be allocated,
/// and kept otherwise.
pub open spec fn buffer_step(allocated: int, required: int) -> int {
    if reallocates(allocated, required) {
        headroom(required)
    } else {
        allocated
    }
}

/// How often the buffer is replaced while the required width grows by one
/// pixel at a time, `steps` times, from `start` on.
pub open spec fn growth_reallocations(allocated: int, start: int, steps: nat) -> nat
    decreases steps,
{
    if steps == 0 {
        0
    } else {
        let here: nat = if reallocates(allocated, start) {
            1
        } else {
            0
        };
        here + growth_reallocations(buffer_step(allocated, start), start + 1, (steps - 1) as nat)
    }
}

/// `base` raised to `exp`.
pub open spec fn power(base: int, exp: nat) -> int
    decreases exp,
{
    if exp == 0 {
        1
    } else {
        base * power(base, (exp - 1) as nat)
    }
}

/// The buffer width after the widths of `required` were asked for one
/// after the other, starting from a buffer of width `allocated`.
pub open spec fn buffer_after(allocated: int, required: Seq<int>) -> int
    decreases required.len(),
{
    if required.len() == 0 {
        allocated
    } else {
        buffer_step(buffer_after(allocated, required.drop_last()), required.last())
    }
}

impl ItemView {
    /// Whether the item's buffer can be made fit for content of `width`
    /// pixels: either it is kept, or the new one can be allocated.
    pub open spec fn can_hold(self, width: u16) -> bool {
        must_reallocate(self.buffer_width as int, width as int) ==> headroom(width as int)
            <= u16::MAX
    }

    /// The buffer is wide enough for the content.
    pub open spec fn fits_buffer(self) -> bool {
        self.content_width <= self.buffer_width
    }

    /// The item after an attempt to render its text into its buffer: it is
    /// ready if the attempt succeeded and the buffer is wide enough for the
    /// text.
    pub open spec fn rendered(self, ok: bool) -> ItemView {
        ItemView { ready: ok && self.fits_buffer(), ..self }
    }

    /// What an update to `text`, measured as `width` pixels, reports.
    pub open spec fn update_result(self, text: Seq<char>, width: u16) -> Result<Change, Error> {
        if text == self.text {
            Ok(Change::Unchanged)
        } else if !self.can_hold(width) {
            Err(Error::ItemError)
        } else {
            Ok(
                Change::Changed {
                    size_changed: width != self.content_width,
                    reallocated: must_reallocate(self.buffer_width as int, width as int),
                },
            )
        }
    }

    /// The item with `text`, measured as `width` pixels, taken over, and
    /// its buffer made fit.
    pub open spec fn with_content(self, text: Seq<char>, width: u16) -> ItemView {
        ItemView {
            text,
            content_width: width,
            buffer_width: buffer_step(self.buffer_width as int, width as int) as u16,
            ..self
        }
    }

    /// The item after an update to `text`, measured as `width` pixels: as
    /// before if the text is the same or the buffer cannot be made fit.
    pub open spec fn after_update(self, text: Seq<char>, width: u16) -> ItemView {
        if text == self.text || !self.can_hold(width) {
            self
        } else {
            self.with_content(text, width)
        }
    }
}

impl View for ItemState {
    type V = ItemView;

    closed spec fn view(&self) -> ItemView {
        ItemView {
            id: self.id,
            text: self.text@,
            content_width: self.content_width,
            buffer_width: self.buffer_width,
            ready: self.ready,
        }
    }
}

impl ItemState {
    /// A new item: no text, no buffer, not ready, one pixel wide.
    pub fn new(id: usize) -> (item: ItemState)
        ensures
            item@ == (ItemView {
                id,
                text: Seq::<char>::empty(),
                content_width: 1,
                buffer_width: 0,
                ready: false,
            }),
    {
        ItemState { id, text: String::new(), content_width: 1, buffer_width: 0, ready: false }
    }

    /// Whether the item's buffer holds a rendering of its text.
    pub fn is_ready(&self) -> (r: bool)
        ensures
            r == self@.ready,
    {
        self.ready
    }

    /// The measured width of the current text, in pixels.
    pub fn get_content_width(&self) -> (w: u16)
        ensures
            w == self@.content_width,
    {
        self.content_width
    }

    /// The width of the off-screen buffer, in pixels.
    pub fn get_buffer_width(&self) -> (w: u16)
        ensures
            w == self@.buffer_width,
    {
        self.buffer_width
    }

    /// The global id of the component.
    pub fn get_id(&self) -> (id: usize)
        ensures
            id == self@.id,
    {
        self.id
    }

    /// The text the item currently shows.
    pub fn get_text(&self) -> (s: &str)
        ensures
            s@ == self@.text,
    {
        self.text.as_str()
    }

    /// Whether `text` is what the item currently shows.
    pub fn shows(&self, text: &String) -> (r: bool)
        ensures
            r == (text@ == self@.text),
    {
        *text == self.text
    }

    /// Sets whether the item is ready.
    pub fn set_ready(&mut self, ready: bool)
        ensures
            final(self)@ == (ItemView { ready, ..old(self)@ }),
    {
        self.ready = ready;
    }

    /// Records whether the rendering of the text into the buffer succeeded.
    /// The item is ready if it did and the buffer is wide enough for the
    /// text.
    pub fn mark_rendered(&mut self, ok: bool)
        ensures
            final(self)@ == old(self)@.rendered(ok),
    {
        self.ready = ok && self.content_width <= self.buffer_width;
    }

    /// What is to be rendered into the item's buffer on a bar of `height`
    /// pixels, in a font of the given size and with the given baseline of
    /// the laid-out text, both in 1024ths of a pixel. It depends on the
    /// item's state and the font alone: to paint an item again that did not
    /// change gives the same picture.
    pub fn paint(&self, height: u16, font_size: i32, baseline: i32) -> (rendering: Rendering)
        ensures
            rendering.text@ == self@.text,
            rendering.width == self@.buffer_width,
            rendering.y == text_offset(height, font_size, baseline),
    {
        Rendering {
            text: self.text.clone(),
            width: self.buffer_width,
            y: text_baseline(height, font_size, baseline),
        }
    }

    /// Makes sure that the buffer can hold content of width
    /// `required_width`.
    ///
    /// The buffer is kept while the content fits and fills at least 60% of
    /// it. Otherwise it is replaced by one of 130% of the required width,
    /// rounded up, and `Ok(true)` is returned. If that width is more than
    /// the windowing system can address, nothing changes and the call fails.
    pub fn ensure_buffer(&mut self, required_width: u16) -> (r: Result<bool, Error>)
        ensures
            r == (if old(self)@.can_hold(required_width) {
                Ok::<bool, Error>(
                    must_reallocate(old(self)@.buffer_width as int, required_width as int),
                )
            } else {
                Err::<bool, Error>(Error::ItemError)
            }),
            final(self)@ == (ItemView {
                buffer_width: buffer_step(
                    old(self)@.buffer_width as int,
                    required_width as int,
                ) as u16,
                ..old(self)@
            }),
            r is Ok ==> required_width <= final(self)@.buffer_width,
    {
        let allocated: u32 = self.buffer_width as u32;
        let required: u32 = required_width as u32;
        if required > allocated || 10 * required < 6 * allocated {
            let wanted: u32 = (13 * required + 9) / 10;
            if wanted > 65535 {
                return Err(Error::ItemError);
            }
            self.buffer_width = wanted as u16;
            Ok(true)
        } else {
            Ok(false)
        }
    }

    /// Stores a newly measured content width and says whether it differs
    /// from the one before.
    pub fn update_size(&mut self, measured_width: u16) -> (size_changed: bool)
        ensures
            size_changed == (measured_width != old(self)@.content_width),
            final(self)@ == (ItemView { content_width: measured_width, ..old(self)@ }),
    {
        let size_changed = measured_width != self.content_width;
        self.content_width = measured_width;
        size_changed
    }

    /// Takes a new text together with its measured width.
    ///
    /// If the text equals the current one, nothing happens. Otherwise the
    /// buffer is made fit for the new width, and text and width are stored.
    /// If the buffer cannot be made fit, the item keeps its text and width
    /// and the call fails.
    pub fn update(&mut self, new_text: String, measured_width: u16) -> (r: Result<Change, Error>)
        ensures
            r == old(self)@.update_result(new_text@, measured_width),
            final(self)@ == old(self)@.after_update(new_text@, measured_width),
            r is Ok && r.unwrap() is Changed ==> final(self)@.content_width <= final(
                self
            )@.buffer_width,
    {
        if new_text == self.text {
            return Ok(Change::Unchanged);
        }
        let reallocated = match self.ensure_buffer(measured_width) {
            Ok(b) => b,
            Err(e) => {
                return Err(e);
            },
        };
        self.text = new_text;
        let size_changed = self.update_size(measured_width);
        Ok(Change::Changed { size_changed, reallocated })
    }
}

/// Repeating the text of an update that was taken changes nothing, and is
/// reported as unchanged, whatever width is measured for it.
pub proof fn lemma_update_idempotent(
    item: ItemView,
    text: Seq<char>,
    first_width: u16,
    second_width: u16,
)
    requires
        item.update_result(text, first_width) is Ok,
    ensures
        item.after_update(text, first_width).update_result(text, second_width) == Ok::<
            Change,
            Error,
        >(Change::Unchanged),
        item.after_update(text, first_width).after_update(text, second_width) == item.after_update(
            text,
            first_width,
        ),
{
}

/// An update to another text reports a size change exactly if the new
/// measured width differs from the width of the text shown before, as long
/// as the buffer can be made fit.
pub proof fn lemma_size_change_detected(item: ItemView, text: Seq<char>, width: u16)
    requires
        text != item.text,
        item.can_hold(width),
    ensures
        item.update_result(text, width) == Ok::<Change, Error>(
            Change::Changed {
                size_changed: width != item.content_width,
                reallocated: must_reallocate(item.buffer_width as int, width as int),
            },
        ),
        item.after_update(text, width).content_width == width,
        item.after_update(text, width).text == text,
{
}

/// One step of the buffer policy: the buffer gets narrower only when the
/// required width has dropped below 60% of it; whenever it is replaced, the
/// new width is the least that is at least 130% of the required width; and
/// it always holds the content unless it could not be allocated.
pub proof fn lemma_buffer_step(allocated: int, required: int)
    requires
        0 <= allocated,
        0 <= required,
    ensures
        buffer_step(allocated, required) < allocated ==> 10 * required < 6 * allocated,
        reallocates(allocated, required) ==> 13 * required <= 10 * buffer_step(allocated, required)
            < 13 * required + 10,
        !reallocates(allocated, required) ==> buffer_step(allocated, required) == allocated,
        headroom(required) <= u16::MAX ==> required <= buffer_step(allocated, required),
        must_reallocate(allocated, required) <==> !(10 * required >= 6 * allocated && required
            <= allocated),
{
}

/// A power of a positive base is positive.
pub proof fn lemma_power_positive(base: int, exp: nat)
    requires
        0 < base,
    ensures
        0 < power(base, exp),
    decreases exp,
{
    if exp > 0 {
        lemma_power_positive(base, (exp - 1) as nat);
        assert(0 < base * power(base, (exp - 1) as nat)) by (nonlinear_arith)
            requires
                0 < base,
                0 < power(base, (exp - 1) as nat),
        ;
    }
}

/// Content that grows by one pixel at a time replaces its buffer rarely:
/// every replacement leaves room for 130% of the width that caused it, so
/// the widths that cause one grow by that factor each time. After `count`
/// replacements in `steps` steps from width `start` on, 1.3 to the power of
/// `count - 1` is at most the factor by which the width has grown in all.
/// The number of replacements is thus logarithmic in the number of steps.
/// The buffer must not be so large at the start that it would be shrunk.
pub proof fn lemma_growth_reallocations(allocated: int, start: int, steps: nat)
    requires
        0 <= allocated,
        1 <= start,
        6 * allocated <= 10 * start,
    ensures
        ({
            let count = growth_reallocations(allocated, start, steps);
            count >= 1 ==> power(13, (count - 1) as nat) * start <= power(10, (count - 1) as nat)
                * (start + steps - 1)
        }),
{
    let count = growth_reallocations(allocated, start, steps);
    if count >= 1 {
        lemma_growth_from(allocated, start, steps);
        lemma_power_positive(13, (count - 1) as nat);
        let floor = if start > allocated {
            start
        } else {
            allocated + 1
        };
        assert(power(13, (count - 1) as nat) * start <= power(13, (count - 1) as nat) * floor)
            by (nonlinear_arith)
            requires
                0 < power(13, (count - 1) as nat),
                start <= floor,
        ;
    }
}

/// The same bound, counted from the first width that can cause a
/// replacement: the start, or one more than the buffer holds.
proof fn lemma_growth_from(allocated: int, start: int, steps: nat)
    requires
        0 <= allocated,
        1 <= start,
        6 * allocated <= 10 * start,
    ensures
        ({
            let count = growth_reallocations(allocated, start, steps);
            let floor = if start > allocated {
                start
            } else {
                allocated + 1
            };
            count >= 1 ==> power(13, (count - 1) as nat) * floor <= power(10, (count - 1) as nat)
                * (start + steps - 1)
        }),
    decreases steps,
{
    let count = growth_reallocations(allocated, start, steps);
    if steps > 0 && count >= 1 {
        let next = buffer_step(allocated, start);
        let rest = growth_reallocations(next, start + 1, (steps - 1) as nat);
        let last = start + steps - 1;
        let floor = if start > allocated {
            start
        } else {
            allocated + 1
        };
        let next_floor = if start + 1 > next {
            start + 1
        } else {
            next + 1
        };
        lemma_growth_from(next, start + 1, (steps - 1) as nat);
        if reallocates(allocated, start) {
            assert(start > allocated);
            assert(13 * start <= 10 * next);
            if rest >= 1 {
                let p13 = power(13, (rest - 1) as nat);
                let p10 = power(10, (rest - 1) as nat);
                lemma_power_positive(13, (rest - 1) as nat);
                assert(power(13, rest) == 13 * p13);
                assert(power(10, rest) == 10 * p10);
                assert((13 * p13) * start <= (10 * p10) * last) by (nonlinear_arith)
                    requires
                        0 < p13,
                        13 * start <= 10 * next_floor,
                        p13 * next_floor <= p10 * last,
                ;
            } else {
                assert(power(13, 0) == 1 && power(10, 0) == 1);
            }
        } else {
            let p13 = power(13, (count - 1) as nat);
            lemma_power_positive(13, (count - 1) as nat);
            assert(p13 * floor <= p13 * next_floor) by (nonlinear_arith)
                requires
                    0 < p13,
                    floor <= next_floor,
            ;
        }
    }
}

/// The buffer policy over any sequence of required widths: at every step
/// of the sequence the buffer gets narrower only when the required width
/// has dropped below 60% of it, and whenever it is replaced the new width
/// is at least 130% of the width that was required at that step.
pub proof fn lemma_buffer_hysteresis(allocated: int, required: Seq<int>, i: int)
    requires
        0 <= allocated,
        0 <= i < required.len(),
        forall|k: int| 0 <= k < required.len() ==> 0 <= #[trigger] required[k],
    ensures
        ({
            let before = buffer_after(allocated, required.take(i));
            let after = buffer_after(allocated, required.take(i + 1));
            &&& 0 <= before
            &&& after == buffer_step(before, required[i])
            &&& after < before ==> 10 * required[i] < 6 * before
            &&& reallocates(before, required[i]) ==> 13 * required[i] <= 10 * after
            &&& !reallocates(before, required[i]) ==> after == before
        }),
{
    assert(required.take(i + 1).drop_last() =~= required.take(i));
    lemma_buffer_after_nonneg(allocated, required.take(i));
    lemma_buffer_step(buffer_after(allocated, required.take(i)), required[i]);
}

/// No sequence of required widths leads to a negative buffer width.
pub proof fn lemma_buffer_after_nonneg(allocated: int, required: Seq<int>)
    requires
        0 <= allocated,
        forall|k: int| 0 <= k < required.len() ==> 0 <= #[trigger] required[k],
    ensures
        0 <= buffer_after(allocated, required),
    decreases required.len(),
{
    if required.len() > 0 {
        assert forall|k: int| 0 <= k < required.drop_last().len() implies 0
            <= #[trigger] required.drop_last()[k] by {
            assert(required.drop_last()[k] == required[k]);
        }
        lemma_buffer_after_nonneg(allocated, required.drop_last());
    }
}

} // verus!
