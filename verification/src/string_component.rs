//! Components whose content is one line of text.

use vstd::prelude::*;
use crate::paint::{text_baseline, text_offset};

verus! {

/// The state of a component that shows one line of text: the component's
/// own state, and the text it showed last.
pub struct StringComponentStateInfo<S> {
    pub state: S,
    pub current: String,
}

impl<S> StringComponentStateInfo<S> {
    /// The state of a component that has not shown anything yet.
    pub fn create(state: S) -> (info: StringComponentStateInfo<S>)
        ensures
            info.state == state,
            info.current@ == Seq::<char>::empty(),
    {
        StringComponentStateInfo { state, current: String::new() }
    }

    /// Takes what the component made of an update: a new text, which is
    /// kept, or nothing. Says whether there is a new text to show.
    pub fn update(&mut self, shown: Option<String>) -> (changed: bool)
        ensures
            changed == shown is Some,
            final(self).state == old(self).state,
            final(self).current@ == (match shown {
                Some(text) => text@,
                None => old(self).current@,
            }),
    {
        match shown {
            Some(text) => {
                self.current = text;
                true
            },
            None => false,
        }
    }

    /// The vertical offset at which the text is drawn on a bar of `height`
    /// pixels, in a font of the given size and with the given baseline of
    /// the laid-out text, both in 1024ths of a pixel.
    pub fn render(&self, height: u16, font_size: i32, baseline: i32) -> (y: i64)
        ensures
            y == text_offset(height, font_size, baseline),
    {
        text_baseline(height, font_size, baseline)
    }
}

} // verus!
