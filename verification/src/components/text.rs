//! A component that shows a fixed text.

use vstd::prelude::*;

verus! {

/// A fixed text.
pub struct Text {
    pub text: String,
}

impl Text {
    /// What the component shows, whatever happens: its text.
    pub fn update(&self) -> (shown: Option<String>)
        ensures
            shown is Some,
            shown->Some_0@ == self.text@,
    {
        Some(self.text.clone())
    }
}

} // verus!
