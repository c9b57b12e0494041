//! A component that shows the title of the focused window.

use vstd::prelude::*;
use crate::error::Error;

verus! {

/// The window title component has nothing to configure.
pub struct WindowTitleConfig;

/// The atoms by which the window title component reads the focused window
/// and its name.
#[derive(Clone, Copy, Debug, PartialEq, Eq, Structural)]
pub struct WindowTitleState {
    pub active_window: u32,
    pub wm_name: u32,
}

impl WindowTitleState {
    /// The state of the component, given the two atoms as the window
    /// manager interned them. An atom of zero means that the window manager
    /// does not know the property: the component cannot work then.
    pub fn create(active_window: u32, wm_name: u32) -> (r: Result<WindowTitleState, Error>)
        ensures
            r == (if wm_name == 0 || active_window == 0 {
                Err::<WindowTitleState, Error>(Error::UnsupportedProperties)
            } else {
                Ok::<WindowTitleState, Error>(WindowTitleState { active_window, wm_name })
            }),
    {
        if wm_name == 0 || active_window == 0 {
            return Err(Error::UnsupportedProperties);
        }
        Ok(WindowTitleState { active_window, wm_name })
    }

    /// Whether a change of the property `property_atom` changes what the
    /// component shows: only the property that names the focused window
    /// does.
    pub fn concerns(&self, property_atom: u32) -> (r: bool)
        ensures
            r == (property_atom == self.active_window),
    {
        property_atom == self.active_window
    }

    /// What the component shows after the property `property_atom` changed,
    /// where `title` is the title of the focused window as far as it could
    /// be read: nothing new for another property, else the title, or the
    /// empty text if there is none.
    pub fn update(&self, property_atom: u32, title: Option<String>) -> (shown: Option<String>)
        ensures
            shown is Some <==> property_atom == self.active_window,
            shown is Some ==> shown->Some_0@ == (match title {
                Some(t) => t@,
                None => Seq::<char>::empty(),
            }),
    {
        if property_atom == self.active_window {
            match title {
                Some(t) => Some(t),
                None => Some(String::new()),
            }
        } else {
            None
        }
    }
}

} // verus!
