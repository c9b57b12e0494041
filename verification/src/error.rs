//! Errors of the bar.

use vstd::prelude::*;

verus! {

/// What went wrong while laying out or rendering the bar.
#[derive(Clone, Copy, Debug, PartialEq, Eq, Structural)]
pub enum Error {
    /// The windowing system answered a request with the given error code.
    XcbGenericError(u8),
    /// A component could not be updated or rendered: its buffer cannot be
    /// allocated, or its content cannot be placed on the bar.
    ItemError,
    /// The network interface that a component is to watch does not exist.
    NoSuchInterface,
    /// The window manager lacks a property that a component relies on.
    UnsupportedProperties,
    /// The geometry asked for puts the bar off the screen.
    BarOffScreen,
    /// The bar is too small to lay out its components.
    BarTooSmall,
}

impl Error {
    /// The error for a failed request to the windowing system.
    pub fn from(err: u8) -> (e: Error)
        ensures
            e == Error::XcbGenericError(err),
    {
        Error::XcbGenericError(err)
    }

    /// A short description of the error.
    pub fn description(&self) -> (s: &'static str)
        ensures
            s@ == (match *self {
                Error::XcbGenericError(_) => "xcb error"@,
                Error::ItemError => "item error"@,
                Error::NoSuchInterface => "No such network interface"@,
                Error::UnsupportedProperties => "The required EWMH properties are not supported."@,
                Error::BarOffScreen => "The bar does not fit on the screen"@,
                Error::BarTooSmall => "The bar is too small for its components"@,
            }),
    {
        match *self {
            Error::XcbGenericError(_) => "xcb error",
            Error::ItemError => "item error",
            Error::NoSuchInterface => "No such network interface",
            Error::UnsupportedProperties => "The required EWMH properties are not supported.",
            Error::BarOffScreen => "The bar does not fit on the screen",
            Error::BarTooSmall => "The bar is too small for its components",
        }
    }
}

} // verus!
