//! Incremental layout and redraw engine of a status bar.
//!
//! The bar hosts independently updating components in three slots. This
//! library tracks what every component currently shows, decides which part
//! of the bar has to be repainted when one of them changes, and says in what
//! order pending updates and window events are handled. It performs no
//! drawing itself: every decision comes back as a list of paint operations.

pub mod bar;
pub mod bar_builder;
pub mod component;
pub mod components;
pub mod error;
pub mod item_state;
pub mod layout;
pub mod merge;
pub mod paint;
pub mod redraw_laws;
pub mod string_component;

pub use bar::Bar;
pub use bar_builder::{BarBuilder, Geometry, Position, Rectangle};
pub use component::{ComponentIdentity, ComponentUpdate, Slot};
pub use error::Error;
pub use item_state::{Change, ItemState};
pub use merge::{FanIn, MergedItem, Polled};
pub use paint::PaintOp;
