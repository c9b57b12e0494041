//! Where the bar sits on the screen.

use vstd::prelude::*;
use crate::bar::Bar;
use crate::component::{
    ComponentIdentity, Slot, assign_identities, count_slots, identity_of, slot_count,
};
use crate::error::Error;
use crate::layout::{BarView, can_host, fresh_bar};
use crate::redraw_laws::lemma_fresh_bar_hosts;

verus! {

/// A rectangle on the screen, in pixels.
#[derive(Clone, Copy, Debug, PartialEq, Eq, Structural)]
pub struct Rectangle {
    pub x: i16,
    pub y: i16,
    pub width: u16,
    pub height: u16,
}

impl Rectangle {
    /// The rectangle with the given corner and size.
    pub fn new(x: i16, y: i16, width: u16, height: u16) -> (r: Rectangle)
        ensures
            r == (Rectangle { x, y, width, height }),
    {
        Rectangle { x, y, width, height }
    }
}

/// Bar position relative to the screen.
#[derive(Clone, Copy, Debug, PartialEq, Eq, Structural)]
pub enum Position {
    Top,
    Bottom,
}

/// Bar geometry.
#[derive(Clone, Copy, Debug, PartialEq, Eq, Structural)]
pub enum Geometry {
    /// The bar's rectangle in absolute coordinates.
    Absolute(Rectangle),
    /// The bar's rectangle relative to the screen.
    Relative {
        /// The edge of the screen the bar sits at.
        position: Position,
        /// The bar's height in pixels.
        height: u16,
        /// Space between the bar and the left and the right edge of the
        /// screen, in pixels.
        padding_x: u16,
        /// Space between the bar and the top or bottom edge of the screen,
        /// in pixels.
        padding_y: u16,
    },
}

impl Default for Geometry {
    /// A bar of 20 pixels at the top of the screen, from edge to edge.
    fn default() -> (geometry: Geometry)
        ensures
            geometry == (Geometry::Relative {
                position: Position::Top,
                height: 20,
                padding_x: 0,
                padding_y: 0,
            }),
    {
        Geometry::Relative { position: Position::Top, height: 20, padding_y: 0, padding_x: 0 }
    }
}

/// The distance of a relative bar's top edge from the top of its screen.
pub open spec fn relative_top(position: Position, screen_height: int, height: int, padding_y: int)
    -> int {
    match position {
        Position::Top => padding_y,
        Position::Bottom => screen_height - height - padding_y,
    }
}

/// Whether a bar of the given geometry can be placed on `screen`: an
/// absolute one always, a relative one if it lies on the screen and its
/// corner within the coordinate range.
pub open spec fn geometry_fits(screen: Rectangle, geometry: Geometry) -> bool {
    match geometry {
        Geometry::Absolute(_) => true,
        Geometry::Relative { position, height, padding_x, padding_y } => {
            let top = relative_top(position, screen.height as int, height as int, padding_y as int);
            &&& 2 * padding_x <= screen.width
            &&& screen.x + padding_x <= i16::MAX
            &&& 0 <= top
            &&& screen.y + top <= i16::MAX
        },
    }
}

/// The rectangle of a bar of the given geometry on `screen`.
pub open spec fn placed(screen: Rectangle, geometry: Geometry) -> Rectangle {
    match geometry {
        Geometry::Absolute(rect) => rect,
        Geometry::Relative { position, height, padding_x, padding_y } => Rectangle {
            x: (screen.x + padding_x) as i16,
            y: (screen.y + relative_top(
                position,
                screen.height as int,
                height as int,
                padding_y as int,
            )) as i16,
            width: (screen.width - 2 * padding_x) as u16,
            height,
        },
    }
}

/// Calculates the rectangle of the bar on the screen, given the geometry
/// asked for and the rectangle of the screen. There is none if the bar does
/// not fit.
pub fn calculate_geometry(screen: &Rectangle, geometry: &Geometry) -> (r: Option<Rectangle>)
    ensures
        r is Some <==> geometry_fits(*screen, *geometry),
        r is Some ==> r == Some(placed(*screen, *geometry)),
{
    match *geometry {
        Geometry::Absolute(rect) => Some(rect),
        Geometry::Relative { position, height, padding_x, padding_y } => {
            let screen_x: i32 = screen.x as i32;
            let screen_y: i32 = screen.y as i32;
            let screen_w: i32 = screen.width as i32;
            let screen_h: i32 = screen.height as i32;
            let pad_x: i32 = padding_x as i32;
            let pad_y: i32 = padding_y as i32;
            let top: i32 = match position {
                Position::Top => pad_y,
                Position::Bottom => screen_h - height as i32 - pad_y,
            };
            if 2 * pad_x > screen_w || screen_x + pad_x > 32767 || top < 0 || screen_y + top
                > 32767 {
                return None;
            }
            Some(
                Rectangle {
                    x: (screen_x + pad_x) as i16,
                    y: (screen_y + top) as i16,
                    width: (screen_w - 2 * pad_x) as u16,
                    height,
                },
            )
        },
    }
}

/// What the windowing system reports of one display controller.
pub struct CrtcInfo {
    /// The part of the screen the controller shows.
    pub area: Rectangle,
    /// The number of outputs the controller drives.
    pub num_outputs: u16,
    /// The name of the first of these outputs; empty if there is none or
    /// its name is not known.
    pub output_name: String,
}

/// Whether `crtc` shows something on an output called `name`.
pub open spec fn drives(crtc: CrtcInfo, name: Seq<char>) -> bool {
    crtc.area.width != 0 && crtc.num_outputs != 0 && crtc.output_name@ == name
}

/// The screen area of the output called `name`: that of the first display
/// controller that shows something on an output of that name, if there is
/// one.
pub fn get_screen_info(crtcs: &Vec<CrtcInfo>, name: &String) -> (r: Option<Rectangle>)
    ensures
        r is None <==> forall|i: int| 0 <= i < crtcs@.len() ==> !drives(#[trigger] crtcs@[i], name@),
        r is Some ==> exists|i: int|
            0 <= i < crtcs@.len() && drives(#[trigger] crtcs@[i], name@) && r == Some(
                crtcs@[i].area,
            ) && forall|j: int| 0 <= j < i ==> !drives(#[trigger] crtcs@[j], name@),
{
    let mut i: usize = 0;
    while i < crtcs.len()
        invariant
            i <= crtcs@.len(),
            forall|j: int| 0 <= j < i ==> !drives(#[trigger] crtcs@[j], name@),
        decreases crtcs@.len() - i,
    {
        let crtc = &crtcs[i];
        if crtc.area.width != 0 && crtc.num_outputs != 0 && crtc.output_name == *name {
            return Some(crtc.area);
        }
        i += 1;
    }
    None
}

/// What a bar is built from, as far as its layout goes: where it sits,
/// and which slot each of its components is in.
pub struct BarBuilder {
    /// The name of the output the bar is shown on; the primary one if there
    /// is none.
    pub output: Option<String>,
    /// The title of the bar's window.
    pub window_title: String,
    /// The bar's position and size.
    pub geometry: Geometry,
    /// The name of the font.
    pub font_name: String,
    /// The slot of every component, in registration order.
    pub items: Vec<Slot>,
    /// The space kept free at the left and right end of the bar.
    pub inner_padding: u16,
}

impl BarBuilder {
    /// A builder with default properties: the primary output, the window
    /// title `xcbars`, the default geometry, no font, no components and no
    /// inner padding.
    pub fn new() -> (b: BarBuilder)
        ensures
            b.output is None,
            b.window_title@ == "xcbars"@,
            b.geometry == (Geometry::Relative {
                position: Position::Top,
                height: 20,
                padding_x: 0,
                padding_y: 0,
            }),
            b.font_name@ == Seq::<char>::empty(),
            b.items@ == Seq::<Slot>::empty(),
            b.inner_padding == 0,
    {
        BarBuilder {
            output: None,
            window_title: "xcbars".to_string(),
            geometry: Geometry::default(),
            font_name: String::new(),
            items: Vec::new(),
            inner_padding: 0,
        }
    }

    /// Adds a component to the bar into the specified slot.
    pub fn add_component(self, slot: Slot) -> (b: BarBuilder)
        ensures
            b.items@ == self.items@.push(slot),
            b.output == self.output,
            b.window_title == self.window_title,
            b.geometry == self.geometry,
            b.font_name == self.font_name,
            b.inner_padding == self.inner_padding,
    {
        let mut b = self;
        b.items.push(slot);
        b
    }

    /// Sets the output the bar is to be shown on.
    pub fn output(self, output: &str) -> (b: BarBuilder)
        ensures
            b.output is Some,
            b.output->Some_0@ == output@,
            b.window_title == self.window_title,
            b.geometry == self.geometry,
            b.font_name == self.font_name,
            b.items == self.items,
            b.inner_padding == self.inner_padding,
    {
        let mut b = self;
        b.output = Some(output.to_string());
        b
    }

    /// Sets the bar's position and size.
    pub fn geometry(self, geometry: Geometry) -> (b: BarBuilder)
        ensures
            b == (BarBuilder { geometry, ..self }),
    {
        let mut b = self;
        b.geometry = geometry;
        b
    }

    /// Sets the inner padding at the left and right end of the bar.
    pub fn inner_padding(self, inner_padding: u16) -> (b: BarBuilder)
        ensures
            b == (BarBuilder { inner_padding, ..self }),
    {
        let mut b = self;
        b.inner_padding = inner_padding;
        b
    }

    /// Sets the font.
    pub fn font(self, font: &str) -> (b: BarBuilder)
        ensures
            b.font_name@ == font@,
            b.output == self.output,
            b.window_title == self.window_title,
            b.geometry == self.geometry,
            b.items == self.items,
            b.inner_padding == self.inner_padding,
    {
        let mut b = self;
        b.font_name = font.to_string();
        b
    }

    /// Sets the title of the window.
    pub fn window_title(self, window_title: String) -> (b: BarBuilder)
        ensures
            b == (BarBuilder { window_title, ..self }),
    {
        let mut b = self;
        b.window_title = window_title;
        b
    }

    /// Whether the bar can be built on `screen`: it must lie on the screen,
    /// and be able to host its components.
    pub open spec fn can_build(self, screen: Rectangle) -> bool {
        &&& geometry_fits(screen, self.geometry)
        &&& can_host(
            placed(screen, self.geometry).width,
            self.inner_padding,
            slot_count(self.items@, Slot::Left) as int,
            slot_count(self.items@, Slot::Center) as int,
            slot_count(self.items@, Slot::Right) as int,
        )
    }

    /// The bar that is built on `screen`: placed as the geometry says, with
    /// a fresh item for every component.
    pub open spec fn built(self, screen: Rectangle) -> BarView {
        fresh_bar(
            placed(screen, self.geometry),
            self.inner_padding,
            slot_count(self.items@, Slot::Left) as int,
            slot_count(self.items@, Slot::Center) as int,
            slot_count(self.items@, Slot::Right) as int,
        )
    }

    /// Builds the bar on `screen`, the area of the output it is shown on,
    /// and gives every component its identity, in registration order.
    pub fn build(self, screen: &Rectangle) -> (r: Result<(Bar, Vec<ComponentIdentity>), Error>)
        ensures
            r is Ok <==> self.can_build(*screen),
            r is Ok ==> {
                let bar = r->Ok_0.0;
                let ids = r->Ok_0.1;
                &&& bar@.wf()
                &&& bar@ == self.built(*screen)
                &&& ids@.len() == self.items@.len()
                &&& forall|k: int|
                    0 <= k < ids@.len() ==> #[trigger] ids@[k] == identity_of(self.items@, k)
                &&& forall|k: int|
                    0 <= k < ids@.len() ==> bar@.has_component(
                        (#[trigger] ids@[k]).slot,
                        ids@[k].index as int,
                        ids@[k].id as int,
                    )
            },
            r is Err ==> r->Err_0 == (if geometry_fits(*screen, self.geometry) {
                Error::BarTooSmall
            } else {
                Error::BarOffScreen
            }),
    {
        let geometry = match calculate_geometry(screen, &self.geometry) {
            Some(geometry) => geometry,
            None => {
                return Err(Error::BarOffScreen);
            },
        };
        let (left, center, right) = count_slots(&self.items);
        let bar = match Bar::new(geometry, self.inner_padding, left, center, right) {
            Some(bar) => bar,
            None => {
                return Err(Error::BarTooSmall);
            },
        };
        let count: usize = self.items.len();
        let ids = assign_identities(&self.items);
        proof {
            assert(ids@.len() == count);
            assert forall|k: int| 0 <= k < ids@.len() implies bar@.has_component(
                (#[trigger] ids@[k]).slot,
                ids@[k].index as int,
                ids@[k].id as int,
            ) by {
                lemma_fresh_bar_hosts(self.items@, k, geometry, self.inner_padding);
            }
        }
        Ok((bar, ids))
    }
}

} // verus!
