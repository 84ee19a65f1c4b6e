//! Window elements: a closed variant type over native toplevels and foreign
//! (X11-compatibility) surfaces, with one dispatch point per capability.
use vstd::prelude::*;

use crate::geometry::{box_contains, box_contains_point, FixedPoint, Point, Size};

verus! {

/// What the registry knows of one window.
#[derive(Clone, Copy, Debug, PartialEq, Eq, Structural)]
pub struct WindowData {
    /// Stable identity; also the id of the window's root surface.
    pub id: u64,
    /// The client that owns the window.
    pub client: u64,
    /// Current geometry size.
    pub size: Size,
    /// False once the protocol object behind the window was destroyed.
    pub alive: bool,
    /// Whether the window is drawn as the active one.
    pub activated: bool,
}

/// A window of the registry.
#[derive(Clone, Copy, Debug, PartialEq, Eq, Structural)]
pub enum WindowElement {
    /// A native shell toplevel.
    Xdg(WindowData),
    /// A foreign surface, such as an X11-compatibility window.
    X11(WindowData),
}

impl WindowElement {
    pub open spec fn data(self) -> WindowData {
        match self {
            WindowElement::Xdg(d) => d,
            WindowElement::X11(d) => d,
        }
    }

    /// The same variant carrying `d`.
    pub open spec fn with_data(self, d: WindowData) -> WindowElement {
        match self {
            WindowElement::Xdg(_) => WindowElement::Xdg(d),
            WindowElement::X11(_) => WindowElement::X11(d),
        }
    }

    /// The same window with its activation flag set to `a`.
    pub open spec fn activated_as(self, a: bool) -> WindowElement {
        self.with_data(WindowData { activated: a, ..self.data() })
    }

    pub fn data_of(&self) -> (r: WindowData)
        ensures
            r == self.data(),
    {
        match self {
            WindowElement::Xdg(d) => *d,
            WindowElement::X11(d) => *d,
        }
    }

    pub fn id(&self) -> (r: u64)
        ensures
            r == self.data().id,
    {
        self.data_of().id
    }

    pub fn is_x11(&self) -> (r: bool)
        ensures
            r == (self is X11),
    {
        matches!(self, WindowElement::X11(_))
    }

    pub fn is_wayland(&self) -> (r: bool)
        ensures
            r == (self is Xdg),
    {
        matches!(self, WindowElement::Xdg(_))
    }

    /// The id of the window's root surface.
    pub fn wl_surface(&self) -> (r: Option<u64>)
        ensures
            r == Some(self.data().id),
    {
        Some(self.data_of().id)
    }

    /// The surface under `location`, given relative to the window, with the
    /// surface's own location in the window.
    pub fn surface_under(&self, location: FixedPoint) -> (r: Option<(u64, Point)>)
        ensures
            r == (if box_contains(Point { x: 0, y: 0 }, self.data().size, location) {
                Some((self.data().id, Point { x: 0, y: 0 }))
            } else {
                None
            }),
    {
        let d = self.data_of();
        let origin = Point { x: 0, y: 0 };
        if box_contains_point(origin, d.size, location) {
            Some((d.id, origin))
        } else {
            None
        }
    }

    pub fn alive(&self) -> (r: bool)
        ensures
            r == self.data().alive,
    {
        self.data_of().alive
    }

    pub fn geometry(&self) -> (r: Size)
        ensures
            r == self.data().size,
    {
        self.data_of().size
    }

    pub fn set_activate(&mut self, activated: bool)
        ensures
            *final(self) == old(self).activated_as(activated),
    {
        match self {
            WindowElement::Xdg(d) => d.activated = activated,
            WindowElement::X11(d) => d.activated = activated,
        }
    }
}

} // verus!
