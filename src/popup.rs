use vstd::prelude::*;

use crate::alive_tracker::AliveTracker;
use crate::geometry::{Point, Rectangle};
use crate::object::ObjectKey;

verus! {

/// Per-object data of a popup role object: the liveness of the role itself,
/// which its destruction hook clears.
#[derive(Debug)]
pub struct InputMethodPopupSurfaceUserData {
    pub alive_tracker: AliveTracker,
}

impl InputMethodPopupSurfaceUserData {
    pub fn new() -> (r: InputMethodPopupSurfaceUserData)
        ensures
            r.alive_tracker@,
    {
        InputMethodPopupSurfaceUserData { alive_tracker: AliveTracker::new() }
    }
}

/// The input method's candidate-window surface, anchored to a text cursor.
///
/// `rectangle` is the text cursor in physical pixels, relative to the parent
/// surface; `parent_location` is where the parent surface stands, in logical
/// pixels.
#[derive(Clone, Copy, Debug)]
pub struct PopupSurface {
    /// The popup role object.
    pub surface_role: ObjectKey,
    surface: ObjectKey,
    parent: ObjectKey,
    /// Position and size of the text cursor, used to place the popup.
    pub rectangle: Rectangle,
    parent_location: Rectangle,
}

/// Two popup surfaces are equal iff they have the same role object.
impl PartialEq for PopupSurface {
    fn eq(&self, other: &PopupSurface) -> (r: bool) {
        self.surface_role == other.surface_role
    }
}

impl vstd::std_specs::cmp::PartialEqSpecImpl for PopupSurface {
    open spec fn obeys_eq_spec() -> bool {
        true
    }

    closed spec fn eq_spec(&self, other: &PopupSurface) -> bool {
        self.surface_role == other.surface_role
    }
}

/// The geometry event that a popup role object is to be sent.
#[derive(Clone, Copy, Debug, PartialEq, Eq, Structural)]
pub struct GeometryUpdate {
    /// The popup role object that receives the event.
    pub role: ObjectKey,
    /// The text cursor rectangle it carries.
    pub rectangle: Rectangle,
}

/// Whether the placement of a popup for cursor rectangle `r` fits in `i32`.
pub open spec fn location_fits(r: Rectangle) -> bool {
    i32::MIN <= r.loc.x - r.size.w <= i32::MAX && i32::MIN <= r.loc.y + r.size.h <= i32::MAX
}

/// Where a popup stands for cursor rectangle `r`: moved left by the cursor's
/// width and placed just below it.
pub open spec fn popup_location(r: Rectangle) -> (int, int) {
    (r.loc.x - r.size.w, r.loc.y + r.size.h)
}

impl PopupSurface {
    pub closed spec fn spec_role(&self) -> ObjectKey {
        self.surface_role
    }

    pub closed spec fn spec_rectangle(&self) -> Rectangle {
        self.rectangle
    }

    pub closed spec fn spec_surface(&self) -> ObjectKey {
        self.surface
    }

    pub closed spec fn spec_parent(&self) -> ObjectKey {
        self.parent
    }

    pub closed spec fn spec_parent_location(&self) -> Rectangle {
        self.parent_location
    }

    /// Whether the popup is alive, given whether its surface is alive and the
    /// data of its role object.
    pub open spec fn spec_alive(
        surface_alive: bool,
        role_data: InputMethodPopupSurfaceUserData,
    ) -> bool {
        surface_alive && role_data.alive_tracker@
    }

    pub fn new(
        surface_role: ObjectKey,
        surface: ObjectKey,
        parent: ObjectKey,
        rectangle: Rectangle,
        parent_location: Rectangle,
    ) -> (r: PopupSurface)
        ensures
            r.spec_role() == surface_role,
            r.spec_surface() == surface,
            r.spec_parent() == parent,
            r.spec_rectangle() == rectangle,
            r.spec_parent_location() == parent_location,
    {
        PopupSurface { surface_role, surface, parent, rectangle, parent_location }
    }

    /// Is the popup referred to by this handle still alive? `surface_alive`
    /// is the liveness of its surface, `role_data` the data of its role object.
    pub fn alive(&self, surface_alive: bool, role_data: &InputMethodPopupSurfaceUserData) -> (r:
        bool)
        ensures
            r == PopupSurface::spec_alive(surface_alive, *role_data),
    {
        surface_alive && role_data.alive_tracker.alive()
    }

    /// The popup's own surface.
    pub fn wl_surface(&self) -> (r: ObjectKey)
        ensures
            r == self.spec_surface(),
    {
        self.surface
    }

    /// The surface the popup is anchored to.
    pub fn get_parent_surface(&self) -> (r: ObjectKey)
        ensures
            r == self.spec_parent(),
    {
        self.parent
    }

    /// Where the parent surface stands.
    pub fn parent_location(&self) -> (r: Rectangle)
        ensures
            r == self.spec_parent_location(),
    {
        self.parent_location
    }

    /// The location of the popup relative to its parent.
    pub fn location(&self) -> (r: Point)
        requires
            location_fits(self.spec_rectangle()),
        ensures
            (r.x as int, r.y as int) == popup_location(self.spec_rectangle()),
    {
        Point::new(
            self.rectangle.loc.x - self.rectangle.size.w,
            self.rectangle.loc.y + self.rectangle.size.h,
        )
    }

    /// Sets the text cursor rectangle, and returns the event that carries it
    /// to the role object; that event is to be sent at once.
    pub fn set_rectangle(&mut self, x: i32, y: i32, width: i32, height: i32) -> (sent:
        GeometryUpdate)
        ensures
            final(self).spec_rectangle() == Rectangle::spec_from(x, y, width, height),
            final(self).spec_role() == old(self).spec_role(),
            final(self).spec_surface() == old(self).spec_surface(),
            final(self).spec_parent() == old(self).spec_parent(),
            final(self).spec_parent_location() == old(self).spec_parent_location(),
            sent == (GeometryUpdate {
                role: old(self).spec_role(),
                rectangle: Rectangle::spec_from(x, y, width, height),
            }),
    {
        self.rectangle = Rectangle::from_loc_and_size(x, y, width, height);
        GeometryUpdate { role: self.surface_role, rectangle: self.rectangle }
    }
}

/// The popup of an input method session, if it has one, and the last known
/// text cursor rectangle.
#[derive(Clone, Debug)]
pub struct PopupHandle {
    pub surface: Option<PopupSurface>,
    pub rectangle: Rectangle,
}

impl Default for PopupHandle {
    fn default() -> (r: PopupHandle)
        ensures
            r.surface.is_none(),
            r.rectangle == Rectangle::spec_from(0, 0, 0, 0),
    {
        PopupHandle { surface: None, rectangle: Rectangle::zero() }
    }
}

/// A popup is alive iff its surface is alive and its role object has not been
/// destroyed: destroying either one makes it dead.
pub proof fn lemma_popup_alive_iff_both(
    surface_alive: bool,
    role_data: InputMethodPopupSurfaceUserData,
)
    ensures
        PopupSurface::spec_alive(surface_alive, role_data) <==> (surface_alive
            && role_data.alive_tracker@),
        !surface_alive ==> !PopupSurface::spec_alive(surface_alive, role_data),
        !role_data.alive_tracker@ ==> !PopupSurface::spec_alive(surface_alive, role_data),
{
}

} // verus!
