//! Server-side relay between per-client text-input objects and the seat-wide
//! input method: focus bookkeeping, the commit/done serial handshake, and the
//! placement of the input method's popup surface.

pub mod alive_tracker;
pub mod geometry;
pub mod object;
pub mod popup;
pub mod text_input;

pub use alive_tracker::AliveTracker;
pub use geometry::{Point, Rectangle, Size};
pub use object::ObjectKey;
pub use popup::{GeometryUpdate, InputMethodPopupSurfaceUserData, PopupHandle, PopupSurface};
pub use text_input::{
    Enumerant, Instance, RelayAction, TextInputError, TextInputHandle, TextInputRequest,
    TextInputState,
};
