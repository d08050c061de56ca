//! Interactive selection of a screen rectangle by three clicks.
//!
//! The library holds the decisions: clamping pointer positions to the
//! screen, the click-counting state machine that records the two corners,
//! and the plan of drawing primitives for the overlay, with its resource
//! pairing. Listening to global input and drawing on the desktop are done
//! by the caller, which feeds events in and performs the planned steps.
pub mod geometry;
pub mod overlay;
pub mod selection;
pub mod modes;
