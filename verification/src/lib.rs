//! Geometry core of an on-screen measuring ruler.
//!
//! A ruler is a two-endpoint segment overlaid on a display.  Dragging an
//! endpoint is subject to simultaneous constraints: an optional distance
//! lock, an optional angle lock, a minimum segment length, and a final
//! componentwise clamp to the visible screen.  The routines here resolve a
//! raw cursor position into a constrained endpoint and derive the
//! margin-expanded bounding rectangle of the segment for window placement.
//!
//! Coordinates are fixed-point numbers: an [`fx::Fx`] holds a screen
//! coordinate scaled by 2^16, so that every computation is exact integer
//! arithmetic with truncating division and floor square roots, and every
//! result is pinned down by a contract.

pub mod fx;
pub mod point;
pub mod geom;
pub mod drag;
pub mod window;
pub mod session;
pub mod versions;
