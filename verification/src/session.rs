//! The drag-session state machine.
//!
//! Which endpoint, if any, the pointer is holding is an explicit finite
//! state, transitioned only by button press and release events that the
//! event-loop collaborator feeds in.

use vstd::prelude::*;
use crate::fx::{Fx, fxd};
use crate::point::{Pt, within, vsub, vdist_sq};
use crate::window::RULER_HALF_WIDTH;

verus! {

/// Length of the freshly placed segment, in pixels.
pub const INITIAL_LENGTH: i64 = 400;

/// The initial length in raw fixed-point units.
pub const INITIAL_LENGTH_RAW: i128 = 400 * 65536;

/// Where a session starts: the segment lies horizontally, centered on
/// the screen width and height, shifted by the ruler's half-width margin
/// (131072 is the fixed-point constant two).
pub open spec fn spec_initial_placement(screen: (int, int)) -> ((int, int), (int, int)) {
    let fx0 = fxd(screen.0 - INITIAL_LENGTH_RAW as int, 131072) + 2621440;
    let fy = fxd(screen.1, 131072) + 2621440;
    ((fx0, fy), (fx0 + INITIAL_LENGTH_RAW as int, fy))
}

/// The initial anchor and movable endpoints for a screen of the given
/// size: `(from, to)`.
pub fn initial_placement(screen: Pt) -> (r: (Pt, Pt))
    requires
        within(screen@, 0x4000_0000),  // 2^30
    ensures
        (r.0@, r.1@) == spec_initial_placement(screen@),
{
    let two = Fx::from_pixels(2);
    let margin = Fx::from_pixels(RULER_HALF_WIDTH);
    let length = Fx::from_pixels(INITIAL_LENGTH);
    let fx0 = screen.x.sub(length).div(two).add(margin);
    let fy = screen.y.div(two).add(margin);
    (Pt { x: fx0, y: fy }, Pt { x: fx0.add(length), y: fy })
}

/// Squared grab radius around an endpoint, raw: a press within 80 pixels
/// of an endpoint starts dragging it.
pub const GRAB_DISTANCE_SQ_RAW: i128 = 6400 * 65536;

/// The primary pointer button.
pub const PRIMARY_BUTTON: u8 = 1;

/// Which endpoint is being dragged: the segment's `from` end (the anchor
/// of the initial placement), its `to` end, or none.
#[derive(Clone, Copy, PartialEq, Eq, Structural, Debug)]
pub enum Dragging {
    Idle,
    AnchorEnd,
    OtherEnd,
}

/// The state after a button press at `cursor`: the primary button grabs
/// the endpoint whose grab disc contains the cursor, the `from` end
/// taking precedence; any other press leaves the state unchanged.
pub open spec fn spec_on_button_press(
    state: Dragging, detail: u8, cursor: (int, int), from: (int, int), to: (int, int),
) -> Dragging {
    if detail == PRIMARY_BUTTON {
        if vdist_sq(cursor, from) < GRAB_DISTANCE_SQ_RAW as int {
            Dragging::AnchorEnd
        } else if vdist_sq(cursor, to) < GRAB_DISTANCE_SQ_RAW as int {
            Dragging::OtherEnd
        } else {
            state
        }
    } else {
        state
    }
}

/// The state after a button release: releasing the primary button drops
/// any grab; other releases change nothing.
pub open spec fn spec_on_button_release(state: Dragging, detail: u8) -> Dragging {
    if detail == PRIMARY_BUTTON {
        Dragging::Idle
    } else {
        state
    }
}

pub fn on_button_press(state: Dragging, detail: u8, cursor: Pt, from: Pt, to: Pt) -> (r: Dragging)
    requires
        within(vsub(cursor@, from@), 0x8000_0000_0000_0000),
        within(vsub(cursor@, to@), 0x8000_0000_0000_0000),
    ensures
        r == spec_on_button_press(state, detail, cursor@, from@, to@),
{
    if detail == PRIMARY_BUTTON {
        if cursor.distance_squared(from).raw < GRAB_DISTANCE_SQ_RAW {
            Dragging::AnchorEnd
        } else if cursor.distance_squared(to).raw < GRAB_DISTANCE_SQ_RAW {
            Dragging::OtherEnd
        } else {
            state
        }
    } else {
        state
    }
}

pub fn on_button_release(state: Dragging, detail: u8) -> (r: Dragging)
    ensures
        r == spec_on_button_release(state, detail),
{
    if detail == PRIMARY_BUTTON {
        Dragging::Idle
    } else {
        state
    }
}

/// Minimum time between pointer-motion redraws, in milliseconds.
pub const UPDATE_INTERVAL_MS: u64 = 16;

/// Whether a pointer-motion update should reconfigure and redraw now:
/// when forced, or when more than the update interval has passed since
/// the last one.  Measuring the elapsed time and sending the requests
/// stay with the event-loop collaborator.
pub fn should_update(force: bool, elapsed_ms: u64) -> (r: bool)
    ensures
        r == (force || elapsed_ms > UPDATE_INTERVAL_MS),
{
    force || elapsed_ms > UPDATE_INTERVAL_MS
}

} // verus!
