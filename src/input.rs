//! Normalised input events as the dispatcher receives them, and the scroll
//! frame that an axis event becomes.
use vstd::prelude::*;

use crate::geometry::FixedPoint;

verus! {

/// Scroll steps of a discrete axis event count this many logical units each
/// when no continuous amount is reported.
pub const DISCRETE_SCROLL_STEP: i64 = 3;

/// Where a scroll comes from.
#[derive(Clone, Copy, Debug, PartialEq, Eq, Structural)]
pub enum AxisSource {
    Wheel,
    Finger,
    Continuous,
    WheelTilt,
}

/// What an axis event reports on one axis: a continuous amount in 1/256
/// logical units, and a number of discrete steps.
#[derive(Clone, Copy, Debug, PartialEq, Eq, Structural)]
pub struct AxisAmount {
    pub continuous: Option<i32>,
    pub discrete: Option<i32>,
}

/// One axis of a scroll frame.
#[derive(Clone, Copy, Debug, PartialEq, Eq, Structural)]
pub struct AxisValue {
    /// Scroll amount in 1/256 logical units.
    pub value: Option<i64>,
    pub discrete: Option<i32>,
    /// The gesture on this axis ended.
    pub stop: bool,
}

/// The scroll frame sent to the focused client.
#[derive(Clone, Copy, Debug, PartialEq, Eq, Structural)]
pub struct AxisFrame {
    pub source: AxisSource,
    pub time: u32,
    pub horizontal: AxisValue,
    pub vertical: AxisValue,
}

/// An axis event reports an amount on this axis, continuous or discrete.
pub open spec fn axis_reported(a: AxisAmount) -> bool {
    a.continuous is Some || a.discrete is Some
}

/// The scroll amount: the continuous one if reported, else the discrete
/// steps times the step size, in 1/256 logical units.
pub open spec fn axis_amount(a: AxisAmount) -> int {
    match a.continuous {
        Some(v) => v as int,
        None => a.discrete->0 * 3 * 256,
    }
}

/// A non-zero amount is sent with its discrete steps; a zero amount from a
/// finger ends the gesture on that axis; otherwise the axis is left out.
pub open spec fn axis_value_spec(a: AxisAmount, source: AxisSource) -> AxisValue {
    if axis_amount(a) != 0 {
        AxisValue { value: Some(axis_amount(a) as i64), discrete: a.discrete, stop: false }
    } else {
        AxisValue { value: None, discrete: None, stop: source == AxisSource::Finger }
    }
}

pub open spec fn axis_frame_spec(
    source: AxisSource,
    time: u32,
    horizontal: AxisAmount,
    vertical: AxisAmount,
) -> AxisFrame {
    AxisFrame {
        source,
        time,
        horizontal: axis_value_spec(horizontal, source),
        vertical: axis_value_spec(vertical, source),
    }
}

fn axis_value(a: AxisAmount, source: AxisSource) -> (r: AxisValue)
    requires
        axis_reported(a),
    ensures
        r == axis_value_spec(a, source),
{
    let amount: i64 = match a.continuous {
        Some(v) => v as i64,
        None => match a.discrete {
            Some(d) => d as i64 * DISCRETE_SCROLL_STEP * 256,
            None => 0,
        },
    };
    if amount != 0 {
        AxisValue { value: Some(amount), discrete: a.discrete, stop: false }
    } else {
        AxisValue { value: None, discrete: None, stop: matches!(source, AxisSource::Finger) }
    }
}

/// Builds the scroll frame of an axis event.
pub fn axis_frame(source: AxisSource, time: u32, horizontal: AxisAmount, vertical: AxisAmount) -> (r:
    AxisFrame)
    requires
        axis_reported(horizontal),
        axis_reported(vertical),
    ensures
        r == axis_frame_spec(source, time, horizontal, vertical),
{
    AxisFrame {
        source,
        time,
        horizontal: axis_value(horizontal, source),
        vertical: axis_value(vertical, source),
    }
}

/// A finger scroll that reports no vertical movement ends the vertical
/// gesture, whatever the horizontal axis reports; the same event from a wheel
/// sends no stop.
pub proof fn lemma_finger_stop(time: u32, horizontal: AxisAmount)
    ensures
        axis_frame_spec(
            AxisSource::Finger,
            time,
            horizontal,
            AxisAmount { continuous: None, discrete: Some(0) },
        ).vertical.stop,
        !axis_frame_spec(
            AxisSource::Wheel,
            time,
            horizontal,
            AxisAmount { continuous: None, discrete: Some(0) },
        ).vertical.stop,
{
}

/// An input event from the backend, already normalised.
#[derive(Clone, Copy, Debug, PartialEq, Eq, Structural)]
pub enum InputEvent {
    Keyboard { key: u32, pressed: bool, serial: u32, time: u32 },
    /// Relative pointer motion; not handled.
    PointerMotion,
    /// Absolute pointer motion, as a position within the active output.
    PointerMotionAbsolute { position: FixedPoint, serial: u32, time: u32 },
    PointerButton { button: u32, pressed: bool, serial: u32, time: u32 },
    PointerAxis { source: AxisSource, horizontal: AxisAmount, vertical: AxisAmount, time: u32 },
    /// Anything else; not handled.
    Other,
}

} // verus!
