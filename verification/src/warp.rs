//! Warp configuration policy: which reference-line set a warp run uses.
//!
//! A warp is defined by an ordered set of reference lines.  The policy on
//! the number of lines supplied on the command line is: zero lines fall
//! back to a built-in pair of orthogonal axis lines through the origin,
//! exactly one line is a configuration error, and two or more lines are
//! used as given (the first supplied line is the anchor).

use vstd::prelude::*;

verus! {

/// A 3D coordinate triple with exact integer components, used for the
/// built-in default reference lines (whose coordinates are all 0 or 1).
#[derive(Clone, Copy, PartialEq, Eq, Structural, Debug)]
pub struct IntVec3 {
    pub x: i32,
    pub y: i32,
    pub z: i32,
}

/// A directed reference line given by an origin point and a heading point;
/// the direction is heading minus origin.
#[derive(Clone, Copy, PartialEq, Eq, Structural, Debug)]
pub struct AxisLine {
    pub origin: IntVec3,
    pub heading: IntVec3,
}

/// What a warp run does with the reference lines supplied to it.
#[derive(Clone, Copy, PartialEq, Eq, Structural, Debug)]
pub enum WarpPlan {
    /// No lines were supplied: use the built-in default pair.
    UseDefault,
    /// Exactly one line was supplied: a configuration error; the run must
    /// report it and process no input.
    RejectSingle,
    /// Two or more lines were supplied: use them as given.
    UseGiven,
}

/// Decides the reference-line configuration from the number of lines
/// supplied: zero selects the default pair, one is rejected as a
/// configuration error (a warp needs at least two lines), two or more are
/// used as given.
pub fn plan_warp(line_count: usize) -> (r: WarpPlan)
    ensures
        line_count == 0 ==> r == WarpPlan::UseDefault,
        line_count == 1 ==> r == WarpPlan::RejectSingle,
        line_count >= 2 ==> r == WarpPlan::UseGiven,
{
    if line_count == 0 {
        WarpPlan::UseDefault
    } else if line_count == 1 {
        WarpPlan::RejectSingle
    } else {
        WarpPlan::UseGiven
    }
}

/// The built-in default reference set: the x axis followed by the z axis,
/// both through the origin.  The first line is the anchor.
pub fn default_warp_lines() -> (r: Vec<AxisLine>)
    ensures
        r@.len() == 2,
        r@[0] == (AxisLine {
            origin: IntVec3 { x: 0, y: 0, z: 0 },
            heading: IntVec3 { x: 1, y: 0, z: 0 },
        }),
        r@[1] == (AxisLine {
            origin: IntVec3 { x: 0, y: 0, z: 0 },
            heading: IntVec3 { x: 0, y: 0, z: 1 },
        }),
{
    let mut r: Vec<AxisLine> = Vec::new();
    r.push(AxisLine {
        origin: IntVec3 { x: 0, y: 0, z: 0 },
        heading: IntVec3 { x: 1, y: 0, z: 0 },
    });
    r.push(AxisLine {
        origin: IntVec3 { x: 0, y: 0, z: 0 },
        heading: IntVec3 { x: 0, y: 0, z: 1 },
    });
    r
}

} // verus!
