//! What is known of one module: where it sits and how its contact point
//! moves.
use vstd::prelude::*;

verus! {

/// Where a module touches the ground: its offset from the centre of rotation
/// in micrometres, in the robot's frame.
#[derive(Clone, Copy, Debug, PartialEq, Eq, Structural)]
pub struct ModuleOffset {
    pub x: i32,
    pub y: i32,
}

/// The velocity of one module's contact point in micrometres per second, in
/// the robot's frame: its speed projected on the two axes along its heading.
#[derive(Clone, Copy, Debug, PartialEq, Eq, Structural)]
pub struct ModuleVelocity {
    pub vx: i32,
    pub vy: i32,
}

} // verus!
