use vstd::prelude::*;

pub mod color;
pub mod display;
pub mod drivers;
pub mod geometry;

verus! {

/// The fixed set of failure kinds a display operation can surface.
#[derive(Clone, Copy, Debug, PartialEq, Eq, Structural)]
pub enum Error {
    /// A digital signal line (command/data select, reset, backlight) failed to switch.
    GPIO,
    /// The serial bus failed to transmit.
    SPI,
    /// A draw rectangle with no computable bottom-right corner was requested.
    InvalidBoundingBox,
    /// A delay source failed (reserved; not produced by current logic).
    Delay,
}

/// Panel orientation, fixed at construction; selects the memory-access-direction
/// bits written once during initialization.
#[derive(Clone, Copy, Debug, PartialEq, Eq, Structural)]
pub enum Orientation {
    Portrait,
    Landscape,
    PortraitReverse,
    LandscapeReverse,
}

} // verus!
