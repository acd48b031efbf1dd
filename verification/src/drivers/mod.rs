//! The pluggable panel-driver abstraction. A driver owns the panel-specific
//! command encoding, the power-on initialization sequence, the
//! addressable-window geometry and the color serialization, and emits
//! everything through a peripheral capability interface.

use vstd::prelude::*;
use crate::display::{aborted_within, BusEvent, DisplayInterface};
use crate::geometry::Rectangle;
use crate::Error;

pub mod st7789;

verus! {

/// A panel driver. The `spec fn` members give the driver's fixed geometry
/// and the exact event sequences its operations put on the wire; the
/// executable operations are proved against them, so the canvas's contracts
/// hold for any driver that satisfies this trait.
pub trait DisplayDriver: Sized {
    /// The driver's fixed pixel-color representation.
    type Color: Copy;

    /// Well-formedness of the driver's configuration. Drawing operations
    /// require it; it bounds the panel's addressable window so that every
    /// address the canvas can produce fits the wire's 16-bit coordinates.
    spec fn wf(&self) -> bool;

    /// The panel's addressable rectangle in its native coordinate space.
    spec fn spec_bounding_box(&self) -> Rectangle;

    /// What the driver asks of a draw rectangle (in canvas-relative
    /// coordinates) before setting it as the address window.
    spec fn draw_area_pre(&self, area: Rectangle) -> bool;

    /// The exact event sequence `set_draw_area` emits for a non-degenerate
    /// rectangle.
    spec fn draw_area_events(&self, area: Rectangle) -> Seq<BusEvent>;

    /// The exact event sequence `write_color_data` emits.
    spec fn color_data_events(&self, colors: Seq<Self::Color>) -> Seq<BusEvent>;

    /// The exact event sequence `init` emits.
    spec fn init_events(&self) -> Seq<BusEvent>;

    /// Every rectangle inside the canvas window — allowed to reach one pixel
    /// past the panel's extent, as the widened single-pixel write path does —
    /// meets the driver's draw-area precondition.
    proof fn lemma_canvas_area_satisfies_pre(&self, area: Rectangle)
        requires
            self.wf(),
            !area.is_degenerate() ==> {
                &&& 0 <= area.top_left.x
                &&& 0 <= area.top_left.y
                &&& area.x_end() <= self.spec_bounding_box().size.width + 1
                &&& area.y_end() <= self.spec_bounding_box().size.height + 1
            },
        ensures
            self.draw_area_pre(area),
    ;

    /// The panel's addressable rectangle; pure, no side effects.
    fn bounding_box(&self) -> (r: Rectangle)
        ensures
            r == self.spec_bounding_box(),
    ;

    /// Translate `area` into panel-absolute coordinates and emit the
    /// column-address-set / row-address-set / memory-write command triple
    /// that scopes the next color stream to it. A degenerate rectangle has
    /// no bottom-right corner: it is rejected before any byte is transmitted.
    fn set_draw_area<DI: DisplayInterface>(&mut self, di: &mut DI, area: &Rectangle) -> (r:
        Result<(), Error>)
        requires
            old(self).wf(),
            old(self).draw_area_pre(*area),
        ensures
            *final(self) == *old(self),
            old(di).infallible() ==> final(di).infallible(),
            !area.is_degenerate() && old(di).infallible() ==> r is Ok,
            area.is_degenerate() ==> r is Err && r->Err_0 == Error::InvalidBoundingBox
                && final(di).events() == old(di).events(),
            !area.is_degenerate() ==> match r {
                Ok(()) => final(di).events() == old(di).events() + old(self).draw_area_events(
                    *area,
                ),
                Err(e) => (e == Error::GPIO || e == Error::SPI) && aborted_within(
                    old(di).events(),
                    final(di).events(),
                    old(self).draw_area_events(*area),
                ),
            },
    ;

    /// Serialize `colors` in input order and transmit them as one contiguous
    /// serial write.
    fn write_color_data<DI: DisplayInterface>(&mut self, di: &mut DI, colors: &[Self::Color]) -> (r:
        Result<(), Error>)
        ensures
            *final(self) == *old(self),
            old(di).infallible() ==> r is Ok && final(di).infallible(),
            match r {
                Ok(()) => final(di).events() == old(di).events() + old(self).color_data_events(
                    colors@,
                ),
                Err(e) => e == Error::SPI && aborted_within(
                    old(di).events(),
                    final(di).events(),
                    old(self).color_data_events(colors@),
                ),
            },
    ;

    /// Perform the panel's full power-on sequence: reset, wake-up, the
    /// datasheet's calibration constants, and display-on. The first failure
    /// aborts the remaining sequence.
    fn init<DI: DisplayInterface>(&mut self, di: &mut DI) -> (r: Result<(), Error>)
        requires
            old(self).wf(),
        ensures
            *final(self) == *old(self),
            old(di).infallible() ==> r is Ok && final(di).infallible(),
            match r {
                Ok(()) => final(di).events() == old(di).events() + old(self).init_events(),
                Err(e) => (e == Error::GPIO || e == Error::SPI) && aborted_within(
                    old(di).events(),
                    final(di).events(),
                    old(self).init_events(),
                ),
            },
    ;
}

} // verus!
