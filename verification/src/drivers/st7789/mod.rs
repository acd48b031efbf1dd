//! The ST7789 panel controller: command framing, the power-on initialization
//! sequence with its datasheet calibration constants, address-window
//! selection, and 5-6-5 color serialization.

use vstd::prelude::*;
use crate::color::{encoded_colors, lemma_encoded_colors_len, lemma_encoded_colors_take_step, Rgb565};
use crate::display::{aborted_within, BusEvent, DisplayInterface};
use crate::drivers::DisplayDriver;
use crate::geometry::Rectangle;
use crate::{Error, Orientation};

pub mod command;

use command::Command;

verus! {

/// The 2-phase framing of one opcode: drive command/data select low,
/// transmit the single opcode byte, drive select high again. Any data bytes
/// that follow are transmitted with select left high.
pub open spec fn command_events(op: u8) -> Seq<BusEvent> {
    seq![BusEvent::SelectLow, BusEvent::Transmit(seq![op]), BusEvent::SelectHigh]
}

/// A payload transmission, sent with the select line high.
pub open spec fn data_events(bytes: Seq<u8>) -> Seq<BusEvent> {
    seq![BusEvent::Transmit(bytes)]
}

/// The hardware reset phase: drive reset low, settle at least 20 µs, drive
/// reset high, settle at least 120 ms. The panel's power-up timing mandates
/// both minimums.
pub open spec fn reset_events() -> Seq<BusEvent> {
    seq![
        BusEvent::ResetLow,
        BusEvent::DelayUs(20),
        BusEvent::ResetHigh,
        BusEvent::DelayMs(120),
    ]
}

/// The big-endian bytes of a 16-bit wire coordinate, most significant first.
pub open spec fn be16(v: u16) -> Seq<u8> {
    seq![(v >> 8) as u8, (v & 0xff) as u8]
}

/// The memory-access-control byte for an orientation: MY (bit 7) and MX
/// (bit 6) flip the two scan directions, MV (bit 5) exchanges row and column
/// order, and BGR (bit 3) selects the panel's subpixel order.
pub open spec fn spec_madctl_byte(o: Orientation) -> u8 {
    match o {
        Orientation::Portrait => 0x08,
        Orientation::Landscape => 0x68,
        Orientation::PortraitReverse => 0xc8,
        Orientation::LandscapeReverse => 0xa8,
    }
}

pub fn madctl_byte(o: Orientation) -> (r: u8)
    ensures
        r == spec_madctl_byte(o),
{
    match o {
        Orientation::Portrait => 0x08,
        Orientation::Landscape => 0x68,
        Orientation::PortraitReverse => 0xc8,
        Orientation::LandscapeReverse => 0xa8,
    }
}

/// The ST7789 driver: an orientation and the panel's addressable rectangle
/// in its native coordinate space, both fixed at construction.
pub struct ST7789(pub Orientation, pub Rectangle);

impl ST7789 {
    /// The sleep-out and mode set-up phase that follows the reset.
    pub open spec fn power_up_events(self) -> Seq<BusEvent> {
        command_events(Command::SLPOUT.spec_opcode()) + seq![BusEvent::DelayMs(120)]
            + command_events(Command::NORON.spec_opcode()) + command_events(
            Command::MADCTL.spec_opcode(),
        ) + data_events(seq![spec_madctl_byte(self.0)]) + command_events(
            Command::UNKNOWN.spec_opcode(),
        ) + data_events(seq![0x0a, 0x82]) + command_events(Command::COLMOD.spec_opcode())
            + data_events(seq![0x55]) + seq![BusEvent::DelayMs(10)]
    }

    /// The first half of the panel-tuning phase: porch timing, gate
    /// control and the voltage settings. Every byte is an opaque
    /// calibration constant from the panel datasheet, reproduced exactly.
    pub open spec fn tuning_head_events(self) -> Seq<BusEvent> {
        command_events(Command::PORCTRL.spec_opcode()) + data_events(
            seq![0x0c, 0x0c, 0x00, 0x33, 0x33],
        ) + command_events(Command::GCTRL.spec_opcode()) + data_events(seq![0x35])
            + command_events(Command::VCOMS.spec_opcode()) + data_events(seq![0x28])
            + command_events(Command::LCMCTRL.spec_opcode()) + data_events(seq![0x9c])
            + command_events(Command::VDVVRHEN.spec_opcode()) + data_events(seq![0x01, 0xff])
            + command_events(Command::VRHS.spec_opcode()) + data_events(seq![0x10])
    }

    /// The second half of the panel-tuning phase: frame rate, power control
    /// and the positive and negative gamma curve tables, equally opaque
    /// datasheet constants.
    pub open spec fn tuning_tail_events(self) -> Seq<BusEvent> {
        command_events(Command::VDVS.spec_opcode()) + data_events(seq![0x20])
            + command_events(Command::FRCTRL2.spec_opcode()) + data_events(seq![0x0f])
            + command_events(Command::PWCTRL1.spec_opcode()) + data_events(seq![0xa4, 0xa1])
            + command_events(Command::PVGAMCTRL.spec_opcode()) + data_events(
            seq![0xd0, 0x00, 0x02, 0x07, 0x0a, 0x28, 0x32, 0x44, 0x42, 0x06, 0x0e, 0x12, 0x14, 0x17],
        ) + command_events(Command::NVGAMCTRL.spec_opcode()) + data_events(
            seq![0xd0, 0x00, 0x02, 0x07, 0x0a, 0x28, 0x31, 0x54, 0x47, 0x0e, 0x1c, 0x17, 0x1b, 0x1e],
        )
    }

    /// The whole panel-tuning phase.
    pub open spec fn tuning_events(self) -> Seq<BusEvent> {
        self.tuning_head_events() + self.tuning_tail_events()
    }

    /// The panel's first addressable column, as a wire coordinate.
    pub open spec fn panel_x_start(self) -> u16 {
        self.1.top_left.x as u16
    }

    /// The panel's last addressable column; for a panel with no extent, the
    /// first column again.
    pub open spec fn panel_x_last(self) -> u16 {
        if self.1.size.width == 0 {
            self.1.top_left.x as u16
        } else {
            (self.1.top_left.x + self.1.size.width - 1) as u16
        }
    }

    /// The panel's first addressable row, as a wire coordinate.
    pub open spec fn panel_y_start(self) -> u16 {
        self.1.top_left.y as u16
    }

    /// The panel's last addressable row; for a panel with no extent, the
    /// first row again.
    pub open spec fn panel_y_last(self) -> u16 {
        if self.1.size.height == 0 {
            self.1.top_left.y as u16
        } else {
            (self.1.top_left.y + self.1.size.height - 1) as u16
        }
    }

    /// The closing phase: the address window opened to the full panel
    /// extent, the final settling delay, display-on, and the memory-write
    /// that primes the controller for streamed pixel data.
    pub open spec fn closing_events(self) -> Seq<BusEvent> {
        command_events(Command::CASET.spec_opcode()) + data_events(
            be16(self.panel_x_start()) + be16(self.panel_x_last()),
        ) + command_events(Command::RASET.spec_opcode()) + data_events(
            be16(self.panel_y_start()) + be16(self.panel_y_last()),
        ) + seq![BusEvent::DelayMs(120)] + command_events(Command::DISPON.spec_opcode())
            + command_events(Command::RAMWR.spec_opcode())
    }

    /// Frame and transmit one opcode.
    fn command<DI: DisplayInterface>(&self, di: &mut DI, command: Command) -> (r: Result<
        (),
        Error,
    >)
        ensures
            old(di).infallible() ==> r is Ok && final(di).infallible(),
            r is Ok ==> final(di).events() == old(di).events() + command_events(
                command.spec_opcode(),
            ),
            r is Err ==> (r->Err_0 == Error::GPIO || r->Err_0 == Error::SPI) && aborted_within(
                old(di).events(),
                final(di).events(),
                command_events(command.spec_opcode()),
            ),
    {
        let ghost intended = command_events(command.spec_opcode());
        match di.select_low() {
            Ok(()) => {}
            Err(e) => {
                proof {
                    let pre = old(di).events();
                    let cur = di.events();
                    assert(pre =~~= cur.subrange(0, pre.len() as int));
                    assert(cur =~~= (pre + intended).subrange(0, cur.len() as int));
                }
                return Err(e);
            }
        }
        match di.transmit(&[command.opcode()]) {
            Ok(()) => {}
            Err(e) => {
                proof {
                    let pre = old(di).events();
                    let cur = di.events();
                    assert(pre =~~= cur.subrange(0, pre.len() as int));
                    assert(cur =~~= (pre + intended).subrange(0, cur.len() as int));
                }
                return Err(e);
            }
        }
        match di.select_high() {
            Ok(()) => {}
            Err(e) => {
                proof {
                    let pre = old(di).events();
                    let cur = di.events();
                    assert(pre =~~= cur.subrange(0, pre.len() as int));
                    assert(cur =~~= (pre + intended).subrange(0, cur.len() as int));
                }
                return Err(e);
            }
        }
        proof {
            assert(di.events() =~~= old(di).events() + command_events(command.spec_opcode()));
        }
        Ok(())
    }

    /// Transmit payload bytes for the command in flight.
    fn data<DI: DisplayInterface>(&self, di: &mut DI, data: &[u8]) -> (r: Result<(), Error>)
        ensures
            old(di).infallible() ==> r is Ok && final(di).infallible(),
            r is Ok ==> final(di).events() == old(di).events() + data_events(data@),
            r is Err ==> r->Err_0 == Error::SPI && aborted_within(
                old(di).events(),
                final(di).events(),
                data_events(data@),
            ),
    {
        let ghost intended = data_events(data@);
        match di.transmit(data) {
            Ok(()) => {}
            Err(e) => {
                proof {
                    let pre = old(di).events();
                    let cur = di.events();
                    assert(pre =~~= cur.subrange(0, pre.len() as int));
                    assert(cur =~~= (pre + intended).subrange(0, cur.len() as int));
                }
                return Err(e);
            }
        }
        proof {
            assert(di.events() =~~= old(di).events() + data_events(data@));
        }
        Ok(())
    }

    /// Pulse the hardware reset line with the mandated settling delays.
    fn reset<DI: DisplayInterface>(&self, di: &mut DI) -> (r: Result<(), Error>)
        ensures
            old(di).infallible() ==> r is Ok && final(di).infallible(),
            r is Ok ==> final(di).events() == old(di).events() + reset_events(),
            r is Err ==> r->Err_0 == Error::GPIO && aborted_within(
                old(di).events(),
                final(di).events(),
                reset_events(),
            ),
    {
        let ghost intended = reset_events();
        match di.reset_low() {
            Ok(()) => {}
            Err(e) => {
                proof {
                    let pre = old(di).events();
                    let cur = di.events();
                    assert(pre =~~= cur.subrange(0, pre.len() as int));
                    assert(cur =~~= (pre + intended).subrange(0, cur.len() as int));
                }
                return Err(e);
            }
        }
        di.delay_us(20);
        match di.reset_high() {
            Ok(()) => {}
            Err(e) => {
                proof {
                    let pre = old(di).events();
                    let cur = di.events();
                    assert(pre =~~= cur.subrange(0, pre.len() as int));
                    assert(cur =~~= (pre + intended).subrange(0, cur.len() as int));
                }
                return Err(e);
            }
        }
        di.delay_ms(120);
        proof {
            assert(di.events() =~~= old(di).events() + reset_events());
        }
        Ok(())
    }

    #[verifier::rlimit(100)]
    fn power_up<DI: DisplayInterface>(&self, di: &mut DI) -> (r: Result<(), Error>)
        ensures
            old(di).infallible() ==> r is Ok && final(di).infallible(),
            r is Ok ==> final(di).events() == old(di).events() + self.power_up_events(),
            r is Err ==> (r->Err_0 == Error::GPIO || r->Err_0 == Error::SPI) && aborted_within(
                old(di).events(),
                final(di).events(),
                self.power_up_events(),
            ),
    {
        let ghost intended = self.power_up_events();
        match self.command(di, Command::SLPOUT) {
            Ok(()) => {}
            Err(e) => {
                proof {
                    let pre = old(di).events();
                    let cur = di.events();
                    assert(pre =~~= cur.subrange(0, pre.len() as int));
                    assert(cur =~~= (pre + intended).subrange(0, cur.len() as int));
                }
                return Err(e);
            }
        }
        di.delay_ms(120);
        match self.command(di, Command::NORON) {
            Ok(()) => {}
            Err(e) => {
                proof {
                    let pre = old(di).events();
                    let cur = di.events();
                    assert(pre =~~= cur.subrange(0, pre.len() as int));
                    assert(cur =~~= (pre + intended).subrange(0, cur.len() as int));
                }
                return Err(e);
            }
        }
        match self.command(di, Command::MADCTL) {
            Ok(()) => {}
            Err(e) => {
                proof {
                    let pre = old(di).events();
                    let cur = di.events();
                    assert(pre =~~= cur.subrange(0, pre.len() as int));
                    assert(cur =~~= (pre + intended).subrange(0, cur.len() as int));
                }
                return Err(e);
            }
        }
        match self.data(di, &[madctl_byte(self.0)]) {
            Ok(()) => {}
            Err(e) => {
                proof {
                    let pre = old(di).events();
                    let cur = di.events();
                    assert(pre =~~= cur.subrange(0, pre.len() as int));
                    assert(cur =~~= (pre + intended).subrange(0, cur.len() as int));
                }
                return Err(e);
            }
        }
        match self.command(di, Command::UNKNOWN) {
            Ok(()) => {}
            Err(e) => {
                proof {
                    let pre = old(di).events();
                    let cur = di.events();
                    assert(pre =~~= cur.subrange(0, pre.len() as int));
                    assert(cur =~~= (pre + intended).subrange(0, cur.len() as int));
                }
                return Err(e);
            }
        }
        match self.data(di, &[0x0a, 0x82]) {
            Ok(()) => {}
            Err(e) => {
                proof {
                    let pre = old(di).events();
                    let cur = di.events();
                    assert(pre =~~= cur.subrange(0, pre.len() as int));
                    assert(cur =~~= (pre + intended).subrange(0, cur.len() as int));
                }
                return Err(e);
            }
        }
        match self.command(di, Command::COLMOD) {
            Ok(()) => {}
            Err(e) => {
                proof {
                    let pre = old(di).events();
                    let cur = di.events();
                    assert(pre =~~= cur.subrange(0, pre.len() as int));
                    assert(cur =~~= (pre + intended).subrange(0, cur.len() as int));
                }
                return Err(e);
            }
        }
        match self.data(di, &[0x55]) {
            Ok(()) => {}
            Err(e) => {
                proof {
                    let pre = old(di).events();
                    let cur = di.events();
                    assert(pre =~~= cur.subrange(0, pre.len() as int));
                    assert(cur =~~= (pre + intended).subrange(0, cur.len() as int));
                }
                return Err(e);
            }
        }
        di.delay_ms(10);
        proof {
            assert(di.events() =~~= old(di).events() + self.power_up_events());
        }
        Ok(())
    }

    #[verifier::rlimit(100)]
    fn tuning_head<DI: DisplayInterface>(&self, di: &mut DI) -> (r: Result<(), Error>)
        ensures
            old(di).infallible() ==> r is Ok && final(di).infallible(),
            r is Ok ==> final(di).events() == old(di).events() + self.tuning_head_events(),
            r is Err ==> (r->Err_0 == Error::GPIO || r->Err_0 == Error::SPI) && aborted_within(
                old(di).events(),
                final(di).events(),
                self.tuning_head_events(),
            ),
    {
        let ghost intended = self.tuning_head_events();
        match self.command(di, Command::PORCTRL) {
            Ok(()) => {}
            Err(e) => {
                proof {
                    let pre = old(di).events();
                    let cur = di.events();
                    assert(pre =~~= cur.subrange(0, pre.len() as int));
                    assert(cur =~~= (pre + intended).subrange(0, cur.len() as int));
                }
                return Err(e);
            }
        }
        match self.data(di, &[0x0c, 0x0c, 0x00, 0x33, 0x33]) {
            Ok(()) => {}
            Err(e) => {
                proof {
                    let pre = old(di).events();
                    let cur = di.events();
                    assert(pre =~~= cur.subrange(0, pre.len() as int));
                    assert(cur =~~= (pre + intended).subrange(0, cur.len() as int));
                }
                return Err(e);
            }
        }
        match self.command(di, Command::GCTRL) {
            Ok(()) => {}
            Err(e) => {
                proof {
                    let pre = old(di).events();
                    let cur = di.events();
                    assert(pre =~~= cur.subrange(0, pre.len() as int));
                    assert(cur =~~= (pre + intended).subrange(0, cur.len() as int));
                }
                return Err(e);
            }
        }
        match self.data(di, &[0x35]) {
            Ok(()) => {}
            Err(e) => {
                proof {
                    let pre = old(di).events();
                    let cur = di.events();
                    assert(pre =~~= cur.subrange(0, pre.len() as int));
                    assert(cur =~~= (pre + intended).subrange(0, cur.len() as int));
                }
                return Err(e);
            }
        }
        match self.command(di, Command::VCOMS) {
            Ok(()) => {}
            Err(e) => {
                proof {
                    let pre = old(di).events();
                    let cur = di.events();
                    assert(pre =~~= cur.subrange(0, pre.len() as int));
                    assert(cur =~~= (pre + intended).subrange(0, cur.len() as int));
                }
                return Err(e);
            }
        }
        match self.data(di, &[0x28]) {
            Ok(()) => {}
            Err(e) => {
                proof {
                    let pre = old(di).events();
                    let cur = di.events();
                    assert(pre =~~= cur.subrange(0, pre.len() as int));
                    assert(cur =~~= (pre + intended).subrange(0, cur.len() as int));
                }
                return Err(e);
            }
        }
        match self.command(di, Command::LCMCTRL) {
            Ok(()) => {}
            Err(e) => {
                proof {
                    let pre = old(di).events();
                    let cur = di.events();
                    assert(pre =~~= cur.subrange(0, pre.len() as int));
                    assert(cur =~~= (pre + intended).subrange(0, cur.len() as int));
                }
                return Err(e);
            }
        }
        match self.data(di, &[0x9c]) {
            Ok(()) => {}
            Err(e) => {
                proof {
                    let pre = old(di).events();
                    let cur = di.events();
                    assert(pre =~~= cur.subrange(0, pre.len() as int));
                    assert(cur =~~= (pre + intended).subrange(0, cur.len() as int));
                }
                return Err(e);
            }
        }
        match self.command(di, Command::VDVVRHEN) {
            Ok(()) => {}
            Err(e) => {
                proof {
                    let pre = old(di).events();
                    let cur = di.events();
                    assert(pre =~~= cur.subrange(0, pre.len() as int));
                    assert(cur =~~= (pre + intended).subrange(0, cur.len() as int));
                }
                return Err(e);
            }
        }
        match self.data(di, &[0x01, 0xff]) {
            Ok(()) => {}
            Err(e) => {
                proof {
                    let pre = old(di).events();
                    let cur = di.events();
                    assert(pre =~~= cur.subrange(0, pre.len() as int));
                    assert(cur =~~= (pre + intended).subrange(0, cur.len() as int));
                }
                return Err(e);
            }
        }
        match self.command(di, Command::VRHS) {
            Ok(()) => {}
            Err(e) => {
                proof {
                    let pre = old(di).events();
                    let cur = di.events();
                    assert(pre =~~= cur.subrange(0, pre.len() as int));
                    assert(cur =~~= (pre + intended).subrange(0, cur.len() as int));
                }
                return Err(e);
            }
        }
        match self.data(di, &[0x10]) {
            Ok(()) => {}
            Err(e) => {
                proof {
                    let pre = old(di).events();
                    let cur = di.events();
                    assert(pre =~~= cur.subrange(0, pre.len() as int));
                    assert(cur =~~= (pre + intended).subrange(0, cur.len() as int));
                }
                return Err(e);
            }
        }
        proof {
            assert(di.events() =~~= old(di).events() + self.tuning_head_events());
        }
        Ok(())
    }

    #[verifier::rlimit(100)]
    fn tuning_tail<DI: DisplayInterface>(&self, di: &mut DI) -> (r: Result<(), Error>)
        ensures
            old(di).infallible() ==> r is Ok && final(di).infallible(),
            r is Ok ==> final(di).events() == old(di).events() + self.tuning_tail_events(),
            r is Err ==> (r->Err_0 == Error::GPIO || r->Err_0 == Error::SPI) && aborted_within(
                old(di).events(),
                final(di).events(),
                self.tuning_tail_events(),
            ),
    {
        let ghost intended = self.tuning_tail_events();
        match self.command(di, Command::VDVS) {
            Ok(()) => {}
            Err(e) => {
                proof {
                    let pre = old(di).events();
                    let cur = di.events();
                    assert(pre =~~= cur.subrange(0, pre.len() as int));
                    assert(cur =~~= (pre + intended).subrange(0, cur.len() as int));
                }
                return Err(e);
            }
        }
        match self.data(di, &[0x20]) {
            Ok(()) => {}
            Err(e) => {
                proof {
                    let pre = old(di).events();
                    let cur = di.events();
                    assert(pre =~~= cur.subrange(0, pre.len() as int));
                    assert(cur =~~= (pre + intended).subrange(0, cur.len() as int));
                }
                return Err(e);
            }
        }
        match self.command(di, Command::FRCTRL2) {
            Ok(()) => {}
            Err(e) => {
                proof {
                    let pre = old(di).events();
                    let cur = di.events();
                    assert(pre =~~= cur.subrange(0, pre.len() as int));
                    assert(cur =~~= (pre + intended).subrange(0, cur.len() as int));
                }
                return Err(e);
            }
        }
        match self.data(di, &[0x0f]) {
            Ok(()) => {}
            Err(e) => {
                proof {
                    let pre = old(di).events();
                    let cur = di.events();
                    assert(pre =~~= cur.subrange(0, pre.len() as int));
                    assert(cur =~~= (pre + intended).subrange(0, cur.len() as int));
                }
                return Err(e);
            }
        }
        match self.command(di, Command::PWCTRL1) {
            Ok(()) => {}
            Err(e) => {
                proof {
                    let pre = old(di).events();
                    let cur = di.events();
                    assert(pre =~~= cur.subrange(0, pre.len() as int));
                    assert(cur =~~= (pre + intended).subrange(0, cur.len() as int));
                }
                return Err(e);
            }
        }
        match self.data(di, &[0xa4, 0xa1]) {
            Ok(()) => {}
            Err(e) => {
                proof {
                    let pre = old(di).events();
                    let cur = di.events();
                    assert(pre =~~= cur.subrange(0, pre.len() as int));
                    assert(cur =~~= (pre + intended).subrange(0, cur.len() as int));
                }
                return Err(e);
            }
        }
        match self.command(di, Command::PVGAMCTRL) {
            Ok(()) => {}
            Err(e) => {
                proof {
                    let pre = old(di).events();
                    let cur = di.events();
                    assert(pre =~~= cur.subrange(0, pre.len() as int));
                    assert(cur =~~= (pre + intended).subrange(0, cur.len() as int));
                }
                return Err(e);
            }
        }
        match self.data(
            di,
            &[0xd0, 0x00, 0x02, 0x07, 0x0a, 0x28, 0x32, 0x44, 0x42, 0x06, 0x0e, 0x12, 0x14, 0x17],
        ) {
            Ok(()) => {}
            Err(e) => {
                proof {
                    let pre = old(di).events();
                    let cur = di.events();
                    assert(pre =~~= cur.subrange(0, pre.len() as int));
                    assert(cur =~~= (pre + intended).subrange(0, cur.len() as int));
                }
                return Err(e);
            }
        }
        match self.command(di, Command::NVGAMCTRL) {
            Ok(()) => {}
            Err(e) => {
                proof {
                    let pre = old(di).events();
                    let cur = di.events();
                    assert(pre =~~= cur.subrange(0, pre.len() as int));
                    assert(cur =~~= (pre + intended).subrange(0, cur.len() as int));
                }
                return Err(e);
            }
        }
        match self.data(
            di,
            &[0xd0, 0x00, 0x02, 0x07, 0x0a, 0x28, 0x31, 0x54, 0x47, 0x0e, 0x1c, 0x17, 0x1b, 0x1e],
        ) {
            Ok(()) => {}
            Err(e) => {
                proof {
                    let pre = old(di).events();
                    let cur = di.events();
                    assert(pre =~~= cur.subrange(0, pre.len() as int));
                    assert(cur =~~= (pre + intended).subrange(0, cur.len() as int));
                }
                return Err(e);
            }
        }
        proof {
            assert(di.events() =~~= old(di).events() + self.tuning_tail_events());
        }
        Ok(())
    }

    fn tuning<DI: DisplayInterface>(&self, di: &mut DI) -> (r: Result<(), Error>)
        ensures
            old(di).infallible() ==> r is Ok && final(di).infallible(),
            r is Ok ==> final(di).events() == old(di).events() + self.tuning_events(),
            r is Err ==> (r->Err_0 == Error::GPIO || r->Err_0 == Error::SPI) && aborted_within(
                old(di).events(),
                final(di).events(),
                self.tuning_events(),
            ),
    {
        let ghost intended = self.tuning_events();
        match self.tuning_head(di) {
            Ok(()) => {}
            Err(e) => {
                proof {
                    let pre = old(di).events();
                    let cur = di.events();
                    assert(pre =~~= cur.subrange(0, pre.len() as int));
                    assert(cur =~~= (pre + intended).subrange(0, cur.len() as int));
                }
                return Err(e);
            }
        }
        match self.tuning_tail(di) {
            Ok(()) => {}
            Err(e) => {
                proof {
                    let pre = old(di).events();
                    let cur = di.events();
                    assert(pre =~~= cur.subrange(0, pre.len() as int));
                    assert(cur =~~= (pre + intended).subrange(0, cur.len() as int));
                }
                return Err(e);
            }
        }
        proof {
            assert(di.events() =~~= old(di).events() + self.tuning_events());
        }
        Ok(())
    }

    #[verifier::rlimit(100)]
    fn closing<DI: DisplayInterface>(&self, di: &mut DI) -> (r: Result<(), Error>)
        requires
            self.wf(),
        ensures
            old(di).infallible() ==> r is Ok && final(di).infallible(),
            r is Ok ==> final(di).events() == old(di).events() + self.closing_events(),
            r is Err ==> (r->Err_0 == Error::GPIO || r->Err_0 == Error::SPI) && aborted_within(
                old(di).events(),
                final(di).events(),
                self.closing_events(),
            ),
    {
        let ghost intended = self.closing_events();
        let sx: u16 = self.1.top_left.x as u16;
        let sy: u16 = self.1.top_left.y as u16;
        let ex: u16 = if self.1.size.width == 0 {
            sx
        } else {
            (self.1.top_left.x + self.1.size.width as i32 - 1) as u16
        };
        let ey: u16 = if self.1.size.height == 0 {
            sy
        } else {
            (self.1.top_left.y + self.1.size.height as i32 - 1) as u16
        };
        match self.command(di, Command::CASET) {
            Ok(()) => {}
            Err(e) => {
                proof {
                    let pre = old(di).events();
                    let cur = di.events();
                    assert(pre =~~= cur.subrange(0, pre.len() as int));
                    assert(cur =~~= (pre + intended).subrange(0, cur.len() as int));
                }
                return Err(e);
            }
        }
        match self.data(di, &[(sx >> 8) as u8, (sx & 0xff) as u8, (ex >> 8) as u8, (ex & 0xff) as u8]) {
            Ok(()) => {}
            Err(e) => {
                proof {
                    let pre = old(di).events();
                    let cur = di.events();
                    assert(pre =~~= cur.subrange(0, pre.len() as int));
                    assert(cur =~~= (pre + intended).subrange(0, cur.len() as int));
                }
                return Err(e);
            }
        }
        match self.command(di, Command::RASET) {
            Ok(()) => {}
            Err(e) => {
                proof {
                    let pre = old(di).events();
                    let cur = di.events();
                    assert(pre =~~= cur.subrange(0, pre.len() as int));
                    assert(cur =~~= (pre + intended).subrange(0, cur.len() as int));
                }
                return Err(e);
            }
        }
        match self.data(di, &[(sy >> 8) as u8, (sy & 0xff) as u8, (ey >> 8) as u8, (ey & 0xff) as u8]) {
            Ok(()) => {}
            Err(e) => {
                proof {
                    let pre = old(di).events();
                    let cur = di.events();
                    assert(pre =~~= cur.subrange(0, pre.len() as int));
                    assert(cur =~~= (pre + intended).subrange(0, cur.len() as int));
                }
                return Err(e);
            }
        }
        di.delay_ms(120);
        match self.command(di, Command::DISPON) {
            Ok(()) => {}
            Err(e) => {
                proof {
                    let pre = old(di).events();
                    let cur = di.events();
                    assert(pre =~~= cur.subrange(0, pre.len() as int));
                    assert(cur =~~= (pre + intended).subrange(0, cur.len() as int));
                }
                return Err(e);
            }
        }
        match self.command(di, Command::RAMWR) {
            Ok(()) => {}
            Err(e) => {
                proof {
                    let pre = old(di).events();
                    let cur = di.events();
                    assert(pre =~~= cur.subrange(0, pre.len() as int));
                    assert(cur =~~= (pre + intended).subrange(0, cur.len() as int));
                }
                return Err(e);
            }
        }
        proof {
            assert(di.events() =~~= old(di).events() + self.closing_events());
        }
        Ok(())
    }
}

impl DisplayDriver for ST7789 {
    type Color = Rgb565;

    /// The panel rectangle sits at non-negative native coordinates, and even
    /// the widened single-pixel window one past its extent stays inside the
    /// wire's 16-bit coordinate range.
    open spec fn wf(&self) -> bool {
        &&& 0 <= self.1.top_left.x
        &&& 0 <= self.1.top_left.y
        &&& self.1.x_end() <= 0xFFFF
        &&& self.1.y_end() <= 0xFFFF
    }

    open spec fn spec_bounding_box(&self) -> Rectangle {
        self.1
    }

    open spec fn draw_area_pre(&self, area: Rectangle) -> bool {
        !area.is_degenerate() ==> {
            &&& 0 <= self.1.top_left.x + area.top_left.x
            &&& self.1.top_left.x + area.top_left.x + area.size.width - 1 <= 0xFFFF
            &&& 0 <= self.1.top_left.y + area.top_left.y
            &&& self.1.top_left.y + area.top_left.y + area.size.height - 1 <= 0xFFFF
        }
    }

    open spec fn draw_area_events(&self, area: Rectangle) -> Seq<BusEvent> {
        command_events(Command::CASET.spec_opcode()) + data_events(
            be16((self.1.top_left.x + area.top_left.x) as u16) + be16(
                (self.1.top_left.x + area.top_left.x + area.size.width - 1) as u16,
            ),
        ) + command_events(Command::RASET.spec_opcode()) + data_events(
            be16((self.1.top_left.y + area.top_left.y) as u16) + be16(
                (self.1.top_left.y + area.top_left.y + area.size.height - 1) as u16,
            ),
        ) + command_events(Command::RAMWR.spec_opcode())
    }

    open spec fn color_data_events(&self, colors: Seq<Rgb565>) -> Seq<BusEvent> {
        seq![BusEvent::Transmit(encoded_colors(colors))]
    }

    open spec fn init_events(&self) -> Seq<BusEvent> {
        seq![BusEvent::SelectHigh] + reset_events() + self.power_up_events()
            + self.tuning_events() + self.closing_events()
    }

    proof fn lemma_canvas_area_satisfies_pre(&self, area: Rectangle) {
    }

    fn bounding_box(&self) -> (r: Rectangle) {
        self.1
    }

    fn set_draw_area<DI: DisplayInterface>(&mut self, di: &mut DI, area: &Rectangle) -> (r: Result<
        (),
        Error,
    >) {
        if area.size.width == 0 || area.size.height == 0 {
            return Err(Error::InvalidBoundingBox);
        }
        let ghost intended = self.draw_area_events(*area);
        let base_x: i32 = self.1.top_left.x + area.top_left.x;
        let base_y: i32 = self.1.top_left.y + area.top_left.y;
        let end_x: i32 = base_x + (area.size.width - 1) as i32;
        let end_y: i32 = base_y + (area.size.height - 1) as i32;
        let sx: u16 = base_x as u16;
        let sy: u16 = base_y as u16;
        let ex: u16 = end_x as u16;
        let ey: u16 = end_y as u16;
        match self.command(di, Command::CASET) {
            Ok(()) => {}
            Err(e) => {
                proof {
                    let pre = old(di).events();
                    let cur = di.events();
                    assert(pre =~~= cur.subrange(0, pre.len() as int));
                    assert(cur =~~= (pre + intended).subrange(0, cur.len() as int));
                }
                return Err(e);
            }
        }
        match self.data(di, &[(sx >> 8) as u8, (sx & 0xff) as u8, (ex >> 8) as u8, (ex & 0xff) as u8]) {
            Ok(()) => {}
            Err(e) => {
                proof {
                    let pre = old(di).events();
                    let cur = di.events();
                    assert(pre =~~= cur.subrange(0, pre.len() as int));
                    assert(cur =~~= (pre + intended).subrange(0, cur.len() as int));
                }
                return Err(e);
            }
        }
        match self.command(di, Command::RASET) {
            Ok(()) => {}
            Err(e) => {
                proof {
                    let pre = old(di).events();
                    let cur = di.events();
                    assert(pre =~~= cur.subrange(0, pre.len() as int));
                    assert(cur =~~= (pre + intended).subrange(0, cur.len() as int));
                }
                return Err(e);
            }
        }
        match self.data(di, &[(sy >> 8) as u8, (sy & 0xff) as u8, (ey >> 8) as u8, (ey & 0xff) as u8]) {
            Ok(()) => {}
            Err(e) => {
                proof {
                    let pre = old(di).events();
                    let cur = di.events();
                    assert(pre =~~= cur.subrange(0, pre.len() as int));
                    assert(cur =~~= (pre + intended).subrange(0, cur.len() as int));
                }
                return Err(e);
            }
        }
        match self.command(di, Command::RAMWR) {
            Ok(()) => {}
            Err(e) => {
                proof {
                    let pre = old(di).events();
                    let cur = di.events();
                    assert(pre =~~= cur.subrange(0, pre.len() as int));
                    assert(cur =~~= (pre + intended).subrange(0, cur.len() as int));
                }
                return Err(e);
            }
        }
        proof {
            assert(di.events() =~~= old(di).events() + old(self).draw_area_events(*area));
        }
        Ok(())
    }

    fn write_color_data<DI: DisplayInterface>(&mut self, di: &mut DI, colors: &[Rgb565]) -> (r:
        Result<(), Error>) {
        let mut buffer: Vec<u8> = Vec::new();
        let mut i: usize = 0;
        while i < colors.len()
            invariant
                i <= colors@.len(),
                buffer@ == encoded_colors(colors@.take(i as int)),
            decreases colors@.len() - i,
        {
            let bytes = colors[i].to_be_bytes();
            buffer.push(bytes[0]);
            buffer.push(bytes[1]);
            proof {
                lemma_encoded_colors_take_step(colors@, i as int);
                assert(buffer@ =~= encoded_colors(colors@.take(i + 1)));
            }
            i = i + 1;
        }
        proof {
            assert(colors@.take(colors@.len() as int) =~= colors@);
        }
        let r = di.transmit(buffer.as_slice());
        proof {
            let ghost intended = old(self).color_data_events(colors@);
            let pre = old(di).events();
            let cur = di.events();
            if r is Ok {
                assert(cur =~~= pre + intended);
            } else {
                assert(pre =~~= cur.subrange(0, pre.len() as int));
                assert(cur =~~= (pre + intended).subrange(0, cur.len() as int));
            }
        }
        r
    }

    fn init<DI: DisplayInterface>(&mut self, di: &mut DI) -> (r: Result<(), Error>) {
        let ghost intended = self.init_events();
        match di.select_high() {
            Ok(()) => {}
            Err(e) => {
                proof {
                    let pre = old(di).events();
                    let cur = di.events();
                    assert(pre =~~= cur.subrange(0, pre.len() as int));
                    assert(cur =~~= (pre + intended).subrange(0, cur.len() as int));
                }
                return Err(e);
            }
        }
        match self.reset(di) {
            Ok(()) => {}
            Err(e) => {
                proof {
                    let pre = old(di).events();
                    let cur = di.events();
                    assert(pre =~~= cur.subrange(0, pre.len() as int));
                    assert(cur =~~= (pre + intended).subrange(0, cur.len() as int));
                }
                return Err(e);
            }
        }
        match self.power_up(di) {
            Ok(()) => {}
            Err(e) => {
                proof {
                    let pre = old(di).events();
                    let cur = di.events();
                    assert(pre =~~= cur.subrange(0, pre.len() as int));
                    assert(cur =~~= (pre + intended).subrange(0, cur.len() as int));
                }
                return Err(e);
            }
        }
        match self.tuning(di) {
            Ok(()) => {}
            Err(e) => {
                proof {
                    let pre = old(di).events();
                    let cur = di.events();
                    assert(pre =~~= cur.subrange(0, pre.len() as int));
                    assert(cur =~~= (pre + intended).subrange(0, cur.len() as int));
                }
                return Err(e);
            }
        }
        match self.closing(di) {
            Ok(()) => {}
            Err(e) => {
                proof {
                    let pre = old(di).events();
                    let cur = di.events();
                    assert(pre =~~= cur.subrange(0, pre.len() as int));
                    assert(cur =~~= (pre + intended).subrange(0, cur.len() as int));
                }
                return Err(e);
            }
        }
        proof {
            assert(di.events() =~~= old(di).events() + old(self).init_events());
        }
        Ok(())
    }
}

/// Law: a color stream is one single contiguous transmission holding
/// exactly two bytes per color — so a fill whose surviving pairing has `n`
/// colors transmits exactly `n` serialized color pairs.
pub proof fn lemma_color_stream_length(d: ST7789, colors: Seq<Rgb565>)
    ensures
        d.color_data_events(colors) == seq![BusEvent::Transmit(encoded_colors(colors))],
        encoded_colors(colors).len() == 2 * colors.len(),
{
    lemma_encoded_colors_len(colors);
}

/// Law: the initialization sequence is a single fixed, deterministic order,
/// depending on nothing but the driver's configuration — the orientation
/// picks the memory-access byte, the panel rectangle the closing address
/// window: the data-mode default first, then the reset phase — reset low, a
/// settle of at least 20 µs, reset high, a settle of at least 120 ms — and
/// only after the whole reset phase the sleep-out and the remaining command
/// phases.
pub proof fn lemma_init_sequence_fixed(d: ST7789)
    ensures
        d.init_events() == seq![BusEvent::SelectHigh] + reset_events() + d.power_up_events()
            + d.tuning_events() + d.closing_events(),
        d.init_events()[0] == BusEvent::SelectHigh,
        d.init_events().subrange(1, 5) == reset_events(),
        d.init_events()[1] == BusEvent::ResetLow,
        d.init_events()[2] == BusEvent::DelayUs(20),
        d.init_events()[3] == BusEvent::ResetHigh,
        d.init_events()[4] == BusEvent::DelayMs(120),
        d.init_events().subrange(5, d.init_events().len() as int) == d.power_up_events()
            + d.tuning_events() + d.closing_events(),
        forall|other: ST7789| other.0 == d.0 && other.1 == d.1 ==> other.init_events()
            == d.init_events(),
{
    assert(d.init_events().subrange(1, 5) =~= reset_events());
    assert(d.init_events().subrange(5, d.init_events().len() as int) =~= d.power_up_events()
        + d.tuning_events() + d.closing_events());
    assert forall|other: ST7789| other.0 == d.0 && other.1 == d.1 implies other.init_events()
        == d.init_events() by {
        assert(other.power_up_events() =~~= d.power_up_events());
        assert(other.tuning_events() =~~= d.tuning_events());
        assert(other.closing_events() =~~= d.closing_events());
        assert(other.init_events() =~~= d.init_events());
    }
}

} // verus!
