//! The peripheral capability interface a panel driver draws through, the
//! recording implementation used to observe and test the wire protocol, and
//! the canvas that exposes the panel as a rectangular pixel surface.

use vstd::prelude::*;
use vstd::math::{max, min};
use crate::drivers::DisplayDriver;
use crate::geometry::{Point, Rectangle, Size};
use crate::Error;

verus! {

/// One observable action on the peripheral resources: a command/data select
/// transition, a hardware reset transition, a blocking delay, or a single
/// contiguous serial transmission.
#[verifier::ext_equal]
pub enum BusEvent {
    SelectLow,
    SelectHigh,
    ResetLow,
    ResetHigh,
    DelayUs(u32),
    DelayMs(u32),
    Transmit(Seq<u8>),
}

/// How an aborted command sequence leaves the history: everything that
/// stood before is still there, followed by some first part of what the
/// sequence intended to emit, and nothing else — the first failure stops
/// the rest.
pub open spec fn aborted_within(
    pre: Seq<BusEvent>,
    post: Seq<BusEvent>,
    intended: Seq<BusEvent>,
) -> bool {
    pre.is_prefix_of(post) && post.is_prefix_of(pre + intended)
}

/// The four capabilities a panel driver needs: a byte-oriented serial
/// transmit channel, the command/data select signal, the hardware reset
/// signal, and a blocking delay source.
///
/// `events` is the interface's history: every operation appends what it
/// did, and a failed operation appends nothing, so a failed sequence stops
/// exactly where it failed. A failed signal write surfaces as
/// [`Error::GPIO`], a failed transmission as [`Error::SPI`]. `infallible`
/// marks an interface whose operations cannot fail — a simulation — and on
/// such an interface every operation is owed success.
pub trait DisplayInterface: Sized {
    /// The sequence of actions performed through this interface so far.
    spec fn events(&self) -> Seq<BusEvent>;

    /// Whether every operation on this interface is guaranteed to succeed.
    spec fn infallible(&self) -> bool;

    /// Drive the command/data select line low (command mode).
    fn select_low(&mut self) -> (r: Result<(), Error>)
        ensures
            old(self).infallible() ==> r is Ok && final(self).infallible(),
            r is Ok ==> final(self).events() == old(self).events().push(BusEvent::SelectLow),
            r is Err ==> r->Err_0 == Error::GPIO && final(self).events() == old(self).events(),
    ;

    /// Drive the command/data select line high (data mode).
    fn select_high(&mut self) -> (r: Result<(), Error>)
        ensures
            old(self).infallible() ==> r is Ok && final(self).infallible(),
            r is Ok ==> final(self).events() == old(self).events().push(BusEvent::SelectHigh),
            r is Err ==> r->Err_0 == Error::GPIO && final(self).events() == old(self).events(),
    ;

    /// Drive the hardware reset line low.
    fn reset_low(&mut self) -> (r: Result<(), Error>)
        ensures
            old(self).infallible() ==> r is Ok && final(self).infallible(),
            r is Ok ==> final(self).events() == old(self).events().push(BusEvent::ResetLow),
            r is Err ==> r->Err_0 == Error::GPIO && final(self).events() == old(self).events(),
    ;

    /// Drive the hardware reset line high.
    fn reset_high(&mut self) -> (r: Result<(), Error>)
        ensures
            old(self).infallible() ==> r is Ok && final(self).infallible(),
            r is Ok ==> final(self).events() == old(self).events().push(BusEvent::ResetHigh),
            r is Err ==> r->Err_0 == Error::GPIO && final(self).events() == old(self).events(),
    ;

    /// Block for at least `us` microseconds.
    fn delay_us(&mut self, us: u32)
        ensures
            final(self).events() == old(self).events().push(BusEvent::DelayUs(us)),
            final(self).infallible() == old(self).infallible(),
    ;

    /// Block for at least `ms` milliseconds.
    fn delay_ms(&mut self, ms: u32)
        ensures
            final(self).events() == old(self).events().push(BusEvent::DelayMs(ms)),
            final(self).infallible() == old(self).infallible(),
    ;

    /// Transmit `bytes` as one contiguous serial write.
    fn transmit(&mut self, bytes: &[u8]) -> (r: Result<(), Error>)
        ensures
            old(self).infallible() ==> r is Ok && final(self).infallible(),
            r is Ok ==> final(self).events() == old(self).events().push(
                BusEvent::Transmit(bytes@),
            ),
            r is Err ==> r->Err_0 == Error::SPI && final(self).events() == old(self).events(),
    ;
}

/// An optional backlight-enable signal.
///
/// `is_on` is the signal's last driven level; a failed write surfaces as
/// [`Error::GPIO`] and promises nothing about the level. An `infallible`
/// signal is owed success.
pub trait BacklightSignal: Sized {
    spec fn is_on(&self) -> bool;

    /// Whether every write to this signal is guaranteed to succeed.
    spec fn infallible(&self) -> bool;

    /// Drive the backlight-enable signal high.
    fn set_high(&mut self) -> (r: Result<(), Error>)
        ensures
            old(self).infallible() ==> r is Ok && final(self).infallible(),
            r is Ok ==> final(self).is_on(),
            r is Err ==> r->Err_0 == Error::GPIO,
    ;
}

/// The executable form of one recorded action; a transmission carries its
/// bytes as a vector.
#[derive(Clone, Debug, PartialEq, Eq)]
pub enum RecordedEvent {
    SelectLow,
    SelectHigh,
    ResetLow,
    ResetHigh,
    DelayUs(u32),
    DelayMs(u32),
    Transmit(Vec<u8>),
}

impl View for RecordedEvent {
    type V = BusEvent;

    open spec fn view(&self) -> BusEvent {
        match self {
            RecordedEvent::SelectLow => BusEvent::SelectLow,
            RecordedEvent::SelectHigh => BusEvent::SelectHigh,
            RecordedEvent::ResetLow => BusEvent::ResetLow,
            RecordedEvent::ResetHigh => BusEvent::ResetHigh,
            RecordedEvent::DelayUs(us) => BusEvent::DelayUs(*us),
            RecordedEvent::DelayMs(ms) => BusEvent::DelayMs(*ms),
            RecordedEvent::Transmit(bytes) => BusEvent::Transmit(bytes@),
        }
    }
}

/// A fault-free simulated peripheral interface: every operation succeeds and
/// is appended to `log`, so a test can read back exactly what a driver put
/// on the wire.
pub struct RecordingInterface {
    pub log: Vec<RecordedEvent>,
}

impl RecordingInterface {
    pub fn new() -> (r: RecordingInterface)
        ensures
            r.events() == Seq::<BusEvent>::empty(),
    {
        let r = RecordingInterface { log: Vec::new() };
        proof {
            assert(r.events() =~= Seq::<BusEvent>::empty());
        }
        r
    }

    proof fn lemma_push(pre: RecordingInterface, post: RecordingInterface, e: RecordedEvent)
        requires
            post.log@ == pre.log@.push(e),
        ensures
            post.events() == pre.events().push(e@),
    {
        assert(post.events() =~= pre.events().push(e@));
    }
}

impl DisplayInterface for RecordingInterface {
    open spec fn events(&self) -> Seq<BusEvent> {
        self.log@.map_values(|e: RecordedEvent| e@)
    }

    open spec fn infallible(&self) -> bool {
        true
    }

    fn select_low(&mut self) -> (r: Result<(), Error>) {
        self.log.push(RecordedEvent::SelectLow);
        proof {
            Self::lemma_push(*old(self), *self, RecordedEvent::SelectLow);
        }
        Ok(())
    }

    fn select_high(&mut self) -> (r: Result<(), Error>) {
        self.log.push(RecordedEvent::SelectHigh);
        proof {
            Self::lemma_push(*old(self), *self, RecordedEvent::SelectHigh);
        }
        Ok(())
    }

    fn reset_low(&mut self) -> (r: Result<(), Error>) {
        self.log.push(RecordedEvent::ResetLow);
        proof {
            Self::lemma_push(*old(self), *self, RecordedEvent::ResetLow);
        }
        Ok(())
    }

    fn reset_high(&mut self) -> (r: Result<(), Error>) {
        self.log.push(RecordedEvent::ResetHigh);
        proof {
            Self::lemma_push(*old(self), *self, RecordedEvent::ResetHigh);
        }
        Ok(())
    }

    fn delay_us(&mut self, us: u32) {
        self.log.push(RecordedEvent::DelayUs(us));
        proof {
            Self::lemma_push(*old(self), *self, RecordedEvent::DelayUs(us));
        }
    }

    fn delay_ms(&mut self, ms: u32) {
        self.log.push(RecordedEvent::DelayMs(ms));
        proof {
            Self::lemma_push(*old(self), *self, RecordedEvent::DelayMs(ms));
        }
    }

    fn transmit(&mut self, bytes: &[u8]) -> (r: Result<(), Error>) {
        let mut copied: Vec<u8> = Vec::new();
        let mut i: usize = 0;
        while i < bytes.len()
            invariant
                i <= bytes@.len(),
                copied@ == bytes@.take(i as int),
            decreases bytes@.len() - i,
        {
            copied.push(bytes[i]);
            proof {
                assert(bytes@.take(i + 1 as int) =~= bytes@.take(i as int).push(bytes@[i as int]));
            }
            i = i + 1;
        }
        proof {
            assert(copied@ =~= bytes@);
        }
        self.log.push(RecordedEvent::Transmit(copied));
        proof {
            Self::lemma_push(*old(self), *self, RecordedEvent::Transmit(copied));
        }
        Ok(())
    }
}


/// A simulated interface with a fault countdown: it performs and records
/// operations like [`RecordingInterface`] while the countdown lasts, then
/// refuses every further fallible operation, so a test can watch a command
/// sequence abort on its first failure. Delays cannot fail and are always
/// recorded.
pub struct FaultInjectingInterface {
    pub log: Vec<RecordedEvent>,
    pub successes_left: u32,
}

impl FaultInjectingInterface {
    /// An interface whose first `successes_left` fallible operations
    /// succeed and whose later ones all fail.
    pub fn new(successes_left: u32) -> (r: FaultInjectingInterface)
        ensures
            r.events() == Seq::<BusEvent>::empty(),
    {
        let r = FaultInjectingInterface { log: Vec::new(), successes_left };
        proof {
            assert(r.events() =~= Seq::<BusEvent>::empty());
        }
        r
    }

    proof fn lemma_push(
        pre: FaultInjectingInterface,
        post: FaultInjectingInterface,
        e: RecordedEvent,
    )
        requires
            post.log@ == pre.log@.push(e),
        ensures
            post.events() == pre.events().push(e@),
    {
        assert(post.events() =~= pre.events().push(e@));
    }

    fn try_signal(&mut self, e: RecordedEvent) -> (r: Result<(), Error>)
        ensures
            r is Ok ==> final(self).events() == old(self).events().push(e@),
            r is Err ==> r->Err_0 == Error::GPIO && final(self).events() == old(self).events(),
    {
        if self.successes_left == 0 {
            return Err(Error::GPIO);
        }
        self.successes_left = self.successes_left - 1;
        self.log.push(e);
        proof {
            Self::lemma_push(*old(self), *self, e);
        }
        Ok(())
    }
}

impl DisplayInterface for FaultInjectingInterface {
    open spec fn events(&self) -> Seq<BusEvent> {
        self.log@.map_values(|e: RecordedEvent| e@)
    }

    open spec fn infallible(&self) -> bool {
        false
    }

    fn select_low(&mut self) -> (r: Result<(), Error>) {
        self.try_signal(RecordedEvent::SelectLow)
    }

    fn select_high(&mut self) -> (r: Result<(), Error>) {
        self.try_signal(RecordedEvent::SelectHigh)
    }

    fn reset_low(&mut self) -> (r: Result<(), Error>) {
        self.try_signal(RecordedEvent::ResetLow)
    }

    fn reset_high(&mut self) -> (r: Result<(), Error>) {
        self.try_signal(RecordedEvent::ResetHigh)
    }

    fn delay_us(&mut self, us: u32) {
        self.log.push(RecordedEvent::DelayUs(us));
        proof {
            Self::lemma_push(*old(self), *self, RecordedEvent::DelayUs(us));
        }
    }

    fn delay_ms(&mut self, ms: u32) {
        self.log.push(RecordedEvent::DelayMs(ms));
        proof {
            Self::lemma_push(*old(self), *self, RecordedEvent::DelayMs(ms));
        }
    }

    fn transmit(&mut self, bytes: &[u8]) -> (r: Result<(), Error>) {
        if self.successes_left == 0 {
            return Err(Error::SPI);
        }
        self.successes_left = self.successes_left - 1;
        let mut copied: Vec<u8> = Vec::new();
        let mut i: usize = 0;
        while i < bytes.len()
            invariant
                i <= bytes@.len(),
                copied@ == bytes@.take(i as int),
            decreases bytes@.len() - i,
        {
            copied.push(bytes[i]);
            proof {
                assert(bytes@.take(i + 1 as int) =~= bytes@.take(i as int).push(bytes@[i as int]));
            }
            i = i + 1;
        }
        proof {
            assert(copied@ =~= bytes@);
        }
        self.log.push(RecordedEvent::Transmit(copied));
        proof {
            Self::lemma_push(*old(self), *self, RecordedEvent::Transmit(copied));
        }
        Ok(())
    }
}

/// A fault-free simulated backlight signal that remembers its level.
pub struct RecordingBacklight {
    pub on: bool,
}

impl RecordingBacklight {
    pub fn new() -> (r: RecordingBacklight)
        ensures
            !r.is_on(),
    {
        RecordingBacklight { on: false }
    }
}

impl BacklightSignal for RecordingBacklight {
    open spec fn is_on(&self) -> bool {
        self.on
    }

    open spec fn infallible(&self) -> bool {
        true
    }

    fn set_high(&mut self) -> (r: Result<(), Error>) {
        self.on = true;
        Ok(())
    }
}

/// A drawable pixel: a canvas coordinate paired with a color.
#[derive(Clone, Copy, Debug)]
pub struct Pixel<C>(pub Point, pub C);

/// What one pixel write puts on the wire: nothing at all when the
/// coordinate is outside the canvas bounding box, otherwise an address
/// window widened to 2x2 — the controller's pixel-addressing granularity —
/// followed by the single color.
pub open spec fn pixel_events<DRIVER: DisplayDriver>(
    driver: DRIVER,
    bb: Rectangle,
    px: Pixel<DRIVER::Color>,
) -> Seq<BusEvent> {
    if !bb.spec_contains(px.0) {
        Seq::empty()
    } else {
        driver.draw_area_events(
            Rectangle { top_left: px.0, size: Size { width: 2, height: 2 } },
        ) + driver.color_data_events(seq![px.1])
    }
}

/// What a sequence of single-pixel writes puts on the wire, in input order.
pub open spec fn draw_iter_events<DRIVER: DisplayDriver>(
    driver: DRIVER,
    bb: Rectangle,
    pixels: Seq<Pixel<DRIVER::Color>>,
) -> Seq<BusEvent>
    decreases pixels.len(),
{
    if pixels.len() == 0 {
        Seq::empty()
    } else {
        draw_iter_events(driver, bb, pixels.drop_last()) + pixel_events(driver, bb, pixels.last())
    }
}

/// What one rectangular fill puts on the wire: exactly one address-window
/// command pair scoped to the intersection of the requested rectangle with
/// the canvas bounding box, followed by one contiguous stream of the
/// supplied colors, truncated to the shorter of the color sequence and the
/// intersection's pixel count.
pub open spec fn fill_events<DRIVER: DisplayDriver>(
    driver: DRIVER,
    bb: Rectangle,
    area: Rectangle,
    colors: Seq<DRIVER::Color>,
) -> Seq<BusEvent> {
    let isect = bb.spec_intersection(area);
    driver.draw_area_events(isect) + driver.color_data_events(
        colors.take(min(isect.size.area() as int, colors.len() as int)),
    )
}

/// Law: a pixel whose coordinate lies outside the canvas bounding box
/// produces zero bus events.
pub proof fn lemma_out_of_bounds_pixel_silent<DRIVER: DisplayDriver>(
    driver: DRIVER,
    bb: Rectangle,
    px: Pixel<DRIVER::Color>,
)
    requires
        !bb.spec_contains(px.0),
    ensures
        pixel_events(driver, bb, px) == Seq::<BusEvent>::empty(),
{
}

/// Law: a sequence of pixels that all lie outside the canvas bounding box
/// produces no bus events at all.
pub proof fn lemma_draw_iter_events_all_out_of_range<DRIVER: DisplayDriver>(
    driver: DRIVER,
    bb: Rectangle,
    pixels: Seq<Pixel<DRIVER::Color>>,
)
    requires
        forall|i: int| 0 <= i < pixels.len() ==> !bb.spec_contains(#[trigger] pixels[i].0),
    ensures
        draw_iter_events(driver, bb, pixels) == Seq::<BusEvent>::empty(),
    decreases pixels.len(),
{
    if pixels.len() > 0 {
        assert(!bb.spec_contains(pixels[pixels.len() - 1].0));
        lemma_draw_iter_events_all_out_of_range(driver, bb, pixels.drop_last());
        assert(draw_iter_events(driver, bb, pixels) =~= Seq::<BusEvent>::empty());
    }
}

/// The events of a first part of a pixel sequence are a first part of the
/// whole sequence's events.
proof fn lemma_draw_iter_events_take_prefix<DRIVER: DisplayDriver>(
    driver: DRIVER,
    bb: Rectangle,
    pixels: Seq<Pixel<DRIVER::Color>>,
    i: int,
)
    requires
        0 <= i <= pixels.len(),
    ensures
        draw_iter_events(driver, bb, pixels.take(i)).is_prefix_of(
            draw_iter_events(driver, bb, pixels),
        ),
    decreases pixels.len() - i,
{
    if i == pixels.len() {
        assert(pixels.take(i) =~= pixels);
    } else {
        assert(pixels.take(i + 1).drop_last() =~= pixels.take(i));
        assert(pixels.take(i + 1).last() == pixels[i]);
        lemma_draw_iter_events_take_prefix(driver, bb, pixels, i + 1);
        let a = draw_iter_events(driver, bb, pixels.take(i));
        let b = draw_iter_events(driver, bb, pixels.take(i + 1));
        let c = draw_iter_events(driver, bb, pixels);
        assert(a.is_prefix_of(b));
        assert(a =~= c.subrange(0, a.len() as int));
    }
}

/// A first part of a first part is a first part of the whole.
proof fn lemma_prefix_transitive(a: Seq<BusEvent>, b: Seq<BusEvent>, c: Seq<BusEvent>)
    requires
        a.is_prefix_of(b),
        b.is_prefix_of(c),
    ensures
        a.is_prefix_of(c),
{
    assert(a =~= c.subrange(0, a.len() as int));
}

/// An abort inside a later step of a longer sequence is an abort within the
/// longer sequence: `done` was emitted whole, the failing step got through
/// a first part of `sub`, and `done + sub` starts `whole`.
proof fn lemma_aborted_within_extend(
    pre: Seq<BusEvent>,
    done: Seq<BusEvent>,
    post: Seq<BusEvent>,
    sub: Seq<BusEvent>,
    whole: Seq<BusEvent>,
)
    requires
        aborted_within(pre + done, post, sub),
        (done + sub).is_prefix_of(whole),
    ensures
        aborted_within(pre, post, whole),
{
    let mid = pre + done;
    assert forall|k: int| 0 <= k < pre.len() implies post[k] == pre[k] by {
        assert(post[k] == mid[k]);
    }
    assert(pre =~= post.subrange(0, pre.len() as int));
    assert forall|k: int| 0 <= k < post.len() implies post[k] == (pre + whole)[k] by {
        if k < mid.len() {
            assert(post[k] == mid[k]);
            if k >= pre.len() {
                assert(mid[k] == done[k - pre.len()]);
                assert((done + sub)[k - pre.len()] == whole[k - pre.len()]);
            }
        } else {
            assert(post[k] == (mid + sub)[k]);
            assert((done + sub)[k - pre.len()] == whole[k - pre.len()]);
        }
    }
    assert(post =~= (pre + whole).subrange(0, post.len() as int));
}

/// Law: a fill pairs the intersected rectangle's pixels, row-major, with the
/// supplied colors, and every paired coordinate lies inside the canvas
/// bounding box — so the bounds filter drops no color, and the stream is
/// plain truncation to the shorter sequence.
pub proof fn lemma_fill_pairing(bb_size: Size, area: Rectangle, i: int)
    requires
        bb_size.width <= i32::MAX,
        bb_size.height <= i32::MAX,
        ({
            let cb = Rectangle { top_left: Point { x: 0, y: 0 }, size: bb_size };
            0 <= i < cb.spec_intersection(area).points_row_major().len()
        }),
    ensures
        ({
            let cb = Rectangle { top_left: Point { x: 0, y: 0 }, size: bb_size };
            cb.spec_contains(cb.spec_intersection(area).points_row_major()[i])
        }),
{
    let cb = Rectangle { top_left: Point { x: 0, y: 0 }, size: bb_size };
    let isect = cb.spec_intersection(area);
    crate::geometry::lemma_points_row_major_in_rect(isect, i);
    crate::geometry::lemma_intersection_contains(cb, area, isect.points_row_major()[i]);
}

/// The canvas: one peripheral capability interface, an optional
/// backlight-enable signal, and one panel driver, exposed to the graphics
/// layer as a rectangular pixel surface anchored at the origin.
pub struct Display<DI: DisplayInterface, BL: BacklightSignal, DRIVER: DisplayDriver> {
    di: DI,
    bl: Option<BL>,
    driver: DRIVER,
}

impl<DI: DisplayInterface, BL: BacklightSignal, DRIVER: DisplayDriver> Display<DI, BL, DRIVER> {
    /// The actions performed on the peripheral interface so far.
    pub closed spec fn events(&self) -> Seq<BusEvent> {
        self.di.events()
    }

    /// The panel driver the canvas was constructed with.
    pub closed spec fn spec_driver(&self) -> DRIVER {
        self.driver
    }

    /// Whether every operation on the canvas's peripheral interface is
    /// guaranteed to succeed.
    pub closed spec fn interface_infallible(&self) -> bool {
        self.di.infallible()
    }

    /// The backlight signal's level, or `None` when no backlight signal was
    /// supplied.
    pub closed spec fn backlight_state(&self) -> Option<bool> {
        match self.bl {
            Some(b) => Some(b.is_on()),
            None => None,
        }
    }

    /// The panel's addressable rectangle re-anchored at the origin: the
    /// canvas's logical size.
    pub open spec fn spec_bounding_box(&self) -> Rectangle {
        Rectangle {
            top_left: Point { x: 0, y: 0 },
            size: self.spec_driver().spec_bounding_box().size,
        }
    }

    /// Build the canvas and bring the panel up: run the driver's full
    /// initialization through the interface, then (if a backlight signal was
    /// supplied) drive it high. The first failure aborts construction and is
    /// returned unchanged.
    pub fn new(di: DI, bl: Option<BL>, driver: DRIVER) -> (r: Result<
        Display<DI, BL, DRIVER>,
        Error,
    >)
        requires
            driver.wf(),
        ensures
            di.infallible() && (bl is Some ==> bl->0.infallible()) ==> r is Ok,
            match r {
                Ok(d) => {
                    &&& d.spec_driver() == driver
                    &&& d.events() == di.events() + driver.init_events()
                    &&& (di.infallible() ==> d.interface_infallible())
                    &&& (bl is Some <==> d.backlight_state() is Some)
                    &&& (bl is Some ==> d.backlight_state() == Some(true))
                },
                Err(e) => e == Error::GPIO || e == Error::SPI,
            },
    {
        let mut device = Display { di, bl, driver };
        match device.driver.init(&mut device.di) {
            Ok(()) => {}
            Err(e) => {
                return Err(e);
            }
        }
        match &mut device.bl {
            Some(b) => {
                match b.set_high() {
                    Ok(()) => {}
                    Err(e) => {
                        return Err(e);
                    }
                }
            }
            None => {}
        }
        Ok(device)
    }

    /// Borrow the peripheral interface — for instance to read a recording
    /// back after drawing through the canvas.
    pub fn interface(&self) -> (r: &DI)
        ensures
            r.events() == self.events(),
    {
        &self.di
    }

    /// The canvas's logical size, anchored at the origin.
    pub fn bounding_box(&self) -> (r: Rectangle)
        ensures
            r == self.spec_bounding_box(),
    {
        Rectangle { top_left: Point { x: 0, y: 0 }, size: self.driver.bounding_box().size }
    }

    /// Write single pixels. A pixel outside the canvas bounding box is
    /// skipped silently — an out-of-range pixel is routine when compositing
    /// clipped shapes — and costs no bus traffic; each in-range pixel costs
    /// one address-window command pair plus one color write.
    #[verifier::loop_isolation(false)]
    pub fn draw_iter(&mut self, pixels: &[Pixel<DRIVER::Color>]) -> (r: Result<(), Error>)
        requires
            old(self).spec_driver().wf(),
        ensures
            final(self).spec_driver() == old(self).spec_driver(),
            final(self).backlight_state() == old(self).backlight_state(),
            old(self).interface_infallible() ==> r is Ok && final(self).interface_infallible(),
            (forall|i: int|
                0 <= i < pixels@.len() ==> !old(self).spec_bounding_box().spec_contains(
                    #[trigger] pixels@[i].0,
                )) ==> r is Ok && final(self).events() == old(self).events(),
            r is Ok ==> final(self).events() == old(self).events() + draw_iter_events(
                old(self).spec_driver(),
                old(self).spec_bounding_box(),
                pixels@,
            ),
            r is Err ==> (r->Err_0 == Error::GPIO || r->Err_0 == Error::SPI) && aborted_within(
                old(self).events(),
                final(self).events(),
                draw_iter_events(old(self).spec_driver(), old(self).spec_bounding_box(), pixels@),
            ),
    {
        let ghost drv = self.spec_driver();
        let ghost pre_inf = self.interface_infallible();
        let ghost pre_events = self.events();
        let ghost pre_bl = self.backlight_state();
        let bb = self.bounding_box();
        let mut i: usize = 0;
        while i < pixels.len()
            invariant
                i <= pixels@.len(),
                drv.wf(),
                self.spec_driver() == drv,
                self.backlight_state() == pre_bl,
                bb == (Rectangle {
                    top_left: Point { x: 0, y: 0 },
                    size: drv.spec_bounding_box().size,
                }),
                self.events() == pre_events + draw_iter_events(drv, bb, pixels@.take(i as int)),
                pre_inf ==> self.interface_infallible(),
            decreases pixels@.len() - i,
        {
            let px = pixels[i];
            proof {
                assert(pixels@.take(i + 1).drop_last() =~= pixels@.take(i as int));
                assert(pixels@.take(i + 1).last() == pixels@[i as int]);
            }
            if bb.contains(px.0) {
                let window = Rectangle { top_left: px.0, size: Size { width: 2, height: 2 } };
                proof {
                    self.driver.lemma_canvas_area_satisfies_pre(window);
                }
                match self.driver.set_draw_area(&mut self.di, &window) {
                    Ok(()) => {}
                    Err(e) => {
                        proof {
                            let done = draw_iter_events(drv, bb, pixels@.take(i as int));
                            let sub = drv.draw_area_events(window);
                            let step = draw_iter_events(drv, bb, pixels@.take(i + 1));
                            let whole = draw_iter_events(drv, bb, pixels@);
                            assert(pixel_events(drv, bb, pixels@[i as int]) == sub
                                + drv.color_data_events(seq![px.1]));
                            assert(step == done + pixel_events(drv, bb, pixels@[i as int]));
                            assert((done + sub).is_prefix_of(step)) by {
                                assert((done + sub) =~~= step.subrange(
                                    0,
                                    (done + sub).len() as int,
                                ));
                            }
                            lemma_draw_iter_events_take_prefix(drv, bb, pixels@, i + 1);
                            lemma_prefix_transitive(done + sub, step, whole);
                            lemma_aborted_within_extend(
                                pre_events,
                                done,
                                self.events(),
                                sub,
                                whole,
                            );
                        }
                        return Err(e);
                    }
                }
                let one: [DRIVER::Color; 1] = [px.1];
                proof {
                    assert(one@ =~= seq![px.1]);
                }
                match self.driver.write_color_data(&mut self.di, one.as_slice()) {
                    Ok(()) => {}
                    Err(e) => {
                        proof {
                            let done0 = draw_iter_events(drv, bb, pixels@.take(i as int));
                            let a = drv.draw_area_events(window);
                            let c = drv.color_data_events(seq![px.1]);
                            let done = done0 + a;
                            let step = draw_iter_events(drv, bb, pixels@.take(i + 1));
                            let whole = draw_iter_events(drv, bb, pixels@);
                            assert(pixel_events(drv, bb, pixels@[i as int]) == a + c);
                            assert(step == done0 + pixel_events(drv, bb, pixels@[i as int]));
                            assert(pre_events + done =~~= (pre_events + done0) + a);
                            assert((done + c).is_prefix_of(step)) by {
                                assert((done + c) =~~= step.subrange(0, (done + c).len() as int));
                            }
                            lemma_draw_iter_events_take_prefix(drv, bb, pixels@, i + 1);
                            lemma_prefix_transitive(done + c, step, whole);
                            lemma_aborted_within_extend(
                                pre_events,
                                done,
                                self.events(),
                                c,
                                whole,
                            );
                        }
                        return Err(e);
                    }
                }
                proof {
                    assert(self.events() == pre_events + draw_iter_events(
                        drv,
                        bb,
                        pixels@.take(i as int),
                    ) + drv.draw_area_events(window) + drv.color_data_events(seq![px.1]));
                    assert(pixel_events(drv, bb, pixels@[i as int]) == drv.draw_area_events(window)
                        + drv.color_data_events(seq![px.1]));
                    assert(draw_iter_events(drv, bb, pixels@.take(i + 1)) == draw_iter_events(
                        drv,
                        bb,
                        pixels@.take(i as int),
                    ) + pixel_events(drv, bb, pixels@[i as int]));
                    assert(self.events() =~~= pre_events + draw_iter_events(
                        drv,
                        bb,
                        pixels@.take(i + 1),
                    ));
                }
            } else {
                proof {
                    assert(self.events() =~~= pre_events + draw_iter_events(
                        drv,
                        bb,
                        pixels@.take(i + 1),
                    ));
                }
            }
            i = i + 1;
        }
        proof {
            assert(pixels@.take(pixels@.len() as int) =~= pixels@);
            if forall|j: int|
                0 <= j < pixels@.len() ==> !bb.spec_contains(#[trigger] pixels@[j].0) {
                lemma_draw_iter_events_all_out_of_range(drv, bb, pixels@);
                assert(self.events() =~= pre_events);
            }
        }
        Ok(())
    }

    /// Fill a rectangular region from a color sequence. The requested
    /// rectangle is intersected with the canvas bounding box first and that
    /// region is set as the address window exactly once; the colors are then
    /// streamed in input order, pairing each interior coordinate (row-major)
    /// with the next color. Every paired coordinate lies inside the bounding
    /// box (see [`lemma_fill_pairing`]), so the pair stream truncates to the
    /// shorter of the two sequences and no color is dropped by the bounds
    /// filter. An empty intersection has no computable bottom-right corner
    /// and is rejected with [`Error::InvalidBoundingBox`] before any byte is
    /// transmitted.
    #[verifier::loop_isolation(false)]
    pub fn fill_contiguous(&mut self, area: &Rectangle, colors: &[DRIVER::Color]) -> (r: Result<
        (),
        Error,
    >)
        requires
            old(self).spec_driver().wf(),
        ensures
            final(self).spec_driver() == old(self).spec_driver(),
            final(self).backlight_state() == old(self).backlight_state(),
            old(self).interface_infallible() ==> final(self).interface_infallible(),
            ({
                let isect = old(self).spec_bounding_box().spec_intersection(*area);
                &&& isect.is_degenerate() ==> r is Err && r->Err_0 == Error::InvalidBoundingBox
                    && final(self).events() == old(self).events()
                &&& (!isect.is_degenerate() && old(self).interface_infallible()) ==> r is Ok
                &&& !isect.is_degenerate() ==> match r {
                    Ok(()) => final(self).events() == old(self).events() + fill_events(
                        old(self).spec_driver(),
                        old(self).spec_bounding_box(),
                        *area,
                        colors@,
                    ),
                    Err(e) => (e == Error::GPIO || e == Error::SPI) && aborted_within(
                        old(self).events(),
                        final(self).events(),
                        fill_events(
                            old(self).spec_driver(),
                            old(self).spec_bounding_box(),
                            *area,
                            colors@,
                        ),
                    ),
                }
            }),
    {
        let ghost drv = self.spec_driver();
        let ghost pre_events = self.events();
        let bb = self.bounding_box();
        let isect = bb.intersection(area);
        proof {
            if bb.spec_overlaps(*area) {
                let mx = max(bb.top_left.x as int, area.top_left.x as int);
                let ex = min(bb.x_end(), area.x_end());
                let my = max(bb.top_left.y as int, area.top_left.y as int);
                let ey = min(bb.y_end(), area.y_end());
                assert(0 <= mx && mx < ex && 0 <= my && my < ey);
                assert(ex - mx <= bb.size.width && ey - my <= bb.size.height);
                assert(isect.top_left.x == mx as i32 && isect.top_left.y == my as i32);
                assert(isect.size.width == (ex - mx) as u32 && isect.size.height == (ey - my) as u32);
                assert(isect.x_end() <= bb.x_end() && isect.y_end() <= bb.y_end());
            }
            assert(!isect.is_degenerate() ==> {
                &&& 0 <= isect.top_left.x
                &&& 0 <= isect.top_left.y
                &&& isect.x_end() <= bb.size.width + 1
                &&& isect.y_end() <= bb.size.height + 1
            });
            self.driver.lemma_canvas_area_satisfies_pre(isect);
        }
        match self.driver.set_draw_area(&mut self.di, &isect) {
            Ok(()) => {}
            Err(e) => {
                proof {
                    if !isect.is_degenerate() {
                        let sub = drv.draw_area_events(isect);
                        let whole = fill_events(drv, bb, *area, colors@);
                        assert(whole == sub + drv.color_data_events(
                            colors@.take(min(isect.size.area() as int, colors@.len() as int)),
                        ));
                        assert(pre_events + Seq::<BusEvent>::empty() =~~= pre_events);
                        assert((Seq::<BusEvent>::empty() + sub).is_prefix_of(whole)) by {
                            assert((Seq::<BusEvent>::empty() + sub) =~~= whole.subrange(
                                0,
                                sub.len() as int,
                            ));
                        }
                        lemma_aborted_within_extend(
                            pre_events,
                            Seq::empty(),
                            self.events(),
                            sub,
                            whole,
                        );
                    }
                }
                return Err(e);
            }
        }
        proof {
            assert(isect.size.width * isect.size.height < 0x1_0000_0000_0000_0000)
                by (nonlinear_arith)
                requires
                    isect.size.width <= 0xFFFF_FFFFu32,
                    isect.size.height <= 0xFFFF_FFFFu32,
            ;
        }
        let count: u64 = isect.size.width as u64 * isect.size.height as u64;
        let n: usize = if count < colors.len() as u64 {
            count as usize
        } else {
            colors.len()
        };
        proof {
            assert(n as int == min(isect.size.area() as int, colors@.len() as int));
        }
        let mut chosen: Vec<DRIVER::Color> = Vec::new();
        let mut i: usize = 0;
        while i < n
            invariant
                i <= n,
                n <= colors@.len(),
                chosen@ == colors@.take(i as int),
            decreases n - i,
        {
            chosen.push(colors[i]);
            proof {
                assert(colors@.take(i + 1 as int) =~= colors@.take(i as int).push(
                    colors@[i as int],
                ));
            }
            i = i + 1;
        }
        let r = self.driver.write_color_data(&mut self.di, chosen.as_slice());
        proof {
            if r is Ok {
                assert(self.events() =~~= pre_events + fill_events(drv, bb, *area, colors@));
            } else {
                let done = drv.draw_area_events(isect);
                let sub = drv.color_data_events(
                    colors@.take(min(isect.size.area() as int, colors@.len() as int)),
                );
                let whole = fill_events(drv, bb, *area, colors@);
                assert(chosen@ == colors@.take(
                    min(isect.size.area() as int, colors@.len() as int),
                ));
                assert(whole == done + sub);
                assert((done + sub).is_prefix_of(whole)) by {
                    assert((done + sub) =~~= whole.subrange(0, (done + sub).len() as int));
                }
                lemma_aborted_within_extend(pre_events, done, self.events(), sub, whole);
            }
        }
        r
    }
}

} // verus!
