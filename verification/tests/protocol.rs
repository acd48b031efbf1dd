use st7789_display::color::Rgb565;
use st7789_display::display::{Display, Pixel, RecordedEvent, RecordingBacklight, RecordingInterface};
use st7789_display::drivers::st7789::ST7789;
use st7789_display::drivers::DisplayDriver;
use st7789_display::geometry::{Point, Rectangle, Size};
use st7789_display::{Error, Orientation};

fn cmd(op: u8) -> Vec<RecordedEvent> {
    vec![
        RecordedEvent::SelectLow,
        RecordedEvent::Transmit(vec![op]),
        RecordedEvent::SelectHigh,
    ]
}

fn data(bytes: Vec<u8>) -> Vec<RecordedEvent> {
    vec![RecordedEvent::Transmit(bytes)]
}

fn panel_240x320() -> ST7789 {
    ST7789(
        Orientation::Portrait,
        Rectangle::new(Point::new(0, 0), Size::new(240, 320)),
    )
}

fn canvas_240x320() -> Display<RecordingInterface, RecordingBacklight, ST7789> {
    Display::new(RecordingInterface::new(), None, panel_240x320()).unwrap()
}

/// The full expected power-on transcript for a portrait panel.
fn expected_init_events() -> Vec<RecordedEvent> {
    let mut ev = vec![
        RecordedEvent::SelectHigh,
        RecordedEvent::ResetLow,
        RecordedEvent::DelayUs(20),
        RecordedEvent::ResetHigh,
        RecordedEvent::DelayMs(120),
    ];
    ev.extend(cmd(0x11));
    ev.push(RecordedEvent::DelayMs(120));
    ev.extend(cmd(0x13));
    ev.extend(cmd(0x36));
    ev.extend(data(vec![0x08]));
    ev.extend(cmd(0xb6));
    ev.extend(data(vec![0x0a, 0x82]));
    ev.extend(cmd(0x3a));
    ev.extend(data(vec![0x55]));
    ev.push(RecordedEvent::DelayMs(10));
    ev.extend(cmd(0xb2));
    ev.extend(data(vec![0x0c, 0x0c, 0x00, 0x33, 0x33]));
    ev.extend(cmd(0xb7));
    ev.extend(data(vec![0x35]));
    ev.extend(cmd(0xbb));
    ev.extend(data(vec![0x28]));
    ev.extend(cmd(0xc0));
    ev.extend(data(vec![0x9c]));
    ev.extend(cmd(0xc2));
    ev.extend(data(vec![0x01, 0xff]));
    ev.extend(cmd(0xc3));
    ev.extend(data(vec![0x10]));
    ev.extend(cmd(0xc4));
    ev.extend(data(vec![0x20]));
    ev.extend(cmd(0xc6));
    ev.extend(data(vec![0x0f]));
    ev.extend(cmd(0xd0));
    ev.extend(data(vec![0xa4, 0xa1]));
    ev.extend(cmd(0xe0));
    ev.extend(data(vec![
        0xd0, 0x00, 0x02, 0x07, 0x0a, 0x28, 0x32, 0x44, 0x42, 0x06, 0x0e, 0x12, 0x14, 0x17,
    ]));
    ev.extend(cmd(0xe1));
    ev.extend(data(vec![
        0xd0, 0x00, 0x02, 0x07, 0x0a, 0x28, 0x31, 0x54, 0x47, 0x0e, 0x1c, 0x17, 0x1b, 0x1e,
    ]));
    ev.extend(cmd(0x2a));
    ev.extend(data(vec![0x00, 0x00, 0x00, 0xef]));
    ev.extend(cmd(0x2b));
    ev.extend(data(vec![0x00, 0x00, 0x01, 0x3f]));
    ev.push(RecordedEvent::DelayMs(120));
    ev.extend(cmd(0x29));
    ev.extend(cmd(0x2c));
    ev
}

#[test]
fn init_emits_fixed_sequence() {
    let canvas = canvas_240x320();
    assert_eq!(canvas.interface().log, expected_init_events());
}

#[test]
fn init_reset_phase_comes_first_with_mandated_delays() {
    let canvas = canvas_240x320();
    let log = &canvas.interface().log;
    assert_eq!(log[0], RecordedEvent::SelectHigh);
    assert_eq!(log[1], RecordedEvent::ResetLow);
    assert_eq!(log[2], RecordedEvent::DelayUs(20));
    assert_eq!(log[3], RecordedEvent::ResetHigh);
    assert_eq!(log[4], RecordedEvent::DelayMs(120));
    // No transmission happens anywhere in the reset phase.
    for e in &log[0..5] {
        assert!(!matches!(e, RecordedEvent::Transmit(_)));
    }
}

#[test]
fn init_with_backlight_turns_it_on() {
    let d = Display::new(
        RecordingInterface::new(),
        Some(RecordingBacklight::new()),
        panel_240x320(),
    )
    .unwrap();
    assert_eq!(d.interface().log, expected_init_events());
}

#[test]
fn draw_pixel_at_origin_transmits_exact_scenario() {
    let mut canvas = canvas_240x320();
    let before = canvas.interface().log.len();
    canvas
        .draw_iter(&[Pixel(Point::new(0, 0), Rgb565::from_raw(0xf800))])
        .unwrap();
    let log = &canvas.interface().log[before..];
    let mut expected = cmd(0x2a);
    expected.extend(data(vec![0x00, 0x00, 0x00, 0x01]));
    expected.extend(cmd(0x2b));
    expected.extend(data(vec![0x00, 0x00, 0x00, 0x01]));
    expected.extend(cmd(0x2c));
    expected.extend(data(vec![0xf8, 0x00]));
    assert_eq!(log, &expected[..]);
}

#[test]
fn draw_pixel_at_width_is_out_of_range_and_silent() {
    let mut canvas = canvas_240x320();
    let before = canvas.interface().log.len();
    canvas
        .draw_iter(&[Pixel(Point::new(240, 0), Rgb565::from_raw(0xf800))])
        .unwrap();
    assert_eq!(canvas.interface().log.len(), before);
}

#[test]
fn out_of_range_pixels_are_skipped_without_shifting_the_rest() {
    let mut canvas = canvas_240x320();
    let before = canvas.interface().log.len();
    canvas
        .draw_iter(&[
            Pixel(Point::new(-1, 0), Rgb565::from_raw(0x0001)),
            Pixel(Point::new(1, 1), Rgb565::from_raw(0x1234)),
            Pixel(Point::new(0, 320), Rgb565::from_raw(0x0002)),
        ])
        .unwrap();
    let log = &canvas.interface().log[before..];
    let mut expected = cmd(0x2a);
    expected.extend(data(vec![0x00, 0x01, 0x00, 0x02]));
    expected.extend(cmd(0x2b));
    expected.extend(data(vec![0x00, 0x01, 0x00, 0x02]));
    expected.extend(cmd(0x2c));
    expected.extend(data(vec![0x12, 0x34]));
    assert_eq!(log, &expected[..]);
}

#[test]
fn fill_transmits_one_window_pair_then_colors_in_order() {
    let mut canvas = canvas_240x320();
    let before = canvas.interface().log.len();
    let colors = [
        Rgb565::from_raw(0x1111),
        Rgb565::from_raw(0x2222),
        Rgb565::from_raw(0x3333),
        Rgb565::from_raw(0x4444),
    ];
    canvas
        .fill_contiguous(&Rectangle::new(Point::new(0, 0), Size::new(2, 2)), &colors)
        .unwrap();
    let log = &canvas.interface().log[before..];
    let mut expected = cmd(0x2a);
    expected.extend(data(vec![0x00, 0x00, 0x00, 0x01]));
    expected.extend(cmd(0x2b));
    expected.extend(data(vec![0x00, 0x00, 0x00, 0x01]));
    expected.extend(cmd(0x2c));
    expected.extend(data(vec![0x11, 0x11, 0x22, 0x22, 0x33, 0x33, 0x44, 0x44]));
    assert_eq!(log, &expected[..]);
}

#[test]
fn fill_clips_to_the_bounding_box() {
    let mut canvas = canvas_240x320();
    let before = canvas.interface().log.len();
    // A 3-wide rectangle hanging one column past the right edge: the
    // intersection is 2x1 at (238, 0), so only two colors survive.
    let colors = [
        Rgb565::from_raw(0x0a0a),
        Rgb565::from_raw(0x0b0b),
        Rgb565::from_raw(0x0c0c),
    ];
    canvas
        .fill_contiguous(&Rectangle::new(Point::new(238, 0), Size::new(3, 1)), &colors)
        .unwrap();
    let log = &canvas.interface().log[before..];
    let mut expected = cmd(0x2a);
    expected.extend(data(vec![0x00, 0xee, 0x00, 0xef]));
    expected.extend(cmd(0x2b));
    expected.extend(data(vec![0x00, 0x00, 0x00, 0x00]));
    expected.extend(cmd(0x2c));
    expected.extend(data(vec![0x0a, 0x0a, 0x0b, 0x0b]));
    assert_eq!(log, &expected[..]);
}

#[test]
fn fill_truncates_to_the_shorter_sequence() {
    let mut canvas = canvas_240x320();
    let before = canvas.interface().log.len();
    // Four interior pixels, two colors supplied: the zipped pair stream ends
    // with the colors.
    let colors = [Rgb565::from_raw(0xaaaa), Rgb565::from_raw(0xbbbb)];
    canvas
        .fill_contiguous(&Rectangle::new(Point::new(0, 0), Size::new(2, 2)), &colors)
        .unwrap();
    let log = &canvas.interface().log[before..];
    let mut expected = cmd(0x2a);
    expected.extend(data(vec![0x00, 0x00, 0x00, 0x01]));
    expected.extend(cmd(0x2b));
    expected.extend(data(vec![0x00, 0x00, 0x00, 0x01]));
    expected.extend(cmd(0x2c));
    expected.extend(data(vec![0xaa, 0xaa, 0xbb, 0xbb]));
    assert_eq!(log, &expected[..]);
}

#[test]
fn fill_outside_the_canvas_is_an_invalid_bounding_box() {
    let mut canvas = canvas_240x320();
    let before = canvas.interface().log.len();
    let colors = [Rgb565::from_raw(0xffff)];
    let r = canvas.fill_contiguous(
        &Rectangle::new(Point::new(500, 500), Size::new(2, 2)),
        &colors,
    );
    assert_eq!(r, Err(Error::InvalidBoundingBox));
    assert_eq!(canvas.interface().log.len(), before);
}

#[test]
fn set_draw_area_degenerate_rect_errors_before_any_byte() {
    let mut driver = panel_240x320();
    let mut di = RecordingInterface::new();
    let r = driver.set_draw_area(
        &mut di,
        &Rectangle::new(Point::new(10, 10), Size::new(0, 5)),
    );
    assert_eq!(r, Err(Error::InvalidBoundingBox));
    assert!(di.log.is_empty());
}

#[test]
fn set_draw_area_applies_the_panel_offset() {
    // A panel whose addressable window starts at (52, 40), as some modules
    // wire the ST7789.
    let mut driver = ST7789(
        Orientation::Portrait,
        Rectangle::new(Point::new(52, 40), Size::new(135, 240)),
    );
    let mut di = RecordingInterface::new();
    driver
        .set_draw_area(&mut di, &Rectangle::new(Point::new(0, 0), Size::new(1, 1)))
        .unwrap();
    let mut expected = cmd(0x2a);
    expected.extend(data(vec![0x00, 0x34, 0x00, 0x34]));
    expected.extend(cmd(0x2b));
    expected.extend(data(vec![0x00, 0x28, 0x00, 0x28]));
    expected.extend(cmd(0x2c));
    assert_eq!(di.log, expected);
}

#[test]
fn write_color_data_serializes_big_endian_in_order() {
    let mut driver = panel_240x320();
    let mut di = RecordingInterface::new();
    let colors = [Rgb565::from_raw(0x1234), Rgb565::from_raw(0xf800)];
    driver.write_color_data(&mut di, &colors).unwrap();
    assert_eq!(
        di.log,
        vec![RecordedEvent::Transmit(vec![0x12, 0x34, 0xf8, 0x00])]
    );
}

#[test]
fn canvas_bounding_box_is_anchored_at_origin() {
    let canvas = Display::new(
        RecordingInterface::new(),
        None::<RecordingBacklight>,
        ST7789(
            Orientation::Portrait,
            Rectangle::new(Point::new(52, 40), Size::new(135, 240)),
        ),
    )
    .unwrap();
    assert_eq!(
        canvas.bounding_box(),
        Rectangle::new(Point::new(0, 0), Size::new(135, 240))
    );
}

#[test]
fn driver_bounding_box_keeps_the_native_offset() {
    let driver = ST7789(
        Orientation::Portrait,
        Rectangle::new(Point::new(52, 40), Size::new(135, 240)),
    );
    assert_eq!(
        driver.bounding_box(),
        Rectangle::new(Point::new(52, 40), Size::new(135, 240))
    );
}

#[test]
fn init_surfaces_the_first_gpio_failure() {
    // The very first operation of init is a select-line write: with no
    // successes granted it fails, and nothing is recorded.
    let mut driver = panel_240x320();
    let mut di = st7789_display::display::FaultInjectingInterface::new(0);
    let r = driver.init(&mut di);
    assert_eq!(r, Err(Error::GPIO));
    assert!(di.log.is_empty());
}

#[test]
fn init_aborts_at_the_first_mid_sequence_failure() {
    // Ten fallible operations succeed; the eleventh fails. Everything up to
    // the failure is on the wire, nothing after it.
    let mut driver = panel_240x320();
    let mut di = st7789_display::display::FaultInjectingInterface::new(10);
    let r = driver.init(&mut di);
    assert!(r.is_err());
    let fallible = di
        .log
        .iter()
        .filter(|e| !matches!(e, RecordedEvent::DelayUs(_) | RecordedEvent::DelayMs(_)))
        .count();
    assert_eq!(fallible, 10);
    let full = expected_init_events();
    assert_eq!(di.log[..], full[..di.log.len()]);
    assert!(di.log.len() < full.len());
}

#[test]
fn transmit_failure_surfaces_as_an_spi_error() {
    // One success covers the select-low write; the opcode transmission is
    // then the first operation to fail.
    let mut driver = panel_240x320();
    let mut di = st7789_display::display::FaultInjectingInterface::new(1);
    let r = driver.set_draw_area(&mut di, &Rectangle::new(Point::new(0, 0), Size::new(2, 2)));
    assert_eq!(r, Err(Error::SPI));
    assert_eq!(di.log, vec![RecordedEvent::SelectLow]);
}

#[test]
fn init_encodes_the_orientation_in_the_madctl_byte() {
    let mut driver = ST7789(
        Orientation::Landscape,
        Rectangle::new(Point::new(0, 0), Size::new(320, 240)),
    );
    let mut di = RecordingInterface::new();
    driver.init(&mut di).unwrap();
    // The memory-access-control data byte follows the opcode's framing:
    // select low, [0x36], select high, then the data transmission.
    let pos = di
        .log
        .iter()
        .position(|e| *e == RecordedEvent::Transmit(vec![0x36]))
        .unwrap();
    assert_eq!(di.log[pos + 1], RecordedEvent::SelectHigh);
    assert_eq!(di.log[pos + 2], RecordedEvent::Transmit(vec![0x68]));
}

#[test]
fn init_window_spans_the_panel_extent() {
    // A panel whose addressable window starts at (52, 40): the closing
    // address window covers columns 52..=186 and rows 40..=279.
    let mut driver = ST7789(
        Orientation::Portrait,
        Rectangle::new(Point::new(52, 40), Size::new(135, 240)),
    );
    let mut di = RecordingInterface::new();
    driver.init(&mut di).unwrap();
    let col = di
        .log
        .iter()
        .position(|e| *e == RecordedEvent::Transmit(vec![0x2a]))
        .unwrap();
    assert_eq!(di.log[col + 2], RecordedEvent::Transmit(vec![0x00, 0x34, 0x00, 0xba]));
    let row = di
        .log
        .iter()
        .position(|e| *e == RecordedEvent::Transmit(vec![0x2b]))
        .unwrap();
    assert_eq!(di.log[row + 2], RecordedEvent::Transmit(vec![0x00, 0x28, 0x01, 0x17]));
}
