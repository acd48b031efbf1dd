use st7789_display::color::Rgb565;
use st7789_display::drivers::st7789::command::Command;
use st7789_display::drivers::st7789::madctl_byte;
use st7789_display::geometry::{Point, Rectangle, Size};
use st7789_display::Orientation;

#[test]
fn key_opcodes_match_the_datasheet() {
    assert_eq!(Command::SLPOUT.opcode(), 0x11);
    assert_eq!(Command::NORON.opcode(), 0x13);
    assert_eq!(Command::DISPON.opcode(), 0x29);
    assert_eq!(Command::CASET.opcode(), 0x2a);
    assert_eq!(Command::RASET.opcode(), 0x2b);
    assert_eq!(Command::RAMWR.opcode(), 0x2c);
    assert_eq!(Command::MADCTL.opcode(), 0x36);
    assert_eq!(Command::COLMOD.opcode(), 0x3a);
    assert_eq!(Command::PVGAMCTRL.opcode(), 0xe0);
    assert_eq!(Command::NVGAMCTRL.opcode(), 0xe1);
}

#[test]
fn madctl_bytes_per_orientation() {
    assert_eq!(madctl_byte(Orientation::Portrait), 0x08);
    assert_eq!(madctl_byte(Orientation::Landscape), 0x68);
    assert_eq!(madctl_byte(Orientation::PortraitReverse), 0xc8);
    assert_eq!(madctl_byte(Orientation::LandscapeReverse), 0xa8);
}

#[test]
fn color_encodes_big_endian() {
    assert_eq!(Rgb565::from_raw(0xf800).to_be_bytes(), [0xf8, 0x00]);
    assert_eq!(Rgb565::from_raw(0x07e0).to_be_bytes(), [0x07, 0xe0]);
    assert_eq!(Rgb565::from_raw(0x001f).to_be_bytes(), [0x00, 0x1f]);
    assert_eq!(Rgb565::from_raw(0x1234).to_be_bytes(), [0x12, 0x34]);
}

#[test]
fn color_round_trips_through_its_wire_bytes() {
    let samples: [u16; 7] = [0x0000, 0xffff, 0xf800, 0x07e0, 0x001f, 0x1234, 0xabcd];
    for raw in samples {
        let c = Rgb565::from_raw(raw);
        let bytes = c.to_be_bytes();
        assert_eq!(Rgb565::from_be_bytes(bytes[0], bytes[1]), c);
    }
}

#[test]
fn color_channels_pack_into_their_fields() {
    // Pure red, green, blue at full channel depth.
    assert_eq!(Rgb565::new(0x1f, 0, 0).raw, 0xf800);
    assert_eq!(Rgb565::new(0, 0x3f, 0).raw, 0x07e0);
    assert_eq!(Rgb565::new(0, 0, 0x1f).raw, 0x001f);
    // Channel values wider than their field lose their top bits.
    assert_eq!(Rgb565::new(0xff, 0xff, 0xff).raw, 0xffff);
    assert_eq!(Rgb565::new(0x20, 0x40, 0x20).raw, 0x0000);
}

#[test]
fn contains_is_a_half_open_box() {
    let r = Rectangle::new(Point::new(10, 20), Size::new(2, 3));
    assert!(r.contains(Point::new(10, 20)));
    assert!(r.contains(Point::new(11, 22)));
    assert!(!r.contains(Point::new(12, 20)));
    assert!(!r.contains(Point::new(10, 23)));
    assert!(!r.contains(Point::new(9, 20)));
}

#[test]
fn degenerate_rectangle_contains_nothing() {
    let r = Rectangle::new(Point::new(0, 0), Size::new(0, 5));
    assert!(!r.contains(Point::new(0, 0)));
}

#[test]
fn bottom_right_is_inclusive_or_absent() {
    let r = Rectangle::new(Point::new(10, 20), Size::new(2, 3));
    assert_eq!(r.bottom_right(), Some(Point::new(11, 22)));
    let z = Rectangle::new(Point::new(10, 20), Size::new(2, 0));
    assert_eq!(z.bottom_right(), None);
}

#[test]
fn intersection_of_overlapping_rectangles() {
    let a = Rectangle::new(Point::new(0, 0), Size::new(10, 10));
    let b = Rectangle::new(Point::new(5, 5), Size::new(10, 10));
    assert_eq!(
        a.intersection(&b),
        Rectangle::new(Point::new(5, 5), Size::new(5, 5))
    );
}

#[test]
fn intersection_of_disjoint_rectangles_is_zero() {
    let a = Rectangle::new(Point::new(0, 0), Size::new(4, 4));
    let b = Rectangle::new(Point::new(10, 10), Size::new(4, 4));
    assert_eq!(
        a.intersection(&b),
        Rectangle::new(Point::new(0, 0), Size::new(0, 0))
    );
}

#[test]
fn intersection_keeps_a_contained_degenerate_rectangle() {
    let a = Rectangle::new(Point::new(1, 2), Size::new(0, 0));
    let b = Rectangle::new(Point::new(-10, -10), Size::new(20, 20));
    assert_eq!(b.intersection(&a), a);
}
