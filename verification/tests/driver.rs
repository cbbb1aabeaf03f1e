use lcd_ili9225_rs::{BusOp, ColorOrder, Config, Error, Orientation, Script, SpiMode, ILI9225};

type E = Error<(), (), ()>;

fn dc(level: bool) -> BusOp {
    BusOp::DataCommand(level)
}

fn wr(bytes: &[u8]) -> BusOp {
    BusOp::Write(bytes.to_vec())
}

/// The operations of a register write in DC/RS mode.
fn reg_dc(index: u8, value: u16) -> Vec<BusOp> {
    vec![dc(false), wr(&[index]), dc(true), wr(&[(value >> 8) as u8, value as u8])]
}

/// The operations of a register write in native mode.
fn reg_native(id: bool, index: u8, value: u16) -> Vec<BusOp> {
    let idb = if id { 4 } else { 0 };
    vec![
        wr(&[0x70 | idb, index]),
        wr(&[0x72 | idb, (value >> 8) as u8, value as u8]),
    ]
}

#[test]
fn new_sets_color_order_and_inversion() {
    let d = ILI9225::new(true, false, true, 176, 220);
    let c = d.config();
    assert_eq!(c.color_order, ColorOrder::Bgr);
    assert!(c.inverted);
    assert_eq!(c.spi_mode, SpiMode::WithDataCommandPin);
    assert_eq!(c.orientation, Orientation::Portrait);
    assert!(c.display_enabled);
    assert_eq!(d.dimensions(), (176, 220));
}

#[test]
fn new_with_config_reports_the_config() {
    let mut config = Config::new(128, 160);
    config.color_order = ColorOrder::Bgr;
    config.orientation = Orientation::LandscapeSwapped;
    config.inverted = true;
    config.display_enabled = false;
    let d = ILI9225::new_with_config(false, config);
    let c = d.config();
    assert_eq!(c.spi_mode, SpiMode::WithDataCommandPin);
    assert_eq!(c.color_order, ColorOrder::Bgr);
    assert_eq!(c.orientation, Orientation::LandscapeSwapped);
    assert!(c.inverted);
    assert!(!c.display_enabled);
    assert_eq!(d.width(), 128);
    assert_eq!(d.height(), 160);
}

#[test]
fn new_native_spi_forces_native_mode() {
    let d = ILI9225::new_native_spi(false, Config::new(176, 220));
    assert_eq!(d.config().spi_mode, SpiMode::Native { id: false });
    let mut config = Config::new(176, 220);
    config.spi_mode = SpiMode::Native { id: true };
    let d = ILI9225::new_native_spi(false, config);
    assert_eq!(d.config().spi_mode, SpiMode::Native { id: true });
}

#[test]
fn hard_reset_pulses_the_reset_pin() {
    let d = ILI9225::new(true, true, false, 176, 220);
    let mut s = Script::new();
    let r: Result<(), E> = d.hard_reset(&mut s);
    assert!(r.is_ok());
    assert_eq!(
        s.into_ops(),
        vec![
            BusOp::Reset(true),
            BusOp::DelayMs(10),
            BusOp::Reset(false),
            BusOp::DelayMs(10),
            BusOp::Reset(true),
        ]
    );
}

#[test]
fn hard_reset_without_reset_pin_does_nothing() {
    let d = ILI9225::new(false, true, false, 176, 220);
    let mut s = Script::new();
    let r: Result<(), E> = d.hard_reset(&mut s);
    assert!(r.is_ok());
    assert_eq!(s.len(), 0);
}

#[test]
fn init_in_dc_mode() {
    let d = ILI9225::new_with_config(true, Config::new(176, 220));
    let mut s = Script::new();
    let r: Result<(), E> = d.init(&mut s);
    assert!(r.is_ok());
    let ops = s.into_ops();
    // reset pulse
    assert_eq!(ops[0], BusOp::Reset(true));
    assert_eq!(ops[4], BusOp::Reset(true));
    // power control 1 with a single zero parameter byte
    assert_eq!(&ops[5..9], &[dc(false), wr(&[0x10]), dc(true), wr(&[0x00])][..]);
    // first delay after the five power control writes
    assert_eq!(ops[25], BusOp::DelayMs(50));
    assert_eq!(&ops[26..30], &reg_dc(0x11, 0x0018)[..]);
    // entry mode for portrait and RGB
    let entry = reg_dc(0x03, 0x0030);
    assert!(ops.windows(4).any(|w| w == &entry[..]));
    // display control off, 50 ms, then display on as configured
    let n = ops.len();
    assert_eq!(&ops[n - 9..n - 5], &reg_dc(0x07, 0x0012)[..]);
    assert_eq!(ops[n - 5], BusOp::DelayMs(50));
    assert_eq!(&ops[n - 4..], &reg_dc(0x07, 0x1017)[..]);
    // 5 reset ops, 44 register writes of 4 ops, 5 delays
    assert_eq!(n, 5 + 44 * 4 + 5);
}

#[test]
fn init_in_native_mode() {
    let mut config = Config::new(176, 220);
    config.spi_mode = SpiMode::Native { id: true };
    config.display_enabled = false;
    config.color_order = ColorOrder::Bgr;
    let d = ILI9225::new_native_spi(false, config);
    let mut s = Script::new();
    let r: Result<(), E> = d.init(&mut s);
    assert!(r.is_ok());
    let ops = s.into_ops();
    assert_eq!(&ops[0..2], &[wr(&[0x74, 0x10]), wr(&[0x76, 0x00])][..]);
    assert!(ops.iter().all(|op| !matches!(op, BusOp::DataCommand(_))));
    let entry = reg_native(true, 0x03, 0x1030);
    assert!(ops.windows(2).any(|w| w == &entry[..]));
    let n = ops.len();
    assert_eq!(&ops[n - 2..], &reg_native(true, 0x07, 0x0012)[..]);
}

#[test]
fn display_control_values() {
    let mut d = ILI9225::new(false, true, false, 176, 220);
    let mut s = Script::new();
    let r: Result<(), E> = d.disable_display(&mut s);
    assert!(r.is_ok());
    assert!(!d.config().display_enabled);
    let r: Result<(), E> = d.set_inverted(true, &mut s);
    assert!(r.is_ok());
    assert!(d.config().inverted);
    let r: Result<(), E> = d.enable_display(&mut s);
    assert!(r.is_ok());
    let mut expected = reg_dc(0x07, 0x0012);
    expected.extend(reg_dc(0x07, 0x0016));
    expected.extend(reg_dc(0x07, 0x1013));
    assert_eq!(s.into_ops(), expected);
}

#[test]
fn set_display_enabled_records_the_state() {
    let mut d = ILI9225::new(false, true, true, 176, 220);
    let mut s = Script::new();
    let r: Result<(), E> = d.set_display_enabled(false, &mut s);
    assert!(r.is_ok());
    assert!(!d.config().display_enabled);
    assert_eq!(s.into_ops(), reg_dc(0x07, 0x0016));
}

#[test]
fn orientation_and_color_order_write_entry_mode() {
    let mut d = ILI9225::new(false, true, false, 176, 220);
    let mut s = Script::new();
    let r: Result<(), E> = d.set_orientation(&Orientation::Landscape, &mut s);
    assert!(r.is_ok());
    let r: Result<(), E> = d.set_color_order(ColorOrder::Bgr, &mut s);
    assert!(r.is_ok());
    let r: Result<(), E> = d.set_orientation(&Orientation::PortraitSwapped, &mut s);
    assert!(r.is_ok());
    let mut expected = reg_dc(0x03, 0x0028);
    expected.extend(reg_dc(0x03, 0x1028));
    expected.extend(reg_dc(0x03, 0x1000));
    assert_eq!(s.into_ops(), expected);
    let c = d.config();
    assert_eq!(c.orientation, Orientation::PortraitSwapped);
    assert_eq!(c.color_order, ColorOrder::Bgr);
}

#[test]
fn address_window_is_shifted_by_the_offset() {
    let mut d = ILI9225::new(false, true, false, 176, 220);
    d.set_offset(2, 3);
    let mut s = Script::new();
    let r: Result<(), E> = d.set_address_window(10, 20, 30, 40, &mut s);
    assert!(r.is_ok());
    let mut expected = reg_dc(0x37, 12);
    expected.extend(reg_dc(0x36, 32));
    expected.extend(reg_dc(0x39, 23));
    expected.extend(reg_dc(0x38, 43));
    expected.extend(reg_dc(0x20, 12));
    expected.extend(reg_dc(0x21, 23));
    assert_eq!(s.into_ops(), expected);
}

#[test]
fn set_pixel_in_dc_mode() {
    let d = ILI9225::new(false, true, false, 176, 220);
    let mut s = Script::new();
    let r: Result<(), E> = d.set_pixel(0, 0, 0xF800, &mut s);
    assert!(r.is_ok());
    let ops = s.into_ops();
    assert_eq!(ops.len(), 6 * 4 + 2 + 2);
    assert_eq!(&ops[24..], &[dc(false), wr(&[0x22]), dc(true), wr(&[0xF8, 0x00])][..]);
}

#[test]
fn write_pixels_sends_one_transfer_per_pixel() {
    let d = ILI9225::new(false, true, false, 176, 220);
    let mut s = Script::new();
    let r: Result<(), E> = d.write_pixels(&[0x1234, 0xABCD], &mut s);
    assert!(r.is_ok());
    assert_eq!(
        s.into_ops(),
        vec![dc(false), wr(&[0x22]), dc(true), wr(&[0x12, 0x34]), wr(&[0xAB, 0xCD])]
    );
}

#[test]
fn buffered_pixels_go_out_in_32_byte_transfers() {
    let d = ILI9225::new(false, true, false, 176, 220);
    let colors: Vec<u16> = (0..17).map(|i| 0x0100 + i).collect();
    let mut s = Script::new();
    let r: Result<(), E> = d.write_pixels_buffered(&colors, &mut s);
    assert!(r.is_ok());
    let ops = s.into_ops();
    assert_eq!(ops.len(), 3 + 2);
    let mut first = Vec::new();
    for c in &colors[..16] {
        first.push((c >> 8) as u8);
        first.push(*c as u8);
    }
    assert_eq!(ops[3], BusOp::Write(first));
    assert_eq!(ops[4], wr(&[0x01, 0x10]));
}

#[test]
fn buffered_pixels_end_with_an_empty_transfer_on_a_full_buffer() {
    let d = ILI9225::new(false, true, false, 176, 220);
    let colors = [0xFFFFu16; 16];
    let mut s = Script::new();
    let r: Result<(), E> = d.write_pixels_buffered(&colors, &mut s);
    assert!(r.is_ok());
    let ops = s.into_ops();
    assert_eq!(ops[3], BusOp::Write(vec![0xFF; 32]));
    assert_eq!(ops[4], BusOp::Write(vec![]));
    assert_eq!(ops.len(), 5);
}

#[test]
fn buffered_pixels_in_native_mode_carry_the_start_byte() {
    let mut config = Config::new(176, 220);
    config.spi_mode = SpiMode::Native { id: false };
    let d = ILI9225::new_native_spi(false, config);
    let colors = [0x0001u16; 20];
    let mut s = Script::new();
    let r: Result<(), E> = d.write_pixels_buffered(&colors, &mut s);
    assert!(r.is_ok());
    let ops = s.into_ops();
    assert_eq!(ops[0], wr(&[0x70, 0x22]));
    match &ops[1] {
        BusOp::Write(b) => {
            assert_eq!(b.len(), 33);
            assert_eq!(b[0], 0x72);
        }
        other => panic!("unexpected {:?}", other),
    }
    match &ops[2] {
        BusOp::Write(b) => {
            assert_eq!(b.len(), 9);
            assert_eq!(b[0], 0x72);
        }
        other => panic!("unexpected {:?}", other),
    }
    assert_eq!(ops.len(), 3);
}

#[test]
fn set_pixels_sets_window_then_writes() {
    let d = ILI9225::new(false, true, false, 176, 220);
    let mut s = Script::new();
    let r: Result<(), E> = d.set_pixels(1, 2, 1, 3, &[7, 8], &mut s);
    assert!(r.is_ok());
    let ops = s.into_ops();
    assert_eq!(&ops[0..4], &reg_dc(0x37, 1)[..]);
    assert_eq!(&ops[24..], &[dc(false), wr(&[0x22]), dc(true), wr(&[0, 7]), wr(&[0, 8])][..]);
    let mut s = Script::new();
    let r: Result<(), E> = d.set_pixels_buffered(1, 2, 1, 3, &[7, 8], &mut s);
    assert!(r.is_ok());
    let ops = s.into_ops();
    assert_eq!(&ops[24..], &[dc(false), wr(&[0x22]), dc(true), wr(&[0, 7, 0, 8])][..]);
}

fn data_bytes(ops: &[BusOp], native: bool) -> Vec<u8> {
    let mut out = Vec::new();
    for op in ops {
        if let BusOp::Write(b) = op {
            if native {
                out.extend_from_slice(&b[1..]);
            } else {
                out.extend_from_slice(b);
            }
        }
    }
    out
}

#[test]
fn buffered_and_unbuffered_carry_the_same_bytes() {
    let colors: Vec<u16> = (0..41u32).map(|i| (i * 2654435761u32 >> 16) as u16).collect();
    let mut be = Vec::new();
    for c in &colors {
        be.push((c >> 8) as u8);
        be.push(*c as u8);
    }
    for native in [false, true] {
        let mut config = Config::new(176, 220);
        if native {
            config.spi_mode = SpiMode::Native { id: true };
        }
        let d = if native {
            ILI9225::new_native_spi(false, config)
        } else {
            ILI9225::new_with_config(false, config)
        };
        let skip = if native { 1 } else { 3 };
        let mut a = Script::new();
        let r: Result<(), E> = d.write_pixels(&colors, &mut a);
        assert!(r.is_ok());
        let mut b = Script::new();
        let r: Result<(), E> = d.write_pixels_buffered(&colors, &mut b);
        assert!(r.is_ok());
        let a = a.into_ops();
        let b = b.into_ops();
        assert_eq!(data_bytes(&a[skip..], native), be);
        assert_eq!(data_bytes(&b[skip..], native), be);
        assert_eq!(b.len(), skip + 3);
        assert_eq!(a.len(), skip + 41);
    }
}

#[test]
fn set_inverted_while_on_flips_bit_2() {
    let mut d = ILI9225::new(false, true, false, 176, 220);
    let mut s = Script::new();
    let r: Result<(), E> = d.set_inverted(true, &mut s);
    assert!(r.is_ok());
    let r: Result<(), E> = d.set_inverted(false, &mut s);
    assert!(r.is_ok());
    let mut expected = reg_dc(0x07, 0x1013);
    expected.extend(reg_dc(0x07, 0x1017));
    assert_eq!(s.into_ops(), expected);
    assert!(!d.config().inverted);
    assert!(d.config().display_enabled);
}

#[test]
fn init_of_an_inverted_panel_ends_with_inverted_display_on() {
    let mut config = Config::new(176, 220);
    config.inverted = true;
    let d = ILI9225::new_with_config(false, config);
    let mut s = Script::new();
    let r: Result<(), E> = d.init(&mut s);
    assert!(r.is_ok());
    let ops = s.into_ops();
    let n = ops.len();
    assert_eq!(&ops[n - 9..n - 5], &reg_dc(0x07, 0x0016)[..]);
    assert_eq!(&ops[n - 4..], &reg_dc(0x07, 0x1013)[..]);
}
