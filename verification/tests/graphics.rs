use lcd_ili9225_rs::{BusOp, Config, Error, Orientation, RawPixel, Rect, Script, SpiMode, ILI9225};

type E = Error<(), (), ()>;

fn dc(level: bool) -> BusOp {
    BusOp::DataCommand(level)
}

fn wr(bytes: &[u8]) -> BusOp {
    BusOp::Write(bytes.to_vec())
}

fn reg_dc(index: u8, value: u16) -> Vec<BusOp> {
    vec![dc(false), wr(&[index]), dc(true), wr(&[(value >> 8) as u8, value as u8])]
}

fn window_dc(sx: u16, sy: u16, ex: u16, ey: u16) -> Vec<BusOp> {
    let mut v = reg_dc(0x37, sx);
    v.extend(reg_dc(0x36, ex));
    v.extend(reg_dc(0x39, sy));
    v.extend(reg_dc(0x38, ey));
    v.extend(reg_dc(0x20, sx));
    v.extend(reg_dc(0x21, sy));
    v
}

fn panel() -> ILI9225 {
    ILI9225::new_with_config(true, Config::new(176, 220))
}

#[test]
fn draw_iter_skips_pixels_off_the_panel() {
    let d = panel();
    let pixels = [
        RawPixel { x: -1, y: 0, color: 1 },
        RawPixel { x: 3, y: 4, color: 0xABCD },
        RawPixel { x: 176, y: 0, color: 2 },
        RawPixel { x: 0, y: 220, color: 3 },
        RawPixel { x: 175, y: 219, color: 0x0102 },
    ];
    let mut s = Script::new();
    let r: Result<(), E> = d.draw_iter(&pixels, &mut s);
    assert!(r.is_ok());
    let mut expected = window_dc(3, 4, 3, 4);
    expected.extend(vec![dc(false), wr(&[0x22]), dc(true), wr(&[0xAB, 0xCD])]);
    expected.extend(window_dc(175, 219, 175, 219));
    expected.extend(vec![dc(false), wr(&[0x22]), dc(true), wr(&[0x01, 0x02])]);
    assert_eq!(s.into_ops(), expected);
}

#[test]
fn draw_iter_off_screen_only_does_nothing() {
    let d = panel();
    let pixels = [RawPixel { x: -5, y: -5, color: 1 }, RawPixel { x: 1000, y: 3, color: 2 }];
    let mut s = Script::new();
    let r: Result<(), E> = d.draw_iter(&pixels, &mut s);
    assert!(r.is_ok());
    assert_eq!(s.len(), 0);
}

#[test]
fn fill_contiguous_inside_the_panel() {
    let d = panel();
    let area = Rect { x: 10, y: 20, width: 2, height: 2 };
    let mut s = Script::new();
    let r: Option<Result<(), E>> = d.fill_contiguous(area, &[1, 2, 3, 4], &mut s);
    assert!(matches!(r, Some(Ok(()))));
    let mut expected = window_dc(10, 20, 11, 21);
    expected.extend(vec![dc(false), wr(&[0x22]), dc(true), wr(&[0, 1, 0, 2, 0, 3, 0, 4])]);
    assert_eq!(s.into_ops(), expected);
}

#[test]
fn fill_contiguous_clips_to_the_panel() {
    let d = panel();
    // 3x2 area whose left column lies off the panel
    let area = Rect { x: -1, y: 0, width: 3, height: 2 };
    let colors = [1, 2, 3, 4, 5, 6];
    let mut s = Script::new();
    let r: Option<Result<(), E>> = d.fill_contiguous(area, &colors, &mut s);
    assert!(matches!(r, Some(Ok(()))));
    let mut expected = window_dc(0, 0, 1, 1);
    expected.extend(vec![dc(false), wr(&[0x22]), dc(true), wr(&[0, 2, 0, 3, 0, 5, 0, 6])]);
    assert_eq!(s.into_ops(), expected);
}

#[test]
fn fill_contiguous_with_fewer_colors_than_pixels() {
    let d = panel();
    let area = Rect { x: 174, y: 218, width: 4, height: 4 };
    let colors = [1, 2, 3, 4, 5];
    let mut s = Script::new();
    let r: Option<Result<(), E>> = d.fill_contiguous(area, &colors, &mut s);
    assert!(matches!(r, Some(Ok(()))));
    let mut expected = window_dc(174, 218, 175, 219);
    expected.extend(vec![dc(false), wr(&[0x22]), dc(true), wr(&[0, 1, 0, 2, 0, 5])]);
    assert_eq!(s.into_ops(), expected);
}

#[test]
fn fill_contiguous_far_off_the_panel_is_ok() {
    let d = panel();
    let area = Rect { x: 500, y: 500, width: 10, height: 10 };
    let mut s = Script::new();
    let r: Option<Result<(), E>> = d.fill_contiguous(area, &[1; 100], &mut s);
    assert!(matches!(r, Some(Ok(()))));
    assert_eq!(s.len(), 0);
}

#[test]
fn fill_contiguous_off_the_panel_does_nothing() {
    let d = panel();
    let area = Rect { x: 200, y: 0, width: 5, height: 5 };
    let mut s = Script::new();
    let r: Option<Result<(), E>> = d.fill_contiguous(area, &[1; 25], &mut s);
    assert!(matches!(r, Some(Ok(()))));
    assert_eq!(s.len(), 0);
}

#[test]
fn fill_contiguous_with_a_line_of_zero_width_is_refused() {
    let d = panel();
    let area = Rect { x: 5, y: 5, width: 0, height: 3 };
    let mut s = Script::new();
    let r: Option<Result<(), E>> = d.fill_contiguous(area, &[1, 2, 3], &mut s);
    assert!(r.is_none());
    assert_eq!(s.len(), 0);
}

#[test]
fn fill_drawable_takes_the_given_drawable_part() {
    let d = panel();
    let area = Rect { x: 0, y: 0, width: 2, height: 2 };
    let drawable = Rect { x: 1, y: 0, width: 1, height: 2 };
    let mut s = Script::new();
    let r: Result<(), E> = d.fill_drawable(area, drawable, &[1, 2, 3, 4], &mut s);
    assert!(r.is_ok());
    let mut expected = window_dc(1, 0, 1, 1);
    expected.extend(vec![dc(false), wr(&[0x22]), dc(true), wr(&[0, 2, 0, 4])]);
    assert_eq!(s.into_ops(), expected);
    let mut s = Script::new();
    let empty = Rect { x: 0, y: 0, width: 0, height: 0 };
    let r: Result<(), E> = d.fill_drawable(area, empty, &[1, 2, 3, 4], &mut s);
    assert!(r.is_ok());
    assert_eq!(s.len(), 0);
}

#[test]
fn clear_fills_the_whole_panel() {
    let d = ILI9225::new_with_config(false, Config::new(4, 3));
    let mut s = Script::new();
    let r: Result<(), E> = d.clear(0x1234, &mut s);
    assert!(r.is_ok());
    let mut expected = window_dc(0, 0, 3, 2);
    let mut first = Vec::new();
    for _ in 0..12 {
        first.push(0x12);
        first.push(0x34);
    }
    expected.extend(vec![dc(false), wr(&[0x22]), dc(true), BusOp::Write(first)]);
    assert_eq!(s.into_ops(), expected);
}

#[test]
fn clear_of_the_full_panel_sends_every_pixel() {
    let d = panel();
    let mut s = Script::new();
    let r: Result<(), E> = d.clear(0, &mut s);
    assert!(r.is_ok());
    let ops = s.into_ops();
    assert_eq!(&ops[0..24], &window_dc(0, 0, 175, 219)[..]);
    let data: usize = ops[27..]
        .iter()
        .map(|op| match op {
            BusOp::Write(b) => b.len(),
            _ => 0,
        })
        .sum();
    assert_eq!(data, 176 * 220 * 2);
}

#[test]
fn readme_minimal_usage() {
    let mut config = Config::new(176, 220);
    config.spi_mode = SpiMode::WithDataCommandPin;
    config.orientation = Orientation::Portrait;
    config.display_enabled = true;
    let d = ILI9225::new_with_config(true, config);
    let mut s = Script::new();
    let r: Result<(), E> = d.init(&mut s);
    assert!(r.is_ok());
    let after_init = s.len();
    let r: Result<(), E> = d.clear(0, &mut s);
    assert!(r.is_ok());
    let ops = s.into_ops();
    assert_eq!(&ops[after_init..after_init + 24], &window_dc(0, 0, 175, 219)[..]);
}

#[test]
fn dc_pin_example() {
    let mut config = Config::new(176, 220);
    config.spi_mode = SpiMode::WithDataCommandPin;
    let mut d = ILI9225::new_with_config(true, config);
    let mut s = Script::new();
    let r: Result<(), E> = d.init(&mut s);
    assert!(r.is_ok());
    let r: Result<(), E> = d.set_display_enabled(true, &mut s);
    assert!(r.is_ok());
    let r: Result<(), E> = d.set_orientation(&Orientation::Landscape, &mut s);
    assert!(r.is_ok());
    let r: Result<(), E> = d.set_pixel(0, 0, 0xF800, &mut s);
    assert!(r.is_ok());
    let ops = s.into_ops();
    let n = ops.len();
    assert_eq!(&ops[n - 4..], &[dc(false), wr(&[0x22]), dc(true), wr(&[0xF8, 0x00])][..]);
    assert_eq!(&ops[n - 32..n - 28], &reg_dc(0x03, 0x0028)[..]);
    assert_eq!(d.config().orientation, Orientation::Landscape);
}

#[test]
fn native_spi_example() {
    let mut config = Config::new(176, 220);
    config.spi_mode = SpiMode::Native { id: false };
    let d = ILI9225::new_native_spi(false, config);
    let mut s = Script::new();
    let r: Result<(), E> = d.set_pixel(1, 2, 0x07E0, &mut s);
    assert!(r.is_ok());
    let ops = s.into_ops();
    assert_eq!(&ops[0..2], &[wr(&[0x70, 0x37]), wr(&[0x72, 0x00, 0x01])][..]);
    let n = ops.len();
    assert_eq!(&ops[n - 2..], &[wr(&[0x70, 0x22]), wr(&[0x72, 0x07, 0xE0])][..]);
    assert!(ops.iter().all(|op| !matches!(op, BusOp::DataCommand(_))));
}

#[test]
fn fill_contiguous_ignores_extra_colors() {
    let d = panel();
    let area = Rect { x: 0, y: 0, width: 1, height: 2 };
    let mut s = Script::new();
    let r: Option<Result<(), E>> = d.fill_contiguous(area, &[9, 8, 7, 6], &mut s);
    assert!(matches!(r, Some(Ok(()))));
    let ops = s.into_ops();
    assert_eq!(ops[27], wr(&[0, 9, 0, 8]));
    assert_eq!(ops.len(), 28);
}

#[test]
fn fill_contiguous_on_a_native_panel() {
    let mut config = Config::new(176, 220);
    config.spi_mode = SpiMode::Native { id: false };
    let d = ILI9225::new_native_spi(false, config);
    let area = Rect { x: 175, y: 219, width: 10, height: 10 };
    let mut s = Script::new();
    let r: Option<Result<(), E>> = d.fill_contiguous(area, &[0x0102; 100], &mut s);
    assert!(matches!(r, Some(Ok(()))));
    let ops = s.into_ops();
    assert_eq!(&ops[0..2], &[wr(&[0x70, 0x37]), wr(&[0x72, 0x00, 175])][..]);
    let n = ops.len();
    assert_eq!(&ops[n - 2..], &[wr(&[0x70, 0x22]), wr(&[0x72, 0x01, 0x02])][..]);
}
