use lcd_ili9225_rs::{ColorOrder, Config, Instruction, Orientation, SpiMode};

#[test]
fn config_new_defaults() {
    let c = Config::new(176, 220);
    assert_eq!(c.spi_mode, SpiMode::WithDataCommandPin);
    assert_eq!(c.color_order, ColorOrder::Rgb);
    assert_eq!(c.orientation, Orientation::Portrait);
    assert!(!c.inverted);
    assert!(c.display_enabled);
    assert_eq!(c.width, 176);
    assert_eq!(c.height, 220);
}

#[test]
fn config_new_keeps_any_size() {
    let c = Config::new(0, u32::MAX);
    assert_eq!(c.width, 0);
    assert_eq!(c.height, u32::MAX);
}

#[test]
fn config_default_is_176_by_220() {
    let c = Config::default();
    assert_eq!(c.width, 176);
    assert_eq!(c.height, 220);
    assert_eq!(c.spi_mode, SpiMode::WithDataCommandPin);
    assert_eq!(c.color_order, ColorOrder::Rgb);
    assert_eq!(c.orientation, Orientation::Portrait);
    assert!(!c.inverted);
    assert!(c.display_enabled);
}

#[test]
fn orientation_bits_are_entry_mode_bits() {
    assert_eq!(Orientation::Portrait.bits(), 0x0030);
    assert_eq!(Orientation::Landscape.bits(), 0x0028);
    assert_eq!(Orientation::PortraitSwapped.bits(), 0x0000);
    assert_eq!(Orientation::LandscapeSwapped.bits(), 0x0018);
}

#[test]
fn register_indices_follow_the_datasheet() {
    assert_eq!(Instruction::DriverOutputCtrl.code(), 0x01);
    assert_eq!(Instruction::EntryMode.code(), 0x03);
    assert_eq!(Instruction::DispCtrl1.code(), 0x07);
    assert_eq!(Instruction::PowerCtrl1.code(), 0x10);
    assert_eq!(Instruction::RamAddrSet1.code(), 0x20);
    assert_eq!(Instruction::RamAddRSet2.code(), 0x21);
    assert_eq!(Instruction::GramDataReg.code(), 0x22);
    assert_eq!(Instruction::HorizontalWindowAddr1.code(), 0x36);
    assert_eq!(Instruction::VerticalWindowAddr2.code(), 0x39);
    assert_eq!(Instruction::GammaCtrl10.code(), 0x59);
}
