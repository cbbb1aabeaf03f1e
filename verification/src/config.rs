//! Panel configuration, the transport modes and the driver's error type.

use vstd::prelude::*;

verus! {

/// Settings with which a driver is created; a driver reports its current ones
/// through `ILI9225::config`.
#[derive(Debug, Clone, Copy)]
pub struct Config {
    pub spi_mode: SpiMode,
    pub color_order: ColorOrder,
    pub orientation: Orientation,
    pub inverted: bool,
    pub display_enabled: bool,
    pub width: u32,
    pub height: u32,
}

impl Config {
    /// Module-style SPI with a DC/RS pin, RGB order, portrait, not inverted,
    /// display enabled, and the given drawable size.
    pub fn new(width: u32, height: u32) -> (c: Self)
        ensures
            c.spi_mode == SpiMode::WithDataCommandPin,
            c.color_order == ColorOrder::Rgb,
            c.orientation == Orientation::Portrait,
            !c.inverted,
            c.display_enabled,
            c.width == width,
            c.height == height,
    {
        Config {
            spi_mode: SpiMode::WithDataCommandPin,
            color_order: ColorOrder::Rgb,
            orientation: Orientation::Portrait,
            inverted: false,
            display_enabled: true,
            width,
            height,
        }
    }
}

impl Default for Config {
    /// The configuration of the 176x220 panel: `Config::new(176, 220)`.
    fn default() -> (c: Self)
        ensures
            c.spi_mode == SpiMode::WithDataCommandPin,
            c.color_order == ColorOrder::Rgb,
            c.orientation == Orientation::Portrait,
            !c.inverted,
            c.display_enabled,
            c.width == 176,
            c.height == 220,
    {
        Self::new(176, 220)
    }
}

/// Order of the colour components in the controller's GRAM.
#[derive(Debug, Clone, Copy, PartialEq, Eq, Structural)]
pub enum ColorOrder {
    Rgb,
    Bgr,
}

/// How the host talks to the controller.
#[derive(Debug, Clone, Copy, PartialEq, Eq, Structural)]
pub enum SpiMode {
    /// Module wiring: a dedicated DC/RS pin tells commands from data.
    WithDataCommandPin,
    /// The controller's own SPI protocol: every transfer starts with a start
    /// byte carrying the device ID bit and the RS and R/W bits.
    Native { id: bool },
}

/// Display orientation, as the ID1, ID0 and AM bits of the entry mode register.
#[derive(Debug, Clone, Copy, PartialEq, Eq, Structural)]
pub enum Orientation {
    Portrait,
    Landscape,
    PortraitSwapped,
    LandscapeSwapped,
}

/// Bit 12 (BGR) of the entry mode register.
pub const ENTRY_MODE_BGR: u16 = 0x1000;

/// Bit 5 (I/D1) of the entry mode register.
pub const ENTRY_MODE_ID1: u16 = 0x0020;

/// Bit 4 (I/D0) of the entry mode register.
pub const ENTRY_MODE_ID0: u16 = 0x0010;

/// Bit 3 (AM) of the entry mode register.
pub const ENTRY_MODE_AM: u16 = 0x0008;

/// The entry mode bits that select an orientation.
pub open spec fn orientation_bits(o: Orientation) -> u16 {
    match o {
        Orientation::Portrait => ENTRY_MODE_ID1 | ENTRY_MODE_ID0,
        Orientation::Landscape => ENTRY_MODE_ID1 | ENTRY_MODE_AM,
        Orientation::PortraitSwapped => 0,
        Orientation::LandscapeSwapped => ENTRY_MODE_ID0 | ENTRY_MODE_AM,
    }
}

impl Orientation {
    /// The entry mode bits of this orientation.
    pub fn bits(self) -> (b: u16)
        ensures
            b == orientation_bits(self),
    {
        match self {
            Orientation::Portrait => ENTRY_MODE_ID1 | ENTRY_MODE_ID0,
            Orientation::Landscape => ENTRY_MODE_ID1 | ENTRY_MODE_AM,
            Orientation::PortraitSwapped => 0,
            Orientation::LandscapeSwapped => ENTRY_MODE_ID0 | ENTRY_MODE_AM,
        }
    }
}

/// Stands in for the DC/RS pin of a driver in native SPI mode, which has none.
pub struct NoPin;

/// Why a driver request failed. The first three carry the error of the SPI
/// bus, of the DC/RS pin and of the reset pin; the last two are the driver's own.
#[derive(Debug)]
pub enum Error<SpiError, RsError, RstError> {
    Spi(SpiError),
    DataCommandPin(RsError),
    ResetPin(RstError),
    /// A command was to be sent in DC/RS mode, but the driver has no DC/RS pin.
    MissingDataCommandPin,
    /// More than 32 data bytes were to be sent in one native SPI transfer.
    NativeDataChunkTooLarge,
}

} // verus!
