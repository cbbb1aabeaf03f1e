//! Verified command encoder for the ILI9225 TFT LCD controller.
pub mod bus;
pub mod config;
pub mod driver;
pub mod graphics;
pub mod instruction;
pub mod laws;

pub use bus::{Action, BusOp, Script};
pub use config::{ColorOrder, Config, Error, NoPin, Orientation, SpiMode};
pub use driver::{Panel, Step, ILI9225};
pub use graphics::{RawPixel, Rect};
pub use instruction::Instruction;
