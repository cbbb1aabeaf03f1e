//! The ILI9225 registers that the driver writes, with their index numbers.

use vstd::prelude::*;

verus! {

/// A register of the ILI9225, addressed through the index register.
#[derive(Debug, Clone, Copy, PartialEq, Eq, Structural)]
pub enum Instruction {
    DriverOutputCtrl,
    LcdAcDrivingCtrl,
    EntryMode,
    DispCtrl1,
    DispCtrl2,
    FrameCycleCtrl,
    InterfaceCtrl,
    OscCtrl,
    PowerCtrl1,
    PowerCtrl2,
    PowerCtrl3,
    PowerCtrl4,
    PowerCtrl5,
    VciRecycling,
    RamAddrSet1,
    RamAddRSet2,
    GramDataReg,
    GateScanCtrl,
    VerticalScrollCtrl1,
    VerticalScrollCtrl2,
    VerticalScrollCtrl3,
    PartialDrivingPos1,
    PartialDrivingPos2,
    HorizontalWindowAddr1,
    HorizontalWindowAddr2,
    VerticalWindowAddr1,
    VerticalWindowAddr2,
    GammaCtrl1,
    GammaCtrl2,
    GammaCtrl3,
    GammaCtrl4,
    GammaCtrl5,
    GammaCtrl6,
    GammaCtrl7,
    GammaCtrl8,
    GammaCtrl9,
    GammaCtrl10,
}

/// The index of a register, as the ILI9225 datasheet numbers them.
pub open spec fn register_index(i: Instruction) -> u8 {
    match i {
        Instruction::DriverOutputCtrl => 0x01,
        Instruction::LcdAcDrivingCtrl => 0x02,
        Instruction::EntryMode => 0x03,
        Instruction::DispCtrl1 => 0x07,
        Instruction::DispCtrl2 => 0x08,
        Instruction::FrameCycleCtrl => 0x0B,
        Instruction::InterfaceCtrl => 0x0C,
        Instruction::OscCtrl => 0x0F,
        Instruction::PowerCtrl1 => 0x10,
        Instruction::PowerCtrl2 => 0x11,
        Instruction::PowerCtrl3 => 0x12,
        Instruction::PowerCtrl4 => 0x13,
        Instruction::PowerCtrl5 => 0x14,
        Instruction::VciRecycling => 0x15,
        Instruction::RamAddrSet1 => 0x20,
        Instruction::RamAddRSet2 => 0x21,
        Instruction::GramDataReg => 0x22,
        Instruction::GateScanCtrl => 0x30,
        Instruction::VerticalScrollCtrl1 => 0x31,
        Instruction::VerticalScrollCtrl2 => 0x32,
        Instruction::VerticalScrollCtrl3 => 0x33,
        Instruction::PartialDrivingPos1 => 0x34,
        Instruction::PartialDrivingPos2 => 0x35,
        Instruction::HorizontalWindowAddr1 => 0x36,
        Instruction::HorizontalWindowAddr2 => 0x37,
        Instruction::VerticalWindowAddr1 => 0x38,
        Instruction::VerticalWindowAddr2 => 0x39,
        Instruction::GammaCtrl1 => 0x50,
        Instruction::GammaCtrl2 => 0x51,
        Instruction::GammaCtrl3 => 0x52,
        Instruction::GammaCtrl4 => 0x53,
        Instruction::GammaCtrl5 => 0x54,
        Instruction::GammaCtrl6 => 0x55,
        Instruction::GammaCtrl7 => 0x56,
        Instruction::GammaCtrl8 => 0x57,
        Instruction::GammaCtrl9 => 0x58,
        Instruction::GammaCtrl10 => 0x59,
    }
}

impl Instruction {
    /// The register index that is sent as the command byte.
    pub fn code(self) -> (c: u8)
        ensures
            c == register_index(self),
    {
        match self {
            Instruction::DriverOutputCtrl => 0x01,
            Instruction::LcdAcDrivingCtrl => 0x02,
            Instruction::EntryMode => 0x03,
            Instruction::DispCtrl1 => 0x07,
            Instruction::DispCtrl2 => 0x08,
            Instruction::FrameCycleCtrl => 0x0B,
            Instruction::InterfaceCtrl => 0x0C,
            Instruction::OscCtrl => 0x0F,
            Instruction::PowerCtrl1 => 0x10,
            Instruction::PowerCtrl2 => 0x11,
            Instruction::PowerCtrl3 => 0x12,
            Instruction::PowerCtrl4 => 0x13,
            Instruction::PowerCtrl5 => 0x14,
            Instruction::VciRecycling => 0x15,
            Instruction::RamAddrSet1 => 0x20,
            Instruction::RamAddRSet2 => 0x21,
            Instruction::GramDataReg => 0x22,
            Instruction::GateScanCtrl => 0x30,
            Instruction::VerticalScrollCtrl1 => 0x31,
            Instruction::VerticalScrollCtrl2 => 0x32,
            Instruction::VerticalScrollCtrl3 => 0x33,
            Instruction::PartialDrivingPos1 => 0x34,
            Instruction::PartialDrivingPos2 => 0x35,
            Instruction::HorizontalWindowAddr1 => 0x36,
            Instruction::HorizontalWindowAddr2 => 0x37,
            Instruction::VerticalWindowAddr1 => 0x38,
            Instruction::VerticalWindowAddr2 => 0x39,
            Instruction::GammaCtrl1 => 0x50,
            Instruction::GammaCtrl2 => 0x51,
            Instruction::GammaCtrl3 => 0x52,
            Instruction::GammaCtrl4 => 0x53,
            Instruction::GammaCtrl5 => 0x54,
            Instruction::GammaCtrl6 => 0x55,
            Instruction::GammaCtrl7 => 0x56,
            Instruction::GammaCtrl8 => 0x57,
            Instruction::GammaCtrl9 => 0x58,
            Instruction::GammaCtrl10 => 0x59,
        }
    }
}

} // verus!
