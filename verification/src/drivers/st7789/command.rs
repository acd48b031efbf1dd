//! The panel controller's command vocabulary: one opcode per protocol
//! operation, with the 8-bit values fixed by the hardware datasheet.

use vstd::prelude::*;

verus! {

/// A controller command. Each variant stands for one protocol operation;
/// [`Command::opcode`] gives the single opcode byte the datasheet assigns
/// to it, which is transmitted with the command/data select line low.
#[allow(non_camel_case_types)]
#[derive(Clone, Copy, Debug, PartialEq, Eq, Structural)]
pub enum Command {
    NOP,
    SWRESET,
    RDDID,
    RDDST,
    RDDPM,
    RDDMADCTL,
    RDDCOLMOD,
    RDDIM,
    RDDSDR,
    SLPIN,
    SLPOUT,
    PTLON,
    NORON,
    INVOFF,
    INVON,
    GAMSET,
    DISPOFF,
    DISPON,
    CASET,
    RASET,
    RAMWR,
    RAMRD,
    PTLAR,
    VSCRDEF,
    TEOFF,
    TEON,
    MADCTL,
    VSCSAD,
    IDMOFF,
    IDMON,
    COLMOD,
    WRMEMC,
    RDMEMC,
    STE,
    GSCAN,
    WRDISBV,
    RDDISBV,
    WRCTRLD,
    RDCTRLD,
    WRCACE,
    RDCABC,
    WRCABCMB,
    RDCABCMB,
    RDABCSDR,
    RDID1,
    RDID2,
    RDID3,
    RAMCTRL,
    RGBCTRL,
    PORCTRL,
    FRCTRL1,
    PARCTRL,
    UNKNOWN,
    GCTRL,
    GTADJ,
    DGMEN,
    VCOMS,
    POWSAVE,
    DLPOFFSAVE,
    LCMCTRL,
    IDSET,
    VDVVRHEN,
    VRHS,
    VDVS,
    VCMOFSET,
    FRCTRL2,
    CABCCTRL,
    REGSEL1,
    REGSEL2,
    PWMFRSEL,
    PWCTRL1,
    VAPVANEN,
    CMD2EN,
    PVGAMCTRL,
    NVGAMCTRL,
    DGMLUTR,
    DGMLUTB,
    GATECTRL,
    SPI2EN,
    PWCTRL2,
    EQCTRL,
    PROMCTRL,
    PROMEN,
    NVMSET,
    PROMACT,
}

impl Command {
    /// The datasheet's opcode byte for this command.
    pub open spec fn spec_opcode(self) -> u8 {
        match self {
            Command::NOP => 0x00,
            Command::SWRESET => 0x01,
            Command::RDDID => 0x04,
            Command::RDDST => 0x09,
            Command::RDDPM => 0x0A,
            Command::RDDMADCTL => 0x0B,
            Command::RDDCOLMOD => 0x0C,
            Command::RDDIM => 0x0D,
            Command::RDDSDR => 0x0F,
            Command::SLPIN => 0x10,
            Command::SLPOUT => 0x11,
            Command::PTLON => 0x12,
            Command::NORON => 0x13,
            Command::INVOFF => 0x20,
            Command::INVON => 0x21,
            Command::GAMSET => 0x26,
            Command::DISPOFF => 0x28,
            Command::DISPON => 0x29,
            Command::CASET => 0x2A,
            Command::RASET => 0x2B,
            Command::RAMWR => 0x2C,
            Command::RAMRD => 0x2E,
            Command::PTLAR => 0x30,
            Command::VSCRDEF => 0x33,
            Command::TEOFF => 0x34,
            Command::TEON => 0x35,
            Command::MADCTL => 0x36,
            Command::VSCSAD => 0x37,
            Command::IDMOFF => 0x38,
            Command::IDMON => 0x39,
            Command::COLMOD => 0x3A,
            Command::WRMEMC => 0x3C,
            Command::RDMEMC => 0x3E,
            Command::STE => 0x44,
            Command::GSCAN => 0x45,
            Command::WRDISBV => 0x51,
            Command::RDDISBV => 0x52,
            Command::WRCTRLD => 0x53,
            Command::RDCTRLD => 0x54,
            Command::WRCACE => 0x55,
            Command::RDCABC => 0x56,
            Command::WRCABCMB => 0x5E,
            Command::RDCABCMB => 0x5F,
            Command::RDABCSDR => 0x68,
            Command::RDID1 => 0xDA,
            Command::RDID2 => 0xDB,
            Command::RDID3 => 0xDC,
            Command::RAMCTRL => 0xB0,
            Command::RGBCTRL => 0xB1,
            Command::PORCTRL => 0xB2,
            Command::FRCTRL1 => 0xB3,
            Command::PARCTRL => 0xB5,
            Command::UNKNOWN => 0xB6,
            Command::GCTRL => 0xB7,
            Command::GTADJ => 0xB8,
            Command::DGMEN => 0xBA,
            Command::VCOMS => 0xBB,
            Command::POWSAVE => 0xBC,
            Command::DLPOFFSAVE => 0xBD,
            Command::LCMCTRL => 0xC0,
            Command::IDSET => 0xC1,
            Command::VDVVRHEN => 0xC2,
            Command::VRHS => 0xC3,
            Command::VDVS => 0xC4,
            Command::VCMOFSET => 0xC5,
            Command::FRCTRL2 => 0xC6,
            Command::CABCCTRL => 0xC7,
            Command::REGSEL1 => 0xC8,
            Command::REGSEL2 => 0xCA,
            Command::PWMFRSEL => 0xCC,
            Command::PWCTRL1 => 0xD0,
            Command::VAPVANEN => 0xD2,
            Command::CMD2EN => 0xDF,
            Command::PVGAMCTRL => 0xE0,
            Command::NVGAMCTRL => 0xE1,
            Command::DGMLUTR => 0xE2,
            Command::DGMLUTB => 0xE3,
            Command::GATECTRL => 0xE4,
            Command::SPI2EN => 0xE7,
            Command::PWCTRL2 => 0xE8,
            Command::EQCTRL => 0xE9,
            Command::PROMCTRL => 0xEC,
            Command::PROMEN => 0xFA,
            Command::NVMSET => 0xFC,
            Command::PROMACT => 0xFE,
        }
    }

    pub fn opcode(self) -> (r: u8)
        ensures
            r == self.spec_opcode(),
    {
        match self {
            Command::NOP => 0x00,
            Command::SWRESET => 0x01,
            Command::RDDID => 0x04,
            Command::RDDST => 0x09,
            Command::RDDPM => 0x0A,
            Command::RDDMADCTL => 0x0B,
            Command::RDDCOLMOD => 0x0C,
            Command::RDDIM => 0x0D,
            Command::RDDSDR => 0x0F,
            Command::SLPIN => 0x10,
            Command::SLPOUT => 0x11,
            Command::PTLON => 0x12,
            Command::NORON => 0x13,
            Command::INVOFF => 0x20,
            Command::INVON => 0x21,
            Command::GAMSET => 0x26,
            Command::DISPOFF => 0x28,
            Command::DISPON => 0x29,
            Command::CASET => 0x2A,
            Command::RASET => 0x2B,
            Command::RAMWR => 0x2C,
            Command::RAMRD => 0x2E,
            Command::PTLAR => 0x30,
            Command::VSCRDEF => 0x33,
            Command::TEOFF => 0x34,
            Command::TEON => 0x35,
            Command::MADCTL => 0x36,
            Command::VSCSAD => 0x37,
            Command::IDMOFF => 0x38,
            Command::IDMON => 0x39,
            Command::COLMOD => 0x3A,
            Command::WRMEMC => 0x3C,
            Command::RDMEMC => 0x3E,
            Command::STE => 0x44,
            Command::GSCAN => 0x45,
            Command::WRDISBV => 0x51,
            Command::RDDISBV => 0x52,
            Command::WRCTRLD => 0x53,
            Command::RDCTRLD => 0x54,
            Command::WRCACE => 0x55,
            Command::RDCABC => 0x56,
            Command::WRCABCMB => 0x5E,
            Command::RDCABCMB => 0x5F,
            Command::RDABCSDR => 0x68,
            Command::RDID1 => 0xDA,
            Command::RDID2 => 0xDB,
            Command::RDID3 => 0xDC,
            Command::RAMCTRL => 0xB0,
            Command::RGBCTRL => 0xB1,
            Command::PORCTRL => 0xB2,
            Command::FRCTRL1 => 0xB3,
            Command::PARCTRL => 0xB5,
            Command::UNKNOWN => 0xB6,
            Command::GCTRL => 0xB7,
            Command::GTADJ => 0xB8,
            Command::DGMEN => 0xBA,
            Command::VCOMS => 0xBB,
            Command::POWSAVE => 0xBC,
            Command::DLPOFFSAVE => 0xBD,
            Command::LCMCTRL => 0xC0,
            Command::IDSET => 0xC1,
            Command::VDVVRHEN => 0xC2,
            Command::VRHS => 0xC3,
            Command::VDVS => 0xC4,
            Command::VCMOFSET => 0xC5,
            Command::FRCTRL2 => 0xC6,
            Command::CABCCTRL => 0xC7,
            Command::REGSEL1 => 0xC8,
            Command::REGSEL2 => 0xCA,
            Command::PWMFRSEL => 0xCC,
            Command::PWCTRL1 => 0xD0,
            Command::VAPVANEN => 0xD2,
            Command::CMD2EN => 0xDF,
            Command::PVGAMCTRL => 0xE0,
            Command::NVGAMCTRL => 0xE1,
            Command::DGMLUTR => 0xE2,
            Command::DGMLUTB => 0xE3,
            Command::GATECTRL => 0xE4,
            Command::SPI2EN => 0xE7,
            Command::PWCTRL2 => 0xE8,
            Command::EQCTRL => 0xE9,
            Command::PROMCTRL => 0xEC,
            Command::PROMEN => 0xFA,
            Command::NVMSET => 0xFC,
            Command::PROMACT => 0xFE,
        }
    }
}

} // verus!
