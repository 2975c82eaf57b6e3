//! The VIC-II (MOS 6567/6569) register bank: how the 47 live registers of
//! its 64-byte window encode and decode the chip's programmer-visible state.

use vstd::prelude::*;

use crate::bits::{bit_of, test_bit, update_bit, with_bit};

verus! {

/// `1 << n` where `b` holds, else 0.
pub open spec fn bit_if(b: bool, n: u8) -> u8 {
    if b {
        1u8 << n
    } else {
        0u8
    }
}

/// Bit 8 of a nine-bit counter or coordinate.
pub open spec fn bit9(x: u16) -> bool {
    (x >> 8u16) & 1u16 == 1u16
}

/// Eight flags packed into a byte, flag `n` in bit `n`.
pub open spec fn pack(b: Seq<bool>) -> u8 {
    bit_if(b[0], 0) | bit_if(b[1], 1) | bit_if(b[2], 2) | bit_if(b[3], 3) | bit_if(b[4], 4)
        | bit_if(b[5], 5) | bit_if(b[6], 6) | bit_if(b[7], 7)
}

/// The eight bits of a byte, bit `n` at index `n`.
pub open spec fn bits_of(v: u8) -> Seq<bool> {
    Seq::new(8, |n: int| bit_of(v, n as u8))
}

fn bit_when(b: bool, n: u8) -> (r: u8)
    requires
        n < 8,
    ensures
        r == bit_if(b, n),
{
    if b {
        1u8 << n
    } else {
        0u8
    }
}

/// Display mode, keyed by the three bits ECM, BMM, MCM (in that order, high
/// to low).
#[derive(Copy, Clone, Debug, PartialEq, Eq, Structural)]
pub enum Mode {
    /// ECM/BMM/MCM = 0/0/0
    Text,
    /// ECM/BMM/MCM = 0/0/1
    McText,
    /// ECM/BMM/MCM = 0/1/0
    Bitmap,
    /// ECM/BMM/MCM = 0/1/1
    McBitmap,
    /// ECM/BMM/MCM = 1/0/0
    EcmText,
    /// ECM/BMM/MCM = 1/0/1
    InvalidText,
    /// ECM/BMM/MCM = 1/1/0
    InvalidBitmap1,
    /// ECM/BMM/MCM = 1/1/1
    InvalidBitmap2,
}

/// The mode for a three-bit pattern; higher bits are ignored.
pub open spec fn mode_of(bits: u8) -> Mode {
    match bits & 7 {
        0 => Mode::Text,
        1 => Mode::McText,
        2 => Mode::Bitmap,
        3 => Mode::McBitmap,
        4 => Mode::EcmText,
        5 => Mode::InvalidText,
        6 => Mode::InvalidBitmap1,
        _ => Mode::InvalidBitmap2,
    }
}

impl Mode {
    /// The three-bit pattern of the mode.
    pub open spec fn bits(self) -> u8 {
        match self {
            Mode::Text => 0,
            Mode::McText => 1,
            Mode::Bitmap => 2,
            Mode::McBitmap => 3,
            Mode::EcmText => 4,
            Mode::InvalidText => 5,
            Mode::InvalidBitmap1 => 6,
            Mode::InvalidBitmap2 => 7,
        }
    }

    pub fn from(mode: u8) -> (r: Mode)
        requires
            mode < 8,
        ensures
            r.bits() == mode,
            r == mode_of(mode),
    {
        assert(mode & 7 == mode) by (bit_vector)
            requires
                mode < 8,
        ;
        match mode {
            0 => Mode::Text,
            1 => Mode::McText,
            2 => Mode::Bitmap,
            3 => Mode::McBitmap,
            4 => Mode::EcmText,
            5 => Mode::InvalidText,
            6 => Mode::InvalidBitmap1,
            _ => Mode::InvalidBitmap2,
        }
    }

    pub fn value(&self) -> (r: u8)
        ensures
            r == self.bits(),
            r < 8,
    {
        match self {
            Mode::Text => 0,
            Mode::McText => 1,
            Mode::Bitmap => 2,
            Mode::McBitmap => 3,
            Mode::EcmText => 4,
            Mode::InvalidText => 5,
            Mode::InvalidBitmap1 => 6,
            Mode::InvalidBitmap2 => 7,
        }
    }
}

/// The registers of the window; `IGNORE` stands for the unused tail
/// `0x2f..=0x3f`.
#[allow(non_camel_case_types)]
#[derive(Copy, Clone, Debug, PartialEq, Eq, Structural)]
pub enum Reg {
    M0X,
    M0Y,
    M1X,
    M1Y,
    M2X,
    M2Y,
    M3X,
    M3Y,
    M4X,
    M4Y,
    M5X,
    M5Y,
    M6X,
    M6Y,
    M7X,
    M7Y,
    MX8,
    CR1,
    RASTER,
    LPX,
    LPY,
    ME,
    CR2,
    MYE,
    MEMPTR,
    IRR,
    IMR,
    MDP,
    MMC,
    MXE,
    MM,
    MD,
    EC,
    B0C,
    B1C,
    B2C,
    B3C,
    MM0,
    MM1,
    M0C,
    M1C,
    M2C,
    M3C,
    M4C,
    M5C,
    M6C,
    M7C,
    IGNORE,
}

impl Reg {
    /// The register's address in the window (`0xff` for the unused tail).
    pub open spec fn address(self) -> u8 {
        match self {
            Reg::M0X => 0x00,
            Reg::M0Y => 0x01,
            Reg::M1X => 0x02,
            Reg::M1Y => 0x03,
            Reg::M2X => 0x04,
            Reg::M2Y => 0x05,
            Reg::M3X => 0x06,
            Reg::M3Y => 0x07,
            Reg::M4X => 0x08,
            Reg::M4Y => 0x09,
            Reg::M5X => 0x0a,
            Reg::M5Y => 0x0b,
            Reg::M6X => 0x0c,
            Reg::M6Y => 0x0d,
            Reg::M7X => 0x0e,
            Reg::M7Y => 0x0f,
            Reg::MX8 => 0x10,
            Reg::CR1 => 0x11,
            Reg::RASTER => 0x12,
            Reg::LPX => 0x13,
            Reg::LPY => 0x14,
            Reg::ME => 0x15,
            Reg::CR2 => 0x16,
            Reg::MYE => 0x17,
            Reg::MEMPTR => 0x18,
            Reg::IRR => 0x19,
            Reg::IMR => 0x1a,
            Reg::MDP => 0x1b,
            Reg::MMC => 0x1c,
            Reg::MXE => 0x1d,
            Reg::MM => 0x1e,
            Reg::MD => 0x1f,
            Reg::EC => 0x20,
            Reg::B0C => 0x21,
            Reg::B1C => 0x22,
            Reg::B2C => 0x23,
            Reg::B3C => 0x24,
            Reg::MM0 => 0x25,
            Reg::MM1 => 0x26,
            Reg::M0C => 0x27,
            Reg::M1C => 0x28,
            Reg::M2C => 0x29,
            Reg::M3C => 0x2a,
            Reg::M4C => 0x2b,
            Reg::M5C => 0x2c,
            Reg::M6C => 0x2d,
            Reg::M7C => 0x2e,
            Reg::IGNORE => 0xff,
        }
    }

    /// The register at a six-bit address.
    pub fn from(reg: u8) -> (r: Reg)
        requires
            reg < 0x40,
        ensures
            reg <= 0x2e ==> r.address() == reg,
            reg > 0x2e ==> r == Reg::IGNORE,
    {
        match reg {
            0x00 => Reg::M0X,
            0x01 => Reg::M0Y,
            0x02 => Reg::M1X,
            0x03 => Reg::M1Y,
            0x04 => Reg::M2X,
            0x05 => Reg::M2Y,
            0x06 => Reg::M3X,
            0x07 => Reg::M3Y,
            0x08 => Reg::M4X,
            0x09 => Reg::M4Y,
            0x0a => Reg::M5X,
            0x0b => Reg::M5Y,
            0x0c => Reg::M6X,
            0x0d => Reg::M6Y,
            0x0e => Reg::M7X,
            0x0f => Reg::M7Y,
            0x10 => Reg::MX8,
            0x11 => Reg::CR1,
            0x12 => Reg::RASTER,
            0x13 => Reg::LPX,
            0x14 => Reg::LPY,
            0x15 => Reg::ME,
            0x16 => Reg::CR2,
            0x17 => Reg::MYE,
            0x18 => Reg::MEMPTR,
            0x19 => Reg::IRR,
            0x1a => Reg::IMR,
            0x1b => Reg::MDP,
            0x1c => Reg::MMC,
            0x1d => Reg::MXE,
            0x1e => Reg::MM,
            0x1f => Reg::MD,
            0x20 => Reg::EC,
            0x21 => Reg::B0C,
            0x22 => Reg::B1C,
            0x23 => Reg::B2C,
            0x24 => Reg::B3C,
            0x25 => Reg::MM0,
            0x26 => Reg::MM1,
            0x27 => Reg::M0C,
            0x28 => Reg::M1C,
            0x29 => Reg::M2C,
            0x2a => Reg::M3C,
            0x2b => Reg::M4C,
            0x2c => Reg::M5C,
            0x2d => Reg::M6C,
            0x2e => Reg::M7C,
            _ => Reg::IGNORE,
        }
    }
}

/// The per-sprite flags that registers pack one bit per sprite.
#[derive(Copy, Clone, Debug, PartialEq, Eq, Structural)]
pub enum SpriteFlag {
    /// Bit 8 of the X coordinate (MX8).
    XHigh,
    /// ME.
    Enabled,
    /// MXE.
    ExpandX,
    /// MYE.
    ExpandY,
    /// MMC.
    Multicolor,
    /// MDP.
    Priority,
}

/// A disabled sprite at the origin, in colour 0, drawn behind the
/// foreground.
pub open spec fn idle_sprite() -> Sprite {
    Sprite {
        enabled: false,
        x: 0,
        y: 0,
        color: 0,
        expand_x: false,
        expand_y: false,
        multicolor: false,
        priority: true,
    }
}

proof fn lemma_with_flag_wf(s: Sprite, f: SpriteFlag, b: bool)
    requires
        s.wf(),
    ensures
        s.with_flag(f, b).wf(),
{
    let x = s.x;
    assert(x < 512 ==> (x | 0x100u16) < 512 && (x & !0x100u16) < 512) by (bit_vector);
}

proof fn lemma_register_bounds()
    ensures
        forall|x: u16, v: u8| x < 512 ==> #[trigger] ((x & 0xff00u16) | (v as u16)) < 512,
        forall|x: u16| x < 512 ==> #[trigger] (x | 0x100u16) < 512,
        forall|x: u16| x < 512 ==> #[trigger] (x & !0x100u16) < 512,
        forall|m: u8, i: u8, b: bool| m < 8 && i < 3 ==> #[trigger] with_bit(m, i, b) < 8,
        forall|v: u8| #[trigger] (v & 0x0fu8) < 16,
        forall|v: u8| #[trigger] (v & 0x07u8) < 8,
        forall|v: u8| #![trigger (v & 0xf0u8)]
            ((((v & 0xf0u8) >> 4u8) as u16) << 10u16) < 0x4000
            && ((((v & 0xf0u8) >> 4u8) as u16) << 10u16) % 0x400 == 0,
        forall|v: u8| #![trigger (v & 0x0eu8)]
            ((((v & 0x0eu8) >> 1u8) as u16) << 11u16) < 0x4000
            && ((((v & 0x0eu8) >> 1u8) as u16) << 11u16) % 0x800 == 0,
{
    assert forall|x: u16, v: u8| x < 512 implies #[trigger] ((x & 0xff00u16) | (v as u16)) < 512 by {
        assert(x < 512 ==> ((x & 0xff00u16) | (v as u16)) < 512) by (bit_vector);
    }
    assert forall|x: u16| x < 512 implies #[trigger] (x | 0x100u16) < 512 by {
        assert(x < 512 ==> (x | 0x100u16) < 512) by (bit_vector);
    }
    assert forall|x: u16| x < 512 implies #[trigger] (x & !0x100u16) < 512 by {
        assert(x < 512 ==> (x & !0x100u16) < 512) by (bit_vector);
    }
    assert forall|m: u8, i: u8, b: bool| m < 8 && i < 3 implies #[trigger] with_bit(m, i, b) < 8 by {
        assert(m < 8 && i < 3 ==> (m | (1u8 << i)) < 8 && (m & !(1u8 << i)) < 8) by (bit_vector);
    }
    assert forall|v: u8| #[trigger] (v & 0x0fu8) < 16 by {
        assert((v & 0x0fu8) < 16) by (bit_vector);
    }
    assert forall|v: u8| #[trigger] (v & 0x07u8) < 8 by {
        assert((v & 0x07u8) < 8) by (bit_vector);
    }
    assert forall|v: u8| ((((v & 0xf0u8) >> 4u8) as u16) << 10u16) < 0x4000
        && ((((v & 0xf0u8) >> 4u8) as u16) << 10u16) % 0x400 == 0 by {
        assert(((((v & 0xf0u8) >> 4u8) as u16) << 10u16) < 0x4000
            && ((((v & 0xf0u8) >> 4u8) as u16) << 10u16) % 0x400 == 0) by (bit_vector);
    }
    assert forall|v: u8| ((((v & 0x0eu8) >> 1u8) as u16) << 11u16) < 0x4000
        && ((((v & 0x0eu8) >> 1u8) as u16) << 11u16) % 0x800 == 0 by {
        assert(((((v & 0x0eu8) >> 1u8) as u16) << 11u16) < 0x4000
            && ((((v & 0x0eu8) >> 1u8) as u16) << 11u16) % 0x800 == 0) by (bit_vector);
    }
}

/// One hardware sprite.
#[derive(Copy, Clone, Debug)]
pub struct Sprite {
    pub enabled: bool,
    /// Nine-bit X coordinate.
    pub x: u16,
    pub y: u8,
    /// Four-bit colour.
    pub color: u8,
    pub expand_x: bool,
    pub expand_y: bool,
    pub multicolor: bool,
    pub priority: bool,
}

impl Sprite {
    pub open spec fn wf(self) -> bool {
        self.x < 512 && self.color < 16
    }

    pub open spec fn flag(self, f: SpriteFlag) -> bool {
        match f {
            SpriteFlag::XHigh => bit9(self.x),
            SpriteFlag::Enabled => self.enabled,
            SpriteFlag::ExpandX => self.expand_x,
            SpriteFlag::ExpandY => self.expand_y,
            SpriteFlag::Multicolor => self.multicolor,
            SpriteFlag::Priority => self.priority,
        }
    }

    pub open spec fn with_flag(self, f: SpriteFlag, b: bool) -> Sprite {
        match f {
            SpriteFlag::XHigh => Sprite {
                x: if b {
                    self.x | 0x100u16
                } else {
                    self.x & !0x100u16
                },
                ..self
            },
            SpriteFlag::Enabled => Sprite { enabled: b, ..self },
            SpriteFlag::ExpandX => Sprite { expand_x: b, ..self },
            SpriteFlag::ExpandY => Sprite { expand_y: b, ..self },
            SpriteFlag::Multicolor => Sprite { multicolor: b, ..self },
            SpriteFlag::Priority => Sprite { priority: b, ..self },
        }
    }

    pub fn new() -> (r: Sprite)
        ensures
            r == idle_sprite(),
    {
        Sprite {
            enabled: false,
            x: 0,
            y: 0,
            color: 0,
            expand_x: false,
            expand_y: false,
            multicolor: false,
            priority: true,
        }
    }

    pub fn get_flag(&self, f: SpriteFlag) -> (r: bool)
        ensures
            r == self.flag(f),
    {
        match f {
            SpriteFlag::XHigh => (self.x >> 8u16) & 1 == 1,
            SpriteFlag::Enabled => self.enabled,
            SpriteFlag::ExpandX => self.expand_x,
            SpriteFlag::ExpandY => self.expand_y,
            SpriteFlag::Multicolor => self.multicolor,
            SpriteFlag::Priority => self.priority,
        }
    }

    pub fn set_flag(&mut self, f: SpriteFlag, b: bool)
        ensures
            *final(self) == old(self).with_flag(f, b),
    {
        match f {
            SpriteFlag::XHigh => {
                self.x = if b {
                    self.x | 0x100u16
                } else {
                    self.x & !0x100u16
                };
            },
            SpriteFlag::Enabled => self.enabled = b,
            SpriteFlag::ExpandX => self.expand_x = b,
            SpriteFlag::ExpandY => self.expand_y = b,
            SpriteFlag::Multicolor => self.multicolor = b,
            SpriteFlag::Priority => self.priority = b,
        }
    }
}

/// Programmer-visible state of the VIC-II.
#[verifier::ext_equal]
pub struct VicView {
    pub mode: Mode,
    pub enabled: bool,
    pub rsel: bool,
    pub csel: bool,
    pub scroll_x: u8,
    pub scroll_y: u8,
    pub irq_enable: u8,
    pub irq_status: u8,
    pub raster: u16,
    pub raster_compare: u16,
    pub char_base: u16,
    pub video_matrix: u16,
    pub border_color: u8,
    pub background_color: Seq<u8>,
    pub sprites: Seq<Sprite>,
    pub sprite_multicolor: Seq<u8>,
    pub light_pen_pos: Seq<u8>,
}

impl VicView {
    pub open spec fn wf(self) -> bool {
        &&& self.scroll_x < 8
        &&& self.scroll_y < 8
        &&& self.raster < 512
        &&& self.raster_compare < 512
        &&& self.video_matrix < 0x4000 && self.video_matrix % 0x400 == 0
        &&& self.char_base < 0x4000 && self.char_base % 0x800 == 0
        &&& self.border_color < 16
        &&& self.background_color.len() == 4
        &&& forall|i: int| 0 <= i < 4 ==> #[trigger] self.background_color[i] < 16
        &&& self.sprite_multicolor.len() == 2
        &&& forall|i: int| 0 <= i < 2 ==> #[trigger] self.sprite_multicolor[i] < 16
        &&& self.light_pen_pos.len() == 2
        &&& self.sprites.len() == 8
        &&& forall|i: int| 0 <= i < 8 ==> #[trigger] self.sprites[i].wf()
    }

    /// The flag `f` of every sprite, packed one bit per sprite.
    pub open spec fn flags(self, f: SpriteFlag) -> u8 {
        pack(Seq::new(8, |n: int| self.sprites[n].flag(f)))
    }

    /// Every sprite with flag `f` set from bit `n` of `value`.
    pub open spec fn with_flags(self, f: SpriteFlag, value: u8) -> VicView {
        VicView {
            sprites: Seq::new(8, |n: int| self.sprites[n].with_flag(f, bit_of(value, n as u8))),
            ..self
        }
    }

    /// What a read of register `reg` returns.
    pub open spec fn reading(self, reg: u8) -> u8 {
        if reg < 0x10 {
            let s = self.sprites[(reg / 2) as int];
            if reg % 2 == 0 {
                (s.x & 0xff) as u8
            } else {
                s.y
            }
        } else if reg == 0x10 {
            self.flags(SpriteFlag::XHigh)
        } else if reg == 0x11 {
            bit_if(bit9(self.raster), 7) | bit_if(bit_of(self.mode.bits(), 2), 6) | bit_if(
                bit_of(self.mode.bits(), 1),
                5,
            ) | bit_if(self.enabled, 4) | bit_if(self.rsel, 3) | (self.scroll_y & 7)
        } else if reg == 0x12 {
            (self.raster & 0xff) as u8
        } else if reg == 0x13 || reg == 0x14 {
            self.light_pen_pos[reg - 0x13]
        } else if reg == 0x15 {
            self.flags(SpriteFlag::Enabled)
        } else if reg == 0x16 {
            0xc0u8 | 0x20u8 | bit_if(bit_of(self.mode.bits(), 0), 4) | bit_if(self.csel, 3) | (
            self.scroll_x & 7)
        } else if reg == 0x17 {
            self.flags(SpriteFlag::ExpandY)
        } else if reg == 0x18 {
            ((((self.video_matrix >> 10u16) & 0xf) as u8) << 4u8) | ((((self.char_base >> 11u16)
                & 0x7) as u8) << 1u8) | 1u8
        } else if reg == 0x19 {
            self.irq_status
        } else if reg == 0x1a {
            self.irq_enable
        } else if reg == 0x1b {
            self.flags(SpriteFlag::Priority)
        } else if reg == 0x1c {
            self.flags(SpriteFlag::Multicolor)
        } else if reg == 0x1d {
            self.flags(SpriteFlag::ExpandX)
        } else if reg == 0x20 {
            self.border_color | 0xf0
        } else if 0x21 <= reg <= 0x24 {
            self.background_color[reg - 0x21] | 0xf0
        } else if 0x25 <= reg <= 0x26 {
            self.sprite_multicolor[reg - 0x25] | 0xf0
        } else if 0x27 <= reg <= 0x2e {
            self.sprites[reg - 0x27].color | 0xf0
        } else {
            // the collision registers and the unused tail
            0xff
        }
    }

    /// The state after `value` is written to register `reg`.
    pub open spec fn written(self, reg: u8, value: u8) -> VicView {
        if reg < 0x10 {
            let n = (reg / 2) as int;
            let s = self.sprites[n];
            if reg % 2 == 0 {
                VicView {
                    sprites: self.sprites.update(n, Sprite { x: (s.x & 0xff00) | (value as u16), ..s }),
                    ..self
                }
            } else {
                VicView { sprites: self.sprites.update(n, Sprite { y: value, ..s }), ..self }
            }
        } else if reg == 0x10 {
            self.with_flags(SpriteFlag::XHigh, value)
        } else if reg == 0x11 {
            VicView {
                raster_compare: if bit_of(value, 7) {
                    self.raster_compare | 0x100u16
                } else {
                    self.raster_compare & !0x100u16
                },
                mode: mode_of(
                    with_bit(with_bit(self.mode.bits(), 2, bit_of(value, 6)), 1, bit_of(value, 5)),
                ),
                enabled: bit_of(value, 4),
                rsel: bit_of(value, 3),
                scroll_y: value & 7,
                ..self
            }
        } else if reg == 0x12 {
            VicView { raster_compare: (self.raster_compare & 0xff00) | (value as u16), ..self }
        } else if reg == 0x13 || reg == 0x14 {
            VicView { light_pen_pos: self.light_pen_pos.update(reg - 0x13, value), ..self }
        } else if reg == 0x15 {
            self.with_flags(SpriteFlag::Enabled, value)
        } else if reg == 0x16 {
            VicView {
                mode: mode_of(with_bit(self.mode.bits(), 0, bit_of(value, 4))),
                csel: bit_of(value, 3),
                scroll_x: value & 7,
                ..self
            }
        } else if reg == 0x17 {
            self.with_flags(SpriteFlag::ExpandY, value)
        } else if reg == 0x18 {
            VicView {
                video_matrix: (((value & 0xf0) >> 4u8) as u16) << 10u16,
                char_base: (((value & 0x0e) >> 1u8) as u16) << 11u16,
                ..self
            }
        } else if reg == 0x19 {
            VicView { irq_status: value, ..self }
        } else if reg == 0x1a {
            VicView { irq_enable: value, ..self }
        } else if reg == 0x1b {
            self.with_flags(SpriteFlag::Priority, value)
        } else if reg == 0x1c {
            self.with_flags(SpriteFlag::Multicolor, value)
        } else if reg == 0x1d {
            self.with_flags(SpriteFlag::ExpandX, value)
        } else if reg == 0x20 {
            VicView { border_color: value & 0x0f, ..self }
        } else if 0x21 <= reg <= 0x24 {
            VicView {
                background_color: self.background_color.update(reg - 0x21, value & 0x0f),
                ..self
            }
        } else if 0x25 <= reg <= 0x26 {
            VicView {
                sprite_multicolor: self.sprite_multicolor.update(reg - 0x25, value & 0x0f),
                ..self
            }
        } else if 0x27 <= reg <= 0x2e {
            let n = reg - 0x27;
            VicView {
                sprites: self.sprites.update(n, Sprite { color: value & 0x0f, ..self.sprites[n] }),
                ..self
            }
        } else {
            // the collision registers and the unused tail ignore writes
            self
        }
    }
}

/// The state of a VIC-II after power-up.
pub open spec fn power_up() -> VicView {
    VicView {
        mode: Mode::Text,
        enabled: true,
        rsel: true,
        csel: true,
        scroll_x: 0,
        scroll_y: 3,
        irq_enable: 0,
        irq_status: 0,
        raster: 0x100,
        raster_compare: 0,
        char_base: 0x1000,
        video_matrix: 0x400,
        border_color: 0x0e,
        background_color: seq![6u8, 0u8, 0u8, 0u8],
        sprites: Seq::new(8, |n: int| idle_sprite()),
        sprite_multicolor: seq![0u8, 0u8],
        light_pen_pos: seq![0u8, 0u8],
    }
}

/// The VIC-II register bank.
pub struct Vic {
    mode: Mode,
    enabled: bool,
    rsel: bool,
    csel: bool,
    scroll_x: u8,
    scroll_y: u8,
    irq_enable: u8,
    irq_status: u8,
    raster: u16,
    raster_compare: u16,
    char_base: u16,
    video_matrix: u16,
    border_color: u8,
    background_color: [u8; 4],
    sprites: [Sprite; 8],
    sprite_multicolor: [u8; 2],
    light_pen_pos: [u8; 2],
}

impl Vic {
    pub closed spec fn view(&self) -> VicView {
        VicView {
            mode: self.mode,
            enabled: self.enabled,
            rsel: self.rsel,
            csel: self.csel,
            scroll_x: self.scroll_x,
            scroll_y: self.scroll_y,
            irq_enable: self.irq_enable,
            irq_status: self.irq_status,
            raster: self.raster,
            raster_compare: self.raster_compare,
            char_base: self.char_base,
            video_matrix: self.video_matrix,
            border_color: self.border_color,
            background_color: self.background_color@,
            sprites: self.sprites@,
            sprite_multicolor: self.sprite_multicolor@,
            light_pen_pos: self.light_pen_pos@,
        }
    }

    pub open spec fn wf(&self) -> bool {
        self@.wf()
    }

    /// A VIC-II in its power-up state.
    pub fn new() -> (r: Vic)
        ensures
            r@ == power_up(),
            r.wf(),
    {
        let s = Sprite::new();
        let r = Vic {
            mode: Mode::Text,
            enabled: true,
            rsel: true,
            csel: true,
            scroll_x: 0,
            scroll_y: 3,
            irq_enable: 0x00,
            irq_status: 0x00,
            raster: 0x0100,
            raster_compare: 0x00,
            char_base: 4096,
            video_matrix: 1024,
            border_color: 0x0e,
            background_color: [0x06, 0, 0, 0],
            sprites: [s, s, s, s, s, s, s, s],
            sprite_multicolor: [0, 0],
            light_pen_pos: [0, 0],
        };
        assert(r@ =~= power_up());
        r
    }

    /// The byte that a read of register `reg` returns.
    pub fn read(&self, reg: u8) -> (r: u8)
        requires
            reg < 0x40,
        ensures
            r == self@.reading(reg),
    {
        match Reg::from(reg) {
            Reg::M0X => (self.sprites[0].x & 0x00ff) as u8,
            Reg::M0Y => self.sprites[0].y,
            Reg::M1X => (self.sprites[1].x & 0x00ff) as u8,
            Reg::M1Y => self.sprites[1].y,
            Reg::M2X => (self.sprites[2].x & 0x00ff) as u8,
            Reg::M2Y => self.sprites[2].y,
            Reg::M3X => (self.sprites[3].x & 0x00ff) as u8,
            Reg::M3Y => self.sprites[3].y,
            Reg::M4X => (self.sprites[4].x & 0x00ff) as u8,
            Reg::M4Y => self.sprites[4].y,
            Reg::M5X => (self.sprites[5].x & 0x00ff) as u8,
            Reg::M5Y => self.sprites[5].y,
            Reg::M6X => (self.sprites[6].x & 0x00ff) as u8,
            Reg::M6Y => self.sprites[6].y,
            Reg::M7X => (self.sprites[7].x & 0x00ff) as u8,
            Reg::M7Y => self.sprites[7].y,
            Reg::MX8 => self.flag_bits(SpriteFlag::XHigh),
            Reg::CR1 => {
                let m = self.mode.value();
                let rst8 = bit_when((self.raster >> 8u16) & 1 == 1, 7);
                let ecm = bit_when(test_bit(m, 2), 6);
                let bmm = bit_when(test_bit(m, 1), 5);
                rst8 | ecm | bmm | bit_when(self.enabled, 4) | bit_when(self.rsel, 3) | (self.scroll_y
                    & 0x07)
            },
            Reg::RASTER => (self.raster & 0x00ff) as u8,
            Reg::LPX => self.light_pen_pos[0],
            Reg::LPY => self.light_pen_pos[1],
            Reg::ME => self.flag_bits(SpriteFlag::Enabled),
            Reg::CR2 => {
                let m = self.mode.value();
                let mcm = bit_when(test_bit(m, 0), 4);
                0xc0u8 | 0x20u8 | mcm | bit_when(self.csel, 3) | (self.scroll_x & 0x07)
            },
            Reg::MYE => self.flag_bits(SpriteFlag::ExpandY),
            Reg::MEMPTR => {
                let vm = (((self.video_matrix >> 10u16) & 0xf) as u8) << 4u8;
                let cb = (((self.char_base >> 11u16) & 0x7) as u8) << 1u8;
                vm | cb | 1u8
            },
            Reg::IRR => self.irq_status,
            Reg::IMR => self.irq_enable,
            Reg::MDP => self.flag_bits(SpriteFlag::Priority),
            Reg::MMC => self.flag_bits(SpriteFlag::Multicolor),
            Reg::MXE => self.flag_bits(SpriteFlag::ExpandX),
            // collisions are not modelled
            Reg::MM => 0xff,
            Reg::MD => 0xff,
            Reg::EC => self.border_color | 0xf0,
            Reg::B0C => self.background_color[0] | 0xf0,
            Reg::B1C => self.background_color[1] | 0xf0,
            Reg::B2C => self.background_color[2] | 0xf0,
            Reg::B3C => self.background_color[3] | 0xf0,
            Reg::MM0 => self.sprite_multicolor[0] | 0xf0,
            Reg::MM1 => self.sprite_multicolor[1] | 0xf0,
            Reg::M0C => self.sprites[0].color | 0xf0,
            Reg::M1C => self.sprites[1].color | 0xf0,
            Reg::M2C => self.sprites[2].color | 0xf0,
            Reg::M3C => self.sprites[3].color | 0xf0,
            Reg::M4C => self.sprites[4].color | 0xf0,
            Reg::M5C => self.sprites[5].color | 0xf0,
            Reg::M6C => self.sprites[6].color | 0xf0,
            Reg::M7C => self.sprites[7].color | 0xf0,
            Reg::IGNORE => 0xff,
        }
    }

    /// Writes `value` to register `reg`.
    pub fn write(&mut self, reg: u8, value: u8)
        requires
            old(self).wf(),
            reg < 0x40,
        ensures
            final(self)@ == old(self)@.written(reg, value),
            final(self).wf(),
    {
        match Reg::from(reg) {
            Reg::M0X => self.write_sprite_x(0, value),
            Reg::M0Y => self.write_sprite_y(0, value),
            Reg::M1X => self.write_sprite_x(1, value),
            Reg::M1Y => self.write_sprite_y(1, value),
            Reg::M2X => self.write_sprite_x(2, value),
            Reg::M2Y => self.write_sprite_y(2, value),
            Reg::M3X => self.write_sprite_x(3, value),
            Reg::M3Y => self.write_sprite_y(3, value),
            Reg::M4X => self.write_sprite_x(4, value),
            Reg::M4Y => self.write_sprite_y(4, value),
            Reg::M5X => self.write_sprite_x(5, value),
            Reg::M5Y => self.write_sprite_y(5, value),
            Reg::M6X => self.write_sprite_x(6, value),
            Reg::M6Y => self.write_sprite_y(6, value),
            Reg::M7X => self.write_sprite_x(7, value),
            Reg::M7Y => self.write_sprite_y(7, value),
            Reg::MX8 => self.set_flags(SpriteFlag::XHigh, value),
            Reg::CR1 => self.write_cr1(value),
            Reg::RASTER => self.write_raster(value),
            Reg::LPX => self.write_light_pen(0, value),
            Reg::LPY => self.write_light_pen(1, value),
            Reg::ME => self.set_flags(SpriteFlag::Enabled, value),
            Reg::CR2 => self.write_cr2(value),
            Reg::MYE => self.set_flags(SpriteFlag::ExpandY, value),
            Reg::MEMPTR => self.write_memptr(value),
            Reg::IRR => self.write_irq_status(value),
            Reg::IMR => self.write_irq_enable(value),
            Reg::MDP => self.set_flags(SpriteFlag::Priority, value),
            Reg::MMC => self.set_flags(SpriteFlag::Multicolor, value),
            Reg::MXE => self.set_flags(SpriteFlag::ExpandX, value),
            Reg::MM => {},
            Reg::MD => {},
            Reg::EC => self.write_border(value),
            Reg::B0C => self.write_background(0, value),
            Reg::B1C => self.write_background(1, value),
            Reg::B2C => self.write_background(2, value),
            Reg::B3C => self.write_background(3, value),
            Reg::MM0 => self.write_sprite_multicolor(0, value),
            Reg::MM1 => self.write_sprite_multicolor(1, value),
            Reg::M0C => self.write_sprite_color(0, value),
            Reg::M1C => self.write_sprite_color(1, value),
            Reg::M2C => self.write_sprite_color(2, value),
            Reg::M3C => self.write_sprite_color(3, value),
            Reg::M4C => self.write_sprite_color(4, value),
            Reg::M5C => self.write_sprite_color(5, value),
            Reg::M6C => self.write_sprite_color(6, value),
            Reg::M7C => self.write_sprite_color(7, value),
            Reg::IGNORE => {},
        }
    }

    /// The display mode.
    pub fn mode(&self) -> (r: Mode)
        ensures
            r == self@.mode,
    {
        self.mode
    }

    /// Sprite `n`.
    pub fn sprite(&self, n: usize) -> (r: Sprite)
        requires
            n < 8,
        ensures
            r == self@.sprites[n as int],
    {
        self.sprites[n]
    }

    /// Base address of the video matrix.
    pub fn video_matrix(&self) -> (r: u16)
        ensures
            r == self@.video_matrix,
    {
        self.video_matrix
    }

    /// Base address of the character set.
    pub fn char_base(&self) -> (r: u16)
        ensures
            r == self@.char_base,
    {
        self.char_base
    }

    /// The raster line that raises the raster interrupt.
    pub fn raster_compare(&self) -> (r: u16)
        ensures
            r == self@.raster_compare,
    {
        self.raster_compare
    }

    fn write_sprite_x(&mut self, n: usize, value: u8)
        requires
            old(self).wf(),
            n < 8,
        ensures
            final(self)@ == old(self)@.written((2 * n) as u8, value),
            final(self).wf(),
    {
        proof {
            lemma_register_bounds();
        }
        let mut s = self.sprites[n];
        assert(s.wf());
        s.x = (s.x & 0xff00) | (value as u16);
        self.sprites[n] = s;
        assert forall|j: int| 0 <= j < 8 implies #[trigger] self@.sprites[j].wf() by {
            if j != n as int {
                assert(self@.sprites[j] == old(self)@.sprites[j]);
            } else {
                assert(self@.sprites[j] == s);
            }
        }
        assert(self@ =~= old(self)@.written((2 * n) as u8, value));
    }

    fn write_sprite_y(&mut self, n: usize, value: u8)
        requires
            old(self).wf(),
            n < 8,
        ensures
            final(self)@ == old(self)@.written((2 * n + 1) as u8, value),
            final(self).wf(),
    {
        let mut s = self.sprites[n];
        assert(s.wf());
        s.y = value;
        self.sprites[n] = s;
        assert forall|j: int| 0 <= j < 8 implies #[trigger] self@.sprites[j].wf() by {
            if j != n as int {
                assert(self@.sprites[j] == old(self)@.sprites[j]);
            } else {
                assert(self@.sprites[j] == s);
            }
        }
        assert(self@ =~= old(self)@.written((2 * n + 1) as u8, value));
    }

    fn write_sprite_color(&mut self, n: usize, value: u8)
        requires
            old(self).wf(),
            n < 8,
        ensures
            final(self)@ == old(self)@.written((0x27 + n) as u8, value),
            final(self).wf(),
    {
        proof {
            lemma_register_bounds();
        }
        let mut s = self.sprites[n];
        assert(s.wf());
        s.color = value & 0x0f;
        self.sprites[n] = s;
        assert forall|j: int| 0 <= j < 8 implies #[trigger] self@.sprites[j].wf() by {
            if j != n as int {
                assert(self@.sprites[j] == old(self)@.sprites[j]);
            } else {
                assert(self@.sprites[j] == s);
            }
        }
        assert(self@ =~= old(self)@.written((0x27 + n) as u8, value));
    }

    fn write_background(&mut self, n: usize, value: u8)
        requires
            old(self).wf(),
            n < 4,
        ensures
            final(self)@ == old(self)@.written((0x21 + n) as u8, value),
            final(self).wf(),
    {
        proof {
            lemma_register_bounds();
        }
        self.background_color[n] = value & 0x0f;
        assert(self@ =~= old(self)@.written((0x21 + n) as u8, value));
    }

    fn write_sprite_multicolor(&mut self, n: usize, value: u8)
        requires
            old(self).wf(),
            n < 2,
        ensures
            final(self)@ == old(self)@.written((0x25 + n) as u8, value),
            final(self).wf(),
    {
        proof {
            lemma_register_bounds();
        }
        self.sprite_multicolor[n] = value & 0x0f;
        assert(self@ =~= old(self)@.written((0x25 + n) as u8, value));
    }

    fn write_light_pen(&mut self, n: usize, value: u8)
        requires
            old(self).wf(),
            n < 2,
        ensures
            final(self)@ == old(self)@.written((0x13 + n) as u8, value),
            final(self).wf(),
    {
        self.light_pen_pos[n] = value;
        assert(self@ =~= old(self)@.written((0x13 + n) as u8, value));
    }

    fn write_border(&mut self, value: u8)
        requires
            old(self).wf(),
        ensures
            final(self)@ == old(self)@.written(0x20, value),
            final(self).wf(),
    {
        proof {
            lemma_register_bounds();
        }
        self.border_color = value & 0x0f;
        assert(self@ =~= old(self)@.written(0x20, value));
    }

    fn write_irq_status(&mut self, value: u8)
        requires
            old(self).wf(),
        ensures
            final(self)@ == old(self)@.written(0x19, value),
            final(self).wf(),
    {
        self.irq_status = value;
        assert(self@ =~= old(self)@.written(0x19, value));
    }

    fn write_irq_enable(&mut self, value: u8)
        requires
            old(self).wf(),
        ensures
            final(self)@ == old(self)@.written(0x1a, value),
            final(self).wf(),
    {
        self.irq_enable = value;
        assert(self@ =~= old(self)@.written(0x1a, value));
    }

    fn write_raster(&mut self, value: u8)
        requires
            old(self).wf(),
        ensures
            final(self)@ == old(self)@.written(0x12, value),
            final(self).wf(),
    {
        proof {
            lemma_register_bounds();
        }
        self.raster_compare = (self.raster_compare & 0xff00) | (value as u16);
        assert(self@ =~= old(self)@.written(0x12, value));
    }

    fn write_cr1(&mut self, value: u8)
        requires
            old(self).wf(),
        ensures
            final(self)@ == old(self)@.written(0x11, value),
            final(self).wf(),
    {
        proof {
            lemma_register_bounds();
        }
        self.raster_compare = if test_bit(value, 7) {
            self.raster_compare | 0x100u16
        } else {
            self.raster_compare & !0x100u16
        };
        let mut m = self.mode.value();
        update_bit(&mut m, 2, test_bit(value, 6));
        update_bit(&mut m, 1, test_bit(value, 5));
        self.mode = Mode::from(m);
        self.enabled = test_bit(value, 4);
        self.rsel = test_bit(value, 3);
        self.scroll_y = value & 0x07;
        assert(self@ =~= old(self)@.written(0x11, value));
    }

    fn write_cr2(&mut self, value: u8)
        requires
            old(self).wf(),
        ensures
            final(self)@ == old(self)@.written(0x16, value),
            final(self).wf(),
    {
        proof {
            lemma_register_bounds();
        }
        let mut m = self.mode.value();
        update_bit(&mut m, 0, test_bit(value, 4));
        self.mode = Mode::from(m);
        self.csel = test_bit(value, 3);
        self.scroll_x = value & 0x07;
        assert(self@ =~= old(self)@.written(0x16, value));
    }

    fn write_memptr(&mut self, value: u8)
        requires
            old(self).wf(),
        ensures
            final(self)@ == old(self)@.written(0x18, value),
            final(self).wf(),
    {
        proof {
            lemma_register_bounds();
        }
        self.video_matrix = (((value & 0xf0) >> 4u8) as u16) << 10u16;
        self.char_base = (((value & 0x0e) >> 1u8) as u16) << 11u16;
        assert(self@ =~= old(self)@.written(0x18, value));
    }

    fn flag_bits(&self, f: SpriteFlag) -> (r: u8)
        ensures
            r == self@.flags(f),
    {
        let s = &self.sprites;
        bit_when(s[0].get_flag(f), 0) | bit_when(s[1].get_flag(f), 1) | bit_when(s[2].get_flag(f), 2)
            | bit_when(s[3].get_flag(f), 3) | bit_when(s[4].get_flag(f), 4) | bit_when(
            s[5].get_flag(f),
            5,
        ) | bit_when(s[6].get_flag(f), 6) | bit_when(s[7].get_flag(f), 7)
    }

    fn set_flags(&mut self, f: SpriteFlag, value: u8)
        requires
            old(self).wf(),
        ensures
            final(self)@ == old(self)@.with_flags(f, value),
            final(self).wf(),
    {
        let mut sprites = self.sprites;
        let mut i: usize = 0;
        while i < 8
            invariant
                i <= 8,
                forall|j: int| 0 <= j < i ==> sprites@[j] == #[trigger] self.sprites@[j].with_flag(f, bit_of(value, j as u8)),
                forall|j: int| i <= j < 8 ==> sprites@[j] == #[trigger] self.sprites@[j],
            decreases 8 - i,
        {
            let mut s = sprites[i];
            s.set_flag(f, test_bit(value, i));
            sprites[i] = s;
            i = i + 1;
        }
        assert forall|j: int| 0 <= j < 8 implies #[trigger] sprites@[j].wf() by {
            assert(sprites@[j] == self.sprites@[j].with_flag(f, bit_of(value, j as u8)));
            lemma_with_flag_wf(self.sprites@[j], f, bit_of(value, j as u8));
        }
        self.sprites = sprites;
        assert(self@ =~= old(self)@.with_flags(f, value));
    }
}

/// Bits of register `reg` that read back as 1 whatever was written: the
/// unused high nibble of the colour registers, the unused top bits of CR2,
/// bit 0 of MEMPTR, and all of the collision registers and the unused tail.
pub open spec fn reserved_ones(reg: u8) -> u8 {
    if reg == 0x16 {
        0xe0
    } else if reg == 0x18 {
        0x01
    } else if reg == 0x1e || reg == 0x1f || reg > 0x2e {
        0xff
    } else if 0x20 <= reg {
        0xf0
    } else {
        0
    }
}

proof fn lemma_flag_round_trip(s: Sprite, f: SpriteFlag, b: bool)
    ensures
        s.with_flag(f, b).flag(f) == b,
{
    let x = s.x;
    assert(bit9(x | 0x100u16) && !bit9(x & !0x100u16)) by (bit_vector);
}

proof fn lemma_pack_bit(b: Seq<bool>, n: u8)
    requires
        n < 8,
    ensures
        bit_of(pack(b), n) == b[n as int],
{
    let (b0, b1, b2, b3, b4, b5, b6, b7) = (b[0], b[1], b[2], b[3], b[4], b[5], b[6], b[7]);
    let p = pack(b);
    assert(bit_of(p, n) == (if n == 0 { b0 } else if n == 1 { b1 } else if n == 2 { b2 } else if n
        == 3 { b3 } else if n == 4 { b4 } else if n == 5 { b5 } else if n == 6 { b6 } else { b7 }))
        by (bit_vector)
        requires
            n < 8,
            p == bit_if(b0, 0) | bit_if(b1, 1) | bit_if(b2, 2) | bit_if(b3, 3) | bit_if(b4, 4)
                | bit_if(b5, 5) | bit_if(b6, 6) | bit_if(b7, 7),
    ;
}

proof fn lemma_pack_bits_of(v: u8)
    ensures
        pack(bits_of(v)) == v,
{
    let b = bits_of(v);
    assert(pack(b) == bit_if(bit_of(v, 0), 0) | bit_if(bit_of(v, 1), 1) | bit_if(bit_of(v, 2), 2)
        | bit_if(bit_of(v, 3), 3) | bit_if(bit_of(v, 4), 4) | bit_if(bit_of(v, 5), 5) | bit_if(
        bit_of(v, 6),
        6,
    ) | bit_if(bit_of(v, 7), 7));
    assert(bit_if(bit_of(v, 0), 0) | bit_if(bit_of(v, 1), 1) | bit_if(bit_of(v, 2), 2) | bit_if(
        bit_of(v, 3),
        3,
    ) | bit_if(bit_of(v, 4), 4) | bit_if(bit_of(v, 5), 5) | bit_if(bit_of(v, 6), 6) | bit_if(
        bit_of(v, 7),
        7,
    ) == v) by (bit_vector);
}

proof fn lemma_flags_written(v: VicView, f: SpriteFlag, value: u8)
    requires
        v.sprites.len() == 8,
    ensures
        v.with_flags(f, value).flags(f) == value,
{
    let w = v.with_flags(f, value);
    assert forall|n: int| 0 <= n < 8 implies #[trigger] w.sprites[n].flag(f) == bits_of(value)[n] by {
        lemma_flag_round_trip(v.sprites[n], f, bit_of(value, n as u8));
    }
    assert(Seq::new(8, |n: int| w.sprites[n].flag(f)) =~= bits_of(value));
    lemma_pack_bits_of(value);
}

proof fn lemma_mode_of_bits(m: u8)
    requires
        m < 8,
    ensures
        mode_of(m).bits() == m,
{
    assert(m & 7 == m) by (bit_vector)
        requires
            m < 8,
    ;
}

proof fn lemma_with_bit_small(m: u8, i: u8, b: bool)
    requires
        m < 8,
        i < 3,
    ensures
        with_bit(m, i, b) < 8,
        bit_of(with_bit(m, i, b), i) == b,
        forall|j: u8| j < 8 && j != i ==> bit_of(#[trigger] with_bit(m, i, b), j) == bit_of(m, j),
{
    assert(m < 8 && i < 3 ==> (m | (1u8 << i)) < 8 && (m & !(1u8 << i)) < 8) by (bit_vector);
    assert(i < 3 ==> bit_of(m | (1u8 << i), i) && !bit_of(m & !(1u8 << i), i)) by (bit_vector);
    assert forall|j: u8| j < 8 && j != i implies bit_of(#[trigger] with_bit(m, i, b), j) == bit_of(m, j) by {
        assert(j < 8 && j != i && i < 3 ==> bit_of(m | (1u8 << i), j) == bit_of(m, j) && bit_of(
            m & !(1u8 << i),
            j,
        ) == bit_of(m, j)) by (bit_vector);
    }
}

/// Writing a register and reading it back gives the written byte with the
/// register's reserved bits read as 1. RASTER and bit 7 of CR1 read the
/// current raster line rather than the compare value they write, so there
/// the written bits must already match the raster line.
pub proof fn lemma_write_read_back(v: VicView, reg: u8, value: u8)
    requires
        v.wf(),
        reg < 0x40,
        reg == 0x11 ==> bit_of(value, 7) == bit9(v.raster),
        reg == 0x12 ==> value == (v.raster & 0xff) as u8,
    ensures
        v.written(reg, value).reading(reg) == value | reserved_ones(reg),
{
    let w = v.written(reg, value);
    assert(value == value | 0) by (bit_vector);
    if reg < 0x10 {
        let x = v.sprites[(reg / 2) as int].x;
        assert(((((x & 0xff00u16) | (value as u16)) & 0xff) as u8) == value | 0) by (bit_vector);
    } else if reg == 0x10 {
        lemma_flags_written(v, SpriteFlag::XHigh, value);
    } else if reg == 0x11 {
        let m = v.mode.bits();
        let m1 = with_bit(m, 2, bit_of(value, 6));
        let m2 = with_bit(m1, 1, bit_of(value, 5));
        lemma_with_bit_small(m, 2, bit_of(value, 6));
        lemma_with_bit_small(m1, 1, bit_of(value, 5));
        lemma_mode_of_bits(m2);
        assert(bit_of(m2, 2) == bit_of(value, 6));
        let r7 = bit9(v.raster);
        assert(r7 == bit_of(value, 7) ==> bit_if(r7, 7) | bit_if(bit_of(value, 6), 6) | bit_if(
            bit_of(value, 5),
            5,
        ) | bit_if(bit_of(value, 4), 4) | bit_if(bit_of(value, 3), 3) | ((value & 7) & 7) == value
            | 0) by (bit_vector);
    } else if reg == 0x12 {
    } else if reg == 0x13 || reg == 0x14 {
    } else if reg == 0x15 {
        lemma_flags_written(v, SpriteFlag::Enabled, value);
    } else if reg == 0x16 {
        let m = v.mode.bits();
        let m1 = with_bit(m, 0, bit_of(value, 4));
        lemma_with_bit_small(m, 0, bit_of(value, 4));
        lemma_mode_of_bits(m1);
        assert(0xc0u8 | 0x20u8 | bit_if(bit_of(value, 4), 4) | bit_if(bit_of(value, 3), 3) | ((
        value & 7) & 7) == value | 0xe0) by (bit_vector);
    } else if reg == 0x17 {
        lemma_flags_written(v, SpriteFlag::ExpandY, value);
    } else if reg == 0x18 {
        assert(((((((((value & 0xf0u8) >> 4u8) as u16) << 10u16) >> 10u16) & 0xf) as u8) << 4u8)
            | ((((((((value & 0x0eu8) >> 1u8) as u16) << 11u16) >> 11u16) & 0x7) as u8) << 1u8)
            | 1u8 == value | 0x01) by (bit_vector);
    } else if reg == 0x19 || reg == 0x1a {
    } else if reg == 0x1b {
        lemma_flags_written(v, SpriteFlag::Priority, value);
    } else if reg == 0x1c {
        lemma_flags_written(v, SpriteFlag::Multicolor, value);
    } else if reg == 0x1d {
        lemma_flags_written(v, SpriteFlag::ExpandX, value);
    } else if reg <= 0x2e && reg >= 0x20 {
        assert((value & 0x0f) | 0xf0 == value | 0xf0) by (bit_vector);
    } else {
        assert(0xffu8 == value | 0xff) by (bit_vector);
    }
}

/// A nine-bit sprite X coordinate written as its low byte in MnX and its
/// bit 8 as bit n of MX8 is held whole, and reads back split the same way.
pub proof fn lemma_sprite_x_split(v: VicView, n: u8, x: u16, high: u8)
    requires
        v.wf(),
        n < 8,
        x < 512,
        bit_of(high, n) == (x >> 8u16 == 1),
    ensures
        ({
            let w = v.written((2 * n) as u8, (x & 0xff) as u8).written(0x10, high);
            &&& w.sprites[n as int].x == x
            &&& w.reading((2 * n) as u8) == (x & 0xff) as u8
            &&& bit_of(w.reading(0x10), n) == (x >> 8u16 == 1)
        }),
{
    let lo = (x & 0xff) as u8;
    let v1 = v.written((2 * n) as u8, lo);
    let w = v1.written(0x10, high);
    let x0 = v.sprites[n as int].x;
    assert(v.sprites[n as int].wf());
    let x1 = (x0 & 0xff00u16) | (lo as u16);
    assert(v1.sprites[n as int].x == x1);
    let b = bit_of(high, n);
    assert(x0 < 512 && x < 512 && lo == (x & 0xff) as u8 && x1 == (x0 & 0xff00u16) | (lo as u16)
        && b == (x >> 8u16 == 1) ==> (if b {
        x1 | 0x100u16
    } else {
        x1 & !0x100u16
    }) == x) by (bit_vector);
    assert(w.sprites[n as int] == v1.sprites[n as int].with_flag(SpriteFlag::XHigh, b));
    assert(w.sprites[n as int].x == (if b {
        x1 | 0x100u16
    } else {
        x1 & !0x100u16
    }));
    assert(w.sprites[n as int].x == x);
    lemma_pack_bit(Seq::new(8, |k: int| w.sprites[k].flag(SpriteFlag::XHigh)), n);
    assert(bit9(x) == (x >> 8u16 == 1)) by (bit_vector)
        requires
            x < 512,
    ;
}

/// The display mode written as ECM and BMM through CR1 and MCM through CR2
/// is the mode of those three bits, and reads back in the same positions.
pub proof fn lemma_mode_round_trip(v: VicView, m: u8, cr1: u8, cr2: u8)
    requires
        v.wf(),
        m < 8,
        bit_of(cr1, 6) == bit_of(m, 2),
        bit_of(cr1, 5) == bit_of(m, 1),
        bit_of(cr2, 4) == bit_of(m, 0),
    ensures
        ({
            let w = v.written(0x11, cr1).written(0x16, cr2);
            &&& w.mode == mode_of(m)
            &&& w.mode.bits() == m
            &&& bit_of(w.reading(0x11), 6) == bit_of(m, 2)
            &&& bit_of(w.reading(0x11), 5) == bit_of(m, 1)
            &&& bit_of(w.reading(0x16), 4) == bit_of(m, 0)
        }),
{
    let m0 = v.mode.bits();
    let m1 = with_bit(m0, 2, bit_of(cr1, 6));
    let m2 = with_bit(m1, 1, bit_of(cr1, 5));
    lemma_with_bit_small(m0, 2, bit_of(cr1, 6));
    lemma_with_bit_small(m1, 1, bit_of(cr1, 5));
    lemma_mode_of_bits(m2);
    let m3 = with_bit(m2, 0, bit_of(cr2, 4));
    lemma_with_bit_small(m2, 0, bit_of(cr2, 4));
    lemma_mode_of_bits(m3);
    assert(m3 == m) by (bit_vector)
        requires
            m < 8,
            m3 < 8,
            bit_of(m3, 0) == bit_of(m, 0),
            bit_of(m3, 1) == bit_of(m, 1),
            bit_of(m3, 2) == bit_of(m, 2),
    ;
    let w = v.written(0x11, cr1).written(0x16, cr2);
    let (a, b, c, d, e, s) = (bit9(w.raster), bit_of(m, 2), bit_of(m, 1), w.enabled, w.rsel, w.scroll_y);
    assert(bit_of(bit_if(a, 7) | bit_if(b, 6) | bit_if(c, 5) | bit_if(d, 4) | bit_if(e, 3) | (s & 7), 6) == b
        && bit_of(bit_if(a, 7) | bit_if(b, 6) | bit_if(c, 5) | bit_if(d, 4) | bit_if(e, 3) | (s & 7), 5) == c)
        by (bit_vector);
    let (g, h, t) = (bit_of(m, 0), w.csel, w.scroll_x);
    assert(bit_of(0xc0u8 | 0x20u8 | bit_if(g, 4) | bit_if(h, 3) | (t & 7), 4) == g) by (bit_vector);
}

/// The display mode written as MCM through CR2 and then ECM and BMM through
/// CR1 is the mode of those three bits, and reads back in the same positions.
pub proof fn lemma_mode_round_trip_cr2_first(v: VicView, m: u8, cr1: u8, cr2: u8)
    requires
        v.wf(),
        m < 8,
        bit_of(cr1, 6) == bit_of(m, 2),
        bit_of(cr1, 5) == bit_of(m, 1),
        bit_of(cr2, 4) == bit_of(m, 0),
    ensures
        ({
            let w = v.written(0x16, cr2).written(0x11, cr1);
            &&& w.mode == mode_of(m)
            &&& w.mode.bits() == m
            &&& bit_of(w.reading(0x11), 6) == bit_of(m, 2)
            &&& bit_of(w.reading(0x11), 5) == bit_of(m, 1)
            &&& bit_of(w.reading(0x16), 4) == bit_of(m, 0)
        }),
{
    let m0 = v.mode.bits();
    let m1 = with_bit(m0, 0, bit_of(cr2, 4));
    lemma_with_bit_small(m0, 0, bit_of(cr2, 4));
    lemma_mode_of_bits(m1);
    let m2 = with_bit(m1, 2, bit_of(cr1, 6));
    let m3 = with_bit(m2, 1, bit_of(cr1, 5));
    lemma_with_bit_small(m1, 2, bit_of(cr1, 6));
    lemma_with_bit_small(m2, 1, bit_of(cr1, 5));
    lemma_mode_of_bits(m3);
    assert(m3 == m) by (bit_vector)
        requires
            m < 8,
            m3 < 8,
            bit_of(m3, 0) == bit_of(m, 0),
            bit_of(m3, 1) == bit_of(m, 1),
            bit_of(m3, 2) == bit_of(m, 2),
    ;
    let w = v.written(0x16, cr2).written(0x11, cr1);
    let (a, b, c, d, e, s) = (bit9(w.raster), bit_of(m, 2), bit_of(m, 1), w.enabled, w.rsel, w.scroll_y);
    assert(bit_of(bit_if(a, 7) | bit_if(b, 6) | bit_if(c, 5) | bit_if(d, 4) | bit_if(e, 3) | (s & 7), 6) == b
        && bit_of(bit_if(a, 7) | bit_if(b, 6) | bit_if(c, 5) | bit_if(d, 4) | bit_if(e, 3) | (s & 7), 5) == c)
        by (bit_vector);
    let (g, h, t) = (bit_of(m, 0), w.csel, w.scroll_x);
    assert(bit_of(0xc0u8 | 0x20u8 | bit_if(g, 4) | bit_if(h, 3) | (t & 7), 4) == g) by (bit_vector);
}

} // verus!
