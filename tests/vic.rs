use zinc64::{Mode, Reg, Sprite, Vic};

const REG_M3X: u8 = 0x06;
const REG_MX8: u8 = 0x10;
const REG_CR1: u8 = 0x11;
const REG_RASTER: u8 = 0x12;
const REG_CR2: u8 = 0x16;
const REG_MEMPTR: u8 = 0x18;
const REG_EC: u8 = 0x20;
const REG_B1C: u8 = 0x22;

fn reserved_ones(reg: u8) -> u8 {
    match reg {
        0x16 => 0xe0,
        0x18 => 0x01,
        0x1e | 0x1f => 0xff,
        0x20..=0x2e => 0xf0,
        0x2f..=0x3f => 0xff,
        _ => 0x00,
    }
}

#[test]
fn colour_register_masking() {
    let mut vic = Vic::new();
    vic.write(REG_EC, 0x07);
    assert_eq!(vic.read(REG_EC), 0xf7);
    vic.write(REG_B1C, 0x55);
    assert_eq!(vic.read(REG_B1C), 0xf5);
}

#[test]
fn sprite_x_nine_bits() {
    let mut vic = Vic::new();
    vic.write(REG_M3X, 0x80);
    vic.write(REG_MX8, 0x08);
    assert_eq!(vic.sprite(3).x, 0x180);
    assert_eq!(vic.read(REG_M3X), 0x80);
    assert_eq!((vic.read(REG_MX8) >> 3) & 1, 1);
    assert_eq!(vic.read(REG_MX8), 0x08);
}

#[test]
fn mode_assembly() {
    let mut vic = Vic::new();
    assert_eq!(vic.mode(), Mode::Text);
    assert_eq!(vic.mode().value(), 0);
    vic.write(REG_CR1, 0b0100_0000);
    vic.write(REG_CR2, 0b0001_0000);
    assert_eq!(vic.mode(), Mode::InvalidText);
    assert_eq!(vic.mode().value(), 5);
    assert_eq!((vic.read(REG_CR1) >> 6) & 1, 1);
    assert_eq!((vic.read(REG_CR2) >> 4) & 1, 1);
}

#[test]
fn bitmap_mode_set_through_cr1() {
    let mut vic = Vic::new();
    vic.write(REG_CR1, 0b0010_0000);
    assert_eq!(vic.mode(), Mode::Bitmap);
    vic.write(REG_CR2, 0b0001_0000);
    assert_eq!(vic.mode(), Mode::McBitmap);
    vic.write(REG_CR1, 0b0110_0000);
    assert_eq!(vic.mode(), Mode::InvalidBitmap2);
}

#[test]
fn memptr_encoding() {
    let mut vic = Vic::new();
    vic.write(REG_MEMPTR, 0x14);
    assert_eq!(vic.video_matrix(), 0x0400);
    assert_eq!(vic.char_base(), 0x1000);
    assert_eq!(vic.read(REG_MEMPTR) & 0x01, 0x01);
    assert_eq!(vic.read(REG_MEMPTR), 0x15);
}

#[test]
fn memptr_high_values() {
    let mut vic = Vic::new();
    vic.write(REG_MEMPTR, 0xfe);
    assert_eq!(vic.video_matrix(), 0x3c00);
    assert_eq!(vic.char_base(), 0x3800);
    assert_eq!(vic.read(REG_MEMPTR), 0xff);
}

#[test]
fn power_up_reads() {
    let vic = Vic::new();
    assert_eq!(vic.read(REG_EC), 0xfe);
    assert_eq!(vic.read(0x21), 0xf6);
    assert_eq!(vic.read(REG_CR1), 0x9b);
    assert_eq!(vic.read(REG_RASTER), 0x00);
    assert_eq!(vic.read(REG_CR2), 0xe8);
    assert_eq!(vic.read(REG_MEMPTR), 0x15);
    assert_eq!(vic.read(0x1b), 0xff);
    assert_eq!(vic.read(0x15), 0x00);
}

#[test]
fn write_then_read_every_register() {
    for reg in 0u8..0x40 {
        if reg == REG_CR1 || reg == REG_RASTER {
            continue;
        }
        for value in 0u8..=255 {
            let mut vic = Vic::new();
            vic.write(reg, value);
            assert_eq!(vic.read(reg), value | reserved_ones(reg), "reg {:#x} value {:#x}", reg, value);
        }
    }
}

#[test]
fn cr1_reads_raster_bit_eight() {
    let mut vic = Vic::new();
    vic.write(REG_CR1, 0x1b);
    assert_eq!(vic.read(REG_CR1), 0x9b);
    vic.write(REG_CR1, 0xff);
    assert_eq!(vic.read(REG_CR1), 0xff);
}

#[test]
fn raster_writes_set_compare_line() {
    let mut vic = Vic::new();
    vic.write(REG_RASTER, 0x34);
    vic.write(REG_CR1, 0x80);
    assert_eq!(vic.raster_compare(), 0x134);
    assert_eq!(vic.read(REG_RASTER), 0x00);
    vic.write(REG_CR1, 0x00);
    assert_eq!(vic.raster_compare(), 0x034);
}

#[test]
fn sprite_x_split_every_sprite() {
    for n in 0u8..8 {
        for x in [0u16, 1, 0xff, 0x100, 0x1a5, 0x1ff] {
            let mut vic = Vic::new();
            vic.write(2 * n, (x & 0xff) as u8);
            vic.write(REG_MX8, ((x >> 8) as u8) << n);
            assert_eq!(vic.sprite(n as usize).x, x);
            assert_eq!(vic.read(2 * n), (x & 0xff) as u8);
            assert_eq!(((vic.read(REG_MX8) >> n) & 1) as u16, x >> 8);
        }
    }
}

#[test]
fn mode_round_trip_every_pattern() {
    for m in 0u8..8 {
        let mut vic = Vic::new();
        vic.write(REG_CR1, ((m >> 2) & 1) << 6 | ((m >> 1) & 1) << 5);
        vic.write(REG_CR2, (m & 1) << 4);
        assert_eq!(vic.mode().value(), m);
        assert_eq!(vic.mode(), Mode::from(m));
        let cr1 = vic.read(REG_CR1);
        let cr2 = vic.read(REG_CR2);
        assert_eq!((cr1 >> 6) & 1, (m >> 2) & 1);
        assert_eq!((cr1 >> 5) & 1, (m >> 1) & 1);
        assert_eq!((cr2 >> 4) & 1, m & 1);
    }
}

#[test]
fn sprite_flag_registers() {
    let mut vic = Vic::new();
    vic.write(0x15, 0b1010_0101);
    vic.write(0x17, 0b0000_0010);
    vic.write(0x1b, 0b0000_0000);
    vic.write(0x1c, 0b1000_0000);
    vic.write(0x1d, 0b0100_0000);
    assert!(vic.sprite(0).enabled);
    assert!(!vic.sprite(1).enabled);
    assert!(vic.sprite(7).enabled);
    assert!(vic.sprite(1).expand_y);
    assert!(!vic.sprite(0).priority);
    assert!(vic.sprite(7).multicolor);
    assert!(vic.sprite(6).expand_x);
    assert_eq!(vic.read(0x15), 0b1010_0101);
}

#[test]
fn sprite_colour_and_y() {
    let mut vic = Vic::new();
    vic.write(0x2e, 0x3c);
    vic.write(0x0f, 0x99);
    assert_eq!(vic.sprite(7).color, 0x0c);
    assert_eq!(vic.sprite(7).y, 0x99);
    assert_eq!(vic.read(0x2e), 0xfc);
    assert_eq!(vic.read(0x0f), 0x99);
}

#[test]
fn collision_registers_and_tail_ignore_writes() {
    let mut vic = Vic::new();
    for reg in [0x1eu8, 0x1f, 0x2f, 0x30, 0x3f] {
        vic.write(reg, 0x00);
        assert_eq!(vic.read(reg), 0xff);
    }
    assert_eq!(vic.read(REG_EC), 0xfe);
}

#[test]
fn register_decode() {
    assert_eq!(Reg::from(0x00), Reg::M0X);
    assert_eq!(Reg::from(0x10), Reg::MX8);
    assert_eq!(Reg::from(0x18), Reg::MEMPTR);
    assert_eq!(Reg::from(0x2e), Reg::M7C);
    assert_eq!(Reg::from(0x2f), Reg::IGNORE);
    assert_eq!(Reg::from(0x3f), Reg::IGNORE);
}

#[test]
fn mode_decode() {
    let modes = [
        Mode::Text,
        Mode::McText,
        Mode::Bitmap,
        Mode::McBitmap,
        Mode::EcmText,
        Mode::InvalidText,
        Mode::InvalidBitmap1,
        Mode::InvalidBitmap2,
    ];
    for (i, m) in modes.iter().enumerate() {
        assert_eq!(Mode::from(i as u8), *m);
        assert_eq!(m.value(), i as u8);
    }
}

#[test]
fn sprite_defaults() {
    let s = Sprite::new();
    assert!(!s.enabled);
    assert_eq!(s.x, 0);
    assert_eq!(s.y, 0);
    assert_eq!(s.color, 0);
    assert!(!s.expand_x && !s.expand_y && !s.multicolor);
    assert!(s.priority);
}

#[test]
fn mode_round_trip_cr2_first() {
    for m in 0u8..8 {
        let mut vic = Vic::new();
        vic.write(REG_CR2, (m & 1) << 4);
        vic.write(REG_CR1, ((m >> 2) & 1) << 6 | ((m >> 1) & 1) << 5);
        assert_eq!(vic.mode().value(), m);
        let cr1 = vic.read(REG_CR1);
        let cr2 = vic.read(REG_CR2);
        assert_eq!(((cr1 >> 6) & 1) << 2 | ((cr1 >> 5) & 1) << 1 | ((cr2 >> 4) & 1), m);
    }
}
