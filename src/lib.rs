//! Register-level model of the Commodore 64 VIC-II video controller and the
//! Datassette tape drive, with the one-bit and eight-bit wires between chips.

pub mod bits;
pub mod wire;
pub mod datassette;
pub mod vic;

pub use crate::datassette::{ControlPort, Datassette, Pulse, Tape, DUTY_CYCLE};
pub use crate::vic::{Mode, Reg, Sprite, SpriteFlag, Vic};
pub use crate::wire::{IoPort, Pin};
