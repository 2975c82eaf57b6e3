//! The wires that connect chips: a one-bit `Pin` and the eight-bit
//! bidirectional `IoPort`.

use vstd::prelude::*;

use crate::bits::{update_bit, with_bit};

verus! {

/// A one-bit signal driven by one chip and sensed by another.
pub struct Pin {
    active: bool,
}

impl Pin {
    pub closed spec fn view(&self) -> bool {
        self.active
    }

    /// A pin at the given level.
    pub fn new(active: bool) -> (r: Pin)
        ensures
            r@ == active,
    {
        Pin { active }
    }

    pub fn set_active(&mut self, active: bool)
        ensures
            final(self)@ == active,
    {
        self.active = active;
    }

    pub fn get_active(&self) -> (r: bool)
        ensures
            r == self@,
    {
        self.active
    }
}

/// The latches of an eight-bit port.
pub struct IoPortView {
    /// A set bit is driven by the owner (an output); a clear bit by a peer.
    pub direction: u8,
    pub input: u8,
    pub output: u8,
}

impl IoPortView {
    /// The observable value: output bits where the direction bit is set,
    /// input bits elsewhere.
    pub open spec fn value(self) -> u8 {
        (self.output & self.direction) | (self.input & !self.direction)
    }
}

/// An eight-bit bidirectional port with separate input and output latches.
pub struct IoPort {
    direction: u8,
    input: u8,
    output: u8,
}

impl IoPort {
    pub closed spec fn view(&self) -> IoPortView {
        IoPortView { direction: self.direction, input: self.input, output: self.output }
    }

    /// A port with the given direction mask and output latch; every input bit
    /// starts high, as an unconnected line is pulled up.
    pub fn new(direction: u8, output: u8) -> (r: IoPort)
        ensures
            r@ == (IoPortView { direction, input: 0xffu8, output }),
    {
        IoPort { direction, input: 0xff, output }
    }

    pub fn get_direction(&self) -> (r: u8)
        ensures
            r == self@.direction,
    {
        self.direction
    }

    /// The observable value of the port.
    pub fn get_value(&self) -> (r: u8)
        ensures
            r == self@.value(),
    {
        (self.output & self.direction) | (self.input & !self.direction)
    }

    /// Sets the direction mask; the latches are kept.
    pub fn set_direction(&mut self, direction: u8)
        ensures
            final(self)@ == (IoPortView { direction, ..old(self)@ }),
    {
        self.direction = direction;
    }

    /// Sets the output latch (written by the owning chip).
    pub fn set_value(&mut self, output: u8)
        ensures
            final(self)@ == (IoPortView { output, ..old(self)@ }),
    {
        self.output = output;
    }

    /// Drives input bit `index` to `level` (written by a peer).
    pub fn set_input_bit(&mut self, index: usize, level: bool)
        requires
            index < 8,
        ensures
            final(self)@ == (IoPortView {
                input: with_bit(old(self)@.input, index as u8, level),
                ..old(self)@
            }),
    {
        update_bit(&mut self.input, index, level);
    }
}

} // verus!
