use std::cell::RefCell;
use std::rc::Rc;

use zinc64::{ControlPort, Datassette, IoPort, Pin, Pulse, Tape, DUTY_CYCLE};

/// CPU port: bits 0-3 and 5 are outputs, bit 4 (switch sense) is an input.
const CPU_PORT_DIRECTION: u8 = 0x2f;
const MOTOR_ON: u8 = 0x07;
const MOTOR_OFF: u8 = 0x27;

struct ListTape {
    pulses: Vec<u32>,
    pos: usize,
    reads: Rc<RefCell<usize>>,
    seeks: Rc<RefCell<Vec<u64>>>,
}

impl ListTape {
    fn new(pulses: Vec<u32>) -> ListTape {
        ListTape {
            pulses,
            pos: 0,
            reads: Rc::new(RefCell::new(0)),
            seeks: Rc::new(RefCell::new(Vec::new())),
        }
    }
}

impl Tape for ListTape {
    fn read_pulse(&mut self) -> Option<u32> {
        *self.reads.borrow_mut() += 1;
        let r = self.pulses.get(self.pos).copied();
        if r.is_some() {
            self.pos += 1;
        }
        r
    }

    fn seek(&mut self, pos: u64) {
        self.seeks.borrow_mut().push(pos);
        self.pos = pos as usize;
    }
}

fn switch_sense(port: &IoPort) -> bool {
    (port.get_value() >> 4) & 1 == 1
}

#[test]
fn control_port_bits() {
    assert_eq!(ControlPort::CassetteSwitch.value(), 4);
    assert_eq!(ControlPort::CassetteMotor.value(), 5);
}

#[test]
fn pulse_half_duty_even_length() {
    let mut p = Pulse::new(8, DUTY_CYCLE);
    let levels: Vec<bool> = (0..8).map(|_| p.advance()).collect();
    assert_eq!(levels, vec![false, false, false, false, true, true, true, true]);
    assert!(p.is_done());
}

#[test]
fn pulse_half_duty_odd_length() {
    let mut p = Pulse::new(7, DUTY_CYCLE);
    let levels: Vec<bool> = (0..7).map(|_| p.advance()).collect();
    assert_eq!(levels.iter().filter(|l| !**l).count(), 3);
    assert_eq!(levels, vec![false, false, false, true, true, true, true]);
    assert!(p.is_done());
}

#[test]
fn pulse_duty_formula() {
    let mut p = Pulse::new(10, 30);
    let levels: Vec<bool> = (0..10).map(|_| p.advance()).collect();
    assert_eq!(levels.iter().filter(|l| !**l).count(), 7);
    assert!(!levels[6] && levels[7]);
    assert!(p.is_done());
}

#[test]
fn pulse_large_length_does_not_overflow() {
    let mut p = Pulse::new(u32::MAX, 0);
    assert!(!p.is_done());
    assert!(!p.advance());
    let mut q = Pulse::new(u32::MAX, 100);
    assert!(q.advance());
}

#[test]
fn empty_pulse_is_done() {
    assert!(Pulse::new(0, DUTY_CYCLE).is_done());
}

#[test]
fn pulse_delivery() {
    let mut port = IoPort::new(CPU_PORT_DIRECTION, MOTOR_OFF);
    let mut flag = Pin::new(true);
    let mut deck = Datassette::new();
    deck.attach(ListTape::new(vec![8]));
    deck.play(&mut port);
    assert!(!switch_sense(&port));
    port.set_value(MOTOR_ON);
    assert!(deck.is_playing(&port));
    let mut levels = Vec::new();
    for _ in 0..8 {
        deck.clock(&mut port, &mut flag);
        levels.push(flag.get_active());
    }
    assert_eq!(levels, vec![false, false, false, false, true, true, true, true]);
    assert!(deck.is_playing(&port));
    deck.clock(&mut port, &mut flag);
    assert!(!deck.is_playing(&port));
    assert!(switch_sense(&port));
    deck.clock(&mut port, &mut flag);
    assert!(!deck.is_playing(&port));
    assert!(flag.get_active());
}

#[test]
fn motor_gating() {
    let mut port = IoPort::new(CPU_PORT_DIRECTION, MOTOR_ON);
    let mut flag = Pin::new(true);
    let tape = ListTape::new(vec![8]);
    let reads = tape.reads.clone();
    let mut deck = Datassette::new();
    deck.attach(tape);
    deck.play(&mut port);
    let mut levels = Vec::new();
    for _ in 0..2 {
        deck.clock(&mut port, &mut flag);
        levels.push(flag.get_active());
    }
    port.set_value(MOTOR_OFF);
    assert!(!deck.is_playing(&port));
    for _ in 0..5 {
        flag.set_active(true);
        deck.clock(&mut port, &mut flag);
        assert!(flag.get_active());
    }
    assert_eq!(*reads.borrow(), 1);
    port.set_value(MOTOR_ON);
    for _ in 0..6 {
        deck.clock(&mut port, &mut flag);
        levels.push(flag.get_active());
    }
    assert_eq!(levels, vec![false, false, false, false, true, true, true, true]);
    assert_eq!(*reads.borrow(), 1);
    deck.clock(&mut port, &mut flag);
    assert_eq!(*reads.borrow(), 2);
    assert!(!deck.is_playing(&port));
}

#[test]
fn clock_with_pulse_given_answers() {
    let mut port = IoPort::new(CPU_PORT_DIRECTION, MOTOR_ON);
    let mut flag = Pin::new(true);
    let mut deck = Datassette::new();
    deck.attach(ListTape::new(vec![]));
    deck.play(&mut port);
    deck.clock_with_pulse(&mut port, &mut flag, Some(2));
    assert!(!flag.get_active());
    deck.clock_with_pulse(&mut port, &mut flag, Some(99));
    assert!(flag.get_active());
    deck.clock_with_pulse(&mut port, &mut flag, None);
    assert!(!deck.is_playing(&port));
}

#[test]
fn play_without_tape_is_ignored() {
    let mut port = IoPort::new(CPU_PORT_DIRECTION, MOTOR_ON);
    let mut deck: Datassette<ListTape> = Datassette::new();
    deck.play(&mut port);
    assert!(!deck.is_playing(&port));
    assert!(switch_sense(&port));
}

#[test]
fn stop_twice_is_stop_once() {
    let mut port = IoPort::new(CPU_PORT_DIRECTION, MOTOR_ON);
    let mut deck = Datassette::new();
    deck.attach(ListTape::new(vec![5]));
    deck.play(&mut port);
    deck.stop(&mut port);
    let once = (deck.is_playing(&port), port.get_value());
    deck.stop(&mut port);
    assert_eq!((deck.is_playing(&port), port.get_value()), once);
    assert!(!once.0);
    assert!(switch_sense(&port));
}

#[test]
fn reset_rewinds_and_drops_pulse() {
    let mut port = IoPort::new(CPU_PORT_DIRECTION, MOTOR_ON);
    let mut flag = Pin::new(true);
    let tape = ListTape::new(vec![6, 4]);
    let seeks = tape.seeks.clone();
    let reads = tape.reads.clone();
    let mut deck = Datassette::new();
    deck.attach(tape);
    deck.play(&mut port);
    deck.clock(&mut port, &mut flag);
    deck.reset(&mut port);
    assert_eq!(*seeks.borrow(), vec![0]);
    assert!(!deck.is_playing(&port));
    assert!(switch_sense(&port));
    deck.play(&mut port);
    deck.clock(&mut port, &mut flag);
    assert_eq!(*reads.borrow(), 2);
    assert!(!flag.get_active());
}

#[test]
fn detach_stops_and_removes_tape() {
    let mut port = IoPort::new(CPU_PORT_DIRECTION, MOTOR_ON);
    let mut deck = Datassette::new();
    deck.attach(ListTape::new(vec![5]));
    deck.play(&mut port);
    deck.detach(&mut port);
    assert!(!deck.is_playing(&port));
    deck.play(&mut port);
    assert!(!deck.is_playing(&port));
}

#[test]
fn io_port_combines_latches() {
    let mut port = IoPort::new(0x0f, 0x05);
    assert_eq!(port.get_value(), 0xf5);
    port.set_input_bit(4, false);
    assert_eq!(port.get_value(), 0xe5);
    port.set_input_bit(0, false);
    assert_eq!(port.get_value(), 0xe5);
    port.set_direction(0xff);
    assert_eq!(port.get_value(), 0x05);
    assert_eq!(port.get_direction(), 0xff);
    port.set_input_bit(4, true);
    port.set_direction(0x00);
    assert_eq!(port.get_value(), 0xfe);
}

#[test]
fn pin_levels() {
    let mut pin = Pin::new(false);
    assert!(!pin.get_active());
    pin.set_active(true);
    assert!(pin.get_active());
}

#[test]
fn stopped_drive_leaves_tape_alone() {
    let mut port = IoPort::new(CPU_PORT_DIRECTION, MOTOR_ON);
    let mut flag = Pin::new(true);
    let tape = ListTape::new(vec![4]);
    let reads = tape.reads.clone();
    let mut deck = Datassette::new();
    deck.attach(tape);
    for _ in 0..3 {
        deck.clock(&mut port, &mut flag);
    }
    assert_eq!(*reads.borrow(), 0);
    assert!(flag.get_active());
}
