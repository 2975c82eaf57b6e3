//! The Datassette tape drive: a per-cycle driver that pulls pulses from a
//! tape, drives the CIA flag pin, and is gated by the CPU port's motor bit.
//!
//! CPU I/O port bits that concern the drive:
//! bit 4 (input) is the cassette switch sense, 0 when the play button is down;
//! bit 5 (output) is the cassette motor control, 0 when the motor spins.

use vstd::prelude::*;

use crate::bits::{bit_of, test_bit, with_bit};
use crate::wire::{IoPort, IoPortView, Pin};

verus! {

/// Duty cycle of every pulse read from tape, in percent.
pub const DUTY_CYCLE: u32 = 50;

/// The CPU port lines that the drive uses.
#[derive(Copy, Clone)]
pub enum ControlPort {
    CassetteSwitch,
    CassetteMotor,
}

/// Bit of the CPU port carrying the switch sense line.
pub const SWITCH_BIT: u8 = 4;

/// Bit of the CPU port carrying the motor control line.
pub const MOTOR_BIT: u8 = 5;

impl ControlPort {
    pub open spec fn index(self) -> u8 {
        match self {
            ControlPort::CassetteSwitch => SWITCH_BIT,
            ControlPort::CassetteMotor => MOTOR_BIT,
        }
    }

    /// The bit of the CPU port that carries this line.
    pub fn value(&self) -> (r: usize)
        ensures
            r == self.index(),
    {
        match self {
            ControlPort::CassetteSwitch => 4,
            ControlPort::CassetteMotor => 5,
        }
    }
}

/// Abstract state of a pulse: cycles left in its low phase, cycles left in all.
pub struct PulseView {
    pub low: nat,
    pub remaining: nat,
}

impl PulseView {
    pub open spec fn wf(self) -> bool {
        self.low <= self.remaining
    }

    pub open spec fn is_done(self) -> bool {
        self.remaining == 0
    }

    /// The level driven during the next cycle: low while low cycles are left.
    pub open spec fn level(self) -> bool {
        self.low == 0
    }

    /// The pulse one cycle later.
    pub open spec fn stepped(self) -> PulseView {
        PulseView {
            low: if self.low == 0 { 0 } else { (self.low - 1) as nat },
            remaining: (self.remaining - 1) as nat,
        }
    }

    /// The levels driven by `k` successive advances (fewer if it ends first).
    pub open spec fn levels(self, k: nat) -> Seq<bool>
        decreases k,
    {
        if k == 0 || self.is_done() {
            Seq::empty()
        } else {
            seq![self.level()] + self.stepped().levels((k - 1) as nat)
        }
    }

    /// The pulse after `k` successive advances (stopping once it is done).
    pub open spec fn after(self, k: nat) -> PulseView
        decreases k,
    {
        if k == 0 || self.is_done() {
            self
        } else {
            self.stepped().after((k - 1) as nat)
        }
    }
}

/// A fresh pulse of `length` cycles whose opening `length * (100 - duty) / 100`
/// cycles are low.
pub open spec fn pulse_of(length: u32, duty: u32) -> PulseView {
    PulseView { low: (length * (100 - duty) / 100) as nat, remaining: length as nat }
}

/// One tape pulse, counted down cycle by cycle.
pub struct Pulse {
    low_cycles: u32,
    remaining_cycles: u32,
}

impl Pulse {
    pub closed spec fn view(&self) -> PulseView {
        PulseView { low: self.low_cycles as nat, remaining: self.remaining_cycles as nat }
    }

    pub fn new(length: u32, duty: u32) -> (r: Pulse)
        requires
            duty <= 100,
        ensures
            r@ == pulse_of(length, duty),
            r@.wf(),
    {
        let d = (100 - duty) as u64;
        assert((length as u64) * d <= 100 * 0xffff_ffffu64) by (nonlinear_arith)
            requires
                d <= 100,
                length <= 0xffff_ffffu32,
        ;
        let low = (length as u64) * d / 100;
        assert(low <= length) by (nonlinear_arith)
            requires
                low == (length as u64) * d / 100,
                d <= 100,
        ;
        Pulse { low_cycles: low as u32, remaining_cycles: length }
    }

    pub fn is_done(&self) -> (r: bool)
        ensures
            r == self@.is_done(),
    {
        self.remaining_cycles == 0
    }

    /// Spends one cycle of the pulse and returns the level for that cycle:
    /// `false` (low) while low cycles are left, `true` (high) after.
    pub fn advance(&mut self) -> (r: bool)
        requires
            !old(self)@.is_done(),
        ensures
            r == old(self)@.level(),
            final(self)@ == old(self)@.stepped(),
            old(self)@.wf() ==> final(self)@.wf(),
    {
        self.remaining_cycles = self.remaining_cycles - 1;
        if self.low_cycles == 0 {
            true
        } else {
            self.low_cycles = self.low_cycles - 1;
            false
        }
    }
}

/// A source of pulse lengths, in cycles, that can be repositioned.
pub trait Tape {
    /// The next pulse length, or `None` at the end of the tape.
    fn read_pulse(&mut self) -> Option<u32>;

    /// Moves to the given position.
    fn seek(&mut self, pos: u64);
}

/// Abstract state of the drive.
pub struct DatassetteView {
    pub playing: bool,
    pub attached: bool,
    pub pulse: PulseView,
}

/// The motor spins when the motor bit of the port's observable value is low.
pub open spec fn motor_on(port: IoPortView) -> bool {
    !bit_of(port.value(), MOTOR_BIT)
}

/// `port` with its switch sense input driven to `level`.
pub open spec fn with_switch(port: IoPortView, level: bool) -> IoPortView {
    IoPortView { input: with_bit(port.input, SWITCH_BIT, level), ..port }
}

/// The pulse that holds no cycles.
pub open spec fn idle_pulse() -> PulseView {
    PulseView { low: 0, remaining: 0 }
}

/// A freshly built drive: stopped, empty, with no pulse in flight.
pub open spec fn fresh() -> DatassetteView {
    DatassetteView { playing: false, attached: false, pulse: idle_pulse() }
}

/// The drive ticks only while playing, with the motor on and a tape inside.
pub open spec fn active(d: DatassetteView, port: IoPortView) -> bool {
    d.playing && motor_on(port) && d.attached
}

/// Drive and port after a stop: play button up, not playing.
pub open spec fn stopped(d: DatassetteView, port: IoPortView) -> (DatassetteView, IoPortView) {
    (DatassetteView { playing: false, ..d }, with_switch(port, true))
}

/// Drive and port after a reset: stopped, with the in-flight pulse dropped.
pub open spec fn reset_state(d: DatassetteView, port: IoPortView) -> (DatassetteView, IoPortView) {
    (DatassetteView { playing: false, pulse: idle_pulse(), ..d }, with_switch(port, true))
}

/// Drive, port and flag level after one cycle, where `next` is what the tape
/// answers if it is asked for a pulse (it is asked only when the drive is
/// active and the current pulse is done).
pub open spec fn clocked(d: DatassetteView, port: IoPortView, flag: bool, next: Option<u32>) -> (
    DatassetteView,
    IoPortView,
    bool,
) {
    if !active(d, port) {
        (d, port, flag)
    } else if !d.pulse.is_done() {
        (DatassetteView { pulse: d.pulse.stepped(), ..d }, port, d.pulse.level())
    } else {
        match next {
            Some(length) => {
                let p = pulse_of(length, DUTY_CYCLE);
                if p.is_done() {
                    (DatassetteView { pulse: p, ..d }, port, flag)
                } else {
                    (DatassetteView { pulse: p.stepped(), ..d }, port, p.level())
                }
            },
            None => {
                let (s, q) = stopped(d, port);
                (s, q, flag)
            },
        }
    }
}

/// The Datassette: the current pulse, the motor-state flag and the tape.
pub struct Datassette<T: Tape> {
    playing: bool,
    tape: Option<T>,
    current_pulse: Pulse,
}

impl<T: Tape> Datassette<T> {
    pub closed spec fn view(&self) -> DatassetteView {
        DatassetteView {
            playing: self.playing,
            attached: self.tape.is_some(),
            pulse: self.current_pulse@,
        }
    }

    /// The tape that is attached, if any.
    pub closed spec fn tape(&self) -> Option<T> {
        self.tape
    }

    pub open spec fn wf(&self) -> bool {
        self@.pulse.wf()
    }

    /// A stopped drive with no tape.
    pub fn new() -> (r: Datassette<T>)
        ensures
            r@ == fresh(),
            r.wf(),
    {
        Datassette { playing: false, tape: None, current_pulse: Pulse::new(0, DUTY_CYCLE) }
    }

    /// Installs a tape; playback does not start.
    pub fn attach(&mut self, tape: T)
        ensures
            final(self)@ == (DatassetteView { attached: true, ..old(self)@ }),
            final(self).tape() == Some(tape),
            old(self).wf() ==> final(self).wf(),
    {
        self.tape = Some(tape);
    }

    /// Whether the drive plays: playing, and the motor bit of `port` low.
    pub fn is_playing(&self, port: &IoPort) -> (r: bool)
        ensures
            r == (self@.playing && motor_on(port@)),
    {
        let motor_off = test_bit(port.get_value(), ControlPort::CassetteMotor.value());
        self.playing && !motor_off
    }

    /// Presses play: with a tape inside, drives the switch sense low and sets
    /// the playing flag; with none, does nothing.
    pub fn play(&mut self, port: &mut IoPort)
        ensures
            old(self)@.attached ==> final(self)@ == (DatassetteView { playing: true, ..old(self)@ })
                && final(port)@ == with_switch(old(port)@, false),
            !old(self)@.attached ==> final(self)@ == old(self)@ && final(port)@ == old(port)@,
            final(self).tape() == old(self).tape(),
            old(self).wf() ==> final(self).wf(),
    {
        if self.tape.is_some() {
            port.set_input_bit(ControlPort::CassetteSwitch.value(), false);
            self.playing = true;
        }
    }

    /// Releases play: drives the switch sense high and clears the playing flag.
    pub fn stop(&mut self, port: &mut IoPort)
        ensures
            (final(self)@, final(port)@) == stopped(old(self)@, old(port)@),
            final(self).tape() == old(self).tape(),
            old(self).wf() ==> final(self).wf(),
    {
        port.set_input_bit(ControlPort::CassetteSwitch.value(), true);
        self.playing = false;
    }

    /// Stops and removes the tape.
    pub fn detach(&mut self, port: &mut IoPort)
        ensures
            (final(self)@, final(port)@) == ({
                let (s, q) = stopped(old(self)@, old(port)@);
                (DatassetteView { attached: false, ..s }, q)
            }),
            final(self).tape() == None::<T>,
            old(self).wf() ==> final(self).wf(),
    {
        self.stop(port);
        self.tape = None;
    }

    /// Stops, drops the in-flight pulse and rewinds the tape to position 0.
    pub fn reset(&mut self, port: &mut IoPort)
        ensures
            (final(self)@, final(port)@) == reset_state(old(self)@, old(port)@),
            final(self).wf(),
    {
        port.set_input_bit(ControlPort::CassetteSwitch.value(), true);
        self.playing = false;
        self.current_pulse = Pulse::new(0, DUTY_CYCLE);
        match &mut self.tape {
            Some(tape) => tape.seek(0),
            None => {},
        }
    }

    /// One cycle, given what the tape answers if it is asked for the next
    /// pulse: an exhausted tape stops the drive; otherwise the current pulse
    /// advances and drives the flag pin.
    pub fn clock_with_pulse(&mut self, port: &mut IoPort, flag: &mut Pin, next: Option<u32>)
        requires
            old(self).wf(),
        ensures
            (final(self)@, final(port)@, final(flag)@) == clocked(
                old(self)@,
                old(port)@,
                old(flag)@,
                next,
            ),
            final(self).tape() == old(self).tape(),
            final(self).wf(),
    {
        if self.is_playing(port) && self.tape.is_some() {
            if self.current_pulse.is_done() {
                match next {
                    Some(length) => {
                        self.current_pulse = Pulse::new(length, DUTY_CYCLE);
                    },
                    None => {
                        self.stop(port);
                    },
                }
            }
            if !self.current_pulse.is_done() {
                let level = self.current_pulse.advance();
                flag.set_active(level);
            }
        }
    }

    /// One cycle: while the drive plays with a tape inside, a finished pulse
    /// is replaced by the tape's next one (or the drive stops at the end of
    /// the tape), and the current pulse advances and drives the flag pin.
    pub fn clock(&mut self, port: &mut IoPort, flag: &mut Pin)
        requires
            old(self).wf(),
        ensures
            exists|next: Option<u32>|
                (final(self)@, final(port)@, final(flag)@) == #[trigger] clocked(
                    old(self)@,
                    old(port)@,
                    old(flag)@,
                    next,
                ),
            // the tape is asked only for a pulse to replace a finished one
            !(active(old(self)@, old(port)@) && old(self)@.pulse.is_done()) ==> {
                let s = clocked(old(self)@, old(port)@, old(flag)@, None);
                (final(self)@, final(port)@, final(flag)@) == s
            },
            !(active(old(self)@, old(port)@) && old(self)@.pulse.is_done()) ==> final(self).tape()
                == old(self).tape(),
            final(self).wf(),
    {
        let asked = self.is_playing(port) && self.tape.is_some() && self.current_pulse.is_done();
        let next = if asked {
            match &mut self.tape {
                Some(tape) => tape.read_pulse(),
                None => None,
            }
        } else {
            None
        };
        self.clock_with_pulse(port, flag, next);
    }
}

/// The drive state after one cycle under each port value of `ports` in turn,
/// the tape answering `answers[i]` if it is asked at cycle `i`.
pub open spec fn run(d: DatassetteView, flag: bool, ports: Seq<IoPortView>, answers: Seq<Option<u32>>) -> DatassetteView
    decreases ports.len(),
{
    if ports.len() == 0 || answers.len() == 0 {
        d
    } else {
        let (d1, _, f1) = clocked(d, ports[0], flag, answers[0]);
        run(d1, f1, ports.drop_first(), answers.drop_first())
    }
}

/// Advancing a pulse until it is done takes `remaining` cycles and drives
/// low for the first `low` of them and high for the rest.
pub proof fn lemma_pulse_levels(p: PulseView)
    requires
        p.wf(),
    ensures
        p.levels(p.remaining) == Seq::new(p.remaining, |i: int| i >= p.low),
        p.after(p.remaining).is_done(),
        forall|k: nat| k <= p.remaining ==> #[trigger] p.after(k).remaining == p.remaining - k,
    decreases p.remaining,
{
    if p.remaining > 0 {
        let q = p.stepped();
        lemma_pulse_levels(q);
        assert forall|k: nat| k <= p.remaining implies #[trigger] p.after(k).remaining == p.remaining - k by {
            if k > 0 {
                assert(p.after(k) == q.after((k - 1) as nat));
            }
        }
        assert(p.levels(p.remaining) =~= Seq::new(p.remaining, |i: int| i >= p.low));
    } else {
        assert(p.levels(p.remaining) =~= Seq::new(p.remaining, |i: int| i >= p.low));
    }
}

/// A pulse of `length` cycles at the drive's duty cycle: of the `length`
/// advances that bring it to done, exactly the first `length / 2` drive low
/// and the others drive high; it is not done before the last of them.
pub proof fn lemma_half_duty_pulse(length: u32)
    ensures
        pulse_of(length, DUTY_CYCLE).levels(length as nat).len() == length,
        forall|i: int|
            0 <= i < length / 2 ==> !#[trigger] pulse_of(length, DUTY_CYCLE).levels(length as nat)[i],
        forall|i: int|
            length / 2 <= i < length ==> #[trigger] pulse_of(length, DUTY_CYCLE).levels(length as nat)[i],
        pulse_of(length, DUTY_CYCLE).after(length as nat).is_done(),
        forall|k: nat| k < length ==> !(#[trigger] pulse_of(length, DUTY_CYCLE).after(k)).is_done(),
{
    let p = pulse_of(length, DUTY_CYCLE);
    assert(p.low == length / 2);
    lemma_pulse_levels(p);
}

/// Stopping twice leaves drive and port as stopping once does.
pub proof fn lemma_stop_idempotent(d: DatassetteView, port: IoPortView)
    ensures
        stopped(stopped(d, port).0, stopped(d, port).1) == stopped(d, port),
{
    let x = port.input;
    assert(with_bit(with_bit(x, SWITCH_BIT, true), SWITCH_BIT, true) == with_bit(x, SWITCH_BIT, true))
        by (bit_vector);
}

/// A reset drive with a tape inside is in the state of a fresh drive that
/// was then given a tape.
pub proof fn lemma_reset_is_fresh_with_tape(d: DatassetteView, port: IoPortView)
    requires
        d.attached,
    ensures
        reset_state(d, port).0 == (DatassetteView { attached: true, ..fresh() }),
{
}

/// While the motor bit of the port stays high, clocking changes nothing in
/// the drive, whatever the tape would answer: the pulse stands still.
pub proof fn lemma_motor_off_freezes(
    d: DatassetteView,
    flag: bool,
    ports: Seq<IoPortView>,
    answers: Seq<Option<u32>>,
)
    requires
        forall|i: int| 0 <= i < ports.len() ==> !motor_on(#[trigger] ports[i]),
    ensures
        run(d, flag, ports, answers) == d,
    decreases ports.len(),
{
    if ports.len() > 0 && answers.len() > 0 {
        assert(!motor_on(ports[0]));
        let rest = ports.drop_first();
        assert forall|i: int| 0 <= i < rest.len() implies !motor_on(#[trigger] rest[i]) by {
            assert(rest[i] == ports[i + 1]);
        }
        lemma_motor_off_freezes(d, flag, rest, answers.drop_first());
    }
}

} // verus!
