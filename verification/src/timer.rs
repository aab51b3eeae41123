//! The two one-byte countdown timers.
//!
//! A timer holds an 8-bit value and an active flag.  Setting a value
//! activates the timer; each tick decrements the value by one, saturating
//! at zero, and deactivates the timer when zero is reached.  The delay
//! timer is a bare countdown; the sound timer additionally emits abstract
//! tone-control signals, which it leaves in a single-slot mailbox for the
//! host to consume ([`SoundTimer::take_message`]) instead of talking to any
//! concrete audio backend.

use vstd::prelude::*;

verus! {

/// An abstract tone-control signal for an external audio collaborator.
#[derive(Clone, Copy, Debug, PartialEq, Eq, Structural)]
pub enum SoundMessage {
    /// Start the tone: the sound timer was set.
    Play,
    /// Stop the tone: the sound timer expired.
    Pause,
    /// Stop the tone for good: the interpreter is being torn down.
    Stop,
}

/// The mathematical state of a countdown timer.
#[verifier::ext_equal]
pub ghost struct TimerView {
    pub value: u8,
    pub active: bool,
}

/// The mathematical state of the sound timer: the countdown plus the
/// tone-control signal waiting to be consumed, if any.
#[verifier::ext_equal]
pub ghost struct SoundTimerView {
    pub value: u8,
    pub active: bool,
    pub pending: Option<SoundMessage>,
}

/// The countdown rule shared by both timers: an inactive timer is
/// unchanged; an active timer loses one, saturating at zero, and
/// deactivates on reaching zero.
pub open spec fn tick_timer(t: TimerView) -> TimerView {
    if !t.active {
        t
    } else if t.value > 1 {
        TimerView { value: (t.value - 1) as u8, active: true }
    } else {
        TimerView { value: 0, active: false }
    }
}

/// The countdown rule of the sound timer: as [`tick_timer`], and the tick
/// that brings an active timer to zero leaves a [`SoundMessage::Pause`]
/// signal in the mailbox.
pub open spec fn tick_sound_timer(t: SoundTimerView) -> SoundTimerView {
    if !t.active {
        t
    } else if t.value > 1 {
        SoundTimerView { value: (t.value - 1) as u8, active: true, pending: t.pending }
    } else {
        SoundTimerView { value: 0, active: false, pending: Option::Some(SoundMessage::Pause) }
    }
}

/// The effect of setting the sound timer: the value is assigned, the timer
/// activates, and a [`SoundMessage::Play`] signal is left in the mailbox.
pub open spec fn set_sound_timer(t: SoundTimerView, value: u8) -> SoundTimerView {
    SoundTimerView { value: value, active: true, pending: Option::Some(SoundMessage::Play) }
}

/// A one-byte countdown register ticked at a fixed external rate.
pub trait Timer {
    /// Decrements the value by one, saturating at zero, and deactivates the
    /// timer when the value reaches zero.  An inactive timer is unchanged.
    fn tick(&mut self);

    /// Reads the current value without side effect.
    fn get_value(&self) -> u8;

    /// Assigns a value and activates the timer.
    fn set_value(&mut self, value: u8);
}

/// The delay timer: a bare countdown with no side signals.
pub struct DelayTimer {
    value: u8,
    active: bool,
}

impl View for DelayTimer {
    type V = TimerView;

    closed spec fn view(&self) -> TimerView {
        TimerView { value: self.value, active: self.active }
    }
}

impl DelayTimer {
    /// An inactive timer at zero.
    pub fn new() -> (r: DelayTimer)
        ensures
            r@.value == 0,
            !r@.active,
    {
        DelayTimer { value: 0, active: false }
    }
}

impl Timer for DelayTimer {
    fn tick(&mut self)
        ensures
            final(self)@ == tick_timer(old(self)@),
    {
        if !self.active {
            return ;
        }
        self.value = if self.value > 0 {
            self.value - 1
        } else {
            0
        };
        if self.value == 0 {
            self.active = false;
        }
    }

    fn get_value(&self) -> (v: u8)
        ensures
            v == self@.value,
    {
        self.value
    }

    fn set_value(&mut self, value: u8)
        ensures
            final(self)@.value == value,
            final(self)@.active,
    {
        self.active = true;
        self.value = value;
    }
}

/// The sound timer: a countdown that emits tone-control signals.
///
/// Every `set_value` leaves a [`SoundMessage::Play`] signal in the mailbox;
/// the tick that brings an active timer to zero leaves a
/// [`SoundMessage::Pause`] signal.  The mailbox holds the latest signal
/// until [`SoundTimer::take_message`] drains it.
pub struct SoundTimer {
    value: u8,
    active: bool,
    pending: Option<SoundMessage>,
}

impl View for SoundTimer {
    type V = SoundTimerView;

    closed spec fn view(&self) -> SoundTimerView {
        SoundTimerView { value: self.value, active: self.active, pending: self.pending }
    }
}

impl SoundTimer {
    /// An inactive timer at zero with an empty mailbox.
    pub fn new() -> (r: SoundTimer)
        ensures
            r@.value == 0,
            !r@.active,
            r@.pending is None,
    {
        SoundTimer { value: 0, active: false, pending: Option::None }
    }

    /// Removes and returns the pending tone-control signal, if any.
    pub fn take_message(&mut self) -> (msg: Option<SoundMessage>)
        ensures
            msg == old(self)@.pending,
            final(self)@.value == old(self)@.value,
            final(self)@.active == old(self)@.active,
            final(self)@.pending is None,
    {
        let msg = self.pending;
        self.pending = Option::None;
        msg
    }

    /// The final stop signal owed to the audio collaborator at teardown, so
    /// that no tone is left playing.  Distinct from the tick-triggered
    /// pause.
    pub fn force_audio_stop(&self) -> (msg: SoundMessage)
        ensures
            msg == SoundMessage::Stop,
    {
        SoundMessage::Stop
    }
}

impl Timer for SoundTimer {
    fn tick(&mut self)
        ensures
            final(self)@ == tick_sound_timer(old(self)@),
    {
        if !self.active {
            return ;
        }
        self.value = if self.value > 0 {
            self.value - 1
        } else {
            0
        };
        if self.value == 0 {
            self.pending = Option::Some(SoundMessage::Pause);
            self.active = false;
        }
    }

    fn get_value(&self) -> (v: u8)
        ensures
            v == self@.value,
    {
        self.value
    }

    fn set_value(&mut self, value: u8)
        ensures
            final(self)@ == set_sound_timer(old(self)@, value),
    {
        self.active = true;
        self.value = value;
        self.pending = Option::Some(SoundMessage::Play);
    }
}

} // verus!
