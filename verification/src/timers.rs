use vstd::prelude::*;

verus! {

/// Mathematical model of the two timers.
#[verifier::ext_equal]
pub ghost struct TimersView {
    pub delay: u8,
    pub sound: u8,
}

/// One tick of a single counter: decrement when nonzero, floor at 0.
pub open spec fn spec_dec(t: u8) -> u8 {
    if t > 0 {
        (t - 1) as u8
    } else {
        0
    }
}

/// The delay and sound counters, both 8 bits, both initialized to 0, each
/// only ever decremented by `tick` or overwritten by the timer instructions.
/// The external driving loop calls `tick` at a fixed logical rate (60 Hz on
/// the original hardware); a nonzero sound counter is the contract for
/// "should emit audible tone", enforced outside the core.
pub struct Timers {
    delay: u8,
    sound: u8,
}

impl View for Timers {
    type V = TimersView;

    closed spec fn view(&self) -> TimersView {
        TimersView { delay: self.delay, sound: self.sound }
    }
}

impl Timers {
    pub fn new() -> (t: Timers)
        ensures
            t@.delay == 0,
            t@.sound == 0,
    {
        Timers { delay: 0, sound: 0 }
    }

    /// The current delay counter (instruction Fx07 reads this).
    pub fn delay(&self) -> (r: u8)
        ensures
            r == self@.delay,
    {
        self.delay
    }

    /// The current sound counter.
    pub fn sound(&self) -> (r: u8)
        ensures
            r == self@.sound,
    {
        self.sound
    }

    /// Overwrite the delay counter (instruction Fx15).
    pub fn set_delay(&mut self, v: u8)
        ensures
            final(self)@ == (TimersView { delay: v, ..old(self)@ }),
    {
        self.delay = v;
    }

    /// Overwrite the sound counter (instruction Fx18).
    pub fn set_sound(&mut self, v: u8)
        ensures
            final(self)@ == (TimersView { sound: v, ..old(self)@ }),
    {
        self.sound = v;
    }

    /// Return the current values of both counters, then decrement each by 1
    /// when nonzero, flooring at 0.
    pub fn tick(&mut self) -> (r: (u8, u8))
        ensures
            r.0 == old(self)@.delay,
            r.1 == old(self)@.sound,
            final(self)@.delay == spec_dec(old(self)@.delay),
            final(self)@.sound == spec_dec(old(self)@.sound),
    {
        let r = (self.delay, self.sound);
        if self.delay > 0 {
            self.delay = self.delay - 1;
        }
        if self.sound > 0 {
            self.sound = self.sound - 1;
        }
        r
    }
}

/// The zero floor is absorbing: a counter at 0 stays 0 under every further
/// tick, and a tick never increases a counter, so repeated ticking can never
/// underflow.
pub proof fn lemma_tick_zero_floor(t: u8)
    ensures
        t == 0 ==> spec_dec(t) == 0,
        spec_dec(t) <= t,
        spec_dec(spec_dec(t)) <= spec_dec(t),
{
}

} // verus!
