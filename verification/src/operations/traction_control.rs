//! Traction control: a PID loop on wheel slip that corrects the throttle.
//!
//! The loop itself runs on fractions, outside of this crate.  Here stands
//! what surrounds it: the gains of each mode, the time that is handed to the
//! loop, and what becomes of the request for each output of the loop.

use crate::utils::double;
use crate::utils::percentage::Percentage;
use crate::utils::time::{Duration, Timestamp};
use vstd::prelude::*;
use vstd::std_specs::convert::FromSpecImpl;

verus! {

/// How strongly traction control corrects.
#[derive(Debug, Clone, Copy, PartialEq, Eq, Structural)]
pub enum TractionControlMode {
    Level0(),
    Level1(),
}

impl TractionControlMode {
    /// The tag that stands for this mode on the wire.
    pub open spec fn tag(self) -> u8 {
        match self {
            TractionControlMode::Level0() => 0,
            TractionControlMode::Level1() => 1,
        }
    }

    /// The mode that a wire tag stands for.  Decoding is lenient: a tag that
    /// names no mode reads as the first one.
    pub open spec fn of_tag(tag: u8) -> TractionControlMode {
        if tag == 1 {
            TractionControlMode::Level1()
        } else {
            TractionControlMode::Level0()
        }
    }

    /// The proportional gain of this mode, as the bit pattern of a double.
    pub open spec fn spec_prop_gain(self) -> u64 {
        match self {
            TractionControlMode::Level0() => double::TENTH,
            TractionControlMode::Level1() => double::HALF,
        }
    }

    /// Encoding a mode and decoding the tag gives the mode back.
    pub proof fn lemma_tag_round_trip(mode: TractionControlMode)
        ensures
            TractionControlMode::of_tag(mode.tag()) == mode,
    {
    }

    /// The proportional gain, as the bit pattern of a double: one tenth on
    /// the first level, one half on the second.
    pub fn prop_gain(&self) -> (gain: u64)
        ensures
            gain == self.spec_prop_gain(),
    {
        match self {
            TractionControlMode::Level0() => double::TENTH,
            TractionControlMode::Level1() => double::HALF,
        }
    }

    /// The integral gain, as the bit pattern of a double: zero on every level.
    pub fn int_gain(&self) -> (gain: u64)
        ensures
            gain == double::ZERO,
    {
        match self {
            TractionControlMode::Level0() => double::ZERO,
            TractionControlMode::Level1() => double::ZERO,
        }
    }

    /// The derivative gain, as the bit pattern of a double: zero on every
    /// level.
    pub fn der_gain(&self) -> (gain: u64)
        ensures
            gain == double::ZERO,
    {
        match self {
            TractionControlMode::Level0() => double::ZERO,
            TractionControlMode::Level1() => double::ZERO,
        }
    }

    /// The factor by which the loop's output is scaled before it is added to
    /// the request, as the bit pattern of a double: one on every level.
    pub fn scale_factor(&self) -> (factor: u64)
        ensures
            factor == double::ONE,
    {
        match self {
            TractionControlMode::Level0() => double::ONE,
            TractionControlMode::Level1() => double::ONE,
        }
    }

    /// Three characters that name the mode on a small display.
    pub fn to_small_str(&self) -> (name: &'static str)
        ensures
            *self == TractionControlMode::Level0() ==> name@ == "000"@,
            *self == TractionControlMode::Level1() ==> name@ == "001"@,
    {
        match self {
            TractionControlMode::Level0() => "000",
            TractionControlMode::Level1() => "001",
        }
    }
}

impl From<TractionControlMode> for u8 {
    fn from(value: TractionControlMode) -> (tag: u8)
        ensures
            tag == value.tag(),
    {
        match value {
            TractionControlMode::Level0() => 0,
            TractionControlMode::Level1() => 1,
        }
    }
}

impl FromSpecImpl<TractionControlMode> for u8 {
    open spec fn obeys_from_spec() -> bool {
        true
    }

    open spec fn from_spec(value: TractionControlMode) -> u8 {
        value.tag()
    }
}

impl From<u8> for TractionControlMode {
    fn from(value: u8) -> (mode: TractionControlMode)
        ensures
            mode == TractionControlMode::of_tag(value),
    {
        if value == 1 {
            TractionControlMode::Level1()
        } else {
            TractionControlMode::Level0()
        }
    }
}

impl FromSpecImpl<u8> for TractionControlMode {
    open spec fn obeys_from_spec() -> bool {
        true
    }

    open spec fn from_spec(value: u8) -> TractionControlMode {
        TractionControlMode::of_tag(value)
    }
}

/// What one run of traction control hands to the PID loop.
#[derive(Debug, Clone, Copy)]
pub struct PidInput {
    /// The measured slip.
    pub measured: Percentage,
    /// The time since the loop was last fed; zero on the first run after a
    /// reset.
    pub elapsed: Duration,
}

/// What becomes of a request once the PID loop has answered.
#[derive(Debug, Clone, Copy)]
pub enum Correction {
    /// The request passes through as it is.
    Keep(Percentage),
    /// The request is to be replaced by `adjustment * scale + request`, where
    /// `adjustment` and `scale` are bit patterns of doubles.
    Raise { request: Percentage, adjustment: u64, scale: u64 },
}

/// The state of traction control that does not live in the PID loop: the mode,
/// the target slip, and the time of the last run.
#[derive(Debug, Clone, Copy)]
pub struct TractionControl {
    pub mode: TractionControlMode,
    prev_timestamp: Option<Timestamp>,
    desired_slip: Percentage,
}

impl TractionControl {
    /// The mode that traction control is in.
    pub closed spec fn level(&self) -> TractionControlMode {
        self.mode
    }

    /// The time of the last run since the last reset, if there was one.
    pub closed spec fn anchor(&self) -> Option<Timestamp> {
        self.prev_timestamp
    }

    /// The slip that the loop regulates toward.
    pub closed spec fn target(&self) -> Percentage {
        self.desired_slip
    }

    /// The state right after construction with `mode` and `desired_slip`.
    pub closed spec fn fresh(mode: TractionControlMode, desired_slip: Percentage) -> TractionControl {
        TractionControl { mode, prev_timestamp: None, desired_slip }
    }

    /// The state right after a run at `curr_time`.
    pub closed spec fn ran(
        mode: TractionControlMode,
        desired_slip: Percentage,
        curr_time: Timestamp,
    ) -> TractionControl {
        TractionControl { mode, prev_timestamp: Some(curr_time), desired_slip }
    }

    /// Whether a run at `curr_time` is in order: time has not run backwards
    /// since the last run.
    pub open spec fn runs_at(&self, curr_time: Timestamp) -> bool {
        self.anchor() matches Some(prev) ==> prev@ <= curr_time@
    }

    /// The time that a run at `curr_time` hands to the loop.
    pub open spec fn elapsed_at(&self, curr_time: Timestamp) -> Duration {
        match self.anchor() {
            Some(prev) => Duration::of_millis(((curr_time@ - prev@) / 1000) as u64),
            None => Duration::of_millis(0),
        }
    }

    /// What becomes of `curr_req` when the loop answers `adjustment`: an output
    /// of at most zero leaves the request alone, a positive one, and one that
    /// is not a number, is scaled and added.
    pub open spec fn correction(&self, adjustment: u64, curr_req: Percentage) -> Correction {
        if double::spec_non_positive(adjustment) {
            Correction::Keep(curr_req)
        } else {
            Correction::Raise { request: curr_req, adjustment, scale: double::ONE }
        }
    }

    /// A fresh state is what its parts say, and has not run yet.
    pub proof fn lemma_fresh(mode: TractionControlMode, desired_slip: Percentage)
        ensures
            TractionControl::fresh(mode, desired_slip).level() == mode,
            TractionControl::fresh(mode, desired_slip).target() == desired_slip,
            TractionControl::fresh(mode, desired_slip).anchor() is None,
    {
    }

    /// The state after a run is what its parts say.
    pub proof fn lemma_ran(mode: TractionControlMode, desired_slip: Percentage, curr_time: Timestamp)
        ensures
            TractionControl::ran(mode, desired_slip, curr_time).level() == mode,
            TractionControl::ran(mode, desired_slip, curr_time).target() == desired_slip,
            TractionControl::ran(mode, desired_slip, curr_time).anchor() == Some(curr_time),
    {
    }

    /// Two states with the same mode, target and time of the last run are the
    /// same state.
    pub proof fn lemma_same_parts(a: TractionControl, b: TractionControl)
        requires
            a.level() == b.level(),
            a.target() == b.target(),
            a.anchor() == b.anchor(),
        ensures
            a == b,
    {
    }

    /// Traction control in `mode`, regulating toward `desired_slip`, that has
    /// not run yet.  The caller sets up its PID loop with the same target and
    /// the gains of `mode`.
    pub fn new(mode: TractionControlMode, desired_slip: Percentage) -> (tc: Self)
        ensures
            tc == TractionControl::fresh(mode, desired_slip),
    {
        TractionControl { mode, prev_timestamp: None, desired_slip }
    }

    /// The mode that traction control is in.
    pub fn mode(&self) -> (mode: TractionControlMode)
        ensures
            mode == self.level(),
    {
        self.mode
    }

    /// The slip that the loop regulates toward.
    pub fn desired_slip(&self) -> (slip: Percentage)
        ensures
            slip == self.target(),
    {
        self.desired_slip
    }

    /// The time of the last run since the last reset, if there was one.
    pub fn prev_timestamp(&self) -> (prev: Option<Timestamp>)
        ensures
            prev == self.anchor(),
    {
        self.prev_timestamp
    }

    /// Switches the mode.  The time of the last run stays; the caller gives
    /// its PID loop the gains of `mode` and keeps what the loop has summed up.
    pub fn update_mode(&mut self, mode: TractionControlMode)
        ensures
            final(self).level() == mode,
            final(self).target() == old(self).target(),
            final(self).anchor() == old(self).anchor(),
    {
        self.mode = mode;
    }

    /// Sets the slip to regulate toward.  The caller gives its PID loop the
    /// same target.
    pub fn update_desired_slip(&mut self, desired_slip: Percentage)
        ensures
            final(self).target() == desired_slip,
            final(self).level() == old(self).level(),
            final(self).anchor() == old(self).anchor(),
    {
        self.desired_slip = desired_slip;
    }

    /// Starts one run at `curr_time` on the measured slip: says what the PID
    /// loop is to be fed, and remembers the time.
    pub fn run_algo(&mut self, curr_time: Timestamp, current_slip: Percentage) -> (input: PidInput)
        requires
            old(self).runs_at(curr_time),
        ensures
            input.measured == current_slip,
            input.elapsed == old(self).elapsed_at(curr_time),
            final(self).anchor() == Some(curr_time),
            final(self).level() == old(self).level(),
            final(self).target() == old(self).target(),
    {
        let elapsed_time = if let Some(prev_time) = self.prev_timestamp {
            curr_time - prev_time
        } else {
            Duration::from_millis(0)
        };
        self.prev_timestamp = Some(curr_time);
        PidInput { measured: current_slip, elapsed: elapsed_time }
    }

    /// Ends one run: decides what becomes of the request `curr_req`, given the
    /// output `adjustment` of the PID loop as the bit pattern of a double.
    pub fn correct(&self, adjustment: u64, curr_req: Percentage) -> (outcome: Correction)
        ensures
            outcome == self.correction(adjustment, curr_req),
    {
        if double::non_positive(adjustment) {
            Correction::Keep(curr_req)
        } else {
            Correction::Raise { request: curr_req, adjustment, scale: self.mode.scale_factor() }
        }
    }

    /// Forgets the time of the last run.  The caller resets its PID loop, so
    /// that nothing summed up during one acceleration leaks into the next.
    pub fn reset(&mut self)
        ensures
            *final(self) == TractionControl::fresh(old(self).level(), old(self).target()),
    {
        self.prev_timestamp = None;
    }
}

} // verus!
