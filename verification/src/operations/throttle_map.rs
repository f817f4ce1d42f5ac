//! Throttle shaping: one of three curves applied to the requested throttle.
//!
//! The curves are the square root, the identity and the square.  Root and
//! square are rounded as IEEE-754 rounds, so between zero and one the first
//! curve never lowers a request and the third never raises one.

use crate::utils::percentage::Percentage;
use crate::utils::power;
use crate::utils::single;
use vstd::prelude::*;
use vstd::std_specs::convert::FromSpecImpl;

verus! {

/// The curve that shapes the requested throttle.
#[derive(Debug, Clone, Copy, PartialEq, Eq, Structural)]
pub enum ThottleMapMode {
    /// The square root of the request: an aggressive response at the low end.
    Level0(),
    /// The request itself.
    Level1(),
    /// The square of the request: a soft response at the low end.
    Level2(),
}

/// Aggressive throttle application: the square root of the request.
fn level_0(req: Percentage) -> (shaped: Percentage)
    ensures
        shaped == ThottleMapMode::Level0().shaped(req),
{
    Percentage::from_bits(power::root(req.to_bits()))
}

/// Direct one to one throttle mapping.
fn level_1(req: Percentage) -> (shaped: Percentage)
    ensures
        shaped == req,
{
    req
}

/// Soft throttle application: the square of the request.
fn level_2(req: Percentage) -> (shaped: Percentage)
    ensures
        shaped == ThottleMapMode::Level2().shaped(req),
{
    Percentage::from_bits(power::square(req.to_bits()))
}

impl ThottleMapMode {
    /// The tag that stands for this mode on the wire.
    pub open spec fn tag(self) -> u8 {
        match self {
            ThottleMapMode::Level0() => 0,
            ThottleMapMode::Level1() => 1,
            ThottleMapMode::Level2() => 2,
        }
    }

    /// The mode that a wire tag stands for.  Decoding is lenient: a tag that
    /// names no mode reads as the first one.
    pub open spec fn of_tag(tag: u8) -> ThottleMapMode {
        if tag == 2 {
            ThottleMapMode::Level2()
        } else if tag == 1 {
            ThottleMapMode::Level1()
        } else {
            ThottleMapMode::Level0()
        }
    }

    /// What this mode makes of a request: its square root, the request
    /// itself, or its square.
    pub open spec fn shaped(self, req: Percentage) -> Percentage {
        match self {
            ThottleMapMode::Level0() => Percentage::spec_from_bits(power::root_bits(req@)),
            ThottleMapMode::Level1() => req,
            ThottleMapMode::Level2() => Percentage::spec_from_bits(power::square_bits(req@)),
        }
    }

    /// Encoding a mode and decoding the tag gives the mode back.
    pub proof fn lemma_tag_round_trip(mode: ThottleMapMode)
        ensures
            ThottleMapMode::of_tag(mode.tag()) == mode,
    {
    }

    /// The middle level leaves every request as it is.
    pub proof fn lemma_level1_is_identity(req: Percentage)
        ensures
            ThottleMapMode::Level1().shaped(req) == req,
    {
    }

    /// The first level raises every request strictly between zero and one,
    /// or leaves it where it is.
    pub proof fn lemma_level0_raises(req: Percentage)
        requires
            single::spec_lt(single::ZERO, req@),
            single::spec_lt(req@, single::ONE),
        ensures
            single::spec_le(req@, ThottleMapMode::Level0().shaped(req)@),
    {
        power::lemma_root_grows(req@);
        Percentage::lemma_from_bits(power::root_bits(req@));
    }

    /// The third level lowers every request strictly between zero and one,
    /// or leaves it where it is.
    pub proof fn lemma_level2_lowers(req: Percentage)
        requires
            single::spec_lt(single::ZERO, req@),
            single::spec_lt(req@, single::ONE),
        ensures
            single::spec_le(ThottleMapMode::Level2().shaped(req)@, req@),
    {
        power::lemma_square_shrinks(req@);
        Percentage::lemma_from_bits(power::square_bits(req@));
    }

    /// Shapes a request by this mode's curve.
    pub fn update(&self, req: Percentage) -> (shaped: Percentage)
        ensures
            shaped == self.shaped(req),
    {
        match self {
            ThottleMapMode::Level0() => level_0(req),
            ThottleMapMode::Level1() => level_1(req),
            ThottleMapMode::Level2() => level_2(req),
        }
    }
}

impl From<ThottleMapMode> for u8 {
    fn from(value: ThottleMapMode) -> (tag: u8)
        ensures
            tag == value.tag(),
    {
        match value {
            ThottleMapMode::Level0() => 0,
            ThottleMapMode::Level1() => 1,
            ThottleMapMode::Level2() => 2,
        }
    }
}

impl FromSpecImpl<ThottleMapMode> for u8 {
    open spec fn obeys_from_spec() -> bool {
        true
    }

    open spec fn from_spec(value: ThottleMapMode) -> u8 {
        value.tag()
    }
}

impl From<u8> for ThottleMapMode {
    fn from(value: u8) -> (mode: ThottleMapMode)
        ensures
            mode == ThottleMapMode::of_tag(value),
    {
        if value == 2 {
            ThottleMapMode::Level2()
        } else if value == 1 {
            ThottleMapMode::Level1()
        } else {
            ThottleMapMode::Level0()
        }
    }
}

impl FromSpecImpl<u8> for ThottleMapMode {
    open spec fn obeys_from_spec() -> bool {
        true
    }

    open spec fn from_spec(value: u8) -> ThottleMapMode {
        ThottleMapMode::of_tag(value)
    }
}

/// The throttle map: stateless but for the curve it is set to.
#[derive(Debug, Clone, Copy)]
pub struct ThottleMap {
    pub mode: ThottleMapMode,
}

impl ThottleMap {
    /// A throttle map set to `mode`.
    pub fn new(mode: ThottleMapMode) -> (map: Self)
        ensures
            map.mode == mode,
    {
        ThottleMap { mode }
    }

    /// Sets the curve.  Nothing else is kept from before.
    pub fn update_mode(&mut self, mode: ThottleMapMode)
        ensures
            final(self).mode == mode,
    {
        self.mode = mode;
    }

    /// Shapes a request by the curve that the map is set to.
    pub fn run_algo(&self, req: Percentage) -> (shaped: Percentage)
        ensures
            shaped == self.mode.shaped(req),
    {
        self.mode.update(req)
    }
}

} // verus!
