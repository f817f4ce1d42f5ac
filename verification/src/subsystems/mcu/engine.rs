//! The engine subsystem: throttle shaping and traction control in one loop.
//!
//! The subsystem is idle while no throttle is requested and active otherwise.
//! Each tick it shapes the request and decides whether traction control has
//! to correct it.  The PID loop behind traction control is the caller's.

use crate::operations::throttle_map::{ThottleMap, ThottleMapMode};
use crate::operations::traction_control::{PidInput, TractionControl, TractionControlMode};
use crate::subsystems::shared::Subsystem;
use crate::utils::percentage::{clamped, Percentage};
use crate::utils::single;
use crate::utils::speed::WheelSpeed;
use crate::utils::time::Timestamp;
use vstd::prelude::*;

verus! {

/// The bit pattern of the single nearest to one tenth.
pub const ONE_TENTH: u32 = 0x3DCC_CCCD;

/// What the engine subsystem is asked each tick.
#[derive(Debug, Clone, Copy)]
pub struct EngineRequest {
    /// The last speed of the rear, driven wheel, if one was reported.
    pub rear_ws: Option<WheelSpeed>,
    /// The last speed of the front wheel, if one was reported.
    pub front_ws: Option<WheelSpeed>,
    /// The requested throttle.
    pub throttle_req: Percentage,
    /// The time of the tick.
    pub timestamp: Timestamp,
}

/// The throttle that the engine subsystem answers with.
#[derive(Debug, Clone, Copy)]
pub struct EngineResponse {
    pub throttle_req: Percentage,
}

/// The tunables of the engine subsystem.
#[derive(Debug, Clone, Copy)]
pub struct EngineConfig {
    pub throttle_map_mode: ThottleMapMode,
    pub traction_control_mode: TractionControlMode,
    pub desired_slip: Percentage,
}

impl EngineConfig {
    /// The configuration that a unit starts with: the soft throttle curve,
    /// the strong traction control, and a target slip of one tenth.
    pub open spec fn initial() -> EngineConfig {
        EngineConfig {
            throttle_map_mode: ThottleMapMode::Level2(),
            traction_control_mode: TractionControlMode::Level1(),
            desired_slip: initial_slip(),
        }
    }
}

/// The target slip that a unit starts with: one tenth.
pub closed spec fn initial_slip() -> Percentage {
    Percentage::spec_from_bits(ONE_TENTH)
}

/// The target slip that a unit starts with has the bit pattern of one tenth.
pub proof fn lemma_initial_slip()
    ensures
        initial_slip()@ == ONE_TENTH,
{
    Percentage::lemma_from_bits(ONE_TENTH);
}

impl Default for EngineConfig {
    fn default() -> (config: Self)
        ensures
            config == EngineConfig::initial(),
    {
        let desired_slip = Percentage::from_fractional(ONE_TENTH);
        proof {
            assert(clamped(ONE_TENTH) == ONE_TENTH);
            Percentage::lemma_from_bits(ONE_TENTH);
            Percentage::lemma_view_injective(desired_slip, initial_slip());
        }
        EngineConfig {
            throttle_map_mode: ThottleMapMode::Level2(),
            traction_control_mode: TractionControlMode::Level1(),
            desired_slip,
        }
    }
}

/// What one tick of the engine subsystem comes to.
#[derive(Debug, Clone, Copy)]
pub enum EngineStep {
    /// No throttle is requested.  The response is zero, traction control was
    /// reset, and the caller resets its PID loop: the acceleration is over.
    Idle(EngineResponse),
    /// Throttle is requested, and `mapped` is the request shaped by the
    /// throttle map.  With no `traction` it is the response.  Where `traction`
    /// is given, the wheels slip: the PID loop is to be fed with it, and its
    /// output corrects `mapped`.
    Active { mapped: Percentage, traction: Option<PidInput> },
}

/// The slip of the rear wheel against the front wheel: `(rear - front) / rear`
/// of the two speeds, for a rear wheel that is the faster one.
pub open spec fn slip_ratio(rear: u16, front: u16) -> u32
    recommends
        rear > front,
{
    clamped(single::ratio_bits((rear - front) as nat, rear as nat))
}

/// Whether a request shows slip: both speeds are known and the rear wheel is
/// the faster one.
pub open spec fn slips(req: EngineRequest) -> bool {
    req.rear_ws is Some && req.front_ws is Some && req.rear_ws->0@ > req.front_ws->0@
}

/// Whether a request asks for no throttle.
pub open spec fn no_throttle(req: EngineRequest) -> bool {
    single::spec_eq(req.throttle_req@, single::ZERO)
}

/// The engine subsystem: the throttle map and traction control.
#[derive(Debug, Clone, Copy)]
pub struct EngineSubsystem {
    pub throttle_map: ThottleMap,
    pub traction_control: TractionControl,
}

impl EngineSubsystem {
    /// The subsystem in its initial state under `config`.
    pub open spec fn fresh(config: EngineConfig) -> EngineSubsystem {
        EngineSubsystem {
            throttle_map: ThottleMap { mode: config.throttle_map_mode },
            traction_control: TractionControl::fresh(
                config.traction_control_mode,
                config.desired_slip,
            ),
        }
    }

    /// The configuration that the subsystem runs under.
    pub open spec fn config(&self) -> EngineConfig {
        EngineConfig {
            throttle_map_mode: self.throttle_map.mode,
            traction_control_mode: self.traction_control.level(),
            desired_slip: self.traction_control.target(),
        }
    }

    /// What a tick on `req` comes to in this state.
    pub open spec fn step(&self, req: EngineRequest) -> EngineStep {
        if no_throttle(req) {
            EngineStep::Idle(EngineResponse { throttle_req: Percentage::spec_from_bits(single::ZERO) })
        } else {
            EngineStep::Active {
                mapped: self.throttle_map.mode.shaped(req.throttle_req),
                traction: if slips(req) {
                    Some(
                        PidInput {
                            measured: Percentage::spec_from_bits(
                                slip_ratio(req.rear_ws->0@, req.front_ws->0@),
                            ),
                            elapsed: self.traction_control.elapsed_at(req.timestamp),
                        },
                    )
                } else {
                    None
                },
            }
        }
    }

    /// The state that a tick on `req` leaves behind.
    pub open spec fn after(&self, req: EngineRequest) -> EngineSubsystem {
        if no_throttle(req) {
            EngineSubsystem::fresh(self.config())
        } else if slips(req) {
            EngineSubsystem {
                throttle_map: self.throttle_map,
                traction_control: TractionControl::ran(
                    self.traction_control.level(),
                    self.traction_control.target(),
                    req.timestamp,
                ),
            }
        } else {
            *self
        }
    }

    /// A tick without throttle answers zero and leaves the subsystem as it is
    /// right after construction: whatever went before, the ticks that follow
    /// come to what they come to on a new subsystem.
    pub proof fn lemma_idle_clears(engine: EngineSubsystem, idle: EngineRequest, next: EngineRequest)
        requires
            no_throttle(idle),
        ensures
            engine.step(idle) is Idle,
            engine.step(idle)->Idle_0.throttle_req@ == single::ZERO,
            engine.after(idle) == EngineSubsystem::fresh(engine.config()),
            engine.after(idle).accepts(next),
            engine.after(idle).step(next) == EngineSubsystem::fresh(engine.config()).step(next),
            engine.after(idle).after(next) == EngineSubsystem::fresh(engine.config()).after(next),
    {
        Percentage::lemma_from_bits(single::ZERO);
        TractionControl::lemma_fresh(engine.traction_control.level(), engine.traction_control.target());
    }

    /// With throttle requested and the rear wheel faster than the front
    /// wheel, traction control runs: the PID loop is to be fed with the slip
    /// of the two speeds.
    pub proof fn lemma_slip_runs_traction_control(engine: EngineSubsystem, req: EngineRequest)
        requires
            !no_throttle(req),
            slips(req),
        ensures
            engine.step(req) matches EngineStep::Active { traction: Some(input), .. }
                && input.measured@ == slip_ratio(req.rear_ws->0@, req.front_ws->0@),
            engine.after(req).traction_control.anchor() == Some(req.timestamp),
    {
        Percentage::lemma_from_bits(slip_ratio(req.rear_ws->0@, req.front_ws->0@));
        TractionControl::lemma_ran(
            engine.traction_control.level(),
            engine.traction_control.target(),
            req.timestamp,
        );
    }

    /// While the wheels do not slip, or a speed is missing, nothing is asked
    /// of traction control: the response is the request as the throttle map
    /// has shaped it.
    pub proof fn lemma_no_slip_no_correction(engine: EngineSubsystem, req: EngineRequest)
        requires
            !no_throttle(req),
            !slips(req),
        ensures
            engine.step(req) == (EngineStep::Active {
                mapped: engine.throttle_map.mode.shaped(req.throttle_req),
                traction: None,
            }),
            engine.after(req) == engine,
    {
    }
}

impl EngineSubsystem {
    /// Whether a tick on `req` may run: it needs no traction control, or time
    /// has not run backwards since traction control last ran.
    pub fn can_run(&self, req: &EngineRequest) -> (ready: bool)
        ensures
            ready == self.accepts(*req),
    {
        if req.throttle_req.is_zero() {
            return true;
        }
        let slipping = match (req.rear_ws, req.front_ws) {
            (Some(rear), Some(front)) => rear.exceeds(&front),
            _ => false,
        };
        if !slipping {
            return true;
        }
        match self.traction_control.prev_timestamp() {
            Some(prev) => prev.as_micros() <= req.timestamp.as_micros(),
            None => true,
        }
    }
}

impl Subsystem<EngineConfig, EngineRequest, EngineStep> for EngineSubsystem {
    /// A tick may run unless it needs traction control at a time before the
    /// last run of it: time does not run backwards.
    open spec fn accepts(&self, req: EngineRequest) -> bool {
        !no_throttle(req) && slips(req) ==> self.traction_control.runs_at(req.timestamp)
    }

    fn new(config: EngineConfig) -> (engine: Self)
        ensures
            engine == EngineSubsystem::fresh(config),
    {
        EngineSubsystem {
            throttle_map: ThottleMap::new(config.throttle_map_mode),
            traction_control: TractionControl::new(
                config.traction_control_mode,
                config.desired_slip,
            ),
        }
    }

    /// Swaps in the modes and the target of `config` and resets.  The caller
    /// gives its PID loop the new gains and target, and resets it.
    fn update(&mut self, config: EngineConfig)
        ensures
            *final(self) == EngineSubsystem::fresh(config),
    {
        self.throttle_map.update_mode(config.throttle_map_mode);
        self.traction_control.update_mode(config.traction_control_mode);
        self.traction_control.update_desired_slip(config.desired_slip);
        self.reset();
        proof {
            TractionControl::lemma_fresh(config.traction_control_mode, config.desired_slip);
        }
    }

    fn run(&mut self, req: EngineRequest) -> (step: EngineStep)
        ensures
            step == old(self).step(req),
            *final(self) == old(self).after(req),
    {
        // no throttle request: this acceleration is over, start afresh
        if req.throttle_req.is_zero() {
            self.reset();
            let zero = Percentage::zero();
            proof {
                Percentage::lemma_from_bits(single::ZERO);
                Percentage::lemma_view_injective(zero, Percentage::spec_from_bits(single::ZERO));
            }
            return EngineStep::Idle(EngineResponse { throttle_req: zero });
        }
        let mapped = self.throttle_map.run_algo(req.throttle_req);

        // with both speeds known and the rear wheel ahead, run traction control
        let mut traction: Option<PidInput> = None;
        if let Some(rear_ws) = req.rear_ws {
            if let Some(front_ws) = req.front_ws {
                if rear_ws.exceeds(&front_ws) {
                    let rear: u16 = rear_ws.rpm();
                    let front: u16 = front_ws.rpm();
                    let slip = Percentage::from_ratio(rear - front, rear);
                    proof {
                        Percentage::lemma_from_bits(slip_ratio(rear, front));
                        Percentage::lemma_view_injective(
                            slip,
                            Percentage::spec_from_bits(slip_ratio(rear, front)),
                        );
                    }
                    let ghost before = self.traction_control;
                    let input = self.traction_control.run_algo(req.timestamp, slip);
                    proof {
                        TractionControl::lemma_ran(before.level(), before.target(), req.timestamp);
                        TractionControl::lemma_same_parts(
                            self.traction_control,
                            TractionControl::ran(before.level(), before.target(), req.timestamp),
                        );
                    }
                    traction = Some(input);
                }
            }
        }
        EngineStep::Active { mapped, traction }
    }

    /// Resets traction control.  The caller resets its PID loop.
    fn reset(&mut self)
        ensures
            *final(self) == EngineSubsystem::fresh(old(self).config()),
    {
        self.traction_control.reset();
    }
}

} // verus!
