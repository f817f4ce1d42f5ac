//! The controller of the motor control unit.

use crate::config::config::Config;
use crate::messages::messages::ecu::EcuMessage;
use crate::messages::messages::Message;
use crate::subsystems::mcu::engine::{EngineRequest, EngineStep, EngineSubsystem};
use crate::subsystems::shared::Subsystem;
use crate::utils::parts::Wheel;
use crate::utils::percentage::Percentage;
use crate::utils::single;
use crate::utils::speed::WheelSpeed;
use crate::utils::time::{Duration, Timestamp};
use vstd::prelude::*;

verus! {

/// How often the motor control unit acts.
#[derive(Debug, Clone, Copy)]
pub struct McuConfig {
    /// The time between two ticks of the engine subsystem.
    pub engine_poll: Duration,
    /// The time between two broadcasts of the throttle output.
    pub ecu_poll: Duration,
}

impl McuConfig {
    /// The intervals that a unit starts with: a tick every 100 ms, a
    /// broadcast every 500 ms.
    pub open spec fn initial() -> McuConfig {
        McuConfig { engine_poll: Duration::of_millis(100), ecu_poll: Duration::of_millis(500) }
    }
}

impl Default for McuConfig {
    fn default() -> (config: Self)
        ensures
            config == McuConfig::initial(),
    {
        McuConfig { engine_poll: Duration::from_millis(100), ecu_poll: Duration::from_millis(500) }
    }
}

/// What the motor control unit knows: the throttle it puts out, the requests
/// it last received, and the last speed of each wheel.
#[derive(Debug, Clone, Copy)]
pub struct McuState {
    throttle: Percentage,
    brake: Percentage,
    throttle_req: Percentage,
    brake_req: Percentage,
    rear_ws: Option<WheelSpeed>,
    front_ws: Option<WheelSpeed>,
}

impl McuState {
    /// The throttle that the unit puts out.
    pub closed spec fn throttle(self) -> Percentage {
        self.throttle
    }

    /// The brake that the unit puts out.
    pub closed spec fn brake(self) -> Percentage {
        self.brake
    }

    /// The throttle that was last requested.
    pub closed spec fn throttle_req(self) -> Percentage {
        self.throttle_req
    }

    /// The brake that was last requested.
    pub closed spec fn brake_req(self) -> Percentage {
        self.brake_req
    }

    /// The last speed of the rear wheel, if one was reported.
    pub closed spec fn rear_ws(self) -> Option<WheelSpeed> {
        self.rear_ws
    }

    /// The last speed of the front wheel, if one was reported.
    pub closed spec fn front_ws(self) -> Option<WheelSpeed> {
        self.front_ws
    }

    /// The state that a unit starts with: nothing put out, nothing requested,
    /// no speed known.
    pub closed spec fn initial() -> McuState {
        McuState {
            throttle: Percentage::spec_from_bits(single::ZERO),
            brake: Percentage::spec_from_bits(single::ZERO),
            throttle_req: Percentage::spec_from_bits(single::ZERO),
            brake_req: Percentage::spec_from_bits(single::ZERO),
            rear_ws: None,
            front_ws: None,
        }
    }

    /// The state after `msg` was received.  A wheel speed replaces the last
    /// speed of its wheel, a control request replaces both requests, and
    /// every other message leaves the state as it is.
    pub closed spec fn received(self, msg: Message) -> McuState {
        match msg {
            Message::TireStatusMessage(status) => match status.wheel {
                Wheel::Rear => McuState { rear_ws: Some(status.ws), ..self },
                Wheel::Front => McuState { front_ws: Some(status.ws), ..self },
            },
            Message::ControlReqMessage(req) => McuState {
                throttle_req: req.throttle_req,
                brake_req: req.brake_req,
                ..self
            },
            _ => self,
        }
    }

    /// The state with `throttle` as the throttle put out.
    pub closed spec fn with_throttle(self, throttle: Percentage) -> McuState {
        McuState { throttle, ..self }
    }

    /// The state that a unit starts with is neutral.
    pub proof fn lemma_initial()
        ensures
            McuState::initial().throttle()@ == single::ZERO,
            McuState::initial().brake()@ == single::ZERO,
            McuState::initial().throttle_req()@ == single::ZERO,
            McuState::initial().brake_req()@ == single::ZERO,
            McuState::initial().rear_ws() is None,
            McuState::initial().front_ws() is None,
    {
        Percentage::lemma_from_bits(single::ZERO);
    }

    /// What receiving a message changes, part by part.
    pub proof fn lemma_received(state: McuState, msg: Message)
        ensures
            state.received(msg).throttle() == state.throttle(),
            state.received(msg).brake() == state.brake(),
            state.received(msg).throttle_req() == (match msg {
                Message::ControlReqMessage(req) => req.throttle_req,
                _ => state.throttle_req(),
            }),
            state.received(msg).brake_req() == (match msg {
                Message::ControlReqMessage(req) => req.brake_req,
                _ => state.brake_req(),
            }),
            state.received(msg).rear_ws() == (match msg {
                Message::TireStatusMessage(status) if status.wheel == Wheel::Rear => Some(status.ws),
                _ => state.rear_ws(),
            }),
            state.received(msg).front_ws() == (match msg {
                Message::TireStatusMessage(status) if status.wheel == Wheel::Front => Some(
                    status.ws,
                ),
                _ => state.front_ws(),
            }),
    {
    }

    /// Putting out a throttle changes the throttle put out and nothing else.
    pub proof fn lemma_with_throttle(state: McuState, throttle: Percentage)
        ensures
            state.with_throttle(throttle).throttle() == throttle,
            state.with_throttle(throttle).brake() == state.brake(),
            state.with_throttle(throttle).throttle_req() == state.throttle_req(),
            state.with_throttle(throttle).brake_req() == state.brake_req(),
            state.with_throttle(throttle).rear_ws() == state.rear_ws(),
            state.with_throttle(throttle).front_ws() == state.front_ws(),
    {
    }
}

impl Default for McuState {
    fn default() -> (state: Self)
        ensures
            state == McuState::initial(),
    {
        McuState {
            throttle: Percentage::zero(),
            brake: Percentage::zero(),
            throttle_req: Percentage::zero(),
            brake_req: Percentage::zero(),
            rear_ws: None,
            front_ws: None,
        }
    }
}

/// The response that a tick has settled: zero while idle, and the shaped
/// request where traction control is not asked.  Where it is asked, the
/// response waits for the PID loop.
pub open spec fn settled(step: EngineStep) -> Option<Percentage> {
    match step {
        EngineStep::Idle(resp) => Some(resp.throttle_req),
        EngineStep::Active { mapped, traction: None } => Some(mapped),
        _ => None,
    }
}

/// The controller of the motor control unit.
pub struct McuController {
    pub config: Config,
    state: McuState,
    engine_subsystem: EngineSubsystem,
}

impl McuController {
    /// The configuration of the unit.
    pub closed spec fn configuration(&self) -> Config {
        self.config
    }

    /// What the unit knows.
    pub closed spec fn state(&self) -> McuState {
        self.state
    }

    /// The engine subsystem of the unit.
    pub closed spec fn engine(&self) -> EngineSubsystem {
        self.engine_subsystem
    }

    /// What the engine subsystem is asked at a tick at `timestamp`.
    pub open spec fn request_at(&self, timestamp: Timestamp) -> EngineRequest {
        EngineRequest {
            rear_ws: self.state().rear_ws(),
            front_ws: self.state().front_ws(),
            throttle_req: self.state().throttle_req(),
            timestamp,
        }
    }

    /// The message that broadcasts the throttle put out.
    pub open spec fn ecu_message(&self) -> Message {
        Message::EcuMessage(EcuMessage { throttle: self.state().throttle() })
    }

    /// The controller after a tick at `timestamp`: the engine subsystem has
    /// run on what the unit knows, and where the tick has settled the
    /// response, it is the throttle put out.
    pub closed spec fn ticked(self, timestamp: Timestamp) -> McuController {
        McuController {
            config: self.config,
            state: match settled(self.engine_subsystem.step(self.request_at(timestamp))) {
                Some(throttle) => self.state.with_throttle(throttle),
                None => self.state,
            },
            engine_subsystem: self.engine_subsystem.after(self.request_at(timestamp)),
        }
    }

    /// The controller after `msg` was received.
    pub closed spec fn received(self, msg: Message) -> McuController {
        McuController {
            config: self.config,
            state: self.state.received(msg),
            engine_subsystem: self.engine_subsystem,
        }
    }

    /// What a tick changes, part by part.
    pub proof fn lemma_ticked(controller: McuController, timestamp: Timestamp)
        ensures
            controller.ticked(timestamp).configuration() == controller.configuration(),
            controller.ticked(timestamp).engine() == controller.engine().after(
                controller.request_at(timestamp),
            ),
            controller.ticked(timestamp).state() == (match settled(
                controller.engine().step(controller.request_at(timestamp)),
            ) {
                Some(throttle) => controller.state().with_throttle(throttle),
                None => controller.state(),
            }),
    {
    }

    /// What receiving a message changes, part by part.
    pub proof fn lemma_received(controller: McuController, msg: Message)
        ensures
            controller.received(msg).configuration() == controller.configuration(),
            controller.received(msg).engine() == controller.engine(),
            controller.received(msg).state() == controller.state().received(msg),
    {
    }

    /// Once no throttle is requested, a tick puts out zero and leaves the
    /// engine subsystem as it is right after construction, whatever went
    /// before; the broadcast that follows carries zero.
    pub proof fn lemma_idle_tick(controller: McuController, timestamp: Timestamp)
        requires
            single::spec_eq(controller.state().throttle_req()@, single::ZERO),
        ensures
            controller.ticked(timestamp).engine() == EngineSubsystem::fresh(
                controller.engine().config(),
            ),
            controller.ticked(timestamp).ecu_message() matches Message::EcuMessage(msg)
                && msg.throttle@ == single::ZERO,
    {
        let req = controller.request_at(timestamp);
        EngineSubsystem::lemma_idle_clears(controller.engine(), req, req);
        McuState::lemma_with_throttle(controller.state(), Percentage::spec_from_bits(single::ZERO));
        Percentage::lemma_from_bits(single::ZERO);
    }

    /// While a wheel speed is missing, a tick on a request, once the request
    /// has arrived, puts out the request as the throttle map shapes it:
    /// traction control does nothing to it.
    pub proof fn lemma_no_samples_no_correction(
        controller: McuController,
        request: Message,
        timestamp: Timestamp,
    )
        requires
            request is ControlReqMessage,
            !single::spec_eq(request->ControlReqMessage_0.throttle_req@, single::ZERO),
            controller.state().rear_ws() is None || controller.state().front_ws() is None,
        ensures
            controller.received(request).engine().accepts(
                controller.received(request).request_at(timestamp),
            ),
            controller.received(request).engine().step(
                controller.received(request).request_at(timestamp),
            ) == (EngineStep::Active {
                mapped: controller.engine().throttle_map.mode.shaped(
                    request->ControlReqMessage_0.throttle_req,
                ),
                traction: None,
            }),
            controller.received(request).ticked(timestamp).ecu_message() == Message::EcuMessage(
                EcuMessage {
                    throttle: controller.engine().throttle_map.mode.shaped(
                        request->ControlReqMessage_0.throttle_req,
                    ),
                },
            ),
    {
        McuState::lemma_received(controller.state(), request);
        let shaped = controller.engine().throttle_map.mode.shaped(
            request->ControlReqMessage_0.throttle_req,
        );
        McuState::lemma_with_throttle(controller.state().received(request), shaped);
    }

    /// A controller under `config`, in the state that a unit starts with.
    pub fn new(config: Config) -> (controller: Self)
        ensures
            controller.configuration() == config,
            controller.state() == McuState::initial(),
            controller.engine() == EngineSubsystem::fresh(config.engine),
    {
        let engine_subsystem = EngineSubsystem::new(config.engine);
        McuController { config, state: McuState::default(), engine_subsystem }
    }

    /// Takes in one message from the bus.
    pub fn process_message(&mut self, msg: Message)
        ensures
            *final(self) == old(self).received(msg),
            final(self).state() == old(self).state().received(msg),
            final(self).configuration() == old(self).configuration(),
            final(self).engine() == old(self).engine(),
    {
        match msg {
            Message::TireStatusMessage(status) => match status.wheel {
                Wheel::Rear => {
                    self.state.rear_ws = Some(status.ws);
                },
                Wheel::Front => {
                    self.state.front_ws = Some(status.ws);
                },
            },
            Message::ControlReqMessage(req) => {
                self.state.throttle_req = req.throttle_req;
                self.state.brake_req = req.brake_req;
            },
            _ => {},
        }
    }

    /// Runs one tick of the engine subsystem at `timestamp` on what the unit
    /// knows.  Where the tick settles the response, it becomes the throttle
    /// put out; where traction control is asked, the caller feeds its PID
    /// loop as the step says and hands the corrected throttle to
    /// [`McuController::set_throttle`].
    pub fn run_engine_subsystem(&mut self, timestamp: Timestamp) -> (step: EngineStep)
        requires
            old(self).engine().accepts(old(self).request_at(timestamp)),
        ensures
            step == old(self).engine().step(old(self).request_at(timestamp)),
            *final(self) == old(self).ticked(timestamp),
            final(self).engine() == old(self).engine().after(old(self).request_at(timestamp)),
            final(self).state() == (match settled(step) {
                Some(throttle) => old(self).state().with_throttle(throttle),
                None => old(self).state(),
            }),
            final(self).configuration() == old(self).configuration(),
    {
        let req = EngineRequest {
            rear_ws: self.state.rear_ws,
            front_ws: self.state.front_ws,
            throttle_req: self.state.throttle_req,
            timestamp: timestamp,
        };
        let step = self.engine_subsystem.run(req);
        match step {
            EngineStep::Idle(resp) => {
                self.state.throttle = resp.throttle_req;
            },
            EngineStep::Active { mapped, traction: None } => {
                self.state.throttle = mapped;
            },
            _ => {},
        }
        step
    }

    /// Whether a tick at `timestamp` may run: it needs no traction control,
    /// or time has not run backwards since traction control last ran.
    pub fn can_run_at(&self, timestamp: Timestamp) -> (ready: bool)
        ensures
            ready == self.engine().accepts(self.request_at(timestamp)),
    {
        let req = EngineRequest {
            rear_ws: self.state.rear_ws,
            front_ws: self.state.front_ws,
            throttle_req: self.state.throttle_req,
            timestamp: timestamp,
        };
        self.engine_subsystem.can_run(&req)
    }

    /// The engine subsystem of the unit, to read its modes and to ask its
    /// traction control what becomes of a request.
    pub fn engine_subsystem(&self) -> (engine: &EngineSubsystem)
        ensures
            *engine == self.engine(),
    {
        &self.engine_subsystem
    }

    /// Takes `throttle` as the throttle put out: the response of a tick as
    /// traction control has corrected it.
    pub fn set_throttle(&mut self, throttle: Percentage)
        ensures
            final(self).state() == old(self).state().with_throttle(throttle),
            final(self).configuration() == old(self).configuration(),
            final(self).engine() == old(self).engine(),
    {
        self.state.throttle = throttle;
    }

    /// The message that broadcasts the throttle put out.  The state stays as
    /// it is.
    pub fn broadcast_ecu(&self) -> (msg: Message)
        ensures
            msg == self.ecu_message(),
    {
        Message::EcuMessage(EcuMessage { throttle: self.state.throttle })
    }
}

} // verus!
