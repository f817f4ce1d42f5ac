//! The controller of the front control unit.

use crate::config::config::Config;
use crate::messages::messages::control_req::ControlReqMessage;
use crate::messages::messages::tire_status::TireStatus;
use crate::messages::messages::Message;
use crate::operations::config_updater::{ConfigUpdateState, ConfigUpdater};
use crate::utils::parts::Wheel;
use crate::utils::percentage::Percentage;
use crate::utils::single;
use crate::utils::speed::WheelSpeed;
use vstd::prelude::*;

verus! {

/// The most messages that one poll of the bus takes in.
pub const MAX_MESSAGES_PER_POLL: usize = 11;

/// The periods of the front control unit's main loop, in milliseconds.
pub const READ_PERIOD: u64 = 250;

pub const CONTROL_PERIOD: u64 = 15;

pub const UPDATE_PERIOD: u64 = 500;

pub const DISPLAY_PERIOD: u64 = 100;

/// Which of the unit's periodic jobs are due.
#[derive(Debug, Clone, Copy, PartialEq, Eq, Structural)]
pub struct FcuTasks {
    /// Take in the messages that wait on the bus.
    pub read_messages: bool,
    /// Broadcast the driver's requests.
    pub broadcast_ctl: bool,
    /// Broadcast the tuning cursor.
    pub broadcast_update: bool,
    /// Refresh the operator's display.
    pub refresh_display: bool,
}

/// The jobs that are due `millis` milliseconds after the unit started: each
/// job on the multiples of its period.
pub open spec fn due_at(millis: u64) -> FcuTasks {
    FcuTasks {
        read_messages: millis % 250 == 0,
        broadcast_ctl: millis % 15 == 0,
        broadcast_update: millis % 500 == 0,
        refresh_display: millis % 100 == 0,
    }
}

/// The jobs that are due `millis` milliseconds after the unit started.
pub fn tasks_due(millis: u64) -> (tasks: FcuTasks)
    ensures
        tasks == due_at(millis),
{
    FcuTasks {
        read_messages: millis % READ_PERIOD == 0,
        broadcast_ctl: millis % CONTROL_PERIOD == 0,
        broadcast_update: millis % UPDATE_PERIOD == 0,
        refresh_display: millis % DISPLAY_PERIOD == 0,
    }
}

/// The tunables of the front control unit itself: none so far.
#[derive(Debug, Clone, Copy)]
pub struct FcuConfig {}

impl Default for FcuConfig {
    fn default() -> Self {
        FcuConfig {  }
    }
}

/// What the front control unit knows: the requests it last sent, the tuning
/// cursor, and the last speed of its wheel.
#[derive(Debug, Clone, Copy)]
pub struct FcuState {
    pub throttle_req: Percentage,
    pub brake_req: Percentage,
    pub update: ConfigUpdateState,
    pub cur_ws: Option<WheelSpeed>,
}

impl FcuState {
    /// The state that a unit starts with: nothing requested, the cursor where
    /// a unit starts, no speed known.
    pub open spec fn initial() -> FcuState {
        FcuState {
            throttle_req: Percentage::spec_from_bits(single::ZERO),
            brake_req: Percentage::spec_from_bits(single::ZERO),
            update: ConfigUpdateState::initial(),
            cur_ws: None,
        }
    }
}

impl Default for FcuState {
    fn default() -> (state: Self)
        ensures
            state == FcuState::initial(),
    {
        FcuState {
            throttle_req: Percentage::zero(),
            brake_req: Percentage::zero(),
            update: ConfigUpdateState::default(),
            cur_ws: None,
        }
    }
}

/// The configuration after `msg` was received: a change of a tunable is
/// applied, every other message leaves the configuration as it is.
pub open spec fn config_after(config: Config, msg: Message) -> Config {
    match msg {
        Message::UpdateMessage(req) => req.applied(config),
        _ => config,
    }
}

/// The configuration after the messages `msgs` were received in their order.
pub open spec fn config_after_all(config: Config, msgs: Seq<Message>) -> Config
    decreases msgs.len(),
{
    if msgs.len() == 0 {
        config
    } else {
        config_after(config_after_all(config, msgs.drop_last()), msgs.last())
    }
}

/// How many of `available` messages one poll takes in.
pub open spec fn poll_size(available: nat) -> nat {
    if available <= MAX_MESSAGES_PER_POLL {
        available
    } else {
        MAX_MESSAGES_PER_POLL as nat
    }
}

/// The controller of the front control unit.
pub struct FcuController {
    pub config: Config,
    state: FcuState,
    config_updater: ConfigUpdater,
}

impl FcuController {
    /// The configuration of the unit.
    pub closed spec fn configuration(&self) -> Config {
        self.config
    }

    /// What the unit knows.
    pub closed spec fn state(&self) -> FcuState {
        self.state
    }

    /// Whether moving the cursor to `state` makes the unit emit a message:
    /// only where `state` is not the same as the cursor kept.
    pub open spec fn emits(&self, state: ConfigUpdateState) -> bool {
        !state.same(self.state().update)
    }

    /// The controller after the cursor was moved to `state`: the cursor is
    /// kept, everything else stays.
    pub closed spec fn moved(self, state: ConfigUpdateState) -> FcuController {
        FcuController {
            config: self.config,
            state: FcuState { update: state, ..self.state },
            config_updater: self.config_updater,
        }
    }

    /// Moving the cursor changes the cursor and nothing else.
    pub proof fn lemma_moved(controller: FcuController, state: ConfigUpdateState)
        ensures
            controller.moved(state).state() == (FcuState { update: state, ..controller.state() }),
            controller.moved(state).configuration() == controller.configuration(),
    {
    }

    /// A cursor that has not moved emits nothing: of two moves in a row to
    /// one cursor, the second one is silent, whether or not the first one
    /// emitted.
    pub proof fn lemma_debounce(controller: FcuController, state: ConfigUpdateState)
        requires
            state.val.is_number(),
        ensures
            !controller.moved(state).emits(state),
            controller.moved(state).moved(state) == controller.moved(state),
    {
    }

    /// A controller under `config`, in the state that a unit starts with.
    pub fn new(config: Config) -> (controller: Self)
        ensures
            controller.configuration() == config,
            controller.state() == FcuState::initial(),
    {
        FcuController { config, state: FcuState::default(), config_updater: ConfigUpdater::new() }
    }

    /// Takes in one message from the bus.
    pub fn process_message(&mut self, msg: Message)
        ensures
            final(self).configuration() == config_after(old(self).configuration(), msg),
            final(self).state() == old(self).state(),
    {
        match msg {
            Message::UpdateMessage(req) => {
                req.update(&mut self.config);
            },
            _ => {},
        }
    }

    /// Takes in what one poll of the bus has brought: the messages of `msgs`
    /// in their order, and of more than a poll holds only the first ones.
    /// Says how many were taken in.
    pub fn process_messages(&mut self, msgs: &Vec<Message>) -> (taken: usize)
        ensures
            taken == poll_size(msgs@.len()),
            final(self).configuration() == config_after_all(
                old(self).configuration(),
                msgs@.take(taken as int),
            ),
            final(self).state() == old(self).state(),
    {
        let limit: usize = if msgs.len() <= MAX_MESSAGES_PER_POLL {
            msgs.len()
        } else {
            MAX_MESSAGES_PER_POLL
        };
        let mut count: usize = 0;
        assert(msgs@.take(0) =~= Seq::<Message>::empty());
        while count < limit
            invariant
                count <= limit <= msgs@.len(),
                self.configuration() == config_after_all(
                    old(self).configuration(),
                    msgs@.take(count as int),
                ),
                self.state() == old(self).state(),
            decreases limit - count,
        {
            proof {
                let next = msgs@.take(count + 1);
                assert(next.drop_last() =~= msgs@.take(count as int));
                assert(next.last() == msgs@[count as int]);
            }
            self.process_message(msgs[count]);
            count = count + 1;
        }
        count
    }

    /// Moves the tuning cursor to `state`.  A message is emitted only where
    /// the cursor has changed; the new cursor is kept either way.
    pub fn run_config_update(&mut self, state: ConfigUpdateState) -> (emitted: Option<Message>)
        ensures
            emitted == (if old(self).emits(state) {
                Some(state.message())
            } else {
                None
            }),
            *final(self) == old(self).moved(state),
            final(self).state() == (FcuState { update: state, ..old(self).state() }),
            final(self).configuration() == old(self).configuration(),
    {
        let changed = state != self.state.update;
        self.state.update = state;
        if changed {
            Some(self.config_updater.run(state))
        } else {
            None
        }
    }

    /// Records the two requests and gives the message that broadcasts them.
    pub fn broadcast_ctl(&mut self, throttle: Percentage, brake: Percentage) -> (msg: Message)
        ensures
            msg == Message::ControlReqMessage(
                ControlReqMessage { throttle_req: throttle, brake_req: brake },
            ),
            final(self).state() == (FcuState {
                throttle_req: throttle,
                brake_req: brake,
                ..old(self).state()
            }),
            final(self).configuration() == old(self).configuration(),
    {
        self.state.brake_req = brake;
        self.state.throttle_req = throttle;
        Message::ControlReqMessage(ControlReqMessage { throttle_req: throttle, brake_req: brake })
    }

    /// Records the speed of the front wheel and gives the message that
    /// broadcasts it.
    pub fn broadcast_wheel(&mut self, ws: WheelSpeed) -> (msg: Message)
        ensures
            msg == Message::TireStatusMessage(TireStatus { wheel: Wheel::Front, ws }),
            final(self).state() == (FcuState { cur_ws: Some(ws), ..old(self).state() }),
            final(self).configuration() == old(self).configuration(),
    {
        self.state.cur_ws = Some(ws);
        Message::TireStatusMessage(TireStatus { wheel: Wheel::Front, ws: ws })
    }

    /// What the unit knows, for the operator's display.  The state stays as
    /// it is.
    pub fn update_user_display(&self) -> (snapshot: FcuState)
        ensures
            snapshot == self.state(),
    {
        self.state
    }
}

} // verus!
