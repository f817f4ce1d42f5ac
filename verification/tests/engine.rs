use shared::config::config::Config;
use shared::controllers::mcu::McuController;
use shared::controllers::shared::{AfterFirst, Attempt, Mailbox, Pending};
use shared::messages::messages::control_req::ControlReqMessage;
use shared::messages::messages::ecu::EcuMessage;
use shared::messages::messages::tire_status::TireStatus;
use shared::messages::messages::update::{Update, UpdateField};
use shared::messages::messages::Message;
use shared::operations::throttle_map::{ThottleMap, ThottleMapMode};
use shared::operations::traction_control::{Correction, TractionControl, TractionControlMode};
use shared::subsystems::mcu::engine::{EngineConfig, EngineRequest, EngineStep, EngineSubsystem};
use shared::subsystems::shared::Subsystem;
use shared::utils::parts::Wheel;
use shared::utils::percentage::Percentage;
use shared::utils::speed::WheelSpeed;
use shared::utils::time::Timestamp;

fn ratio(value: f32) -> Percentage {
    Percentage::from_fractional(value.to_bits())
}

fn value(ratio: Percentage) -> f32 {
    f32::from_bits(ratio.to_bits())
}

fn pid_for(config: &EngineConfig) -> pid_lite::Controller {
    pid_lite::Controller::new(
        value(config.desired_slip) as f64,
        f64::from_bits(config.traction_control_mode.prop_gain()),
        f64::from_bits(config.traction_control_mode.int_gain()),
        f64::from_bits(config.traction_control_mode.der_gain()),
    )
}

struct Unit {
    controller: McuController,
    pid: pid_lite::Controller,
    traction_ran: u32,
}

impl Unit {
    fn new(config: Config) -> Unit {
        Unit { controller: McuController::new(config), pid: pid_for(&config.engine), traction_ran: 0 }
    }

    fn tick(&mut self, micros: u64) -> EngineStep {
        let timestamp = Timestamp::from_micros(micros);
        assert!(self.controller.can_run_at(timestamp));
        let step = self.controller.run_engine_subsystem(timestamp);
        match step {
            EngineStep::Idle(_) => self.pid.reset(),
            EngineStep::Active { mapped, traction } => {
                let shaped = mapped;
                let throttle = match traction {
                    None => shaped,
                    Some(input) => {
                        self.traction_ran += 1;
                        let adjustment = self.pid.update_elapsed(
                            value(input.measured) as f64,
                            std::time::Duration::from_millis(input.elapsed.as_millis()),
                        );
                        let tc = &self.controller.engine_subsystem().traction_control;
                        match tc.correct(adjustment.to_bits(), shaped) {
                            Correction::Keep(request) => request,
                            Correction::Raise { request, adjustment, scale } => {
                                let raised = f64::from_bits(adjustment) * f64::from_bits(scale)
                                    + value(request) as f64;
                                Percentage::from_bits((raised as f32).to_bits())
                            }
                        }
                    }
                };
                self.controller.set_throttle(throttle);
            }
        }
        step
    }

    fn throttle(&self) -> Percentage {
        match self.controller.broadcast_ecu() {
            Message::EcuMessage(EcuMessage { throttle }) => throttle,
            other => panic!("not a throttle output: {:?}", other),
        }
    }

    fn request(&mut self, throttle: f32) {
        self.controller.process_message(Message::ControlReqMessage(ControlReqMessage {
            throttle_req: ratio(throttle),
            brake_req: Percentage::zero(),
        }));
    }

    fn speed(&mut self, wheel: Wheel, rpm: u16) {
        self.controller
            .process_message(Message::TireStatusMessage(TireStatus { wheel, ws: WheelSpeed::from(rpm) }));
    }
}

fn with_curve(mode: ThottleMapMode) -> Config {
    let mut config = Config::default();
    config.engine.throttle_map_mode = mode;
    config
}

#[test]
fn throttle_map_applies_the_curve() {
    let req = ratio(0.25);
    assert_eq!(ThottleMapMode::Level0().update(req).to_bits(), 0.5f32.to_bits());
    assert_eq!(ThottleMapMode::Level1().update(req).to_bits(), 0.25f32.to_bits());
    assert_eq!(ThottleMapMode::Level2().update(req).to_bits(), 0.0625f32.to_bits());
    let mut map = ThottleMap::new(ThottleMapMode::Level0());
    assert_eq!(map.mode, ThottleMapMode::Level0());
    assert_eq!(map.run_algo(req).to_bits(), 0.5f32.to_bits());
    map.update_mode(ThottleMapMode::Level1());
    assert_eq!(map.mode, ThottleMapMode::Level1());
    assert_eq!(map.run_algo(req).to_bits(), req.to_bits());
    map.update_mode(ThottleMapMode::Level2());
    assert_eq!(map.run_algo(ratio(1.0)).to_bits(), 1.0f32.to_bits());
    assert_eq!(map.run_algo(ratio(0.0)).to_bits(), 0);
}

#[test]
fn middle_curve_is_the_identity() {
    for bits in [0u32, 1, 0x3F00_0000, 0x3F80_0000, 0x7FC0_0000, 0xBF80_0000] {
        assert_eq!(ThottleMapMode::Level1().update(Percentage::from_bits(bits)).to_bits(), bits);
    }
}

#[test]
fn curves_bend_to_the_right_side() {
    for i in 1..10_000u32 {
        let req = ratio(i as f32 / 10_000.0);
        let low = value(ThottleMapMode::Level0().update(req));
        let high = value(ThottleMapMode::Level2().update(req));
        assert!(low >= value(req), "root of {}", value(req));
        assert!(high <= value(req), "square of {}", value(req));
        assert_eq!(low, value(req).sqrt());
        assert_eq!(high, value(req) * value(req));
    }
    // just above zero and just below one
    for bits in [1u32, 2, 0x0080_0000, 0x3F7F_FFFF, 0x3F7F_FFFE, 0x3F00_0000] {
        let req = Percentage::from_bits(bits);
        assert!(value(ThottleMapMode::Level0().update(req)) >= value(req));
        assert!(value(ThottleMapMode::Level2().update(req)) <= value(req));
    }
}

#[test]
fn gains_of_the_modes() {
    assert_eq!(f64::from_bits(TractionControlMode::Level0().prop_gain()), 0.1);
    assert_eq!(f64::from_bits(TractionControlMode::Level1().prop_gain()), 0.5);
    for mode in [TractionControlMode::Level0(), TractionControlMode::Level1()] {
        assert_eq!(f64::from_bits(mode.int_gain()), 0.0);
        assert_eq!(f64::from_bits(mode.der_gain()), 0.0);
        assert_eq!(f64::from_bits(mode.scale_factor()), 1.0);
    }
}

#[test]
fn traction_control_hands_over_the_elapsed_time() {
    let mut tc = TractionControl::new(TractionControlMode::Level1(), ratio(0.1));
    assert_eq!(tc.mode, TractionControlMode::Level1());
    assert_eq!(tc.desired_slip().to_bits(), 0.1f32.to_bits());
    assert_eq!(tc.prev_timestamp(), None);
    let first = tc.run_algo(Timestamp::from_micros(10_000), ratio(0.2));
    assert_eq!(first.elapsed.as_millis(), 0);
    assert_eq!(first.measured.to_bits(), 0.2f32.to_bits());
    assert_eq!(tc.prev_timestamp(), Some(Timestamp::from_micros(10_000)));
    let second = tc.run_algo(Timestamp::from_micros(110_999), ratio(0.3));
    assert_eq!(second.elapsed.as_millis(), 100);
    let third = tc.run_algo(Timestamp::from_micros(110_999), ratio(0.3));
    assert_eq!(third.elapsed.as_millis(), 0);
    tc.update_mode(TractionControlMode::Level0());
    assert_eq!(tc.mode(), TractionControlMode::Level0());
    assert_eq!(tc.prev_timestamp(), Some(Timestamp::from_micros(110_999)));
    tc.update_desired_slip(ratio(0.3));
    assert_eq!(tc.desired_slip().to_bits(), 0.3f32.to_bits());
    tc.reset();
    assert_eq!(tc.prev_timestamp(), None);
    assert_eq!(tc.mode(), TractionControlMode::Level0());
    assert_eq!(tc.desired_slip().to_bits(), 0.3f32.to_bits());
    let again = tc.run_algo(Timestamp::from_micros(500_000), ratio(0.3));
    assert_eq!(again.elapsed.as_millis(), 0);
}

#[test]
fn output_of_at_most_zero_keeps_the_request() {
    let tc = TractionControl::new(TractionControlMode::Level0(), ratio(0.1));
    let req = ratio(0.6);
    for adjustment in [0.0f64, -0.0, -0.05, f64::NEG_INFINITY] {
        match tc.correct(adjustment.to_bits(), req) {
            Correction::Keep(kept) => assert_eq!(kept.to_bits(), req.to_bits()),
            other => panic!("{} does not keep: {:?}", adjustment, other),
        }
    }
    for adjustment in [0.025f64, 5e-324, f64::INFINITY, f64::NAN] {
        match tc.correct(adjustment.to_bits(), req) {
            Correction::Raise { request, adjustment: by, scale } => {
                assert_eq!(request.to_bits(), req.to_bits());
                assert_eq!(by, adjustment.to_bits());
                assert_eq!(scale, 1.0f64.to_bits());
            }
            other => panic!("{} does not raise: {:?}", adjustment, other),
        }
    }
}

#[test]
fn engine_is_idle_without_throttle() {
    let mut engine = EngineSubsystem::new(Config::default().engine);
    let idle = EngineRequest {
        rear_ws: Some(WheelSpeed::from(1000)),
        front_ws: Some(WheelSpeed::from(800)),
        throttle_req: Percentage::zero(),
        timestamp: Timestamp::from_micros(0),
    };
    match engine.run(idle) {
        EngineStep::Idle(resp) => assert_eq!(resp.throttle_req.to_bits(), 0),
        other => panic!("not idle: {:?}", other),
    }
    // negative zero is zero
    let idle = EngineRequest { throttle_req: Percentage::from_bits(0x8000_0000), ..idle };
    match engine.run(idle) {
        EngineStep::Idle(resp) => assert_eq!(resp.throttle_req.to_bits(), 0),
        other => panic!("not idle: {:?}", other),
    }
    assert_eq!(engine.traction_control.prev_timestamp(), None);
}

#[test]
fn engine_asks_traction_control_only_on_slip() {
    let mut engine = EngineSubsystem::new(Config::default().engine);
    let base = EngineRequest {
        rear_ws: None,
        front_ws: None,
        throttle_req: ratio(0.5),
        timestamp: Timestamp::from_micros(1_000),
    };
    let quiet = [
        base,
        EngineRequest { rear_ws: Some(WheelSpeed::from(1000)), ..base },
        EngineRequest { front_ws: Some(WheelSpeed::from(800)), ..base },
        EngineRequest { rear_ws: Some(WheelSpeed::from(800)), front_ws: Some(WheelSpeed::from(800)), ..base },
        EngineRequest { rear_ws: Some(WheelSpeed::from(700)), front_ws: Some(WheelSpeed::from(800)), ..base },
    ];
    for req in quiet {
        match engine.run(req) {
            EngineStep::Active { mapped, traction: None } => {
                assert_eq!(mapped.to_bits(), 0.25f32.to_bits())
            }
            other => panic!("asked traction control: {:?}", other),
        }
        assert_eq!(engine.traction_control.prev_timestamp(), None);
    }
    let slipping = EngineRequest {
        rear_ws: Some(WheelSpeed::from(1000)),
        front_ws: Some(WheelSpeed::from(800)),
        ..base
    };
    match engine.run(slipping) {
        EngineStep::Active { mapped, traction: Some(input) } => {
            assert_eq!(mapped.to_bits(), 0.25f32.to_bits());
            assert_eq!(input.measured.to_bits(), 0.2f32.to_bits());
            assert_eq!(input.elapsed.as_millis(), 0);
        }
        other => panic!("did not ask traction control: {:?}", other),
    }
    assert_eq!(engine.traction_control.prev_timestamp(), Some(Timestamp::from_micros(1_000)));
    let later = EngineRequest { timestamp: Timestamp::from_micros(51_000), front_ws: Some(WheelSpeed::from(0)), ..slipping };
    match engine.run(later) {
        EngineStep::Active { traction: Some(input), .. } => {
            assert_eq!(input.measured.to_bits(), 1.0f32.to_bits());
            assert_eq!(input.elapsed.as_millis(), 50);
        }
        other => panic!("did not ask traction control: {:?}", other),
    }
}

#[test]
fn engine_update_swaps_modes_and_resets() {
    let mut engine = EngineSubsystem::new(Config::default().engine);
    let slipping = EngineRequest {
        rear_ws: Some(WheelSpeed::from(1000)),
        front_ws: Some(WheelSpeed::from(800)),
        throttle_req: ratio(0.5),
        timestamp: Timestamp::from_micros(1_000),
    };
    engine.run(slipping);
    assert!(engine.traction_control.prev_timestamp().is_some());
    engine.update(EngineConfig {
        throttle_map_mode: ThottleMapMode::Level0(),
        traction_control_mode: TractionControlMode::Level0(),
        desired_slip: ratio(0.3),
    });
    assert_eq!(engine.throttle_map.mode, ThottleMapMode::Level0());
    assert_eq!(engine.traction_control.mode, TractionControlMode::Level0());
    assert_eq!(engine.traction_control.desired_slip().to_bits(), 0.3f32.to_bits());
    assert_eq!(engine.traction_control.prev_timestamp(), None);
    engine.run(slipping);
    engine.reset();
    assert_eq!(engine.traction_control.prev_timestamp(), None);
    assert_eq!(engine.throttle_map.mode, ThottleMapMode::Level0());
}

#[test]
fn scenario_slip_runs_traction_control() {
    let mut unit = Unit::new(Config::default());
    unit.speed(Wheel::Rear, 1000);
    unit.speed(Wheel::Front, 800);
    unit.request(1.0);
    let step = unit.tick(1_000);
    match step {
        EngineStep::Active { mapped, traction: Some(input) } => {
            assert_eq!(mapped.to_bits(), 1.0f32.to_bits());
            assert_eq!(input.measured.to_bits(), 0.2f32.to_bits());
            assert_eq!(input.elapsed.as_millis(), 0);
        }
        other => panic!("traction control was not asked: {:?}", other),
    }
    assert_eq!(unit.traction_ran, 1);
    // slip above the target makes the loop answer below zero, which keeps the
    // shaped request
    let shaped = ThottleMapMode::Level2().update(ratio(1.0));
    assert_eq!(unit.throttle().to_bits(), shaped.to_bits());
    assert_eq!(unit.throttle().to_bits(), 1.0f32.to_bits());
}

#[test]
fn slip_below_target_raises_the_throttle() {
    let mut unit = Unit::new(with_curve(ThottleMapMode::Level1()));
    unit.speed(Wheel::Rear, 1000);
    unit.speed(Wheel::Front, 950);
    unit.request(0.5);
    unit.tick(1_000);
    assert_eq!(unit.traction_ran, 1);
    let slip = 0.05f32;
    let expected = (0.5f64 * (0.1f32 as f64 - slip as f64) + 0.5f32 as f64) as f32;
    assert_eq!(unit.throttle().to_bits(), expected.to_bits());
    assert!(value(unit.throttle()) > 0.5);
}

#[test]
fn scenario_no_samples_no_correction() {
    let mut unit = Unit::new(Config::default());
    unit.request(0.0);
    match unit.tick(1_000) {
        EngineStep::Idle(resp) => assert_eq!(resp.throttle_req.to_bits(), 0),
        other => panic!("not idle: {:?}", other),
    }
    assert_eq!(unit.controller.broadcast_ecu().to_bytes(), [0; 8]);
    assert_eq!(unit.throttle().to_bits(), 0);
    unit.request(0.5);
    match unit.tick(101_000) {
        EngineStep::Active { traction: None, .. } => {}
        other => panic!("traction control was asked: {:?}", other),
    }
    assert_eq!(unit.traction_ran, 0);
    let mapped = ThottleMapMode::Level2().update(ratio(0.5));
    assert_eq!(unit.throttle().to_bits(), mapped.to_bits());
    assert_eq!(value(unit.throttle()), 0.25);
    assert_eq!(unit.controller.broadcast_ecu().to_bytes(), [63, 0, 0, 0, 0, 0, 0, 0]);
}

#[test]
fn tick_without_slip_settles_without_the_caller() {
    let mut soft = McuController::new(Config::default());
    soft.process_message(Message::ControlReqMessage(ControlReqMessage {
        throttle_req: ratio(0.5),
        brake_req: ratio(0.0),
    }));
    soft.run_engine_subsystem(Timestamp::from_micros(7));
    assert_eq!(soft.broadcast_ecu().to_bytes(), [63, 0, 0, 0, 0, 0, 0, 0]);
    let mut sharp = McuController::new(with_curve(ThottleMapMode::Level0()));
    sharp.process_message(Message::ControlReqMessage(ControlReqMessage {
        throttle_req: ratio(0.25),
        brake_req: ratio(0.0),
    }));
    sharp.run_engine_subsystem(Timestamp::from_micros(7));
    assert_eq!(sharp.broadcast_ecu().to_bytes(), [127, 0, 0, 0, 0, 0, 0, 0]);
    let mut controller = McuController::new(with_curve(ThottleMapMode::Level1()));
    controller.process_message(Message::ControlReqMessage(ControlReqMessage {
        throttle_req: ratio(0.5),
        brake_req: ratio(0.0),
    }));
    controller.run_engine_subsystem(Timestamp::from_micros(7));
    assert_eq!(controller.broadcast_ecu().to_bytes(), [127, 0, 0, 0, 0, 0, 0, 0]);
    controller.process_message(Message::ControlReqMessage(ControlReqMessage {
        throttle_req: ratio(0.0),
        brake_req: ratio(1.0),
    }));
    controller.run_engine_subsystem(Timestamp::from_micros(8));
    assert_eq!(controller.broadcast_ecu().to_bytes(), [0; 8]);
}

#[test]
fn idle_tick_makes_the_unit_behave_as_new() {
    let mut used = Unit::new(Config::default());
    used.speed(Wheel::Rear, 1000);
    used.speed(Wheel::Front, 950);
    used.request(0.8);
    used.tick(1_000);
    used.tick(101_000);
    used.tick(201_000);
    assert_eq!(used.traction_ran, 3);
    used.request(0.0);
    used.tick(301_000);
    assert_eq!(used.throttle().to_bits(), 0);
    assert_eq!(used.controller.engine_subsystem().traction_control.prev_timestamp(), None);

    let mut new = Unit::new(Config::default());
    new.speed(Wheel::Rear, 1000);
    new.speed(Wheel::Front, 950);
    for micros in [401_000u64, 501_000, 601_000] {
        used.request(0.8);
        new.request(0.8);
        let a = used.tick(micros);
        let b = new.tick(micros);
        match (a, b) {
            (
                EngineStep::Active { traction: Some(x), .. },
                EngineStep::Active { traction: Some(y), .. },
            ) => {
                assert_eq!(x.elapsed, y.elapsed);
                assert_eq!(x.measured.to_bits(), y.measured.to_bits());
            }
            other => panic!("traction control was not asked: {:?}", other),
        }
        assert_eq!(used.throttle().to_bits(), new.throttle().to_bits());
    }
}

#[test]
fn motor_unit_ignores_messages_meant_for_others() {
    let mut unit = Unit::new(with_curve(ThottleMapMode::Level1()));
    unit.request(0.5);
    unit.tick(1_000);
    let before = unit.controller.broadcast_ecu().to_bytes();
    unit.controller.process_message(Message::EcuMessage(EcuMessage { throttle: ratio(1.0) }));
    unit.controller.process_message(Message::UpdateMessage(Update {
        field: UpdateField::TMM(),
        data: [0, 0, 0, 0, 0, 0, 0],
    }));
    unit.tick(2_000);
    assert_eq!(unit.controller.broadcast_ecu().to_bytes(), before);
    assert_eq!(unit.controller.config.engine.throttle_map_mode, ThottleMapMode::Level1());
}

#[test]
fn tick_waits_for_time_to_catch_up() {
    let mut unit = Unit::new(Config::default());
    unit.speed(Wheel::Rear, 1000);
    unit.speed(Wheel::Front, 800);
    unit.request(1.0);
    unit.tick(5_000);
    assert!(!unit.controller.can_run_at(Timestamp::from_micros(4_999)));
    assert!(unit.controller.can_run_at(Timestamp::from_micros(5_000)));
    unit.request(0.0);
    assert!(unit.controller.can_run_at(Timestamp::from_micros(0)));
    unit.request(1.0);
    unit.speed(Wheel::Front, 1000);
    assert!(unit.controller.can_run_at(Timestamp::from_micros(0)));
}

#[test]
fn refused_frame_replaces_the_stale_one() {
    let mut pending = Pending::new();
    assert_eq!(pending.mailbox, None);
    // nothing known to wait: a refused frame is dropped
    assert_eq!(pending.first_attempt(Attempt::Busy), AfterFirst::Done);
    pending.settle(Attempt::Busy, Attempt::Busy);
    assert_eq!(pending.mailbox, None);
    // accepted at once
    assert_eq!(pending.first_attempt(Attempt::Queued(Mailbox::Mailbox1)), AfterFirst::Done);
    pending.settle(Attempt::Queued(Mailbox::Mailbox1), Attempt::Busy);
    assert_eq!(pending.mailbox, Some(Mailbox::Mailbox1));
    // refused while the last one waits: cancel it and try once more
    assert_eq!(pending.first_attempt(Attempt::Busy), AfterFirst::AbortAndRetry(Mailbox::Mailbox1));
    pending.settle(Attempt::Busy, Attempt::Queued(Mailbox::Mailbox2));
    assert_eq!(pending.mailbox, Some(Mailbox::Mailbox2));
    // refused twice: dropped without notice
    assert_eq!(pending.first_attempt(Attempt::Busy), AfterFirst::AbortAndRetry(Mailbox::Mailbox2));
    pending.settle(Attempt::Busy, Attempt::Busy);
    assert_eq!(pending.mailbox, None);
}
