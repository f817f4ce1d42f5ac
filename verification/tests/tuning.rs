use shared::config::config::Config;
use shared::controllers::fcu::{tasks_due, FcuController, MAX_MESSAGES_PER_POLL};
use shared::messages::messages::control_req::ControlReqMessage;
use shared::messages::messages::ecu::EcuMessage;
use shared::messages::messages::update::{Update, UpdateField};
use shared::messages::messages::Message;
use shared::operations::config_updater::{ConfigUpdateOptions, ConfigUpdateState, ConfigUpdater};
use shared::operations::throttle_map::ThottleMapMode;
use shared::operations::traction_control::TractionControlMode;
use shared::utils::percentage::Percentage;
use shared::utils::speed::WheelSpeed;

fn ratio(value: f32) -> Percentage {
    Percentage::from_fractional(value.to_bits())
}

fn next_up(value: f32) -> f32 {
    f32::from_bits(value.to_bits() + 1)
}

fn cursor(selector: f32, value: f32) -> ConfigUpdateState {
    ConfigUpdateState::new(Percentage::from_bits(selector.to_bits()), Percentage::from_bits(value.to_bits()))
}

#[test]
fn scenario_selector_low_picks_desired_slip() {
    let state = cursor(0.10, 0.45);
    assert_eq!(state.field, UpdateField::DSL());
    match state.val {
        ConfigUpdateOptions::DSL(slip) => assert_eq!(slip.to_bits(), 0.04f32.to_bits()),
        other => panic!("not a slip: {:?}", other),
    }
    let msg = ConfigUpdater::new().run(state);
    match msg {
        Message::UpdateMessage(update) => {
            assert_eq!(update.field, UpdateField::DSL());
            assert_eq!(update.data, [10, 0, 0, 0, 0, 0, 0]);
            // the payload stands for four percent
            assert_eq!(Percentage::from(update.data[0]).to_int(), 4);
        }
        other => panic!("not a change: {:?}", other),
    }
    assert_eq!(msg.to_bytes(), [2, 10, 0, 0, 0, 0, 0, 0]);
}

#[test]
fn scenario_selector_middle_picks_traction_control() {
    let state = cursor(0.50, 0.80);
    assert_eq!(state.field, UpdateField::TCM());
    match state.val {
        ConfigUpdateOptions::TCM(mode) => assert_eq!(mode, TractionControlMode::Level1()),
        other => panic!("not a mode: {:?}", other),
    }
    let msg = ConfigUpdater::new().run(state);
    assert_eq!(msg.to_bytes(), [1, 1, 0, 0, 0, 0, 0, 0]);
    assert_eq!(
        msg,
        Message::UpdateMessage(Update { field: UpdateField::TCM(), data: [1, 0, 0, 0, 0, 0, 0] })
    );
}

#[test]
fn selector_thresholds() {
    assert_eq!(cursor(0.0, 0.0).field, UpdateField::DSL());
    assert_eq!(cursor(-1.0, 0.0).field, UpdateField::DSL());
    assert_eq!(cursor(0.33, 0.0).field, UpdateField::DSL());
    assert_eq!(cursor(next_up(0.33), 0.0).field, UpdateField::TCM());
    assert_eq!(cursor(0.66, 0.0).field, UpdateField::TCM());
    assert_eq!(cursor(next_up(0.66), 0.0).field, UpdateField::TMM());
    assert_eq!(cursor(1.0, 0.0).field, UpdateField::TMM());
    assert_eq!(cursor(f32::NAN, 0.0).field, UpdateField::TMM());
}

#[test]
fn value_thresholds() {
    let tcm = |value: f32| match cursor(0.5, value).val {
        ConfigUpdateOptions::TCM(mode) => mode,
        other => panic!("not a mode: {:?}", other),
    };
    assert_eq!(tcm(0.0), TractionControlMode::Level0());
    assert_eq!(tcm(0.5), TractionControlMode::Level0());
    assert_eq!(tcm(next_up(0.5)), TractionControlMode::Level1());
    assert_eq!(tcm(1.0), TractionControlMode::Level1());
    let tmm = |value: f32| match cursor(0.9, value).val {
        ConfigUpdateOptions::TMM(mode) => mode,
        other => panic!("not a curve: {:?}", other),
    };
    assert_eq!(tmm(0.0), ThottleMapMode::Level0());
    assert_eq!(tmm(0.33), ThottleMapMode::Level0());
    assert_eq!(tmm(next_up(0.33)), ThottleMapMode::Level1());
    assert_eq!(tmm(0.66), ThottleMapMode::Level1());
    assert_eq!(tmm(next_up(0.66)), ThottleMapMode::Level2());
    assert_eq!(tmm(1.0), ThottleMapMode::Level2());
    let dsl = |value: f32| match cursor(0.1, value).val {
        ConfigUpdateOptions::DSL(slip) => f32::from_bits(slip.to_bits()),
        other => panic!("not a slip: {:?}", other),
    };
    assert_eq!(dsl(0.0), 0.0);
    assert_eq!(dsl(0.09), 0.0);
    assert_eq!(dsl(0.10), 0.01);
    assert_eq!(dsl(0.45), 0.04);
    assert_eq!(dsl(0.999), 0.10);
    assert_eq!(dsl(1.0), 0.10);
}

#[test]
fn payload_of_each_kind() {
    assert_eq!(ConfigUpdateOptions::DSL(ratio(1.0)).to_bytes(), [255, 0, 0, 0, 0, 0, 0]);
    assert_eq!(ConfigUpdateOptions::DSL(ratio(0.1)).to_bytes(), [25, 0, 0, 0, 0, 0, 0]);
    assert_eq!(ConfigUpdateOptions::TCM(TractionControlMode::Level1()).to_bytes(), [1, 0, 0, 0, 0, 0, 0]);
    assert_eq!(ConfigUpdateOptions::TMM(ThottleMapMode::Level2()).to_bytes(), [2, 0, 0, 0, 0, 0, 0]);
}

#[test]
fn default_cursor_is_the_default_slip() {
    let state = ConfigUpdateState::default();
    assert_eq!(state.field, UpdateField::DSL());
    match state.val {
        ConfigUpdateOptions::DSL(slip) => {
            assert_eq!(slip.to_bits(), Config::default().engine.desired_slip.to_bits());
            assert_eq!(slip.to_bits(), 0.1f32.to_bits());
        }
        other => panic!("not a slip: {:?}", other),
    }
    assert!(state == ConfigUpdateState::default());
}

#[test]
fn cursors_compare_by_tunable_and_value() {
    assert!(cursor(0.1, 0.45) == cursor(0.2, 0.49));
    assert!(cursor(0.1, 0.45) != cursor(0.1, 0.55));
    assert!(cursor(0.5, 0.2) == cursor(0.6, 0.4));
    assert!(cursor(0.5, 0.2) != cursor(0.5, 0.7));
    assert!(cursor(0.5, 0.2) != cursor(0.9, 0.2));
    let broken = ConfigUpdateState {
        field: UpdateField::DSL(),
        val: ConfigUpdateOptions::DSL(Percentage::from_bits(f32::NAN.to_bits())),
    };
    assert!(broken != broken);
}

#[test]
fn unchanged_cursor_emits_only_once() {
    let mut fcu = FcuController::new(Config::default());
    let state = cursor(0.5, 0.8);
    let first = fcu.run_config_update(state);
    assert_eq!(first, Some(ConfigUpdater::new().run(state)));
    assert_eq!(fcu.run_config_update(state), None);
    assert_eq!(fcu.run_config_update(cursor(0.55, 0.9)), None);
    assert!(fcu.update_user_display().update == state);
    let moved = cursor(0.5, 0.1);
    assert_eq!(fcu.run_config_update(moved), Some(ConfigUpdater::new().run(moved)));
    assert_eq!(fcu.run_config_update(moved), None);
    assert!(fcu.update_user_display().update == moved);
}

#[test]
fn starting_cursor_is_silent() {
    let mut fcu = FcuController::new(Config::default());
    assert_eq!(fcu.run_config_update(ConfigUpdateState::default()), None);
    assert!(fcu.run_config_update(cursor(0.1, 0.45)).is_some());
}

#[test]
fn update_applied_twice_is_update_applied_once() {
    let updates = [
        Update { field: UpdateField::TMM(), data: [1, 9, 9, 9, 9, 9, 9] },
        Update { field: UpdateField::TMM(), data: [7, 0, 0, 0, 0, 0, 0] },
        Update { field: UpdateField::TCM(), data: [0, 0, 0, 0, 0, 0, 0] },
        Update { field: UpdateField::TCM(), data: [1, 0, 0, 0, 0, 0, 0] },
        Update { field: UpdateField::DSL(), data: [10, 0, 0, 0, 0, 0, 0] },
        Update { field: UpdateField::DSL(), data: [255, 0, 0, 0, 0, 0, 0] },
    ];
    for update in updates {
        let mut once = Config::default();
        update.update(&mut once);
        let mut twice = Config::default();
        update.update(&mut twice);
        update.update(&mut twice);
        assert_eq!(once.engine.throttle_map_mode, twice.engine.throttle_map_mode);
        assert_eq!(once.engine.traction_control_mode, twice.engine.traction_control_mode);
        assert_eq!(once.engine.desired_slip.to_bits(), twice.engine.desired_slip.to_bits());
        assert_eq!(once.mcu.engine_poll, twice.mcu.engine_poll);
        assert_eq!(once.mcu.ecu_poll, twice.mcu.ecu_poll);
    }
}

#[test]
fn update_sets_one_tunable() {
    let mut config = Config::default();
    assert_eq!(config.engine.throttle_map_mode, ThottleMapMode::Level2());
    assert_eq!(config.engine.traction_control_mode, TractionControlMode::Level1());
    assert_eq!(config.engine.desired_slip.to_bits(), 0.1f32.to_bits());
    assert_eq!(config.mcu.engine_poll.as_millis(), 100);
    assert_eq!(config.mcu.ecu_poll.as_millis(), 500);
    Update { field: UpdateField::TMM(), data: [1, 0, 0, 0, 0, 0, 0] }.update(&mut config);
    assert_eq!(config.engine.throttle_map_mode, ThottleMapMode::Level1());
    assert_eq!(config.engine.traction_control_mode, TractionControlMode::Level1());
    UpdateField::TCM().update_config(&mut config, [0, 0, 0, 0, 0, 0, 0]);
    assert_eq!(config.engine.traction_control_mode, TractionControlMode::Level0());
    Update { field: UpdateField::DSL(), data: [51, 0, 0, 0, 0, 0, 0] }.update(&mut config);
    assert_eq!(config.engine.desired_slip.to_bits(), 0.2f32.to_bits());
    assert_eq!(config.engine.throttle_map_mode, ThottleMapMode::Level1());
}

#[test]
fn front_unit_applies_updates_and_ignores_the_rest() {
    let mut fcu = FcuController::new(Config::default());
    fcu.process_message(Message::EcuMessage(EcuMessage { throttle: ratio(0.7) }));
    fcu.process_message(Message::ControlReqMessage(ControlReqMessage {
        throttle_req: ratio(0.7),
        brake_req: ratio(0.1),
    }));
    assert_eq!(fcu.config.engine.throttle_map_mode, ThottleMapMode::Level2());
    assert_eq!(fcu.update_user_display().throttle_req.to_bits(), 0);
    fcu.process_message(ConfigUpdater::new().run(cursor(0.9, 0.5)));
    assert_eq!(fcu.config.engine.throttle_map_mode, ThottleMapMode::Level1());
    fcu.process_message(ConfigUpdater::new().run(cursor(0.1, 0.45)));
    assert_eq!(fcu.config.engine.desired_slip.to_bits(), (10.0f32 / 255.0).to_bits());
}

#[test]
fn front_unit_takes_eleven_messages_per_poll() {
    assert_eq!(MAX_MESSAGES_PER_POLL, 11);
    let to_level = |level: u8| {
        Message::UpdateMessage(Update { field: UpdateField::TMM(), data: [level, 0, 0, 0, 0, 0, 0] })
    };
    let mut fcu = FcuController::new(Config::default());
    assert_eq!(fcu.process_messages(&vec![]), 0);
    assert_eq!(fcu.process_messages(&vec![to_level(0), to_level(1)]), 2);
    assert_eq!(fcu.config.engine.throttle_map_mode, ThottleMapMode::Level1());
    let mut many = vec![to_level(0); 11];
    many.push(to_level(2));
    many.push(to_level(2));
    assert_eq!(fcu.process_messages(&many), 11);
    assert_eq!(fcu.config.engine.throttle_map_mode, ThottleMapMode::Level0());
}

#[test]
fn front_unit_records_what_it_broadcasts() {
    let mut fcu = FcuController::new(Config::default());
    let start = fcu.update_user_display();
    assert_eq!(start.throttle_req.to_bits(), 0);
    assert_eq!(start.brake_req.to_bits(), 0);
    assert_eq!(start.cur_ws, None);
    assert!(start.update == ConfigUpdateState::default());
    let msg = fcu.broadcast_ctl(ratio(0.5), ratio(0.25));
    assert_eq!(msg.to_bytes(), [127, 63, 0, 0, 0, 0, 0, 0]);
    let shown = fcu.update_user_display();
    assert_eq!(shown.throttle_req.to_bits(), 0.5f32.to_bits());
    assert_eq!(shown.brake_req.to_bits(), 0.25f32.to_bits());
    let msg = fcu.broadcast_wheel(WheelSpeed::from(800));
    assert_eq!(msg.to_bytes(), [1, 0x20, 0x03, 0, 0, 0, 0, 0]);
    assert_eq!(fcu.update_user_display().cur_ws, Some(WheelSpeed::from(800)));
}

#[test]
fn jobs_fall_due_on_the_multiples_of_their_period() {
    let at_start = tasks_due(0);
    assert!(at_start.read_messages && at_start.broadcast_ctl);
    assert!(at_start.broadcast_update && at_start.refresh_display);
    let tasks = tasks_due(300);
    assert!(!tasks.read_messages && tasks.broadcast_ctl);
    assert!(!tasks.broadcast_update && tasks.refresh_display);
    let tasks = tasks_due(250);
    assert!(tasks.read_messages && !tasks.broadcast_ctl);
    assert!(!tasks.broadcast_update && !tasks.refresh_display);
    let tasks = tasks_due(1500);
    assert!(tasks.read_messages && tasks.broadcast_ctl);
    assert!(tasks.broadcast_update && tasks.refresh_display);
    let tasks = tasks_due(7);
    assert!(!tasks.read_messages && !tasks.broadcast_ctl);
    assert!(!tasks.broadcast_update && !tasks.refresh_display);
}
