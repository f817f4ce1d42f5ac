use shared::can;
use shared::config::config::{Config, ConfigDelta};
use shared::messages::ids::{CTL_MESG_ID, ECU_MESG_ID, TRS_MESG_ID, UPD_MESG_ID};
use shared::messages::messages::control_req::ControlReqMessage;
use shared::messages::messages::ecu::EcuMessage;
use shared::messages::messages::mcu::McuMessage;
use shared::messages::messages::tire_status::TireStatus;
use shared::messages::messages::update::{Update, UpdateField};
use shared::messages::messages::Message;
use shared::operations::throttle_map::ThottleMapMode;
use shared::operations::traction_control::TractionControlMode;
use shared::subsystems::mcu::engine::EngineConfig;
use shared::utils::parts::Wheel;
use shared::utils::percentage::Percentage;
use shared::utils::speed::WheelSpeed;

fn ratio(value: f32) -> Percentage {
    Percentage::from_fractional(value.to_bits())
}

fn value(ratio: Percentage) -> f32 {
    f32::from_bits(ratio.to_bits())
}

#[test]
fn identifiers() {
    assert_eq!(ECU_MESG_ID, 0x01);
    assert_eq!(CTL_MESG_ID, 0x02);
    assert_eq!(TRS_MESG_ID, 0x03);
    assert_eq!(UPD_MESG_ID, 0x04);
    assert_eq!(Message::EcuMessage(EcuMessage { throttle: ratio(0.0) }).to_id(), ECU_MESG_ID);
    let ctl = ControlReqMessage { throttle_req: ratio(0.0), brake_req: ratio(0.0) };
    assert_eq!(Message::ControlReqMessage(ctl).to_id(), CTL_MESG_ID);
    let trs = TireStatus { wheel: Wheel::Rear, ws: WheelSpeed::from(0) };
    assert_eq!(Message::TireStatusMessage(trs).to_id(), TRS_MESG_ID);
    let upd = Update { field: UpdateField::DSL(), data: [0; 7] };
    assert_eq!(Message::UpdateMessage(upd).to_id(), UPD_MESG_ID);
}

#[test]
fn ecu_layout() {
    assert_eq!(EcuMessage { throttle: Percentage::full() }.to_bytes(), [255, 0, 0, 0, 0, 0, 0, 0]);
    assert_eq!(EcuMessage { throttle: Percentage::zero() }.to_bytes(), [0; 8]);
    assert_eq!(EcuMessage { throttle: ratio(0.5) }.to_bytes(), [127, 0, 0, 0, 0, 0, 0, 0]);
    let back = EcuMessage::from_bytes(&[51, 9, 9, 9, 9, 9, 9, 9]);
    assert_eq!(back.throttle.to_bits(), (51.0f32 / 255.0).to_bits());
    assert_eq!(EcuMessage::from_bytes(&[255]).throttle.to_bits(), 1.0f32.to_bits());
}

#[test]
fn control_req_layout() {
    let msg = ControlReqMessage { throttle_req: ratio(1.0), brake_req: ratio(0.2) };
    assert_eq!(msg.to_bytes(), [255, 51, 0, 0, 0, 0, 0, 0]);
    let back = ControlReqMessage::from_bytes(&[255, 51, 0, 0, 0, 0, 0, 0]);
    assert_eq!(back.throttle_req.to_bits(), 1.0f32.to_bits());
    assert_eq!(back.brake_req.to_bits(), 0.2f32.to_bits());
    let mcu = McuMessage { throttle: ratio(1.0), brake: ratio(0.2) };
    assert_eq!(mcu.to_bytes(), [255, 51, 0, 0, 0, 0, 0, 0]);
    assert_eq!(McuMessage::from_bytes(&[0, 255]).brake.to_bits(), 1.0f32.to_bits());
}

#[test]
fn tire_status_layout() {
    let msg = TireStatus { wheel: Wheel::Front, ws: WheelSpeed::from(1000) };
    assert_eq!(msg.to_bytes(), [1, 0xE8, 0x03, 0, 0, 0, 0, 0]);
    let rear = TireStatus { wheel: Wheel::Rear, ws: WheelSpeed::from(0xABCD) };
    assert_eq!(rear.to_bytes(), [0, 0xCD, 0xAB, 0, 0, 0, 0, 0]);
    assert_eq!(TireStatus::from_bytes(&[0, 0xCD, 0xAB]), rear);
    // a tag that names no wheel reads as the rear wheel
    assert_eq!(TireStatus::from_bytes(&[9, 0xCD, 0xAB, 1, 2, 3, 4, 5]), rear);
}

#[test]
fn update_layout() {
    let msg = Update { field: UpdateField::TCM(), data: [1, 2, 3, 4, 5, 6, 7] };
    assert_eq!(msg.to_bytes(), [1, 1, 2, 3, 4, 5, 6, 7]);
    assert_eq!(Update::from_bytes(&[1, 1, 2, 3, 4, 5, 6, 7]), msg);
    assert_eq!(Update::new(UpdateField::TCM(), &[1, 2, 3, 4, 5, 6, 7, 8, 9]), msg);
    assert_eq!(Update::from_bytes(&[2, 0, 0, 0, 0, 0, 0, 0, 99]).field, UpdateField::DSL());
    assert_eq!(Update::from_bytes(&[0, 0, 0, 0, 0, 0, 0, 0]).field, UpdateField::TMM());
    // read alone, a change is lenient about its tag
    assert_eq!(Update::from_bytes(&[77, 0, 0, 0, 0, 0, 0, 0]).field, UpdateField::TMM());
    assert_eq!(u8::from(UpdateField::TMM()), 0);
    assert_eq!(u8::from(UpdateField::TCM()), 1);
    assert_eq!(u8::from(UpdateField::DSL()), 2);
    assert_eq!(UpdateField::from(3), UpdateField::TMM());
}

#[test]
fn decoding_goes_by_the_identifier() {
    let data = [1u8, 0xE8, 0x03, 0, 0, 0, 0, 0];
    match Message::from_bytes(ECU_MESG_ID, &data) {
        Some(Message::EcuMessage(msg)) => assert_eq!(msg.throttle.to_bits(), (1.0f32 / 255.0).to_bits()),
        other => panic!("not a throttle output: {:?}", other),
    }
    match Message::from_bytes(CTL_MESG_ID, &data) {
        Some(Message::ControlReqMessage(msg)) => {
            assert_eq!(msg.throttle_req.to_bits(), (1.0f32 / 255.0).to_bits());
            assert_eq!(msg.brake_req.to_bits(), (232.0f32 / 255.0).to_bits());
        }
        other => panic!("not a control request: {:?}", other),
    }
    assert_eq!(
        Message::from_bytes(TRS_MESG_ID, &data),
        Some(Message::TireStatusMessage(TireStatus { wheel: Wheel::Front, ws: WheelSpeed::from(1000) }))
    );
    assert_eq!(
        Message::from_bytes(UPD_MESG_ID, &data),
        Some(Message::UpdateMessage(Update { field: UpdateField::TCM(), data: [0xE8, 0x03, 0, 0, 0, 0, 0] }))
    );
}

#[test]
fn unknown_identifier_gives_no_message() {
    let data = [1u8, 2, 3, 4, 5, 6, 7, 8];
    assert_eq!(Message::from_bytes(0x00, &data), None);
    assert_eq!(Message::from_bytes(0x05, &data), None);
    assert_eq!(Message::from_bytes(0x7FF, &data), None);
    assert_eq!(Message::from_bytes(0xFFFF, &data), None);
    assert_eq!(Message::from_bytes(0x05, &[]), None);
}

#[test]
fn malformed_update_tag_reads_as_the_default_tunable() {
    assert_eq!(
        Message::from_bytes(UPD_MESG_ID, &[3, 1, 2, 3, 4, 5, 6, 7]),
        Some(Message::UpdateMessage(Update { field: UpdateField::TMM(), data: [1, 2, 3, 4, 5, 6, 7] }))
    );
    assert_eq!(
        Message::from_bytes(UPD_MESG_ID, &[255, 0, 0, 0, 0, 0, 0, 0]),
        Some(Message::UpdateMessage(Update { field: UpdateField::TMM(), data: [0; 7] }))
    );
    assert_eq!(
        Message::from_bytes(UPD_MESG_ID, &[2, 0, 0, 0, 0, 0, 0, 0]),
        Some(Message::UpdateMessage(Update { field: UpdateField::DSL(), data: [0; 7] }))
    );
}

#[test]
fn known_identifier_always_gives_its_kind() {
    for first in 0..=255u8 {
        let data = [first, first.wrapping_mul(3), 7, 0, 0, 0, 9, first];
        assert!(matches!(Message::from_bytes(ECU_MESG_ID, &data), Some(Message::EcuMessage(_))));
        assert!(matches!(Message::from_bytes(CTL_MESG_ID, &data), Some(Message::ControlReqMessage(_))));
        assert!(matches!(Message::from_bytes(TRS_MESG_ID, &data), Some(Message::TireStatusMessage(_))));
        assert!(matches!(Message::from_bytes(UPD_MESG_ID, &data), Some(Message::UpdateMessage(_))));
        assert_eq!(Message::from_bytes(0x05, &data), None);
        assert_eq!(Message::from_bytes(0x00, &data), None);
    }
}

#[test]
fn frames_long_enough_to_decode() {
    assert!(Message::can_decode(ECU_MESG_ID, &[0]));
    assert!(!Message::can_decode(ECU_MESG_ID, &[]));
    assert!(Message::can_decode(CTL_MESG_ID, &[0, 0]));
    assert!(!Message::can_decode(CTL_MESG_ID, &[0]));
    assert!(Message::can_decode(TRS_MESG_ID, &[0, 0, 0]));
    assert!(!Message::can_decode(TRS_MESG_ID, &[0, 0]));
    assert!(Message::can_decode(UPD_MESG_ID, &[0; 8]));
    assert!(!Message::can_decode(UPD_MESG_ID, &[0; 7]));
    assert!(Message::can_decode(0x05, &[]));
    assert!(Message::can_decode(0xFFFF, &[]));
}

#[test]
fn every_message_round_trips() {
    let speeds = [0u16, 1, 255, 256, 1000, 0x7FFF, 0x8000, 0xFFFF];
    for wheel in [Wheel::Rear, Wheel::Front] {
        for rpm in speeds {
            let msg = Message::TireStatusMessage(TireStatus { wheel, ws: WheelSpeed::from(rpm) });
            let bytes = msg.to_bytes();
            assert_eq!(&bytes[3..], &[0u8; 5]);
            assert_eq!(Message::from_bytes(msg.to_id(), &bytes), Some(msg));
        }
    }
    for field in [UpdateField::TMM(), UpdateField::TCM(), UpdateField::DSL()] {
        for data in [[0u8; 7], [255u8; 7], [1, 2, 3, 4, 5, 6, 7]] {
            let msg = Message::UpdateMessage(Update { field, data });
            assert_eq!(Message::from_bytes(msg.to_id(), &msg.to_bytes()), Some(msg));
        }
    }
    let step = 1.0f32 / 255.0;
    for throttle in [0.0f32, 1.0, 0.5, 0.25, 0.999, 0.001, step, 254.0 * step] {
        for brake in [0.0f32, 1.0, 0.333, 0.75] {
            let ecu = Message::EcuMessage(EcuMessage { throttle: ratio(throttle) });
            let bytes = ecu.to_bytes();
            assert_eq!(&bytes[1..], &[0u8; 7]);
            match Message::from_bytes(ecu.to_id(), &bytes) {
                Some(Message::EcuMessage(back)) => {
                    assert!((value(back.throttle) - throttle).abs() <= step);
                }
                other => panic!("not a throttle output: {:?}", other),
            }
            let ctl = Message::ControlReqMessage(ControlReqMessage {
                throttle_req: ratio(throttle),
                brake_req: ratio(brake),
            });
            let bytes = ctl.to_bytes();
            assert_eq!(&bytes[2..], &[0u8; 6]);
            match Message::from_bytes(ctl.to_id(), &bytes) {
                Some(Message::ControlReqMessage(back)) => {
                    assert!((value(back.throttle_req) - throttle).abs() <= step);
                    assert!((value(back.brake_req) - brake).abs() <= step);
                }
                other => panic!("not a control request: {:?}", other),
            }
        }
    }
}

#[test]
fn every_frame_reencodes_to_itself() {
    for a in 0..=255u8 {
        let b = a.wrapping_mul(7).wrapping_add(3);
        let ecu = Message::from_bytes(ECU_MESG_ID, &[a, 0, 0, 0, 0, 0, 0, 0]).unwrap();
        assert_eq!(ecu.to_bytes(), [a, 0, 0, 0, 0, 0, 0, 0]);
        let ctl = Message::from_bytes(CTL_MESG_ID, &[a, b, 0, 0, 0, 0, 0, 0]).unwrap();
        assert_eq!(ctl.to_bytes(), [a, b, 0, 0, 0, 0, 0, 0]);
        let trs = Message::from_bytes(TRS_MESG_ID, &[a & 1, a, b, 0, 0, 0, 0, 0]).unwrap();
        assert_eq!(trs.to_bytes(), [a & 1, a, b, 0, 0, 0, 0, 0]);
        let upd = Message::from_bytes(UPD_MESG_ID, &[a % 3, a, b, a, b, a, b, a]).unwrap();
        assert_eq!(upd.to_bytes(), [a % 3, a, b, a, b, a, b, a]);
        // a tag that names no tunable is written back as the default one
        let lenient = Message::from_bytes(UPD_MESG_ID, &[3 + a % 253, a, b, a, b, a, b, a]).unwrap();
        assert_eq!(lenient.to_bytes(), [0, a, b, a, b, a, b, a]);
    }
}

#[test]
fn mode_tags() {
    assert_eq!(u8::from(ThottleMapMode::Level0()), 0);
    assert_eq!(u8::from(ThottleMapMode::Level1()), 1);
    assert_eq!(u8::from(ThottleMapMode::Level2()), 2);
    assert_eq!(ThottleMapMode::from(0), ThottleMapMode::Level0());
    assert_eq!(ThottleMapMode::from(1), ThottleMapMode::Level1());
    assert_eq!(ThottleMapMode::from(2), ThottleMapMode::Level2());
    assert_eq!(ThottleMapMode::from(3), ThottleMapMode::Level0());
    assert_eq!(u8::from(TractionControlMode::Level0()), 0);
    assert_eq!(u8::from(TractionControlMode::Level1()), 1);
    assert_eq!(TractionControlMode::from(1), TractionControlMode::Level1());
    assert_eq!(TractionControlMode::from(0), TractionControlMode::Level0());
    assert_eq!(TractionControlMode::from(200), TractionControlMode::Level0());
    assert_eq!(TractionControlMode::Level0().to_small_str(), "000");
    assert_eq!(TractionControlMode::Level1().to_small_str(), "001");
}

#[test]
fn config_delta_layout() {
    let delta = ConfigDelta {
        engine: EngineConfig {
            throttle_map_mode: ThottleMapMode::Level1(),
            traction_control_mode: TractionControlMode::Level1(),
            desired_slip: ratio(0.2),
        },
    };
    assert_eq!(delta.to_bytes(), [1, 1, 51, 0, 0, 0, 0, 0]);
    let back = ConfigDelta::from_bytes(&[2, 0, 51]);
    assert_eq!(back.engine.throttle_map_mode, ThottleMapMode::Level2());
    assert_eq!(back.engine.traction_control_mode, TractionControlMode::Level0());
    assert_eq!(back.engine.desired_slip.to_bits(), 0.2f32.to_bits());
    let mut config = Config::default();
    let polls = config.mcu;
    config.apply_delta(delta);
    assert_eq!(config.engine.throttle_map_mode, ThottleMapMode::Level1());
    assert_eq!(config.engine.desired_slip.to_bits(), 0.2f32.to_bits());
    assert_eq!(config.mcu.engine_poll, polls.engine_poll);
    assert_eq!(config.mcu.ecu_poll, polls.ecu_poll);
}

#[test]
fn raw_frames() {
    let mcu = can::messages::McuMessage { throttle: 200, brake: 3 };
    assert_eq!(mcu.to_bytes(), [200, 3, 0, 0, 0, 0, 0, 0]);
    assert_eq!(can::messages::McuMessage::from_bytes(&mcu.to_bytes()), mcu);
    let fcu = can::messages::FcuMessage { throttle_req: 1, brake_req: 2, tire_rpm: 0x1234 };
    assert_eq!(fcu.to_bytes(), [1, 2, 0x34, 0x12, 0, 0, 0, 0]);
    assert_eq!(can::messages::FcuMessage::from_bytes(&fcu.to_bytes()), fcu);
    let rcu = can::messages::RcuMessage { tire_rpm: 0xFEDC };
    assert_eq!(rcu.to_bytes(), [0xDC, 0xFE, 0, 0, 0, 0, 0, 0]);
    assert_eq!(can::messages::RcuMessage::from_bytes(&rcu.to_bytes()), rcu);
}
