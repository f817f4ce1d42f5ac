use shared::messages::messages::control_req::ControlReqMessage;
use shared::messages::messages::ecu::EcuMessage;
use shared::messages::messages::text::{bytes_to_hex, from_text, hex_to_bytes, parse_id, to_text, TextError};
use shared::messages::messages::tire_status::TireStatus;
use shared::messages::messages::update::{Update, UpdateField};
use shared::messages::messages::Message;
use shared::utils::parts::Wheel;
use shared::utils::percentage::Percentage;
use shared::utils::speed::WheelSpeed;

fn line(msg: &Message) -> String {
    String::from_utf8(to_text(msg)).unwrap()
}

#[test]
fn lines_are_identifier_colon_hex() {
    let ecu = Message::EcuMessage(EcuMessage { throttle: Percentage::full() });
    assert_eq!(line(&ecu), "1:ff00000000000000");
    let ctl = Message::ControlReqMessage(ControlReqMessage {
        throttle_req: Percentage::from_fractional(0.5f32.to_bits()),
        brake_req: Percentage::zero(),
    });
    assert_eq!(line(&ctl), "2:7f00000000000000");
    let trs = Message::TireStatusMessage(TireStatus { wheel: Wheel::Front, ws: WheelSpeed::from(1000) });
    assert_eq!(line(&trs), "3:01e8030000000000");
    let upd = Message::UpdateMessage(Update { field: UpdateField::DSL(), data: [10, 0xAB, 0, 0, 0, 0, 0xF0] });
    assert_eq!(line(&upd), "4:020aab00000000f0");
}

#[test]
fn hex_of_bytes() {
    assert_eq!(bytes_to_hex(&[]), b"".to_vec());
    assert_eq!(bytes_to_hex(&[0x00, 0x09, 0x0a, 0xff, 0x10]), b"00090aff10".to_vec());
    for byte in 0..=255u8 {
        assert_eq!(bytes_to_hex(&[byte]), format!("{:02x}", byte).into_bytes());
    }
}

#[test]
fn bytes_of_hex() {
    assert_eq!(hex_to_bytes(b"000102030405060f"), Ok([0, 1, 2, 3, 4, 5, 6, 15]));
    assert_eq!(hex_to_bytes(b"FFfeFdfC00000000"), Ok([255, 254, 253, 252, 0, 0, 0, 0]));
    // what follows the sixteenth digit is not looked at
    assert_eq!(hex_to_bytes(b"0000000000000001zz"), Ok([0, 0, 0, 0, 0, 0, 0, 1]));
    // a plus sign may stand for the first digit of a byte
    assert_eq!(hex_to_bytes(b"+a00000000000000"), Ok([10, 0, 0, 0, 0, 0, 0, 0]));
    assert_eq!(hex_to_bytes(b"000102030405060"), Err(TextError::ShortData));
    assert_eq!(hex_to_bytes(b""), Err(TextError::ShortData));
    assert_eq!(hex_to_bytes(b"0g00000000000000"), Err(TextError::BadDigit));
    assert_eq!(hex_to_bytes(b"a+00000000000000"), Err(TextError::BadDigit));
    assert_eq!(hex_to_bytes(b"++00000000000000"), Err(TextError::BadDigit));
    assert_eq!(hex_to_bytes(b"-100000000000000"), Err(TextError::BadDigit));
    assert_eq!(hex_to_bytes(b"00000000000000 1"), Err(TextError::BadDigit));
    for byte in 0..=255u8 {
        let text = format!("{:02X}{:02x}000000000000", byte, byte);
        assert_eq!(hex_to_bytes(text.as_bytes()), Ok([byte, byte, 0, 0, 0, 0, 0, 0]));
    }
}

#[test]
fn identifiers_as_text() {
    for (text, expected) in [
        ("0", Some(0u16)),
        ("4", Some(4)),
        ("+4", Some(4)),
        ("0004", Some(4)),
        ("65535", Some(65535)),
        ("000000000065535", Some(65535)),
        ("65536", None),
        ("99999999999999999999999", None),
        ("", None),
        ("+", None),
        ("-1", None),
        ("++1", None),
        ("1+", None),
        (" 1", None),
        ("1 ", None),
        ("0x1", None),
        ("12a", None),
    ] {
        assert_eq!(parse_id(text.as_bytes()), expected, "{:?}", text);
        assert_eq!(parse_id(text.as_bytes()), text.parse::<u16>().ok(), "{:?}", text);
    }
    for id in (0..=u16::MAX).step_by(7) {
        assert_eq!(parse_id(id.to_string().as_bytes()), Some(id));
    }
}

#[test]
fn reading_a_line() {
    assert_eq!(
        from_text(b"3:01e8030000000000"),
        Ok(Message::TireStatusMessage(TireStatus { wheel: Wheel::Front, ws: WheelSpeed::from(1000) }))
    );
    assert_eq!(
        from_text(b"+004:020AAB00000000F0 and more"),
        Ok(Message::UpdateMessage(Update { field: UpdateField::DSL(), data: [10, 0xAB, 0, 0, 0, 0, 0xF0] }))
    );
    match from_text(b"1:ff00000000000000") {
        Ok(Message::EcuMessage(msg)) => assert_eq!(msg.throttle.to_bits(), 1.0f32.to_bits()),
        other => panic!("not a throttle output: {:?}", other),
    }
    assert_eq!(from_text(b"1ff00000000000000"), Err(TextError::MissingColon));
    assert_eq!(from_text(b""), Err(TextError::MissingColon));
    assert_eq!(from_text(b":ff00000000000000"), Err(TextError::BadId));
    assert_eq!(from_text(b"one:ff00000000000000"), Err(TextError::BadId));
    assert_eq!(from_text(b"70000:ff00000000000000"), Err(TextError::BadId));
    assert_eq!(from_text(b"1:ff"), Err(TextError::ShortData));
    assert_eq!(from_text(b"1:"), Err(TextError::ShortData));
    assert_eq!(from_text(b"1:ff0000000000000:"), Err(TextError::BadDigit));
    assert_eq!(from_text(b"1::ff00000000000000"), Err(TextError::BadDigit));
    assert_eq!(from_text(b"5:ff00000000000000"), Err(TextError::UnknownId));
    assert_eq!(from_text(b"0:ff00000000000000"), Err(TextError::UnknownId));
    assert_eq!(
        from_text(b"4:0300000000000000"),
        Ok(Message::UpdateMessage(Update { field: UpdateField::TMM(), data: [0; 7] }))
    );
    assert_eq!(from_text(b"65535:0300000000000000"), Err(TextError::UnknownId));
}

#[test]
fn written_lines_read_back() {
    let mut msgs: Vec<Message> = Vec::new();
    for rpm in [0u16, 1, 999, 0xFFFF] {
        msgs.push(Message::TireStatusMessage(TireStatus { wheel: Wheel::Rear, ws: WheelSpeed::from(rpm) }));
        msgs.push(Message::TireStatusMessage(TireStatus { wheel: Wheel::Front, ws: WheelSpeed::from(rpm) }));
    }
    for field in [UpdateField::TMM(), UpdateField::TCM(), UpdateField::DSL()] {
        msgs.push(Message::UpdateMessage(Update { field, data: [0, 1, 2, 253, 254, 255, 16] }));
    }
    for msg in msgs {
        assert_eq!(from_text(&to_text(&msg)), Ok(msg));
    }
    for byte in 0..=255u8 {
        let ecu = Message::EcuMessage(EcuMessage { throttle: Percentage::from(byte) });
        match from_text(&to_text(&ecu)) {
            Ok(Message::EcuMessage(back)) => {
                assert_eq!(back.throttle.to_bits(), Percentage::from(byte).to_bits())
            }
            other => panic!("not a throttle output: {:?}", other),
        }
        let ctl = Message::ControlReqMessage(ControlReqMessage {
            throttle_req: Percentage::from(byte),
            brake_req: Percentage::from(255 - byte),
        });
        match from_text(&to_text(&ctl)) {
            Ok(Message::ControlReqMessage(back)) => {
                assert_eq!(back.throttle_req.to_bits(), Percentage::from(byte).to_bits());
                assert_eq!(back.brake_req.to_bits(), Percentage::from(255 - byte).to_bits());
            }
            other => panic!("not a control request: {:?}", other),
        }
    }
}
