use dojolib::codec::{encode_command, join_word, split_word, Command, Event};
use dojolib::decoder::{Decoder, Frame};
use dojolib::error::CircuitDojoError;
use dojolib::DOJOLIB_VERSION;

fn decode_all(bytes: &[u8]) -> Result<Vec<Frame>, CircuitDojoError> {
    let mut decoder = Decoder::new();
    let mut frames = Vec::new();
    for byte in bytes {
        if let Some(frame) = decoder.feed(*byte)? {
            frames.push(frame);
        }
    }
    assert!(decoder.is_idle());
    Ok(frames)
}

#[test]
fn version_is_one() {
    assert_eq!(DOJOLIB_VERSION, 1);
}

#[test]
fn establish_is_one_byte() {
    assert_eq!(encode_command(&Command::PleaseEstablish), vec![0xFF]);
}

#[test]
fn commands_encode_to_their_opcodes() {
    assert_eq!(encode_command(&Command::RequestBoardParameters), vec![0x80]);
    assert_eq!(encode_command(&Command::SetPinModeInput(7)), vec![0x81, 7]);
    assert_eq!(encode_command(&Command::SetPinModeOutput(63)), vec![0x82, 63]);
    assert_eq!(encode_command(&Command::RunOneSample), vec![0x86]);
}

#[test]
fn digital_value_is_sent_without_opcode() {
    assert_eq!(encode_command(&Command::SetDigitalPinValue(5, true)), vec![0x45]);
    assert_eq!(encode_command(&Command::SetDigitalPinValue(5, false)), vec![0x05]);
    assert_eq!(encode_command(&Command::SetDigitalPinValue(0, false)), vec![0x00]);
    assert_eq!(encode_command(&Command::SetDigitalPinValue(63, true)), vec![0x7F]);
}

#[test]
fn subscribe_carries_interval_low_byte_first() {
    assert_eq!(encode_command(&Command::Subscribe(100)), vec![0x87, 100, 0]);
    assert_eq!(encode_command(&Command::Subscribe(0x1234)), vec![0x87, 0x34, 0x12]);
    assert_eq!(encode_command(&Command::Subscribe(0xFFFF)), vec![0x87, 0xFF, 0xFF]);
}

#[test]
fn words_split_and_join() {
    assert_eq!(split_word(0x1234), (0x34, 0x12));
    assert_eq!(split_word(0), (0, 0));
    assert_eq!(join_word(0x34, 0x12), 0x1234);
    assert_eq!(join_word(0xFF, 0xFF), 0xFFFF);
    for value in [0u16, 1, 255, 256, 4660, 65535] {
        let (low, high) = split_word(value);
        assert_eq!(join_word(low, high), value);
    }
}

#[test]
fn digital_byte_round_trip_for_every_pin() {
    for id in 0u8..64 {
        for value in [false, true] {
            let bytes = encode_command(&Command::SetDigitalPinValue(id, value));
            assert_eq!(bytes.len(), 1);
            let mut decoder = Decoder::new();
            let frame = decoder.feed(bytes[0]).unwrap();
            assert_eq!(frame, Some(Frame::Report(Event::DigitalPinStateChange(id, value))));
            assert!(decoder.is_idle());
        }
    }
}

#[test]
fn ack_and_error_are_frames_of_one_byte() {
    assert_eq!(decode_all(&[0xFF, 0xFE]).unwrap(), vec![Frame::Ack, Frame::Error]);
}

#[test]
fn sampling_bounds_take_two_more_bytes() {
    let mut decoder = Decoder::new();
    assert_eq!(decoder.feed(0x80).unwrap(), None);
    assert!(!decoder.is_idle());
    assert_eq!(decoder.feed(0x34).unwrap(), None);
    assert_eq!(
        decoder.feed(0x12).unwrap(),
        Some(Frame::Report(Event::SamplingBounds(0x1234)))
    );
    assert!(decoder.is_idle());
}

#[test]
fn pin_description_carries_flags_and_name() {
    let frames = decode_all(&[0x81, 0x43, b'D', b'3', 0, 0x81, 0x8A, b'A', b'0', 0]).unwrap();
    assert_eq!(
        frames,
        vec![
            Frame::Report(Event::PinDescription(3, false, true, String::from("D3"))),
            Frame::Report(Event::PinDescription(10, true, false, String::from("A0"))),
        ]
    );
}

#[test]
fn pin_description_may_have_an_empty_name() {
    let frames = decode_all(&[0x81, 0xFF, 0]).unwrap();
    assert_eq!(
        frames,
        vec![Frame::Report(Event::PinDescription(63, true, true, String::new()))]
    );
}

#[test]
fn board_description_carries_name() {
    let mut bytes = vec![0x82];
    bytes.extend_from_slice("TestBoard".as_bytes());
    bytes.push(0);
    assert_eq!(
        decode_all(&bytes).unwrap(),
        vec![Frame::Report(Event::BoardDescription(String::from("TestBoard")))]
    );
}

#[test]
fn names_are_read_as_utf8() {
    let mut bytes = vec![0x82];
    bytes.extend_from_slice("Dojo µ ✓".as_bytes());
    bytes.push(0);
    assert_eq!(
        decode_all(&bytes).unwrap(),
        vec![Frame::Report(Event::BoardDescription(String::from("Dojo µ ✓")))]
    );
}

#[test]
fn name_that_is_not_utf8_is_a_synchronization_error() {
    let mut decoder = Decoder::new();
    assert_eq!(decoder.feed(0x82).unwrap(), None);
    assert_eq!(decoder.feed(b'a').unwrap(), None);
    assert_eq!(decoder.feed(0xC3).unwrap(), None);
    assert_eq!(decoder.feed(b'b').unwrap(), None);
    assert_eq!(decoder.feed(0), Err(CircuitDojoError::SynchronizationError(0xC3)));
    assert!(decoder.is_idle());
}

#[test]
fn unknown_control_byte_is_a_synchronization_error() {
    for byte in [0x83u8, 0x84, 0x85, 0x86, 0x87, 0x90, 0xC0, 0xFD] {
        let mut decoder = Decoder::new();
        assert_eq!(decoder.feed(byte), Err(CircuitDojoError::SynchronizationError(byte)));
        assert!(decoder.is_idle());
    }
}

#[test]
fn control_bytes_are_data_inside_a_frame() {
    assert_eq!(
        decode_all(&[0x80, 0xFF, 0xFE]).unwrap(),
        vec![Frame::Report(Event::SamplingBounds(0xFEFF))]
    );
}

#[test]
fn frames_follow_one_another() {
    let frames = decode_all(&[0x45, 0xFF, 0x80, 1, 0, 0x05]).unwrap();
    assert_eq!(
        frames,
        vec![
            Frame::Report(Event::DigitalPinStateChange(5, true)),
            Frame::Ack,
            Frame::Report(Event::SamplingBounds(1)),
            Frame::Report(Event::DigitalPinStateChange(5, false)),
        ]
    );
}
