use dojolib::board::{Capabilities, PinData, PinMode, PinStatus, PinType};
use dojolib::codec::{encode_command, Command, Event};
use dojolib::connection::{Connection, Handshake};
use dojolib::discovery::{Discovered, Discovery};
use dojolib::error::{CircuitDojoError, ReadOutcome};

fn hear(connection: &mut Connection, bytes: &[u8]) {
    for byte in bytes {
        connection.wait_incoming(ReadOutcome::Byte(*byte)).unwrap();
    }
}

fn send(connection: &mut Connection, command: Command, wire: &mut Vec<u8>) {
    wire.extend(encode_command(&command));
    connection.write_command(command, true).unwrap();
}

fn discover(events: Vec<Event>) -> Result<Discovered, CircuitDojoError> {
    let mut discovery = Discovery::new();
    for event in events {
        match discovery.accept(event)? {
            Discovered::More(next) => {
                discovery = next;
            }
            Discovered::Done(found) => {
                return Ok(Discovered::Done(found));
            }
        }
    }
    Ok(Discovered::More(discovery))
}

#[test]
fn handshake_succeeds_with_one_write_when_device_acks() {
    let mut connection = Connection::new();
    assert_eq!(connection.read_timeout_millis(), 1000);
    let mut wire = Vec::new();
    let mut writes = 0;
    let outcome = loop {
        send(&mut connection, Command::PleaseEstablish, &mut wire);
        writes += 1;
        match connection.begin(ReadOutcome::Byte(0xFF)) {
            Ok(Handshake::Retry) => {}
            other => break other,
        }
    };
    assert_eq!(outcome, Ok(Handshake::Established));
    assert_eq!(writes, 1);
    assert_eq!(wire, vec![0xFF]);
    assert_eq!(connection.read_timeout_millis(), 10);
}

#[test]
fn handshake_times_out_after_five_attempts() {
    let mut connection = Connection::new();
    let mut wire = Vec::new();
    let mut writes = 0;
    let outcome = loop {
        send(&mut connection, Command::PleaseEstablish, &mut wire);
        writes += 1;
        match connection.begin(ReadOutcome::TimedOut) {
            Ok(Handshake::Retry) => {}
            other => break other,
        }
    };
    assert_eq!(outcome, Err(CircuitDojoError::TransportTimedOut));
    assert_eq!(writes, 5);
    assert_eq!(wire, vec![0xFF; 5]);
    assert_eq!(connection.read_timeout_millis(), 1000);
}

#[test]
fn handshake_succeeds_at_the_third_attempt() {
    let mut connection = Connection::new();
    let mut wire = Vec::new();
    send(&mut connection, Command::PleaseEstablish, &mut wire);
    assert_eq!(connection.begin(ReadOutcome::TimedOut), Ok(Handshake::Retry));
    send(&mut connection, Command::PleaseEstablish, &mut wire);
    assert_eq!(connection.begin(ReadOutcome::TimedOut), Ok(Handshake::Retry));
    send(&mut connection, Command::PleaseEstablish, &mut wire);
    assert_eq!(connection.begin(ReadOutcome::Byte(0xFF)), Ok(Handshake::Established));
    // The two requests that got no answer are forgotten: a rejection that
    // comes now finds nothing to refer to.
    assert_eq!(
        connection.wait_incoming(ReadOutcome::Byte(0xFE)),
        Err(CircuitDojoError::SynchronizationError(0xFE))
    );
}

#[test]
fn handshake_ends_on_a_broken_channel() {
    let mut connection = Connection::new();
    connection.write_command(Command::PleaseEstablish, true).unwrap();
    assert_eq!(
        connection.begin(ReadOutcome::Failed),
        Err(CircuitDojoError::TransportIoError)
    );
}

#[test]
fn handshake_ends_on_a_byte_out_of_place() {
    let mut connection = Connection::new();
    connection.write_command(Command::PleaseEstablish, true).unwrap();
    assert_eq!(
        connection.begin(ReadOutcome::Byte(0x90)),
        Err(CircuitDojoError::SynchronizationError(0x90))
    );
}

#[test]
fn handshake_reads_on_inside_a_frame() {
    let mut connection = Connection::new();
    connection.write_command(Command::PleaseEstablish, true).unwrap();
    assert_eq!(connection.begin(ReadOutcome::Byte(0x80)), Ok(Handshake::Pending));
    assert_eq!(connection.begin(ReadOutcome::Byte(1)), Ok(Handshake::Pending));
    // The frame is complete and acknowledges nothing: the attempt is spent.
    assert_eq!(connection.begin(ReadOutcome::Byte(0)), Ok(Handshake::Retry));
}

#[test]
fn write_that_failed_is_not_recorded() {
    let mut connection = Connection::new();
    assert_eq!(
        connection.write_command(Command::RunOneSample, false),
        Err(CircuitDojoError::TransportIoError)
    );
    assert_eq!(
        connection.wait_incoming(ReadOutcome::Byte(0xFE)),
        Err(CircuitDojoError::SynchronizationError(0xFE))
    );
}

#[test]
fn block_read_byte_maps_the_outcome() {
    assert_eq!(Connection::block_read_byte(ReadOutcome::Byte(0x42)), Ok(0x42));
    assert_eq!(
        Connection::block_read_byte(ReadOutcome::TimedOut),
        Err(CircuitDojoError::TransportTimedOut)
    );
    assert_eq!(
        Connection::block_read_byte(ReadOutcome::Failed),
        Err(CircuitDojoError::TransportIoError)
    );
}

#[test]
fn write_byte_maps_the_outcome() {
    assert_eq!(Connection::write_byte(true), Ok(()));
    assert_eq!(Connection::write_byte(false), Err(CircuitDojoError::TransportIoError));
}

#[test]
fn block_read_nullt_string_reads_utf8() {
    assert_eq!(
        Connection::block_read_nullt_string(&"TestBoard".as_bytes().to_vec()),
        Ok(String::from("TestBoard"))
    );
    assert_eq!(Connection::block_read_nullt_string(&Vec::new()), Ok(String::new()));
    assert_eq!(
        Connection::block_read_nullt_string(&vec![b'a', 0xE2, 0x82]),
        Err(CircuitDojoError::SynchronizationError(0xE2))
    );
}

#[test]
fn timeout_and_failure_change_nothing() {
    let mut connection = Connection::new();
    assert_eq!(connection.wait_incoming(ReadOutcome::Byte(0x80)), Ok(()));
    assert_eq!(connection.wait_incoming(ReadOutcome::Byte(100)), Ok(()));
    assert_eq!(
        connection.wait_incoming(ReadOutcome::TimedOut),
        Err(CircuitDojoError::TransportTimedOut)
    );
    assert_eq!(
        connection.wait_incoming(ReadOutcome::Failed),
        Err(CircuitDojoError::TransportIoError)
    );
    assert_eq!(connection.peek_event(), None);
    assert_eq!(connection.wait_incoming(ReadOutcome::Byte(0)), Ok(()));
    assert_eq!(connection.events(), vec![Event::SamplingBounds(100)]);
}

#[test]
fn error_byte_names_the_oldest_waiting_command() {
    let mut connection = Connection::new();
    connection.write_command(Command::SetPinModeOutput(3), true).unwrap();
    connection.write_command(Command::SetDigitalPinValue(3, true), true).unwrap();
    hear(&mut connection, &[0xFE]);
    assert_eq!(
        connection.events(),
        vec![Event::BoardError(Command::SetPinModeOutput(3))]
    );
    hear(&mut connection, &[0xFF]);
    assert_eq!(connection.events(), Vec::new());
    assert_eq!(
        connection.wait_incoming(ReadOutcome::Byte(0xFE)),
        Err(CircuitDojoError::SynchronizationError(0xFE))
    );
}

#[test]
fn ack_of_establish_drops_stale_establish_only() {
    let mut connection = Connection::new();
    connection.write_command(Command::PleaseEstablish, true).unwrap();
    connection.write_command(Command::PleaseEstablish, true).unwrap();
    connection.write_command(Command::RequestBoardParameters, true).unwrap();
    connection.write_command(Command::PleaseEstablish, true).unwrap();
    connection.write_command(Command::RunOneSample, true).unwrap();
    hear(&mut connection, &[0xFF, 0xFE, 0xFE]);
    assert_eq!(
        connection.events(),
        vec![
            Event::BoardError(Command::RequestBoardParameters),
            Event::BoardError(Command::RunOneSample),
        ]
    );
}

#[test]
fn ack_with_nothing_waiting_is_ignored() {
    let mut connection = Connection::new();
    assert_eq!(connection.wait_incoming(ReadOutcome::Byte(0xFF)), Ok(()));
    assert_eq!(connection.events(), Vec::new());
    assert_eq!(connection.read_timeout_millis(), 1000);
}

#[test]
fn events_are_taken_oldest_first() {
    let mut connection = Connection::new();
    hear(&mut connection, &[0x01, 0x42, 0x03]);
    assert_eq!(
        connection.peek_event(),
        Some(&Event::DigitalPinStateChange(1, false))
    );
    assert_eq!(
        connection.next_event(),
        Some(Event::DigitalPinStateChange(1, false))
    );
    assert_eq!(
        connection.events(),
        vec![
            Event::DigitalPinStateChange(2, true),
            Event::DigitalPinStateChange(3, false),
        ]
    );
    assert_eq!(connection.next_event(), None);
    assert_eq!(connection.peek_event(), None);
}

#[test]
fn yoink_event_takes_the_first_match_and_moves_the_last_in() {
    let mut connection = Connection::new();
    hear(&mut connection, &[0x01, 0x42, 0x03, 0x44]);
    let yoinked = connection.yoink_event(|event| matches!(event, Event::DigitalPinStateChange(_, true)));
    assert_eq!(yoinked, Some(Event::DigitalPinStateChange(2, true)));
    assert_eq!(
        connection.events(),
        vec![
            Event::DigitalPinStateChange(1, false),
            Event::DigitalPinStateChange(4, true),
            Event::DigitalPinStateChange(3, false),
        ]
    );
}

#[test]
fn yoink_event_takes_the_last_event() {
    let mut connection = Connection::new();
    hear(&mut connection, &[0x01, 0x42]);
    let yoinked = connection.yoink_event(|event| matches!(event, Event::DigitalPinStateChange(2, _)));
    assert_eq!(yoinked, Some(Event::DigitalPinStateChange(2, true)));
    assert_eq!(connection.events(), vec![Event::DigitalPinStateChange(1, false)]);
}

#[test]
fn yoink_event_without_match_takes_nothing() {
    let mut connection = Connection::new();
    hear(&mut connection, &[0x01, 0x42]);
    let yoinked = connection.yoink_event(|event| matches!(event, Event::SamplingBounds(_)));
    assert_eq!(yoinked, None);
    assert_eq!(
        connection.events(),
        vec![
            Event::DigitalPinStateChange(1, false),
            Event::DigitalPinStateChange(2, true),
        ]
    );
}

#[test]
fn event_wait_hears_then_picks() {
    let mut connection = Connection::new();
    let wanted = |event: &Event| matches!(event, Event::SamplingBounds(_));
    assert_eq!(connection.event_wait(ReadOutcome::Byte(0x41), wanted), Ok(None));
    assert_eq!(connection.event_wait(ReadOutcome::Byte(0x80), wanted), Ok(None));
    assert_eq!(
        connection.event_wait(ReadOutcome::TimedOut, wanted),
        Err(CircuitDojoError::TransportTimedOut)
    );
    assert_eq!(connection.event_wait(ReadOutcome::Byte(7), wanted), Ok(None));
    assert_eq!(
        connection.event_wait(ReadOutcome::Byte(0), wanted),
        Ok(Some(Event::SamplingBounds(7)))
    );
    assert_eq!(connection.events(), vec![Event::DigitalPinStateChange(1, true)]);
}

#[test]
fn capability_round_trip() {
    let mut stream = vec![0x80, 100, 0];
    stream.extend_from_slice(&[0x81, 0x43, b'D', b'3', 0]);
    stream.extend_from_slice(&[0x81, 0x8A, b'A', b'0', 0]);
    stream.push(0x82);
    stream.extend_from_slice("TestBoard".as_bytes());
    stream.push(0);
    let mut connection = Connection::new();
    hear(&mut connection, &stream);
    let found = discover(connection.events()).unwrap();
    assert_eq!(
        found,
        Discovered::Done(Capabilities {
            board_name: String::from("TestBoard"),
            min_sample: 100,
            pins: vec![
                PinData {
                    tp: PinType::DigitalPullup,
                    mode: PinMode::Unset,
                    hw_id: 3,
                    ident: String::from("D3"),
                    status: PinStatus::NoStatus,
                },
                PinData {
                    tp: PinType::Analog,
                    mode: PinMode::Unset,
                    hw_id: 10,
                    ident: String::from("A0"),
                    status: PinStatus::NoStatus,
                },
            ],
        })
    );
}

#[test]
fn discovery_of_a_board_without_pins() {
    let found = discover(vec![
        Event::SamplingBounds(5),
        Event::BoardDescription(String::from("Bare")),
    ])
    .unwrap();
    assert_eq!(
        found,
        Discovered::Done(Capabilities {
            board_name: String::from("Bare"),
            min_sample: 5,
            pins: Vec::new(),
        })
    );
}

#[test]
fn discovery_is_not_done_before_the_board_description() {
    let found = discover(vec![
        Event::SamplingBounds(5),
        Event::PinDescription(1, false, false, String::from("D1")),
    ])
    .unwrap();
    assert!(matches!(found, Discovered::More(_)));
}

#[test]
fn discovery_wants_the_sampling_bounds_first() {
    assert_eq!(
        discover(vec![Event::PinDescription(1, false, false, String::from("D1"))]),
        Err(CircuitDojoError::SynchronizationError(0x81))
    );
    assert_eq!(
        discover(vec![Event::BoardDescription(String::from("B"))]),
        Err(CircuitDojoError::SynchronizationError(0x82))
    );
}

#[test]
fn discovery_takes_the_sampling_bounds_once() {
    assert_eq!(
        discover(vec![Event::SamplingBounds(5), Event::SamplingBounds(6)]),
        Err(CircuitDojoError::SynchronizationError(0x80))
    );
}

#[test]
fn discovery_refuses_anything_else() {
    assert_eq!(
        discover(vec![Event::SamplingBounds(5), Event::DigitalPinStateChange(5, true)]),
        Err(CircuitDojoError::SynchronizationError(0x45))
    );
    assert_eq!(
        discover(vec![Event::DigitalPinStateChange(5, false)]),
        Err(CircuitDojoError::SynchronizationError(0x05))
    );
    assert_eq!(
        discover(vec![
            Event::SamplingBounds(5),
            Event::BoardError(Command::RequestBoardParameters),
        ]),
        Err(CircuitDojoError::SynchronizationError(0xFE))
    );
    assert_eq!(
        discover(vec![Event::SamplingBounds(5), Event::AnalogPinStateChange(9, 512)]),
        Err(CircuitDojoError::SynchronizationError(9))
    );
}
