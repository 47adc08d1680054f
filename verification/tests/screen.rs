use dojolib::board::{Board, Capabilities, PinData, PinMode, PinStatus, PinType};
use dojolib::codec::Command;
use dojolib::connection::Connection;
use dojolib::error::{CircuitDojoError, ReadOutcome};
use dojolib::screen::{
    click_intent, mode_label, tile_color, Intent, MainScreen, PortPickerScreen, TileColor,
    SUBSCRIBE_INTERVAL,
};

fn screen_pin(hw_id: u8, mode: PinMode, status: PinStatus) -> PinData {
    PinData {
        tp: PinType::Digital,
        mode,
        hw_id,
        ident: format!("D{}", hw_id),
        status,
    }
}

fn two_pin_board() -> Board {
    Board::new(Capabilities {
        board_name: String::from("Desk"),
        min_sample: 10,
        pins: vec![
            screen_pin(1, PinMode::Unset, PinStatus::NoStatus),
            screen_pin(2, PinMode::Unset, PinStatus::NoStatus),
        ],
    })
}

fn taken(screen: &mut MainScreen) -> Vec<Command> {
    let mut connection = Connection::new();
    screen.board.worker(&mut connection, ReadOutcome::TimedOut).unwrap().to_send
}

#[test]
fn port_picker_starts_at_the_first_port() {
    let screen = PortPickerScreen::new(vec![String::from("/dev/ttyACM0"), String::from("/dev/ttyUSB1")]);
    assert_eq!(screen.selected, 0);
    assert_eq!(screen.ports_list.len(), 2);
    assert_eq!(screen.selected_port(), Some(&String::from("/dev/ttyACM0")));
}

#[test]
fn port_picker_picks_within_the_list_only() {
    let mut screen = PortPickerScreen::new(vec![String::from("a"), String::from("b")]);
    assert!(screen.select(1));
    assert_eq!(screen.selected_port(), Some(&String::from("b")));
    assert!(!screen.select(2));
    assert_eq!(screen.selected, 1);
}

#[test]
fn port_picker_without_ports_has_nothing_picked() {
    let mut screen = PortPickerScreen::new(Vec::new());
    assert_eq!(screen.selected_port(), None);
    assert!(!screen.select(0));
}

#[test]
fn tile_is_idle_until_a_mode_is_set() {
    assert_eq!(tile_color(PinMode::Unset, PinStatus::DigitalInputting(true)), TileColor::Idle);
    assert_eq!(tile_color(PinMode::Unset, PinStatus::NoStatus), TileColor::Idle);
}

#[test]
fn tile_shows_the_digital_level() {
    assert_eq!(tile_color(PinMode::Input, PinStatus::DigitalInputting(true)), TileColor::High);
    assert_eq!(tile_color(PinMode::Input, PinStatus::DigitalInputting(false)), TileColor::Low);
    assert_eq!(tile_color(PinMode::Output, PinStatus::DigitalOutputting(true)), TileColor::High);
    assert_eq!(tile_color(PinMode::Output, PinStatus::DigitalOutputting(false)), TileColor::Low);
    assert_eq!(tile_color(PinMode::Output, PinStatus::NoStatus), TileColor::Low);
    assert_eq!(tile_color(PinMode::Input, PinStatus::DigitalPullupInputting(true)), TileColor::Low);
    assert_eq!(tile_color(PinMode::Input, PinStatus::AnalogInputting(900)), TileColor::Low);
}

#[test]
fn modes_have_labels() {
    assert_eq!(mode_label(PinMode::Input), "INPUT");
    assert_eq!(mode_label(PinMode::Output), "OUTPUT");
    assert_eq!(mode_label(PinMode::Unset), "OFF");
}

#[test]
fn click_on_the_mode_label_turns_inputs_into_outputs() {
    let input = screen_pin(4, PinMode::Input, PinStatus::NoStatus);
    let output = screen_pin(5, PinMode::Output, PinStatus::NoStatus);
    let unset = screen_pin(6, PinMode::Unset, PinStatus::NoStatus);
    assert_eq!(click_intent(&input, true), Some(Intent::SetOutput(4)));
    assert_eq!(click_intent(&output, true), Some(Intent::SetInput(5)));
    assert_eq!(click_intent(&unset, true), Some(Intent::SetInput(6)));
}

#[test]
fn click_on_an_output_toggles_its_level() {
    let high = screen_pin(4, PinMode::Output, PinStatus::DigitalOutputting(true));
    let low = screen_pin(4, PinMode::Output, PinStatus::DigitalOutputting(false));
    let fresh = screen_pin(4, PinMode::Output, PinStatus::NoStatus);
    let read = screen_pin(4, PinMode::Output, PinStatus::DigitalInputting(true));
    assert_eq!(click_intent(&high, false), Some(Intent::DigitalWrite(4, false)));
    assert_eq!(click_intent(&low, false), Some(Intent::DigitalWrite(4, true)));
    assert_eq!(click_intent(&fresh, false), Some(Intent::DigitalWrite(4, true)));
    assert_eq!(click_intent(&read, false), Some(Intent::DigitalWrite(4, true)));
}

#[test]
fn click_on_a_pin_that_is_no_output_asks_for_nothing() {
    let input = screen_pin(4, PinMode::Input, PinStatus::DigitalInputting(true));
    let unset = screen_pin(4, PinMode::Unset, PinStatus::NoStatus);
    assert_eq!(click_intent(&input, false), None);
    assert_eq!(click_intent(&unset, false), None);
}

#[test]
fn main_screen_subscribes_at_the_start() {
    assert_eq!(SUBSCRIBE_INTERVAL, 100);
    let mut screen = MainScreen::new(two_pin_board()).ok().unwrap();
    assert_eq!(taken(&mut screen), vec![Command::Subscribe(100)]);
}

#[test]
fn main_screen_needs_room_to_subscribe() {
    let mut board = two_pin_board();
    for interval in 0u16..32 {
        board.subscribe(interval).unwrap();
    }
    assert_eq!(MainScreen::new(board).err(), Some(CircuitDojoError::QueueFull));
}

#[test]
fn clicks_become_intents_on_the_board() {
    let mut screen = MainScreen::new(two_pin_board()).ok().unwrap();
    assert_eq!(screen.draw(), Ok(()));
    assert_eq!(screen.click(1, true), Ok(()));
    assert_eq!(screen.board.pins()[1].mode, PinMode::Input);
    assert_eq!(screen.click(1, false), Ok(()));
    assert_eq!(screen.click(1, true), Ok(()));
    assert_eq!(screen.board.pins()[1].mode, PinMode::Output);
    assert_eq!(screen.click(1, false), Ok(()));
    assert_eq!(screen.board.pins()[1].status, PinStatus::DigitalOutputting(true));
    assert_eq!(screen.click(1, false), Ok(()));
    assert_eq!(screen.board.pins()[1].status, PinStatus::DigitalOutputting(false));
    assert_eq!(screen.click(2, true), Ok(()));
    assert_eq!(screen.board.pins()[0].mode, PinMode::Unset);
    assert_eq!(
        taken(&mut screen),
        vec![
            Command::Subscribe(100),
            Command::SetPinModeInput(2),
            Command::SetPinModeOutput(2),
            Command::SetDigitalPinValue(2, true),
            Command::SetDigitalPinValue(2, false),
        ]
    );
}

#[test]
fn draw_brings_the_pins_up_to_date() {
    let mut screen = MainScreen::new(two_pin_board()).ok().unwrap();
    let mut connection = Connection::new();
    screen.board.worker(&mut connection, ReadOutcome::Byte(0x41)).unwrap();
    screen.board.worker(&mut connection, ReadOutcome::Byte(0x49)).unwrap();
    assert_eq!(screen.draw(), Err(CircuitDojoError::UnknownPin(9)));
    assert_eq!(screen.board.pins()[0].status, PinStatus::DigitalInputting(true));
}
