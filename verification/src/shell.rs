//! What the text front end decides: what a line that the user typed asks
//! for, and how a pin is put into words.
use vstd::prelude::*;
use vstd::utf8::encode_utf8;
use crate::board::{PinStatus, PinType};

verus! {

/// What a line asks for.
#[derive(Debug, Clone, Copy, PartialEq, Eq, Structural)]
pub enum ShellCommand {
    /// `pins`: list the pins.
    Pins,
    /// `setoutput` and a hardware id: make the pin an output.
    SetOutput(u8),
    /// `setinput` and a hardware id: make the pin an input.
    SetInput(u8),
    /// `digitalwrite`, a hardware id and `HIGH` or `LOW`: drive the pin.
    DigitalWrite(u8, bool),
    /// The line starts with a known word, but what follows is missing or
    /// cannot be read.
    Malformed,
    /// The line starts with no known word.
    Unknown,
}

/// The byte that parts the words of a line.
pub const SPACE: u8 = 0x20;

/// Where the word that starts at `from` ends: at the next space, or at the
/// end of the line.
pub open spec fn word_end(line: Seq<u8>, from: int) -> int
    decreases line.len() - from,
{
    if from < 0 || from >= line.len() {
        line.len() as int
    } else if line[from] == SPACE {
        from
    } else {
        word_end(line, from + 1)
    }
}

/// Where the word with the given number starts, counted from 0. Words are
/// parted by single spaces, so that two spaces in a row hold an empty word;
/// `None` where the line has fewer words.
pub open spec fn word_start(line: Seq<u8>, number: nat) -> Option<int>
    decreases number,
{
    if number == 0 {
        Some(0)
    } else {
        match word_start(line, (number - 1) as nat) {
            None => None,
            Some(start) => if word_end(line, start) >= line.len() {
                None
            } else {
                Some(word_end(line, start) + 1)
            },
        }
    }
}

/// The word with the given number, `None` where the line has fewer words.
pub open spec fn word(line: Seq<u8>, number: nat) -> Option<Seq<u8>> {
    match word_start(line, number) {
        None => None,
        Some(start) => Some(line.subrange(start, word_end(line, start))),
    }
}

/// The value of a run of decimal digits.
pub open spec fn digits_value(digits: Seq<u8>) -> nat
    decreases digits.len(),
{
    if digits.len() == 0 {
        0
    } else {
        (digits_value(digits.drop_last()) * 10 + (digits.last() - 0x30)) as nat
    }
}

/// Whether every byte is a decimal digit.
pub open spec fn all_digits(digits: Seq<u8>) -> bool {
    forall|i: int| 0 <= i < digits.len() ==> 0x30 <= #[trigger] digits[i] <= 0x39
}

/// The hardware id that a run of digits spells: there is at least one digit,
/// and the value is 255 at most.
pub open spec fn digits_number(digits: Seq<u8>) -> Option<u8> {
    if digits.len() > 0 && all_digits(digits) && digits_value(digits) <= 255 {
        Some(digits_value(digits) as u8)
    } else {
        None
    }
}

/// The hardware id that a word spells: decimal digits, with a plus sign
/// before them or without.
pub open spec fn number_of(text: Seq<u8>) -> Option<u8> {
    if text.len() > 0 && text[0] == 0x2B {
        digits_number(text.skip(1))
    } else {
        digits_number(text)
    }
}

/// The bytes of a word of the shell.
pub open spec fn spelled(text: &str) -> Seq<u8> {
    encode_utf8(text@)
}

/// The level that a word spells.
pub open spec fn level_of_word(text: Seq<u8>) -> Option<bool> {
    if text == spelled("HIGH") {
        Some(true)
    } else if text == spelled("LOW") {
        Some(false)
    } else {
        None
    }
}

/// The hardware id that the second word of a line spells.
pub open spec fn pin_argument(line: Seq<u8>) -> Option<u8> {
    match word(line, 1) {
        None => None,
        Some(text) => number_of(text),
    }
}

/// The level that the third word of a line spells.
pub open spec fn level_argument(line: Seq<u8>) -> Option<bool> {
    match word(line, 2) {
        None => None,
        Some(text) => level_of_word(text),
    }
}

/// What a line asks for. The first word names the request; a hardware id
/// follows where the request needs one, and a level after that where it
/// needs one. More words than the request needs are not looked at.
pub open spec fn interpret(line: Seq<u8>) -> ShellCommand {
    let name = line.subrange(0, word_end(line, 0));
    if name == spelled("pins") {
        ShellCommand::Pins
    } else if name == spelled("setoutput") {
        match pin_argument(line) {
            Some(pin) => ShellCommand::SetOutput(pin),
            None => ShellCommand::Malformed,
        }
    } else if name == spelled("setinput") {
        match pin_argument(line) {
            Some(pin) => ShellCommand::SetInput(pin),
            None => ShellCommand::Malformed,
        }
    } else if name == spelled("digitalwrite") {
        match (pin_argument(line), level_argument(line)) {
            (Some(pin), Some(level)) => ShellCommand::DigitalWrite(pin, level),
            _ => ShellCommand::Malformed,
        }
    } else {
        ShellCommand::Unknown
    }
}

/// Finds where the word that starts at `from` ends.
fn find_word_end(line: &[u8], from: usize) -> (end: usize)
    requires
        from <= line@.len(),
    ensures
        end == word_end(line@, from as int),
        from <= end <= line@.len(),
{
    let mut end: usize = from;
    while end < line.len() && line[end] != SPACE
        invariant
            from <= end <= line@.len(),
            word_end(line@, from as int) == word_end(line@, end as int),
        decreases line@.len() - end,
    {
        end += 1;
    }
    end
}

/// Whether the bytes from `from` to `to` are the given word.
fn is_word(line: &[u8], from: usize, to: usize, text: &str) -> (same: bool)
    requires
        from <= to <= line@.len(),
    ensures
        same == (line@.subrange(from as int, to as int) == spelled(text)),
{
    let bytes = text.as_bytes();
    if bytes.len() != to - from {
        return false;
    }
    let mut i: usize = 0;
    while i < bytes.len()
        invariant
            from <= to <= line@.len(),
            bytes@ == spelled(text),
            bytes@.len() == to - from,
            i <= bytes@.len(),
            forall|j: int| 0 <= j < i ==> line@[from + j] == bytes@[j],
        decreases bytes@.len() - i,
    {
        if line[from + i] != bytes[i] {
            assert(line@.subrange(from as int, to as int)[i as int] != bytes@[i as int]);
            return false;
        }
        i += 1;
    }
    assert(line@.subrange(from as int, to as int) =~= bytes@);
    true
}

/// The value of a run of digits does not shrink when digits are added.
proof fn lemma_digits_grow(digits: Seq<u8>, upto: int)
    requires
        all_digits(digits),
        0 <= upto <= digits.len(),
    ensures
        digits_value(digits.take(upto)) <= digits_value(digits),
    decreases digits.len() - upto,
{
    if upto < digits.len() {
        assert(digits.take(upto + 1).drop_last() == digits.take(upto));
        assert(digits.take(upto + 1).last() == digits[upto]);
        lemma_digits_grow(digits, upto + 1);
    } else {
        assert(digits.take(upto) == digits);
    }
}

/// Reads the bytes from `from` to `to` as a hardware id.
fn read_number(line: &[u8], from: usize, to: usize) -> (number: Option<u8>)
    requires
        from <= to <= line@.len(),
    ensures
        number == number_of(line@.subrange(from as int, to as int)),
{
    let ghost text = line@.subrange(from as int, to as int);
    let start: usize = if from < to && line[from] == 0x2B {
        from + 1
    } else {
        from
    };
    let ghost digits = line@.subrange(start as int, to as int);
    assert(digits == if text.len() > 0 && text[0] == 0x2B {
        text.skip(1)
    } else {
        text
    });
    assert(number_of(text) == digits_number(digits));
    if start == to {
        return None;
    }
    let mut value: u16 = 0;
    let mut i: usize = start;
    while i < to
        invariant
            start <= i <= to <= line@.len(),
            digits == line@.subrange(start as int, to as int),
            number_of(line@.subrange(from as int, to as int)) == digits_number(digits),
            all_digits(digits.take(i - start)),
            value == digits_value(digits.take(i - start)),
            value <= 255,
        decreases to - i,
    {
        let byte = line[i];
        if byte < 0x30 || byte > 0x39 {
            assert(digits[i - start] == byte);
            return None;
        }
        let ghost sofar = digits.take(i + 1 - start);
        assert(sofar.drop_last() == digits.take(i - start));
        assert(sofar.last() == byte);
        assert(all_digits(sofar)) by {
            assert forall|j: int| 0 <= j < sofar.len() implies 0x30 <= #[trigger] sofar[j]
                <= 0x39 by {
                if j < sofar.len() - 1 {
                    assert(sofar[j] == digits.take(i - start)[j]);
                }
            }
        }
        let next: u16 = value * 10 + (byte - 0x30) as u16;
        if next > 255 {
            proof {
                if all_digits(digits) {
                    lemma_digits_grow(digits, i + 1 - start);
                }
            }
            return None;
        }
        value = next;
        i += 1;
    }
    assert(digits.take(to - start) == digits);
    Some(value as u8)
}

/// Reads the hardware id and the level that follow the first word.
fn read_arguments(line: &[u8], name_end: usize) -> (arguments: (Option<u8>, Option<bool>))
    requires
        name_end == word_end(line@, 0),
    ensures
        arguments.0 == pin_argument(line@),
        arguments.1 == level_argument(line@),
{
    proof {
        reveal_with_fuel(word_start, 3);
    }
    if name_end >= line.len() {
        return (None, None);
    }
    let pin_end = find_word_end(line, name_end + 1);
    let pin = read_number(line, name_end + 1, pin_end);
    if pin_end >= line.len() {
        return (pin, None);
    }
    let level_end = find_word_end(line, pin_end + 1);
    let level = if is_word(line, pin_end + 1, level_end, "HIGH") {
        Some(true)
    } else if is_word(line, pin_end + 1, level_end, "LOW") {
        Some(false)
    } else {
        None
    };
    (pin, level)
}

/// Says what a line asks for.
pub fn parse_line(line: &[u8]) -> (command: ShellCommand)
    ensures
        command == interpret(line@),
{
    let name_end = find_word_end(line, 0);
    let (pin, level) = read_arguments(line, name_end);
    if is_word(line, 0, name_end, "pins") {
        ShellCommand::Pins
    } else if is_word(line, 0, name_end, "setoutput") {
        match pin {
            Some(id) => ShellCommand::SetOutput(id),
            None => ShellCommand::Malformed,
        }
    } else if is_word(line, 0, name_end, "setinput") {
        match pin {
            Some(id) => ShellCommand::SetInput(id),
            None => ShellCommand::Malformed,
        }
    } else if is_word(line, 0, name_end, "digitalwrite") {
        match (pin, level) {
            (Some(id), Some(value)) => ShellCommand::DigitalWrite(id, value),
            _ => ShellCommand::Malformed,
        }
    } else {
        ShellCommand::Unknown
    }
}

/// The words for what a pin can do.
pub open spec fn type_text(tp: PinType) -> Seq<char> {
    match tp {
        PinType::DigitalPullup => "DP WP"@,
        PinType::Digital => "DP"@,
        PinType::Analog => "AP"@,
    }
}

/// The words for what a pin can do.
pub fn type_label(tp: PinType) -> (label: &'static str)
    ensures
        label@ == type_text(tp),
{
    match tp {
        PinType::DigitalPullup => "DP WP",
        PinType::Digital => "DP",
        PinType::Analog => "AP",
    }
}

/// The words for the state of a pin. Only a digital level is put into
/// words; any other state is left blank.
pub open spec fn status_text(status: PinStatus) -> Seq<char> {
    match status {
        PinStatus::DigitalInputting(true) => "Inputting HIGH"@,
        PinStatus::DigitalInputting(false) => "Inputting LOW"@,
        PinStatus::DigitalOutputting(true) => "Outputting HIGH"@,
        PinStatus::DigitalOutputting(false) => "Outputting LOW"@,
        _ => ""@,
    }
}

/// The words for the state of a pin.
pub fn status_label(status: PinStatus) -> (label: &'static str)
    ensures
        label@ == status_text(status),
{
    match status {
        PinStatus::DigitalInputting(true) => "Inputting HIGH",
        PinStatus::DigitalInputting(false) => "Inputting LOW",
        PinStatus::DigitalOutputting(true) => "Outputting HIGH",
        PinStatus::DigitalOutputting(false) => "Outputting LOW",
        _ => "",
    }
}

} // verus!
