//! The incoming half of the wire codec: a decoder that takes one byte at a
//! time and hands out a frame whenever one is complete.
use vstd::prelude::*;
use vstd::utf8::{
    char_is_scalar, char_u32_cast, decode_utf8, encode_scalar, encode_utf8, encode_utf8_decode_utf8,
    encode_utf8_valid_utf8, has_width_1_encoding, is_scalar, valid_utf8,
};
use crate::codec::{
    command_bytes, high_byte, level_byte, low_byte, word_of, Command, Event, EventView,
};
use crate::connection::Connection;
use crate::error::CircuitDojoError;
use crate::opcodes::{
    ACK, BOARD_DESCRIPTION, CONTROL_BIT, ERROR, ID_MASK, LEVEL_BIT, PIN_DESCRIPTION,
    SAMPLING_BOUNDS,
};

verus! {

/// One complete unit of what the device sends.
#[derive(Debug, Clone, PartialEq, Eq)]
pub enum Frame {
    /// The oldest outstanding command was accepted.
    Ack,
    /// The oldest outstanding command was rejected.
    Error,
    /// The device reports something.
    Report(Event),
}

/// A frame with its names as sequences of characters.
pub enum FrameView {
    Ack,
    Error,
    Report(EventView),
}

impl View for Frame {
    type V = FrameView;

    open spec fn view(&self) -> FrameView {
        match *self {
            Frame::Ack => FrameView::Ack,
            Frame::Error => FrameView::Error,
            Frame::Report(event) => FrameView::Report(event@),
        }
    }
}

/// What the bytes received since the last frame amount to.
pub enum Parsed {
    /// The frame is not complete yet.
    Incomplete,
    /// The bytes are this frame.
    Complete(FrameView),
    /// The bytes are no frame. The byte given is the one to report.
    Invalid(u8),
}

/// The hardware id in a broadcast byte or a pin descriptor.
pub open spec fn pin_of(byte: u8) -> u8 {
    byte & ID_MASK
}

/// The level in a broadcast byte, or the pull-up capability in a pin
/// descriptor.
pub open spec fn level_of(byte: u8) -> bool {
    byte & LEVEL_BIT != 0
}

/// Whether a byte is a control byte, or a pin descriptor that of an analog
/// pin.
pub open spec fn flagged(byte: u8) -> bool {
    byte & CONTROL_BIT != 0
}

/// The first byte with its top bit set, or 0 where there is none.
pub open spec fn first_high_byte(bytes: Seq<u8>) -> u8
    decreases bytes.len(),
{
    if bytes.len() == 0 {
        0
    } else if bytes[0] >= 0x80 {
        bytes[0]
    } else {
        first_high_byte(bytes.skip(1))
    }
}

/// The name that the bytes before a terminator spell: they are read as
/// UTF-8. Where they are not UTF-8, the byte to report is the first one with
/// its top bit set.
pub open spec fn parse_name(raw: Seq<u8>) -> Result<Seq<char>, u8> {
    if valid_utf8(raw) {
        Ok(decode_utf8(raw))
    } else {
        Err(first_high_byte(raw))
    }
}

/// Bytes with their top bits clear are UTF-8.
proof fn lemma_plain_bytes_are_utf8(bytes: Seq<u8>)
    requires
        forall|i: int| 0 <= i < bytes.len() ==> bytes[i] < 0x80,
    ensures
        valid_utf8(bytes),
    decreases bytes.len(),
{
    if bytes.len() > 0 {
        let first = bytes[0];
        assert(((first & 0x7F) as u32) < 0x80) by (bit_vector);
        let rest = bytes.subrange(1, bytes.len() as int);
        assert forall|i: int| 0 <= i < rest.len() implies rest[i] < 0x80 by {
            assert(rest[i] == bytes[i + 1]);
        }
        lemma_plain_bytes_are_utf8(rest);
    }
}

/// Where no byte has its top bit set, `first_high_byte` is 0; else it is
/// one of the bytes, with its top bit set.
proof fn lemma_first_high_byte(bytes: Seq<u8>)
    ensures
        first_high_byte(bytes) >= 0x80 || (first_high_byte(bytes) == 0 && forall|i: int|
            0 <= i < bytes.len() ==> bytes[i] < 0x80),
        first_high_byte(bytes) >= 0x80 ==> bytes.contains(first_high_byte(bytes)),
    decreases bytes.len(),
{
    if bytes.len() > 0 && bytes[0] < 0x80 {
        let rest = bytes.skip(1);
        lemma_first_high_byte(rest);
        if first_high_byte(rest) >= 0x80 {
            let at = choose|i: int| 0 <= i < rest.len() && rest[i] == first_high_byte(rest);
            assert(bytes[at + 1] == first_high_byte(bytes));
        } else {
            assert forall|i: int| 0 <= i < bytes.len() implies bytes[i] < 0x80 by {
                if i > 0 {
                    assert(rest[i - 1] == bytes[i]);
                }
            }
        }
    } else if bytes.len() > 0 {
        assert(bytes[0] == first_high_byte(bytes));
    }
}

/// The byte that is reported for a name that is not UTF-8 is one of its
/// bytes, and has its top bit set.
pub proof fn reported_byte_is_in_the_name(raw: Seq<u8>)
    requires
        parse_name(raw) is Err,
    ensures
        parse_name(raw)->Err_0 >= 0x80,
        raw.contains(parse_name(raw)->Err_0),
{
    lemma_first_high_byte(raw);
    if first_high_byte(raw) < 0x80 {
        lemma_plain_bytes_are_utf8(raw);
    }
}

/// What the bytes received since the last frame amount to, where no shorter
/// run of them was a frame already.
pub open spec fn classify(bytes: Seq<u8>) -> Parsed {
    let n = bytes.len() as int;
    if n == 0 {
        Parsed::Incomplete
    } else if bytes[0] < 0x80 {
        Parsed::Complete(
            FrameView::Report(
                EventView::DigitalPinStateChange(pin_of(bytes[0]), level_of(bytes[0])),
            ),
        )
    } else if bytes[0] == ACK {
        Parsed::Complete(FrameView::Ack)
    } else if bytes[0] == ERROR {
        Parsed::Complete(FrameView::Error)
    } else if bytes[0] == SAMPLING_BOUNDS {
        if n < 3 {
            Parsed::Incomplete
        } else {
            Parsed::Complete(
                FrameView::Report(EventView::SamplingBounds(word_of(bytes[1], bytes[2]))),
            )
        }
    } else if bytes[0] == PIN_DESCRIPTION {
        if n < 3 || bytes[n - 1] != 0 {
            Parsed::Incomplete
        } else {
            match parse_name(bytes.subrange(2, n - 1)) {
                Ok(name) => Parsed::Complete(
                    FrameView::Report(
                        EventView::PinDescription(
                            pin_of(bytes[1]),
                            flagged(bytes[1]),
                            level_of(bytes[1]),
                            name,
                        ),
                    ),
                ),
                Err(byte) => Parsed::Invalid(byte),
            }
        }
    } else if bytes[0] == BOARD_DESCRIPTION {
        if n < 2 || bytes[n - 1] != 0 {
            Parsed::Incomplete
        } else {
            match parse_name(bytes.subrange(1, n - 1)) {
                Ok(name) => Parsed::Complete(FrameView::Report(EventView::BoardDescription(name))),
                Err(byte) => Parsed::Invalid(byte),
            }
        }
    } else {
        Parsed::Invalid(bytes[0])
    }
}

/// The pin descriptor of a pin: the hardware id in bits 0 to 5, the pull-up
/// capability in bit 6, bit 7 set for an analog pin.
pub open spec fn descriptor_byte(id: u8, analog: bool, pullup: bool) -> u8 {
    id | (if analog { CONTROL_BIT } else { 0u8 }) | (if pullup { LEVEL_BIT } else { 0u8 })
}

/// The bytes by which the device sends a frame. A rejected command and a
/// change of an analog pin are no frames of their own: they give no bytes.
pub open spec fn frame_bytes(frame: FrameView) -> Seq<u8> {
    match frame {
        FrameView::Ack => seq![ACK],
        FrameView::Error => seq![ERROR],
        FrameView::Report(EventView::DigitalPinStateChange(pin, level)) => seq![
            level_byte(pin, level),
        ],
        FrameView::Report(EventView::SamplingBounds(interval)) => seq![
            SAMPLING_BOUNDS,
            low_byte(interval),
            high_byte(interval),
        ],
        FrameView::Report(EventView::PinDescription(id, analog, pullup, name)) => seq![
            PIN_DESCRIPTION,
            descriptor_byte(id, analog, pullup),
        ] + encode_utf8(name) + seq![0u8],
        FrameView::Report(EventView::BoardDescription(name)) => seq![BOARD_DESCRIPTION]
            + encode_utf8(name) + seq![0u8],
        FrameView::Report(_) => Seq::empty(),
    }
}

/// Whether a name can stand before a terminator: it holds no NUL.
pub open spec fn terminable(name: Seq<char>) -> bool {
    forall|i: int| 0 <= i < name.len() ==> name[i] != '\0'
}

/// Whether the device can send a frame: its hardware id fits in six bits and
/// its name can stand before a terminator.
pub open spec fn sendable(frame: FrameView) -> bool {
    match frame {
        FrameView::Ack => true,
        FrameView::Error => true,
        FrameView::Report(EventView::DigitalPinStateChange(pin, _)) => pin < 64,
        FrameView::Report(EventView::SamplingBounds(_)) => true,
        FrameView::Report(EventView::PinDescription(id, _, _, name)) => id < 64 && terminable(name),
        FrameView::Report(EventView::BoardDescription(name)) => terminable(name),
        FrameView::Report(_) => false,
    }
}

/// The encoding of a scalar other than 0 holds no byte 0.
proof fn lemma_scalar_has_no_nul(scalar: u32)
    requires
        scalar != 0,
        is_scalar(scalar),
    ensures
        forall|i: int| 0 <= i < encode_scalar(scalar).len() ==> encode_scalar(scalar)[i] != 0,
{
    assert(has_width_1_encoding(scalar) ==> (scalar & 0x7F) as u8 != 0) by (bit_vector)
        requires
            scalar != 0,
    ;
    assert(0xC0u8 | ((scalar >> 6) & 0x1F) as u8 != 0) by (bit_vector);
    assert(0xE0u8 | ((scalar >> 12) & 0x0F) as u8 != 0) by (bit_vector);
    assert(0xF0u8 | ((scalar >> 18) & 0x7) as u8 != 0) by (bit_vector);
    assert(0x80u8 | (scalar & 0x3F) as u8 != 0) by (bit_vector);
    assert(0x80u8 | ((scalar >> 6) & 0x3F) as u8 != 0) by (bit_vector);
    assert(0x80u8 | ((scalar >> 12) & 0x3F) as u8 != 0) by (bit_vector);
}

/// The encoding of a name without NUL holds no byte 0.
pub proof fn lemma_name_has_no_nul(name: Seq<char>)
    requires
        terminable(name),
    ensures
        forall|i: int| 0 <= i < encode_utf8(name).len() ==> encode_utf8(name)[i] != 0,
    decreases name.len(),
{
    if name.len() > 0 {
        let first = name[0] as u32;
        let nul = '\0' as u32;
        assert(first != 0) by {
            char_u32_cast(name[0], first);
            char_u32_cast('\0', nul);
        }
        char_is_scalar(name[0]);
        lemma_scalar_has_no_nul(first);
        assert(terminable(name.drop_first())) by {
            assert forall|i: int| 0 <= i < name.drop_first().len() implies name.drop_first()[i]
                != '\0' by {
                assert(name.drop_first()[i] == name[i + 1]);
            }
        }
        lemma_name_has_no_nul(name.drop_first());
        let head = encode_scalar(first);
        let tail = encode_utf8(name.drop_first());
        assert(encode_utf8(name) == head + tail);
        assert forall|i: int| 0 <= i < encode_utf8(name).len() implies encode_utf8(name)[i]
            != 0 by {
            if i < head.len() {
                assert(encode_utf8(name)[i] == head[i]);
            } else {
                assert(encode_utf8(name)[i] == tail[i - head.len()]);
            }
        }
    }
}

/// The decoder reads back what the device sends: the bytes of a frame are
/// classified as that frame, and no shorter run of them as a frame or as an
/// error.
pub proof fn frame_round_trip(frame: FrameView)
    requires
        sendable(frame),
    ensures
        classify(frame_bytes(frame)) == Parsed::Complete(frame),
        forall|k: int|
            0 <= k < frame_bytes(frame).len() ==> classify(#[trigger] frame_bytes(frame).take(k))
                == Parsed::Incomplete,
{
    let bytes = frame_bytes(frame);
    match frame {
        FrameView::Ack => {},
        FrameView::Error => {},
        FrameView::Report(EventView::DigitalPinStateChange(pin, level)) => {
            let byte = level_byte(pin, level);
            assert(byte < 0x80 && byte & 0x3F == pin && (byte & 0x40 != 0) == level) by (bit_vector)
                requires
                    pin < 64,
                    byte == pin | if level { 0x40u8 } else { 0u8 },
            ;
        },
        FrameView::Report(EventView::SamplingBounds(interval)) => {
            assert(word_of(low_byte(interval), high_byte(interval)) == interval);
        },
        FrameView::Report(EventView::PinDescription(id, analog, pullup, name)) => {
            let descriptor = descriptor_byte(id, analog, pullup);
            assert(descriptor & 0x3F == id && (descriptor & 0x80 != 0) == analog && (descriptor
                & 0x40 != 0) == pullup) by (bit_vector)
                requires
                    id < 64,
                    descriptor == id | (if analog { 0x80u8 } else { 0u8 }) | (if pullup {
                        0x40u8
                    } else {
                        0u8
                    }),
            ;
            let text = encode_utf8(name);
            lemma_name_has_no_nul(name);
            encode_utf8_valid_utf8(name);
            encode_utf8_decode_utf8(name);
            assert(bytes.subrange(2, bytes.len() - 1) =~= text);
            assert forall|k: int| 0 <= k < bytes.len() implies classify(#[trigger] bytes.take(k))
                == Parsed::Incomplete by {
                if k >= 3 {
                    assert(bytes.take(k)[k - 1] == text[k - 3]);
                }
            }
        },
        FrameView::Report(EventView::BoardDescription(name)) => {
            let text = encode_utf8(name);
            lemma_name_has_no_nul(name);
            encode_utf8_valid_utf8(name);
            encode_utf8_decode_utf8(name);
            assert(bytes.subrange(1, bytes.len() - 1) =~= text);
            assert forall|k: int| 0 <= k < bytes.len() implies classify(#[trigger] bytes.take(k))
                == Parsed::Incomplete by {
                if k >= 2 {
                    assert(bytes.take(k)[k - 1] == text[k - 2]);
                }
            }
        },
        FrameView::Report(_) => {},
    }
}

/// A level that the host sends for a pin reads back, as a change that the
/// device reports, with the same pin and the same level.
pub proof fn digital_byte_round_trip(pin: u8, level: bool)
    requires
        pin < 64,
    ensures
        command_bytes(Command::SetDigitalPinValue(pin, level)).len() == 1,
        classify(command_bytes(Command::SetDigitalPinValue(pin, level))) == Parsed::Complete(
            FrameView::Report(EventView::DigitalPinStateChange(pin, level)),
        ),
{
    frame_round_trip(FrameView::Report(EventView::DigitalPinStateChange(pin, level)));
}

/// The error of `std::str::from_utf8`. Nothing is read from it.
#[verifier::external_type_specification]
#[verifier::external_body]
pub struct ExUtf8Error(core::str::Utf8Error);

/// `std::str::from_utf8`: the bytes as a string slice where they are UTF-8,
/// an error where they are not. The slice then spells the characters that
/// the bytes encode. What is UTF-8 and what it encodes is taken from vstd.
#[verifier::external_body]
pub(crate) fn utf8_text(bytes: &[u8]) -> (text: Result<&str, core::str::Utf8Error>)
    ensures
        text is Ok <==> valid_utf8(bytes@),
        text matches Ok(s) ==> s@ == decode_utf8(bytes@),
{
    core::str::from_utf8(bytes)
}

/// Finds the first byte with its top bit set.
pub(crate) fn find_high_byte(bytes: &Vec<u8>) -> (found: u8)
    ensures
        found == first_high_byte(bytes@),
{
    let mut i: usize = 0;
    assert(bytes@.skip(0) == bytes@);
    while i < bytes.len()
        invariant
            i <= bytes.len(),
            first_high_byte(bytes@) == first_high_byte(bytes@.skip(i as int)),
        decreases bytes.len() - i,
    {
        if bytes[i] >= 0x80 {
            return bytes[i];
        }
        assert(bytes@.skip(i as int).skip(1) == bytes@.skip(i as int + 1));
        i += 1;
    }
    0
}

/// Where the decoder stands within a frame.
#[derive(Debug, Clone, Copy, PartialEq, Eq, Structural)]
enum Phase {
    /// Between two frames.
    Idle,
    /// The low byte of the sampling bounds comes next.
    BoundsLow,
    /// The high byte of the sampling bounds comes next.
    BoundsHigh,
    /// The pin descriptor comes next.
    PinDescriptor,
    /// The name of a pin is being read.
    PinName,
    /// The name of the board is being read.
    BoardName,
}

/// The decoder. It keeps what it has read of a frame until the frame is
/// complete, across any number of calls and timeouts.
#[derive(Debug)]
pub struct Decoder {
    phase: Phase,
    held: u8,
    text: Vec<u8>,
}

impl View for Decoder {
    type V = Seq<u8>;

    /// The bytes received since the last frame.
    closed spec fn view(&self) -> Seq<u8> {
        match self.phase {
            Phase::Idle => Seq::<u8>::empty(),
            Phase::BoundsLow => seq![SAMPLING_BOUNDS],
            Phase::BoundsHigh => seq![SAMPLING_BOUNDS, self.held],
            Phase::PinDescriptor => seq![PIN_DESCRIPTION],
            Phase::PinName => seq![PIN_DESCRIPTION, self.held] + self.text@,
            Phase::BoardName => seq![BOARD_DESCRIPTION] + self.text@,
        }
    }
}

impl Decoder {
    /// A decoder that stands between two frames.
    pub fn new() -> (decoder: Decoder)
        ensures
            decoder@ == Seq::<u8>::empty(),
    {
        Decoder { phase: Phase::Idle, held: 0, text: Vec::new() }
    }

    /// Whether the decoder stands between two frames.
    pub fn is_idle(&self) -> (idle: bool)
        ensures
            idle == (self@.len() == 0),
    {
        match self.phase {
            Phase::Idle => true,
            _ => false,
        }
    }

    /// Takes the next byte from the device. Returns the frame that this byte
    /// completes, if it completes one; the decoder then stands between two
    /// frames again, as it does after a byte that the protocol does not
    /// allow.
    pub fn feed(&mut self, byte: u8) -> (fed: Result<Option<Frame>, CircuitDojoError>)
        ensures
            match classify(old(self)@.push(byte)) {
                Parsed::Incomplete => fed matches Ok(None) && final(self)@ == old(self)@.push(byte),
                Parsed::Complete(frame) => fed matches Ok(Some(given)) && given@ == frame
                    && final(self)@ == Seq::<u8>::empty(),
                Parsed::Invalid(bad) => fed == Err::<Option<Frame>, CircuitDojoError>(
                    CircuitDojoError::SynchronizationError(bad),
                ) && final(self)@ == Seq::<u8>::empty(),
            },
    {
        let ghost before = self@;
        let ghost bytes = before.push(byte);
        match self.phase {
            Phase::Idle => {
                assert(bytes =~= seq![byte]);
                if byte < 0x80 {
                    Ok(Some(Frame::Report(Event::DigitalPinStateChange(byte & ID_MASK, byte & LEVEL_BIT != 0))))
                } else if byte == ACK {
                    Ok(Some(Frame::Ack))
                } else if byte == ERROR {
                    Ok(Some(Frame::Error))
                } else if byte == SAMPLING_BOUNDS {
                    self.phase = Phase::BoundsLow;
                    Ok(None)
                } else if byte == PIN_DESCRIPTION {
                    self.phase = Phase::PinDescriptor;
                    Ok(None)
                } else if byte == BOARD_DESCRIPTION {
                    self.text = Vec::new();
                    self.phase = Phase::BoardName;
                    assert(self@ =~= bytes);
                    Ok(None)
                } else {
                    Err(CircuitDojoError::SynchronizationError(byte))
                }
            },
            Phase::BoundsLow => {
                self.held = byte;
                self.phase = Phase::BoundsHigh;
                assert(self@ =~= bytes);
                Ok(None)
            },
            Phase::BoundsHigh => {
                let interval = crate::codec::join_word(self.held, byte);
                self.phase = Phase::Idle;
                Ok(Some(Frame::Report(Event::SamplingBounds(interval))))
            },
            Phase::PinDescriptor => {
                self.held = byte;
                self.text = Vec::new();
                self.phase = Phase::PinName;
                assert(self@ =~= bytes);
                Ok(None)
            },
            Phase::PinName => {
                if byte != 0 {
                    self.text.push(byte);
                    assert(self@ =~= bytes);
                    Ok(None)
                } else {
                    assert(bytes.subrange(2, bytes.len() - 1) =~= self.text@);
                    let name = Connection::block_read_nullt_string(&self.text);
                    let descriptor = self.held;
                    self.phase = Phase::Idle;
                    match name {
                        Ok(text) => Ok(
                            Some(
                                Frame::Report(
                                    Event::PinDescription(
                                        descriptor & ID_MASK,
                                        descriptor & CONTROL_BIT != 0,
                                        descriptor & LEVEL_BIT != 0,
                                        text,
                                    ),
                                ),
                            ),
                        ),
                        Err(error) => Err(error),
                    }
                }
            },
            Phase::BoardName => {
                if byte != 0 {
                    self.text.push(byte);
                    assert(self@ =~= bytes);
                    Ok(None)
                } else {
                    assert(bytes.subrange(1, bytes.len() - 1) =~= self.text@);
                    let name = Connection::block_read_nullt_string(&self.text);
                    self.phase = Phase::Idle;
                    match name {
                        Ok(text) => Ok(Some(Frame::Report(Event::BoardDescription(text)))),
                        Err(error) => Err(error),
                    }
                }
            },
        }
    }
}

} // verus!
