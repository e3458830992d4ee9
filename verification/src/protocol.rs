//! The input protocol that the clients send to the host agent over WebRTC data
//! channels (and WebTransport datagrams): its packet types and the decoder.
//! Multi-byte fields are big-endian.

use crate::text::{
    chars_of, contains_chars, contains_seq, digit_run, digits_to_u32, digits_u32, find_chars,
    find_from, scan_digits, skip_whitespace, str_from_utf8, whitespace_run,
};
use vstd::prelude::*;
use vstd::utf8::{decode_utf8, valid_utf8};

verus! {

#[derive(Debug, Clone, Copy, PartialEq, Eq, Structural)]
pub enum MouseButtonAction {
    Press,
    Release,
}

/// A mouse button; on the wire Left is 1, Middle 2, Right 3, X1 4, X2 5.
#[derive(Debug, Clone, Copy, PartialEq, Eq, Structural)]
pub enum MouseButton {
    Left,
    Middle,
    Right,
    X1,
    X2,
}

pub open spec fn spec_mouse_button_from_u8(v: u8) -> Option<MouseButton> {
    if v == 1 {
        Some(MouseButton::Left)
    } else if v == 2 {
        Some(MouseButton::Middle)
    } else if v == 3 {
        Some(MouseButton::Right)
    } else if v == 4 {
        Some(MouseButton::X1)
    } else if v == 5 {
        Some(MouseButton::X2)
    } else {
        None
    }
}

pub open spec fn spec_mouse_button_code(b: MouseButton) -> u8 {
    match b {
        MouseButton::Left => 1,
        MouseButton::Middle => 2,
        MouseButton::Right => 3,
        MouseButton::X1 => 4,
        MouseButton::X2 => 5,
    }
}

impl MouseButton {
    /// The button with wire code `v`.
    pub fn from_u8(v: u8) -> (res: Option<MouseButton>)
        ensures
            res == spec_mouse_button_from_u8(v),
    {
        if v == 1 {
            Some(MouseButton::Left)
        } else if v == 2 {
            Some(MouseButton::Middle)
        } else if v == 3 {
            Some(MouseButton::Right)
        } else if v == 4 {
            Some(MouseButton::X1)
        } else if v == 5 {
            Some(MouseButton::X2)
        } else {
            None
        }
    }

    /// The button's wire code.
    pub fn code(&self) -> (res: u8)
        ensures
            res == spec_mouse_button_code(*self),
    {
        match self {
            MouseButton::Left => 1,
            MouseButton::Middle => 2,
            MouseButton::Right => 3,
            MouseButton::X1 => 4,
            MouseButton::X2 => 5,
        }
    }
}

#[derive(Debug, Clone, Copy, PartialEq, Eq, Structural)]
pub enum KeyAction {
    Down,
    Up,
}

/// Modifier flags of a key event: SHIFT 0x01, CTRL 0x02, ALT 0x04, META 0x08.
#[derive(Debug, Clone, Copy, PartialEq, Eq, Structural)]
pub struct KeyModifiers {
    pub bits: i8,
}

pub open spec fn key_modifiers_valid(bits: i8) -> bool {
    0 <= bits <= 0x0F
}

impl KeyModifiers {
    pub open spec fn spec_bits(&self) -> i8 {
        self.bits
    }

    /// The flags with these bits; `None` when a bit outside the four known
    /// flags is set.
    pub fn from_bits(bits: i8) -> (res: Option<KeyModifiers>)
        ensures
            res is Some == key_modifiers_valid(bits),
            res matches Some(m) ==> m.spec_bits() == bits,
    {
        if 0 <= bits && bits <= 0x0F {
            Some(KeyModifiers { bits })
        } else {
            None
        }
    }

    pub fn empty() -> (res: KeyModifiers)
        ensures
            res.spec_bits() == 0,
    {
        KeyModifiers { bits: 0 }
    }

    pub fn bits(&self) -> (res: i8)
        ensures
            res == self.spec_bits(),
    {
        self.bits
    }
}

/// Key flags; no flag is defined.
#[derive(Debug, Clone, Copy, PartialEq, Eq, Structural)]
pub struct KeyFlags {
    pub bits: i8,
}

impl KeyFlags {
    pub open spec fn spec_bits(&self) -> i8 {
        self.bits
    }

    pub fn empty() -> (res: KeyFlags)
        ensures
            res.spec_bits() == 0,
    {
        KeyFlags { bits: 0 }
    }

    pub fn bits(&self) -> (res: i8)
        ensures
            res == self.spec_bits(),
    {
        self.bits
    }
}

#[derive(Debug, Clone, Copy, PartialEq, Eq, Structural)]
pub enum TouchEventType {
    Down,
    Move,
    Cancel,
}

/// A game controller family; on the wire Unknown is 0, Xbox 1, PlayStation 2,
/// Nintendo 3.
#[derive(Debug, Clone, Copy, PartialEq, Eq, Structural)]
pub enum ControllerType {
    Unknown,
    Xbox,
    PlayStation,
    Nintendo,
}

impl ControllerType {
    pub fn from_u8(v: u8) -> (res: Option<ControllerType>)
        ensures
            v == 0 ==> res == Some(ControllerType::Unknown),
            v == 1 ==> res == Some(ControllerType::Xbox),
            v == 2 ==> res == Some(ControllerType::PlayStation),
            v == 3 ==> res == Some(ControllerType::Nintendo),
            v > 3 ==> res is None,
    {
        if v == 0 {
            Some(ControllerType::Unknown)
        } else if v == 1 {
            Some(ControllerType::Xbox)
        } else if v == 2 {
            Some(ControllerType::PlayStation)
        } else if v == 3 {
            Some(ControllerType::Nintendo)
        } else {
            None
        }
    }
}

/// Controller buttons, one bit each (A 0x0001 up to SPECIAL 0x4000).
#[derive(Debug, Clone, Copy, PartialEq, Eq, Structural)]
pub struct ControllerButtons {
    pub bits: u32,
}

/// Controller capabilities, one bit each (ANALOG_TRIGGERS 0x01 up to RGB_LED 0x80).
#[derive(Debug, Clone, Copy, PartialEq, Eq, Structural)]
pub struct ControllerCapabilities {
    pub bits: u32,
}

/// The numbers of the transport channels.
pub struct TransportChannelId;

impl TransportChannelId {
    pub const GENERAL: u8 = 0;
    pub const STATS: u8 = 1;
    pub const HOST_VIDEO: u8 = 2;
    pub const HOST_AUDIO: u8 = 3;
    pub const MOUSE_RELIABLE: u8 = 4;
    pub const MOUSE_ABSOLUTE: u8 = 5;
    pub const MOUSE_RELATIVE: u8 = 6;
    pub const KEYBOARD: u8 = 7;
    pub const TOUCH: u8 = 8;
    pub const CONTROLLERS: u8 = 9;
    pub const CONTROLLER0: u8 = 10;
    pub const CONTROLLER15: u8 = 25;
    pub const RTT: u8 = 26;
    pub const MOUSE_RAW: u8 = 27;
}

/// The channel a packet arrived on.
#[derive(Debug, Clone, Copy, PartialEq, Eq, Structural)]
pub struct TransportChannel(pub u8);

/// A decoded input packet. The touch coordinates, pressure and contact
/// areas are IEEE-754 single-precision values, held here as their bits.
#[derive(Debug, Clone, PartialEq)]
#[allow(inconsistent_fields)]
pub enum InboundPacket {
    GeneralStop,
    MouseMove { delta_x: i16, delta_y: i16, timestamp: u32 },
    MousePosition {
        x: i16,
        y: i16,
        reference_width: i16,
        reference_height: i16,
        timestamp: u32,
    },
    MouseButton { action: MouseButtonAction, button: MouseButton },
    HighResScroll { delta_x: i16, delta_y: i16 },
    Scroll { delta_x: i8, delta_y: i8 },
    Key { action: KeyAction, modifiers: KeyModifiers, key: u16, flags: KeyFlags },
    Text { text: String },
    Touch {
        pointer_id: u32,
        x_bits: u32,
        y_bits: u32,
        pressure_or_distance_bits: u32,
        contact_area_major_bits: u32,
        contact_area_minor_bits: u32,
        rotation: Option<u16>,
        event_type: TouchEventType,
    },
    ControllerConnected {
        id: u8,
        ty: ControllerType,
        supported_buttons: ControllerButtons,
        capabilities: ControllerCapabilities,
    },
    ControllerDisconnected { id: u8 },
    ControllerState {
        id: u8,
        buttons: ControllerButtons,
        left_trigger: u8,
        right_trigger: u8,
        left_stick_x: i16,
        left_stick_y: i16,
        right_stick_x: i16,
        right_stick_y: i16,
    },
    RequestVideoIdr,
    /// Dynamic bitrate change from the web client.
    SetBitrate { kbps: u32 },
    /// Dynamic frame-rate change from the web client.
    SetFps { fps: u32 },
}

// ---------------------------------------------------------------------------
// Big-endian field reading
// ---------------------------------------------------------------------------
/// The big-endian `u16` at `s[i..i + 2]`.
pub open spec fn be_u16(s: Seq<u8>, i: int) -> u16 {
    (s[i] as nat * 256 + s[i + 1] as nat) as u16
}

/// The big-endian `i16` at `s[i..i + 2]` (two's complement).
pub open spec fn be_i16(s: Seq<u8>, i: int) -> i16 {
    be_u16(s, i) as i16
}

/// The big-endian `u32` at `s[i..i + 4]`.
pub open spec fn be_u32(s: Seq<u8>, i: int) -> u32 {
    (((s[i] as nat * 256 + s[i + 1] as nat) * 256 + s[i + 2] as nat) * 256
        + s[i + 3] as nat) as u32
}

fn read_u16(b: &[u8], i: usize) -> (res: u16)
    requires
        i + 2 <= b@.len(),
    ensures
        res == be_u16(b@, i as int),
{
    (b[i] as u16) * 256 + (b[i + 1] as u16)
}

pub(crate) fn read_i16(b: &[u8], i: usize) -> (res: i16)
    requires
        i + 2 <= b@.len(),
    ensures
        res == be_i16(b@, i as int),
{
    read_u16(b, i) as i16
}

fn read_u32(b: &[u8], i: usize) -> (res: u32)
    requires
        i + 4 <= b@.len(),
    ensures
        res == be_u32(b@, i as int),
{
    (((b[i] as u32) * 256 + (b[i + 1] as u32)) * 256 + (b[i + 2] as u32)) * 256 + (b[i + 3] as u32)
}

// ---------------------------------------------------------------------------
// General-channel JSON commands
// ---------------------------------------------------------------------------
/// `"stop"` with its quotes.
pub open spec fn stop_quoted() -> Seq<char> {
    seq!['"', 's', 't', 'o', 'p', '"']
}

/// `Stop`.
pub open spec fn stop_word() -> Seq<char> {
    seq!['S', 't', 'o', 'p']
}

/// `"type":"<command>"`.
pub open spec fn type_pattern(command: Seq<char>) -> Seq<char> {
    seq!['"', 't', 'y', 'p', 'e', '"', ':', '"'] + command + seq!['"']
}

/// `"type": "<command>"`.
pub open spec fn type_pattern_spaced(command: Seq<char>) -> Seq<char> {
    seq!['"', 't', 'y', 'p', 'e', '"', ':', ' ', '"'] + command + seq!['"']
}

/// `"value":`.
pub open spec fn value_key() -> Seq<char> {
    seq!['"', 'v', 'a', 'l', 'u', 'e', '"', ':']
}

/// `set_bitrate`.
pub open spec fn set_bitrate_command() -> Seq<char> {
    seq!['s', 'e', 't', '_', 'b', 'i', 't', 'r', 'a', 't', 'e']
}

/// `set_fps`.
pub open spec fn set_fps_command() -> Seq<char> {
    seq!['s', 'e', 't', '_', 'f', 'p', 's']
}

/// The value of a lightweight JSON command such as
/// `{"type":"set_bitrate","value":8000}`: the text must name the command type,
/// and the value is the run of ASCII digits after the first `"value":` and any
/// whitespace, read as a `u32`.
pub open spec fn json_command_value(text: Seq<char>, command: Seq<char>) -> Option<u32> {
    if !contains_seq(text, type_pattern(command)) && !contains_seq(
        text,
        type_pattern_spaced(command),
    ) {
        None
    } else {
        match find_from(text, value_key(), 0) {
            None => None,
            Some(idx) => {
                let start = whitespace_run(text, idx + 8);
                digits_u32(text.subrange(start, digit_run(text, start)))
            },
        }
    }
}

/// What a general-channel message is: a 16-bit length, then that many bytes
/// of UTF-8 text that asks to stop, or sets the bitrate or the frame rate.
pub open spec fn general_packet(b: Seq<u8>) -> Option<InboundPacket> {
    if b.len() < 2 {
        None
    } else if b.len() - 2 < be_u16(b, 0) {
        None
    } else {
        let raw = b.subrange(2, 2 + be_u16(b, 0));
        if !valid_utf8(raw) {
            None
        } else {
            let text = decode_utf8(raw);
            if contains_seq(text, stop_quoted()) || contains_seq(text, stop_word()) {
                Some(InboundPacket::GeneralStop)
            } else if json_command_value(text, set_bitrate_command()) is Some {
                Some(InboundPacket::SetBitrate { kbps: json_command_value(text, set_bitrate_command())->0 })
            } else if json_command_value(text, set_fps_command()) is Some {
                Some(InboundPacket::SetFps { fps: json_command_value(text, set_fps_command())->0 })
            } else {
                None
            }
        }
    }
}

pub open spec fn is_mouse_channel(c: u8) -> bool {
    c == 4 || c == 5 || c == 6 || c == 27
}

/// What a mouse-channel packet is, by its type byte.
pub open spec fn mouse_packet(b: Seq<u8>) -> Option<InboundPacket> {
    if b.len() < 1 {
        None
    } else if b[0] == 0 {
        if b.len() < 5 {
            None
        } else {
            Some(
                InboundPacket::MouseMove {
                    delta_x: be_i16(b, 1),
                    delta_y: be_i16(b, 3),
                    timestamp: if b.len() >= 9 {
                        be_u32(b, 5)
                    } else {
                        0
                    },
                },
            )
        }
    } else if b[0] == 1 {
        if b.len() < 9 {
            None
        } else {
            Some(
                InboundPacket::MousePosition {
                    x: be_i16(b, 1),
                    y: be_i16(b, 3),
                    reference_width: be_i16(b, 5),
                    reference_height: be_i16(b, 7),
                    timestamp: if b.len() >= 13 {
                        be_u32(b, 9)
                    } else {
                        0
                    },
                },
            )
        }
    } else if b[0] == 2 {
        if b.len() < 3 {
            None
        } else {
            match spec_mouse_button_from_u8(b[2]) {
                Some(button) => Some(
                    InboundPacket::MouseButton {
                        action: if b[1] != 0 {
                            MouseButtonAction::Press
                        } else {
                            MouseButtonAction::Release
                        },
                        button,
                    },
                ),
                None => None,
            }
        }
    } else if b[0] == 3 {
        if b.len() < 5 {
            None
        } else {
            Some(InboundPacket::HighResScroll { delta_x: be_i16(b, 1), delta_y: be_i16(b, 3) })
        }
    } else if b[0] == 4 {
        if b.len() < 3 {
            None
        } else {
            Some(InboundPacket::Scroll { delta_x: b[1] as i8, delta_y: b[2] as i8 })
        }
    } else {
        None
    }
}

/// The key-event packet on the keyboard channel (type byte 0).
pub open spec fn key_packet(b: Seq<u8>) -> Option<InboundPacket> {
    if b.len() < 5 || !key_modifiers_valid(b[2] as i8) {
        None
    } else {
        Some(
            InboundPacket::Key {
                action: if b[1] != 0 {
                    KeyAction::Down
                } else {
                    KeyAction::Up
                },
                modifiers: KeyModifiers { bits: b[2] as i8 },
                key: be_u16(b, 3),
                flags: KeyFlags { bits: 0 },
            },
        )
    }
}

/// The raw text of a keyboard text packet (type byte 1): an 8-bit length,
/// then that many bytes.
pub open spec fn key_text_raw(b: Seq<u8>) -> Option<Seq<u8>> {
    if b.len() < 2 || b.len() - 2 < b[1] {
        None
    } else {
        Some(b.subrange(2, 2 + b[1]))
    }
}

/// What a touch packet is: event type, pointer id, five single-precision
/// values and a rotation.
pub open spec fn touch_packet(b: Seq<u8>) -> Option<InboundPacket> {
    if b.len() < 27 || b[0] > 2 {
        None
    } else {
        Some(
            InboundPacket::Touch {
                pointer_id: be_u32(b, 1),
                x_bits: be_u32(b, 5),
                y_bits: be_u32(b, 9),
                pressure_or_distance_bits: be_u32(b, 13),
                contact_area_major_bits: be_u32(b, 17),
                contact_area_minor_bits: be_u32(b, 21),
                rotation: Some(be_u16(b, 25)),
                event_type: if b[0] == 0 {
                    TouchEventType::Down
                } else if b[0] == 1 {
                    TouchEventType::Move
                } else {
                    TouchEventType::Cancel
                },
            },
        )
    }
}

/// `res` is what the bytes `b` received on `channel` decode to. A keyboard
/// text packet gives the text its bytes encode as UTF-8; every other packet is
/// given by the functions above; any other channel gives `None`.
pub open spec fn decodes_to(channel: u8, b: Seq<u8>, res: Option<InboundPacket>) -> bool {
    if channel == 0 {
        res == general_packet(b)
    } else if channel == 2 {
        res == if b.len() >= 1 && b[0] == 0 {
            Some(InboundPacket::RequestVideoIdr)
        } else {
            None
        }
    } else if is_mouse_channel(channel) {
        res == mouse_packet(b)
    } else if channel == 7 {
        if b.len() >= 1 && b[0] == 0 {
            res == key_packet(b)
        } else if b.len() >= 1 && b[0] == 1 {
            match key_text_raw(b) {
                Some(raw) => if valid_utf8(raw) {
                    res matches Some(InboundPacket::Text { text }) && text@ == decode_utf8(raw)
                } else {
                    res is None
                },
                None => res is None,
            }
        } else {
            res is None
        }
    } else if channel == 8 {
        res == touch_packet(b)
    } else {
        res is None
    }
}

} // verus!

verus! {

/// The characters of `prefix`, then `middle`, then `suffix`.
fn concat3(prefix: &[char], middle: &[char], suffix: &[char]) -> (res: Vec<char>)
    ensures
        res@ == prefix@ + middle@ + suffix@,
{
    let mut v: Vec<char> = Vec::new();
    let mut i: usize = 0;
    while i < prefix.len()
        invariant
            i <= prefix@.len(),
            v@ == prefix@.subrange(0, i as int),
        decreases prefix@.len() - i,
    {
        v.push(prefix[i]);
        i = i + 1;
        assert(v@ =~= prefix@.subrange(0, i as int));
    }
    assert(prefix@.subrange(0, prefix@.len() as int) =~= prefix@);
    let mut j: usize = 0;
    while j < middle.len()
        invariant
            j <= middle@.len(),
            v@ == prefix@ + middle@.subrange(0, j as int),
        decreases middle@.len() - j,
    {
        v.push(middle[j]);
        j = j + 1;
        assert(v@ =~= prefix@ + middle@.subrange(0, j as int));
    }
    assert(middle@.subrange(0, middle@.len() as int) =~= middle@);
    let mut k: usize = 0;
    while k < suffix.len()
        invariant
            k <= suffix@.len(),
            v@ == prefix@ + middle@ + suffix@.subrange(0, k as int),
        decreases suffix@.len() - k,
    {
        v.push(suffix[k]);
        k = k + 1;
        assert(v@ =~= prefix@ + middle@ + suffix@.subrange(0, k as int));
    }
    assert(suffix@.subrange(0, suffix@.len() as int) =~= suffix@);
    v
}

impl InboundPacket {
    /// Lightweight JSON command parser for dynamic settings, for commands
    /// such as `{"type":"set_bitrate","value":8000}`: the value as a `u32`
    /// when the text is a command of this type.
    fn parse_json_command(text: &str, command_type: &str) -> (res: Option<u32>)
        ensures
            res == json_command_value(text@, command_type@),
    {
        let t = chars_of(text);
        let cmd = chars_of(command_type);
        let head: [char; 8] = ['"', 't', 'y', 'p', 'e', '"', ':', '"'];
        let head_spaced: [char; 9] = ['"', 't', 'y', 'p', 'e', '"', ':', ' ', '"'];
        let quote: [char; 1] = ['"'];
        assert(head@ =~= seq!['"', 't', 'y', 'p', 'e', '"', ':', '"']);
        assert(head_spaced@ =~= seq!['"', 't', 'y', 'p', 'e', '"', ':', ' ', '"']);
        assert(quote@ =~= seq!['"']);
        let plain = concat3(&head, cmd.as_slice(), &quote);
        let spaced = concat3(&head_spaced, cmd.as_slice(), &quote);
        assert(plain@ == type_pattern(command_type@));
        assert(spaced@ == type_pattern_spaced(command_type@));
        if !contains_chars(t.as_slice(), plain.as_slice()) && !contains_chars(
            t.as_slice(),
            spaced.as_slice(),
        ) {
            return None;
        }
        let key: [char; 8] = ['"', 'v', 'a', 'l', 'u', 'e', '"', ':'];
        let key_s: &[char] = &key;
        assert(key_s@ =~= value_key());
        let idx = match find_chars(t.as_slice(), key_s, 0) {
            Some(i) => i,
            None => {
                return None;
            },
        };
        let tl = t.len();
        assert(idx + 8 <= tl);
        let start = skip_whitespace(t.as_slice(), idx + 8);
        let end = scan_digits(t.as_slice(), start);
        assert(find_from(text@, value_key(), 0) == Some(idx as int));
        assert(start as int == whitespace_run(text@, idx + 8));
        assert(end as int == digit_run(text@, start as int));
        digits_to_u32(t.as_slice(), start, end)
    }

    /// Decodes a packet received on `channel`.
    pub fn deserialize(channel: TransportChannel, bytes: &[u8]) -> (res: Option<Self>)
        ensures
            decodes_to(channel.0, bytes@, res),
    {
        let b = bytes;
        let n = b.len();
        let ch = channel.0;
        if ch == TransportChannelId::GENERAL {
            if n < 2 {
                return None;
            }
            let len = read_u16(b, 0) as usize;
            if n - 2 < len {
                return None;
            }
            let raw = vstd::slice::slice_subrange(b, 2, 2 + len);
            let text = match str_from_utf8(raw) {
                Some(t) => t,
                None => {
                    return None;
                },
            };
            let chars = chars_of(text);
            let stop_q: [char; 6] = ['"', 's', 't', 'o', 'p', '"'];
            let stop_w: [char; 4] = ['S', 't', 'o', 'p'];
            assert(stop_q@ =~= stop_quoted());
            assert(stop_w@ =~= stop_word());
            if contains_chars(chars.as_slice(), &stop_q) || contains_chars(chars.as_slice(), &stop_w) {
                return Some(InboundPacket::GeneralStop);
            }
            proof {
                reveal_strlit("set_bitrate");
                reveal_strlit("set_fps");
            }
            assert("set_bitrate"@ =~= set_bitrate_command());
            assert("set_fps"@ =~= set_fps_command());
            if let Some(value) = Self::parse_json_command(text, "set_bitrate") {
                return Some(InboundPacket::SetBitrate { kbps: value });
            }
            if let Some(value) = Self::parse_json_command(text, "set_fps") {
                return Some(InboundPacket::SetFps { fps: value });
            }
            return None;
        }
        if ch == TransportChannelId::HOST_VIDEO {
            if n < 1 {
                return None;
            }
            return if b[0] == 0 {
                Some(InboundPacket::RequestVideoIdr)
            } else {
                None
            };
        }
        if ch == TransportChannelId::MOUSE_ABSOLUTE || ch == TransportChannelId::MOUSE_RELIABLE || ch
            == TransportChannelId::MOUSE_RELATIVE || ch == TransportChannelId::MOUSE_RAW {
            if n < 1 {
                return None;
            }
            let ty = b[0];
            if ty == 0 {
                if n < 5 {
                    return None;
                }
                let delta_x = read_i16(b, 1);
                let delta_y = read_i16(b, 3);
                let timestamp = if n >= 9 {
                    read_u32(b, 5)
                } else {
                    0
                };
                return Some(InboundPacket::MouseMove { delta_x, delta_y, timestamp });
            } else if ty == 1 {
                if n < 9 {
                    return None;
                }
                let x = read_i16(b, 1);
                let y = read_i16(b, 3);
                let reference_width = read_i16(b, 5);
                let reference_height = read_i16(b, 7);
                let timestamp = if n >= 13 {
                    read_u32(b, 9)
                } else {
                    0
                };
                return Some(
                    InboundPacket::MousePosition {
                        x,
                        y,
                        reference_width,
                        reference_height,
                        timestamp,
                    },
                );
            } else if ty == 2 {
                if n < 3 {
                    return None;
                }
                let action = if b[1] != 0 {
                    MouseButtonAction::Press
                } else {
                    MouseButtonAction::Release
                };
                let button = match MouseButton::from_u8(b[2]) {
                    Some(button) => button,
                    None => {
                        return None;
                    },
                };
                return Some(InboundPacket::MouseButton { action, button });
            } else if ty == 3 {
                if n < 5 {
                    return None;
                }
                let delta_x = read_i16(b, 1);
                let delta_y = read_i16(b, 3);
                return Some(InboundPacket::HighResScroll { delta_x, delta_y });
            } else if ty == 4 {
                if n < 3 {
                    return None;
                }
                return Some(InboundPacket::Scroll { delta_x: b[1] as i8, delta_y: b[2] as i8 });
            } else {
                return None;
            }
        }
        if ch == TransportChannelId::KEYBOARD {
            if n < 1 {
                return None;
            }
            let ty = b[0];
            if ty == 0 {
                if n < 5 {
                    return None;
                }
                let action = if b[1] != 0 {
                    KeyAction::Down
                } else {
                    KeyAction::Up
                };
                let modifiers = match KeyModifiers::from_bits(b[2] as i8) {
                    Some(m) => m,
                    None => {
                        return None;
                    },
                };
                let key = read_u16(b, 3);
                return Some(InboundPacket::Key { action, modifiers, key, flags: KeyFlags::empty() });
            } else if ty == 1 {
                if n < 2 {
                    return None;
                }
                let len = b[1] as usize;
                if n - 2 < len {
                    return None;
                }
                let raw = vstd::slice::slice_subrange(b, 2, 2 + len);
                let text = match str_from_utf8(raw) {
                    Some(t) => t,
                    None => {
                        return None;
                    },
                };
                return Some(InboundPacket::Text { text: text.to_owned() });
            } else {
                return None;
            }
        }
        if ch == TransportChannelId::TOUCH {
            if n < 27 {
                return None;
            }
            let event_type = if b[0] == 0 {
                TouchEventType::Down
            } else if b[0] == 1 {
                TouchEventType::Move
            } else if b[0] == 2 {
                TouchEventType::Cancel
            } else {
                return None;
            };
            let pointer_id = read_u32(b, 1);
            let x_bits = read_u32(b, 5);
            let y_bits = read_u32(b, 9);
            let pressure_or_distance_bits = read_u32(b, 13);
            let contact_area_major_bits = read_u32(b, 17);
            let contact_area_minor_bits = read_u32(b, 21);
            let rotation = read_u16(b, 25);
            return Some(
                InboundPacket::Touch {
                    pointer_id,
                    x_bits,
                    y_bits,
                    pressure_or_distance_bits,
                    contact_area_major_bits,
                    contact_area_minor_bits,
                    rotation: Some(rotation),
                    event_type,
                },
            );
        }
        None
    }
}


/// The protocol's mouse-button codes: 1 Left, 2 Middle, 3 Right, 4 X1, 5 X2;
/// no other byte names a button.
pub proof fn law_mouse_button_codes(v: u8)
    ensures
        spec_mouse_button_from_u8(1) == Some(MouseButton::Left),
        spec_mouse_button_from_u8(2) == Some(MouseButton::Middle),
        spec_mouse_button_from_u8(3) == Some(MouseButton::Right),
        spec_mouse_button_from_u8(4) == Some(MouseButton::X1),
        spec_mouse_button_from_u8(5) == Some(MouseButton::X2),
        (v == 0 || v > 5) ==> spec_mouse_button_from_u8(v) is None,
{
}

} // verus!
