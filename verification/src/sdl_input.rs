//! The desktop client's input: SDL keyboard, mouse and wheel events, given
//! by their SDL key codes and modifier bits, turned into the host's input
//! packets.

use crate::protocol::{spec_mouse_button_from_u8, MouseButton};
use vstd::prelude::*;

verus! {

/// The bit SDL sets in the key code of a key named by its scan code.
pub open spec fn scan(code: i32) -> i32 {
    (0x40000000 + code) as i32
}

/// The Windows virtual-key code of an SDL key code, 0 for keys without one.
pub open spec fn sdl_vk(k: i32) -> u16 {
    if k == 8 {
        8
    } else if k == 9 {
        9
    } else if k == 13 {
        13
    } else if k == scan(225) || k == scan(229) {
        16
    } else if k == scan(224) || k == scan(228) {
        17
    } else if k == scan(226) || k == scan(230) {
        18
    } else if k == scan(72) {
        19
    } else if k == scan(57) {
        20
    } else if k == 27 {
        27
    } else if k == 32 {
        32
    } else if k == scan(75) {
        33
    } else if k == scan(78) {
        34
    } else if k == scan(77) {
        35
    } else if k == scan(74) {
        36
    } else if k == scan(80) {
        37
    } else if k == scan(82) {
        38
    } else if k == scan(79) {
        39
    } else if k == scan(81) {
        40
    } else if k == scan(70) {
        44
    } else if k == scan(73) {
        45
    } else if k == 127 {
        46
    } else if 48 <= k <= 57 {
        k as u16
    } else if 97 <= k <= 122 {
        (k - 32) as u16
    } else if k == scan(227) {
        91
    } else if k == scan(231) {
        92
    } else if k == scan(98) {
        96
    } else if scan(89) <= k <= scan(97) {
        (k - scan(89) + 97) as u16
    } else if k == scan(85) {
        106
    } else if k == scan(87) {
        107
    } else if k == scan(86) {
        109
    } else if k == scan(99) {
        110
    } else if k == scan(84) {
        111
    } else if scan(58) <= k <= scan(69) {
        (k - scan(58) + 112) as u16
    } else if k == scan(83) {
        144
    } else if k == scan(71) {
        145
    } else if k == 59 {
        186
    } else if k == 61 {
        187
    } else if k == 44 {
        188
    } else if k == 45 {
        189
    } else if k == 46 {
        190
    } else if k == 47 {
        191
    } else if k == 96 {
        192
    } else if k == 91 {
        219
    } else if k == 92 {
        220
    } else if k == 93 {
        221
    } else if k == 39 {
        222
    } else {
        0
    }
}

/// The Windows virtual-key code of an SDL key code, 0 for keys without one:
/// letters, digits, keypad, function and editing keys, modifiers and the US
/// punctuation keys.
pub fn map_keycode_to_vk(k: i32) -> (vk: u16)
    ensures
        vk == sdl_vk(k),
{
    let s: i32 = 0x40000000;
    if k == 8 {
        8
    } else if k == 9 {
        9
    } else if k == 13 {
        13
    } else if k == s + 225 || k == s + 229 {
        16
    } else if k == s + 224 || k == s + 228 {
        17
    } else if k == s + 226 || k == s + 230 {
        18
    } else if k == s + 72 {
        19
    } else if k == s + 57 {
        20
    } else if k == 27 {
        27
    } else if k == 32 {
        32
    } else if k == s + 75 {
        33
    } else if k == s + 78 {
        34
    } else if k == s + 77 {
        35
    } else if k == s + 74 {
        36
    } else if k == s + 80 {
        37
    } else if k == s + 82 {
        38
    } else if k == s + 79 {
        39
    } else if k == s + 81 {
        40
    } else if k == s + 70 {
        44
    } else if k == s + 73 {
        45
    } else if k == 127 {
        46
    } else if 48 <= k && k <= 57 {
        k as u16
    } else if 97 <= k && k <= 122 {
        (k - 32) as u16
    } else if k == s + 227 {
        91
    } else if k == s + 231 {
        92
    } else if k == s + 98 {
        96
    } else if s + 89 <= k && k <= s + 97 {
        (k - (s + 89) + 97) as u16
    } else if k == s + 85 {
        106
    } else if k == s + 87 {
        107
    } else if k == s + 86 {
        109
    } else if k == s + 99 {
        110
    } else if k == s + 84 {
        111
    } else if s + 58 <= k && k <= s + 69 {
        (k - (s + 58) + 112) as u16
    } else if k == s + 83 {
        144
    } else if k == s + 71 {
        145
    } else if k == 59 {
        186
    } else if k == 61 {
        187
    } else if k == 44 {
        188
    } else if k == 45 {
        189
    } else if k == 46 {
        190
    } else if k == 47 {
        191
    } else if k == 96 {
        192
    } else if k == 91 {
        219
    } else if k == 92 {
        220
    } else if k == 93 {
        221
    } else if k == 39 {
        222
    } else {
        0
    }
}

/// The protocol's modifier bits (SHIFT 1, CTRL 2, ALT 4, META 8) for SDL's
/// modifier state: either shift (0x0001, 0x0002), either control (0x0040,
/// 0x0080), either alt (0x0100, 0x0200), either GUI key (0x0400, 0x0800).
pub open spec fn sdl_modifiers(m: u16) -> u8 {
    ((if m & 0x0003 != 0 { 1u8 } else { 0u8 }) + (if m & 0x00C0 != 0 { 2u8 } else { 0u8 }) + (if m
        & 0x0300 != 0 { 4u8 } else { 0u8 }) + (if m & 0x0C00 != 0 { 8u8 } else { 0u8 })) as u8
}

fn modifier_bits(m: u16) -> (res: u8)
    ensures
        res == sdl_modifiers(m),
{
    let mut r: u8 = 0;
    if m & 0x0003 != 0 {
        r = r + 1;
    }
    if m & 0x00C0 != 0 {
        r = r + 2;
    }
    if m & 0x0300 != 0 {
        r = r + 4;
    }
    if m & 0x0C00 != 0 {
        r = r + 8;
    }
    r
}

/// SDL's mouse buttons.
#[derive(Debug, Clone, Copy, PartialEq, Eq, Structural)]
pub enum SdlMouseButton {
    Left,
    Middle,
    Right,
    X1,
    X2,
    Unknown,
}

/// The SDL events the client forwards to the host.
#[derive(Debug, Clone, Copy, PartialEq, Eq, Structural)]
pub enum SdlInput {
    KeyDown { keycode: Option<i32>, keymod: u16 },
    KeyUp { keycode: Option<i32>, keymod: u16 },
    MouseMotion { x: i32, y: i32, xrel: i32, yrel: i32 },
    MouseButtonDown { button: SdlMouseButton },
    MouseButtonUp { button: SdlMouseButton },
    MouseWheel { x: i32, y: i32 },
    Other,
}

/// The channels the client's packets go on.
#[derive(Debug, Clone, Copy, PartialEq, Eq, Structural)]
pub enum InputChannel {
    Keyboard,
    MouseAbsolute,
    MouseRelative,
}

/// The protocol's number for a mouse button, 0 for one it does not know.
pub open spec fn button_id(b: SdlMouseButton) -> u8 {
    match b {
        SdlMouseButton::Left => 1,
        SdlMouseButton::Middle => 2,
        SdlMouseButton::Right => 3,
        SdlMouseButton::X1 => 4,
        SdlMouseButton::X2 => 5,
        SdlMouseButton::Unknown => 0,
    }
}

/// The big-endian bytes of the low 16 bits of `v`.
pub open spec fn be16(v: u16) -> Seq<u8> {
    seq![(v / 256) as u8, (v % 256) as u8]
}

/// The packets an SDL event sends, in order: a key with a virtual-key code
/// (type 0, down flag, modifiers, code); a motion, as an absolute position
/// with the window size (type 1) when the pointer is free, or as relative
/// motion (type 0) when it is locked; a known button (type 2, press flag,
/// button); a wheel turn (type 4, horizontal then vertical, each truncated
/// to a signed byte). Coordinates are truncated to 16 bits.
pub open spec fn sdl_packets(e: SdlInput, window_w: i16, window_h: i16, locked: bool) -> Seq<
    (InputChannel, Seq<u8>),
> {
    match e {
        SdlInput::KeyDown { keycode: Some(k), keymod } => if sdl_vk(k) > 0 {
            seq![
                (InputChannel::Keyboard, seq![0u8, 1u8, sdl_modifiers(keymod)] + be16(sdl_vk(k))),
            ]
        } else {
            Seq::empty()
        },
        SdlInput::KeyUp { keycode: Some(k), keymod } => if sdl_vk(k) > 0 {
            seq![
                (InputChannel::Keyboard, seq![0u8, 0u8, sdl_modifiers(keymod)] + be16(sdl_vk(k))),
            ]
        } else {
            Seq::empty()
        },
        SdlInput::MouseMotion { x, y, xrel, yrel } => if !locked {
            seq![
                (InputChannel::MouseAbsolute, seq![1u8] + be16(x as u16) + be16(y as u16) + be16(
                    window_w as u16,
                ) + be16(window_h as u16)),
            ]
        } else {
            seq![(InputChannel::MouseRelative, seq![0u8] + be16(xrel as u16) + be16(yrel as u16))]
        },
        SdlInput::MouseButtonDown { button } => if button_id(button) > 0 {
            seq![(InputChannel::MouseRelative, seq![2u8, 1u8, button_id(button)])]
        } else {
            Seq::empty()
        },
        SdlInput::MouseButtonUp { button } => if button_id(button) > 0 {
            seq![(InputChannel::MouseRelative, seq![2u8, 0u8, button_id(button)])]
        } else {
            Seq::empty()
        },
        SdlInput::MouseWheel { x, y } => seq![
            (InputChannel::MouseRelative, seq![4u8, (x as i8) as u8, (y as i8) as u8]),
        ],
        _ => Seq::empty(),
    }
}

fn push16(buf: &mut Vec<u8>, v: u16)
    ensures
        final(buf)@ == old(buf)@ + be16(v),
{
    buf.push((v / 256) as u8);
    buf.push((v % 256) as u8);
    assert(final(buf)@ =~= old(buf)@ + be16(v));
}

fn key_packet(k: i32, keymod: u16, down: bool) -> (res: Option<Vec<u8>>)
    ensures
        sdl_vk(k) > 0 ==> (res matches Some(p) && p@ == seq![
            0u8,
            if down {
                1u8
            } else {
                0u8
            },
            sdl_modifiers(keymod),
        ] + be16(sdl_vk(k))),
        sdl_vk(k) == 0 ==> res is None,
{
    let vk = map_keycode_to_vk(k);
    if vk == 0 {
        return None;
    }
    let mut buf: Vec<u8> = Vec::new();
    buf.push(0);
    buf.push(
        if down {
            1
        } else {
            0
        },
    );
    buf.push(modifier_bits(keymod));
    push16(&mut buf, vk);
    assert(buf@ =~= seq![0u8, if down { 1u8 } else { 0u8 }, sdl_modifiers(keymod)] + be16(vk));
    Some(buf)
}

fn one(c: InputChannel, p: Vec<u8>) -> (res: Vec<(InputChannel, Vec<u8>)>)
    ensures
        res@.len() == 1,
        res@[0].0 == c,
        res@[0].1@ == p@,
{
    let mut v: Vec<(InputChannel, Vec<u8>)> = Vec::new();
    v.push((c, p));
    v
}

/// The channel and bytes of each packet.
pub open spec fn packets_view(v: Seq<(InputChannel, Vec<u8>)>) -> Seq<(InputChannel, Seq<u8>)> {
    v.map_values(|p: (InputChannel, Vec<u8>)| (p.0, p.1@))
}

/// The packets an SDL event sends.
pub fn handle_sdl_event(e: SdlInput, window_w: i16, window_h: i16, locked: bool) -> (res: Vec<
    (InputChannel, Vec<u8>),
>)
    ensures
        packets_view(res@) == sdl_packets(e, window_w, window_h, locked),
{
    let res: Vec<(InputChannel, Vec<u8>)> = match e {
        SdlInput::KeyDown { keycode: Some(k), keymod } => match key_packet(k, keymod, true) {
            Some(p) => one(InputChannel::Keyboard, p),
            None => Vec::new(),
        },
        SdlInput::KeyUp { keycode: Some(k), keymod } => match key_packet(k, keymod, false) {
            Some(p) => one(InputChannel::Keyboard, p),
            None => Vec::new(),
        },
        SdlInput::MouseMotion { x, y, xrel, yrel } => {
            let mut buf: Vec<u8> = Vec::new();
            if !locked {
                buf.push(1);
                push16(&mut buf, x as u16);
                push16(&mut buf, y as u16);
                push16(&mut buf, window_w as u16);
                push16(&mut buf, window_h as u16);
                assert(buf@ =~= seq![1u8] + be16(x as u16) + be16(y as u16) + be16(window_w as u16)
                    + be16(window_h as u16));
                one(InputChannel::MouseAbsolute, buf)
            } else {
                buf.push(0);
                push16(&mut buf, xrel as u16);
                push16(&mut buf, yrel as u16);
                assert(buf@ =~= seq![0u8] + be16(xrel as u16) + be16(yrel as u16));
                one(InputChannel::MouseRelative, buf)
            }
        },
        SdlInput::MouseButtonDown { button } | SdlInput::MouseButtonUp { button } => {
            let id: u8 = match button {
                SdlMouseButton::Left => 1,
                SdlMouseButton::Middle => 2,
                SdlMouseButton::Right => 3,
                SdlMouseButton::X1 => 4,
                SdlMouseButton::X2 => 5,
                SdlMouseButton::Unknown => 0,
            };
            if id == 0 {
                Vec::new()
            } else {
                let down = match e {
                    SdlInput::MouseButtonDown { .. } => true,
                    _ => false,
                };
                let mut buf: Vec<u8> = Vec::new();
                buf.push(2);
                buf.push(
                    if down {
                        1
                    } else {
                        0
                    },
                );
                buf.push(id);
                assert(buf@ =~= seq![2u8, if down { 1u8 } else { 0u8 }, id]);
                one(InputChannel::MouseRelative, buf)
            }
        },
        SdlInput::MouseWheel { x, y } => {
            let mut buf: Vec<u8> = Vec::new();
            buf.push(4);
            buf.push((x as i8) as u8);
            buf.push((y as i8) as u8);
            assert(buf@ =~= seq![4u8, (x as i8) as u8, (y as i8) as u8]);
            one(InputChannel::MouseRelative, buf)
        },
        _ => Vec::new(),
    };
    assert(packets_view(res@) =~= sdl_packets(e, window_w, window_h, locked));
    res
}


/// The protocol button that an SDL mouse button stands for.
pub open spec fn protocol_button(b: SdlMouseButton) -> Option<MouseButton> {
    match b {
        SdlMouseButton::Left => Some(MouseButton::Left),
        SdlMouseButton::Middle => Some(MouseButton::Middle),
        SdlMouseButton::Right => Some(MouseButton::Right),
        SdlMouseButton::X1 => Some(MouseButton::X1),
        SdlMouseButton::X2 => Some(MouseButton::X2),
        SdlMouseButton::Unknown => None,
    }
}

/// An SDL button press or release is one packet on the relative-mouse
/// channel, `[2, 1 or 0, code]`, whose code the host decodes back to the
/// same button; a button the protocol does not know sends nothing.
pub proof fn law_sdl_button_round_trip(button: SdlMouseButton, down: bool, w: i16, h: i16, locked: bool)
    ensures
        ({
            let e = if down {
                SdlInput::MouseButtonDown { button }
            } else {
                SdlInput::MouseButtonUp { button }
            };
            let r = sdl_packets(e, w, h, locked);
            match protocol_button(button) {
                Some(pb) => {
                    &&& r.len() == 1
                    &&& r[0].0 == InputChannel::MouseRelative
                    &&& r[0].1.len() == 3
                    &&& r[0].1[0] == 2
                    &&& r[0].1[1] == (if down { 1u8 } else { 0u8 })
                    &&& spec_mouse_button_from_u8(r[0].1[2]) == Some(pb)
                },
                None => r.len() == 0,
            }
        }),
{
}

} // verus!
