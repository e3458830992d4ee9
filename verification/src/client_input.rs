//! The native client's side of the input protocol: Qt key codes to Windows
//! virtual-key codes, and the packets it sends for keyboard and mouse events.

use crate::protocol::{
    be_i16, be_u16, decodes_to, InboundPacket, KeyAction, KeyFlags, KeyModifiers, MouseButton,
    MouseButtonAction, spec_mouse_button_from_u8,
};
use vstd::prelude::*;

verus! {

/// The virtual-key code of a Qt key code; 0 when the key has none.
pub open spec fn spec_qt_key_to_vk(key: i32) -> u16 {
    if 0x20 <= key && key <= 0x7e {
        key as u16
    } else if key == 0x01000003 {
        8
    } else if key == 0x01000001 {
        9
    } else if key == 0x01000004 || key == 0x01000005 {
        13
    } else if key == 0x01000020 {
        16
    } else if key == 0x01000021 {
        17
    } else if key == 0x01000023 {
        18
    } else if key == 0x01000008 {
        19
    } else if key == 0x01000024 {
        20
    } else if key == 0x01000000 {
        27
    } else if key == 0x01000016 {
        33
    } else if key == 0x01000017 {
        34
    } else if key == 0x01000011 {
        35
    } else if key == 0x01000010 {
        36
    } else if key == 0x01000012 {
        37
    } else if key == 0x01000013 {
        38
    } else if key == 0x01000014 {
        39
    } else if key == 0x01000015 {
        40
    } else if key == 0x01000009 {
        44
    } else if key == 0x01000006 {
        45
    } else if key == 0x01000007 {
        46
    } else if key == 0x01000022 {
        91
    } else if 0x01000030 <= key && key <= 0x0100003b {
        (112 + (key - 0x01000030)) as u16
    } else {
        0
    }
}

/// Maps a Qt key code to a Windows virtual-key code: printable ASCII keeps its
/// code, named keys (Backspace, Tab, Return/Enter, Shift, Control, Alt, Pause,
/// CapsLock, Escape, paging, arrows, PrintScreen, Insert, Delete, Meta, F1 to
/// F12) map to theirs, anything else to 0.
pub fn map_qt_key_to_vk(key: i32) -> (res: u16)
    ensures
        res == spec_qt_key_to_vk(key),
{
    if key >= 0x20 && key <= 0x7e {
        return key as u16;
    }
    if key == 0x01000003 {
        8
    } else if key == 0x01000001 {
        9
    } else if key == 0x01000004 || key == 0x01000005 {
        13
    } else if key == 0x01000020 {
        16
    } else if key == 0x01000021 {
        17
    } else if key == 0x01000023 {
        18
    } else if key == 0x01000008 {
        19
    } else if key == 0x01000024 {
        20
    } else if key == 0x01000000 {
        27
    } else if key == 0x01000016 {
        33
    } else if key == 0x01000017 {
        34
    } else if key == 0x01000011 {
        35
    } else if key == 0x01000010 {
        36
    } else if key == 0x01000012 {
        37
    } else if key == 0x01000013 {
        38
    } else if key == 0x01000014 {
        39
    } else if key == 0x01000015 {
        40
    } else if key == 0x01000009 {
        44
    } else if key == 0x01000006 {
        45
    } else if key == 0x01000007 {
        46
    } else if key == 0x01000022 {
        91
    } else if key >= 0x01000030 && key <= 0x0100003b {
        (112 + (key - 0x01000030)) as u16
    } else {
        0
    }
}

/// The protocol's modifier bits (SHIFT 1, CTRL 2, ALT 4, META 8) for a Qt
/// modifier mask.
pub open spec fn spec_qt_modifiers(mask: i32) -> u8 {
    ((if mask & 0x02000000 != 0 { 1u8 } else { 0u8 }) + (if mask & 0x04000000 != 0 { 2u8 } else { 0u8 })
        + (if mask & 0x08000000 != 0 { 4u8 } else { 0u8 }) + (if mask & 0x10000000 != 0 {
        8u8
    } else {
        0u8
    })) as u8
}

/// The high byte of a 16-bit value.
pub open spec fn hi(v: u16) -> u8 {
    (v / 256) as u8
}

/// The low byte of a 16-bit value.
pub open spec fn lo(v: u16) -> u8 {
    (v % 256) as u8
}

/// The two big-endian bytes of `v` truncated to 16 bits.
pub open spec fn be16_bytes(v: int) -> Seq<u8> {
    seq![hi(v as u16), lo(v as u16)]
}

/// The key-event packet for the keyboard channel: type 0, down flag,
/// modifier bits, the virtual-key code in big-endian order.
pub open spec fn key_event_packet(vk: u16, modifiers: u8, is_down: bool) -> Seq<u8> {
    seq![0u8, if is_down { 1u8 } else { 0u8 }, modifiers, hi(vk), lo(vk)]
}

fn push_be16(buf: &mut Vec<u8>, v: u16)
    ensures
        final(buf)@ == old(buf)@ + seq![hi(v), lo(v)],
{
    buf.push((v / 256) as u8);
    buf.push((v % 256) as u8);
}

/// The packet for a key press or release, when the key has a virtual-key code.
pub fn handle_key_event(key: i32, modifiers_mask: i32, is_down: bool) -> (res: Option<Vec<u8>>)
    ensures
        spec_qt_key_to_vk(key) == 0 ==> res is None,
        spec_qt_key_to_vk(key) > 0 ==> (res matches Some(p) && p@ == key_event_packet(
            spec_qt_key_to_vk(key),
            spec_qt_modifiers(modifiers_mask),
            is_down,
        )),
{
    let vk = map_qt_key_to_vk(key);
    if vk == 0 {
        return None;
    }
    let mut modifiers: u8 = 0;
    if (modifiers_mask & 0x02000000) != 0 {
        modifiers = modifiers + 1;
    }
    if (modifiers_mask & 0x04000000) != 0 {
        modifiers = modifiers + 2;
    }
    if (modifiers_mask & 0x08000000) != 0 {
        modifiers = modifiers + 4;
    }
    if (modifiers_mask & 0x10000000) != 0 {
        modifiers = modifiers + 8;
    }
    let mut buf: Vec<u8> = Vec::new();
    buf.push(0);
    buf.push(if is_down { 1 } else { 0 });
    buf.push(modifiers);
    push_be16(&mut buf, vk);
    assert(buf@ =~= key_event_packet(vk, spec_qt_modifiers(modifiers_mask), is_down));
    Some(buf)
}

/// Which channel a mouse packet goes on.
#[derive(Debug, Clone, Copy, PartialEq, Eq, Structural)]
pub enum MouseChannel {
    Absolute,
    Relative,
}

/// Which of the input channels a packet goes on: the keyboard channel, or
/// one of the two mouse channels.
#[derive(Debug, Clone, Copy, PartialEq, Eq, Structural)]
pub enum InputChannel {
    Keyboard,
    MouseAbsolute,
    MouseRelative,
}

/// The absolute-position packet: type 1, then x, y, width and height, each
/// truncated to 16 bits, big-endian.
pub open spec fn absolute_packet(x: int, y: int, width: int, height: int) -> Seq<u8> {
    seq![1u8] + be16_bytes(x) + be16_bytes(y) + be16_bytes(width) + be16_bytes(height)
}

/// The relative-motion packet: type 0, then dx and dy truncated to 16 bits.
pub open spec fn relative_packet(dx: int, dy: int) -> Seq<u8> {
    seq![0u8] + be16_bytes(dx) + be16_bytes(dy)
}

/// The packet for a pointer movement: the absolute position on the absolute
/// channel, or, while the pointer is locked, the relative motion on the
/// relative channel.
pub fn handle_mouse_move(
    x: i32,
    y: i32,
    width: i32,
    height: i32,
    rx: i32,
    ry: i32,
    pointer_locked: bool,
) -> (res: (MouseChannel, Vec<u8>))
    ensures
        !pointer_locked ==> res.0 == MouseChannel::Absolute && res.1@ == absolute_packet(
            x as int,
            y as int,
            width as int,
            height as int,
        ),
        pointer_locked ==> res.0 == MouseChannel::Relative && res.1@ == relative_packet(
            rx as int,
            ry as int,
        ),
{
    let mut buf: Vec<u8> = Vec::new();
    if !pointer_locked {
        buf.push(1);
        push_be16(&mut buf, x as u16);
        push_be16(&mut buf, y as u16);
        push_be16(&mut buf, width as u16);
        push_be16(&mut buf, height as u16);
        assert(buf@ =~= absolute_packet(x as int, y as int, width as int, height as int));
        (MouseChannel::Absolute, buf)
    } else {
        buf.push(0);
        push_be16(&mut buf, rx as u16);
        push_be16(&mut buf, ry as u16);
        assert(buf@ =~= relative_packet(rx as int, ry as int));
        (MouseChannel::Relative, buf)
    }
}

/// The button packet: type 2, the down flag, the button number truncated to
/// a byte.
pub open spec fn button_packet(button: int, is_down: bool) -> Seq<u8> {
    seq![2u8, if is_down { 1u8 } else { 0u8 }, button as u8]
}

/// The packet for a mouse button press or release (relative channel), for a
/// positive button number.
pub fn handle_mouse_click(button: i32, is_down: bool) -> (res: Option<Vec<u8>>)
    ensures
        button <= 0 ==> res is None,
        button > 0 ==> (res matches Some(p) && p@ == button_packet(button as int, is_down)),
{
    if button > 0 {
        let mut buf: Vec<u8> = Vec::new();
        buf.push(2);
        buf.push(if is_down { 1 } else { 0 });
        buf.push(button as u8);
        assert(buf@ =~= button_packet(button as int, is_down));
        Some(buf)
    } else {
        None
    }
}

/// Rust's integer division of `a` by a positive `b`, rounding toward zero.
pub open spec fn div_toward_zero(a: int, b: int) -> int {
    if a >= 0 {
        a / b
    } else {
        -((-a) / b)
    }
}

/// The scroll packet: type 4, no horizontal delta, and the whole notches
/// (120 units each, rounded toward zero) truncated to a signed byte.
pub open spec fn wheel_packet(delta: int) -> Seq<u8> {
    seq![4u8, 0u8, div_toward_zero(delta, 120) as i8 as u8]
}

/// The packet for a wheel movement (relative channel).
pub fn handle_mouse_wheel(delta: i32) -> (res: Vec<u8>)
    ensures
        res@ == wheel_packet(delta as int),
{
    let d = delta as i64;
    let notches: i64 = if d >= 0 {
        d / 120
    } else {
        -((-d) / 120)
    };
    let mut buf: Vec<u8> = Vec::new();
    buf.push(4);
    buf.push(0);
    buf.push((notches as i8) as u8);
    assert(buf@ =~= wheel_packet(delta as int));
    buf
}

/// Whether the relative-mouse data channel may take another packet: its
/// buffered amount must stay under the queue limit, which is 64 KiB when the
/// configured limit is below 10 KiB.
pub fn mouse_send_allowed(buffered_amount: usize, mouse_queue_limit: u32) -> (res: bool)
    ensures
        res == (buffered_amount < (if mouse_queue_limit < 10240 {
            65536
        } else {
            mouse_queue_limit as int
        })),
{
    let limit: usize = if mouse_queue_limit < 10240 {
        65536
    } else {
        mouse_queue_limit as usize
    };
    buffered_amount < limit
}

} // verus!

verus! {

proof fn lemma_be16_round_trip(v: i32)
    ensures
        be_u16(be16_bytes(v as int), 0) == v as u16,
        be_i16(be16_bytes(v as int), 0) == v as i16,
{
    let u = v as u16;
    assert(hi(u) as nat * 256 + lo(u) as nat == u as nat);
    assert((u as i16) == (v as i16)) by (bit_vector)
        requires
            u == v as u16,
    ;
}

proof fn lemma_be16_at(prefix: Seq<u8>, v: i32, suffix: Seq<u8>)
    ensures
        be_u16(prefix + be16_bytes(v as int) + suffix, prefix.len() as int) == v as u16,
        be_i16(prefix + be16_bytes(v as int) + suffix, prefix.len() as int) == v as i16,
{
    let s = prefix + be16_bytes(v as int) + suffix;
    assert(s[prefix.len() as int] == be16_bytes(v as int)[0]);
    assert(s[prefix.len() as int + 1] == be16_bytes(v as int)[1]);
    lemma_be16_round_trip(v);
}

/// What the client sends for a key, the agent reads back as the same key
/// event: same virtual-key code, same modifiers, press for down.
pub proof fn law_key_event_round_trip(vk: u16, modifiers: u8, is_down: bool)
    requires
        modifiers <= 15,
    ensures
        decodes_to(
            7,
            key_event_packet(vk, modifiers, is_down),
            Some(
                InboundPacket::Key {
                    action: if is_down {
                        KeyAction::Down
                    } else {
                        KeyAction::Up
                    },
                    modifiers: KeyModifiers { bits: modifiers as i8 },
                    key: vk,
                    flags: KeyFlags { bits: 0 },
                },
            ),
        ),
{
    let b = key_event_packet(vk, modifiers, is_down);
    assert(hi(vk) as nat * 256 + lo(vk) as nat == vk as nat);
    assert(be_u16(b, 3) == vk);
    assert(0 <= modifiers as i8 <= 15);
}

/// The Qt modifier mask maps to protocol bits that the agent accepts.
pub proof fn lemma_qt_modifiers_valid(mask: i32)
    ensures
        spec_qt_modifiers(mask) <= 15,
{
}

/// What the client sends for relative motion, the agent reads back as the same
/// motion (each delta truncated to 16 bits) with no timestamp.
pub proof fn law_relative_move_round_trip(dx: i32, dy: i32)
    ensures
        decodes_to(
            6,
            relative_packet(dx as int, dy as int),
            Some(InboundPacket::MouseMove { delta_x: dx as i16, delta_y: dy as i16, timestamp: 0 }),
        ),
{
    let b = relative_packet(dx as int, dy as int);
    lemma_be16_at(seq![0u8], dx, be16_bytes(dy as int));
    lemma_be16_at(seq![0u8] + be16_bytes(dx as int), dy, Seq::empty());
    assert(b =~= seq![0u8] + be16_bytes(dx as int) + be16_bytes(dy as int));
    assert(b =~= seq![0u8] + be16_bytes(dx as int) + be16_bytes(dy as int) + Seq::<u8>::empty());
}

/// What the client sends for an absolute position, the agent reads back as
/// the same position and reference size (each truncated to 16 bits) with no
/// timestamp.
pub proof fn law_absolute_move_round_trip(x: i32, y: i32, width: i32, height: i32)
    ensures
        decodes_to(
            5,
            absolute_packet(x as int, y as int, width as int, height as int),
            Some(
                InboundPacket::MousePosition {
                    x: x as i16,
                    y: y as i16,
                    reference_width: width as i16,
                    reference_height: height as i16,
                    timestamp: 0,
                },
            ),
        ),
{
    let b = absolute_packet(x as int, y as int, width as int, height as int);
    let p1 = seq![1u8];
    let bx = be16_bytes(x as int);
    let by = be16_bytes(y as int);
    let bw = be16_bytes(width as int);
    let bh = be16_bytes(height as int);
    lemma_be16_at(p1, x, by + bw + bh);
    lemma_be16_at(p1 + bx, y, bw + bh);
    lemma_be16_at(p1 + bx + by, width, bh);
    lemma_be16_at(p1 + bx + by + bw, height, Seq::empty());
    assert(b =~= p1 + bx + (by + bw + bh));
    assert(b =~= p1 + bx + by + (bw + bh));
    assert(b =~= p1 + bx + by + bw + bh);
    assert(b =~= p1 + bx + by + bw + bh + Seq::<u8>::empty());
}

/// What the client sends for a button numbered 1 to 5, the agent reads back
/// as that button, pressed for down.
pub proof fn law_button_round_trip(button: int, is_down: bool)
    requires
        1 <= button <= 5,
    ensures
        decodes_to(
            6,
            button_packet(button, is_down),
            Some(
                InboundPacket::MouseButton {
                    action: if is_down {
                        MouseButtonAction::Press
                    } else {
                        MouseButtonAction::Release
                    },
                    button: spec_mouse_button_from_u8(button as u8)->0,
                },
            ),
        ),
{
}

/// What the client sends for the wheel, the agent reads back as a vertical
/// scroll of the same number of notches (truncated to a signed byte).
pub proof fn law_wheel_round_trip(delta: int)
    ensures
        decodes_to(
            6,
            wheel_packet(delta),
            Some(
                InboundPacket::Scroll {
                    delta_x: 0,
                    delta_y: div_toward_zero(delta, 120) as i8,
                },
            ),
        ),
{
    let v = div_toward_zero(delta, 120) as i8;
    assert(((v as u8) as i8) == v) by (bit_vector);
}

} // verus!

verus! {

/// A relative-mouse packet: type 0 with its motion, or another type.
pub open spec fn is_motion(p: Seq<u8>) -> bool {
    p.len() > 0 && p[0] == 0
}

/// A packet the relative channel carries: not empty, and a motion packet
/// holds its two 16-bit deltas.
pub open spec fn relative_channel_packet(p: Seq<u8>) -> bool {
    p.len() > 0 && (p[0] == 0 ==> p.len() >= 5)
}

/// Relative-mouse packets waiting to be sent, merged: the motion of a run of
/// motion packets is summed (wrapping at 16 bits) until a packet of another
/// kind arrives, which ends the run.
pub struct RelativeBatch {
    pub dx: i16,
    pub dy: i16,
    pub has_motion: bool,
    /// The packet of another kind that ended the run.
    pub other: Option<Vec<u8>>,
}

impl RelativeBatch {
    /// A batch holding one packet.
    pub fn start(first: Vec<u8>) -> (b: RelativeBatch)
        requires
            relative_channel_packet(first@),
        ensures
            is_motion(first@) ==> b.dx == be_i16(first@, 1) && b.dy == be_i16(first@, 3)
                && b.has_motion && b.other is None,
            !is_motion(first@) ==> b.dx == 0 && b.dy == 0 && !b.has_motion && b.other == Some(
                first,
            ),
    {
        let mut b = RelativeBatch { dx: 0, dy: 0, has_motion: false, other: None };
        b.add(first);
        b
    }

    /// Whether the batch takes more packets: until one of another kind.
    pub fn wants_more(&self) -> (res: bool)
        ensures
            res == self.other is None,
    {
        self.other.is_none()
    }

    /// Adds the next waiting packet.
    pub fn add(&mut self, p: Vec<u8>)
        requires
            old(self).other is None,
            relative_channel_packet(p@),
        ensures
            is_motion(p@) ==> final(self).dx == old(self).dx.wrapping_add(be_i16(p@, 1)),
            is_motion(p@) ==> final(self).dy == old(self).dy.wrapping_add(be_i16(p@, 3)),
            is_motion(p@) ==> final(self).has_motion && final(self).other is None,
            !is_motion(p@) ==> final(self).dx == old(self).dx && final(self).dy == old(self).dy
                && final(self).has_motion == old(self).has_motion && final(self).other == Some(p),
    {
        if p[0] == 0 {
            let ddx = crate::protocol::read_i16(p.as_slice(), 1);
            let ddy = crate::protocol::read_i16(p.as_slice(), 3);
            self.dx = self.dx.wrapping_add(ddx);
            self.dy = self.dy.wrapping_add(ddy);
            self.has_motion = true;
        } else {
            self.other = Some(p);
        }
    }

    /// The packets to send, in order: the summed motion when there is some
    /// (and it is not zero), then the packet that ended the run.
    pub fn finish(self) -> (res: Vec<Vec<u8>>)
        ensures
            res@.len() == (if self.has_motion && (self.dx != 0 || self.dy != 0) {
                1int
            } else {
                0int
            }) + (if self.other is Some {
                1int
            } else {
                0int
            }),
            self.has_motion && (self.dx != 0 || self.dy != 0) ==> res@[0]@ == relative_packet(
                self.dx as int,
                self.dy as int,
            ),
            self.other matches Some(o) ==> res@.last() == o,
    {
        let mut out: Vec<Vec<u8>> = Vec::new();
        if self.has_motion && (self.dx != 0 || self.dy != 0) {
            let mut buf: Vec<u8> = Vec::new();
            buf.push(0);
            push_be16(&mut buf, self.dx as u16);
            push_be16(&mut buf, self.dy as u16);
            assert(buf@ =~= relative_packet(self.dx as int, self.dy as int));
            out.push(buf);
        }
        match self.other {
            Some(o) => {
                out.push(o);
            },
            None => {},
        }
        out
    }
}

/// A datagram on the WebTransport connection: the channel's number, then
/// the packet.
pub fn transport_datagram(channel: u8, packet: &[u8]) -> (res: Vec<u8>)
    ensures
        res@ == seq![channel] + packet@,
{
    let mut v: Vec<u8> = Vec::new();
    v.push(channel);
    let mut i: usize = 0;
    while i < packet.len()
        invariant
            i <= packet@.len(),
            v@ == seq![channel] + packet@.subrange(0, i as int),
        decreases packet@.len() - i,
    {
        v.push(packet[i]);
        i = i + 1;
        assert(v@ =~= seq![channel] + packet@.subrange(0, i as int));
    }
    assert(packet@.subrange(0, packet@.len() as int) =~= packet@);
    v
}

/// When the relative channel's queue is read again: the first time, and then
/// once 100 ms or more have passed; between reads the last answer stands
/// (sending is allowed until the first read).
pub struct QueueCheck {
    pub last_read_ms: Option<u64>,
    pub last_ok: bool,
}

impl QueueCheck {
    /// Nothing read yet.
    pub fn new() -> (q: QueueCheck)
        ensures
            q.last_read_ms is None,
            q.last_ok,
    {
        QueueCheck { last_read_ms: None, last_ok: true }
    }

    /// Whether the queue is to be read now; the time is then remembered.
    pub fn read_due(&mut self, now_ms: u64) -> (due: bool)
        ensures
            due == match old(self).last_read_ms {
                None => true,
                Some(t) => now_ms >= t && now_ms - t >= 100,
            },
            final(self).last_read_ms == (if due {
                Some(now_ms)
            } else {
                old(self).last_read_ms
            }),
            final(self).last_ok == old(self).last_ok,
    {
        let due = match self.last_read_ms {
            None => true,
            Some(t) => now_ms >= t && now_ms - t >= 100,
        };
        if due {
            self.last_read_ms = Some(now_ms);
        }
        due
    }

    /// Records what a read found: whether the buffered amount is under the
    /// queue limit (see `mouse_send_allowed`); gives that answer.
    pub fn record(&mut self, buffered_amount: usize, mouse_queue_limit: u32) -> (ok: bool)
        ensures
            ok == (buffered_amount < (if mouse_queue_limit < 10240 {
                65536
            } else {
                mouse_queue_limit as int
            })),
            final(self).last_ok == ok,
            final(self).last_read_ms == old(self).last_read_ms,
    {
        let ok = mouse_send_allowed(buffered_amount, mouse_queue_limit);
        self.last_ok = ok;
        ok
    }
}


/// Qt's named keys map to their Windows virtual-key codes: Backspace 8,
/// Tab 9, Return and Enter 13, Shift 16, Control 17, Alt 18, Pause 19,
/// CapsLock 20, Escape 27, PageUp 33, PageDown 34, End 35, Home 36, Left 37,
/// Up 38, Right 39, Down 40, Print 44, Insert 45, Delete 46, Meta 91; F1 to
/// F12 map to 112 to 123 in order, and printable ASCII keeps its code.
pub proof fn law_qt_key_table(key: i32)
    ensures
        spec_qt_key_to_vk(0x01000003) == 8,
        spec_qt_key_to_vk(0x01000001) == 9,
        spec_qt_key_to_vk(0x01000004) == 13,
        spec_qt_key_to_vk(0x01000005) == 13,
        spec_qt_key_to_vk(0x01000020) == 16,
        spec_qt_key_to_vk(0x01000021) == 17,
        spec_qt_key_to_vk(0x01000023) == 18,
        spec_qt_key_to_vk(0x01000008) == 19,
        spec_qt_key_to_vk(0x01000024) == 20,
        spec_qt_key_to_vk(0x01000000) == 27,
        spec_qt_key_to_vk(0x01000016) == 33,
        spec_qt_key_to_vk(0x01000017) == 34,
        spec_qt_key_to_vk(0x01000011) == 35,
        spec_qt_key_to_vk(0x01000010) == 36,
        spec_qt_key_to_vk(0x01000012) == 37,
        spec_qt_key_to_vk(0x01000013) == 38,
        spec_qt_key_to_vk(0x01000014) == 39,
        spec_qt_key_to_vk(0x01000015) == 40,
        spec_qt_key_to_vk(0x01000009) == 44,
        spec_qt_key_to_vk(0x01000006) == 45,
        spec_qt_key_to_vk(0x01000007) == 46,
        spec_qt_key_to_vk(0x01000022) == 91,
        0x01000030 <= key <= 0x0100003b ==> spec_qt_key_to_vk(key) == key - 0x01000030 + 112,
        0x20 <= key <= 0x7e ==> spec_qt_key_to_vk(key) == key,
{
}

} // verus!
