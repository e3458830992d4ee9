//! What the host agent does with decoded input packets: coalescing queued
//! mouse motion, and turning each packet into input-injection actions.

use crate::protocol::{InboundPacket, KeyAction, MouseButton, MouseButtonAction, KeyModifiers};
use vstd::prelude::*;

verus! {

/// A decoded packet waiting in the agent's input queue, with the data channel
/// it arrived on.
#[derive(Debug, Clone, PartialEq)]
pub struct QueuedInput {
    pub packet: InboundPacket,
    pub source: u64,
}

/// `v` clamped to the `i16` range.
pub open spec fn clamp_i16(v: int) -> i16 {
    if v < i16::MIN {
        i16::MIN
    } else if v > i16::MAX {
        i16::MAX
    } else {
        v as i16
    }
}

/// Two queued packets merged into one, or given back unchanged: consecutive
/// absolute positions from the same channel keep the later one; consecutive
/// relative moves from the same channel add up (clamped to `i16`) and keep
/// the later timestamp unless it is zero.
pub open spec fn spec_coalesce(current: QueuedInput, next: QueuedInput) -> Result<
    QueuedInput,
    (QueuedInput, QueuedInput),
> {
    if current.source == next.source {
        match (current.packet, next.packet) {
            (InboundPacket::MousePosition { .. }, InboundPacket::MousePosition { .. }) => Ok(next),
            (
                InboundPacket::MouseMove { delta_x: ax, delta_y: ay, timestamp: at },
                InboundPacket::MouseMove { delta_x: bx, delta_y: by, timestamp: bt },
            ) => Ok(
                QueuedInput {
                    packet: InboundPacket::MouseMove {
                        delta_x: clamp_i16(ax + bx),
                        delta_y: clamp_i16(ay + by),
                        timestamp: if bt != 0 {
                            bt
                        } else {
                            at
                        },
                    },
                    source: next.source,
                },
            ),
            _ => Err((current, next)),
        }
    } else {
        Err((current, next))
    }
}

fn clamp_sum(a: i16, b: i16) -> (res: i16)
    ensures
        res == clamp_i16(a + b),
{
    let s = a as i32 + b as i32;
    if s < i16::MIN as i32 {
        i16::MIN
    } else if s > i16::MAX as i32 {
        i16::MAX
    } else {
        s as i16
    }
}

/// Merges `next` into `current` when both are mouse motion of the same kind
/// from the same channel; otherwise gives both back.
pub fn coalesce_mouse_input(current: QueuedInput, next: QueuedInput) -> (res: Result<
    QueuedInput,
    (QueuedInput, QueuedInput),
>)
    ensures
        res == spec_coalesce(current, next),
{
    if current.source != next.source {
        return Err((current, next));
    }
    let same_kind = match (&current.packet, &next.packet) {
        (InboundPacket::MousePosition { .. }, InboundPacket::MousePosition { .. }) => 1u8,
        (InboundPacket::MouseMove { .. }, InboundPacket::MouseMove { .. }) => 2u8,
        _ => 0u8,
    };
    if same_kind == 1 {
        return Ok(next);
    }
    if same_kind == 2 {
        match (&current.packet, &next.packet) {
            (
                InboundPacket::MouseMove { delta_x: ax, delta_y: ay, timestamp: at },
                InboundPacket::MouseMove { delta_x: bx, delta_y: by, timestamp: bt },
            ) => {
                let delta_x = clamp_sum(*ax, *bx);
                let delta_y = clamp_sum(*ay, *by);
                let timestamp = if *bt != 0 {
                    *bt
                } else {
                    *at
                };
                return Ok(
                    QueuedInput {
                        packet: InboundPacket::MouseMove { delta_x, delta_y, timestamp },
                        source: next.source,
                    },
                );
            },
            _ => {},
        }
    }
    Err((current, next))
}

/// The packets handled for a batch drained from the queue, in order: starting
/// from `pending`, each next packet is merged into the pending one when it
/// can be; otherwise the pending one is handled and the next one waits.
pub open spec fn spec_coalesce_batch(pending: QueuedInput, rest: Seq<QueuedInput>) -> Seq<QueuedInput>
    decreases rest.len(),
{
    if rest.len() == 0 {
        seq![pending]
    } else {
        match spec_coalesce(pending, rest[0]) {
            Ok(merged) => spec_coalesce_batch(merged, rest.drop_first()),
            Err((done, waiting)) => seq![done] + spec_coalesce_batch(waiting, rest.drop_first()),
        }
    }
}

/// The packets to handle for the queued batch `first` followed by `rest`.
pub fn process_mouse_input_batch(first: QueuedInput, rest: Vec<QueuedInput>) -> (res: Vec<QueuedInput>)
    ensures
        res@ == spec_coalesce_batch(first, rest@),
        res@.len() <= rest@.len() + 1,
{
    let mut handled: Vec<QueuedInput> = Vec::new();
    let mut pending = first;
    let ghost all = rest@;
    let mut source = rest;
    let mut rest: Vec<QueuedInput> = Vec::new();
    while source.len() > 0
        invariant
            source@.len() + rest@.len() == all.len(),
            source@ == all.subrange(0, source@.len() as int),
            forall|k: int| 0 <= k < rest@.len() ==> rest@[k] == all[all.len() - 1 - k],
        decreases source@.len(),
    {
        let x = source.pop().unwrap();
        rest.push(x);
        assert(source@ =~= all.subrange(0, source@.len() as int));
    }
    proof {
        lemma_coalesce_batch_len(first, all);
    }
    assert(all.subrange(all.len() - rest@.len(), all.len() as int) =~= all);
    assert(handled@ + spec_coalesce_batch(pending, all) =~= spec_coalesce_batch(pending, all));
    while rest.len() > 0
        invariant
            rest@.len() <= all.len(),
            forall|k: int| 0 <= k < rest@.len() ==> rest@[k] == all[all.len() - 1 - k],
            handled@ + spec_coalesce_batch(pending, all.subrange(all.len() - rest@.len(), all.len() as int))
                == spec_coalesce_batch(first, all),
        decreases rest@.len(),
    {
        let ghost before = rest@;
        let next = rest.pop().unwrap();
        let ghost tail = all.subrange(all.len() - before.len(), all.len() as int);
        assert(next == tail[0]);
        assert(tail.drop_first() =~= all.subrange(all.len() - rest@.len(), all.len() as int));
        match coalesce_mouse_input(pending, next) {
            Ok(merged) => {
                pending = merged;
            },
            Err((done, waiting)) => {
                let ghost h = handled@;
                handled.push(done);
                pending = waiting;
                assert(handled@ + spec_coalesce_batch(pending, tail.drop_first()) =~= h + (seq![done]
                    + spec_coalesce_batch(pending, tail.drop_first())));
            },
        }
    }
    assert(all.subrange(all.len() as int, all.len() as int) =~= Seq::<QueuedInput>::empty());
    let ghost h = handled@;
    handled.push(pending);
    assert(handled@ =~= h + seq![pending]);
    handled
}

proof fn lemma_coalesce_batch_len(pending: QueuedInput, rest: Seq<QueuedInput>)
    ensures
        spec_coalesce_batch(pending, rest).len() <= rest.len() + 1,
        spec_coalesce_batch(pending, rest).len() >= 1,
    decreases rest.len(),
{
    if rest.len() > 0 {
        match spec_coalesce(pending, rest[0]) {
            Ok(merged) => lemma_coalesce_batch_len(merged, rest.drop_first()),
            Err((done, waiting)) => lemma_coalesce_batch_len(waiting, rest.drop_first()),
        }
    }
}

} // verus!

verus! {

/// One call on the host's input injector.
#[derive(Debug, Clone, Copy, PartialEq, Eq, Structural)]
pub enum InjectorAction {
    /// Move the pointer to (x, y) within a reference area of the given size.
    MoveAbsolute { x: i32, y: i32, reference_width: i32, reference_height: i32 },
    /// Move the pointer by (dx, dy).
    MoveRelative { dx: i32, dy: i32 },
    /// Press or release an X11 mouse button (4/5 scroll up/down, 6/7 left/right).
    MouseButton { button: u8, press: bool },
    /// Press or release a key by its virtual-key code.
    Key { key: u16, press: bool },
    /// Toggle hiding of the host cursor (Ctrl+Alt+Shift+N).
    ToggleHostCursor,
}

/// `n` clicks (press then release) of X11 button `button`.
pub open spec fn clicks(button: u8, n: nat) -> Seq<InjectorAction>
    decreases n,
{
    if n == 0 {
        Seq::empty()
    } else {
        clicks(button, (n - 1) as nat) + seq![
            InjectorAction::MouseButton { button, press: true },
            InjectorAction::MouseButton { button, press: false },
        ]
    }
}

/// Clicks of `up` for a positive count, of `down` for a negative one.
pub open spec fn scroll_clicks(count: int, up: u8, down: u8) -> Seq<InjectorAction> {
    if count > 0 {
        clicks(up, count as nat)
    } else if count < 0 {
        clicks(down, (-count) as nat)
    } else {
        Seq::empty()
    }
}

/// Whole wheel notches in a high-resolution delta (120 units a notch),
/// rounded away from zero.
pub open spec fn notches(delta: int) -> int {
    if delta > 0 {
        (delta + 119) / 120
    } else {
        -((-delta + 119) / 120)
    }
}

/// The X11 button number of a protocol mouse button.
pub open spec fn x11_button(b: MouseButton) -> u8 {
    match b {
        MouseButton::Left => 1,
        MouseButton::Middle => 2,
        MouseButton::Right => 3,
        MouseButton::X1 => 8,
        MouseButton::X2 => 9,
    }
}

/// Whether the agent can handle the packet without overflowing its
/// arithmetic: scroll deltas exclude the most negative value, and
/// high-resolution deltas stay within 32648 of zero.
pub open spec fn handleable(packet: InboundPacket) -> bool {
    match packet {
        InboundPacket::Scroll { delta_x, delta_y } => delta_x != i8::MIN && delta_y != i8::MIN,
        InboundPacket::HighResScroll { delta_x, delta_y } => -32648 <= delta_x <= 32648 && -32648
            <= delta_y <= 32648,
        _ => true,
    }
}

/// The channel's last accepted absolute-position timestamp after a packet,
/// and the injector calls the packet makes. An absolute position older than
/// the last accepted one (by wrapping 32-bit distance) is dropped.
pub open spec fn spec_handle(packet: InboundPacket, last_timestamp: u32) -> (u32, Seq<InjectorAction>) {
    match packet {
        InboundPacket::MousePosition { x, y, reference_width, reference_height, timestamp } => {
            if last_timestamp == 0 || (timestamp - last_timestamp) % 0x1_0000_0000 < 0x8000_0000 {
                (
                    timestamp,
                    seq![
                        InjectorAction::MoveAbsolute {
                            x: x as i32,
                            y: y as i32,
                            reference_width: reference_width as i32,
                            reference_height: reference_height as i32,
                        },
                    ],
                )
            } else {
                (last_timestamp, Seq::empty())
            }
        },
        InboundPacket::MouseMove { delta_x, delta_y, .. } => (
            last_timestamp,
            seq![InjectorAction::MoveRelative { dx: delta_x as i32, dy: delta_y as i32 }],
        ),
        InboundPacket::MouseButton { action, button } => (
            last_timestamp,
            seq![
                InjectorAction::MouseButton {
                    button: x11_button(button),
                    press: action == MouseButtonAction::Press,
                },
            ],
        ),
        InboundPacket::Scroll { delta_x, delta_y } => (
            last_timestamp,
            scroll_clicks(delta_y as int, 4, 5) + scroll_clicks(delta_x as int, 7, 6),
        ),
        InboundPacket::HighResScroll { delta_x, delta_y } => (
            last_timestamp,
            scroll_clicks(notches(delta_y as int), 4, 5) + scroll_clicks(
                notches(delta_x as int),
                7,
                6,
            ),
        ),
        InboundPacket::Key { action, modifiers, key, .. } => {
            let press = action == KeyAction::Down;
            let key_action = seq![InjectorAction::Key { key, press }];
            if key == 78 && modifiers.bits == 7 && press {
                (last_timestamp, seq![InjectorAction::ToggleHostCursor] + key_action)
            } else {
                (last_timestamp, key_action)
            }
        },
        _ => (last_timestamp, Seq::empty()),
    }
}

/// Appends `n` clicks of `button` to `out`.
fn push_clicks(out: &mut Vec<InjectorAction>, button: u8, n: u16)
    ensures
        final(out)@ == old(out)@ + clicks(button, n as nat),
{
    let ghost start = out@;
    let mut i: u16 = 0;
    while i < n
        invariant
            i <= n,
            out@ == start + clicks(button, i as nat),
        decreases n - i,
    {
        out.push(InjectorAction::MouseButton { button, press: true });
        out.push(InjectorAction::MouseButton { button, press: false });
        i = i + 1;
        assert(out@ =~= start + clicks(button, i as nat));
    }
}

/// Appends the clicks for a scroll count.
fn push_scroll(out: &mut Vec<InjectorAction>, count: i16, up: u8, down: u8)
    requires
        count != i16::MIN,
    ensures
        final(out)@ == old(out)@ + scroll_clicks(count as int, up, down),
{
    if count > 0 {
        push_clicks(out, up, count as u16);
    } else if count < 0 {
        push_clicks(out, down, (-count) as u16);
    } else {
        assert(old(out)@ + scroll_clicks(count as int, up, down) =~= old(out)@);
    }
}

fn high_res_notches(delta: i16) -> (res: i16)
    requires
        -32648 <= delta <= 32648,
    ensures
        res as int == notches(delta as int),
        -273 <= res <= 273,
{
    if delta > 0 {
        (delta + 119) / 120
    } else {
        -((-delta + 119) / 120)
    }
}

/// The timestamp to keep and the injector calls to make for a packet.
pub fn handle_inbound_packet(packet: &InboundPacket, last_timestamp: u32) -> (res: (u32, Vec<InjectorAction>))
    requires
        handleable(*packet),
    ensures
        res.0 == spec_handle(*packet, last_timestamp).0,
        res.1@ == spec_handle(*packet, last_timestamp).1,
{
    let mut actions: Vec<InjectorAction> = Vec::new();
    match packet {
        InboundPacket::MousePosition { x, y, reference_width, reference_height, timestamp } => {
            let distance = timestamp.wrapping_sub(last_timestamp);
            if last_timestamp == 0 || distance < 0x8000_0000 {
                actions.push(
                    InjectorAction::MoveAbsolute {
                        x: *x as i32,
                        y: *y as i32,
                        reference_width: *reference_width as i32,
                        reference_height: *reference_height as i32,
                    },
                );
                return (*timestamp, actions);
            }
            (last_timestamp, actions)
        },
        InboundPacket::MouseMove { delta_x, delta_y, .. } => {
            actions.push(InjectorAction::MoveRelative { dx: *delta_x as i32, dy: *delta_y as i32 });
            (last_timestamp, actions)
        },
        InboundPacket::MouseButton { action, button } => {
            let press = match action {
                MouseButtonAction::Press => true,
                MouseButtonAction::Release => false,
            };
            let x11 = match button {
                MouseButton::Left => 1,
                MouseButton::Middle => 2,
                MouseButton::Right => 3,
                MouseButton::X1 => 8,
                MouseButton::X2 => 9,
            };
            actions.push(InjectorAction::MouseButton { button: x11, press });
            (last_timestamp, actions)
        },
        InboundPacket::Scroll { delta_x, delta_y } => {
            push_scroll(&mut actions, *delta_y as i16, 4, 5);
            push_scroll(&mut actions, *delta_x as i16, 7, 6);
            (last_timestamp, actions)
        },
        InboundPacket::HighResScroll { delta_x, delta_y } => {
            let click_y = high_res_notches(*delta_y);
            let click_x = high_res_notches(*delta_x);
            push_scroll(&mut actions, click_y, 4, 5);
            push_scroll(&mut actions, click_x, 7, 6);
            (last_timestamp, actions)
        },
        InboundPacket::Key { action, key, modifiers, .. } => {
            let press = match action {
                KeyAction::Down => true,
                KeyAction::Up => false,
            };
            if *key == 78 && modifiers.bits() == 7 && press {
                actions.push(InjectorAction::ToggleHostCursor);
            }
            actions.push(InjectorAction::Key { key: *key, press });
            (last_timestamp, actions)
        },
        _ => (last_timestamp, actions),
    }
}

} // verus!

verus! {

/// Where a decoded packet goes.
#[derive(Debug, Clone, Copy, PartialEq, Eq, Structural)]
pub enum PacketRoute {
    /// Change the running encoder's bitrate (kbps).
    PipelineBitrate(u32),
    /// Change the running encoder's frame rate.
    PipelineFps(u32),
    /// Queue for input injection.
    Input,
    /// Nothing takes it.
    Drop,
}

/// Routes a decoded data-channel packet: with a media pipeline, bitrate and
/// frame-rate changes go to the pipeline and nowhere else; every other packet
/// goes to the input queue when there is one.
pub fn route_packet(packet: &InboundPacket, has_pipeline: bool, has_input: bool) -> (res: PacketRoute)
    ensures
        res == (if has_pipeline && packet is SetBitrate {
            PacketRoute::PipelineBitrate(packet->kbps)
        } else if has_pipeline && packet is SetFps {
            PacketRoute::PipelineFps(packet->fps)
        } else if has_input {
            PacketRoute::Input
        } else {
            PacketRoute::Drop
        }),
{
    if has_pipeline {
        match packet {
            InboundPacket::SetBitrate { kbps } => {
                return PacketRoute::PipelineBitrate(*kbps);
            },
            InboundPacket::SetFps { fps } => {
                return PacketRoute::PipelineFps(*fps);
            },
            _ => {},
        }
    }
    if has_input {
        PacketRoute::Input
    } else {
        PacketRoute::Drop
    }
}


/// A mouse-button packet injects one press or release, as the packet's
/// action says, of the X11 button for its protocol button: Left 1, Middle 2,
/// Right 3, X1 8, X2 9. The channel's timestamp is kept.
pub proof fn law_button_injection(action: MouseButtonAction, button: MouseButton, last: u32)
    ensures
        ({
            let r = spec_handle(InboundPacket::MouseButton { action, button }, last);
            let press = action == MouseButtonAction::Press;
            &&& r.0 == last
            &&& r.1.len() == 1
            &&& button == MouseButton::Left ==> r.1[0] == InjectorAction::MouseButton { button: 1u8, press }
            &&& button == MouseButton::Middle ==> r.1[0] == InjectorAction::MouseButton { button: 2u8, press }
            &&& button == MouseButton::Right ==> r.1[0] == InjectorAction::MouseButton { button: 3u8, press }
            &&& button == MouseButton::X1 ==> r.1[0] == InjectorAction::MouseButton { button: 8u8, press }
            &&& button == MouseButton::X2 ==> r.1[0] == InjectorAction::MouseButton { button: 9u8, press }
        }),
{
}

} // verus!
