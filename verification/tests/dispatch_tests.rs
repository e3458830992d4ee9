use lunaris::dispatch::{
    coalesce_mouse_input, handle_inbound_packet, process_mouse_input_batch, route_packet,
    InjectorAction, PacketRoute, QueuedInput,
};
use lunaris::protocol::{InboundPacket, KeyAction, KeyFlags, KeyModifiers, MouseButton, MouseButtonAction};

fn mv(dx: i16, dy: i16, ts: u32, source: u64) -> QueuedInput {
    QueuedInput { packet: InboundPacket::MouseMove { delta_x: dx, delta_y: dy, timestamp: ts }, source }
}

fn pos(x: i16, source: u64) -> QueuedInput {
    QueuedInput {
        packet: InboundPacket::MousePosition { x, y: 0, reference_width: 10, reference_height: 10, timestamp: 0 },
        source,
    }
}

#[test]
fn moves_from_one_channel_add_up_with_clamping() {
    assert_eq!(coalesce_mouse_input(mv(3, 4, 10, 1), mv(5, -6, 0, 1)), Ok(mv(8, -2, 10, 1)));
    assert_eq!(coalesce_mouse_input(mv(30000, 0, 1, 1), mv(30000, -1, 2, 1)), Ok(mv(32767, -1, 2, 1)));
    assert_eq!(coalesce_mouse_input(mv(1, 1, 1, 1), mv(1, 1, 1, 2)), Err((mv(1, 1, 1, 1), mv(1, 1, 1, 2))));
    assert_eq!(coalesce_mouse_input(pos(1, 1), pos(2, 1)), Ok(pos(2, 1)));
    assert_eq!(coalesce_mouse_input(pos(1, 1), mv(2, 2, 0, 1)), Err((pos(1, 1), mv(2, 2, 0, 1))));
}

#[test]
fn batch_keeps_non_motion_packets_in_order() {
    let key = QueuedInput {
        packet: InboundPacket::Key {
            action: KeyAction::Down,
            modifiers: KeyModifiers::empty(),
            key: 65,
            flags: KeyFlags::empty(),
        },
        source: 7,
    };
    let out = process_mouse_input_batch(mv(1, 1, 0, 1), vec![mv(2, 2, 0, 1), key.clone(), mv(1, 0, 0, 1), mv(1, 0, 5, 1)]);
    assert_eq!(out, vec![mv(3, 3, 0, 1), key, mv(2, 0, 5, 1)]);
    assert_eq!(process_mouse_input_batch(pos(1, 1), vec![]), vec![pos(1, 1)]);
}

#[test]
fn packets_become_injector_calls() {
    let p = InboundPacket::MousePosition { x: 5, y: 6, reference_width: 100, reference_height: 50, timestamp: 10 };
    let (ts, acts) = handle_inbound_packet(&p, 0);
    assert_eq!(ts, 10);
    assert_eq!(acts, vec![InjectorAction::MoveAbsolute { x: 5, y: 6, reference_width: 100, reference_height: 50 }]);
    let (ts, acts) = handle_inbound_packet(&p, 20);
    assert_eq!((ts, acts.len()), (20, 0));
    let (ts, acts) = handle_inbound_packet(&p, u32::MAX);
    assert_eq!((ts, acts.len()), (10, 1));

    let (_, acts) = handle_inbound_packet(&InboundPacket::MouseButton { action: MouseButtonAction::Release, button: MouseButton::X2 }, 0);
    assert_eq!(acts, vec![InjectorAction::MouseButton { button: 9, press: false }]);

    let (_, acts) = handle_inbound_packet(&InboundPacket::Scroll { delta_x: -1, delta_y: 2 }, 0);
    assert_eq!(acts, vec![
        InjectorAction::MouseButton { button: 4, press: true },
        InjectorAction::MouseButton { button: 4, press: false },
        InjectorAction::MouseButton { button: 4, press: true },
        InjectorAction::MouseButton { button: 4, press: false },
        InjectorAction::MouseButton { button: 6, press: true },
        InjectorAction::MouseButton { button: 6, press: false },
    ]);

    let (_, acts) = handle_inbound_packet(&InboundPacket::HighResScroll { delta_x: 0, delta_y: -121 }, 0);
    assert_eq!(acts.len(), 4);
    assert_eq!(acts[0], InjectorAction::MouseButton { button: 5, press: true });

    let key = InboundPacket::Key { action: KeyAction::Down, modifiers: KeyModifiers::from_bits(7).unwrap(), key: 78, flags: KeyFlags::empty() };
    let (_, acts) = handle_inbound_packet(&key, 0);
    assert_eq!(acts, vec![InjectorAction::ToggleHostCursor, InjectorAction::Key { key: 78, press: true }]);
}

#[test]
fn pipeline_commands_bypass_the_input_queue() {
    let b = InboundPacket::SetBitrate { kbps: 5000 };
    assert_eq!(route_packet(&b, true, true), PacketRoute::PipelineBitrate(5000));
    assert_eq!(route_packet(&b, false, true), PacketRoute::Input);
    assert_eq!(route_packet(&InboundPacket::SetFps { fps: 30 }, true, false), PacketRoute::PipelineFps(30));
    assert_eq!(route_packet(&InboundPacket::GeneralStop, true, false), PacketRoute::Drop);
}
