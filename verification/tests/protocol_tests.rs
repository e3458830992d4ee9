use lunaris::client_input::{transport_datagram, QueueCheck, RelativeBatch};
use lunaris::client_input::{
    handle_key_event, handle_mouse_click, handle_mouse_move, handle_mouse_wheel, map_qt_key_to_vk,
    mouse_send_allowed, MouseChannel,
};
use lunaris::protocol::{
    InboundPacket, KeyAction, KeyModifiers, MouseButton, MouseButtonAction, TouchEventType,
    TransportChannel,
};

fn general(text: &str) -> Vec<u8> {
    let mut v = vec![(text.len() >> 8) as u8, (text.len() & 0xff) as u8];
    v.extend_from_slice(text.as_bytes());
    v
}

#[test]
fn general_channel_commands() {
    let ch = TransportChannel(0);
    assert_eq!(
        InboundPacket::deserialize(ch, &general("{\"type\":\"stop\"}")),
        Some(InboundPacket::GeneralStop)
    );
    assert_eq!(
        InboundPacket::deserialize(ch, &general("Stop")),
        Some(InboundPacket::GeneralStop)
    );
    assert_eq!(
        InboundPacket::deserialize(ch, &general("{\"type\":\"set_bitrate\",\"value\":8000}")),
        Some(InboundPacket::SetBitrate { kbps: 8000 })
    );
    assert_eq!(
        InboundPacket::deserialize(ch, &general("{\"type\": \"set_fps\", \"value\":  120 }")),
        Some(InboundPacket::SetFps { fps: 120 })
    );
    assert_eq!(
        InboundPacket::deserialize(ch, &general("{\"type\":\"set_fps\",\"value\":99999999999}")),
        None
    );
    assert_eq!(
        InboundPacket::deserialize(ch, &general("{\"type\":\"other\",\"value\":5}")),
        None
    );
    // declared length longer than the payload
    assert_eq!(InboundPacket::deserialize(ch, &[0, 9, b'S']), None);
    // invalid UTF-8
    assert_eq!(InboundPacket::deserialize(ch, &[0, 2, 0xff, 0xfe]), None);
    assert_eq!(InboundPacket::deserialize(ch, &[0]), None);
}

#[test]
fn mouse_channel_packets() {
    let ch = TransportChannel(6);
    assert_eq!(
        InboundPacket::deserialize(ch, &[0, 0xff, 0xfe, 0x00, 0x05]),
        Some(InboundPacket::MouseMove { delta_x: -2, delta_y: 5, timestamp: 0 })
    );
    assert_eq!(
        InboundPacket::deserialize(ch, &[0, 0, 1, 0, 2, 0, 0, 1, 0]),
        Some(InboundPacket::MouseMove { delta_x: 1, delta_y: 2, timestamp: 256 })
    );
    assert_eq!(
        InboundPacket::deserialize(TransportChannel(5), &[1, 0, 10, 0, 20, 7, 128, 4, 56]),
        Some(InboundPacket::MousePosition {
            x: 10,
            y: 20,
            reference_width: 1920,
            reference_height: 1080,
            timestamp: 0
        })
    );
    assert_eq!(
        InboundPacket::deserialize(ch, &[2, 1, 3]),
        Some(InboundPacket::MouseButton {
            action: MouseButtonAction::Press,
            button: MouseButton::Right
        })
    );
    assert_eq!(InboundPacket::deserialize(ch, &[2, 1, 6]), None);
    assert_eq!(
        InboundPacket::deserialize(ch, &[3, 0, 120, 0xff, 0x88]),
        Some(InboundPacket::HighResScroll { delta_x: 120, delta_y: -120 })
    );
    assert_eq!(
        InboundPacket::deserialize(ch, &[4, 0xff, 2]),
        Some(InboundPacket::Scroll { delta_x: -1, delta_y: 2 })
    );
    assert_eq!(InboundPacket::deserialize(ch, &[9]), None);
    assert_eq!(InboundPacket::deserialize(ch, &[0, 1, 2]), None);
    assert_eq!(InboundPacket::deserialize(TransportChannel(3), &[0, 1, 2, 3, 4]), None);
}

#[test]
fn keyboard_and_touch_packets() {
    let kb = TransportChannel(7);
    assert_eq!(
        InboundPacket::deserialize(kb, &[0, 1, 3, 0, 65]),
        Some(InboundPacket::Key {
            action: KeyAction::Down,
            modifiers: KeyModifiers::from_bits(3).unwrap(),
            key: 65,
            flags: lunaris::protocol::KeyFlags::empty()
        })
    );
    assert_eq!(InboundPacket::deserialize(kb, &[0, 1, 0x10, 0, 65]), None);
    assert_eq!(
        InboundPacket::deserialize(kb, &[1, 2, b'h', b'i', b'!']),
        Some(InboundPacket::Text { text: "hi".to_string() })
    );
    assert_eq!(InboundPacket::deserialize(kb, &[1, 3, b'h', b'i']), None);
    let mut touch = vec![1u8, 0, 0, 0, 7];
    touch.extend_from_slice(&1.5f32.to_be_bytes());
    touch.extend_from_slice(&2.0f32.to_be_bytes());
    touch.extend_from_slice(&[0; 12]);
    touch.extend_from_slice(&[0, 90]);
    match InboundPacket::deserialize(TransportChannel(8), &touch) {
        Some(InboundPacket::Touch { pointer_id, x_bits, y_bits, rotation, event_type, .. }) => {
            assert_eq!(pointer_id, 7);
            assert_eq!(f32::from_bits(x_bits), 1.5);
            assert_eq!(f32::from_bits(y_bits), 2.0);
            assert_eq!(rotation, Some(90));
            assert_eq!(event_type, TouchEventType::Move);
        }
        other => panic!("unexpected {:?}", other),
    }
    touch[0] = 3;
    assert_eq!(InboundPacket::deserialize(TransportChannel(8), &touch), None);
    assert_eq!(InboundPacket::deserialize(TransportChannel(2), &[0]), Some(InboundPacket::RequestVideoIdr));
    assert_eq!(InboundPacket::deserialize(TransportChannel(2), &[1]), None);
}

#[test]
fn qt_keys_map_to_virtual_keys() {
    assert_eq!(map_qt_key_to_vk(0x41), 0x41);
    assert_eq!(map_qt_key_to_vk(0x01000003), 8);
    assert_eq!(map_qt_key_to_vk(0x01000005), 13);
    assert_eq!(map_qt_key_to_vk(0x01000030), 112);
    assert_eq!(map_qt_key_to_vk(0x0100003b), 123);
    assert_eq!(map_qt_key_to_vk(0x0100003c), 0);
    assert_eq!(map_qt_key_to_vk(0x1f), 0);
}

#[test]
fn client_packets_decode_back_to_the_same_event() {
    let key = handle_key_event(0x41, 0x02000000 | 0x08000000, true).unwrap();
    assert_eq!(key, vec![0, 1, 5, 0, 0x41]);
    assert_eq!(
        InboundPacket::deserialize(TransportChannel(7), &key),
        Some(InboundPacket::Key {
            action: KeyAction::Down,
            modifiers: KeyModifiers::from_bits(5).unwrap(),
            key: 0x41,
            flags: lunaris::protocol::KeyFlags::empty()
        })
    );
    assert_eq!(handle_key_event(0x0100003c, 0, true), None);

    let (ch, abs) = handle_mouse_move(100, -3, 1280, 720, 0, 0, false);
    assert_eq!(ch, MouseChannel::Absolute);
    assert_eq!(
        InboundPacket::deserialize(TransportChannel(5), &abs),
        Some(InboundPacket::MousePosition {
            x: 100,
            y: -3,
            reference_width: 1280,
            reference_height: 720,
            timestamp: 0
        })
    );
    let (ch, rel) = handle_mouse_move(0, 0, 0, 0, -7, 70000, true);
    assert_eq!(ch, MouseChannel::Relative);
    assert_eq!(
        InboundPacket::deserialize(TransportChannel(6), &rel),
        Some(InboundPacket::MouseMove { delta_x: -7, delta_y: 70000i32 as i16, timestamp: 0 })
    );
    assert_eq!(handle_mouse_click(0, true), None);
    assert_eq!(handle_mouse_click(2, false), Some(vec![2, 0, 2]));
    assert_eq!(handle_mouse_wheel(-250), vec![4, 0, 0xfe]);
    assert_eq!(handle_mouse_wheel(119), vec![4, 0, 0]);
    assert_eq!(
        InboundPacket::deserialize(TransportChannel(6), &handle_mouse_wheel(360)),
        Some(InboundPacket::Scroll { delta_x: 0, delta_y: 3 })
    );
}

#[test]
fn relative_channel_backpressure() {
    assert!(mouse_send_allowed(65535, 256));
    assert!(!mouse_send_allowed(65536, 256));
    assert!(mouse_send_allowed(20000, 20001));
    assert!(!mouse_send_allowed(20001, 20001));
}

#[test]
fn relative_motion_is_merged_until_another_packet() {
    let mut b = RelativeBatch::start(vec![0, 0, 5, 0xff, 0xfe]);
    assert!(b.wants_more());
    b.add(vec![0, 0x7f, 0xff, 0, 3]);
    assert_eq!((b.dx, b.dy), (i16::MIN + 4, 1));
    b.add(vec![2, 1, 1]);
    assert!(!b.wants_more());
    assert_eq!(b.finish(), vec![vec![0, 0x80, 0x04, 0, 1], vec![2, 1, 1]]);
    let mut zero = RelativeBatch::start(vec![0, 0, 1, 0, 0]);
    zero.add(vec![0, 0xff, 0xff, 0, 0]);
    assert_eq!(zero.finish(), Vec::<Vec<u8>>::new());
    assert_eq!(RelativeBatch::start(vec![4, 0, 1]).finish(), vec![vec![4, 0, 1]]);
    assert_eq!(transport_datagram(6, &[0, 1, 2]), vec![6, 0, 1, 2]);
    let mut q = QueueCheck::new();
    assert!(q.last_ok);
    assert!(q.read_due(1000));
    assert!(!q.read_due(1099));
    assert!(q.read_due(1100));
    assert!(!q.record(70000, 0));
    assert!(q.record(20000, 30000));
}
