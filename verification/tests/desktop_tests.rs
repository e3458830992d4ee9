use lunaris::launch::parse_desktop_args;
use lunaris::sdl_input::{handle_sdl_event, map_keycode_to_vk, InputChannel, SdlInput, SdlMouseButton};

fn strings(v: &[&str]) -> Vec<String> {
    v.iter().map(|s| s.to_string()).collect()
}

#[test]
fn sdl_key_codes() {
    assert_eq!(map_keycode_to_vk('a' as i32), 65);
    assert_eq!(map_keycode_to_vk('z' as i32), 90);
    assert_eq!(map_keycode_to_vk('7' as i32), 55);
    assert_eq!(map_keycode_to_vk(13), 13);
    assert_eq!(map_keycode_to_vk(127), 46);
    assert_eq!(map_keycode_to_vk(0x4000_003A), 112); // F1
    assert_eq!(map_keycode_to_vk(0x4000_0045), 123); // F12
    assert_eq!(map_keycode_to_vk(0x4000_0059), 97); // keypad 1
    assert_eq!(map_keycode_to_vk(0x4000_0062), 96); // keypad 0
    assert_eq!(map_keycode_to_vk(0x4000_00E5), 16); // right shift
    assert_eq!(map_keycode_to_vk(0x4000_0052), 38); // up
    assert_eq!(map_keycode_to_vk('\'' as i32), 222);
    assert_eq!(map_keycode_to_vk(0x4000_0058), 0); // keypad enter
}

#[test]
fn sdl_events_become_packets() {
    let key = handle_sdl_event(SdlInput::KeyDown { keycode: Some('c' as i32), keymod: 0x0040 | 0x0002 }, 800, 600, false);
    assert_eq!(key, vec![(InputChannel::Keyboard, vec![0, 1, 3, 0, 67])]);
    let up = handle_sdl_event(SdlInput::KeyUp { keycode: Some(0x4000_00E7), keymod: 0x0800 }, 800, 600, false);
    assert_eq!(up, vec![(InputChannel::Keyboard, vec![0, 0, 8, 0, 92])]);
    assert!(handle_sdl_event(SdlInput::KeyDown { keycode: None, keymod: 0 }, 800, 600, false).is_empty());
    let abs = handle_sdl_event(SdlInput::MouseMotion { x: 300, y: -2, xrel: 1, yrel: 1 }, 800, 600, false);
    assert_eq!(abs, vec![(InputChannel::MouseAbsolute, vec![1, 1, 44, 0xff, 0xfe, 3, 32, 2, 88])]);
    let rel = handle_sdl_event(SdlInput::MouseMotion { x: 0, y: 0, xrel: -1, yrel: 2 }, 800, 600, true);
    assert_eq!(rel, vec![(InputChannel::MouseRelative, vec![0, 0xff, 0xff, 0, 2])]);
    let btn = handle_sdl_event(SdlInput::MouseButtonUp { button: SdlMouseButton::X2 }, 800, 600, true);
    assert_eq!(btn, vec![(InputChannel::MouseRelative, vec![2, 0, 5])]);
    assert!(handle_sdl_event(SdlInput::MouseButtonDown { button: SdlMouseButton::Unknown }, 1, 1, true).is_empty());
    let wheel = handle_sdl_event(SdlInput::MouseWheel { x: 0, y: -1 }, 1, 1, false);
    assert_eq!(wheel, vec![(InputChannel::MouseRelative, vec![4, 0, 0xff])]);
}

#[test]
fn desktop_arguments() {
    let a = parse_desktop_args(&strings(&["client", "lunaris://c?host_id=H&server=S&token=T&codec=HEVC&host_name=x"])).unwrap();
    assert_eq!((a.host_id.as_str(), a.codec.as_str(), a.width), ("H", "hevc", 1920));
    let b = parse_desktop_args(&strings(&["client", "--host-id", "H", "--server", "S", "--token", "T", "--fps", "30"])).unwrap();
    assert_eq!((b.fps, b.width, b.height), (30, 1920, 1080));
    // An incomplete link falls back to the options.
    let c = parse_desktop_args(&strings(&["client", "lunaris://c?host_id=H", "--host-id", "X", "--server", "S", "--token", "T"])).unwrap();
    assert_eq!(c.host_id, "X");
    // An option this client does not know is passed over on its own.
    let d = parse_desktop_args(&strings(&["client", "--host-name", "--host-id", "H", "--server", "S", "--token", "T"])).unwrap();
    assert_eq!(d.host_id, "H");
    assert!(parse_desktop_args(&strings(&["client", "--host-id", "H", "--server", "S", "--token"])).is_none());
    assert!(parse_desktop_args(&strings(&["client"])).is_none());
}

#[test]
fn wrapper_launch_args_are_read_back() {
    let args = lunaris::launch::native_client_args(
        "host-7", "wss://srv", "tok", "2560x1440", "120", "30000", "H265", Some(42),
    );
    assert_eq!(
        args,
        strings(&[
            "--host-id", "host-7", "--server", "wss://srv", "--token", "tok", "--res", "2560x1440",
            "--fps", "120", "--bitrate", "30000", "--codec", "H265", "--app-id", "42",
        ])
    );
    let mut full = strings(&["client"]);
    full.extend(args);
    let d = parse_desktop_args(&full).unwrap();
    assert_eq!(d.host_id, "host-7");
    assert_eq!(d.server_url, "wss://srv");
    assert_eq!((d.width, d.height, d.fps, d.bitrate), (2560, 1440, 120, 30000));
    assert_eq!(d.codec, "h265");
    assert_eq!(d.app_id, Some(42));
    let no_app = lunaris::launch::native_client_args("h", "s", "t", "1280x720", "60", "8000", "h264", None);
    assert_eq!(no_app.len(), 14);
}
