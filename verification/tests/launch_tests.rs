use lunaris::client_input::InputChannel;
use lunaris::client_bridge::{
    normalize_host_cursor_kind, AppArgs, PendingDashboardEvent, SavedSettings, StreamBridge,
};
use lunaris::launch::{
    activation_message, apply_link_query, instance_command, parse_args, parse_deeplink_url,
    parse_resolution, read_instance_command, InstanceCommand,
};

fn strings(v: &[&str]) -> Vec<String> {
    v.iter().map(|s| s.to_string()).collect()
}

fn base_args() -> AppArgs {
    AppArgs {
        host_id: "h1".to_string(),
        server_url: "ws://srv".to_string(),
        token: "tok".to_string(),
        width: 1920,
        height: 1080,
        fps: 60,
        bitrate: 8000,
        codec: "h264".to_string(),
        app_id: None,
        mouse_queue_limit: 256,
        host_name: "Desktop".to_string(),
        disable_cuda: false,
        input_protocol: "webrtc".to_string(),
        encoder: None,
        display_id: None,
        virtual_display: false,
    }
}

#[test]
fn resolution_reads_width_and_height() {
    assert_eq!(parse_resolution("2560x1440"), Some((2560, 1440)));
    assert_eq!(parse_resolution("+800x600"), Some((800, 600)));
    assert_eq!(parse_resolution("1920x"), None);
    assert_eq!(parse_resolution("1x2x3"), None);
    assert_eq!(parse_resolution("720p"), None);
}

#[test]
fn deep_link_with_all_settings() {
    let a = parse_deeplink_url(
        "lunaris://connect?host_id=H&server=ws%3A%2F%2Fexample.com%3A8080&token=T&res=2560x1440&fps=120&bitrate=20000&codec=AV1&app_id=7&mouse_queue_limit=64&host_name=Office+PC&input_protocol=WebTransport&encoder=NVENC&display=2&virtual_display=TRUE&disable_cuda=1",
    )
    .expect("complete link");
    assert_eq!(a.host_id, "H");
    assert_eq!(a.server_url, "ws://example.com:8080");
    assert_eq!(a.token, "T");
    assert_eq!((a.width, a.height), (2560, 1440));
    assert_eq!(a.fps, 120);
    assert_eq!(a.bitrate, 20000);
    assert_eq!(a.codec, "av1");
    assert_eq!(a.app_id, Some(7));
    assert_eq!(a.mouse_queue_limit, 64);
    assert_eq!(a.host_name, "Office PC");
    assert_eq!(a.input_protocol, "webtransport");
    assert_eq!(a.encoder, Some("nvenc".to_string()));
    assert_eq!(a.display_id, Some("2".to_string()));
    assert!(a.virtual_display);
    assert!(a.disable_cuda);
}

#[test]
fn deep_link_defaults_and_refusals() {
    let a = parse_deeplink_url("lunaris://connect?host_id=H&server=S&token=T").unwrap();
    assert_eq!((a.width, a.height, a.fps, a.bitrate), (1920, 1080, 60, 8000));
    assert_eq!(a.codec, "h264");
    assert_eq!(a.host_name, "Desktop • Host");
    assert_eq!(a.input_protocol, "webrtc");
    assert_eq!(a.mouse_queue_limit, 256);
    assert_eq!(a.app_id, None);
    assert_eq!(a.encoder, None);
    assert!(!a.disable_cuda && !a.virtual_display);
    assert!(parse_deeplink_url("https://connect?host_id=H&server=S&token=T").is_none());
    assert!(parse_deeplink_url("lunaris://connect?host_id=H&server=S").is_none());
    assert!(parse_deeplink_url("lunaris://connect?host_id=&server=S&token=T").is_none());
}

#[test]
fn deep_link_later_pairs_win_and_bad_numbers_are_ignored() {
    let a = parse_deeplink_url(
        "lunaris://c?host_id=A&host_id=B&server=S&token=T&fps=abc&res=10x&encoder=auto&display=default&disable_cuda=maybe",
    )
    .unwrap();
    assert_eq!(a.host_id, "B");
    assert_eq!(a.fps, 60);
    assert_eq!((a.width, a.height), (1920, 1080));
    assert_eq!(a.encoder, None);
    assert_eq!(a.display_id, None);
    assert!(!a.disable_cuda);
}

#[test]
fn query_pairs_are_applied_in_order() {
    let pairs = vec![
        ("host_id".to_string(), "X".to_string()),
        ("server".to_string(), "S".to_string()),
        ("token".to_string(), "T".to_string()),
        ("disable_cuda".to_string(), "true".to_string()),
        ("disable_cuda".to_string(), "false".to_string()),
        ("virtual_display".to_string(), "1".to_string()),
    ];
    let a = apply_link_query(&pairs).unwrap();
    assert_eq!(a.host_id, "X");
    assert!(!a.disable_cuda);
    assert!(a.virtual_display);
    assert!(apply_link_query(&pairs[1..].to_vec()).is_none());
}

#[test]
fn command_line_options() {
    let a = parse_args(&strings(&[
        "client", "--host-id", "H", "--server", "S", "--token", "T", "--res", "800x600",
        "--disable-cuda", "--codec", "HEVC", "--encoder", "Auto", "--display-id", "3",
        "--virtual-display", "--render-backend", "vulkan", "--app-id", "x", "--fps", "30",
    ]))
    .unwrap();
    assert_eq!((a.width, a.height), (800, 600));
    assert!(a.disable_cuda);
    assert!(a.virtual_display);
    assert_eq!(a.codec, "hevc");
    assert_eq!(a.encoder, None);
    assert_eq!(a.display_id, Some("3".to_string()));
    assert_eq!(a.app_id, None);
    assert_eq!(a.fps, 30);
}

#[test]
fn command_line_defaults_and_missing_values() {
    let a = parse_args(&strings(&["client", "--host-id", "H", "--server", "S", "--token", "T"])).unwrap();
    assert_eq!((a.width, a.height), (1280, 720));
    assert!(parse_args(&strings(&["client"])).is_none());
    assert!(parse_args(&strings(&["client", "--host-id", "H", "--server", "S", "--token"])).is_none());
    let b = parse_args(&strings(&["client", "--unknown", "--host-id", "H", "--server", "S", "--token", "T", "--fps"])).unwrap();
    assert_eq!(b.fps, 60);
    let c = parse_args(&strings(&["client", "lunaris://x?host_id=H&server=S&token=T&fps=90"])).unwrap();
    assert_eq!(c.fps, 90);
    assert_eq!((c.width, c.height), (1920, 1080));
}

#[test]
fn settings_page_updates_the_active_configuration() {
    let mut b = StreamBridge::new(Some(base_args()));
    b.update_stream_config("1080p", 144, "H265", 30000, 32, true, "WebTransport");
    let c = b.active_config.as_ref().unwrap();
    assert_eq!((c.width, c.height), (1920, 1080));
    assert_eq!(c.fps, 144);
    assert_eq!(c.codec, "h265");
    assert_eq!(c.bitrate, 30000);
    assert_eq!(c.mouse_queue_limit, 32);
    assert!(c.disable_cuda);
    assert_eq!(c.input_protocol, "webtransport");
    assert_eq!(c.host_id, "h1");
    b.update_stream_config("540", 60, "h264", 1, 1, false, "webrtc");
    assert_eq!(b.active_config.as_ref().map(|c| (c.width, c.height)), Some((960, 540)));
    b.update_stream_config("12x", 60, "h264", -1, 1, false, "webrtc");
    let c = b.active_config.as_ref().unwrap();
    assert_eq!((c.width, c.height, c.bitrate), (1280, 720, u32::MAX));
    let mut none = StreamBridge::new(None);
    none.update_stream_config("720", 60, "h264", 1, 1, false, "webrtc");
    assert!(none.active_config.is_none());
}

#[test]
fn dashboard_session_becomes_active() {
    let mut b = StreamBridge::new(None);
    b.start_game_session(
        "ws://s", "t", "host", "Name", -1, "1080p", 60, "AV1", 9000, 128, false, "WEBRTC", "Auto",
        "", true,
    );
    let c = b.active_config.as_ref().unwrap();
    assert_eq!((c.width, c.height), (1280, 720));
    assert_eq!(c.app_id, None);
    assert_eq!(c.codec, "av1");
    assert_eq!(c.input_protocol, "webrtc");
    assert_eq!(c.encoder, None);
    assert_eq!(c.display_id, None);
    assert!(c.virtual_display);
    b.start_game_session(
        "ws://s", "t", "host", "Name", 5, "640x480", 60, "h264", 9000, 128, false, "webrtc", "QSV",
        "1", false,
    );
    let c = b.active_config.as_ref().unwrap();
    assert_eq!((c.width, c.height, c.app_id), (640, 480, Some(5)));
    assert_eq!(c.encoder, Some("qsv".to_string()));
    assert_eq!(c.display_id, Some("1".to_string()));
}

#[test]
fn cursor_kinds_outside_the_known_set_become_arrows() {
    assert_eq!(normalize_host_cursor_kind("ibeam"), "ibeam");
    assert_eq!(normalize_host_cursor_kind("resize_nwse"), "resize_nwse");
    assert_eq!(normalize_host_cursor_kind("wait"), "arrow");
    assert_eq!(normalize_host_cursor_kind(""), "arrow");
}

#[test]
fn activation_message_for_link_and_focus() {
    let link = vec!["lunaris".to_string(), "lunaris://connect?host_id=h".to_string()];
    assert_eq!(activation_message(&link), "CONNECT lunaris://connect?host_id=h\n");
    let plain = vec!["lunaris".to_string(), "--host-id".to_string(), "h".to_string()];
    assert_eq!(activation_message(&plain), "FOCUS\n");
    assert_eq!(activation_message(&vec!["lunaris".to_string()]), "FOCUS\n");
}

#[test]
fn instance_commands_are_read_after_trimming() {
    assert_eq!(read_instance_command(b"FOCUS\n"), InstanceCommand::Focus);
    assert_eq!(
        read_instance_command(b"  CONNECT lunaris://connect?x=1\r\n"),
        InstanceCommand::Connect("lunaris://connect?x=1".to_string())
    );
    assert_eq!(instance_command("CONNECT "), InstanceCommand::Unrecognised);
    assert_eq!(instance_command("focus"), InstanceCommand::Unrecognised);
    assert_eq!(read_instance_command(&[0x46, 0xFF]), InstanceCommand::Unrecognised);
}

#[test]
fn webtransport_target_and_connection_kind() {
    assert_eq!(
        lunaris::client_bridge::webtransport_url("webtransport", Some("example.com".to_string()), Some(4433)),
        Some("https://example.com:4433".to_string())
    );
    assert_eq!(lunaris::client_bridge::webtransport_url("webrtc", Some("example.com".to_string()), Some(4433)), None);
    assert_eq!(lunaris::client_bridge::webtransport_url("webtransport", None, Some(4433)), None);
    assert_eq!(lunaris::client_bridge::webtransport_url("webtransport", Some("h".to_string()), None), None);
    assert_eq!(
        lunaris::client_bridge::webtransport_endpoint("webtransport", "wss://srv.example.org:8080/ws", Some(4433)),
        Some("https://srv.example.org:4433".to_string())
    );
    assert_eq!(lunaris::client_bridge::webtransport_endpoint("webtransport", "not a url", Some(4433)), None);
    assert_eq!(lunaris::client_bridge::connection_type(false, true), "TURN Relay");
    assert_eq!(lunaris::client_bridge::connection_type(false, false), "P2P (Direct)");
}

#[test]
fn stream_bridge_input_needs_open_channels() {
    let mut b = StreamBridge::new(Some(base_args()));
    assert!(b.has_connection_args());
    assert_eq!(b.send_mouse_click(1, true), None);
    assert_eq!(b.send_mouse_wheel(120), None);
    assert_eq!(b.send_key_event(0x41, 0, true), None);
    let m = b.send_mouse_move(10, 10, 100, 100, 3, -2, true);
    assert_eq!(m.local_cursor_delta, Some((3, -2)));
    assert!(m.packet.is_none());
    b.input_connected = true;
    assert_eq!(
        b.send_mouse_click(1, true),
        Some((InputChannel::MouseRelative, lunaris::client_input::handle_mouse_click(1, true).unwrap()))
    );
    assert_eq!(b.send_mouse_click(0, true), None);
    assert_eq!(b.send_mouse_wheel(120), Some((InputChannel::MouseRelative, lunaris::client_input::handle_mouse_wheel(120))));
    assert_eq!(
        b.send_key_event(0x41, 0, true),
        Some((InputChannel::Keyboard, lunaris::client_input::handle_key_event(0x41, 0, true).unwrap()))
    );
    assert!(b.send_key_event(0x41, 0, true).is_some());
    let m = b.send_mouse_move(10, 10, 100, 100, 0, 0, false);
    assert_eq!(m.local_cursor_delta, None);
    assert!(m.packet.is_some());
}

#[test]
fn stream_bridge_events_agent_and_settings() {
    let mut b = StreamBridge::new(None);
    assert!(!b.has_connection_args());
    b.load_saved_credentials(Some(SavedSettings {
        server_url: "https://s".to_string(),
        token: "t".to_string(),
        username: "u".to_string(),
    }));
    b.load_saved_credentials(None);
    let ev = b.poll_events();
    assert_eq!(ev.len(), 2);
    assert_eq!(
        ev[0],
        PendingDashboardEvent::CredentialsLoaded {
            success: true,
            server: "https://s".to_string(),
            token: "t".to_string(),
            username: "u".to_string()
        }
    );
    assert!(matches!(&ev[1], PendingDashboardEvent::CredentialsLoaded { success: false, .. }));
    assert!(b.poll_events().is_empty());
    assert!(!b.stop_local_agent());
    b.local_agent_running = true;
    assert!(b.is_local_agent_running(true));
    assert!(!b.is_local_agent_running(false));
    assert!(!b.stop_local_agent());
    b.local_agent_running = true;
    assert!(b.stop_local_agent());
    assert_eq!(b.poll_cursor(), (None, None));
    assert!(b.request_settings().is_none());
    let mut c = StreamBridge::new(Some(base_args()));
    let v = c.request_settings().unwrap();
    assert_eq!(v.res, "1920x1080");
    assert_eq!((v.fps, v.bitrate, v.mouse_queue_limit), (60, 8000, 256));
    assert_eq!(v.codec, "h264");
    assert!(c.active_config.is_some());
    assert!(!lunaris::client_bridge::get_local_hostname().is_empty());
}

#[test]
fn host_cursor_fields_default() {
    let c = lunaris::client_bridge::host_cursor(10, -3, None, Some("spiral"), None);
    assert_eq!((c.x, c.y, c.visible, c.in_window_move_size), (10, -3, true, false));
    assert_eq!(c.kind, "arrow");
    let d = lunaris::client_bridge::host_cursor(1, 2, Some(false), Some("ibeam"), Some(true));
    assert_eq!((d.visible, d.in_window_move_size), (false, true));
    assert_eq!(d.kind, "ibeam");
    assert_eq!(lunaris::client_bridge::host_cursor(0, 0, None, None, None).kind, "arrow");
    let mut b = StreamBridge::new(None);
    b.set_host_cursor(d.clone());
    assert_eq!(b.poll_cursor(), (Some(d), None));
}

#[test]
fn start_minimized_flag() {
    assert!(lunaris::launch::should_start_minimized(&strings(&["client", "--minimized"])));
    assert!(!lunaris::launch::should_start_minimized(&strings(&["client", "--minimize"])));
    assert!(!lunaris::launch::should_start_minimized(&strings(&[])));
}
