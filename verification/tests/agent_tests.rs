use lunaris::agent::{
    agent_name, agent_name_from, capability_encoders, native_client_link, stop_stream_response,
};
use lunaris::agent_ui::{
    apply_settings, check_for_updates, get_config, make_default_config, new_default_config,
    AgentBridge,
};

#[test]
fn agent_bridge_lifecycle() {
    let mut b = AgentBridge::new();
    assert!(!b.start_agent(false));
    assert!(!b.is_agent_active());
    assert!(b.start_agent(true));
    assert!(b.is_agent_active());
    assert!(!b.start_agent(true));
    assert!(b.stop_agent());
    assert!(!b.is_agent_active());
    assert!(!b.stop_agent());
    assert!(b.start_agent(true));
    b.agent_loop_finished(Some("connection refused".to_string()));
    assert!(!b.is_agent_active());
    let s = b.get_status();
    assert!(!s.agent_active);
    assert_eq!(s.last_error, Some("connection refused".to_string()));
    assert_eq!(b.get_status().last_error, None);
    b.agent_loop_finished(Some("again".to_string()));
    b.clear_last_error();
    assert_eq!(b.get_status().last_error, None);
}

#[test]
fn agent_logs_keep_the_newest_500() {
    let mut b = AgentBridge::new();
    for i in 0..502 {
        b.push_log(format!("line {}", i));
    }
    let logs = b.take_logs();
    assert_eq!(logs.len(), 500);
    assert_eq!(logs[0], "line 2");
    assert_eq!(logs[499], "line 501");
    assert!(b.take_logs().is_empty());
    b.push_log("started \r\n".to_string());
    b.push_log("  indented".to_string());
    assert_eq!(b.take_logs(), vec!["started".to_string(), "  indented".to_string()]);
    b.push_log("x".to_string());
    b.clear_logs();
    assert!(b.take_logs().is_empty());
}

#[test]
fn agent_configuration_defaults() {
    let c = make_default_config("ID-1".to_string());
    assert_eq!(c.server_url, "ws://127.0.0.1:8080");
    assert_eq!(c.webtransport_port, 55200);
    assert!(!c.autostart && !c.close_to_tray);
    let fresh = new_default_config();
    assert_eq!(fresh.client_unique_id.len(), 36);
    assert_eq!(fresh.client_unique_id, fresh.client_unique_id.to_uppercase());
    let r = get_config(None, "box".to_string());
    assert_eq!(r.agent_name, "box");
    assert_eq!(r.server_url, "ws://127.0.0.1:8080");
    assert!(r.server_token.is_empty());
    let r = get_config(Some(c.clone()), "box".to_string());
    assert_eq!(r.client_unique_id, "ID-1");
    let applied = apply_settings(c, "wss://s".to_string(), "tok".to_string(), true, true);
    assert_eq!(applied.client_unique_id, "ID-1");
    assert_eq!(applied.server_url, "wss://s");
    assert!(applied.autostart && applied.close_to_tray);
}

#[test]
fn agent_update_offers() {
    let u = check_for_updates("0.1.0", "v0.2.0".to_string(), "https://r".to_string()).unwrap();
    assert_eq!(u.latest_version, "v0.2.0");
    assert_eq!(u.release_url, "https://r");
    assert!(check_for_updates("v0.2.0", "0.2.0".to_string(), "u".to_string()).is_none());
}

#[test]
fn agent_capabilities_and_stop_replies() {
    let available = vec![
        ("nvenc_h264".to_string(), "nvidia".to_string()),
        ("vaapi".to_string(), "intel".to_string()),
        ("nvenc_h265".to_string(), "nvidia".to_string()),
    ];
    assert_eq!(
        capability_encoders(available),
        vec!["native", "ffmpeg", "nvenc_h264", "nvidia", "vaapi", "intel", "nvenc_h265", "software"]
    );
    assert_eq!(
        capability_encoders(vec![("x264".to_string(), "software".to_string())]),
        vec!["native", "ffmpeg", "x264", "software"]
    );
    assert_eq!(stop_stream_response(true), (true, None));
    assert_eq!(stop_stream_response(false), (false, Some("No active session".to_string())));
}

#[test]
fn agent_native_client_link() {
    let link = native_client_link(
        "h 1", "https://srv:8080", "t&k", "1920x1080", "60", "20000", "h264", 5, "0", "Box", "",
        "", false, "",
    );
    assert_eq!(
        link,
        "lunaris://connect?host_id=h%201&server=wss%3A%2F%2Fsrv%3A8080&token=t%26k&res=1920x1080&fps=60&bitrate=20000&codec=h264&mouse_queue_limit=0&host_name=Box&app_id=5&encoder=auto&display=default&virtual_display=false&input_protocol=webrtc"
    );
}

#[test]
fn agent_names() {
    assert_eq!(agent_name_from(Some("mine".to_string()), Some(("host".to_string(), true))), "mine");
    assert_eq!(agent_name_from(None, Some(("host".to_string(), true))), "host");
    assert_eq!(agent_name_from(None, None), "LunarisHost");
    assert_eq!(agent_name(Some("given".to_string())), "given");
    assert!(!agent_name(None).is_empty());
}

#[test]
fn native_client_link_reads_back_as_its_session() {
    let link = native_client_link(
        "host 1", "https://srv", "t&k=1", "2560x1440", "120", "20000", "AV1", 5, "512", "My PC", "",
        "", true, "",
    );
    let a = lunaris::launch::parse_deeplink_url(&link).unwrap();
    assert_eq!((a.host_id.as_str(), a.server_url.as_str(), a.token.as_str()), ("host 1", "wss://srv", "t&k=1"));
    assert_eq!((a.width, a.height, a.fps, a.bitrate), (2560, 1440, 120, 20000));
    assert_eq!((a.codec.as_str(), a.app_id, a.mouse_queue_limit), ("av1", Some(5), 512));
    assert_eq!((a.host_name.as_str(), a.input_protocol.as_str()), ("My PC", "webrtc"));
    assert_eq!((a.encoder.clone(), a.display_id.clone(), a.virtual_display, a.disable_cuda), (None, None, true, false));
}
