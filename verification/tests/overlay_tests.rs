use lunaris::launch::DesktopArgs;
use lunaris::overlay::{
    get_menu_buttons, get_menu_rect, get_settings_layout, get_trigger_rect, is_inside,
    is_release_hotkey, select_options, selected_args, ClickOutcome, MenuButton, OverlayState,
    Rect, Selection,
};

fn session(width: u32, height: u32, fps: u32, codec: &str, bitrate: u32) -> DesktopArgs {
    DesktopArgs {
        host_id: "host".to_string(),
        server_url: "https://srv".to_string(),
        token: "tok".to_string(),
        width,
        height,
        fps,
        bitrate,
        codec: codec.to_string(),
        app_id: Some(7),
    }
}

#[test]
fn overlay_geometry() {
    assert_eq!(get_trigger_rect(1280), Rect::new(615, 0, 50, 14));
    assert_eq!(get_trigger_rect(-5), Rect::new(-27, 0, 50, 14));
    assert_eq!(get_menu_rect(1280, 10), Rect::new(440, 10, 400, 48));
    let b = get_menu_buttons(1280, 10);
    assert_eq!(b.len(), 5);
    assert_eq!(b[0], (Rect::new(450, 16, 68, 36), MenuButton::Exit));
    assert_eq!(b[4], (Rect::new(762, 16, 68, 36), MenuButton::Settings));
    assert_eq!(b[1].1.label(), "FS");
    let l = get_settings_layout(1280, 720);
    assert_eq!(l.modal_rect, Rect::new(440, 200, 400, 320));
    assert_eq!(l.res_btns[2], Rect::new(685, 270, 50, 22));
    assert_eq!(l.fps_btns[4], Rect::new(720, 320, 35, 22));
    assert_eq!(l.codec_btns[1], Rect::new(635, 370, 50, 22));
    assert_eq!(l.bitrate_btns[3], Rect::new(670, 420, 30, 22));
    assert_eq!(l.apply_btn, Rect::new(490, 470, 140, 30));
    assert_eq!(l.cancel_btn, Rect::new(650, 470, 140, 30));
}

#[test]
fn inside_includes_edges() {
    let t = Rect::new(615, 0, 50, 14);
    assert!(is_inside(615, 0, t));
    assert!(is_inside(665, 14, t));
    assert!(!is_inside(666, 14, t));
    assert!(!is_inside(640, -1, t));
}

#[test]
fn options_follow_the_session() {
    let s = select_options(&session(1920, 1080, 60, "h264", 8000));
    assert_eq!(s, Selection { res: 1, fps: 0, codec: 0, bitrate: 2 });
    let s = select_options(&session(2560, 1440, 240, "av1", 20000));
    assert_eq!(s, Selection { res: 2, fps: 4, codec: 2, bitrate: 4 });
    let s = select_options(&session(800, 600, 30, "vp9", 5000));
    assert_eq!(s, Selection { res: 1, fps: 0, codec: 0, bitrate: 2 });
    let a = selected_args(&session(800, 600, 30, "vp9", 5000), Selection { res: 0, fps: 1, codec: 1, bitrate: 3 });
    assert_eq!((a.width, a.height, a.fps, a.bitrate), (1280, 720, 75, 16000));
    assert_eq!(a.codec, "h265");
    assert_eq!(a.host_id, "host");
    assert_eq!(a.app_id, Some(7));
}

#[test]
fn menu_slides_open_and_settles() {
    let mut s = OverlayState::new(&session(1920, 1080, 60, "h264", 8000));
    assert_eq!(s.menu_y_offset, -38);
    assert!(!s.slide_menu());
    assert_eq!(s.on_click(640, 5, 1280, 720), ClickOutcome::Consumed);
    assert!(s.show_menu);
    for _ in 0..24 {
        assert!(s.slide_menu());
    }
    assert_eq!(s.menu_y_offset, 10);
    assert!(!s.slide_menu());
}

#[test]
fn settings_dialog_clicks() {
    let args = session(1920, 1080, 60, "h264", 8000);
    let mut s = OverlayState::new(&args);
    s.show_menu = true;
    s.menu_y_offset = 10;
    assert_eq!(s.on_click(800, 30, 1280, 720), ClickOutcome::Consumed);
    assert!(s.show_settings);
    assert_eq!(s.on_click(690, 280, 1280, 720), ClickOutcome::Consumed);
    assert_eq!(s.on_click(725, 330, 1280, 720), ClickOutcome::Consumed);
    assert_eq!(s.on_click(700, 380, 1280, 720), ClickOutcome::Consumed);
    assert_eq!(s.on_click(10, 10, 1280, 720), ClickOutcome::Consumed);
    assert_eq!(s.selection, Selection { res: 2, fps: 4, codec: 2, bitrate: 2 });
    let before = s;
    assert_eq!(s.on_click(500, 480, 1280, 720), ClickOutcome::Apply);
    assert_eq!(s, before);
    let a = selected_args(&args, s.selection);
    assert_eq!((a.width, a.height, a.fps, a.bitrate), (2560, 1440, 240, 8000));
    assert_eq!(a.codec, "av1");
    assert_eq!(s.on_click(700, 480, 1280, 720), ClickOutcome::Consumed);
    assert!(!s.show_settings);
    assert!(s.show_menu);
}

#[test]
fn menu_buttons_act() {
    let mut s = OverlayState::new(&session(1920, 1080, 60, "h264", 8000));
    s.show_menu = true;
    s.menu_y_offset = 10;
    assert_eq!(s.on_click(540, 20, 1280, 720), ClickOutcome::Consumed);
    assert!(s.fullscreen);
    assert_eq!(s.on_click(610, 20, 1280, 720), ClickOutcome::Consumed);
    assert!(s.pointer_locked);
    assert_eq!(s.on_click(700, 20, 1280, 720), ClickOutcome::Consumed);
    assert!(s.show_stats);
    assert_eq!(s.on_click(100, 500, 1280, 720), ClickOutcome::Forward);
    assert_eq!(s.on_click(460, 20, 1280, 720), ClickOutcome::Exit);
    s.release_pointer();
    assert!(!s.pointer_locked && s.show_menu);
}

#[test]
fn motion_and_idle_hide() {
    let mut s = OverlayState::new(&session(1920, 1080, 60, "h264", 8000));
    assert!(!s.on_motion(100, 100, 1280));
    assert!(!s.show_menu);
    assert!(s.on_motion(640, 5, 1280));
    assert!(s.show_menu);
    s.menu_y_offset = 10;
    assert!(!s.on_motion(100, 100, 1280));
    assert!(s.show_menu);
    assert!(!s.auto_hide(2999, 100, 100, 1280));
    assert!(s.show_menu);
    assert!(s.auto_hide(3000, 450, 20, 1280));
    assert!(s.show_menu);
    assert!(!s.auto_hide(3000, 100, 100, 1280));
    assert!(!s.show_menu);
}

#[test]
fn release_hotkeys() {
    assert!(is_release_hotkey(true, true, 27));
    assert!(is_release_hotkey(true, true, 109));
    assert!(is_release_hotkey(true, true, 122));
    assert!(!is_release_hotkey(true, false, 27));
    assert!(!is_release_hotkey(true, true, 120));
}
