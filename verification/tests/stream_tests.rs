use lunaris::agent_session::{desktop_app_list, force_answer_level, AgentSession};
use lunaris::stream::{
    mime_type, negotiate_codec, on_peer_state, payload_type, sdp_fmtp_line, stream_shape,
    BitrateController, PeerState, PipelineRequest, PliGate, VideoCodec,
};

#[test]
fn codec_negotiation_falls_back_to_h264() {
    assert_eq!(negotiate_codec(Some("AV1"), true, true), VideoCodec::AV1);
    assert_eq!(negotiate_codec(Some("av1"), true, false), VideoCodec::H264);
    assert_eq!(negotiate_codec(Some("H265"), true, false), VideoCodec::H265);
    assert_eq!(negotiate_codec(Some("h265"), false, true), VideoCodec::H264);
    assert_eq!(negotiate_codec(Some("vp9"), true, true), VideoCodec::H264);
    assert_eq!(negotiate_codec(None, true, true), VideoCodec::H264);
    assert_eq!(payload_type(VideoCodec::H265), 98);
    assert_eq!(payload_type(VideoCodec::AV1), 102);
    assert_eq!(mime_type(VideoCodec::H264), "video/H264");
    assert_eq!(sdp_fmtp_line(VideoCodec::AV1), "profile=0");
}

#[test]
fn stream_defaults() {
    let s = stream_shape(None, Some(720), None, None);
    assert_eq!((s.width, s.height, s.fps, s.bitrate_kbps), (1920, 720, 60, 8000));
}

#[test]
fn picture_loss_is_debounced() {
    let mut g = PliGate::new(100_000);
    assert!(g.on_picture_loss(100_000));
    assert!(!g.on_picture_loss(100_999));
    assert!(g.on_picture_loss(101_000));
    assert!(!g.on_picture_loss(50));
    let mut young = PliGate::new(10);
    assert!(!young.on_picture_loss(500));
}

#[test]
fn bitrate_follows_estimates_slowly() {
    let shape = stream_shape(Some(1920), Some(1080), Some(60), Some(20000));
    let mut c = BitrateController::new(shape, 0);
    // Floor: max(20000 / 3, 6000) = 6666.
    assert_eq!(c.on_estimate(1000, 1000), None);
    assert_eq!(c.current_kbps, 20000);
    // A large drop needs three estimates in a row.
    assert_eq!(c.on_estimate(1000, 6000), None);
    assert_eq!(c.on_estimate(1000, 6100), None);
    assert_eq!(c.on_estimate(1000, 6200), Some(6666));
    // Changes are two seconds apart.
    assert_eq!(c.on_estimate(50000, 7000), None);
    assert_eq!(c.on_estimate(50000, 8200), Some(20000));
    // A small drop is followed at once.
    assert_eq!(c.on_estimate(15000, 10300), Some(15000));
}

#[test]
fn peer_state_changes() {
    assert_eq!(on_peer_state(PeerState::Connected), (PipelineRequest::KeyFrame, Some(true)));
    assert_eq!(on_peer_state(PeerState::Failed), (PipelineRequest::Stop, Some(false)));
    assert_eq!(on_peer_state(PeerState::Connecting), (PipelineRequest::Nothing, None));
}

#[test]
fn agent_session_lifecycle() {
    let mut s = AgentSession::new();
    let p = s.on_incoming_session(5000);
    assert!(!p.close_previous);
    assert_eq!(p.wait_ms, 0);
    assert!(!s.accepts_signaling());
    s.session_ready();
    assert!(s.accepts_signaling());
    assert!(s.on_end_session(10_000));
    assert!(!s.on_end_session(10_100));
    assert_eq!(s.last_stop_ms, 10_000);
    let p = s.on_incoming_session(10_500);
    assert_eq!(p.wait_ms, 700);
    s.session_ready();
    let p = s.on_incoming_session(20_000);
    assert!(p.close_previous);
    assert_eq!(p.wait_ms, 0);
    assert_eq!(
        force_answer_level("a=fmtp:96 profile-level-id=42001f;x profile-level-id=42001f"),
        "a=fmtp:96 profile-level-id=42002a;x profile-level-id=42002a"
    );
    let (apps, current) = desktop_app_list();
    assert_eq!(apps.len(), 1);
    assert_eq!(apps[0].title, "Desktop");
    assert_eq!(current, 0);
}

#[test]
fn frame_packet_markers_and_backlog() {
    assert_eq!(
        lunaris::stream::packet_markers(&vec![2, 3]),
        vec![false, false, false, false, true]
    );
    assert_eq!(lunaris::stream::packet_markers(&vec![2, 0]), vec![false, false]);
    assert_eq!(lunaris::stream::packet_markers(&vec![]), Vec::<bool>::new());
    assert!(!lunaris::stream::shed_backlog(6));
    assert!(lunaris::stream::shed_backlog(7));
}
