use lunaris::decoder::{
    decode_backend_label, env_switch_on, fallback_reason, hardware_candidates, pack_plane,
    present_backend_label, presentation_mode_label, video_codec_for_mime, CodecType, HwDevice,
    present_env_changes, EnvChange, PresentInputs, PresentState, PresentVar, TargetOs,
};
use lunaris::ids::{fresh_token, fresh_unique_id};
use lunaris::rtp::{push_av1, push_h264, push_h265};

fn present(cuda_gl: bool, cuda_failed: bool, dmabuf: bool, dmabuf_failed: bool, d3d11_failed: bool) -> PresentState {
    PresentState {
        cuda_gl_requested: cuda_gl,
        cuda_gl_failed: cuda_failed,
        dmabuf_requested: dmabuf,
        dmabuf_failed,
        d3d11_failed,
    }
}

#[test]
fn track_codecs_by_mime_type() {
    assert_eq!(video_codec_for_mime("video/h264"), Some(CodecType::H264));
    assert_eq!(video_codec_for_mime("video/hevc"), Some(CodecType::H265));
    assert_eq!(video_codec_for_mime("video/h265"), Some(CodecType::H265));
    assert_eq!(video_codec_for_mime("video/av1"), Some(CodecType::AV1));
    assert_eq!(video_codec_for_mime("audio/opus"), None);
}

#[test]
fn environment_switches() {
    assert!(env_switch_on(Some("1")));
    assert!(env_switch_on(Some("TrUe")));
    assert!(!env_switch_on(Some("yes")));
    assert!(!env_switch_on(None));
}

#[test]
fn hardware_decoder_order() {
    assert_eq!(hardware_candidates(TargetOs::Linux, true, false, false, true), vec![HwDevice::Cuda, HwDevice::Vaapi, HwDevice::Vdpau]);
    assert_eq!(hardware_candidates(TargetOs::Linux, true, false, false, false), vec![HwDevice::Vaapi, HwDevice::Vdpau, HwDevice::Cuda]);
    assert_eq!(hardware_candidates(TargetOs::Linux, true, true, true, true), vec![HwDevice::Vaapi, HwDevice::Vdpau]);
    assert_eq!(hardware_candidates(TargetOs::Windows, true, false, true, false), vec![HwDevice::Cuda, HwDevice::D3d11va, HwDevice::Dxva2]);
    assert_eq!(hardware_candidates(TargetOs::Windows, true, false, false, false), vec![HwDevice::D3d11va, HwDevice::Dxva2, HwDevice::Cuda]);
    assert_eq!(hardware_candidates(TargetOs::Windows, true, true, false, false), vec![HwDevice::D3d11va, HwDevice::Dxva2]);
    assert_eq!(hardware_candidates(TargetOs::MacOs, true, false, false, false), vec![HwDevice::VideoToolbox]);
    assert_eq!(hardware_candidates(TargetOs::Linux, false, false, false, true), vec![]);
}

#[test]
fn presentation_labels_and_fallbacks() {
    let ok = present(true, false, true, false, false);
    assert_eq!(decode_backend_label(HwDevice::Software), "Software");
    assert_eq!(present_backend_label(HwDevice::Cuda, ok), "CUDA-GL");
    assert_eq!(present_backend_label(HwDevice::Vaapi, ok), "DMABUF/OpenGL");
    assert_eq!(present_backend_label(HwDevice::D3d11va, ok), "D3D11");
    assert_eq!(present_backend_label(HwDevice::Vdpau, ok), "CPU/QVideoSink");
    assert_eq!(fallback_reason(false, HwDevice::Software, ok), "Software backend selected");
    assert_eq!(fallback_reason(true, HwDevice::Software, ok), "No GPU decoder available");
    assert_eq!(fallback_reason(true, HwDevice::Cuda, ok), "None");
    assert_eq!(
        fallback_reason(true, HwDevice::Cuda, present(true, true, false, false, false)),
        "CUDA-GL present failed; using CPU/QVideoSink"
    );
    assert_eq!(
        fallback_reason(true, HwDevice::Vaapi, present(false, false, false, false, false)),
        "DMABUF/OpenGL not enabled; using CPU/QVideoSink"
    );
    assert_eq!(
        fallback_reason(true, HwDevice::Vaapi, present(false, false, true, true, false)),
        "DMABUF present failed; using CPU/QVideoSink"
    );
    assert_eq!(
        fallback_reason(true, HwDevice::D3d11va, present(false, false, false, false, true)),
        "D3D11 present failed; using CPU/QVideoSink"
    );
    assert_eq!(
        fallback_reason(true, HwDevice::Vdpau, ok),
        "GPU decode with CPU/QVideoSink present"
    );
    assert_eq!(presentation_mode_label(HwDevice::Vaapi, ok), "VAAPI decode + DMABUF/OpenGL present");
    assert_eq!(presentation_mode_label(HwDevice::Software, ok), "Software decode + CPU/QVideoSink present");
}

#[test]
fn planes_are_packed_row_by_row() {
    let src = [1u8, 2, 9, 9, 3, 4, 9, 9, 5, 6];
    assert_eq!(pack_plane(&src, 4, 2, 3), vec![1, 2, 3, 4, 5, 6]);
    assert_eq!(pack_plane(&src, 2, 2, 2), vec![1, 2, 9, 9]);
    assert_eq!(pack_plane(&src, 4, 0, 3), Vec::<u8>::new());
}

#[test]
fn h264_single_and_aggregated_units() {
    let mut buf = Vec::new();
    assert_eq!(push_h264(&mut buf, &[0x65, 1, 2]), vec![vec![0, 0, 0, 1, 0x65, 1, 2]]);
    let stap = [0x18, 0, 2, 0x67, 7, 0, 0, 0, 1, 0x68, 0, 9];
    assert_eq!(
        push_h264(&mut buf, &stap),
        vec![vec![0, 0, 0, 1, 0x67, 7], vec![0, 0, 0, 1, 0x68]]
    );
    assert_eq!(buf, vec![0, 0, 0, 1, 0x68]);
    assert_eq!(push_h264(&mut buf, &[]), Vec::<Vec<u8>>::new());
    assert_eq!(push_h264(&mut buf, &[0x1e, 1]), Vec::<Vec<u8>>::new());
}

#[test]
fn h264_fragments_are_reassembled() {
    let mut buf = Vec::new();
    assert!(push_h264(&mut buf, &[0x7c, 0x85, 1, 2]).is_empty());
    assert!(push_h264(&mut buf, &[0x7c, 0x05, 3]).is_empty());
    assert_eq!(push_h264(&mut buf, &[0x7c, 0x45, 4]), vec![vec![0, 0, 0, 1, 0x65, 1, 2, 3, 4]]);
    assert!(push_h264(&mut buf, &[0x7c]).is_empty());
}

#[test]
fn h265_units_and_fragments() {
    let mut buf = Vec::new();
    assert_eq!(push_h265(&mut buf, &[0x40, 0x01, 7]), vec![vec![0, 0, 0, 1, 0x40, 0x01, 7]]);
    let ap = [0x60, 0x01, 0, 1, 0xaa, 0, 2, 0xbb, 0xcc];
    assert_eq!(push_h265(&mut buf, &ap), vec![vec![0, 0, 0, 1, 0xaa], vec![0, 0, 0, 1, 0xbb, 0xcc]]);
    assert!(push_h265(&mut buf, &[0x62, 0x01, 0x93, 1]).is_empty());
    assert_eq!(push_h265(&mut buf, &[0x62, 0x01, 0x53, 2]), vec![vec![0, 0, 0, 1, 0x26, 0x01, 1, 2]]);
}

#[test]
fn fresh_ids_have_the_uuid_form() {
    let t = fresh_token();
    assert_eq!(t.len(), 16);
    assert!(t.chars().all(|c| c.is_ascii_digit() || ('a'..='f').contains(&c)));
    let id = fresh_unique_id();
    assert_eq!(id.len(), 36);
    assert!(id.chars().all(|c| c == '-' || c.is_ascii_digit() || ('A'..='F').contains(&c)));
    let chars: Vec<char> = id.chars().collect();
    assert_eq!(chars[14], '4');
    assert!(['8', '9', 'A', 'B'].contains(&chars[19]));
}

#[test]
fn av1_elements_with_lengths() {
    let mut buf = Vec::new();
    assert_eq!(push_av1(&mut buf, &[0x00, 2, 0xa, 0xb, 1, 0xc]), vec![vec![0xa, 0xb], vec![0xc]]);
    assert!(buf.is_empty());
    // A length that runs past the end stops the walk.
    assert_eq!(push_av1(&mut buf, &[0x00, 1, 0xa, 9, 0xb]), vec![vec![0xa]]);
    // A length of six bytes does not read.
    assert_eq!(push_av1(&mut buf, &[0x00, 0x80, 0x80, 0x80, 0x80, 0x80, 0x01]), Vec::<Vec<u8>>::new());
    assert!(push_av1(&mut buf, &[]).is_empty());
}

#[test]
fn av1_obu_continues_across_packets() {
    let mut buf = Vec::new();
    assert!(push_av1(&mut buf, &[0x50, 0x1, 0x2]).is_empty());
    assert_eq!(buf, vec![0x1, 0x2]);
    assert_eq!(push_av1(&mut buf, &[0x90, 0x3]), vec![vec![0x1, 0x2, 0x3]]);
    assert!(buf.is_empty());
    // Two counted elements: the first carries a length, the last runs to the end.
    assert_eq!(push_av1(&mut buf, &[0x20, 1, 0x7, 0x8, 0x9]), vec![vec![0x7], vec![0x8, 0x9]]);
    // An open OBU is handed out when the next packet does not continue it.
    assert!(push_av1(&mut buf, &[0x50, 0x4]).is_empty());
    assert_eq!(push_av1(&mut buf, &[0x10, 0x5]), vec![vec![0x4], vec![0x5]]);
}

fn present_inputs(os: TargetOs) -> PresentInputs {
    PresentInputs {
        gpu_mode: true,
        force_cpu: false,
        os,
        opengl_available: true,
        qsg_rhi_backend: None,
        qt_quick_backend: None,
        cuda_gl: None,
        dmabuf_gl: None,
        nvidia: false,
    }
}

#[test]
fn present_env_linux_nvidia_defaults() {
    let mut i = present_inputs(TargetOs::Linux);
    i.nvidia = true;
    assert_eq!(
        present_env_changes(&i),
        vec![
            EnvChange::SetOpenGl(PresentVar::QsgRhiBackend),
            EnvChange::SetOpenGl(PresentVar::QtQuickBackend),
            EnvChange::SetOn(PresentVar::CudaGl),
            EnvChange::SetOn(PresentVar::DmabufGl),
        ]
    );
}

#[test]
fn present_env_explicit_switches() {
    let mut i = present_inputs(TargetOs::Windows);
    i.qsg_rhi_backend = Some("OpenGL".to_string());
    i.qt_quick_backend = Some("opengl".to_string());
    i.cuda_gl = Some("FALSE".to_string());
    i.dmabuf_gl = Some("yes".to_string());
    assert_eq!(present_env_changes(&i), vec![EnvChange::Remove(PresentVar::CudaGl)]);
    i.cuda_gl = Some("True".to_string());
    i.dmabuf_gl = None;
    assert_eq!(
        present_env_changes(&i),
        vec![EnvChange::SetOn(PresentVar::CudaGl), EnvChange::Remove(PresentVar::DmabufGl)]
    );
}

#[test]
fn present_env_non_opengl_backend_and_cpu() {
    let mut i = present_inputs(TargetOs::Linux);
    i.qsg_rhi_backend = Some("vulkan".to_string());
    assert_eq!(
        present_env_changes(&i),
        vec![
            EnvChange::SetOpenGl(PresentVar::QtQuickBackend),
            EnvChange::Remove(PresentVar::CudaGl),
            EnvChange::Remove(PresentVar::DmabufGl),
        ]
    );
    let mut c = present_inputs(TargetOs::Linux);
    c.force_cpu = true;
    assert_eq!(
        present_env_changes(&c),
        vec![EnvChange::Remove(PresentVar::CudaGl), EnvChange::Remove(PresentVar::DmabufGl)]
    );
}

#[test]
fn present_env_without_scene_graph() {
    let mut w = present_inputs(TargetOs::Windows);
    w.opengl_available = false;
    assert_eq!(
        present_env_changes(&w),
        vec![
            EnvChange::Remove(PresentVar::CudaGl),
            EnvChange::Remove(PresentVar::DmabufGl),
            EnvChange::SetD3d11(PresentVar::QsgRhiBackend),
        ]
    );
    let mut l = present_inputs(TargetOs::Linux);
    l.opengl_available = false;
    l.qt_quick_backend = Some("software".to_string());
    assert_eq!(
        present_env_changes(&l),
        vec![
            EnvChange::Remove(PresentVar::CudaGl),
            EnvChange::Remove(PresentVar::DmabufGl),
            EnvChange::SetOpenGl(PresentVar::QsgRhiBackend),
        ]
    );
}
