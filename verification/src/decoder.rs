//! The native client's video decoding policy: which codec a track carries,
//! which hardware decoders to try and in what order, how the decoded frame
//! is presented and why it falls back to the CPU, and how a strided image
//! plane is packed.

use crate::text::{
    ascii_lower_code, chars_of, eq_ignore_ascii_case, push_all, str_eq, str_eq_ignore_ascii_case,
    string_from_chars,
};
use vstd::prelude::*;

verus! {

broadcast use vstd::string::group_string_axioms;

/// The video codecs the client decodes.
#[derive(Debug, Clone, Copy, PartialEq, Eq, Structural)]
pub enum CodecType {
    H264,
    H265,
    AV1,
}

/// A decoded picture in planar YUV 4:2:0, each plane packed row after row.
#[derive(Debug, Clone, PartialEq)]
pub struct YUVFrame {
    pub width: i32,
    pub height: i32,
    pub y: Vec<u8>,
    pub u: Vec<u8>,
    pub v: Vec<u8>,
    pub y_stride: i32,
    pub u_stride: i32,
    pub v_stride: i32,
}

/// A decoded picture: planes for the CPU path, or shown by the GPU already.
#[derive(Debug, Clone, PartialEq)]
pub enum DecodedFrame {
    CpuYuv(YUVFrame),
    NativePresented,
}

/// The hardware decoding devices FFmpeg can open, or none (software
/// decoding).
#[derive(Debug, Clone, Copy, PartialEq, Eq, Structural)]
pub enum HwDevice {
    Software,
    Cuda,
    D3d11va,
    Dxva2,
    Vaapi,
    Vdpau,
    VideoToolbox,
    Other,
}

/// The systems the client is built for, as far as decoding cares.
#[derive(Debug, Clone, Copy, PartialEq, Eq, Structural)]
pub enum TargetOs {
    Linux,
    Windows,
    MacOs,
    Other,
}

/// The codec of a video track, by its lower-case MIME type.
pub open spec fn mime_codec(mime: Seq<char>) -> Option<CodecType> {
    if mime == "video/h264"@ {
        Some(CodecType::H264)
    } else if mime == "video/h265"@ || mime == "video/hevc"@ {
        Some(CodecType::H265)
    } else if mime == "video/av1"@ {
        Some(CodecType::AV1)
    } else {
        None
    }
}

/// The codec of a video track, by its lower-case MIME type; `None` for a
/// track that is not video the client decodes.
pub fn video_codec_for_mime(mime: &str) -> (res: Option<CodecType>)
    ensures
        res == mime_codec(mime@),
{
    if str_eq(mime, "video/h264") {
        Some(CodecType::H264)
    } else if str_eq(mime, "video/h265") || str_eq(mime, "video/hevc") {
        Some(CodecType::H265)
    } else if str_eq(mime, "video/av1") {
        Some(CodecType::AV1)
    } else {
        None
    }
}

/// A switch in the environment is on when it is `1` or `true` in any case.
pub open spec fn switch_on(v: Option<Seq<char>>) -> bool {
    match v {
        Some(s) => s == "1"@ || eq_ignore_ascii_case(s, "true"@),
        None => false,
    }
}

/// Whether a switch read from the environment is on.
pub fn env_switch_on(v: Option<&str>) -> (res: bool)
    ensures
        res == switch_on(
            match v {
                Some(s) => Some(s@),
                None => None,
            },
        ),
{
    match v {
        Some(s) => str_eq(s, "1") || str_eq_ignore_ascii_case(s, "true"),
        None => false,
    }
}

/// The hardware decoders to try, first to last: none when hardware decoding
/// is off; on Linux CUDA first when it is preferred (asked for the GL path
/// or an NVIDIA driver is present, and not disabled), then VA-API and VDPAU,
/// then CUDA last when neither preferred nor disabled; on Windows CUDA first
/// when the GL path is asked for, then D3D11VA and DXVA2, then CUDA last
/// otherwise (never when disabled); on macOS VideoToolbox.
pub open spec fn decoder_candidates(
    os: TargetOs,
    hardware: bool,
    cuda_disabled: bool,
    cuda_gl: bool,
    nvidia: bool,
) -> Seq<HwDevice> {
    if !hardware {
        Seq::empty()
    } else {
        match os {
            TargetOs::Linux => {
                let prefer = !cuda_disabled && (cuda_gl || nvidia);
                (if prefer {
                    seq![HwDevice::Cuda]
                } else {
                    Seq::empty()
                }) + seq![HwDevice::Vaapi, HwDevice::Vdpau] + (if !prefer && !cuda_disabled {
                    seq![HwDevice::Cuda]
                } else {
                    Seq::empty()
                })
            },
            TargetOs::Windows => (if cuda_gl && !cuda_disabled {
                seq![HwDevice::Cuda]
            } else {
                Seq::empty()
            }) + seq![HwDevice::D3d11va, HwDevice::Dxva2] + (if !cuda_gl && !cuda_disabled {
                seq![HwDevice::Cuda]
            } else {
                Seq::empty()
            }),
            TargetOs::MacOs => seq![HwDevice::VideoToolbox],
            TargetOs::Other => Seq::empty(),
        }
    }
}

/// The hardware decoders to try, first to last.
pub fn hardware_candidates(
    os: TargetOs,
    hardware: bool,
    cuda_disabled: bool,
    cuda_gl: bool,
    nvidia: bool,
) -> (res: Vec<HwDevice>)
    ensures
        res@ == decoder_candidates(os, hardware, cuda_disabled, cuda_gl, nvidia),
{
    let mut v: Vec<HwDevice> = Vec::new();
    if !hardware {
        assert(v@ =~= decoder_candidates(os, hardware, cuda_disabled, cuda_gl, nvidia));
        return v;
    }
    match os {
        TargetOs::Linux => {
            let prefer = !cuda_disabled && (cuda_gl || nvidia);
            if prefer {
                v.push(HwDevice::Cuda);
            }
            v.push(HwDevice::Vaapi);
            v.push(HwDevice::Vdpau);
            if !prefer && !cuda_disabled {
                v.push(HwDevice::Cuda);
            }
        },
        TargetOs::Windows => {
            if cuda_gl && !cuda_disabled {
                v.push(HwDevice::Cuda);
            }
            v.push(HwDevice::D3d11va);
            v.push(HwDevice::Dxva2);
            if !cuda_gl && !cuda_disabled {
                v.push(HwDevice::Cuda);
            }
        },
        TargetOs::MacOs => {
            v.push(HwDevice::VideoToolbox);
        },
        TargetOs::Other => {},
    }
    assert(v@ =~= decoder_candidates(os, hardware, cuda_disabled, cuda_gl, nvidia));
    v
}

/// The name of the decoding backend.
pub open spec fn decode_label(d: HwDevice) -> Seq<char> {
    match d {
        HwDevice::Cuda => "CUDA"@,
        HwDevice::D3d11va => "D3D11VA"@,
        HwDevice::Dxva2 => "DXVA2"@,
        HwDevice::Vaapi => "VAAPI"@,
        HwDevice::Vdpau => "VDPAU"@,
        HwDevice::VideoToolbox => "VideoToolbox"@,
        HwDevice::Software => "Software"@,
        HwDevice::Other => "GPU"@,
    }
}

/// The name of the decoding backend.
pub fn decode_backend_label(d: HwDevice) -> (res: &'static str)
    ensures
        res@ == decode_label(d),
{
    match d {
        HwDevice::Cuda => "CUDA",
        HwDevice::D3d11va => "D3D11VA",
        HwDevice::Dxva2 => "DXVA2",
        HwDevice::Vaapi => "VAAPI",
        HwDevice::Vdpau => "VDPAU",
        HwDevice::VideoToolbox => "VideoToolbox",
        HwDevice::Software => "Software",
        HwDevice::Other => "GPU",
    }
}

/// Whether a hardware decoder was opened.
pub fn gpu_decode_enabled(d: HwDevice) -> (res: bool)
    ensures
        res == (d != HwDevice::Software),
{
    d != HwDevice::Software
}

/// What the presentation path knows: which native paths are asked for and
/// which have failed at run time.
#[derive(Debug, Clone, Copy, PartialEq, Eq, Structural)]
pub struct PresentState {
    pub cuda_gl_requested: bool,
    pub cuda_gl_failed: bool,
    pub dmabuf_requested: bool,
    pub dmabuf_failed: bool,
    pub d3d11_failed: bool,
}

/// How decoded frames are shown: the CPU path without a hardware decoder;
/// CUDA frames through OpenGL when asked for and working; VA-API frames as
/// DMA buffers through OpenGL when asked for and working; D3D11 frames
/// natively while that works; else the CPU path.
pub open spec fn present_label(d: HwDevice, p: PresentState) -> Seq<char> {
    if d == HwDevice::Software {
        "CPU/QVideoSink"@
    } else if d == HwDevice::Cuda && p.cuda_gl_requested && !p.cuda_gl_failed {
        "CUDA-GL"@
    } else if d == HwDevice::Vaapi && p.dmabuf_requested && !p.dmabuf_failed {
        "DMABUF/OpenGL"@
    } else if d == HwDevice::D3d11va && !p.d3d11_failed {
        "D3D11"@
    } else {
        "CPU/QVideoSink"@
    }
}

/// How decoded frames are shown.
pub fn present_backend_label(d: HwDevice, p: PresentState) -> (res: &'static str)
    ensures
        res@ == present_label(d, p),
{
    if d == HwDevice::Software {
        "CPU/QVideoSink"
    } else if d == HwDevice::Cuda && p.cuda_gl_requested && !p.cuda_gl_failed {
        "CUDA-GL"
    } else if d == HwDevice::Vaapi && p.dmabuf_requested && !p.dmabuf_failed {
        "DMABUF/OpenGL"
    } else if d == HwDevice::D3d11va && !p.d3d11_failed {
        "D3D11"
    } else {
        "CPU/QVideoSink"
    }
}

/// Whether frames are shown through the CPU path.
pub open spec fn cpu_present(d: HwDevice, p: PresentState) -> bool {
    d == HwDevice::Software || !((d == HwDevice::Cuda && p.cuda_gl_requested && !p.cuda_gl_failed) || (
    d == HwDevice::Vaapi && p.dmabuf_requested && !p.dmabuf_failed) || (d == HwDevice::D3d11va
        && !p.d3d11_failed))
}

/// Why frames take the CPU path, or `None` when they do not.
pub open spec fn fallback_text(hardware_requested: bool, d: HwDevice, p: PresentState) -> Seq<char> {
    if !hardware_requested {
        "Software backend selected"@
    } else if d == HwDevice::Software {
        "No GPU decoder available"@
    } else if cpu_present(d, p) {
        if d == HwDevice::Cuda && p.cuda_gl_requested && p.cuda_gl_failed {
            "CUDA-GL present failed; using CPU/QVideoSink"@
        } else if d == HwDevice::Vaapi && p.dmabuf_failed {
            "DMABUF present failed; using CPU/QVideoSink"@
        } else if d == HwDevice::Vaapi && !p.dmabuf_requested {
            "DMABUF/OpenGL not enabled; using CPU/QVideoSink"@
        } else if d == HwDevice::D3d11va && p.d3d11_failed {
            "D3D11 present failed; using CPU/QVideoSink"@
        } else {
            "GPU decode with CPU/QVideoSink present"@
        }
    } else {
        "None"@
    }
}

/// Why frames take the CPU path, or `None` when they do not.
pub fn fallback_reason(hardware_requested: bool, d: HwDevice, p: PresentState) -> (res: &'static str)
    ensures
        res@ == fallback_text(hardware_requested, d, p),
{
    if !hardware_requested {
        return "Software backend selected";
    }
    if !gpu_decode_enabled(d) {
        return "No GPU decoder available";
    }
    let cpu = d == HwDevice::Software || !((d == HwDevice::Cuda && p.cuda_gl_requested
        && !p.cuda_gl_failed) || (d == HwDevice::Vaapi && p.dmabuf_requested && !p.dmabuf_failed)
        || (d == HwDevice::D3d11va && !p.d3d11_failed));
    if cpu {
        if d == HwDevice::Cuda && p.cuda_gl_requested && p.cuda_gl_failed {
            return "CUDA-GL present failed; using CPU/QVideoSink";
        }
        if d == HwDevice::Vaapi {
            if p.dmabuf_failed {
                return "DMABUF present failed; using CPU/QVideoSink";
            }
            if !p.dmabuf_requested {
                return "DMABUF/OpenGL not enabled; using CPU/QVideoSink";
            }
        }
        if d == HwDevice::D3d11va && p.d3d11_failed {
            return "D3D11 present failed; using CPU/QVideoSink";
        }
        return "GPU decode with CPU/QVideoSink present";
    }
    "None"
}

/// `"<decode> decode + <present> present"`.
pub open spec fn presentation_text(d: HwDevice, p: PresentState) -> Seq<char> {
    decode_label(d) + " decode + "@ + present_label(d, p) + " present"@
}

/// `"<decode> decode + <present> present"`.
pub fn presentation_mode_label(d: HwDevice, p: PresentState) -> (res: String)
    ensures
        res@ == presentation_text(d, p),
{
    let mut out = chars_of(decode_backend_label(d));
    push_all(&mut out, chars_of(" decode + ").as_slice());
    push_all(&mut out, chars_of(present_backend_label(d, p)).as_slice());
    push_all(&mut out, chars_of(" present").as_slice());
    string_from_chars(out.as_slice())
}

/// The `width` bytes of each of `height` rows that start `stride` bytes
/// apart, packed one row after another.
pub open spec fn packed_plane(src: Seq<u8>, stride: int, width: int, height: int) -> Seq<u8> {
    Seq::new((width * height) as nat, |k: int| src[(k / width) * stride + k % width])
}

/// Packs an image plane whose rows start `stride` bytes apart into rows of
/// `width` bytes.
pub fn pack_plane(src: &[u8], stride: usize, width: usize, height: usize) -> (res: Vec<u8>)
    requires
        width <= stride,
        width * height <= usize::MAX,
        height > 0 ==> (height - 1) * stride + width <= src@.len(),
    ensures
        res@ == packed_plane(src@, stride as int, width as int, height as int),
{
    let mut out: Vec<u8> = Vec::new();
    let n = src.len();
    let mut r: usize = 0;
    while r < height
        invariant
            n == src@.len(),
            width <= stride,
            height > 0 ==> (height - 1) * stride + width <= src@.len(),
            width * height <= usize::MAX,
            r <= height,
            out@.len() == r * width,
            forall|k: int|
                0 <= k < r * width ==> #[trigger] out@[k] == src@[(k / width as int) * stride + k
                    % width as int],
        decreases height - r,
    {
        assert(r * stride + width <= (height - 1) * stride + width) by (nonlinear_arith)
            requires
                r < height,
        ;
        assert(r * width + width <= width * height) by (nonlinear_arith)
            requires
                r < height,
        ;
        assert(r * stride + width <= n);
        let base = r * stride;
        let mut c: usize = 0;
        let ghost row_start = out@.len();
        while c < width
            invariant
                width <= stride,
                base == r * stride,
                n == src@.len(),
                base + width <= src@.len(),
                r * width + width <= width * height,
                width * height <= usize::MAX,
                row_start == r * width,
                c <= width,
                out@.len() == r * width + c,
                forall|k: int|
                    0 <= k < r * width + c ==> #[trigger] out@[k] == src@[(k / width as int)
                        * stride + k % width as int],
            decreases width - c,
        {
            proof {
                let k = r * width + c;
                assert((k as int) / (width as int) == r as int && (k as int) % (width as int)
                    == c as int) by (nonlinear_arith)
                    requires
                        k == r * width + c,
                        c < width,
                ;
            }
            out.push(src[base + c]);
            c = c + 1;
        }
        r = r + 1;
        assert(out@.len() == r * width) by (nonlinear_arith)
            requires
                out@.len() == (r - 1) * width + width,
        ;
    }
    assert(out@ =~= packed_plane(src@, stride as int, width as int, height as int)) by {
        assert(out@.len() == width * height) by (nonlinear_arith)
            requires
                out@.len() == r * width,
                r == height,
        ;
    }
    out
}

} // verus!

verus! {

/// The environment variables the client sets up for GPU presentation.
#[derive(Debug, Clone, Copy, PartialEq, Eq, Structural)]
pub enum PresentVar {
    /// `QSG_RHI_BACKEND`
    QsgRhiBackend,
    /// `QT_QUICK_BACKEND`
    QtQuickBackend,
    /// `LUNARIS_CLIENT_CUDA_GL`
    CudaGl,
    /// `LUNARIS_CLIENT_DMABUF_GL`
    DmabufGl,
}

/// A change to the environment.
#[derive(Debug, Clone, Copy, PartialEq, Eq, Structural)]
pub enum EnvChange {
    /// Set the variable to `opengl`.
    SetOpenGl(PresentVar),
    /// Set the variable to `d3d11`.
    SetD3d11(PresentVar),
    /// Set the switch to `1`.
    SetOn(PresentVar),
    Remove(PresentVar),
}

/// What the client finds when it starts.
pub struct PresentInputs {
    /// GPU decoding is wanted (no software render backend).
    pub gpu_mode: bool,
    /// `LUNARIS_CLIENT_CPU_PRESENT` asks for CPU presentation.
    pub force_cpu: bool,
    pub os: TargetOs,
    /// Qt's OpenGL scene graph was found (always so off Linux).
    pub opengl_available: bool,
    pub qsg_rhi_backend: Option<String>,
    pub qt_quick_backend: Option<String>,
    pub cuda_gl: Option<String>,
    pub dmabuf_gl: Option<String>,
    pub nvidia: bool,
}

/// A switch set to `0` or `false` in any case.
pub open spec fn switch_off(v: Seq<char>) -> bool {
    v == "0"@ || eq_ignore_ascii_case(v, "false"@)
}

/// A backend variable's value once unset ones default to `opengl`.
pub open spec fn backend_or_opengl(v: Option<String>) -> Seq<char> {
    match v {
        Some(s) => s@,
        None => "opengl"@,
    }
}

/// The changes that set a backend variable to `opengl` when it is unset.
pub open spec fn default_opengl(i: PresentInputs) -> Seq<EnvChange> {
    (if i.qsg_rhi_backend is None {
        seq![EnvChange::SetOpenGl(PresentVar::QsgRhiBackend)]
    } else {
        Seq::empty()
    }) + (if i.qt_quick_backend is None {
        seq![EnvChange::SetOpenGl(PresentVar::QtQuickBackend)]
    } else {
        Seq::empty()
    })
}

/// Both native paths switched off.
pub open spec fn native_off() -> Seq<EnvChange> {
    seq![EnvChange::Remove(PresentVar::CudaGl), EnvChange::Remove(PresentVar::DmabufGl)]
}

/// The native presentation switches on an OpenGL scene graph: CUDA-GL on
/// when asked for, or, unasked, when an NVIDIA driver is present (removed
/// when unasked and absent, or when switched off); DMA-BUF on when asked
/// for, or, unasked, on Linux (removed when unasked elsewhere).
pub open spec fn native_switches(i: PresentInputs) -> Seq<EnvChange> {
    let cuda = match i.cuda_gl {
        Some(v) => if switch_off(v@) {
            seq![EnvChange::Remove(PresentVar::CudaGl)]
        } else if switch_on(Some(v@)) {
            seq![EnvChange::SetOn(PresentVar::CudaGl)]
        } else {
            Seq::empty()
        },
        None => if i.nvidia {
            seq![EnvChange::SetOn(PresentVar::CudaGl)]
        } else {
            seq![EnvChange::Remove(PresentVar::CudaGl)]
        },
    };
    let dmabuf = match i.dmabuf_gl {
        Some(v) => if switch_on(Some(v@)) {
            seq![EnvChange::SetOn(PresentVar::DmabufGl)]
        } else {
            Seq::empty()
        },
        None => if i.os == TargetOs::Linux {
            seq![EnvChange::SetOn(PresentVar::DmabufGl)]
        } else {
            seq![EnvChange::Remove(PresentVar::DmabufGl)]
        },
    };
    cuda + dmabuf
}

/// How the client sets up GPU presentation at start, in order: with GPU
/// decoding wanted and no CPU presentation forced, and an OpenGL scene graph
/// available, unset backends default to OpenGL and, when both backends are
/// then OpenGL (in any case), the native switches are set, else both are
/// removed; without the scene graph both are removed, Linux still defaults
/// the backends to OpenGL and Windows an unset scene graph backend to
/// D3D11. Otherwise both native switches are removed.
pub open spec fn present_env(i: PresentInputs) -> Seq<EnvChange> {
    if i.gpu_mode && !i.force_cpu {
        if i.opengl_available {
            let opengl_active = eq_ignore_ascii_case(backend_or_opengl(i.qsg_rhi_backend), "opengl"@)
                && eq_ignore_ascii_case(backend_or_opengl(i.qt_quick_backend), "opengl"@);
            default_opengl(i) + if opengl_active {
                native_switches(i)
            } else {
                native_off()
            }
        } else {
            native_off() + (if i.os == TargetOs::Linux {
                default_opengl(i)
            } else {
                Seq::empty()
            }) + (if i.os == TargetOs::Windows && i.qsg_rhi_backend is None {
                seq![EnvChange::SetD3d11(PresentVar::QsgRhiBackend)]
            } else {
                Seq::empty()
            })
        }
    } else {
        native_off()
    }
}

fn is_switch_off(v: &str) -> (res: bool)
    ensures
        res == switch_off(v@),
{
    str_eq(v, "0") || str_eq_ignore_ascii_case(v, "false")
}

fn opengl_or(v: &Option<String>) -> (res: bool)
    ensures
        res == eq_ignore_ascii_case(backend_or_opengl(*v), "opengl"@),
{
    match v {
        Some(s) => str_eq_ignore_ascii_case(s.as_str(), "opengl"),
        None => {
            proof {
                reveal_strlit("opengl");
                assert forall|k: int| 0 <= k < "opengl"@.len() implies ascii_lower_code(
                    #[trigger] "opengl"@[k],
                ) == ascii_lower_code("opengl"@[k]) by {}
            }
            true
        },
    }
}

/// How the client sets up GPU presentation at start.
pub fn present_env_changes(i: &PresentInputs) -> (res: Vec<EnvChange>)
    ensures
        res@ == present_env(*i),
{
    let mut out: Vec<EnvChange> = Vec::new();
    if i.gpu_mode && !i.force_cpu {
        if i.opengl_available {
            if i.qsg_rhi_backend.is_none() {
                out.push(EnvChange::SetOpenGl(PresentVar::QsgRhiBackend));
            }
            if i.qt_quick_backend.is_none() {
                out.push(EnvChange::SetOpenGl(PresentVar::QtQuickBackend));
            }
            let ghost d = out@;
            assert(d =~= default_opengl(*i));
            if opengl_or(&i.qsg_rhi_backend) && opengl_or(&i.qt_quick_backend) {
                match &i.cuda_gl {
                    Some(v) => {
                        if is_switch_off(v.as_str()) {
                            out.push(EnvChange::Remove(PresentVar::CudaGl));
                        } else if env_switch_on(Some(v.as_str())) {
                            out.push(EnvChange::SetOn(PresentVar::CudaGl));
                        }
                    },
                    None => {
                        if i.nvidia {
                            out.push(EnvChange::SetOn(PresentVar::CudaGl));
                        } else {
                            out.push(EnvChange::Remove(PresentVar::CudaGl));
                        }
                    },
                }
                match &i.dmabuf_gl {
                    Some(v) => {
                        if env_switch_on(Some(v.as_str())) {
                            out.push(EnvChange::SetOn(PresentVar::DmabufGl));
                        }
                    },
                    None => {
                        if i.os == TargetOs::Linux {
                            out.push(EnvChange::SetOn(PresentVar::DmabufGl));
                        } else {
                            out.push(EnvChange::Remove(PresentVar::DmabufGl));
                        }
                    },
                }
                assert(out@ =~= d + native_switches(*i));
            } else {
                out.push(EnvChange::Remove(PresentVar::CudaGl));
                out.push(EnvChange::Remove(PresentVar::DmabufGl));
                assert(out@ =~= d + native_off());
            }
        } else {
            out.push(EnvChange::Remove(PresentVar::CudaGl));
            out.push(EnvChange::Remove(PresentVar::DmabufGl));
            if i.os == TargetOs::Linux {
                if i.qsg_rhi_backend.is_none() {
                    out.push(EnvChange::SetOpenGl(PresentVar::QsgRhiBackend));
                }
                if i.qt_quick_backend.is_none() {
                    out.push(EnvChange::SetOpenGl(PresentVar::QtQuickBackend));
                }
            }
            if i.os == TargetOs::Windows && i.qsg_rhi_backend.is_none() {
                out.push(EnvChange::SetD3d11(PresentVar::QsgRhiBackend));
            }
            assert(out@ =~= present_env(*i));
        }
    } else {
        out.push(EnvChange::Remove(PresentVar::CudaGl));
        out.push(EnvChange::Remove(PresentVar::DmabufGl));
        assert(out@ =~= native_off());
    }
    out
}

} // verus!
