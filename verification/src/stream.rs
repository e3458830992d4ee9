//! The host's stream control: the settings a session starts with, the video
//! codec it sends, how picture-loss requests are debounced, and how the
//! receiver's bandwidth estimates move the encoder's bitrate.

use crate::text::{spec_to_lowercase, str_eq, to_lowercase};
use vstd::prelude::*;

verus! {

broadcast use vstd::string::group_string_axioms;

/// The video codecs the host sends.
#[derive(Debug, Clone, Copy, PartialEq, Eq, Structural)]
pub enum VideoCodec {
    H264,
    H265,
    AV1,
}

/// The codec a session sends: the one asked for (lower case; H.264 when none
/// is named) when the host can encode it, else H.264. Names other than
/// `h265` and `av1` mean H.264.
pub open spec fn chosen_codec(requested: Seq<char>, hevc_supported: bool, av1_supported: bool) -> VideoCodec {
    if requested == "h265"@ && hevc_supported {
        VideoCodec::H265
    } else if requested == "av1"@ && av1_supported {
        VideoCodec::AV1
    } else {
        VideoCodec::H264
    }
}

/// The lower-case codec name a session asks for.
pub open spec fn requested_codec(codec: Option<Seq<char>>) -> Seq<char> {
    match codec {
        Some(c) => spec_to_lowercase(c),
        None => spec_to_lowercase("h264"@),
    }
}

/// The codec a session sends, from the codec it asks for and what the host
/// can encode.
pub fn negotiate_codec(codec: Option<&str>, hevc_supported: bool, av1_supported: bool) -> (res:
    VideoCodec)
    ensures
        res == chosen_codec(
            requested_codec(
                match codec {
                    Some(c) => Some(c@),
                    None => None,
                },
            ),
            hevc_supported,
            av1_supported,
        ),
{
    let requested = match codec {
        Some(c) => to_lowercase(c),
        None => to_lowercase("h264"),
    };
    if str_eq(requested.as_str(), "h265") && hevc_supported {
        VideoCodec::H265
    } else if str_eq(requested.as_str(), "av1") && av1_supported {
        VideoCodec::AV1
    } else {
        VideoCodec::H264
    }
}

/// The RTP payload type each codec is sent with.
pub fn payload_type(c: VideoCodec) -> (pt: u8)
    ensures
        pt == match c {
            VideoCodec::H264 => 96u8,
            VideoCodec::H265 => 98u8,
            VideoCodec::AV1 => 102u8,
        },
{
    match c {
        VideoCodec::H264 => 96,
        VideoCodec::H265 => 98,
        VideoCodec::AV1 => 102,
    }
}

/// The MIME type each codec is sent with.
pub fn mime_type(c: VideoCodec) -> (m: &'static str)
    ensures
        m@ == match c {
            VideoCodec::H264 => "video/H264"@,
            VideoCodec::H265 => "video/H265"@,
            VideoCodec::AV1 => "video/AV1"@,
        },
{
    match c {
        VideoCodec::H264 => "video/H264",
        VideoCodec::H265 => "video/H265",
        VideoCodec::AV1 => "video/AV1",
    }
}

/// The SDP format parameters each codec is sent with.
pub fn sdp_fmtp_line(c: VideoCodec) -> (m: &'static str)
    ensures
        m@ == match c {
            VideoCodec::H264 => "level-asymmetry-allowed=1;packetization-mode=1;profile-level-id=42002a"@,
            VideoCodec::H265 => "profile-id=1;tier-flag=0;level-id=120;tx-mode=SRST"@,
            VideoCodec::AV1 => "profile=0"@,
        },
{
    match c {
        VideoCodec::H264 => "level-asymmetry-allowed=1;packetization-mode=1;profile-level-id=42002a",
        VideoCodec::H265 => "profile-id=1;tier-flag=0;level-id=120;tx-mode=SRST",
        VideoCodec::AV1 => "profile=0",
    }
}

/// The picture a session is sent at.
#[derive(Debug, Clone, Copy, PartialEq, Eq, Structural)]
pub struct StreamShape {
    pub width: u32,
    pub height: u32,
    pub fps: u32,
    /// The most the encoder may spend, in kbit/s.
    pub bitrate_kbps: u32,
}

/// The picture a session asks for, 1920x1080 at 60 frames and 8000 kbit/s
/// where it names none.
pub fn stream_shape(width: Option<u32>, height: Option<u32>, fps: Option<u32>, bitrate: Option<u32>) -> (s: StreamShape)
    ensures
        s.width == (match width { Some(w) => w, None => 1920u32 }),
        s.height == (match height { Some(h) => h, None => 1080u32 }),
        s.fps == (match fps { Some(f) => f, None => 60u32 }),
        s.bitrate_kbps == (match bitrate { Some(b) => b, None => 8000u32 }),
{
    StreamShape {
        width: match width {
            Some(w) => w,
            None => 1920,
        },
        height: match height {
            Some(h) => h,
            None => 1080,
        },
        fps: match fps {
            Some(f) => f,
            None => 60,
        },
        bitrate_kbps: match bitrate {
            Some(b) => b,
            None => 8000,
        },
    }
}

/// `a - b`, or 0 when `b` is later.
pub open spec fn elapsed(now: u64, since: u64) -> u64 {
    if now >= since {
        (now - since) as u64
    } else {
        0
    }
}

pub(crate) fn elapsed_ms(now: u64, since: u64) -> (d: u64)
    ensures
        d == elapsed(now, since),
{
    if now >= since {
        now - since
    } else {
        0
    }
}

/// Picture-loss requests are honoured at most once a second: each honoured
/// one asks the encoder for a key frame.
pub struct PliGate {
    pub last_key_frame_ms: u64,
}

impl PliGate {
    /// A gate that honours the first request: the last key frame counts as a
    /// minute ago (or now, when the clock is younger than a minute).
    pub fn new(now_ms: u64) -> (g: PliGate)
        ensures
            g.last_key_frame_ms == (if now_ms >= 60000 {
                (now_ms - 60000) as u64
            } else {
                now_ms
            }),
    {
        PliGate {
            last_key_frame_ms: if now_ms >= 60000 {
                now_ms - 60000
            } else {
                now_ms
            },
        }
    }

    /// Whether a request arriving now is honoured: when a second or more has
    /// passed since the last key frame asked for, which then becomes now.
    pub fn on_picture_loss(&mut self, now_ms: u64) -> (honoured: bool)
        ensures
            honoured == (elapsed(now_ms, old(self).last_key_frame_ms) >= 1000),
            final(self).last_key_frame_ms == (if honoured {
                now_ms
            } else {
                old(self).last_key_frame_ms
            }),
    {
        if elapsed_ms(now_ms, self.last_key_frame_ms) >= 1000 {
            self.last_key_frame_ms = now_ms;
            true
        } else {
            false
        }
    }
}

/// The lowest bitrate the estimates may push a stream to: a third of its
/// maximum, but no less than a realtime floor (6000 kbit/s for 50 frames or
/// more at 1920 wide or more, 3000 for 50 frames or more, else 1500) nor
/// 1000, and never above the maximum.
pub open spec fn bitrate_floor(s: StreamShape) -> u32 {
    let realtime = if s.fps >= 50 && s.width >= 1920 {
        6000u32
    } else if s.fps >= 50 {
        3000u32
    } else {
        1500u32
    };
    let third = s.bitrate_kbps / 3;
    let raised = if third >= realtime {
        third
    } else {
        realtime
    };
    let raised = if raised >= 1000 {
        raised
    } else {
        1000u32
    };
    if s.bitrate_kbps <= raised {
        s.bitrate_kbps
    } else {
        raised
    }
}

/// An estimate held between the floor and the maximum.
pub open spec fn clamped(est: u32, floor: u32, max: u32) -> u32 {
    if est < floor {
        floor
    } else if est > max {
        max
    } else {
        est
    }
}

/// Two thirds of the maximum (the doubled maximum saturating at `u32::MAX`):
/// estimates under it are large drops.
pub open spec fn drop_threshold(max: u32) -> u32 {
    (if max * 2 > u32::MAX {
        u32::MAX as int
    } else {
        max * 2
    }) as u32 / 3
}

/// How the receiver's bandwidth estimates move the bitrate.
pub struct BitrateController {
    pub shape: StreamShape,
    /// The bitrate last set, in kbit/s.
    pub current_kbps: u32,
    /// When the bitrate last changed (or the stream started).
    pub last_change_ms: u64,
    pub started_ms: u64,
    /// Estimates in a row that asked for a large drop.
    pub low_samples: u32,
}

/// What an estimate does to the controller, and the bitrate it sets: during
/// the first five seconds an estimate below the floor changes nothing; the
/// estimate held between the floor and the maximum is a large drop when it
/// is below the current bitrate and two thirds of the maximum, which counts
/// a low sample (up to `u32::MAX`) and is followed only from the third in a
/// row; an estimate at or above the current bitrate resets the count; a
/// new bitrate is set when it differs and two seconds or more have passed
/// since the last change, which also resets the count.
pub open spec fn estimate_step(c: BitrateController, est: u32, now: u64) -> (BitrateController, Option<u32>) {
    let floor = bitrate_floor(c.shape);
    let max = c.shape.bitrate_kbps;
    let b = clamped(est, floor, max);
    if elapsed(now, c.started_ms) < 5000 && est < floor {
        (c, None)
    } else {
        let large_drop = b < c.current_kbps && b < drop_threshold(max);
        let low: u32 = if large_drop {
            if c.low_samples < u32::MAX {
                (c.low_samples + 1) as u32
            } else {
                c.low_samples
            }
        } else if b >= c.current_kbps {
            0
        } else {
            c.low_samples
        };
        let c1 = BitrateController { low_samples: low, ..c };
        if large_drop && low < 3 {
            (c1, None)
        } else if b != c.current_kbps && elapsed(now, c.last_change_ms) >= 2000 {
            (BitrateController { current_kbps: b, last_change_ms: now, low_samples: 0, ..c1 }, Some(b))
        } else {
            (c1, None)
        }
    }
}

impl BitrateController {
    /// The bitrate set is always within the floor and the maximum.
    pub open spec fn wf(&self) -> bool {
        bitrate_floor(self.shape) <= self.current_kbps <= self.shape.bitrate_kbps
    }

    /// A controller for a stream that starts now at its maximum bitrate.
    pub fn new(shape: StreamShape, now_ms: u64) -> (c: BitrateController)
        ensures
            c.wf(),
            c.shape == shape,
            c.current_kbps == shape.bitrate_kbps,
            c.last_change_ms == now_ms,
            c.started_ms == now_ms,
            c.low_samples == 0,
    {
        BitrateController {
            shape,
            current_kbps: shape.bitrate_kbps,
            last_change_ms: now_ms,
            started_ms: now_ms,
            low_samples: 0,
        }
    }

    fn floor(&self) -> (f: u32)
        ensures
            f == bitrate_floor(self.shape),
    {
        let s = self.shape;
        let realtime: u32 = if s.fps >= 50 && s.width >= 1920 {
            6000
        } else if s.fps >= 50 {
            3000
        } else {
            1500
        };
        let third = s.bitrate_kbps / 3;
        let raised = if third >= realtime {
            third
        } else {
            realtime
        };
        let raised = if raised >= 1000 {
            raised
        } else {
            1000
        };
        if s.bitrate_kbps <= raised {
            s.bitrate_kbps
        } else {
            raised
        }
    }

    /// A bandwidth estimate arrives. During the first five seconds, an
    /// estimate below the floor is ignored. The estimate, held between the
    /// floor and the maximum, counts as a large drop when it is below the
    /// current bitrate and below two thirds of the maximum: the third such
    /// estimate in a row is needed before it is followed. A new bitrate is
    /// set (and returned) when it differs from the current one and two
    /// seconds or more have passed since the last change.
    pub fn on_estimate(&mut self, estimated_kbps: u32, now_ms: u64) -> (set: Option<u32>)
        requires
            old(self).wf(),
        ensures
            (*final(self), set) == estimate_step(*old(self), estimated_kbps, now_ms),
            final(self).wf(),
            final(self).shape == old(self).shape,
            final(self).started_ms == old(self).started_ms,
            set matches Some(b) ==> b == clamped(
                estimated_kbps,
                bitrate_floor(old(self).shape),
                old(self).shape.bitrate_kbps,
            ) && b != old(self).current_kbps && elapsed(now_ms, old(self).last_change_ms) >= 2000
                && final(self).current_kbps == b && final(self).last_change_ms == now_ms,
            set is None ==> final(self).current_kbps == old(self).current_kbps
                && final(self).last_change_ms == old(self).last_change_ms,
            (set matches Some(b) && b < old(self).current_kbps && b < drop_threshold(
                old(self).shape.bitrate_kbps,
            )) ==> old(self).low_samples >= 2,
            (elapsed(now_ms, old(self).started_ms) < 5000 && estimated_kbps < bitrate_floor(
                old(self).shape,
            )) ==> set is None && final(self).low_samples == old(self).low_samples,
    {
        let floor = self.floor();
        let max = self.shape.bitrate_kbps;
        let c = if estimated_kbps < floor {
            floor
        } else if estimated_kbps > max {
            max
        } else {
            estimated_kbps
        };
        if elapsed_ms(now_ms, self.started_ms) < 5000 && estimated_kbps < floor {
            return None;
        }
        let doubled: u32 = if max > u32::MAX / 2 {
            u32::MAX
        } else {
            max * 2
        };
        let two_thirds = doubled / 3;
        if c < self.current_kbps && c < two_thirds {
            if self.low_samples < u32::MAX {
                self.low_samples = self.low_samples + 1;
            }
            if self.low_samples < 3 {
                return None;
            }
        } else if c >= self.current_kbps {
            self.low_samples = 0;
        }
        if c != self.current_kbps && elapsed_ms(now_ms, self.last_change_ms) >= 2000 {
            self.current_kbps = c;
            self.last_change_ms = now_ms;
            self.low_samples = 0;
            Some(c)
        } else {
            None
        }
    }
}

/// What a change of the peer connection's state asks of the media pipeline.
#[derive(Debug, Clone, Copy, PartialEq, Eq, Structural)]
pub enum PeerState {
    New,
    Connecting,
    Connected,
    Disconnected,
    Failed,
    Closed,
}

/// What the pipeline is told when the connection changes state.
#[derive(Debug, Clone, Copy, PartialEq, Eq, Structural)]
pub enum PipelineRequest {
    /// Send a key frame now.
    KeyFrame,
    /// Stop streaming.
    Stop,
    Nothing,
}

/// A connection that comes up asks for a key frame; one that is lost,
/// failed or closed stops the pipeline. Gives the request and whether the
/// connection is now up (`None`: unchanged).
pub fn on_peer_state(s: PeerState) -> (res: (PipelineRequest, Option<bool>))
    ensures
        res == match s {
            PeerState::Connected => (PipelineRequest::KeyFrame, Some(true)),
            PeerState::Disconnected | PeerState::Failed | PeerState::Closed => (
                PipelineRequest::Stop,
                Some(false),
            ),
            _ => (PipelineRequest::Nothing, None),
        },
{
    match s {
        PeerState::Connected => (PipelineRequest::KeyFrame, Some(true)),
        PeerState::Disconnected | PeerState::Failed | PeerState::Closed => (
            PipelineRequest::Stop,
            Some(false),
        ),
        _ => (PipelineRequest::Nothing, None),
    }
}

/// Whether the RTP writer sheds its backlog: more than six frames wait
/// behind the one it took, so it keeps only the newest and asks for a
/// keyframe.
pub fn shed_backlog(queued_frames: usize) -> (res: bool)
    ensures
        res == (queued_frames > 6),
{
    queued_frames > 6
}

/// The marker bits of a frame's packets, sample by sample in order, given
/// how many payloads each sample was cut into: only the last payload of the
/// frame's last sample carries the marker.
pub open spec fn frame_markers(counts: Seq<usize>) -> Seq<bool>
    decreases counts.len(),
{
    if counts.len() == 0 {
        Seq::empty()
    } else {
        let n = counts[0] as int;
        let last_sample = counts.len() == 1;
        Seq::new(n as nat, |i: int| last_sample && i == n - 1) + frame_markers(counts.drop_first())
    }
}

/// The marker bits of a frame's packets.
pub fn packet_markers(counts: &Vec<usize>) -> (res: Vec<bool>)
    ensures
        res@ == frame_markers(counts@),
{
    let mut j: usize = counts.len();
    let mut tail: Vec<bool> = Vec::new();
    while j > 0
        invariant
            j <= counts@.len(),
            tail@ == frame_markers(counts@.skip(j as int)),
        decreases j,
    {
        j = j - 1;
        let n = counts[j];
        let last_sample = j + 1 == counts.len();
        let mut block: Vec<bool> = Vec::new();
        let mut i: usize = 0;
        while i < n
            invariant
                i <= n,
                block@ == Seq::new(i as nat, |k: int| last_sample && k == n - 1),
            decreases n - i,
        {
            block.push(last_sample && i + 1 == n);
            i = i + 1;
            assert(block@ =~= Seq::new(i as nat, |k: int| last_sample && k == n - 1));
        }
        let mut k: usize = 0;
        while k < tail.len()
            invariant
                k <= tail@.len(),
                block@ == Seq::new(n as nat, |q: int| last_sample && q == n - 1) + tail@.take(
                    k as int,
                ),
            decreases tail@.len() - k,
        {
            block.push(tail[k]);
            k = k + 1;
            assert(block@ =~= Seq::new(n as nat, |q: int| last_sample && q == n - 1) + tail@.take(
                k as int,
            ));
        }
        assert(tail@.take(tail@.len() as int) =~= tail@);
        assert(counts@.skip(j as int).drop_first() =~= counts@.skip(j + 1));
        assert(counts@.skip(j as int)[0] == counts@[j as int]);
        assert((counts@.skip(j as int).len() == 1) == (j + 1 == counts@.len()));
        tail = block;
    }
    assert(counts@.skip(0) =~= counts@);
    tail
}


/// The bitrate floor is the maximum bitrate, a third of it, or a realtime
/// floor, whichever the rule picks: the least of the maximum and the larger
/// of a third of it and the realtime floor, which is 1500 kbit/s under 50
/// frames a second (whatever the width), 3000 at 50 or more below 1920
/// wide, and 6000 at 50 or more and 1920 wide or more. For example
/// 1920x1080 at 30 frames and 8000 kbit/s has the floor 2666.
pub proof fn law_bitrate_floor(s: StreamShape)
    ensures
        s.fps < 50 ==> bitrate_floor(s) == vstd::math::min(
            s.bitrate_kbps as int,
            vstd::math::max(s.bitrate_kbps as int / 3, 1500),
        ),
        s.fps >= 50 && s.width < 1920 ==> bitrate_floor(s) == vstd::math::min(
            s.bitrate_kbps as int,
            vstd::math::max(s.bitrate_kbps as int / 3, 3000),
        ),
        s.fps >= 50 && s.width >= 1920 ==> bitrate_floor(s) == vstd::math::min(
            s.bitrate_kbps as int,
            vstd::math::max(s.bitrate_kbps as int / 3, 6000),
        ),
        bitrate_floor(s) <= s.bitrate_kbps,
        s.fps == 30 && s.width == 1920 && s.bitrate_kbps == 8000 ==> bitrate_floor(s) == 2666,
{
}

} // verus!
