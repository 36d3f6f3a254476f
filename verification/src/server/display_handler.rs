//! The display handler: desktop size, client presence, resizing, capture streams.

use vstd::prelude::*;

use crate::arith::align16;
use crate::server::gfx_factory::SharedHandlerState;
use crate::text::{decimal, decimal_text, same_text};
use crate::video::{BitmapData, BitmapUpdate, PwStreamState, RdpPixelFormat, VideoStreamState};

verus! {

/// The H.264 encoder in use.
#[derive(Clone, Copy, Debug, PartialEq, Eq, Structural)]
pub enum VideoEncoder {
    /// 4:2:0 chroma, OpenH264.
    Avc420,
    /// 4:4:4 chroma in two streams.
    Avc444,
    /// 4:2:0 chroma, x264.
    X264,
}

/// An encoded frame.
pub enum EncodedVideoFrame {
    /// One stream.
    Single(Vec<u8>),
    /// A main stream and, unless omitted, an auxiliary one.
    Dual { main: Vec<u8>, aux: Option<Vec<u8>> },
}

impl VideoEncoder {
    /// Wraps what the encoder put out: `None` where it skipped the frame.
    /// An encoder with a single stream has no auxiliary one.
    pub fn encode_bgra(&self, output: Option<(Vec<u8>, Option<Vec<u8>>)>) -> (r: Option<
        EncodedVideoFrame,
    >)
        ensures
            r == (match output {
                None => None,
                Some((main, aux)) => Some(
                    if *self == VideoEncoder::Avc444 {
                        EncodedVideoFrame::Dual { main, aux }
                    } else {
                        EncodedVideoFrame::Single(main)
                    },
                ),
            }),
    {
        match output {
            None => None,
            Some((main, aux)) => match self {
                VideoEncoder::Avc444 => Some(EncodedVideoFrame::Dual { main, aux }),
                _ => Some(EncodedVideoFrame::Single(main)),
            },
        }
    }

    pub fn codec_name(&self) -> (r: &'static str)
        ensures
            r@ == (match *self {
                VideoEncoder::Avc420 => "AVC420"@,
                VideoEncoder::Avc444 => "AVC444"@,
                VideoEncoder::X264 => "x264-AVC420"@,
            }),
    {
        match self {
            VideoEncoder::Avc420 => "AVC420",
            VideoEncoder::Avc444 => "AVC444",
            VideoEncoder::X264 => "x264-AVC420",
        }
    }

    /// Milliseconds since the last keyframe. Only AVC444 tracks keyframes, and
    /// `reported` is its count; the others answer `u64::MAX`.
    pub fn ms_since_last_idr(&self, reported: u64) -> (r: u64)
        ensures
            r == (if *self == VideoEncoder::Avc444 {
                reported
            } else {
                u64::MAX
            }),
    {
        match self {
            VideoEncoder::Avc444 => reported,
            _ => u64::MAX,
        }
    }

    /// Whether a periodic keyframe is due. Only AVC444 has them, and `reported` is its answer.
    pub fn is_periodic_idr_due(&self, reported: bool) -> (r: bool)
        ensures
            r == (*self == VideoEncoder::Avc444 && reported),
    {
        match self {
            VideoEncoder::Avc444 => reported,
            _ => false,
        }
    }
}

/// One token, in the unit of the regulator's budget.
pub const TOKEN: u128 = 1_000_000_000;

/// Limits the frame rate with a token bucket: a frame costs one token, the
/// target rate earns them, and at most two accumulate.
#[derive(Clone, Copy, Debug, PartialEq, Eq, Structural)]
pub struct FrameRateRegulator {
    pub target_fps: u32,
    /// Time of the last call, in nanoseconds.
    pub last_frame_time: u64,
    /// Tokens in billionths.
    pub token_budget: u128,
}

impl FrameRateRegulator {
    /// Nanoseconds since the last call.
    pub open spec fn elapsed(self, now: u64) -> int {
        if now >= self.last_frame_time {
            now - self.last_frame_time
        } else {
            0
        }
    }

    /// The budget once the tokens earned until `now` are added.
    pub open spec fn budget_at(self, now: u64) -> int {
        let earned = self.token_budget + self.elapsed(now) * self.target_fps;
        if earned <= 2 * TOKEN {
            earned
        } else {
            2 * TOKEN
        }
    }

    /// At most two tokens.
    pub open spec fn wf(self) -> bool {
        self.token_budget <= 2 * TOKEN
    }

    pub fn new(target_fps: u32, now: u64) -> (r: Self)
        requires
            target_fps > 0,
        ensures
            r == (FrameRateRegulator { target_fps, last_frame_time: now, token_budget: TOKEN }),
            r.wf(),
    {
        FrameRateRegulator { target_fps, last_frame_time: now, token_budget: TOKEN }
    }

    /// Whether a frame is sent now. The time is taken on every call, so that
    /// frames that are not sent earn nothing.
    pub fn should_send_frame(&mut self, now: u64) -> (r: bool)
        requires
            old(self).wf(),
        ensures
            final(self).wf(),
            r == (old(self).budget_at(now) >= TOKEN),
            old(self).last_frame_time <= now && (now - old(self).last_frame_time)
                * old(self).target_fps >= TOKEN ==> r,
            old(self).token_budget >= TOKEN ==> r,
            old(self).last_frame_time <= now && !r ==> final(self).token_budget
                == old(self).token_budget + (now - old(self).last_frame_time)
                * old(self).target_fps,
            *final(self) == (FrameRateRegulator {
                last_frame_time: now,
                token_budget: (old(self).budget_at(now) - (if r {
                    TOKEN as int
                } else {
                    0
                })) as u128,
                ..*old(self)
            }),
    {
        let elapsed: u64 = if now >= self.last_frame_time { now - self.last_frame_time } else { 0 };
        proof {
            assert(0 <= elapsed * self.target_fps <= u64::MAX * u32::MAX) by (nonlinear_arith)
                requires
                    0 <= elapsed <= u64::MAX,
                    0 <= self.target_fps <= u32::MAX,
            ;
        }
        self.last_frame_time = now;
        let earned: u128 = self.token_budget + elapsed as u128 * self.target_fps as u128;
        let budget: u128 = if earned <= 2 * TOKEN { earned } else { 2 * TOKEN };
        if budget >= TOKEN {
            self.token_budget = budget - TOKEN;
            true
        } else {
            self.token_budget = budget;
            false
        }
    }
}

/// Frames never outrun the target rate: what a call spends and keeps is at most
/// what there was and what the elapsed time earned.
pub proof fn law_frame_rate_bounded(before: FrameRateRegulator, now: u64, sent: bool, after: int)
    requires
        before.wf(),
        sent == (before.budget_at(now) >= TOKEN),
        after == before.budget_at(now) - (if sent {
            TOKEN as int
        } else {
            0
        }),
    ensures
        after + (if sent {
            TOKEN as int
        } else {
            0
        }) <= before.token_budget + before.elapsed(now) * before.target_fps,
        0 <= after <= 2 * TOKEN,
{
    assert(0 <= before.elapsed(now) * before.target_fps) by (nonlinear_arith)
        requires
            0 <= before.elapsed(now),
            0 <= before.target_fps,
    ;
}

/// A capture stream as it is asked for.
pub struct StreamConfig {
    pub name: String,
    pub width: u32,
    pub height: u32,
    pub framerate: u32,
    pub use_dmabuf: bool,
    pub buffer_count: u32,
    /// Layout of the pixels, where one is preferred.
    pub preferred_format: Option<RdpPixelFormat>,
    /// Frames are handed over as GPU buffers, without being read.
    pub dmabuf_passthrough: bool,
}

impl StreamConfig {
    /// The stream of monitor `index`: sixty frames a second, five buffers, pixels of 32
    /// bits with blue first, and every frame read.
    pub open spec fn is_for(
        self,
        index: int,
        width: u32,
        height: u32,
        use_dmabuf: bool,
    ) -> bool {
        &&& self.name@ == "monitor-"@ + decimal(index as nat)
        &&& self.width == width
        &&& self.height == height
        &&& self.framerate == 60
        &&& self.use_dmabuf == use_dmabuf
        &&& self.buffer_count == 5
        &&& self.preferred_format == Some(RdpPixelFormat::BgrX32)
        &&& !self.dmabuf_passthrough
    }

    pub fn for_monitor(index: u64, width: u32, height: u32, use_dmabuf: bool) -> (r: Self)
        ensures
            r.is_for(index as int, width, height, use_dmabuf),
    {
        let mut name = "monitor-".to_owned();
        name.append(decimal_text(index).as_str());
        StreamConfig {
            name,
            width,
            height,
            framerate: 60,
            use_dmabuf,
            buffer_count: 5,
            preferred_format: Some(RdpPixelFormat::BgrX32),
            dmabuf_passthrough: false,
        }
    }
}

/// A stream that the session offers.
#[derive(Clone, Copy, Debug, PartialEq, Eq, Structural)]
pub struct CaptureStream {
    pub node_id: u32,
    pub width: u32,
    pub height: u32,
}

/// The configurations of the streams to create, one per offered stream.
pub fn plan_streams(streams: &Vec<CaptureStream>, use_dmabuf: bool) -> (r: Vec<StreamConfig>)
    ensures
        r@.len() == streams@.len(),
        forall|i: int|
            0 <= i < r@.len() ==> (#[trigger] r@[i]).is_for(
                i,
                streams@[i].width,
                streams@[i].height,
                use_dmabuf,
            ),
{
    let mut out: Vec<StreamConfig> = Vec::new();
    let mut i: usize = 0;
    while i < streams.len()
        invariant
            0 <= i <= streams@.len(),
            out@.len() == i,
            forall|k: int|
                0 <= k < i ==> (#[trigger] out@[k]).is_for(
                    k,
                    streams@[k].width,
                    streams@[k].height,
                    use_dmabuf,
                ),
        decreases streams@.len() - i,
    {
        let s = streams[i];
        out.push(StreamConfig::for_monitor(i as u64, s.width, s.height, use_dmabuf));
        i = i + 1;
    }
    out
}

/// State of the display handler.
#[derive(Clone, Copy, Debug, PartialEq, Eq, Structural)]
pub struct LamcoDisplayHandler {
    /// Desktop size.
    pub width: u16,
    pub height: u16,
    /// The session offered capture streams.
    pub has_streams: bool,
    /// Node that is captured now.
    pub capture_node: u32,
    /// Capture through GPU buffers.
    pub use_dmabuf: bool,
    /// Frames come through a direct channel whose size is fixed.
    pub direct_channel_mode: bool,
    /// The channel for server events is set.
    pub has_event_sender: bool,
    /// The graphics pipeline of the connection is set.
    pub has_gfx_handle: bool,
    /// What the graphics channel negotiated, where it is configured.
    pub gfx_state: Option<SharedHandlerState>,
    /// The client needs its graphics surface set up.
    pub egfx_needs_init: bool,
    /// A client consumes frames.
    pub client_active: bool,
    /// The last client left, rather than resized.
    pub saw_real_disconnect: bool,
    /// The receiving end of the update channel is free to be claimed.
    pub receiver_available: bool,
    /// Whether the stream delivers, where the session couples input to it.
    pub stream_active: Option<bool>,
    /// Time of the last accepted resize request, in milliseconds.
    pub last_resize_ms: u64,
}

/// What a claim of the update stream entails.
#[derive(Clone, Copy, Debug, PartialEq, Eq, Structural)]
pub struct UpdatesPlan {
    /// The previous channel was used up: make a new one, rebuild the bitmap
    /// converter for the current size and tell the input handler.
    pub renewed: bool,
    /// Tell the clipboard that the previous client left.
    pub clipboard_disconnect: bool,
}

/// A monitor of a requested layout.
#[derive(Clone, Copy, Debug, PartialEq, Eq, Structural)]
pub struct MonitorRequest {
    pub is_primary: bool,
    pub width: u32,
    pub height: u32,
}

/// What becomes of a requested layout.
#[derive(Clone, Copy, Debug, PartialEq, Eq, Structural)]
pub enum LayoutDecision {
    /// The layout has no monitor.
    Empty,
    /// Resizing is switched off.
    Disabled,
    /// The area is over the limit.
    TooLarge,
    /// The size is not among the allowed ones.
    NotAllowed,
    /// The desktop has that size.
    Unchanged,
    /// Resize. `in_burst` where another request came less than 300 ms before.
    Accept { width: u16, height: u16, in_burst: bool },
}

/// The size that the display control protocol allows closest to a requested
/// one: an even width, both sides from 200 to 8192.
pub open spec fn adjusted_size(width: u32, height: u32) -> (u32, u32) {
    (clamped_side((width - width % 2) as u32), clamped_side(height))
}

/// A side from 200 to 8192.
pub open spec fn clamped_side(n: u32) -> u32 {
    if n < 200 {
        200
    } else if n > 8192 {
        8192
    } else {
        n
    }
}

/// `MonitorLayoutEntry::adjust_display_size` of `ironrdp-displaycontrol`: makes
/// the width even by rounding down, then clamps both sides to 200 to 8192.
#[verifier::external_body]
fn adjust_display_size(width: u32, height: u32) -> (r: (u32, u32))
    ensures
        r == adjusted_size(width, height),
{
    ironrdp_displaycontrol::pdu::MonitorLayoutEntry::adjust_display_size(width, height)
}

/// The monitor that counts: the first primary one, else the first.
pub open spec fn main_monitor(monitors: Seq<MonitorRequest>) -> Option<MonitorRequest> {
    if monitors.len() == 0 {
        None
    } else {
        match first_primary(monitors) {
            Some(m) => Some(m),
            None => Some(monitors[0]),
        }
    }
}

/// The first primary monitor.
pub open spec fn first_primary(monitors: Seq<MonitorRequest>) -> Option<MonitorRequest>
    decreases monitors.len(),
{
    if monitors.len() == 0 {
        None
    } else if first_primary(monitors.drop_last()) is Some {
        first_primary(monitors.drop_last())
    } else if monitors.last().is_primary {
        Some(monitors.last())
    } else {
        None
    }
}

/// A size written as `WxH`.
pub open spec fn size_text(width: nat, height: nat) -> Seq<char> {
    decimal(width) + "x"@ + decimal(height)
}

/// Some entry of the list is this text.
pub open spec fn lists_text(list: Seq<String>, text: Seq<char>) -> bool {
    exists|i: int| 0 <= i < list.len() && (#[trigger] list[i])@ == text
}

/// What becomes of a request for `monitor` on a desktop of `current` size.
pub open spec fn layout_decision(
    monitor: Option<MonitorRequest>,
    allow_resize: bool,
    allowed: Seq<String>,
    current: Option<(u16, u16)>,
    in_burst: bool,
) -> LayoutDecision {
    match monitor {
        None => LayoutDecision::Empty,
        Some(m) => {
            let (w, h) = adjusted_size(m.width, m.height);
            if !allow_resize {
                LayoutDecision::Disabled
            } else if w * h > 3840 * 2400 {
                LayoutDecision::TooLarge
            } else if allowed.len() > 0 && !lists_text(allowed, size_text(w as nat, h as nat)) {
                LayoutDecision::NotAllowed
            } else if current == Some((w as u16, h as u16)) {
                LayoutDecision::Unchanged
            } else {
                LayoutDecision::Accept { width: w as u16, height: h as u16, in_burst }
            }
        },
    }
}

fn pick_monitor(monitors: &Vec<MonitorRequest>) -> (r: Option<MonitorRequest>)
    ensures
        r == main_monitor(monitors@),
{
    if monitors.len() == 0 {
        return None;
    }
    let mut found: Option<MonitorRequest> = None;
    let mut i: usize = 0;
    while i < monitors.len()
        invariant
            0 <= i <= monitors@.len(),
            found == first_primary(monitors@.take(i as int)),
        decreases monitors@.len() - i,
    {
        assert(monitors@.take(i + 1).drop_last() =~= monitors@.take(i as int));
        let m = monitors[i];
        if found.is_none() && m.is_primary {
            found = Some(m);
        }
        i = i + 1;
    }
    assert(monitors@.take(i as int) =~= monitors@);
    match found {
        Some(m) => Some(m),
        None => Some(monitors[0]),
    }
}

fn list_has(list: &Vec<String>, text: &str) -> (r: bool)
    ensures
        r == lists_text(list@, text@),
{
    let mut i: usize = 0;
    while i < list.len()
        invariant
            0 <= i <= list@.len(),
            forall|k: int| 0 <= k < i ==> (#[trigger] list@[k])@ != text@,
        decreases list@.len() - i,
    {
        if same_text(list[i].as_str(), text) {
            return true;
        }
        i = i + 1;
    }
    false
}

/// The values with which the graphics surface of a client is set up.
#[derive(Clone, Copy, Debug, PartialEq, Eq, Structural)]
pub struct SurfaceSetup {
    /// The desktop, of the frame's own size.
    pub output_width: u16,
    pub output_height: u16,
    /// The surface, of sides that are multiples of sixteen.
    pub surface_width: u16,
    pub surface_height: u16,
}

/// The next multiple of sixteen.
pub fn align_to_16(dimension: u32) -> (r: u32)
    requires
        dimension + 15 <= u32::MAX,
    ensures
        r == align16(dimension as int),
        r % 16 == 0,
        dimension <= r < dimension + 16,
{
    (dimension + 15) / 16 * 16
}

impl LamcoDisplayHandler {
    /// A handler that captures through streams. The streams are created before.
    pub fn new(
        initial_width: u16,
        initial_height: u16,
        streams: &Vec<CaptureStream>,
        egfx_configured: bool,
        use_dmabuf: bool,
        client_active: bool,
        now_ms: u64,
    ) -> (r: Self)
        ensures
            r == (LamcoDisplayHandler {
                width: initial_width,
                height: initial_height,
                has_streams: streams@.len() > 0,
                capture_node: if streams@.len() > 0 {
                    streams@[0].node_id
                } else {
                    0
                },
                use_dmabuf,
                direct_channel_mode: false,
                has_event_sender: false,
                has_gfx_handle: false,
                gfx_state: if egfx_configured {
                    Some(SharedHandlerState::blank())
                } else {
                    None
                },
                egfx_needs_init: true,
                client_active,
                saw_real_disconnect: false,
                receiver_available: true,
                stream_active: None,
                last_resize_ms: if now_ms >= 10_000 {
                    (now_ms - 10_000) as u64
                } else {
                    now_ms
                },
            }),
    {
        LamcoDisplayHandler {
            width: initial_width,
            height: initial_height,
            has_streams: streams.len() > 0,
            capture_node: if streams.len() > 0 { streams[0].node_id } else { 0 },
            use_dmabuf,
            direct_channel_mode: false,
            has_event_sender: false,
            has_gfx_handle: false,
            gfx_state: if egfx_configured { Some(SharedHandlerState::new()) } else { None },
            egfx_needs_init: true,
            client_active,
            saw_real_disconnect: false,
            receiver_available: true,
            stream_active: None,
            last_resize_ms: if now_ms >= 10_000 { now_ms - 10_000 } else { now_ms },
        }
    }

    /// A handler that gets its frames through a direct channel, always in memory.
    pub fn new_direct(
        initial_width: u16,
        initial_height: u16,
        streams: &Vec<CaptureStream>,
        egfx_configured: bool,
        client_active: bool,
        now_ms: u64,
    ) -> (r: Self)
        ensures
            r.direct_channel_mode,
            !r.use_dmabuf,
            r.width == initial_width,
            r.height == initial_height,
            r.has_streams == (streams@.len() > 0),
            streams@.len() > 0 ==> r.capture_node == streams@[0].node_id,
            streams@.len() == 0 ==> r.capture_node == 0,
            r.gfx_state == (if egfx_configured {
                Some(SharedHandlerState::blank())
            } else {
                None
            }),
            r.egfx_needs_init,
            r.client_active == client_active,
            !r.saw_real_disconnect,
            r.receiver_available,
            r.stream_active is None,
            !r.has_event_sender,
            !r.has_gfx_handle,
            now_ms >= 10_000 ==> r.last_resize_ms == now_ms - 10_000,
            now_ms < 10_000 ==> r.last_resize_ms == now_ms,
    {
        let mut r = LamcoDisplayHandler::new(
            initial_width,
            initial_height,
            streams,
            egfx_configured,
            false,
            client_active,
            now_ms,
        );
        r.direct_channel_mode = true;
        r
    }

    /// Frames can be sent over the graphics channel.
    pub open spec fn egfx_ready(self) -> bool {
        self.has_event_sender && self.has_gfx_handle && self.gfx_state is Some
            && self.gfx_state->0.is_ready
    }

    /// The client decodes AVC420.
    pub open spec fn avc_supported(self) -> bool {
        self.gfx_state is Some && self.gfx_state->0.client_supports_avc420
    }

    pub fn is_egfx_ready(&self) -> (r: bool)
        ensures
            r == self.egfx_ready(),
    {
        if !self.has_event_sender {
            return false;
        }
        if !self.has_gfx_handle {
            return false;
        }
        match self.gfx_state {
            Some(state) => state.is_ready,
            None => false,
        }
    }

    pub fn is_avc_supported(&self) -> (r: bool)
        ensures
            r == self.avc_supported(),
    {
        match self.gfx_state {
            Some(state) => state.client_supports_avc420,
            None => false,
        }
    }

    /// What the graphics channel is waiting for.
    pub fn egfx_wait_reason(&self) -> (r: &'static str)
        ensures
            r@ == (if !self.has_event_sender {
                "waiting for client connection"@
            } else if !self.has_gfx_handle {
                "client connected, waiting for EGFX channel"@
            } else if self.gfx_state is None {
                "EGFX not configured"@
            } else if !self.gfx_state->0.is_ready {
                "EGFX channel open, negotiating capabilities"@
            } else if !self.gfx_state->0.client_supports_avc420 {
                "EGFX ready, no AVC420 - using bitmap fallback"@
            } else {
                "ready"@
            }),
    {
        if !self.has_event_sender {
            return "waiting for client connection";
        }
        if !self.has_gfx_handle {
            return "client connected, waiting for EGFX channel";
        }
        match self.gfx_state {
            Some(state) => {
                if !state.is_ready {
                    return "EGFX channel open, negotiating capabilities";
                }
                if !state.client_supports_avc420 {
                    return "EGFX ready, no AVC420 - using bitmap fallback";
                }
                "ready"
            },
            None => "EGFX not configured",
        }
    }

    /// The client left: frames are drained, not encoded.
    pub fn on_client_disconnect(&mut self)
        ensures
            *final(self) == (LamcoDisplayHandler {
                client_active: false,
                saw_real_disconnect: true,
                ..*old(self)
            }),
    {
        self.client_active = false;
        self.saw_real_disconnect = true;
    }

    /// A client claims the update stream.
    ///
    /// Where the previous stream was used up, everything negotiated with the
    /// previous client is void; the clipboard hears of it only if that client
    /// really left, since a resize claims the stream anew too.
    pub fn updates(&mut self) -> (r: UpdatesPlan)
        ensures
            r.renewed == !old(self).receiver_available,
            r.clipboard_disconnect == (r.renewed && old(self).saw_real_disconnect),
            *final(self) == (if r.renewed {
                LamcoDisplayHandler {
                    egfx_needs_init: true,
                    gfx_state: match old(self).gfx_state {
                        Some(_) => Some(SharedHandlerState::blank()),
                        None => None,
                    },
                    saw_real_disconnect: false,
                    client_active: true,
                    receiver_available: false,
                    ..*old(self)
                }
            } else {
                LamcoDisplayHandler {
                    client_active: true,
                    receiver_available: false,
                    ..*old(self)
                }
            }),
    {
        let renewed = !self.receiver_available;
        let mut clipboard_disconnect = false;
        if renewed {
            self.egfx_needs_init = true;
            match self.gfx_state {
                Some(_) => {
                    self.gfx_state = Some(SharedHandlerState::new());
                },
                None => {},
            }
            clipboard_disconnect = self.saw_real_disconnect;
            self.saw_real_disconnect = false;
        }
        self.client_active = true;
        self.receiver_available = false;
        UpdatesPlan { renewed, clipboard_disconnect }
    }

    /// Makes the update stream free to be claimed.
    pub fn reset_update_channel(&mut self)
        ensures
            *final(self) == (LamcoDisplayHandler { receiver_available: true, ..*old(self) }),
    {
        self.receiver_available = true;
    }

    /// Sets the desktop size.
    pub fn update_size(&mut self, width: u16, height: u16)
        ensures
            *final(self) == (LamcoDisplayHandler { width, height, ..*old(self) }),
    {
        self.width = width;
        self.height = height;
    }

    pub fn size(&self) -> (r: (u16, u16))
        ensures
            r == (self.width, self.height),
    {
        (self.width, self.height)
    }

    /// The desktop size at connection: the compositor's, whatever the client asks for.
    pub fn request_initial_size(&self, _client_width: u16, _client_height: u16) -> (r: (u16, u16))
        ensures
            r == (self.width, self.height),
    {
        (self.width, self.height)
    }

    /// Decides on a layout that the client asks for.
    ///
    /// `size_known` is whether the current size could be read; where it could
    /// not, a request for the current size passes.
    pub fn request_layout(
        &mut self,
        monitors: &Vec<MonitorRequest>,
        allow_resize: bool,
        allowed_resolutions: &Vec<String>,
        size_known: bool,
        now_ms: u64,
    ) -> (r: LayoutDecision)
        ensures
            r == layout_decision(
                main_monitor(monitors@),
                allow_resize,
                allowed_resolutions@,
                if size_known {
                    Some((old(self).width, old(self).height))
                } else {
                    None
                },
                now_ms - old(self).last_resize_ms < 300,
            ),
            *final(self) == (if r is Accept {
                LamcoDisplayHandler { last_resize_ms: now_ms, ..*old(self) }
            } else {
                *old(self)
            }),
    {
        let monitor = match pick_monitor(monitors) {
            Some(m) => m,
            None => {
                return LayoutDecision::Empty;
            },
        };
        if !allow_resize {
            return LayoutDecision::Disabled;
        }
        let (w, h) = adjust_display_size(monitor.width, monitor.height);
        proof {
            assert(200 <= w <= 8192);
            assert(200 <= h <= 8192);
            assert(0 <= w * h <= 8192 * 8192) by (nonlinear_arith)
                requires
                    200 <= w <= 8192,
                    200 <= h <= 8192,
            ;
        }
        let area: u64 = w as u64 * h as u64;
        if area > 3840 * 2400 {
            return LayoutDecision::TooLarge;
        }
        let new_w: u16 = w as u16;
        let new_h: u16 = h as u16;
        if allowed_resolutions.len() > 0 {
            let mut target = decimal_text(w as u64);
            target.append("x");
            target.append(decimal_text(h as u64).as_str());
            if !list_has(allowed_resolutions, target.as_str()) {
                return LayoutDecision::NotAllowed;
            }
        }
        if size_known && self.width == new_w && self.height == new_h {
            return LayoutDecision::Unchanged;
        }
        let in_burst = now_ms < self.last_resize_ms || now_ms - self.last_resize_ms < 300;
        self.last_resize_ms = now_ms;
        LayoutDecision::Accept { width: new_w, height: new_h, in_burst }
    }

    /// The stream to create when capture moves to another node.
    pub fn rebind_config(&self, width: u32, height: u32) -> (r: StreamConfig)
        ensures
            r.is_for(0, width, height, self.use_dmabuf),
    {
        StreamConfig::for_monitor(0, width, height, self.use_dmabuf)
    }

    /// Records the outcome of moving capture to `new_node`, which also happens
    /// where it is the node already captured: the old stream is dead.
    ///
    /// Whether the old stream could be destroyed does not matter.
    pub fn rebind_capture_node(&mut self, new_node: u32, created: bool) -> (r: bool)
        ensures
            r == created,
            *final(self) == (if created {
                LamcoDisplayHandler { capture_node: new_node, ..*old(self) }
            } else {
                *old(self)
            }),
    {
        if created {
            self.capture_node = new_node;
        }
        created
    }

    /// The values for the surface of a client, or `None` where the channel is
    /// not there yet.
    pub fn setup_egfx_surface(&self, frame_width: u32, frame_height: u32) -> (r: Option<
        SurfaceSetup,
    >)
        requires
            frame_width + 15 <= u32::MAX,
            frame_height + 15 <= u32::MAX,
        ensures
            r == (if self.has_gfx_handle && self.has_event_sender {
                Some(
                    SurfaceSetup {
                        output_width: frame_width as u16,
                        output_height: frame_height as u16,
                        surface_width: align16(frame_width as int) as u16,
                        surface_height: align16(frame_height as int) as u16,
                    },
                )
            } else {
                None
            }),
    {
        if !self.has_gfx_handle || !self.has_event_sender {
            return None;
        }
        Some(
            SurfaceSetup {
                output_width: frame_width as u16,
                output_height: frame_height as u16,
                surface_width: align_to_16(frame_width) as u16,
                surface_height: align_to_16(frame_height) as u16,
            },
        )
    }
}

/// A layout is accepted only at a size that the protocol allows, within the area
/// limit and, where a list is given, on the list.
pub proof fn law_accepted_layout_is_allowed(
    monitor: Option<MonitorRequest>,
    allow_resize: bool,
    allowed: Seq<String>,
    current: Option<(u16, u16)>,
    in_burst: bool,
)
    requires
        layout_decision(monitor, allow_resize, allowed, current, in_burst) is Accept,
    ensures
        ({
            let d = layout_decision(monitor, allow_resize, allowed, current, in_burst);
            let w = d->width;
            let h = d->height;
            &&& allow_resize
            &&& 200 <= w <= 8192
            &&& 200 <= h <= 8192
            &&& w % 2 == 0
            &&& w * h <= 3840 * 2400
            &&& allowed.len() > 0 ==> lists_text(allowed, size_text(w as nat, h as nat))
            &&& current != Some((w, h))
        }),
{
}

/// A client that comes back after a resize keeps its clipboard; one that comes
/// after a disconnect does not, and finds nothing of its predecessor.
pub proof fn law_reconnection_starts_blank(before: LamcoDisplayHandler)
    requires
        !before.receiver_available,
    ensures
        ({
            let after = LamcoDisplayHandler {
                egfx_needs_init: true,
                gfx_state: match before.gfx_state {
                    Some(_) => Some(SharedHandlerState::blank()),
                    None => None,
                },
                saw_real_disconnect: false,
                client_active: true,
                receiver_available: false,
                ..before
            };
            !after.egfx_ready() && !after.avc_supported() && after.egfx_needs_init
        }),
{
}

/// What a change of a stream's state entails.
#[derive(Clone, Copy, Debug, PartialEq, Eq, Structural)]
pub struct StreamStateEffect {
    /// New value of the flag that couples input to the stream.
    pub stream_active: Option<bool>,
    /// Number reported to the stream sensor.
    pub sensor_state: Option<u8>,
    /// What the health monitor hears.
    pub health: Option<VideoStreamState>,
}

/// What a change of a stream's state entails.
pub fn stream_state_effect(state: PwStreamState) -> (r: StreamStateEffect)
    ensures
        r == (match state {
            PwStreamState::Streaming => StreamStateEffect {
                stream_active: Some(true),
                sensor_state: Some(2),
                health: Some(VideoStreamState::Streaming),
            },
            PwStreamState::Paused => StreamStateEffect {
                stream_active: Some(false),
                sensor_state: Some(1),
                health: Some(VideoStreamState::Paused),
            },
            PwStreamState::Error => StreamStateEffect {
                stream_active: None,
                sensor_state: Some(0),
                health: Some(VideoStreamState::Error),
            },
            PwStreamState::Unconnected => StreamStateEffect {
                stream_active: None,
                sensor_state: Some(0),
                health: None,
            },
            PwStreamState::Connecting => StreamStateEffect {
                stream_active: None,
                sensor_state: None,
                health: None,
            },
        }),
{
    match state {
        PwStreamState::Streaming => StreamStateEffect {
            stream_active: Some(true),
            sensor_state: Some(2),
            health: Some(VideoStreamState::Streaming),
        },
        PwStreamState::Paused => StreamStateEffect {
            stream_active: Some(false),
            sensor_state: Some(1),
            health: Some(VideoStreamState::Paused),
        },
        PwStreamState::Error => StreamStateEffect {
            stream_active: None,
            sensor_state: Some(0),
            health: Some(VideoStreamState::Error),
        },
        PwStreamState::Unconnected => StreamStateEffect {
            stream_active: None,
            sensor_state: Some(0),
            health: None,
        },
        PwStreamState::Connecting => StreamStateEffect {
            stream_active: None,
            sensor_state: None,
            health: None,
        },
    }
}

/// Pixel layout of a bitmap on the wire; every one takes four bytes a pixel.
#[derive(Clone, Copy, Debug, PartialEq, Eq, Structural)]
pub enum IronPixelFormat {
    BgrX32,
    XBgr32,
    XRgb32,
}

/// A bitmap for the wire.
pub struct IronBitmap {
    pub x: u16,
    pub y: u16,
    pub width: u16,
    pub height: u16,
    pub format: IronPixelFormat,
    pub data: Vec<u8>,
    pub stride: usize,
}

/// The layout on the wire of a layout of ours.
pub open spec fn wire_format(format: RdpPixelFormat) -> IronPixelFormat {
    match format {
        RdpPixelFormat::BgrX32 => IronPixelFormat::BgrX32,
        RdpPixelFormat::Bgr24 => IronPixelFormat::XBgr32,
        RdpPixelFormat::Rgb16 => IronPixelFormat::XRgb32,
        RdpPixelFormat::Rgb15 => IronPixelFormat::XRgb32,
    }
}

/// The rectangle is wide enough to be sent.
pub open spec fn has_width(b: BitmapData) -> bool {
    b.rectangle.right > b.rectangle.left
}

/// The rectangle is high enough to be sent.
pub open spec fn has_height(b: BitmapData) -> bool {
    b.rectangle.bottom > b.rectangle.top
}

/// `w` is `b` for the wire.
pub open spec fn is_wire_bitmap(b: BitmapData, w: IronBitmap) -> bool {
    &&& w.x == b.rectangle.left
    &&& w.y == b.rectangle.top
    &&& w.width == b.rectangle.right - b.rectangle.left
    &&& w.height == b.rectangle.bottom - b.rectangle.top
    &&& w.format == wire_format(b.format)
    &&& w.data@ == b.data@
    &&& w.stride == w.width * 4
}

/// Converts a frame's bitmaps for the wire.
///
/// Fails at the first rectangle that has no width or no height.
pub fn convert_to_iron_format(update: &BitmapUpdate) -> (r: Result<Vec<IronBitmap>, &'static str>)
    ensures
        r is Ok <==> (forall|i: int|
            0 <= i < update.rectangles@.len() ==> has_width(#[trigger] update.rectangles@[i])
                && has_height(update.rectangles@[i])),
        r matches Ok(out) ==> {
            &&& out@.len() == update.rectangles@.len()
            &&& forall|i: int|
                0 <= i < out@.len() ==> is_wire_bitmap(
                    update.rectangles@[i],
                    #[trigger] out@[i],
                )
        },
        r matches Err(e) ==> exists|i: int|
            0 <= i < update.rectangles@.len() && (forall|k: int|
                0 <= k < i ==> has_width(#[trigger] update.rectangles@[k]) && has_height(
                    update.rectangles@[k],
                )) && !(has_width(#[trigger] update.rectangles@[i]) && has_height(
                update.rectangles@[i],
            )) && e@ == (if !has_width(update.rectangles@[i]) {
                "Invalid stride calculation: width=0"@
            } else {
                "Invalid height: 0"@
            }),
{
    let mut out: Vec<IronBitmap> = Vec::new();
    let mut i: usize = 0;
    while i < update.rectangles.len()
        invariant
            0 <= i <= update.rectangles@.len(),
            out@.len() == i,
            forall|k: int|
                0 <= k < i ==> has_width(#[trigger] update.rectangles@[k]) && has_height(
                    update.rectangles@[k],
                ),
            forall|k: int|
                0 <= k < i ==> is_wire_bitmap(update.rectangles@[k], #[trigger] out@[k]),
        decreases update.rectangles@.len() - i,
    {
        let b = &update.rectangles[i];
        let format = match b.format {
            RdpPixelFormat::BgrX32 => IronPixelFormat::BgrX32,
            RdpPixelFormat::Bgr24 => IronPixelFormat::XBgr32,
            RdpPixelFormat::Rgb16 => IronPixelFormat::XRgb32,
            RdpPixelFormat::Rgb15 => IronPixelFormat::XRgb32,
        };
        if b.rectangle.right <= b.rectangle.left {
            assert(!has_width(update.rectangles@[i as int]));
            return Err("Invalid stride calculation: width=0");
        }
        if b.rectangle.bottom <= b.rectangle.top {
            assert(!has_height(update.rectangles@[i as int]));
            return Err("Invalid height: 0");
        }
        let width: u16 = b.rectangle.right - b.rectangle.left;
        let height: u16 = b.rectangle.bottom - b.rectangle.top;
        out.push(
            IronBitmap {
                x: b.rectangle.left,
                y: b.rectangle.top,
                width,
                height,
                format,
                data: vstd::slice::slice_to_vec(b.data.as_slice()),
                stride: width as usize * 4,
            },
        );
        i = i + 1;
    }
    Ok(out)
}


/// A frame that comes at least the frame interval after the last call is sent, and one
/// that comes when a token is left too. What a call spends and keeps is exactly the
/// budget from before and what the elapsed time earned, up to two tokens.
pub proof fn law_frames_at_the_target_rate_are_sent(before: FrameRateRegulator, now: u64)
    requires
        before.wf(),
        before.last_frame_time <= now,
    ensures
        (now - before.last_frame_time) * before.target_fps >= 1_000_000_000 ==> before.budget_at(
            now,
        ) >= TOKEN,
        before.token_budget >= 1_000_000_000 ==> before.budget_at(now) >= TOKEN,
        before.token_budget + (now - before.last_frame_time) * before.target_fps <= 2_000_000_000
            ==> before.budget_at(now) == before.token_budget + (now - before.last_frame_time)
            * before.target_fps,
        before.token_budget + (now - before.last_frame_time) * before.target_fps > 2_000_000_000
            ==> before.budget_at(now) == 2_000_000_000,
        TOKEN == 1_000_000_000,
{
    assert(0 <= (now - before.last_frame_time) * before.target_fps) by (nonlinear_arith)
        requires
            before.last_frame_time <= now,
            0 <= before.target_fps,
    ;
}

/// A clock that was set back earns nothing and loses nothing.
pub proof fn law_clock_set_back_earns_nothing(before: FrameRateRegulator, now: u64)
    requires
        before.wf(),
        now <= before.last_frame_time,
    ensures
        before.budget_at(now) == before.token_budget,
{
}

/// A capture slower than the target rate loses no frame: whatever is left in the budget,
/// frames that are each at least the frame interval apart are all sent.
pub proof fn law_slow_capture_loses_nothing(
    target_fps: u32,
    last: u64,
    budget: u128,
    now: u64,
    kept: u128,
    next: u64,
)
    requires
        budget <= 2_000_000_000,
        last <= now <= next,
        (now - last) * target_fps >= 1_000_000_000,
        (next - now) * target_fps >= 1_000_000_000,
        kept == (FrameRateRegulator { target_fps, last_frame_time: last, token_budget: budget })
            .budget_at(now) - 1_000_000_000,
    ensures
        (FrameRateRegulator { target_fps, last_frame_time: last, token_budget: budget }).budget_at(
            now,
        ) >= TOKEN,
        (FrameRateRegulator { target_fps, last_frame_time: now, token_budget: kept }).budget_at(
            next,
        ) >= TOKEN,
{
    law_frames_at_the_target_rate_are_sent(
        FrameRateRegulator { target_fps, last_frame_time: last, token_budget: budget },
        now,
    );
    law_frames_at_the_target_rate_are_sent(
        FrameRateRegulator { target_fps, last_frame_time: now, token_budget: kept },
        next,
    );
}

/// The graphics channel is ready exactly where the connection has a channel for events
/// and a pipeline, and the client's capabilities are negotiated; the client decodes H.264
/// exactly where it said so.
pub proof fn law_channel_is_ready(h: LamcoDisplayHandler)
    ensures
        h.egfx_ready() ==> h.has_event_sender && h.has_gfx_handle && h.gfx_state is Some
            && h.gfx_state->0.is_ready,
        h.has_event_sender && h.has_gfx_handle && h.gfx_state is Some && h.gfx_state->0.is_ready
            ==> h.egfx_ready(),
        h.avc_supported() <==> h.gfx_state is Some && h.gfx_state->0.client_supports_avc420,
{
}

/// Of several primary monitors the first counts, and without one the first of all.
pub proof fn law_main_monitor(monitors: Seq<MonitorRequest>, i: int)
    requires
        0 <= i < monitors.len(),
        forall|k: int| 0 <= k < i ==> !(#[trigger] monitors[k]).is_primary,
    ensures
        monitors[i].is_primary ==> main_monitor(monitors) == Some(monitors[i]),
        i == monitors.len() - 1 && !monitors[i].is_primary ==> main_monitor(monitors) == Some(
            monitors[0],
        ),
{
    lemma_first_primary(monitors, i);
}

proof fn lemma_first_primary(monitors: Seq<MonitorRequest>, i: int)
    requires
        0 <= i < monitors.len(),
        forall|k: int| 0 <= k < i ==> !(#[trigger] monitors[k]).is_primary,
    ensures
        monitors[i].is_primary ==> first_primary(monitors) == Some(monitors[i]),
        i == monitors.len() - 1 && !monitors[i].is_primary ==> first_primary(monitors) is None,
    decreases monitors.len(),
{
    let init = monitors.drop_last();
    if i < init.len() {
        assert(init[i] == monitors[i]);
        lemma_first_primary(init, i);
    } else if init.len() > 0 {
        assert(forall|k: int| 0 <= k < init.len() ==> init[k] == monitors[k]);
        assert(!monitors[init.len() - 1].is_primary);
        lemma_first_primary(init, init.len() - 1);
    }
}

/// A request is refused only for a reason: with resizing allowed, a size that the protocol
/// can express, that is within the area limit, listed where there is a list, and not the
/// current one, is accepted as it is.
pub proof fn law_allowed_layout_is_accepted(
    m: MonitorRequest,
    allowed: Seq<String>,
    current: Option<(u16, u16)>,
    in_burst: bool,
    k: int,
)
    requires
        200 <= m.width <= 8192,
        200 <= m.height <= 8192,
        m.width % 2 == 0,
        m.width * m.height <= 3840 * 2400,
        allowed.len() == 0 || (0 <= k < allowed.len() && allowed[k]@ == decimal(m.width as nat)
            + "x"@ + decimal(m.height as nat)),
        current != Some((m.width as u16, m.height as u16)),
    ensures
        layout_decision(Some(m), true, allowed, current, in_burst) == (LayoutDecision::Accept {
            width: m.width as u16,
            height: m.height as u16,
            in_burst,
        }),
        layout_decision(Some(m), false, allowed, current, in_burst) == LayoutDecision::Disabled,
        layout_decision(
            Some(m),
            true,
            allowed,
            Some((m.width as u16, m.height as u16)),
            in_burst,
        ) == LayoutDecision::Unchanged,
        layout_decision(None, true, allowed, current, in_burst) == LayoutDecision::Empty,
{
}

/// A size over the area limit is too large whatever is listed, and one within it that is
/// not on the list is not allowed.
pub proof fn law_layout_is_refused(
    m: MonitorRequest,
    allowed: Seq<String>,
    current: Option<(u16, u16)>,
    in_burst: bool,
)
    requires
        200 <= m.width <= 8192,
        200 <= m.height <= 8192,
        m.width % 2 == 0,
    ensures
        m.width * m.height > 3840 * 2400 ==> layout_decision(
            Some(m),
            true,
            allowed,
            current,
            in_burst,
        ) == LayoutDecision::TooLarge,
        m.width * m.height <= 3840 * 2400 && allowed.len() > 0 && (forall|k: int|
            0 <= k < allowed.len() ==> (#[trigger] allowed[k])@ != decimal(m.width as nat) + "x"@
                + decimal(m.height as nat)) ==> layout_decision(
            Some(m),
            true,
            allowed,
            current,
            in_burst,
        ) == LayoutDecision::NotAllowed,
{
}

/// A bitmap on the wire is where its rectangle is, as large, of its pixels, with rows of
/// four bytes a pixel. A rectangle can be sent exactly where it has a pixel.
pub proof fn law_wire_bitmap(b: BitmapData, w: IronBitmap)
    requires
        is_wire_bitmap(b, w),
    ensures
        w.x == b.rectangle.left && w.y == b.rectangle.top,
        w.x + w.width == b.rectangle.right && w.y + w.height == b.rectangle.bottom,
        w.data@ == b.data@,
        w.stride == 4 * (b.rectangle.right - b.rectangle.left),
        b.format == RdpPixelFormat::BgrX32 <==> w.format == IronPixelFormat::BgrX32,
        b.format == RdpPixelFormat::Bgr24 <==> w.format == IronPixelFormat::XBgr32,
        b.format == RdpPixelFormat::Rgb16 || b.format == RdpPixelFormat::Rgb15 <==> w.format
            == IronPixelFormat::XRgb32,
        has_width(b) && has_height(b) <==> b.rectangle.left < b.rectangle.right && b.rectangle.top
            < b.rectangle.bottom,
        has_width(b) <==> w.width > 0,
        has_height(b) <==> w.height > 0,
{
}

/// Every stream is asked for at its own size, at sixty frames a second.
pub proof fn law_stream_config(c: StreamConfig, index: int, width: u32, height: u32, dmabuf: bool)
    requires
        c.is_for(index, width, height, dmabuf),
    ensures
        c.width == width && c.height == height && c.use_dmabuf == dmabuf,
        c.framerate == 60 && c.buffer_count == 5,
        c.name@ == "monitor-"@ + decimal(index as nat),
        c.preferred_format == Some(RdpPixelFormat::BgrX32) && !c.dmabuf_passthrough,
{
}

} // verus!
