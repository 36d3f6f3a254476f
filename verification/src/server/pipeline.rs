//! The frame loop of the capture pipeline, one decision at a time.
//!
//! The loop itself receives frames, encodes, sends and sleeps. What it does
//! next follows from the state kept here. Times are milliseconds on one
//! monotonic clock.

use vstd::prelude::*;

use crate::damage::{all_fit, any_has, covers, some_holds, DamageRegion};
use crate::server::display_handler::{LamcoDisplayHandler, StreamConfig, VideoEncoder};
use crate::server::gfx_factory::SharedHandlerState;
use crate::server::pipeline_decisions::{
    avc444_decision, compute_damage_ratio, drop_rate, evaluate_stress_idr_trigger,
    law_absorb_keeps_pixels, normalized, ratio_gt, resolve_avc444_enabled, total_area,
    DamageAccumulator, DamageRatio, Ratio,
};
use crate::text::{lowercase_of, same_text, to_lowercase};

verus! {

/// Time passed between two readings of the clock.
pub open spec fn since(earlier: u64, now: u64) -> int {
    if now >= earlier {
        now - earlier
    } else {
        0
    }
}

fn ms_since(earlier: u64, now: u64) -> (r: u64)
    ensures
        r == since(earlier, now),
{
    if now >= earlier {
        now - earlier
    } else {
        0
    }
}

/// Intervals between the presentation times of frames, in nanoseconds.
#[derive(Clone, Copy, Debug, PartialEq, Eq, Structural)]
pub struct PtsStats {
    pub last: u64,
    pub sum: u128,
    pub count: u64,
    pub min: u64,
    pub max: u64,
}

impl PtsStats {
    /// The statistics after a frame at `pts`. Only a time later than the last
    /// one makes an interval; an unknown time leaves everything.
    pub open spec fn recorded(self, pts: u64) -> PtsStats {
        if pts > 0 && self.last > 0 && pts > self.last {
            let interval = (pts - self.last) as u64;
            PtsStats {
                last: pts,
                sum: (self.sum + interval) as u128,
                count: (self.count + 1) as u64,
                min: if interval < self.min {
                    interval
                } else {
                    self.min
                },
                max: if interval > self.max {
                    interval
                } else {
                    self.max
                },
            }
        } else if pts > 0 {
            PtsStats { last: pts, ..self }
        } else {
            self
        }
    }

    /// The sum is that of `count` intervals.
    pub open spec fn wf(self) -> bool {
        self.sum <= self.count * u64::MAX
    }

    /// No interval seen since the last report.
    pub open spec fn cleared(self) -> PtsStats {
        PtsStats { last: self.last, sum: 0, count: 0, min: u64::MAX, max: 0 }
    }

    pub fn record(&mut self, pts: u64)
        requires
            old(self).wf(),
            old(self).count < u64::MAX,
        ensures
            *final(self) == old(self).recorded(pts),
            final(self).wf(),
    {
        if pts > 0 && self.last > 0 && pts > self.last {
            let interval: u64 = pts - self.last;
            proof {
                let count = self.count as int;
                assert(count * u64::MAX <= u64::MAX * u64::MAX) by (nonlinear_arith)
                    requires
                        0 <= count <= u64::MAX,
                ;
                assert((count + 1) * u64::MAX == count * u64::MAX + u64::MAX) by (nonlinear_arith);
            }
            self.sum = self.sum + interval as u128;
            self.count = self.count + 1;
            if interval < self.min {
                self.min = interval;
            }
            if interval > self.max {
                self.max = interval;
            }
        }
        if pts > 0 {
            self.last = pts;
        }
    }
}

/// The detector of sustained frame drops.
#[derive(Clone, Copy, Debug, PartialEq, Eq, Structural)]
pub struct StressState {
    /// Start of the rolling window, and the counters at that time.
    pub window_start: u64,
    pub dropped_at_start: u64,
    pub sent_at_start: u64,
    /// Time of the last early keyframe.
    pub last_trigger: u64,
    /// The interval of the auxiliary stream is shortened, from the value kept here.
    pub active: bool,
    pub original_aux_interval: u32,
}

/// What the loop remembers from one frame to the next.
#[derive(Clone, Copy, Debug, PartialEq, Eq, Structural)]
pub struct PipelineState {
    pub loop_iterations: u64,
    pub frames_sent: u64,
    /// Frames lost to backpressure, a closed gate or a failed send.
    pub frames_dropped: u64,
    /// Frames left out to keep to the frame rate.
    pub frames_paced: u64,
    pub egfx_frames_sent: u64,
    pub frames_skipped_damage: u64,
    pub encoder: Option<VideoEncoder>,
    /// The client's graphics surface is set up.
    pub has_sender: bool,
    /// The next frame is sent whole.
    pub force_first_frame: bool,
    /// A frame is kept for replay.
    pub has_cached_frame: bool,
    pub last_frame_time: u64,
    pub video_stall_reported: bool,
    pub session_start: u64,
    pub first_frame_received: bool,
    pub zero_frame_reported: bool,
    /// The graphics channel is given up for this client.
    pub egfx_gate_bypassed: bool,
    pub was_client_active: bool,
    /// The stream was recreated; the next frame tells its true size.
    pub pending_resize: bool,
    pub pts: PtsStats,
    pub stress: StressState,
}

impl PipelineState {
    /// The counters have room for one more frame.
    pub open spec fn room(self) -> bool {
        &&& self.loop_iterations < u64::MAX
        &&& self.frames_sent < u64::MAX
        &&& self.frames_dropped < u64::MAX
        &&& self.frames_paced < u64::MAX
        &&& self.egfx_frames_sent < u64::MAX
        &&& self.frames_skipped_damage < u64::MAX
        &&& self.pts.count < u64::MAX
        &&& self.pts.wf()
    }

    pub fn new(now: u64) -> (r: Self)
        ensures
            r == (PipelineState {
                loop_iterations: 0,
                frames_sent: 0,
                frames_dropped: 0,
                frames_paced: 0,
                egfx_frames_sent: 0,
                frames_skipped_damage: 0,
                encoder: None,
                has_sender: false,
                force_first_frame: false,
                has_cached_frame: false,
                last_frame_time: now,
                video_stall_reported: false,
                session_start: now,
                first_frame_received: false,
                zero_frame_reported: false,
                egfx_gate_bypassed: false,
                was_client_active: false,
                pending_resize: false,
                pts: PtsStats { last: 0, sum: 0, count: 0, min: u64::MAX, max: 0 },
                stress: StressState {
                    window_start: now,
                    dropped_at_start: 0,
                    sent_at_start: 0,
                    last_trigger: if now >= 60_000 {
                        (now - 60_000) as u64
                    } else {
                        now
                    },
                    active: false,
                    original_aux_interval: 0,
                },
            }),
            r.room(),
    {
        PipelineState {
            loop_iterations: 0,
            frames_sent: 0,
            frames_dropped: 0,
            frames_paced: 0,
            egfx_frames_sent: 0,
            frames_skipped_damage: 0,
            encoder: None,
            has_sender: false,
            force_first_frame: false,
            has_cached_frame: false,
            last_frame_time: now,
            video_stall_reported: false,
            session_start: now,
            first_frame_received: false,
            zero_frame_reported: false,
            egfx_gate_bypassed: false,
            was_client_active: false,
            pending_resize: false,
            pts: PtsStats { last: 0, sum: 0, count: 0, min: u64::MAX, max: 0 },
            stress: StressState {
                window_start: now,
                dropped_at_start: 0,
                sent_at_start: 0,
                last_trigger: if now >= 60_000 { now - 60_000 } else { now },
                active: false,
                original_aux_interval: 0,
            },
        }
    }

    /// The state for a client that has just connected.
    pub open spec fn for_new_client(self, now: u64) -> PipelineState {
        PipelineState {
            was_client_active: true,
            session_start: now,
            egfx_gate_bypassed: false,
            first_frame_received: false,
            zero_frame_reported: false,
            frames_sent: 0,
            frames_dropped: 0,
            frames_paced: 0,
            egfx_frames_sent: 0,
            encoder: None,
            has_sender: false,
            ..self
        }
    }

    fn reset_for_client(&mut self, now: u64)
        ensures
            *final(self) == old(self).for_new_client(now),
    {
        self.was_client_active = true;
        self.session_start = now;
        self.egfx_gate_bypassed = false;
        self.first_frame_received = false;
        self.zero_frame_reported = false;
        self.frames_sent = 0;
        self.frames_dropped = 0;
        self.frames_paced = 0;
        self.egfx_frames_sent = 0;
        self.encoder = None;
        self.has_sender = false;
    }
}

/// Starts a turn of the loop. Every thousandth returns the interval statistics
/// for a report and starts them anew.
pub fn begin_iteration(p: &mut PipelineState) -> (report: Option<PtsStats>)
    requires
        old(p).room(),
    ensures
        (old(p).loop_iterations + 1) % 1000 == 0 ==> report == Some(old(p).pts) && *final(p) == (
        PipelineState {
            loop_iterations: (old(p).loop_iterations + 1) as u64,
            pts: old(p).pts.cleared(),
            ..*old(p)
        }),
        (old(p).loop_iterations + 1) % 1000 != 0 ==> report is None && *final(p) == (
        PipelineState { loop_iterations: (old(p).loop_iterations + 1) as u64, ..*old(p) }),
{
    p.loop_iterations = p.loop_iterations + 1;
    if p.loop_iterations % 1000 == 0 {
        let stats = p.pts;
        p.pts = PtsStats { last: stats.last, sum: 0, count: 0, min: u64::MAX, max: 0 };
        Some(stats)
    } else {
        None
    }
}

/// A size that the client asked for.
#[derive(Clone, Copy, Debug, PartialEq, Eq, Structural)]
pub struct ResizeRequest {
    pub width: u16,
    pub height: u16,
}

/// Of all requests that are waiting, the latest counts.
pub fn coalesce_resizes(requests: &Vec<ResizeRequest>) -> (r: Option<ResizeRequest>)
    ensures
        r == (if requests@.len() == 0 {
            None
        } else {
            Some(requests@.last())
        }),
{
    if requests.len() == 0 {
        None
    } else {
        Some(requests[requests.len() - 1])
    }
}

/// What to do next to resize the capture.
pub enum ResizeStep {
    /// The capture size is fixed: nothing.
    Ignore,
    /// Switch the compositor's mode, then ask again.
    SwitchMode,
    /// There is no stream to recreate.
    NoStream,
    /// Destroy the stream on this node.
    Destroy(u32),
    /// Create a stream on this node.
    Create(u32, StreamConfig),
    /// The resize failed; capture stays without a stream.
    Failed,
}

/// First step of a resize.
pub fn begin_resize(h: &LamcoDisplayHandler) -> (r: ResizeStep)
    ensures
        r == (if h.direct_channel_mode {
            ResizeStep::Ignore
        } else {
            ResizeStep::SwitchMode
        }),
{
    if h.direct_channel_mode {
        ResizeStep::Ignore
    } else {
        ResizeStep::SwitchMode
    }
}

/// Step after the compositor's mode was switched: the stream on the node that
/// is captured now goes.
pub fn resize_after_mode_switch(h: &LamcoDisplayHandler) -> (r: ResizeStep)
    ensures
        r == (if h.has_streams {
            ResizeStep::Destroy(h.capture_node)
        } else {
            ResizeStep::NoStream
        }),
{
    if h.has_streams {
        ResizeStep::Destroy(h.capture_node)
    } else {
        ResizeStep::NoStream
    }
}

/// Step after the old stream was destroyed, or was not.
pub fn resize_after_destroy(h: &LamcoDisplayHandler, req: ResizeRequest, destroyed: bool) -> (r:
    ResizeStep)
    ensures
        !destroyed ==> r is Failed,
        destroyed ==> (r matches ResizeStep::Create(node, config) && node == h.capture_node
            && config.is_for(0, req.width as u32, req.height as u32, h.use_dmabuf)),
{
    if destroyed {
        ResizeStep::Create(h.capture_node, h.rebind_config(req.width as u32, req.height as u32))
    } else {
        ResizeStep::Failed
    }
}

/// Records whether the new stream was created. Where it was, encoder and surface
/// are set up anew once the first frame tells the size; the damage detector is
/// to be invalidated.
pub fn resize_after_create(p: &mut PipelineState, created: bool)
    ensures
        *final(p) == (if created {
            PipelineState {
                pending_resize: true,
                encoder: None,
                has_sender: false,
                force_first_frame: false,
                ..*old(p)
            }
        } else {
            *old(p)
        }),
{
    if created {
        p.pending_resize = true;
        p.encoder = None;
        p.has_sender = false;
        p.force_first_frame = false;
    }
}

/// What a received frame entails.
#[derive(Clone, Copy, Debug, PartialEq, Eq)]
pub struct FrameArrival {
    /// A client is there: the frame is processed.
    pub proceed: bool,
    /// The desktop now has this size.
    pub resized: Option<(u16, u16)>,
    /// A reported stall is over.
    pub resumed: bool,
    /// The client has just connected.
    pub new_client: bool,
}

/// Takes note of a frame from the stream.
pub fn on_frame(
    p: &mut PipelineState,
    h: &mut LamcoDisplayHandler,
    now: u64,
    pts: u64,
    width: u32,
    height: u32,
) -> (r: FrameArrival)
    requires
        old(p).room(),
    ensures
        r.proceed == old(h).client_active,
        r.resized == (if old(p).pending_resize {
            Some((width as u16, height as u16))
        } else {
            None
        }),
        r.resumed == old(p).video_stall_reported,
        r.new_client == (old(h).client_active && !old(p).was_client_active),
        ({
            let noted = PipelineState {
                has_cached_frame: true,
                last_frame_time: now,
                pts: old(p).pts.recorded(pts),
                first_frame_received: true,
                pending_resize: false,
                video_stall_reported: false,
                ..*old(p)
            };
            *final(p) == client_noted(noted, old(h).client_active, now)
        }),
        *final(h) == (LamcoDisplayHandler {
            egfx_needs_init: old(h).egfx_needs_init || old(p).pending_resize || r.new_client,
            width: if old(p).pending_resize {
                width as u16
            } else {
                old(h).width
            },
            height: if old(p).pending_resize {
                height as u16
            } else {
                old(h).height
            },
            ..*old(h)
        }),
{
    p.has_cached_frame = true;
    p.last_frame_time = now;
    p.pts.record(pts);
    p.first_frame_received = true;
    let mut resized: Option<(u16, u16)> = None;
    if p.pending_resize {
        p.pending_resize = false;
        h.egfx_needs_init = true;
        h.update_size(width as u16, height as u16);
        resized = Some((width as u16, height as u16));
    }
    let resumed = p.video_stall_reported;
    p.video_stall_reported = false;
    let new_client = note_client(p, h, now);
    FrameArrival { proceed: h.client_active, resized, resumed, new_client }
}

/// What the absence of a frame entails.
#[derive(Clone, Copy, Debug, PartialEq, Eq, Structural)]
pub struct NoFrame {
    /// Report a stall of this many milliseconds.
    pub stalled: Option<u64>,
    /// Report that no frame came since the start, this many milliseconds ago.
    pub never_started: Option<u64>,
    /// Recreate the stream on its node, in memory instead of GPU buffers.
    pub rebind: bool,
    /// The client has just connected.
    pub new_client: bool,
    /// Process the kept frame.
    pub replay: bool,
}

/// The stream is stuck: it is meant to deliver, delivered before, and has not
/// for more than ten seconds. Reported once.
pub open spec fn stall_due(p: PipelineState, h: LamcoDisplayHandler, now: u64) -> bool {
    h.stream_active != Some(false) && p.has_cached_frame && !p.video_stall_reported && since(
        p.last_frame_time,
        now,
    ) > 10_000
}

/// No frame at all came for more than ten seconds. Reported once.
pub open spec fn zero_frames_due(p: PipelineState, now: u64) -> bool {
    !p.first_frame_received && !p.zero_frame_reported && since(p.session_start, now) > 10_000
}

/// The state once a missing frame was looked into.
pub open spec fn missing_noted(
    p: PipelineState,
    h: LamcoDisplayHandler,
    now: u64,
) -> PipelineState {
    PipelineState {
        video_stall_reported: p.video_stall_reported || stall_due(p, h, now),
        zero_frame_reported: p.zero_frame_reported || zero_frames_due(p, now),
        ..p
    }
}

/// Looks into a missing frame: a stall, and a stream that never started, with
/// whether it used GPU buffers, which are then given up.
fn note_missing(p: &mut PipelineState, h: &mut LamcoDisplayHandler, now: u64) -> (r: (
    Option<u64>,
    Option<u64>,
    bool,
))
    ensures
        r.0 == (if stall_due(*old(p), *old(h), now) {
            Some(since(old(p).last_frame_time, now) as u64)
        } else {
            None
        }),
        r.1 == (if zero_frames_due(*old(p), now) {
            Some(since(old(p).session_start, now) as u64)
        } else {
            None
        }),
        r.2 == (zero_frames_due(*old(p), now) && old(h).use_dmabuf),
        *final(p) == missing_noted(*old(p), *old(h), now),
        *final(h) == (LamcoDisplayHandler {
            use_dmabuf: old(h).use_dmabuf && !zero_frames_due(*old(p), now),
            ..*old(h)
        }),
{
    let mut stalled: Option<u64> = None;
    let streaming = match h.stream_active {
        Some(active) => active,
        None => true,
    };
    let idle: u64 = ms_since(p.last_frame_time, now);
    if streaming && p.has_cached_frame && !p.video_stall_reported && idle > 10_000 {
        p.video_stall_reported = true;
        stalled = Some(idle);
    }
    let mut never_started: Option<u64> = None;
    let mut rebind = false;
    let waited: u64 = ms_since(p.session_start, now);
    if !p.first_frame_received && !p.zero_frame_reported && waited > 10_000 {
        p.zero_frame_reported = true;
        rebind = h.use_dmabuf;
        h.use_dmabuf = false;
        never_started = Some(waited);
    }
    (stalled, never_started, rebind)
}

/// The state once the presence of a client was looked into.
pub open spec fn client_noted(p: PipelineState, active: bool, now: u64) -> PipelineState {
    if !active {
        PipelineState { was_client_active: false, ..p }
    } else if !p.was_client_active {
        p.for_new_client(now)
    } else {
        p
    }
}

/// Looks into the presence of a client. Returns whether it has just connected.
fn note_client(p: &mut PipelineState, h: &mut LamcoDisplayHandler, now: u64) -> (new_client: bool)
    ensures
        new_client == (old(h).client_active && !old(p).was_client_active),
        *final(p) == client_noted(*old(p), old(h).client_active, now),
        *final(h) == (LamcoDisplayHandler {
            egfx_needs_init: old(h).egfx_needs_init || new_client,
            ..*old(h)
        }),
{
    if !h.client_active {
        p.was_client_active = false;
        false
    } else if !p.was_client_active {
        p.reset_for_client(now);
        h.egfx_needs_init = true;
        true
    } else {
        false
    }
}

/// Takes note that no frame is there.
pub fn on_no_frame(p: &mut PipelineState, h: &mut LamcoDisplayHandler, now: u64) -> (r: NoFrame)
    ensures
        r.stalled == (if stall_due(*old(p), *old(h), now) {
            Some(since(old(p).last_frame_time, now) as u64)
        } else {
            None
        }),
        r.never_started == (if zero_frames_due(*old(p), now) {
            Some(since(old(p).session_start, now) as u64)
        } else {
            None
        }),
        r.rebind == (zero_frames_due(*old(p), now) && old(h).use_dmabuf),
        r.new_client == (old(h).client_active && !old(p).was_client_active),
        r.replay == (old(h).client_active && final(h).egfx_needs_init && old(h).egfx_ready()
            && old(h).avc_supported() && old(p).has_cached_frame),
        *final(p) == client_noted(
            missing_noted(*old(p), *old(h), now),
            old(h).client_active,
            now,
        ),
        *final(h) == (LamcoDisplayHandler {
            use_dmabuf: old(h).use_dmabuf && !zero_frames_due(*old(p), now),
            egfx_needs_init: old(h).egfx_needs_init || r.new_client,
            ..*old(h)
        }),
{
    let (stalled, never_started, rebind) = note_missing(p, h, now);
    let new_client = note_client(p, h, now);
    let replay = h.client_active && h.egfx_needs_init && h.is_egfx_ready() && h.is_avc_supported()
        && p.has_cached_frame;
    NoFrame { stalled, never_started, rebind, new_client, replay }
}

/// The fallback from GPU buffers fires at most once: afterwards they are off.
pub proof fn law_dmabuf_fallback_once(
    before: LamcoDisplayHandler,
    after: LamcoDisplayHandler,
    p: PipelineState,
    later: PipelineState,
    now: u64,
    then: u64,
)
    requires
        zero_frames_due(p, now),
        after.use_dmabuf == (before.use_dmabuf && !zero_frames_due(p, now)),
    ensures
        !(zero_frames_due(later, then) && after.use_dmabuf),
{
}

/// A stall is reported once: none is due again before a frame has come.
pub proof fn law_stall_reported_once(p: PipelineState, h: LamcoDisplayHandler, now: u64)
    requires
        p.video_stall_reported,
    ensures
        !stall_due(p, h, now),
{
}

/// The state once a frame was left out to keep to the frame rate, or was not.
pub open spec fn paced(p: PipelineState, within_rate: bool) -> PipelineState {
    if within_rate {
        p
    } else {
        PipelineState { frames_paced: (p.frames_paced + 1) as u64, ..p }
    }
}

/// Whether a frame is processed or left out to keep to the frame rate.
pub fn pace(p: &mut PipelineState, within_rate: bool) -> (process: bool)
    requires
        old(p).room(),
    ensures
        process == within_rate,
        *final(p) == paced(*old(p), within_rate),
{
    if !within_rate {
        p.frames_paced = p.frames_paced + 1;
    }
    within_rate
}

/// The wait for the graphics channel is over: it has been given up, is ready, or
/// is given up now, more than five seconds after the connection began.
pub open spec fn gate_open(p: PipelineState, h: LamcoDisplayHandler, now: u64) -> bool {
    p.egfx_gate_bypassed || h.egfx_ready() || (p.first_frame_received && since(
        p.session_start,
        now,
    ) > 5000)
}

/// The state once a frame was let through or held back.
pub open spec fn gated(p: PipelineState, h: LamcoDisplayHandler, now: u64) -> PipelineState {
    let pass = gate_open(p, h, now);
    PipelineState {
        frames_sent: (p.frames_sent + 1) as u64,
        frames_dropped: (p.frames_dropped + (if pass {
            0int
        } else {
            1
        })) as u64,
        egfx_gate_bypassed: pass && (p.egfx_gate_bypassed || !h.egfx_ready()),
        ..p
    }
}

/// Counts a frame and holds it back while the graphics channel is negotiated.
pub fn pass_gate(p: &mut PipelineState, h: &LamcoDisplayHandler, now: u64) -> (pass: bool)
    requires
        old(p).room(),
    ensures
        pass == gate_open(*old(p), *h, now),
        *final(p) == gated(*old(p), *h, now),
{
    p.frames_sent = p.frames_sent + 1;
    if !p.egfx_gate_bypassed && !h.is_egfx_ready() {
        let elapsed: u64 = ms_since(p.session_start, now);
        if p.first_frame_received && elapsed > 5000 {
            p.egfx_gate_bypassed = true;
        } else {
            p.frames_dropped = p.frames_dropped + 1;
            return false;
        }
    }
    true
}

/// The graphics channel is given up only for a client that has waited more than
/// five seconds without it, counted from its own connection.
pub proof fn law_gate_bypass_needs_wait(p: PipelineState, h: LamcoDisplayHandler, now: u64)
    requires
        !p.egfx_gate_bypassed,
        gate_open(p, h, now),
        !h.egfx_ready(),
    ensures
        since(p.session_start, now) > 5000,
        !p.for_new_client(now).egfx_gate_bypassed,
        since(p.for_new_client(now).session_start, now) == 0,
{
}

/// What the stress detector asks for.
#[derive(Clone, Copy, Debug, PartialEq, Eq, Structural)]
pub struct StressAction {
    /// Ask the encoder for a keyframe.
    pub request_idr: bool,
    /// Set the interval of the auxiliary stream.
    pub set_aux_interval: Option<u32>,
}

/// Half an interval, at least five.
pub open spec fn shrunk_interval(interval: u32) -> u32 {
    if interval / 2 < 5 {
        5
    } else {
        interval / 2
    }
}

/// The drop rate of the window, the cooldown and the age of the last keyframe
/// call for an early keyframe.
pub open spec fn stress_triggers(p: PipelineState, now: u64, ms_since_last_idr: u64) -> bool {
    let dropped = since(p.stress.dropped_at_start, p.frames_dropped);
    let sent = since(p.stress.sent_at_start, p.frames_sent);
    &&& ratio_gt(drop_rate(dropped as u64, sent as u64), Ratio { num: 1, den: 2 })
    &&& dropped + sent >= 5
    &&& since(p.stress.last_trigger, now) > 1000
    &&& ms_since_last_idr > 1500
}

/// The stress is over: no trigger for more than five seconds.
pub open spec fn stress_recovers(p: PipelineState, now: u64, ms_since_last_idr: u64) -> bool {
    p.stress.active && !stress_triggers(p, now, ms_since_last_idr) && since(
        p.stress.last_trigger,
        now,
    ) > 5000
}

/// The age of the last keyframe, as far as the encoder in use knows it.
pub open spec fn idr_age(p: PipelineState, reported: u64) -> u64 {
    if p.encoder == Some(VideoEncoder::Avc444) {
        reported
    } else {
        u64::MAX
    }
}

/// The detector is evaluated: there is an encoder, and a second has passed.
pub open spec fn stress_due(p: PipelineState, now: u64) -> bool {
    p.encoder is Some && since(p.stress.window_start, now) >= 1000
}

/// What an evaluation of the detector asks for.
pub open spec fn stress_action(
    p: PipelineState,
    now: u64,
    reported_idr_age: u64,
    aux_interval: u32,
) -> StressAction {
    let age = idr_age(p, reported_idr_age);
    let is444 = p.encoder == Some(VideoEncoder::Avc444);
    let triggers = stress_triggers(p, now, age);
    let recovers = stress_recovers(p, now, age);
    if !stress_due(p, now) {
        StressAction { request_idr: false, set_aux_interval: None }
    } else {
        StressAction {
            request_idr: triggers,
            set_aux_interval: if triggers && is444 && !p.stress.active {
                Some(shrunk_interval(aux_interval))
            } else if recovers && is444 && p.stress.original_aux_interval > 0 && aux_interval
                != p.stress.original_aux_interval {
                Some(p.stress.original_aux_interval)
            } else {
                None
            },
        }
    }
}

/// The state after an evaluation of the detector.
pub open spec fn stressed(
    p: PipelineState,
    now: u64,
    reported_idr_age: u64,
    aux_interval: u32,
) -> PipelineState {
    let age = idr_age(p, reported_idr_age);
    let is444 = p.encoder == Some(VideoEncoder::Avc444);
    let triggers = stress_triggers(p, now, age);
    let recovers = stress_recovers(p, now, age);
    if !stress_due(p, now) {
        p
    } else {
        PipelineState {
            stress: StressState {
                window_start: now,
                dropped_at_start: p.frames_dropped,
                sent_at_start: p.frames_sent,
                last_trigger: if triggers {
                    now
                } else {
                    p.stress.last_trigger
                },
                active: (p.stress.active && !recovers) || (triggers && is444),
                original_aux_interval: if triggers && is444 && !p.stress.active {
                    aux_interval
                } else if recovers {
                    0
                } else {
                    p.stress.original_aux_interval
                },
            },
            ..p
        }
    }
}

/// Evaluates the stress detector once per second.
///
/// A trigger asks for an early keyframe, which breaks a chain of predicted
/// frames that the client can no longer follow, and halves the interval of the
/// auxiliary stream, where there is one. Recovery restores that interval.
pub fn stress_step(
    p: &mut PipelineState,
    now: u64,
    reported_idr_age: u64,
    aux_interval: u32,
) -> (r: StressAction)
    requires
        old(p).frames_dropped + old(p).frames_sent <= u64::MAX,
    ensures
        r == stress_action(*old(p), now, reported_idr_age, aux_interval),
        *final(p) == stressed(*old(p), now, reported_idr_age, aux_interval),
{
    let encoder = match p.encoder {
        Some(e) => e,
        None => {
            return StressAction { request_idr: false, set_aux_interval: None };
        },
    };
    let window: u64 = ms_since(p.stress.window_start, now);
    if window < 1000 {
        return StressAction { request_idr: false, set_aux_interval: None };
    }
    let is444 = match encoder {
        VideoEncoder::Avc444 => true,
        _ => false,
    };
    let dropped: u64 = ms_since(p.stress.dropped_at_start, p.frames_dropped);
    let sent: u64 = ms_since(p.stress.sent_at_start, p.frames_sent);
    let cooldown: u64 = ms_since(p.stress.last_trigger, now);
    let age: u64 = encoder.ms_since_last_idr(reported_idr_age);
    let eval = evaluate_stress_idr_trigger(
        dropped,
        sent,
        Ratio { num: 1, den: 2 },
        cooldown,
        1000,
        age,
        1500,
    );
    let mut set_aux_interval: Option<u32> = None;
    if eval.should_trigger {
        p.stress.last_trigger = now;
        if is444 && !p.stress.active {
            p.stress.original_aux_interval = aux_interval;
            let half: u32 = aux_interval / 2;
            set_aux_interval = Some(if half < 5 { 5 } else { half });
            p.stress.active = true;
        }
    }
    let since_trigger: u64 = ms_since(p.stress.last_trigger, now);
    if p.stress.active && since_trigger > 5000 {
        if is444 && p.stress.original_aux_interval > 0 && aux_interval
            != p.stress.original_aux_interval {
            set_aux_interval = Some(p.stress.original_aux_interval);
        }
        p.stress.active = false;
        p.stress.original_aux_interval = 0;
    }
    p.stress.window_start = now;
    p.stress.dropped_at_start = p.frames_dropped;
    p.stress.sent_at_start = p.frames_sent;
    StressAction { request_idr: eval.should_trigger, set_aux_interval }
}

/// Way by which a frame goes to the client.
#[derive(Clone, Copy, Debug, PartialEq, Eq, Structural)]
pub enum FramePath {
    /// Graphics channel, client decodes H.264.
    Avc,
    /// Graphics channel, client does not decode H.264.
    Plain,
    /// Bitmap updates.
    Bitmap,
}

/// The way for a frame, and whether encoder and surface are set up first.
#[derive(Clone, Copy, Debug, PartialEq, Eq, Structural)]
pub struct PathChoice {
    pub path: FramePath,
    pub needs_init: bool,
    /// The client's decoder lost sync and starts over.
    pub reinit: bool,
}

/// The client asked for a full re-initialisation.
pub open spec fn reinit_asked(h: LamcoDisplayHandler) -> bool {
    h.gfx_state is Some && h.gfx_state->0.needs_full_reinit
}

/// The way for a frame.
pub open spec fn path_choice(p: PipelineState, h: LamcoDisplayHandler) -> PathChoice {
    PathChoice {
        path: if p.egfx_gate_bypassed {
            FramePath::Bitmap
        } else if h.avc_supported() {
            FramePath::Avc
        } else if h.egfx_ready() {
            FramePath::Plain
        } else {
            FramePath::Bitmap
        },
        needs_init: reinit_asked(h) || (!p.egfx_gate_bypassed && h.egfx_needs_init),
        reinit: reinit_asked(h),
    }
}

/// The state once the way was chosen: a re-initialisation starts the stress
/// detector over.
pub open spec fn path_chosen(p: PipelineState, h: LamcoDisplayHandler, now: u64) -> PipelineState {
    if reinit_asked(h) {
        PipelineState {
            stress: StressState {
                window_start: now,
                dropped_at_start: p.frames_dropped,
                sent_at_start: p.frames_sent,
                last_trigger: now,
                active: false,
                original_aux_interval: if p.stress.active {
                    0
                } else {
                    p.stress.original_aux_interval
                },
            },
            ..p
        }
    } else {
        p
    }
}

/// The handler once the way was chosen: a request for re-initialisation is
/// answered, and a client without the graphics channel waits for no surface.
pub open spec fn path_noted(p: PipelineState, h: LamcoDisplayHandler) -> LamcoDisplayHandler {
    let c = path_choice(p, h);
    LamcoDisplayHandler {
        gfx_state: match h.gfx_state {
            Some(s) => Some(SharedHandlerState { needs_full_reinit: false, ..s }),
            None => None,
        },
        egfx_needs_init: (h.egfx_needs_init || c.reinit) && !(c.needs_init && c.path
            == FramePath::Bitmap),
        ..h
    }
}

/// Chooses the way for a frame.
///
/// A request for a full re-initialisation is answered once, and the stress
/// detector starts over with it, so that drops from before do not trigger at
/// once. The flag for initialisation stays until the surface is set up, except
/// for a client without the graphics channel, which never gets there.
pub fn choose_path(p: &mut PipelineState, h: &mut LamcoDisplayHandler, now: u64) -> (r: PathChoice)
    ensures
        r == path_choice(*old(p), *old(h)),
        *final(p) == path_chosen(*old(p), *old(h), now),
        *final(h) == path_noted(*old(p), *old(h)),
        ({
            let ready = old(h).has_event_sender && old(h).has_gfx_handle && old(h).gfx_state is Some
                && old(h).gfx_state->0.is_ready;
            let avc = old(h).gfx_state is Some && old(h).gfx_state->0.client_supports_avc420;
            &&& r.path == FramePath::Avc <==> !old(p).egfx_gate_bypassed && avc
            &&& r.path == FramePath::Plain <==> !old(p).egfx_gate_bypassed && !avc && ready
            &&& r.path == FramePath::Bitmap <==> old(p).egfx_gate_bypassed || (!avc && !ready)
            &&& r.path != FramePath::Bitmap && old(h).egfx_needs_init ==> r.needs_init
                && final(h).egfx_needs_init
            &&& r.needs_init && r.path == FramePath::Bitmap ==> !final(h).egfx_needs_init
        }),
{
    let mut needs_init = !p.egfx_gate_bypassed && h.egfx_needs_init;
    let mut reinit = false;
    match h.gfx_state {
        Some(s) => {
            reinit = s.needs_full_reinit;
            let mut cleared = s;
            cleared.needs_full_reinit = false;
            h.gfx_state = Some(cleared);
        },
        None => {},
    }
    if reinit {
        h.egfx_needs_init = true;
        needs_init = true;
        p.stress.window_start = now;
        p.stress.dropped_at_start = p.frames_dropped;
        p.stress.sent_at_start = p.frames_sent;
        p.stress.last_trigger = now;
        if p.stress.active {
            p.stress.active = false;
            p.stress.original_aux_interval = 0;
        }
    }
    let is_avc = !p.egfx_gate_bypassed && h.is_avc_supported();
    let is_egfx = !p.egfx_gate_bypassed && h.is_egfx_ready();
    if needs_init && !is_avc && !is_egfx {
        h.egfx_needs_init = false;
    }
    let path = if is_avc {
        FramePath::Avc
    } else if is_egfx {
        FramePath::Plain
    } else {
        FramePath::Bitmap
    };
    PathChoice { path, needs_init, reinit }
}

/// What becomes of a frame before it is encoded.
#[derive(Clone, Copy, Debug, PartialEq, Eq, Structural)]
pub enum FrameStep {
    /// Left out to keep to the frame rate.
    Paced,
    /// Left out: it would have to be turned, and its pixels are not in memory.
    NotTurnable,
    /// Held back while the graphics channel is negotiated.
    Held,
    /// Goes this way, after the encoder was told what the stress detector asks for.
    Go { stress: StressAction, choice: PathChoice },
}

/// Takes a frame up to the choice of its way: it keeps to the frame rate, can be
/// turned where it must be, is let through, and the stress detector is evaluated.
pub fn process_frame(
    p: &mut PipelineState,
    h: &mut LamcoDisplayHandler,
    within_rate: bool,
    must_turn: bool,
    in_memory: bool,
    now: u64,
    reported_idr_age: u64,
    aux_interval: u32,
) -> (r: FrameStep)
    requires
        old(p).room(),
        old(p).frames_dropped + old(p).frames_sent < u64::MAX,
    ensures
        ({
            let g = gated(*old(p), *old(h), now);
            let s = stressed(g, now, reported_idr_age, aux_interval);
            if !within_rate {
                &&& r == FrameStep::Paced
                &&& *final(p) == paced(*old(p), false)
                &&& *final(h) == *old(h)
            } else if must_turn && !in_memory {
                r == FrameStep::NotTurnable && *final(p) == *old(p) && *final(h) == *old(h)
            } else if !gate_open(*old(p), *old(h), now) {
                r == FrameStep::Held && *final(p) == g && *final(h) == *old(h)
            } else {
                &&& r == FrameStep::Go {
                    stress: stress_action(g, now, reported_idr_age, aux_interval),
                    choice: path_choice(s, *old(h)),
                }
                &&& *final(p) == path_chosen(s, *old(h), now)
                &&& *final(h) == path_noted(s, *old(h))
            }
        }),
{
    if !pace(p, within_rate) {
        return FrameStep::Paced;
    }
    if must_turn && !in_memory {
        return FrameStep::NotTurnable;
    }
    if !pass_gate(p, h, now) {
        return FrameStep::Held;
    }
    let stress = stress_step(p, now, reported_idr_age, aux_interval);
    let choice = choose_path(p, h, now);
    FrameStep::Go { stress, choice }
}

/// A frame that does not go on leaves encoder, surface and handler alone.
pub proof fn law_left_out_frames_change_counters_only(
    p: PipelineState,
    h: LamcoDisplayHandler,
    now: u64,
)
    requires
        !gate_open(p, h, now),
    ensures
        gated(p, h, now).encoder == p.encoder,
        gated(p, h, now).has_sender == p.has_sender,
        gated(p, h, now).stress == p.stress,
        gated(p, h, now).egfx_gate_bypassed == p.egfx_gate_bypassed,
        paced(p, false).encoder == p.encoder,
        paced(p, false).frames_sent == p.frames_sent,
        paced(p, false).frames_dropped == p.frames_dropped,
{
}

/// Early keyframes are more than a second apart: one that is asked for is
/// remembered, and none is asked for within a second of it, whatever state the
/// pipeline is in by then.
pub proof fn law_keyframes_are_spaced(
    p: PipelineState,
    now: u64,
    age: u64,
    aux: u32,
    later: PipelineState,
    then: u64,
    later_age: u64,
    later_aux: u32,
)
    requires
        stress_action(p, now, age, aux).request_idr,
        later.stress.last_trigger == stressed(p, now, age, aux).stress.last_trigger,
        then <= now + 1000,
    ensures
        stressed(p, now, age, aux).stress.last_trigger == now,
        !stress_action(later, then, later_age, later_aux).request_idr,
{
}

/// The encoders to try, in order: AVC444 where it is enabled, x264 where it is
/// built in and the configured backend is `x264` or `auto`, and last OpenH264.
pub open spec fn encoder_rungs(avc444: bool, backend: Seq<char>, x264_built: bool) -> Seq<
    VideoEncoder,
> {
    (if avc444 {
        seq![VideoEncoder::Avc444]
    } else {
        seq![]
    }) + (if x264_built && (backend == "x264"@ || backend == "auto"@) {
        seq![VideoEncoder::X264]
    } else {
        seq![]
    }) + seq![VideoEncoder::Avc420]
}

/// The encoders to try, in order. `backend` is the configured one in lower case.
pub fn encoder_ladder(avc444_enabled: bool, backend: &str, x264_built: bool) -> (r: Vec<
    VideoEncoder,
>)
    ensures
        r@ == encoder_rungs(avc444_enabled, backend@, x264_built),
{
    let mut r: Vec<VideoEncoder> = Vec::new();
    if avc444_enabled {
        r.push(VideoEncoder::Avc444);
    }
    if x264_built && (same_text(backend, "x264") || same_text(backend, "auto")) {
        r.push(VideoEncoder::X264);
    }
    r.push(VideoEncoder::Avc420);
    assert(r@ =~= encoder_rungs(avc444_enabled, backend@, x264_built));
    r
}

/// The encoders to try, in order, and what the log says of the codec. `codec` and
/// `backend` are the configured ones, in whatever case.
pub fn choose_encoders(
    codec: &str,
    backend: &str,
    client_supports_avc444: bool,
    config_avc444_enabled: bool,
    x264_built: bool,
) -> (r: (Vec<VideoEncoder>, &'static str))
    ensures
        ({
            let decision = avc444_decision(
                lowercase_of(codec@),
                client_supports_avc444,
                config_avc444_enabled,
            );
            &&& r.0@ == encoder_rungs(decision.0, lowercase_of(backend@), x264_built)
            &&& r.1@ == decision.1
        }),
{
    let preference = to_lowercase(codec);
    let chosen = to_lowercase(backend);
    let (avc444, reason) = resolve_avc444_enabled(
        preference.as_str(),
        client_supports_avc444,
        config_avc444_enabled,
    );
    (encoder_ladder(avc444, chosen.as_str(), x264_built), reason)
}

/// Forgets encoder and surface, before they are set up for a client. The damage
/// detector is to be invalidated.
pub fn begin_init(p: &mut PipelineState)
    ensures
        *final(p) == (PipelineState { encoder: None, has_sender: false, ..*old(p) }),
{
    p.encoder = None;
    p.has_sender = false;
}

/// Keeps the first encoder of the ladder that could be built; `built[i]` is
/// whether the `i`th could.
pub fn keep_first_built(p: &mut PipelineState, ladder: &Vec<VideoEncoder>, built: &Vec<bool>)
    requires
        ladder@.len() == built@.len(),
    ensures
        *final(p) == (PipelineState { encoder: final(p).encoder, ..*old(p) }),
        (forall|i: int| 0 <= i < built@.len() ==> !#[trigger] built@[i]) ==> final(p).encoder
            is None,
        forall|i: int|
            0 <= i < built@.len() && #[trigger] built@[i] && (forall|k: int|
                0 <= k < i ==> !#[trigger] built@[k]) ==> final(p).encoder == Some(ladder@[i]),
{
    let mut i: usize = 0;
    p.encoder = None;
    while i < built.len()
        invariant
            0 <= i <= built@.len(),
            ladder@.len() == built@.len(),
            forall|k: int| 0 <= k < i ==> !#[trigger] built@[k],
            *p == (PipelineState { encoder: None, ..*old(p) }),
        decreases built@.len() - i,
    {
        if built[i] {
            p.encoder = Some(ladder[i]);
            return;
        }
        i = i + 1;
    }
}

/// Records whether the surface could be set up. Only success clears the flag
/// for initialisation; the next frame tries again otherwise.
pub fn surface_set_up(p: &mut PipelineState, h: &mut LamcoDisplayHandler, ok: bool)
    ensures
        ok ==> *final(p) == (PipelineState { has_sender: true, force_first_frame: true, ..*old(p) })
            && *final(h) == (LamcoDisplayHandler { egfx_needs_init: false, ..*old(h) }),
        !ok ==> *final(p) == *old(p) && *final(h) == *old(h),
{
    if ok {
        p.has_sender = true;
        p.force_first_frame = true;
        h.egfx_needs_init = false;
    }
}

/// How a frame is delivered.
#[derive(Clone, Copy, Debug, PartialEq, Eq, Structural)]
pub enum Delivery {
    /// Encoded, over the graphics channel.
    Encoded,
    /// Raw pixels over the graphics channel.
    Uncompressed,
    /// Bitmap updates.
    Bitmap,
}

/// How a frame is delivered, given its way, encoder and surface.
pub open spec fn delivery_for(p: PipelineState, path: FramePath) -> Delivery {
    if path == FramePath::Bitmap || !p.has_sender {
        Delivery::Bitmap
    } else if path == FramePath::Avc && p.encoder is Some {
        Delivery::Encoded
    } else {
        Delivery::Uncompressed
    }
}

/// How a frame is delivered.
pub fn choose_delivery(p: &PipelineState, path: FramePath) -> (r: Delivery)
    ensures
        r == delivery_for(*p, path),
{
    match path {
        FramePath::Bitmap => Delivery::Bitmap,
        FramePath::Avc => {
            if !p.has_sender {
                Delivery::Bitmap
            } else if p.encoder.is_some() {
                Delivery::Encoded
            } else {
                Delivery::Uncompressed
            }
        },
        FramePath::Plain => {
            if p.has_sender {
                Delivery::Uncompressed
            } else {
                Delivery::Bitmap
            }
        },
    }
}

/// Once a client has its surface, frames of the graphics channel never go as
/// bitmaps: the client would not show them.
pub proof fn law_no_bitmap_on_surface(p: PipelineState, path: FramePath)
    requires
        p.has_sender,
        path != FramePath::Bitmap,
    ensures
        delivery_for(p, path) != Delivery::Bitmap,
{
}

/// Whether a frame is encoded.
#[derive(Clone, Copy, Debug, PartialEq, Eq, Structural)]
pub enum EncodeAdmission {
    /// Dropped.
    Drop,
    /// Encoded, whole where `force_full` holds.
    Proceed { force_full: bool },
}

/// Admits a frame to the encoder.
///
/// Dropped where the client lags behind, where the pixels are not in memory, and
/// where they are fewer than the size says. The first frame after the surface
/// was set up, and one on which a periodic keyframe falls, goes whole.
pub fn admit_to_encoder(
    p: &mut PipelineState,
    throttle: bool,
    in_memory: bool,
    data_len: usize,
    width: u32,
    height: u32,
    reported_idr_due: bool,
) -> (r: EncodeAdmission)
    requires
        old(p).room(),
        !throttle && in_memory ==> width * height <= u32::MAX && width * height * 4 <= u32::MAX,
    ensures
        ({
            let admitted = !throttle && in_memory && data_len >= width * height * 4;
            let idr_due = old(p).encoder == Some(VideoEncoder::Avc444) && reported_idr_due;
            &&& r == (if admitted {
                EncodeAdmission::Proceed { force_full: idr_due || old(p).force_first_frame }
            } else {
                EncodeAdmission::Drop
            })
            &&& *final(p) == (if admitted {
                PipelineState { force_first_frame: false, ..*old(p) }
            } else {
                PipelineState { frames_dropped: (old(p).frames_dropped + 1) as u64, ..*old(p) }
            })
        }),
{
    if throttle || !in_memory {
        p.frames_dropped = p.frames_dropped + 1;
        return EncodeAdmission::Drop;
    }
    let expected: u32 = width * height * 4;
    if (data_len as u64) < expected as u64 {
        p.frames_dropped = p.frames_dropped + 1;
        return EncodeAdmission::Drop;
    }
    let idr_due = match p.encoder {
        Some(e) => e.is_periodic_idr_due(reported_idr_due),
        None => false,
    };
    let force_full = idr_due || p.force_first_frame;
    p.force_first_frame = false;
    EncodeAdmission::Proceed { force_full }
}

/// Where the damage of a frame comes from.
#[derive(Clone, Copy, Debug, PartialEq, Eq, Structural)]
pub enum DamageSource {
    /// The frame goes whole.
    Forced,
    /// Pixels were compared.
    PixelDiff,
    /// The compositor said so.
    CompositorHint,
    /// Nothing tells: the frame goes whole.
    Disabled,
}

/// Where to take the damage from. Comparing pixels is preferred to the
/// compositor's hints, which can leave out what changed.
pub fn choose_damage_source(force_full: bool, has_detector: bool, has_hints: bool) -> (r:
    DamageSource)
    ensures
        r == (if force_full {
            DamageSource::Forced
        } else if has_detector {
            DamageSource::PixelDiff
        } else if has_hints {
            DamageSource::CompositorHint
        } else {
            DamageSource::Disabled
        }),
{
    if force_full {
        DamageSource::Forced
    } else if has_detector {
        DamageSource::PixelDiff
    } else if has_hints {
        DamageSource::CompositorHint
    } else {
        DamageSource::Disabled
    }
}

/// The damage of a frame from its source: all of it where the source is none.
pub fn fresh_damage(
    source: DamageSource,
    detected: Vec<DamageRegion>,
    hints: Vec<DamageRegion>,
    width: u32,
    height: u32,
) -> (r: Vec<DamageRegion>)
    ensures
        r@ == (match source {
            DamageSource::PixelDiff => detected@,
            DamageSource::CompositorHint => hints@,
            _ => seq![DamageRegion { x: 0, y: 0, width, height }],
        }),
{
    match source {
        DamageSource::PixelDiff => detected,
        DamageSource::CompositorHint => hints,
        _ => {
            let mut r: Vec<DamageRegion> = Vec::new();
            r.push(DamageRegion::full_frame(width, height));
            assert(r@ =~= seq![DamageRegion { x: 0, y: 0, width, height }]);
            r
        },
    }
}

/// Puts the damage of frames that were not sent in front of that of this one.
pub fn with_debt(debt: &DamageAccumulator, fresh: Vec<DamageRegion>) -> (r: Vec<DamageRegion>)
    requires
        all_fit(debt@),
        all_fit(fresh@),
    ensures
        r@ == debt@ + fresh@,
        all_fit(r@),
        covers(r@, debt@),
        covers(r@, fresh@),
{
    let mut r = vstd::slice::slice_to_vec(debt.regions());
    let mut rest = fresh;
    r.append(&mut rest);
    proof {
        lemma_part_covered(debt@, fresh@);
    }
    r
}

proof fn lemma_part_covered(a: Seq<DamageRegion>, b: Seq<DamageRegion>)
    ensures
        covers(a + b, a),
        covers(a + b, b),
{
    reveal(some_holds);
    let s = a + b;
    assert forall|i: int| 0 <= i < a.len() implies some_holds(s, #[trigger] a[i]) by {
        assert(a[i].within(s[i]));
    }
    assert forall|i: int| 0 <= i < b.len() implies some_holds(s, #[trigger] b[i]) by {
        assert(b[i].within(s[a.len() + i]));
    }
}

/// Name of where the damage of a frame comes from. Where the frame itself has none,
/// what is sent is debt alone.
pub fn damage_label(source: DamageSource, only_debt: bool) -> (r: &'static str)
    ensures
        r@ == (if only_debt {
            "accumulated"@
        } else {
            match source {
                DamageSource::Forced => "forced"@,
                DamageSource::PixelDiff => "pixel-diff"@,
                DamageSource::CompositorHint => "compositor-hint"@,
                DamageSource::Disabled => "disabled"@,
            }
        }),
{
    if only_debt {
        "accumulated"
    } else {
        match source {
            DamageSource::Forced => "forced",
            DamageSource::PixelDiff => "pixel-diff",
            DamageSource::CompositorHint => "compositor-hint",
            DamageSource::Disabled => "disabled",
        }
    }
}

/// The damage that is to go out with a frame.
pub struct CollectedDamage {
    /// The debt, and behind it the damage of the frame.
    pub regions: Vec<DamageRegion>,
    /// Share of the frame that is damaged.
    pub ratio: DamageRatio,
    pub label: &'static str,
}

/// Collects the damage that is to go out with a frame. `detected` is what comparing
/// pixels found, where they are compared, and `hints` what the compositor reports.
pub fn collect_damage(
    debt: &DamageAccumulator,
    force_full: bool,
    detected: Option<Vec<DamageRegion>>,
    hints: Vec<DamageRegion>,
    width: u32,
    height: u32,
) -> (r: CollectedDamage)
    requires
        all_fit(debt@),
        detected matches Some(d) ==> all_fit(d@),
        all_fit(hints@),
    ensures
        ({
            let whole = seq![DamageRegion { x: 0, y: 0, width, height }];
            let fresh = if force_full {
                whole
            } else if detected is Some {
                detected->0@
            } else if hints@.len() > 0 {
                hints@
            } else {
                whole
            };
            &&& r.regions@ == debt@ + fresh
            &&& all_fit(r.regions@)
            &&& covers(r.regions@, debt@)
            &&& covers(r.regions@, fresh)
            &&& r.label@ == (if debt@.len() > 0 && fresh.len() == 0 {
                "accumulated"@
            } else if force_full {
                "forced"@
            } else if detected is Some {
                "pixel-diff"@
            } else if hints@.len() > 0 {
                "compositor-hint"@
            } else {
                "disabled"@
            })
            &&& r.regions@.len() == 0 || width * height == 0 ==> r.ratio == (DamageRatio {
                damage: 0,
                frame: 1,
            })
            &&& r.regions@.len() > 0 && width * height != 0 ==> r.ratio.frame == width * height
                && r.ratio.damage == total_area(r.regions@)
        }),
{
    let has_detector = detected.is_some();
    let found: Vec<DamageRegion> = match detected {
        Some(d) => d,
        None => Vec::new(),
    };
    let source = choose_damage_source(force_full, has_detector, hints.len() > 0);
    let fresh = fresh_damage(source, found, hints, width, height);
    let label = damage_label(source, !debt.is_empty() && fresh.len() == 0);
    let regions = with_debt(debt, fresh);
    let ratio = compute_damage_ratio(regions.as_slice(), width, height);
    CollectedDamage { regions, ratio, label }
}

/// Verdict of the latency governor.
#[derive(Clone, Copy, Debug, PartialEq, Eq, Structural)]
pub enum EncodingDecision {
    Skip,
    WaitForMore,
    EncodeNow,
    EncodeKeepalive,
    EncodeBatch,
    EncodeTimeout,
}

/// The governor holds the frame back. A frame that goes whole is never held back.
pub open spec fn held_back(decision: EncodingDecision, force_full: bool) -> bool {
    !force_full && (decision == EncodingDecision::Skip || decision
        == EncodingDecision::WaitForMore)
}

/// Decides whether the damage goes out with this frame. Returns whether it does;
/// what does not becomes debt.
///
/// `regions` is the damage of this frame with the debt in front of it.
pub fn govern(
    p: &mut PipelineState,
    debt: &mut DamageAccumulator,
    regions: &Vec<DamageRegion>,
    force_full: bool,
    decision: EncodingDecision,
) -> (encode: bool)
    requires
        old(p).room(),
        old(debt).wf(),
        all_fit(regions@),
        covers(regions@, old(debt)@),
    ensures
        final(debt).wf(),
        all_fit(final(debt)@),
        encode == (!held_back(decision, force_full) && regions@.len() > 0),
        encode ==> final(debt)@ == Seq::<DamageRegion>::empty() && *final(p) == *old(p),
        held_back(decision, force_full) ==> {
            &&& covers(final(debt)@, regions@)
            &&& normalized(regions@, 1024, final(debt)@)
            &&& *final(p) == (if decision == EncodingDecision::Skip {
                PipelineState { frames_dropped: (old(p).frames_dropped + 1) as u64, ..*old(p) }
            } else {
                *old(p)
            })
        },
        !held_back(decision, force_full) && regions@.len() == 0 ==> {
            &&& final(debt)@ == Seq::<DamageRegion>::empty()
            &&& *final(p) == (PipelineState {
                frames_skipped_damage: (old(p).frames_skipped_damage + 1) as u64,
                ..*old(p)
            })
        },
{
    if !force_full {
        let held = match decision {
            EncodingDecision::Skip => {
                p.frames_dropped = p.frames_dropped + 1;
                true
            },
            EncodingDecision::WaitForMore => true,
            _ => false,
        };
        if held {
            debt.absorb(vstd::slice::slice_to_vec(regions.as_slice()));
            return false;
        }
    }
    if regions.len() == 0 {
        p.frames_skipped_damage = p.frames_skipped_damage + 1;
        proof {
            reveal(some_holds);
            if debt@.len() > 0 {
                assert(some_holds(regions@, debt@[0]));
            }
            assert(debt@ =~= Seq::<DamageRegion>::empty());
        }
        return false;
    }
    debt.clear();
    true
}

/// What became of a frame that was to be encoded.
#[derive(Clone, Copy, Debug, PartialEq, Eq, Structural)]
pub enum EncodeOutcome {
    /// Encoded and sent.
    Sent,
    /// Encoded, but not sent.
    SendFailed,
    /// Left out by the encoder.
    SkippedByEncoder,
    /// The encoder failed.
    EncodeFailed,
}

/// Takes note of what became of a frame. A frame that was not sent leaves its
/// damage as debt; it never goes another way. Returns whether the pointer shape
/// is sent now, which is after the first frame of a connection: clients discard
/// it before.
pub fn after_encode(
    p: &mut PipelineState,
    h: &mut LamcoDisplayHandler,
    debt: &mut DamageAccumulator,
    regions: Vec<DamageRegion>,
    outcome: EncodeOutcome,
) -> (send_pointer: bool)
    requires
        old(p).room(),
        old(debt).wf(),
        old(debt)@.len() == 0,
        all_fit(regions@),
        old(h).gfx_state is Some ==> old(h).gfx_state->0.unacked_frames < u32::MAX,
    ensures
        final(debt).wf(),
        all_fit(final(debt)@),
        send_pointer == (outcome == EncodeOutcome::Sent && old(p).egfx_frames_sent == 0),
        outcome == EncodeOutcome::Sent ==> {
            &&& final(debt)@ == old(debt)@
            &&& *final(p) == (PipelineState {
                egfx_frames_sent: (old(p).egfx_frames_sent + 1) as u64,
                ..*old(p)
            })
            &&& *final(h) == (LamcoDisplayHandler {
                gfx_state: match old(h).gfx_state {
                    Some(s) => Some(
                        SharedHandlerState {
                            unacked_frames: (s.unacked_frames + 1) as u32,
                            ..s
                        },
                    ),
                    None => None,
                },
                ..*old(h)
            })
        },
        outcome != EncodeOutcome::Sent ==> {
            &&& normalized(regions@, 1024, final(debt)@)
            &&& covers(final(debt)@, regions@)
            &&& *final(p) == (PipelineState {
                frames_dropped: (old(p).frames_dropped + 1) as u64,
                ..*old(p)
            })
            &&& *final(h) == *old(h)
        },
{
    match outcome {
        EncodeOutcome::Sent => {
            p.egfx_frames_sent = p.egfx_frames_sent + 1;
            match h.gfx_state {
                Some(s) => {
                    let mut counted = s;
                    counted.unacked_frames = s.unacked_frames + 1;
                    h.gfx_state = Some(counted);
                },
                None => {},
            }
            p.egfx_frames_sent == 1
        },
        _ => {
            p.frames_dropped = p.frames_dropped + 1;
            debt.absorb(regions);
            false
        },
    }
}

/// No damage is ever lost: a damaged pixel of a frame, or of the debt before it,
/// is sent with the frame or is in the debt after it.
pub proof fn law_no_damage_lost(
    debt_before: Seq<DamageRegion>,
    fresh: Seq<DamageRegion>,
    sent: bool,
    debt_after: Seq<DamageRegion>,
    px: int,
    py: int,
)
    requires
        !sent ==> covers(debt_after, debt_before + fresh),
        any_has(debt_before, px, py) || any_has(fresh, px, py),
    ensures
        sent ==> any_has(debt_before + fresh, px, py),
        !sent ==> any_has(debt_after, px, py),
{
    let all = debt_before + fresh;
    lemma_part_covered(debt_before, fresh);
    if any_has(debt_before, px, py) {
        law_absorb_keeps_pixels(debt_before, all, px, py);
    } else {
        law_absorb_keeps_pixels(fresh, all, px, py);
    }
    if !sent {
        law_absorb_keeps_pixels(all, debt_after, px, py);
    }
}

/// Takes note of a frame that went, or was to go, as raw pixels over the
/// graphics channel. `sent` is false where the pixels are not in memory.
pub fn after_uncompressed(p: &mut PipelineState, now: u64, sent: bool)
    requires
        old(p).room(),
    ensures
        *final(p) == (if sent {
            PipelineState {
                egfx_frames_sent: (old(p).egfx_frames_sent + 1) as u64,
                last_frame_time: now,
                first_frame_received: true,
                session_start: if old(p).first_frame_received {
                    old(p).session_start
                } else {
                    now
                },
                ..*old(p)
            }
        } else {
            PipelineState { frames_dropped: (old(p).frames_dropped + 1) as u64, ..*old(p) }
        }),
{
    if sent {
        p.egfx_frames_sent = p.egfx_frames_sent + 1;
        p.last_frame_time = now;
        if !p.first_frame_received {
            p.first_frame_received = true;
            p.session_start = now;
        }
    } else {
        p.frames_dropped = p.frames_dropped + 1;
    }
}

/// Where the bitmaps of a frame go.
#[derive(Clone, Copy, Debug, PartialEq, Eq, Structural)]
pub enum BitmapRoute {
    /// Nothing changed: nowhere.
    Skip,
    /// Into the graphics queue; what does not fit is dropped.
    Queue,
    /// Straight to the client; a failure ends the pipeline.
    Direct,
}

/// Where the bitmaps of a frame go.
pub fn route_bitmaps(rectangles: usize, has_queue: bool) -> (r: BitmapRoute)
    ensures
        r == (if rectangles == 0 {
            BitmapRoute::Skip
        } else if has_queue {
            BitmapRoute::Queue
        } else {
            BitmapRoute::Direct
        }),
{
    if rectangles == 0 {
        BitmapRoute::Skip
    } else if has_queue {
        BitmapRoute::Queue
    } else {
        BitmapRoute::Direct
    }
}

/// Trade-off of the latency governor.
#[derive(Clone, Copy, Debug, PartialEq, Eq, Structural)]
pub enum LatencyMode {
    Interactive,
    Balanced,
    Quality,
}

/// The configured trade-off; anything unknown is balanced.
pub fn latency_mode(configured: &str) -> (r: LatencyMode)
    ensures
        r == (if configured@ == "interactive"@ {
            LatencyMode::Interactive
        } else if configured@ == "quality"@ {
            LatencyMode::Quality
        } else {
            LatencyMode::Balanced
        }),
{
    if same_text(configured, "interactive") {
        LatencyMode::Interactive
    } else if same_text(configured, "quality") {
        LatencyMode::Quality
    } else {
        LatencyMode::Balanced
    }
}

/// Whether the frame rate adapts: configured, and damage is known to tell activity.
pub fn adaptive_fps(configured: bool, damage_service: bool) -> (r: bool)
    ensures
        r == (configured && damage_service),
{
    configured && damage_service
}


/// Time passed is the distance between two readings, and none where the clock was set
/// back.
pub proof fn law_time_passed(earlier: u64, now: u64)
    ensures
        earlier <= now ==> earlier + since(earlier, now) == now,
        now <= earlier ==> since(earlier, now) == 0,
{
}

/// Presentation times: a frame later than the last one adds the distance between the
/// two, within the reported bounds. An earlier or unknown time adds nothing, and only
/// an unknown one is forgotten.
pub proof fn law_presentation_intervals(s: PtsStats, pts: u64)
    requires
        s.wf(),
        s.count < u64::MAX,
    ensures
        ({
            let r = s.recorded(pts);
            &&& r.last == (if pts == 0 {
                s.last
            } else {
                pts
            })
            &&& 0 < s.last < pts ==> {
                &&& r.sum - s.sum == pts - s.last
                &&& r.count == s.count + 1
                &&& r.min <= pts - s.last <= r.max
                &&& r.min == s.min || r.min == pts - s.last
                &&& r.max == s.max || r.max == pts - s.last
                &&& r.min <= s.min && s.max <= r.max
            }
            &&& !(0 < s.last < pts) ==> r.sum == s.sum && r.count == s.count && r.min == s.min
                && r.max == s.max
        }),
{
    assert(s.count * u64::MAX <= u64::MAX * u64::MAX) by (nonlinear_arith)
        requires
            0 <= s.count <= u64::MAX,
    ;
}

/// Once reported, no interval is left, and the next frame is still measured from the
/// last one.
pub proof fn law_report_starts_over(s: PtsStats, pts: u64)
    requires
        0 < s.last < pts,
    ensures
        s.cleared().wf(),
        s.cleared().count == 0 && s.cleared().sum == 0,
        s.cleared().max == 0 && s.cleared().min == u64::MAX && s.cleared().last == s.last,
        s.cleared().recorded(pts).sum == pts - s.last,
        s.cleared().recorded(pts).min == pts - s.last,
        s.cleared().recorded(pts).max == pts - s.last,
{
}

/// A new client starts with no encoder, no surface, empty counters and a closed gate,
/// its time counted from now. What belongs to the capture stays: the frame kept for
/// replay, the presentation times, a pending resize and the reported stall.
pub proof fn law_new_client_starts_over(p: PipelineState, now: u64)
    ensures
        ({
            let n = p.for_new_client(now);
            &&& n.encoder is None && !n.has_sender
            &&& n.frames_sent == 0 && n.frames_dropped == 0
            &&& n.frames_paced == 0 && n.egfx_frames_sent == 0
            &&& n.session_start == now && n.was_client_active && !n.egfx_gate_bypassed
            &&& !n.first_frame_received && !n.zero_frame_reported
            &&& n.has_cached_frame == p.has_cached_frame && n.pts == p.pts
            &&& n.pending_resize == p.pending_resize && n.stress == p.stress
            &&& n.video_stall_reported == p.video_stall_reported
            &&& n.last_frame_time == p.last_frame_time
            &&& n.force_first_frame == p.force_first_frame
            &&& n.loop_iterations == p.loop_iterations
            &&& n.frames_skipped_damage == p.frames_skipped_damage
        }),
{
}

/// A stream is stuck exactly where it should deliver, has delivered, and the last frame
/// is more than ten seconds old; it never started exactly where none has come in the
/// ten seconds since the client connected. Either is noted, so that it is not due again,
/// and nothing else is.
pub proof fn law_missing_frames(p: PipelineState, h: LamcoDisplayHandler, now: u64)
    requires
        p.last_frame_time <= now,
        p.session_start <= now,
    ensures
        stall_due(p, h, now) <==> h.stream_active != Some(false) && p.has_cached_frame
            && !p.video_stall_reported && now - p.last_frame_time > 10_000,
        zero_frames_due(p, now) <==> !p.first_frame_received && !p.zero_frame_reported && now
            - p.session_start > 10_000,
        !stall_due(missing_noted(p, h, now), h, now),
        !zero_frames_due(missing_noted(p, h, now), now),
        p.video_stall_reported ==> missing_noted(p, h, now).video_stall_reported,
        p.zero_frame_reported ==> missing_noted(p, h, now).zero_frame_reported,
        missing_noted(p, h, now).video_stall_reported ==> p.video_stall_reported || stall_due(
            p,
            h,
            now,
        ),
        missing_noted(p, h, now).zero_frame_reported ==> p.zero_frame_reported || zero_frames_due(
            p,
            now,
        ),
        ({
            let m = missing_noted(p, h, now);
            m == (PipelineState {
                video_stall_reported: m.video_stall_reported,
                zero_frame_reported: m.zero_frame_reported,
                ..p
            })
        }),
{
}

/// A client counts as new once: the state is that of a new client exactly where none
/// was there before, is left alone while it stays, and its leaving is remembered.
pub proof fn law_client_is_new_once(p: PipelineState, now: u64, later: u64)
    ensures
        client_noted(p, true, now).was_client_active,
        p.was_client_active ==> client_noted(p, true, now) == p,
        !p.was_client_active ==> client_noted(p, true, now).session_start == now && client_noted(
            p,
            true,
            now,
        ).frames_sent == 0 && client_noted(p, true, now).encoder is None,
        client_noted(client_noted(p, true, now), true, later) == client_noted(p, true, now),
        !client_noted(p, false, now).was_client_active,
        client_noted(p, false, now).encoder == p.encoder,
        client_noted(p, false, now).frames_sent == p.frames_sent,
        client_noted(p, false, now).session_start == p.session_start,
        client_noted(p, false, now).has_sender == p.has_sender,
{
}

/// A frame goes on exactly where the channel is ready, was given up before, or
/// is given up now because it did not come in the five seconds since the connection. A
/// frame that goes on is counted once, one that is held back is counted as dropped too,
/// and only the passing of the five seconds gives the channel up.
pub proof fn law_gate(p: PipelineState, h: LamcoDisplayHandler, now: u64)
    requires
        p.room(),
        p.session_start <= now,
    ensures
        ({
            let ready = h.has_event_sender && h.has_gfx_handle && h.gfx_state is Some
                && h.gfx_state->0.is_ready;
            let late = p.first_frame_received && now - p.session_start > 5000;
            let g = gated(p, h, now);
            &&& gate_open(p, h, now) <==> p.egfx_gate_bypassed || ready || late
            &&& g.frames_sent == p.frames_sent + 1
            &&& gate_open(p, h, now) ==> g.frames_dropped == p.frames_dropped
            &&& !gate_open(p, h, now) ==> g.frames_dropped == p.frames_dropped + 1
            &&& g.egfx_gate_bypassed <==> p.egfx_gate_bypassed || (!ready && late)
            &&& g.encoder == p.encoder && g.has_sender == p.has_sender
            &&& g.stress == p.stress && g.session_start == p.session_start
            &&& g.frames_paced == p.frames_paced && g.egfx_frames_sent == p.egfx_frames_sent
            &&& g.force_first_frame == p.force_first_frame
        }),
{
}

/// Pacing counts the frames that it leaves out, and no others, and does nothing else.
pub proof fn law_pacing_counts(p: PipelineState)
    requires
        p.room(),
    ensures
        paced(p, true) == p,
        paced(p, false).frames_paced == p.frames_paced + 1,
        paced(p, false).frames_dropped == p.frames_dropped,
        paced(p, false).frames_sent == p.frames_sent,
        (PipelineState { frames_paced: p.frames_paced, ..paced(p, false) }) == p,
{
}

/// An early keyframe is asked for exactly where there is an encoder, the window of a
/// second is over, more frames were dropped in it than sent, at least five in all, none
/// was asked for within the last second, and, for an encoder that knows the age of its
/// last keyframe, that is more than a second and a half.
pub proof fn law_early_keyframe(p: PipelineState, now: u64, age: u64, aux: u32)
    requires
        p.stress.window_start <= now,
        p.stress.last_trigger <= now,
        p.stress.dropped_at_start <= p.frames_dropped,
        p.stress.sent_at_start <= p.frames_sent,
        p.frames_dropped + p.frames_sent <= u64::MAX,
    ensures
        ({
            let dropped = p.frames_dropped - p.stress.dropped_at_start;
            let sent = p.frames_sent - p.stress.sent_at_start;
            stress_action(p, now, age, aux).request_idr <==> {
                &&& p.encoder is Some
                &&& now - p.stress.window_start >= 1000
                &&& dropped > sent
                &&& dropped + sent >= 5
                &&& now - p.stress.last_trigger > 1000
                &&& p.encoder == Some(VideoEncoder::Avc444) ==> age > 1500
            }
        }),
{
    let dropped = p.frames_dropped - p.stress.dropped_at_start;
    let sent = p.frames_sent - p.stress.sent_at_start;
    assert(dropped * 2 > 1 * (dropped + sent) <==> dropped > sent);
}

/// The detector counts anew from each evaluation, and only from those: before the
/// second is over, or without an encoder, nothing changes and nothing is asked for.
pub proof fn law_stress_window(p: PipelineState, now: u64, age: u64, aux: u32)
    requires
        p.stress.window_start <= now,
    ensures
        ({
            let s = stressed(p, now, age, aux);
            let a = stress_action(p, now, age, aux);
            let due = p.encoder is Some && now - p.stress.window_start >= 1000;
            &&& !due ==> s == p && !a.request_idr && a.set_aux_interval is None
            &&& due ==> s.stress.window_start == now && s.stress.dropped_at_start
                == p.frames_dropped && s.stress.sent_at_start == p.frames_sent
            &&& s.stress.last_trigger == (if a.request_idr {
                now
            } else {
                p.stress.last_trigger
            })
            &&& (PipelineState { stress: p.stress, ..s }) == p
        }),
{
}

/// Under stress the interval of the auxiliary stream is halved, though not below five,
/// once; the interval from before is kept, and comes back more than five seconds after
/// the last early keyframe.
pub proof fn law_aux_interval_comes_back(
    p: PipelineState,
    now: u64,
    age: u64,
    aux: u32,
    q: PipelineState,
    then: u64,
    later_age: u64,
    shrunk: u32,
)
    requires
        p.encoder == Some(VideoEncoder::Avc444),
        !p.stress.active,
        stress_action(p, now, age, aux).request_idr,
        q.encoder == p.encoder,
        q.stress == stressed(p, now, age, aux).stress,
        then > now + 5000,
        !stress_action(q, then, later_age, shrunk).request_idr,
    ensures
        stress_action(p, now, age, aux).set_aux_interval matches Some(n) && n >= 5 && (aux >= 10
            ==> n == aux / 2) && (aux < 10 ==> n == 5),
        stressed(p, now, age, aux).stress.active,
        0 < aux && aux != shrunk ==> stress_action(q, then, later_age, shrunk).set_aux_interval
            == Some(aux),
        !stressed(q, then, later_age, shrunk).stress.active,
{
}

/// An interval that is shortened already is not shortened again, and one that belongs to
/// no auxiliary stream is left alone.
pub proof fn law_aux_interval_shrinks_once(p: PipelineState, now: u64, age: u64, aux: u32)
    requires
        p.stress.active || p.encoder != Some(VideoEncoder::Avc444),
        stress_action(p, now, age, aux).request_idr,
    ensures
        stress_action(p, now, age, aux).set_aux_interval is None,
        stressed(p, now, age, aux).stress.active == p.stress.active,
        stressed(p, now, age, aux).stress.original_aux_interval == p.stress.original_aux_interval,
{
}

/// Where the channel is ready and not given up, frames go over it: encoded exactly for a
/// client that decodes AVC420, as raw pixels for one that does not, and never as
/// bitmaps, which such a client would not show. The surface that a client still needs is
/// then still needed. Only a client without the channel waits for no surface.
pub proof fn law_path_follows_channel(p: PipelineState, h: LamcoDisplayHandler)
    ensures
        ({
            let ready = h.has_event_sender && h.has_gfx_handle && h.gfx_state is Some
                && h.gfx_state->0.is_ready;
            let avc = h.gfx_state is Some && h.gfx_state->0.client_supports_avc420;
            let c = path_choice(p, h);
            let after = path_noted(p, h);
            &&& !p.egfx_gate_bypassed && avc ==> c.path == FramePath::Avc
            &&& !p.egfx_gate_bypassed && ready && !avc ==> c.path == FramePath::Plain
            &&& p.egfx_gate_bypassed || (!ready && !avc) ==> c.path == FramePath::Bitmap
            &&& !p.egfx_gate_bypassed && (ready || avc) && h.egfx_needs_init ==> c.needs_init
                && after.egfx_needs_init
            &&& !p.egfx_gate_bypassed && !h.egfx_needs_init && !c.reinit ==> !c.needs_init
            &&& p.egfx_gate_bypassed && !c.reinit ==> !c.needs_init && after.egfx_needs_init
                == h.egfx_needs_init
            &&& c.needs_init && c.path == FramePath::Bitmap ==> !after.egfx_needs_init
        }),
{
}

/// A client that starts over is answered once, with encoder and surface set up anew, and
/// the drops from before it call for no early keyframe for a second. Otherwise the
/// choice of the way changes no counter, and in no case anything of the handler but the
/// two flags.
pub proof fn law_restart_is_answered_once(
    p: PipelineState,
    h: LamcoDisplayHandler,
    now: u64,
    q: PipelineState,
    then: u64,
    age: u64,
    aux: u32,
)
    requires
        q.stress == path_chosen(p, h, now).stress,
        then <= now + 1000,
    ensures
        ({
            let asked = h.gfx_state is Some && h.gfx_state->0.needs_full_reinit;
            let after = path_noted(p, h);
            let c = path_choice(p, h);
            &&& c.reinit == asked
            &&& asked ==> c.needs_init
            &&& asked && c.path != FramePath::Bitmap ==> after.egfx_needs_init
            &&& !path_choice(q, after).reinit
            &&& asked ==> !stress_action(q, then, age, aux).request_idr
            &&& asked ==> !path_chosen(p, h, now).stress.active
            &&& asked ==> path_chosen(p, h, now).stress.dropped_at_start == p.frames_dropped
                && path_chosen(p, h, now).stress.sent_at_start == p.frames_sent
            &&& asked ==> path_chosen(p, h, now).stress.window_start == now && path_chosen(
                p,
                h,
                now,
            ).stress.last_trigger == now
            &&& asked && p.stress.active ==> path_chosen(
                p,
                h,
                now,
            ).stress.original_aux_interval == 0
            &&& asked && !p.stress.active ==> path_chosen(
                p,
                h,
                now,
            ).stress.original_aux_interval == p.stress.original_aux_interval
            &&& !asked ==> path_chosen(p, h, now) == p
            &&& (PipelineState { stress: p.stress, ..path_chosen(p, h, now) }) == p
            &&& (LamcoDisplayHandler {
                gfx_state: h.gfx_state,
                egfx_needs_init: h.egfx_needs_init,
                ..after
            }) == h
            &&& h.gfx_state is None <==> after.gfx_state is None
            &&& h.gfx_state is Some ==> (SharedHandlerState {
                needs_full_reinit: h.gfx_state->0.needs_full_reinit,
                ..after.gfx_state->0
            }) == h.gfx_state->0
        }),
{
}

/// OpenH264 is always the last resort. AVC444 is tried exactly where it is enabled, and
/// then first; x264 exactly where it is built in and the backend is `x264` or `auto`,
/// and then right before the last.
pub proof fn law_encoder_ladder(avc444: bool, backend: Seq<char>, x264_built: bool)
    ensures
        ({
            let r = encoder_rungs(avc444, backend, x264_built);
            let x264 = x264_built && (backend == "x264"@ || backend == "auto"@);
            &&& r.last() == VideoEncoder::Avc420
            &&& avc444 <==> r[0] == VideoEncoder::Avc444
            &&& x264 <==> r.len() >= 2 && r[r.len() - 2] == VideoEncoder::X264
            &&& r.len() == 1 + (if avc444 {
                1int
            } else {
                0
            }) + (if x264 {
                1int
            } else {
                0
            })
        }),
{
}

/// A frame is encoded exactly where its way, an encoder and a surface allow it; it goes
/// as bitmaps exactly where its way is that, or there is no surface.
pub proof fn law_delivery(p: PipelineState, path: FramePath)
    ensures
        delivery_for(p, path) == Delivery::Encoded <==> p.has_sender && p.encoder is Some && path
            == FramePath::Avc,
        delivery_for(p, path) == Delivery::Bitmap <==> !p.has_sender || path == FramePath::Bitmap,
        delivery_for(p, path) == Delivery::Uncompressed <==> p.has_sender && (path
            == FramePath::Plain || (path == FramePath::Avc && p.encoder is None)),
{
}

/// A frame that goes whole is never held back; of the others those that the governor
/// skips or collects, and no more.
pub proof fn law_forced_frames_go(decision: EncodingDecision, force_full: bool)
    ensures
        force_full ==> !held_back(decision, force_full),
        !force_full && decision == EncodingDecision::Skip ==> held_back(decision, force_full),
        !force_full && decision == EncodingDecision::WaitForMore ==> held_back(
            decision,
            force_full,
        ),
        held_back(decision, force_full) ==> decision == EncodingDecision::Skip || decision
            == EncodingDecision::WaitForMore,
{
}

/// Stress lasts for five seconds after its last trigger: until then the interval stays
/// short.
pub proof fn law_stress_lasts(p: PipelineState, now: u64, age: u64, aux: u32)
    requires
        p.stress.active,
        now <= p.stress.last_trigger + 5000,
        !stress_action(p, now, age, aux).request_idr,
    ensures
        stressed(p, now, age, aux).stress.active,
        stress_action(p, now, age, aux).set_aux_interval is None,
{
}

} // verus!
