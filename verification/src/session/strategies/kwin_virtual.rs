//! Sessions on a virtual output of KWin.
//!
//! The output and its stream are made together, at any size, and only while a
//! client is connected. While they exist the physical outputs are off, so there
//! must never be a moment without an output: a stream is reused where it can be,
//! and the physical outputs are on again before it closes.

use vstd::prelude::*;

use crate::server::compositor_mode::is_kde_desktop;
use crate::session::strategy::{
    CaptureResizeEffect, CaptureResizeOutcome, ClipboardBackend, ClipboardSource, PipeWireAccess,
    SessionLifecyclePolicy, SessionType, StreamInfo,
};
use crate::text::{contains_text, same_text};

verus! {

/// Name of the virtual output.
pub const OUTPUT_NAME: &'static str = "lamco";

/// Name under which the output configuration lists the virtual output.
pub const VIRTUAL_OUTPUT_KSCREEN_NAME: &'static str = "Virtual-lamco";

/// Whether a live output may change its mode in place. It may, unless the switch
/// says `0`.
pub fn in_place_mode_change_enabled(switch: Option<&str>) -> (r: bool)
    ensures
        r == !(switch matches Some(v) && v@ == "0"@),
{
    match switch {
        Some(v) => !same_text(v, "0"),
        None => true,
    }
}

/// How a client gets its stream.
#[derive(Clone, Copy, Debug, PartialEq, Eq, Structural)]
pub enum Establish {
    /// There is one: use it.
    Reuse(StreamInfo),
    /// Create an output of this size.
    Create(u16, u16),
}

/// What a resize does next.
#[derive(Clone, Copy, Debug, PartialEq, Eq, Structural)]
pub enum ResizeNext {
    Done(CaptureResizeOutcome),
    /// Try to change the live output's mode.
    ChangeMode,
    /// Create an output of the new size in place of the live one.
    Recreate,
}

/// A step of taking a session down.
#[derive(Clone, Copy, Debug, PartialEq, Eq, Structural)]
pub enum ReleaseStep {
    /// Switch the physical outputs on again and wait until they are in use.
    RestoreOutputs,
    /// Close the stream; the virtual output goes with it.
    CloseStream,
}

/// A session on a virtual output.
#[derive(Clone, Copy, Debug)]
pub struct KwinVirtualSessionHandle {
    /// Whether the physical outputs are off.
    pub layout_guard: bool,
    /// The live stream.
    pub stream: Option<StreamInfo>,
    /// The size that the output last had: what the next client is expected to want.
    pub last_output_size: Option<(u16, u16)>,
}

/// The stream of an output of that size. The output is the only one, so it is at
/// the origin.
pub open spec fn stream_of(node_id: u32, width: u16, height: u16) -> StreamInfo {
    StreamInfo { node_id, width: width as u32, height: height as u32, position_x: 0, position_y: 0 }
}

impl KwinVirtualSessionHandle {
    pub fn new() -> (r: KwinVirtualSessionHandle)
        ensures
            r == (KwinVirtualSessionHandle {
                layout_guard: false,
                stream: None,
                last_output_size: None,
            }),
    {
        KwinVirtualSessionHandle { layout_guard: false, stream: None, last_output_size: None }
    }

    /// The session once an output of that size has been created.
    pub open spec fn with_stream(self, node_id: u32, width: u16, height: u16) -> Self {
        KwinVirtualSessionHandle {
            stream: Some(stream_of(node_id, width, height)),
            last_output_size: Some((width, height)),
            ..self
        }
    }

    /// The live stream already has that size.
    pub open spec fn has_size(self, width: u16, height: u16) -> bool {
        self.stream matches Some(s) && s.width == width && s.height == height
    }

    /// An output of that size has been created.
    pub fn recreate_stream(&mut self, node_id: u32, width: u16, height: u16)
        ensures
            *final(self) == old(self).with_stream(node_id, width, height),
    {
        self.last_output_size = Some((width, height));
        self.stream = Some(
            StreamInfo {
                node_id,
                width: width as u32,
                height: height as u32,
                position_x: 0,
                position_y: 0,
            },
        );
    }

    /// How to reach the picture: by the stream's node, or over a connection to the
    /// daemon as long as there is no stream. Where the daemon cannot be reached
    /// either, a node that does not exist lets the capture report it.
    pub fn pipewire_access(&self, daemon: Option<i32>) -> (r: PipeWireAccess)
        ensures
            r == (match (self.stream, daemon) {
                (Some(s), _) => PipeWireAccess::NodeId(s.node_id),
                (None, Some(fd)) => PipeWireAccess::FileDescriptor(fd),
                (None, None) => PipeWireAccess::NodeId(0),
            }),
    {
        match self.stream {
            Some(s) => PipeWireAccess::NodeId(s.node_id),
            None => match daemon {
                Some(fd) => PipeWireAccess::FileDescriptor(fd),
                None => PipeWireAccess::NodeId(0),
            },
        }
    }

    pub fn streams(&self) -> (r: Vec<StreamInfo>)
        ensures
            r@ == (match self.stream {
                Some(s) => seq![s],
                None => Seq::<StreamInfo>::empty(),
            }),
    {
        let mut r: Vec<StreamInfo> = Vec::new();
        match self.stream {
            Some(s) => {
                r.push(s);
            },
            None => {},
        }
        r
    }

    pub fn session_type(&self) -> (r: SessionType)
        ensures
            r == SessionType::KwinVirtual,
    {
        SessionType::KwinVirtual
    }

    pub fn lifecycle_policy(&self) -> (r: SessionLifecyclePolicy)
        ensures
            r == SessionLifecyclePolicy::PerConnection,
    {
        SessionLifecyclePolicy::PerConnection
    }

    pub fn clipboard_source(&self) -> (r: ClipboardSource)
        ensures
            r == ClipboardSource::Absent,
    {
        ClipboardSource::Absent
    }

    /// The clipboard is that of the input session.
    pub fn build_clipboard(&self) -> (r: Option<ClipboardBackend>)
        ensures
            r == Some(ClipboardBackend::WlClipboard),
    {
        Some(ClipboardBackend::WlClipboard)
    }

    /// How the next client gets its stream.
    pub open spec fn plan(self) -> Establish {
        match self.stream {
            Some(s) => Establish::Reuse(s),
            None => match self.last_output_size {
                Some((w, h)) => Establish::Create(w, h),
                None => Establish::Create(1920, 1200),
            },
        }
    }

    /// A client connects. A live stream is reused, for every connection comes here,
    /// those that carry nothing included. Else an output is created at the size
    /// that the last client had.
    pub fn establish_for_client(&self) -> (r: Establish)
        ensures
            r == self.plan(),
    {
        match self.stream {
            Some(s) => Establish::Reuse(s),
            None => match self.last_output_size {
                Some((w, h)) => Establish::Create(w, h),
                None => Establish::Create(1920, 1200),
            },
        }
    }

    /// The output for a client has been created. Returns whether to switch the
    /// physical outputs off now, which they are from here on.
    pub fn established(&mut self, node_id: u32, width: u16, height: u16) -> (engage: bool)
        ensures
            engage == !old(self).layout_guard,
            *final(self) == (KwinVirtualSessionHandle {
                layout_guard: true,
                ..old(self).with_stream(node_id, width, height)
            }),
    {
        self.recreate_stream(node_id, width, height);
        let engage = !self.layout_guard;
        self.layout_guard = true;
        engage
    }

    /// The client is gone. The physical outputs come back before the virtual one
    /// goes.
    pub fn release_after_client(&mut self) -> (r: Vec<ReleaseStep>)
        ensures
            r@ == (if old(self).layout_guard {
                seq![ReleaseStep::RestoreOutputs, ReleaseStep::CloseStream]
            } else {
                seq![ReleaseStep::CloseStream]
            }),
            *final(self) == (KwinVirtualSessionHandle {
                layout_guard: false,
                stream: None,
                ..*old(self)
            }),
    {
        let mut r: Vec<ReleaseStep> = Vec::new();
        if self.layout_guard {
            r.push(ReleaseStep::RestoreOutputs);
        }
        r.push(ReleaseStep::CloseStream);
        self.layout_guard = false;
        self.stream = None;
        r
    }

    /// A client wants another size. `in_place` says whether a live output may change
    /// its mode.
    pub fn resize_capture_source(&mut self, width: u16, height: u16, in_place: bool) -> (r:
        ResizeNext)
        ensures
            r == (if old(self).has_size(width, height) {
                ResizeNext::Done(
                    CaptureResizeOutcome { width, height, effect: CaptureResizeEffect::Unchanged },
                )
            } else if in_place && old(self).stream is Some {
                ResizeNext::ChangeMode
            } else {
                ResizeNext::Recreate
            }),
            *final(self) == (if old(self).has_size(width, height) {
                KwinVirtualSessionHandle { last_output_size: Some((width, height)), ..*old(self) }
            } else {
                *old(self)
            }),
    {
        match self.stream {
            Some(s) => {
                if s.width == width as u32 && s.height == height as u32 {
                    self.last_output_size = Some((width, height));
                    return ResizeNext::Done(
                        CaptureResizeOutcome {
                            width,
                            height,
                            effect: CaptureResizeEffect::Unchanged,
                        },
                    );
                }
                if in_place {
                    return ResizeNext::ChangeMode;
                }
            },
            None => {},
        }
        ResizeNext::Recreate
    }

    /// The live output's mode was changed, or not. Where it was not, the output is
    /// created anew.
    pub fn mode_changed(&mut self, width: u16, height: u16, applied: bool) -> (r: ResizeNext)
        ensures
            r == (if applied {
                ResizeNext::Done(
                    CaptureResizeOutcome {
                        width,
                        height,
                        effect: CaptureResizeEffect::RelaidOutInPlace,
                    },
                )
            } else {
                ResizeNext::Recreate
            }),
            *final(self) == (if applied {
                old(self).with_stream(
                    match old(self).stream {
                        Some(s) => s.node_id,
                        None => 0,
                    },
                    width,
                    height,
                )
            } else {
                *old(self)
            }),
    {
        if !applied {
            return ResizeNext::Recreate;
        }
        let node_id: u32 = match self.stream {
            Some(s) => s.node_id,
            None => 0,
        };
        self.recreate_stream(node_id, width, height);
        ResizeNext::Done(
            CaptureResizeOutcome { width, height, effect: CaptureResizeEffect::RelaidOutInPlace },
        )
    }

    /// An output of the new size was created, and its stream is `node_id`, or it
    /// could not be and the current stream stays.
    pub fn recreated(&mut self, width: u16, height: u16, node_id: Option<u32>) -> (r: Option<
        CaptureResizeOutcome,
    >)
        ensures
            r == (match (node_id, old(self).stream) {
                (Some(n), _) => Some(
                    CaptureResizeOutcome {
                        width,
                        height,
                        effect: CaptureResizeEffect::Recreated { node_id: n },
                    },
                ),
                (None, Some(s)) => Some(
                    CaptureResizeOutcome {
                        width: s.width as u16,
                        height: s.height as u16,
                        effect: CaptureResizeEffect::Unchanged,
                    },
                ),
                (None, None) => None,
            }),
            *final(self) == (match node_id {
                Some(n) => old(self).with_stream(n, width, height),
                None => *old(self),
            }),
    {
        match node_id {
            Some(n) => {
                self.recreate_stream(n, width, height);
                Some(
                    CaptureResizeOutcome {
                        width,
                        height,
                        effect: CaptureResizeEffect::Recreated { node_id: n },
                    },
                )
            },
            None => match self.stream {
                Some(s) => Some(
                    CaptureResizeOutcome {
                        width: s.width as u16,
                        height: s.height as u16,
                        effect: CaptureResizeEffect::Unchanged,
                    },
                ),
                None => None,
            },
        }
    }
}

/// Makes sessions on a virtual output. `T` stores the token that restores input.
#[derive(Debug)]
pub struct KwinVirtualStrategy<T> {
    token_manager: Option<T>,
}

impl<T> KwinVirtualStrategy<T> {
    /// The store for tokens, if there is one.
    pub closed spec fn store(self) -> Option<T> {
        self.token_manager
    }

    pub fn new(token_manager: Option<T>) -> (r: KwinVirtualStrategy<T>)
        ensures
            r.store() == token_manager,
    {
        KwinVirtualStrategy { token_manager }
    }

    /// The store for tokens, which the input session is made with.
    pub fn token_manager(&self) -> (r: &Option<T>)
        ensures
            *r == self.store(),
    {
        &self.token_manager
    }

    pub fn name(&self) -> (r: &'static str)
        ensures
            r@ == "kwin-virtual"@,
    {
        "kwin-virtual"
    }

    /// The user approves input once.
    pub fn requires_initial_setup(&self) -> (r: bool)
        ensures
            r,
    {
        true
    }

    /// The approval of input is kept.
    pub fn supports_unattended_restore(&self) -> (r: bool)
        ensures
            r,
    {
        true
    }

    /// Whether the desktop can have sessions on a virtual output: KDE, on Wayland.
    pub fn is_available(
        xdg_current_desktop: &str,
        kde_full_session_set: bool,
        wayland_display_set: bool,
    ) -> (r: bool)
        ensures
            r == ((contains_text(xdg_current_desktop@, "KDE"@) || kde_full_session_set)
                && wayland_display_set),
    {
        is_kde_desktop(xdg_current_desktop, kde_full_session_set) && wayland_display_set
    }
}

/// A connection while a stream is live reuses it: a probe never churns the desktop.
pub proof fn law_live_stream_is_reused(s: KwinVirtualSessionHandle, node_id: u32, w: u16, h: u16)
    ensures
        s.with_stream(node_id, w, h).plan() == Establish::Reuse(stream_of(node_id, w, h)),
{
}

/// A client that comes back at the size it left with finds its output at that size
/// already: nothing has to be created twice.
pub proof fn law_returning_client_is_expected(
    s: KwinVirtualSessionHandle,
    old_node: u32,
    new_node: u32,
    w: u16,
    h: u16,
)
    ensures
        ({
            let left = KwinVirtualSessionHandle {
                layout_guard: false,
                stream: None,
                ..s.with_stream(old_node, w, h)
            };
            &&& left.plan() == Establish::Create(w, h)
            &&& left.with_stream(new_node, w, h).has_size(w, h)
        }),
{
}

/// An output stands alone at the origin, and has the size that it was created with.
pub proof fn law_output_as_created(s: KwinVirtualSessionHandle, node_id: u32, w: u16, h: u16)
    ensures
        stream_of(node_id, w, h).node_id == node_id,
        stream_of(node_id, w, h).width == w && stream_of(node_id, w, h).height == h,
        stream_of(node_id, w, h).position_x == 0 && stream_of(node_id, w, h).position_y == 0,
        s.with_stream(node_id, w, h).stream == Some(stream_of(node_id, w, h)),
        s.with_stream(node_id, w, h).last_output_size == Some((w, h)),
        s.with_stream(node_id, w, h).layout_guard == s.layout_guard,
{
}

/// A session has the size of its live stream and no other, and none without a stream.
pub proof fn law_size_of_live_stream(
    s: KwinVirtualSessionHandle,
    node_id: u32,
    w: u16,
    h: u16,
    other_w: u16,
    other_h: u16,
)
    ensures
        s.with_stream(node_id, w, h).has_size(other_w, other_h) <==> w == other_w && h == other_h,
        s.stream is None ==> !s.has_size(w, h),
        s.has_size(w, h) ==> s.stream is Some,
{
}

/// Nothing is created while a stream is live; otherwise an output of the last size is, and
/// of 1920 by 1200 for the first client.
pub proof fn law_output_is_created_once(s: KwinVirtualSessionHandle)
    ensures
        s.plan() is Reuse <==> s.stream is Some,
        s.stream is Some ==> s.plan() == Establish::Reuse(s.stream->0),
        s.stream is None && s.last_output_size is None ==> s.plan() == Establish::Create(
            1920,
            1200,
        ),
        s.stream is None ==> (s.last_output_size matches Some((w, h)) ==> s.plan()
            == Establish::Create(w, h)),
{
}

} // verus!
