//! View-only sessions: the portal's screen cast without remote desktop.
//!
//! The client sees the desktop. It can neither act on it nor reach its clipboard.

use vstd::prelude::*;

use crate::session::strategy::{
    streams_from_portal, ClipboardSource, CursorMode, PipeWireAccess, PortalStream, SessionType,
    StreamInfo,
};

verus! {

/// A running view-only session.
#[derive(Debug)]
pub struct ScreenCastOnlySessionHandle {
    pub pipewire_fd: i32,
    pub streams: Vec<StreamInfo>,
}

/// Why input does not reach the desktop.
pub open spec fn view_only() -> Seq<char> {
    "Input not available in view-only mode"@
}

impl ScreenCastOnlySessionHandle {
    pub fn pipewire_access(&self) -> (r: PipeWireAccess)
        ensures
            r == PipeWireAccess::FileDescriptor(self.pipewire_fd),
    {
        PipeWireAccess::FileDescriptor(self.pipewire_fd)
    }

    pub fn streams(&self) -> (r: Vec<StreamInfo>)
        ensures
            r@ == self.streams@,
    {
        vstd::slice::slice_to_vec(self.streams.as_slice())
    }

    pub fn session_type(&self) -> (r: SessionType)
        ensures
            r == SessionType::ScreenCastOnly,
    {
        SessionType::ScreenCastOnly
    }

    pub fn clipboard_source(&self) -> (r: ClipboardSource)
        ensures
            r == ClipboardSource::Absent,
    {
        ClipboardSource::Absent
    }

    pub fn notify_keyboard_keycode(&self, _keycode: i32, _pressed: bool) -> (r: Result<
        (),
        &'static str,
    >)
        ensures
            r matches Err(e) && e@ == view_only(),
    {
        Err("Input not available in view-only mode")
    }

    /// Refuses motion whatever the position, which is therefore not a parameter.
    pub fn notify_pointer_motion_absolute(&self, _stream_id: u32) -> (r: Result<(), &'static str>)
        ensures
            r matches Err(e) && e@ == view_only(),
    {
        Err("Input not available in view-only mode")
    }

    pub fn notify_pointer_button(&self, _button: i32, _pressed: bool) -> (r: Result<
        (),
        &'static str,
    >)
        ensures
            r matches Err(e) && e@ == view_only(),
    {
        Err("Input not available in view-only mode")
    }

    /// Refuses scrolling whatever the distance, which is therefore not a parameter.
    pub fn notify_pointer_axis(&self) -> (r: Result<(), &'static str>)
        ensures
            r matches Err(e) && e@ == view_only(),
    {
        Err("Input not available in view-only mode")
    }
}

/// What to ask of the screen cast portal.
#[derive(Clone, Copy, Debug, PartialEq, Eq, Structural)]
pub struct SourceRequest {
    pub cursor_mode: CursorMode,
    pub multiple: bool,
    pub persist: bool,
}

/// Makes view-only sessions.
#[derive(Debug)]
pub struct ScreenCastOnlyStrategy {
    available_cursor_modes: Vec<CursorMode>,
}

impl Default for ScreenCastOnlyStrategy {
    fn default() -> (r: ScreenCastOnlyStrategy)
        ensures
            r.cursor_modes() == Seq::<CursorMode>::empty(),
    {
        ScreenCastOnlyStrategy::new()
    }
}

impl ScreenCastOnlyStrategy {
    /// The pointer modes that the portal offers; empty where they are not known.
    pub closed spec fn cursor_modes(self) -> Seq<CursorMode> {
        self.available_cursor_modes@
    }

    pub fn new() -> (r: ScreenCastOnlyStrategy)
        ensures
            r.cursor_modes() == Seq::<CursorMode>::empty(),
    {
        ScreenCastOnlyStrategy { available_cursor_modes: Vec::new() }
    }

    pub fn with_cursor_modes(available_cursor_modes: Vec<CursorMode>) -> (r: ScreenCastOnlyStrategy)
        ensures
            r.cursor_modes() == available_cursor_modes@,
    {
        ScreenCastOnlyStrategy { available_cursor_modes }
    }

    /// The pointer is never part of the capture, whatever the portal offers: the
    /// client draws its own, and a second one in the picture trails behind it.
    pub fn best_cursor_mode(&self) -> (r: CursorMode)
        ensures
            r == CursorMode::Hidden,
    {
        CursorMode::Hidden
    }

    pub fn name(&self) -> (r: &'static str)
        ensures
            r@ == "ScreenCast-only (view-only)"@,
    {
        "ScreenCast-only (view-only)"
    }

    /// The user approves the screen cast.
    pub fn requires_initial_setup(&self) -> (r: bool)
        ensures
            r,
    {
        true
    }

    /// An approval is not kept.
    pub fn supports_unattended_restore(&self) -> (r: bool)
        ensures
            !r,
    {
        false
    }

    /// One monitor, without the pointer, asked for anew each time.
    pub fn source_request(&self) -> (r: SourceRequest)
        ensures
            r == (SourceRequest {
                cursor_mode: CursorMode::Hidden,
                multiple: false,
                persist: false,
            }),
    {
        SourceRequest { cursor_mode: self.best_cursor_mode(), multiple: false, persist: false }
    }

    /// The streams of a session that the portal started. There is no session
    /// without a stream.
    pub fn started(&self, portal: &Vec<PortalStream>) -> (r: Result<Vec<StreamInfo>, &'static str>)
        ensures
            match r {
                Ok(s) => portal@.len() > 0 && s@ == portal@.map_values(
                    |s: PortalStream| s.info(),
                ),
                Err(e) => portal@.len() == 0 && e@ == "No streams available from ScreenCast"@,
            },
    {
        if portal.len() == 0 {
            return Err("No streams available from ScreenCast");
        }
        Ok(streams_from_portal(portal))
    }
}

/// Whoever tries to act on a view-only session reads why that does not work.
pub proof fn law_refusal_says_why()
    ensures
        view_only() == "Input not available in view-only mode"@,
{
}

} // verus!
