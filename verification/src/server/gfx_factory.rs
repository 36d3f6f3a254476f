//! State of the graphics channel and the settings of the graphics factory.

use vstd::prelude::*;

verus! {

/// What the graphics channel has negotiated with the client.
#[derive(Clone, Copy, Debug, PartialEq, Eq, Structural)]
pub struct SharedHandlerState {
    /// Capabilities are negotiated.
    pub is_ready: bool,
    /// The client decodes AVC420.
    pub client_supports_avc420: bool,
    /// The client decodes AVC444.
    pub is_avc444_enabled: bool,
    /// A primary surface exists.
    pub has_surface: bool,
    /// The primary surface; meaningful only with `has_surface`.
    pub primary_surface_id: u16,
    /// The client advertised its capabilities a second time: its decoder lost
    /// sync and expects a full re-initialisation.
    pub needs_full_reinit: bool,
    /// Frames decoded, as last reported by the client.
    pub last_total_frames_decoded: u32,
    /// Queue depth, as last reported by the client.
    pub last_client_queue_depth: u32,
    /// Frames sent and not acknowledged yet.
    pub unacked_frames: u32,
    /// The client draws pointer rows top-down.
    pub needs_android_pointer_updates: bool,
}

impl SharedHandlerState {
    /// Nothing negotiated.
    pub open spec fn blank() -> Self {
        SharedHandlerState {
            is_ready: false,
            client_supports_avc420: false,
            is_avc444_enabled: false,
            has_surface: false,
            primary_surface_id: 0,
            needs_full_reinit: false,
            last_total_frames_decoded: 0,
            last_client_queue_depth: 0,
            unacked_frames: 0,
            needs_android_pointer_updates: false,
        }
    }

    pub fn new() -> (r: Self)
        ensures
            r == SharedHandlerState::blank(),
    {
        SharedHandlerState {
            is_ready: false,
            client_supports_avc420: false,
            is_avc444_enabled: false,
            has_surface: false,
            primary_surface_id: 0,
            needs_full_reinit: false,
            last_total_frames_decoded: 0,
            last_client_queue_depth: 0,
            unacked_frames: 0,
            needs_android_pointer_updates: false,
        }
    }

    /// Forgets everything negotiated, for a new client.
    pub fn reset(&mut self)
        ensures
            *final(self) == SharedHandlerState::blank(),
    {
        *self = SharedHandlerState::new();
    }
}

impl Default for SharedHandlerState {
    fn default() -> (r: Self)
        ensures
            r == SharedHandlerState::blank(),
    {
        SharedHandlerState::new()
    }
}

/// Bulk compression of the graphics channel.
#[derive(Clone, Copy, Debug, PartialEq, Eq, Structural)]
pub enum CompressionMode {
    Never,
    Auto,
    Always,
}

/// Settings from which a graphics pipeline is built for each connection.
#[derive(Clone, Copy, Debug, PartialEq, Eq, Structural)]
pub struct LamcoGfxFactory {
    pub width: u16,
    pub height: u16,
    /// State of the connection being served.
    pub handler_state: SharedHandlerState,
    /// A pipeline was built and stored for the display handler.
    pub has_server_handle: bool,
    /// The platform shows artefacts with AVC444.
    pub force_avc420_only: bool,
    /// Frames in flight before backpressure.
    pub max_frames_in_flight: u32,
    pub compression_mode: CompressionMode,
}

/// What follows an attempt to store the pipeline handle.
#[derive(Clone, Copy, Debug, PartialEq, Eq, Structural)]
pub enum StoreStep {
    /// The handle is stored.
    Stored,
    /// Wait a millisecond and try again.
    Retry,
    /// The last attempt failed: report it.
    GiveUp,
}

impl LamcoGfxFactory {
    pub fn new(width: u16, height: u16) -> (r: Self)
        ensures
            r == (LamcoGfxFactory {
                width,
                height,
                handler_state: SharedHandlerState::blank(),
                has_server_handle: false,
                force_avc420_only: false,
                max_frames_in_flight: 3,
                compression_mode: CompressionMode::Never,
            }),
    {
        LamcoGfxFactory::with_config(width, height, false, 3, CompressionMode::Never)
    }

    /// For platforms whose quirks affect the choice of codec.
    pub fn with_quirks(width: u16, height: u16, force_avc420_only: bool) -> (r: Self)
        ensures
            r == (LamcoGfxFactory {
                width,
                height,
                handler_state: SharedHandlerState::blank(),
                has_server_handle: false,
                force_avc420_only,
                max_frames_in_flight: 3,
                compression_mode: CompressionMode::Never,
            }),
    {
        LamcoGfxFactory::with_config(width, height, force_avc420_only, 3, CompressionMode::Never)
    }

    pub fn with_config(
        width: u16,
        height: u16,
        force_avc420_only: bool,
        max_frames_in_flight: u32,
        compression_mode: CompressionMode,
    ) -> (r: Self)
        ensures
            r == (LamcoGfxFactory {
                width,
                height,
                handler_state: SharedHandlerState::blank(),
                has_server_handle: false,
                force_avc420_only,
                max_frames_in_flight,
                compression_mode,
            }),
    {
        LamcoGfxFactory {
            width,
            height,
            handler_state: SharedHandlerState::new(),
            has_server_handle: false,
            force_avc420_only,
            max_frames_in_flight,
            compression_mode,
        }
    }

    /// Starts a connection: whatever the previous client negotiated is void.
    pub fn begin_connection(&mut self)
        ensures
            *final(self) == (LamcoGfxFactory {
                handler_state: SharedHandlerState::blank(),
                ..*old(self)
            }),
    {
        self.handler_state.reset();
    }

    /// Records one of at most a hundred attempts (counted from zero) to store the handle.
    pub fn after_store_attempt(&mut self, attempt: u32, acquired: bool) -> (r: StoreStep)
        requires
            attempt < 100,
        ensures
            *final(self) == (LamcoGfxFactory {
                has_server_handle: acquired || old(self).has_server_handle,
                ..*old(self)
            }),
            r == (if acquired {
                StoreStep::Stored
            } else if attempt == 99 {
                StoreStep::GiveUp
            } else {
                StoreStep::Retry
            }),
    {
        if acquired {
            self.has_server_handle = true;
            StoreStep::Stored
        } else if attempt == 99 {
            StoreStep::GiveUp
        } else {
            StoreStep::Retry
        }
    }

    pub fn handler_state(&self) -> (r: SharedHandlerState)
        ensures
            r == self.handler_state,
    {
        self.handler_state
    }
}

/// A new connection starts with nothing: no capability, no surface, no frame under way.
pub proof fn law_nothing_negotiated()
    ensures
        ({
            let s = SharedHandlerState::blank();
            &&& !s.is_ready && !s.has_surface && !s.needs_full_reinit
            &&& !s.client_supports_avc420 && !s.is_avc444_enabled
            &&& !s.needs_android_pointer_updates
            &&& s.primary_surface_id == 0 && s.unacked_frames == 0
            &&& s.last_total_frames_decoded == 0 && s.last_client_queue_depth == 0
        }),
{
}

} // verus!
