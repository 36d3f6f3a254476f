//! Start-up: what a server is put together from, given its configuration and the
//! session it got.

use vstd::prelude::*;

use crate::arith::capped;
use crate::server::gfx_factory::{CompressionMode, LamcoGfxFactory, SharedHandlerState};
use crate::server::security::{
    auth_in_force, effective_auth_method, is_exposed, is_standard, is_standard_rdp_security,
    label_of, lacks_credentials, needs_plain_server, protection, resolve_security_mode,
    security_label, server_security, uses_hybrid, uses_pam, ServerSecurity,
};
use crate::session::strategy::{ClipboardBackend, CursorMode, PipeWireAccess, SessionType, StreamInfo};
use crate::text::{
    chars_of, contains_text, decimal, decimal_text, has_text, join2, lowercase_of, parse_unsigned,
    same_text, split, split_ranges, to_lowercase, unsigned, Separator,
};

verus! {

/// Largest desktop that a client may ask for.
pub const MAX_CLIENT_SIZE: (u16, u16) = (3840, 2160);

/// The desktop size that a client gets of the one it asks for: no side is larger than
/// that of the largest desktop.
pub fn honored_size(width: u16, height: u16) -> (r: (u16, u16))
    ensures
        r.0 == capped(width as int, 3840),
        r.1 == capped(height as int, 2160),
{
    let (max_width, max_height): (u16, u16) = MAX_CLIENT_SIZE;
    (
        if width <= max_width {
            width
        } else {
            max_width
        },
        if height <= max_height {
            height
        } else {
            max_height
        },
    )
}

/// The compression that a setting in lower case names; none, where it names none.
pub open spec fn compression_named(setting: Seq<char>) -> CompressionMode {
    if setting == "auto"@ {
        CompressionMode::Auto
    } else if setting == "always"@ {
        CompressionMode::Always
    } else {
        CompressionMode::Never
    }
}

/// The compression that a setting in lower case names.
pub fn compression_from(setting: &str) -> (r: CompressionMode)
    ensures
        r == compression_named(setting@),
{
    if same_text(setting, "auto") {
        CompressionMode::Auto
    } else if same_text(setting, "always") {
        CompressionMode::Always
    } else {
        CompressionMode::Never
    }
}

/// The compression that a setting names, in whatever case.
pub fn compression_mode(setting: &str) -> (r: CompressionMode)
    ensures
        r == compression_named(lowercase_of(setting@)),
{
    let lower = to_lowercase(setting);
    compression_from(lower.as_str())
}

/// The strategy that makes the session.
#[derive(Clone, Copy, Debug, PartialEq, Eq, Structural)]
pub enum StrategyChoice {
    /// View only, as configured.
    ViewOnly,
    /// The best that the desktop offers.
    Select,
}

pub fn choose_strategy(view_only: bool) -> (r: StrategyChoice)
    ensures
        r == (if view_only {
            StrategyChoice::ViewOnly
        } else {
            StrategyChoice::Select
        }),
{
    if view_only {
        StrategyChoice::ViewOnly
    } else {
        StrategyChoice::Select
    }
}

/// What remains when a strategy could not make a session.
#[derive(Clone, Copy, Debug, PartialEq, Eq, Structural)]
pub enum AfterFailure {
    /// A view-only session.
    ViewOnly,
    GiveUp,
}

/// A view-only session is better than none, where the portal has one.
pub fn after_failed_session(screencast_available: bool) -> (r: AfterFailure)
    ensures
        r == (if screencast_available {
            AfterFailure::ViewOnly
        } else {
            AfterFailure::GiveUp
        }),
{
    if screencast_available {
        AfterFailure::ViewOnly
    } else {
        AfterFailure::GiveUp
    }
}

/// How often frames are asked for: as often as anything behind the capture may want
/// them.
pub fn capture_pacing_fps(target_fps: u32, adaptive_max_fps: u32) -> (r: u32)
    ensures
        r == (if target_fps >= adaptive_max_fps {
            target_fps
        } else {
            adaptive_max_fps
        }),
{
    if target_fps >= adaptive_max_fps {
        target_fps
    } else {
        adaptive_max_fps
    }
}

/// Where the picture comes from.
#[derive(Clone, Copy, Debug, PartialEq, Eq, Structural)]
pub enum VideoSource {
    /// From a screen cast of its own: the session has input only.
    Screencast,
    /// From a connected PipeWire socket.
    Descriptor(i32),
    /// From a node, over a connection to the daemon that is still to be made.
    Node(u32),
    /// From a channel of this process.
    Channel,
}

/// Where the picture of a session comes from.
pub open spec fn video_of(session: SessionType, access: PipeWireAccess) -> VideoSource {
    if session == SessionType::WlrDirect {
        VideoSource::Screencast
    } else {
        match access {
            PipeWireAccess::FileDescriptor(fd) => VideoSource::Descriptor(fd),
            PipeWireAccess::NodeId(node) => VideoSource::Node(node),
            PipeWireAccess::DirectChannel => VideoSource::Channel,
        }
    }
}

pub fn video_source(session: SessionType, access: PipeWireAccess) -> (r: VideoSource)
    ensures
        r == video_of(session, access),
{
    match session {
        SessionType::WlrDirect => VideoSource::Screencast,
        _ => match access {
            PipeWireAccess::FileDescriptor(fd) => VideoSource::Descriptor(fd),
            PipeWireAccess::NodeId(node) => VideoSource::Node(node),
            PipeWireAccess::DirectChannel => VideoSource::Channel,
        },
    }
}

/// Whether a list of pointer modes has one.
fn offers(modes: &Vec<CursorMode>, mode: CursorMode) -> (r: bool)
    ensures
        r == modes@.contains(mode),
{
    let mut i: usize = 0;
    while i < modes.len()
        invariant
            i <= modes@.len(),
            forall|k: int| 0 <= k < i ==> modes@[k] != mode,
        decreases modes@.len() - i,
    {
        if modes[i] == mode {
            return true;
        }
        i += 1;
    }
    false
}

/// The pointer mode of a screen cast of its own: beside the frames where the portal
/// offers that, else in them, else not at all.
pub fn screencast_cursor_mode(available: &Vec<CursorMode>) -> (r: CursorMode)
    ensures
        r == (if available@.contains(CursorMode::Metadata) {
            CursorMode::Metadata
        } else if available@.contains(CursorMode::Embedded) {
            CursorMode::Embedded
        } else {
            CursorMode::Hidden
        }),
{
    if offers(available, CursorMode::Metadata) {
        CursorMode::Metadata
    } else if offers(available, CursorMode::Embedded) {
        CursorMode::Embedded
    } else {
        CursorMode::Hidden
    }
}

/// What a server is put together from, by the kind of its session.
#[derive(Clone, Copy, Debug, PartialEq, Eq, Structural)]
pub struct ServerParts {
    /// The session has all it needs; no remote desktop portal is set up beside it.
    pub self_sufficient: bool,
    /// Input reaches the session.
    pub input: bool,
    /// The capture takes any size.
    pub elastic: bool,
    /// There is a clipboard.
    pub clipboard: bool,
    /// Input is reported as not available.
    pub report_no_input: bool,
    /// The clipboard is reported as not available from the start.
    pub report_no_clipboard: bool,
}

/// The session has all it needs.
pub open spec fn is_self_sufficient(session: SessionType) -> bool {
    session == SessionType::ScreenCastOnly || session == SessionType::WlrDirect || session
        == SessionType::PortalGeneric || session == SessionType::KwinVirtual
}

/// A server is put together from this.
pub open spec fn parts_of(session: SessionType, clipboard_enabled: bool) -> ServerParts {
    if is_self_sufficient(session) {
        let view_only = session == SessionType::ScreenCastOnly;
        ServerParts {
            self_sufficient: true,
            input: !view_only,
            elastic: session == SessionType::KwinVirtual,
            clipboard: clipboard_enabled && (session == SessionType::WlrDirect || session
                == SessionType::PortalGeneric),
            report_no_input: view_only,
            report_no_clipboard: view_only,
        }
    } else {
        ServerParts {
            self_sufficient: false,
            input: true,
            elastic: false,
            clipboard: true,
            report_no_input: false,
            report_no_clipboard: false,
        }
    }
}

/// What a server is put together from. A full session always has a clipboard; where
/// it is disabled, nothing is wired to it.
pub fn server_parts(session: SessionType, clipboard_enabled: bool) -> (r: ServerParts)
    ensures
        r == parts_of(session, clipboard_enabled),
{
    match session {
        SessionType::ScreenCastOnly => ServerParts {
            self_sufficient: true,
            input: false,
            elastic: false,
            clipboard: false,
            report_no_input: true,
            report_no_clipboard: true,
        },
        SessionType::WlrDirect | SessionType::PortalGeneric => ServerParts {
            self_sufficient: true,
            input: true,
            elastic: false,
            clipboard: clipboard_enabled,
            report_no_input: false,
            report_no_clipboard: false,
        },
        SessionType::KwinVirtual => ServerParts {
            self_sufficient: true,
            input: true,
            elastic: true,
            clipboard: false,
            report_no_input: false,
            report_no_clipboard: false,
        },
        SessionType::Portal | SessionType::MutterDirect | SessionType::Libei => ServerParts {
            self_sufficient: false,
            input: true,
            elastic: false,
            clipboard: true,
            report_no_input: false,
            report_no_clipboard: false,
        },
    }
}

/// Whether the clipboard is reported as not available once it has been tried: where
/// there should be one and none came about.
pub fn report_failed_clipboard(session: SessionType, came_about: bool) -> (r: bool)
    ensures
        r == ((session == SessionType::WlrDirect || session == SessionType::PortalGeneric)
            && !came_about),
{
    match session {
        SessionType::WlrDirect | SessionType::PortalGeneric => !came_about,
        _ => false,
    }
}

/// What the log calls a server of a self-sufficient session.
pub fn mode_name(session: SessionType) -> (r: &'static str)
    ensures
        r@ == (if session == SessionType::PortalGeneric {
            "portal-generic"@
        } else if session == SessionType::WlrDirect {
            "wlr-direct"@
        } else {
            "view-only"@
        }),
{
    match session {
        SessionType::PortalGeneric => "portal-generic",
        SessionType::WlrDirect => "wlr-direct",
        _ => "view-only",
    }
}

/// What the log says of the codec.
pub fn codec_label(egfx_enabled: bool) -> (r: &'static str)
    ensures
        r@ == (if egfx_enabled {
            "EGFX (H.264 AVC420/AVC444) + RemoteFX fallback"@
        } else {
            "RemoteFX"@
        }),
{
    if egfx_enabled {
        "EGFX (H.264 AVC420/AVC444) + RemoteFX fallback"
    } else {
        "RemoteFX"
    }
}

/// The desktop's size at the start: that of the first stream, or 1920 by 1080.
pub fn initial_size(streams: &Vec<StreamInfo>) -> (r: (u16, u16))
    ensures
        r == (if streams@.len() > 0 {
            (streams@[0].width as u16, streams@[0].height as u16)
        } else {
            (1920, 1080)
        }),
{
    if streams.len() > 0 {
        (streams[0].width as u16, streams[0].height as u16)
    } else {
        (1920, 1080)
    }
}

/// The stream that input is meant for: the first, or none (zero).
pub fn primary_stream_id(streams: &Vec<StreamInfo>) -> (r: u32)
    ensures
        r == (if streams@.len() > 0 {
            streams@[0].node_id
        } else {
            0
        }),
{
    if streams.len() > 0 {
        streams[0].node_id
    } else {
        0
    }
}

/// Whether frames may stay in graphics memory. They may not where the compositor
/// recommends shared memory, nor on a virtual GPU whose memory cannot be read.
pub fn use_dmabuf(shared_memory_recommended: bool, virgl: bool, venus: bool) -> (r: bool)
    ensures
        r == (!shared_memory_recommended && (virgl ==> venus)),
{
    !shared_memory_recommended && !(virgl && !venus)
}

/// A monitor that input coordinates are mapped to.
#[derive(Debug)]
pub struct InputMonitorInfo {
    pub id: u32,
    pub name: String,
    pub x: i32,
    pub y: i32,
    pub width: u32,
    pub height: u32,
    pub stream_x: u32,
    pub stream_y: u32,
    pub stream_width: u32,
    pub stream_height: u32,
    pub is_primary: bool,
}

impl InputMonitorInfo {
    /// This is the monitor of stream number `index`.
    pub open spec fn shows(self, stream: StreamInfo, index: int) -> bool {
        &&& self.id == index as u32
        &&& self.name@ == "Monitor "@ + decimal(index as nat)
        &&& self.x == stream.position_x && self.y == stream.position_y
        &&& self.width == stream.width && self.height == stream.height
        &&& self.stream_x == stream.position_x as u32
        &&& self.stream_y == stream.position_y as u32
        &&& self.stream_width == stream.width && self.stream_height == stream.height
        &&& self.is_primary == (index == 0)
    }

    /// This stands for a monitor that is not known yet.
    pub open spec fn is_placeholder(self) -> bool {
        &&& self.id == 0
        &&& self.name@ == "placeholder"@
        &&& self.x == 0 && self.y == 0
        &&& self.width == 1920 && self.height == 1080
        &&& self.stream_x == 0 && self.stream_y == 0
        &&& self.stream_width == 1920 && self.stream_height == 1080
        &&& self.is_primary
    }
}

/// The monitors of streams, the first being the primary one.
pub fn input_monitors(streams: &Vec<StreamInfo>) -> (r: Vec<InputMonitorInfo>)
    ensures
        r@.len() == streams@.len(),
        forall|k: int| 0 <= k < r@.len() ==> (#[trigger] r@[k]).shows(streams@[k], k),
{
    let mut r: Vec<InputMonitorInfo> = Vec::new();
    let mut i: usize = 0;
    while i < streams.len()
        invariant
            i <= streams@.len(),
            r@.len() == i,
            forall|k: int| 0 <= k < i ==> (#[trigger] r@[k]).shows(streams@[k], k),
        decreases streams@.len() - i,
    {
        let s = streams[i];
        let number = decimal_text(i as u64);
        r.push(
            InputMonitorInfo {
                id: i as u32,
                name: join2("Monitor ", number.as_str()),
                x: s.position_x,
                y: s.position_y,
                width: s.width,
                height: s.height,
                stream_x: s.position_x as u32,
                stream_y: s.position_y as u32,
                stream_width: s.width,
                stream_height: s.height,
                is_primary: i == 0,
            },
        );
        i += 1;
    }
    r
}

/// The monitors of streams. Where there is none yet, one stands in until a client
/// connects.
pub fn input_monitors_or_placeholder(streams: &Vec<StreamInfo>) -> (r: Vec<InputMonitorInfo>)
    ensures
        streams@.len() == 0 ==> r@.len() == 1 && r@[0].is_placeholder(),
        streams@.len() > 0 ==> r@.len() == streams@.len(),
        streams@.len() > 0 ==> forall|k: int|
            0 <= k < r@.len() ==> (#[trigger] r@[k]).shows(streams@[k], k),
{
    if streams.len() > 0 {
        return input_monitors(streams);
    }
    let mut r: Vec<InputMonitorInfo> = Vec::new();
    r.push(
        InputMonitorInfo {
            id: 0,
            name: "placeholder".to_owned(),
            x: 0,
            y: 0,
            width: 1920,
            height: 1080,
            stream_x: 0,
            stream_y: 0,
            stream_width: 1920,
            stream_height: 1080,
            is_primary: true,
        },
    );
    r
}

/// Kinds of data that the clipboard passes on, besides plain text.
#[derive(Clone, Copy, Debug, PartialEq, Eq, Structural)]
pub struct ClipboardTypes {
    pub images: bool,
    pub files: bool,
    pub html: bool,
    pub rtf: bool,
}

/// Some allowed type has the pattern in it, or all types are allowed because none
/// is listed.
pub open spec fn allows(allowed: Seq<String>, pattern: Seq<char>) -> bool {
    allowed.len() == 0 || exists|i: int|
        0 <= i < allowed.len() && contains_text((#[trigger] allowed[i])@, pattern)
}

fn is_allowed(allowed: &Vec<String>, pattern: &str) -> (r: bool)
    ensures
        r == allows(allowed@, pattern@),
{
    if allowed.len() == 0 {
        return true;
    }
    let mut i: usize = 0;
    while i < allowed.len()
        invariant
            i <= allowed@.len(),
            allowed@.len() > 0,
            forall|k: int| 0 <= k < i ==> !contains_text((#[trigger] allowed@[k])@, pattern@),
        decreases allowed@.len() - i,
    {
        if has_text(allowed[i].as_str(), pattern) {
            return true;
        }
        i += 1;
    }
    false
}

/// The kinds of data that a list of allowed types lets through.
pub fn clipboard_types(allowed: &Vec<String>) -> (r: ClipboardTypes)
    ensures
        r.images == allows(allowed@, "image/"@),
        r.files == (allows(allowed@, "uri-list"@) || allows(allowed@, "file"@) || allows(
            allowed@,
            "x-special"@,
        )),
        r.html == allows(allowed@, "text/html"@),
        r.rtf == allows(allowed@, "rtf"@),
{
    ClipboardTypes {
        images: is_allowed(allowed, "image/"),
        files: is_allowed(allowed, "uri-list") || is_allowed(allowed, "file") || is_allowed(
            allowed,
            "x-special",
        ),
        html: is_allowed(allowed, "text/html"),
        rtf: is_allowed(allowed, "rtf"),
    }
}

/// The clipboard of a full session: data control where the desktop calls for it,
/// else what the session has.
pub fn clipboard_provider(data_control: bool, from_session: Option<ClipboardBackend>) -> (r: Option<
    ClipboardBackend,
>)
    ensures
        r == (if data_control {
            Some(ClipboardBackend::WlClipboard)
        } else {
            from_session
        }),
{
    if data_control {
        Some(ClipboardBackend::WlClipboard)
    } else {
        from_session
    }
}

/// Whether the portal's clipboard takes over after a trial: data control failed it,
/// falling back is allowed, and the portal has a clipboard with a session.
pub fn falls_back_to_portal(
    data_control: bool,
    healthy: bool,
    fallback_allowed: bool,
    portal_clipboard: bool,
    portal_session: bool,
) -> (r: bool)
    ensures
        r == (data_control && !healthy && fallback_allowed && portal_clipboard && portal_session),
{
    data_control && !healthy && fallback_allowed && portal_clipboard && portal_session
}

/// A number of a version; what is not a number counts as zero.
pub open spec fn version_part(s: Seq<char>) -> u32 {
    match unsigned(s, u32::MAX as nat) {
        Some(n) => n as u32,
        None => 0,
    }
}

/// The version that a text gives: its first three parts between dots. Texts of fewer
/// parts, and no text, count as version 0.3.0.
pub open spec fn version_of(text: Option<Seq<char>>) -> (u32, u32, u32) {
    match text {
        Some(t) => {
            let parts = split(t, Separator::Char('.'));
            if parts.len() >= 3 {
                (version_part(parts[0]), version_part(parts[1]), version_part(parts[2]))
            } else {
                (0, 3, 0)
            }
        },
        None => (0, 3, 0),
    }
}

fn read_part(chars: &Vec<char>, range: (usize, usize)) -> (r: u32)
    requires
        range.0 <= range.1 <= chars@.len(),
    ensures
        r == version_part(chars@.subrange(range.0 as int, range.1 as int)),
{
    match parse_unsigned(chars, range.0, range.1, u32::MAX as u64) {
        Some(n) => n as u32,
        None => 0,
    }
}

/// The version of PipeWire, from what it says of itself.
pub fn pipewire_version(text: Option<&str>) -> (r: (u32, u32, u32))
    ensures
        r == version_of(match text {
            Some(t) => Some(t@),
            None => None,
        }),
{
    match text {
        Some(t) => {
            let chars = chars_of(t);
            let n: usize = chars.len();
            assert(chars@.subrange(0, n as int) =~= t@);
            let parts = split_ranges(&chars, 0, n, Separator::Char('.'));
            if parts.len() >= 3 {
                (
                    read_part(&chars, parts[0]),
                    read_part(&chars, parts[1]),
                    read_part(&chars, parts[2]),
                )
            } else {
                (0, 3, 0)
            }
        },
        None => (0, 3, 0),
    }
}

/// What a server is configured with, and what is known of the machine.
pub struct ServerSettings {
    pub clipboard_enabled: bool,
    pub allowed_types: Vec<String>,
    pub zgfx_compression: String,
    pub max_frames_in_flight: u32,
    pub egfx_enabled: bool,
    pub enable_touch: bool,
    pub security_mode: String,
    /// The public key of the certificate could be read.
    pub public_key: bool,
    pub vsock_active: bool,
    pub shared_memory_recommended: bool,
    pub virgl: bool,
    pub venus: bool,
}

/// How a server is put together.
pub struct ServerPlan {
    pub parts: ServerParts,
    pub video: VideoSource,
    pub initial_size: (u16, u16),
    pub primary_stream: u32,
    pub use_dmabuf: bool,
    /// Settings of the graphics channel.
    pub graphics: LamcoGfxFactory,
    /// Clients are offered the graphics channel.
    pub offers_graphics: bool,
    /// The display follows the state of the graphics channel, and the round trip is
    /// measured while a client uses it.
    pub follows_graphics: bool,
    /// Clients are offered touch input.
    pub offers_touch: bool,
    pub security: ServerSecurity,
    /// A second server, without TLS, serves clients that the host relays.
    pub plain_server: bool,
    pub clipboard: ClipboardTypes,
    /// The monitors that input is mapped to; none where there is no input.
    pub monitors: Vec<InputMonitorInfo>,
}

/// The monitors of a plan: none without input, those of the streams with it, and a
/// placeholder where a self-sufficient session has no stream yet.
pub open spec fn planned_monitors(
    parts: ServerParts,
    streams: Seq<StreamInfo>,
    monitors: Seq<InputMonitorInfo>,
) -> bool {
    if !parts.input {
        monitors.len() == 0
    } else if parts.self_sufficient && streams.len() == 0 {
        monitors.len() == 1 && monitors[0].is_placeholder()
    } else {
        &&& monitors.len() == streams.len()
        &&& forall|k: int|
            0 <= k < monitors.len() ==> (#[trigger] monitors[k]).shows(streams[k], k)
    }
}

/// Plans a server for a session. Only a self-sufficient session may hand its frames
/// over in a channel.
pub fn plan_server(
    session: SessionType,
    access: PipeWireAccess,
    streams: &Vec<StreamInfo>,
    settings: &ServerSettings,
) -> (r: ServerPlan)
    requires
        !is_self_sufficient(session) ==> !(access is DirectChannel),
    ensures
        r.parts == parts_of(session, settings.clipboard_enabled),
        r.video == video_of(session, access),
        r.initial_size == (if streams@.len() > 0 {
            (streams@[0].width as u16, streams@[0].height as u16)
        } else {
            (1920, 1080)
        }),
        r.primary_stream == (if streams@.len() > 0 {
            streams@[0].node_id
        } else {
            0
        }),
        r.use_dmabuf == (!settings.shared_memory_recommended && (settings.virgl
            ==> settings.venus) && !(r.video is Channel)),
        r.graphics == (LamcoGfxFactory {
            width: r.initial_size.0,
            height: r.initial_size.1,
            handler_state: SharedHandlerState::blank(),
            has_server_handle: false,
            force_avc420_only: false,
            max_frames_in_flight: settings.max_frames_in_flight,
            compression_mode: compression_named(lowercase_of(settings.zgfx_compression@)),
        }),
        r.offers_graphics == settings.egfx_enabled,
        r.follows_graphics == (settings.egfx_enabled || !r.parts.self_sufficient),
        r.offers_touch == (settings.enable_touch && r.parts.input),
        r.security == protection(settings.security_mode@, settings.public_key),
        r.plain_server == (r.parts.self_sufficient && r.parts.input && settings.vsock_active
            && !is_standard(settings.security_mode@)),
        r.clipboard.images == allows(settings.allowed_types@, "image/"@),
        r.clipboard.files == (allows(settings.allowed_types@, "uri-list"@) || allows(
            settings.allowed_types@,
            "file"@,
        ) || allows(settings.allowed_types@, "x-special"@)),
        r.clipboard.html == allows(settings.allowed_types@, "text/html"@),
        r.clipboard.rtf == allows(settings.allowed_types@, "rtf"@),
        planned_monitors(r.parts, streams@, r.monitors@),
{
    let parts = server_parts(session, settings.clipboard_enabled);
    let video = video_source(session, access);
    let size: (u16, u16) = initial_size(streams);
    let in_memory = match video {
        VideoSource::Channel => true,
        _ => false,
    };
    let monitors: Vec<InputMonitorInfo> = if !parts.input {
        Vec::new()
    } else if parts.self_sufficient {
        input_monitors_or_placeholder(streams)
    } else {
        input_monitors(streams)
    };
    ServerPlan {
        parts,
        video,
        initial_size: size,
        primary_stream: primary_stream_id(streams),
        use_dmabuf: use_dmabuf(
            settings.shared_memory_recommended,
            settings.virgl,
            settings.venus,
        ) && !in_memory,
        graphics: LamcoGfxFactory::with_config(
            size.0,
            size.1,
            false,
            settings.max_frames_in_flight,
            compression_mode(settings.zgfx_compression.as_str()),
        ),
        offers_graphics: settings.egfx_enabled,
        follows_graphics: settings.egfx_enabled || !parts.self_sufficient,
        offers_touch: settings.enable_touch && parts.input,
        security: server_security(settings.security_mode.as_str(), settings.public_key),
        plain_server: parts.self_sufficient && parts.input && needs_plain_server(
            settings.security_mode.as_str(),
            settings.vsock_active,
        ),
        clipboard: clipboard_types(&settings.allowed_types),
        monitors,
    }
}

/// How a server runs.
pub struct RunPlan {
    pub security_label: &'static str,
    pub codec_label: &'static str,
    /// The authentication method in force.
    pub auth_method: String,
    /// It is not the configured one.
    pub auth_fell_back: bool,
    /// Mode and method call for authentication at the network level. The protection
    /// that a server is built with has it in mode `hybrid` alone.
    pub hybrid: bool,
    /// Neither TLS nor encryption.
    pub standard: bool,
    /// Credentials are checked against PAM.
    pub pam: bool,
    /// Every client will fail for want of credentials.
    pub lacks_credentials: bool,
    /// Anybody who reaches the port may connect.
    pub exposed: bool,
}

/// Plans how a server runs. `loopback` says of the address it listens on whether it
/// is the machine's own, where it can be read.
pub fn plan_run(
    security_mode: &str,
    configured_auth: &str,
    pam_available: bool,
    recommended_auth: &str,
    credentials_configured: bool,
    egfx_enabled: bool,
    loopback: Option<bool>,
) -> (r: RunPlan)
    ensures
        r.security_label@ == label_of(security_mode@),
        r.codec_label@ == (if egfx_enabled {
            "EGFX (H.264 AVC420/AVC444) + RemoteFX fallback"@
        } else {
            "RemoteFX"@
        }),
        r.auth_method@ == auth_in_force(configured_auth@, pam_available, recommended_auth@),
        r.auth_fell_back == (r.auth_method@ != configured_auth@),
        r.hybrid == uses_hybrid(security_mode@, r.auth_method@),
        r.standard == is_standard(security_mode@),
        r.pam == (r.auth_method@ == "pam"@),
        r.lacks_credentials == (r.hybrid && !credentials_configured && !r.pam),
        r.exposed == (r.auth_method@ == "none"@ && loopback == Some(false)),
{
    let auth = effective_auth_method(configured_auth, pam_available, recommended_auth);
    RunPlan {
        security_label: security_label(security_mode),
        codec_label: codec_label(egfx_enabled),
        auth_fell_back: !same_text(auth.as_str(), configured_auth),
        hybrid: resolve_security_mode(security_mode, auth.as_str()),
        standard: is_standard_rdp_security(security_mode),
        pam: uses_pam(auth.as_str()),
        lacks_credentials: lacks_credentials(
            security_mode,
            auth.as_str(),
            credentials_configured,
        ),
        exposed: is_exposed(auth.as_str(), loopback),
        auth_method: auth,
    }
}

/// A server that authenticates at the network level has TLS: the two ways of
/// connecting without it never go with credentials on the network.
pub proof fn law_hybrid_has_tls(mode: Seq<char>, auth: Seq<char>, public_key: bool)
    requires
        uses_hybrid(mode, auth),
    ensures
        protection(mode, public_key) != ServerSecurity::Standard,
{
    if is_standard(mode) {
        crate::server::security::law_standard_is_not_hybrid(mode, auth, public_key);
    }
}

/// A view-only server has neither input nor clipboard, and says so.
pub proof fn law_view_only_reports(clipboard_enabled: bool)
    ensures
        ({
            let p = parts_of(SessionType::ScreenCastOnly, clipboard_enabled);
            !p.input && !p.clipboard && p.report_no_input && p.report_no_clipboard
        }),
{
}

/// Input is missing exactly where it is reported missing.
pub proof fn law_missing_input_is_reported(session: SessionType, clipboard_enabled: bool)
    ensures
        parts_of(session, clipboard_enabled).report_no_input == !parts_of(
            session,
            clipboard_enabled,
        ).input,
{
}

/// An empty list of allowed types allows every kind.
pub proof fn law_no_list_allows_all(pattern: Seq<char>)
    ensures
        allows(Seq::<String>::empty(), pattern),
{
}

/// Compression is on as the setting says, and off where it says anything else.
pub proof fn law_compression_names(setting: Seq<char>)
    ensures
        compression_named("auto"@) == CompressionMode::Auto,
        compression_named("always"@) == CompressionMode::Always,
        setting != "auto"@ && setting != "always"@ ==> compression_named(setting)
            == CompressionMode::Never,
{
    reveal_strlit("auto");
    reveal_strlit("always");
    assert("auto"@.len() == 4 && "always"@.len() == 6);
}

/// A session's picture comes the way its streams are reached, but for a session that has
/// input only.
pub proof fn law_picture_comes_as_reached(session: SessionType, fd: i32, node: u32)
    ensures
        session != SessionType::WlrDirect ==> video_of(
            session,
            PipeWireAccess::FileDescriptor(fd),
        ) == VideoSource::Descriptor(fd),
        session != SessionType::WlrDirect ==> video_of(session, PipeWireAccess::NodeId(node))
            == VideoSource::Node(node),
        session != SessionType::WlrDirect ==> video_of(session, PipeWireAccess::DirectChannel)
            == VideoSource::Channel,
        forall|access: PipeWireAccess|
            #[trigger] video_of(SessionType::WlrDirect, access) == VideoSource::Screencast,
{
}

/// What each kind of session has of its own.
pub proof fn law_parts_by_session(session: SessionType, enabled: bool)
    ensures
        parts_of(session, enabled).self_sufficient == is_self_sufficient(session),
        !is_self_sufficient(SessionType::Portal),
        !is_self_sufficient(SessionType::MutterDirect),
        !is_self_sufficient(SessionType::Libei),
        is_self_sufficient(SessionType::ScreenCastOnly),
        is_self_sufficient(SessionType::WlrDirect),
        is_self_sufficient(SessionType::PortalGeneric),
        is_self_sufficient(SessionType::KwinVirtual),
        parts_of(session, enabled).elastic <==> session == SessionType::KwinVirtual,
        parts_of(session, enabled).input <==> session != SessionType::ScreenCastOnly,
        parts_of(session, enabled).report_no_clipboard <==> session
            == SessionType::ScreenCastOnly,
        !is_self_sufficient(session) ==> parts_of(session, enabled).clipboard,
        session == SessionType::WlrDirect || session == SessionType::PortalGeneric ==> parts_of(
            session,
            enabled,
        ).clipboard == enabled,
        session == SessionType::KwinVirtual || session == SessionType::ScreenCastOnly
            ==> !parts_of(session, enabled).clipboard,
{
}

/// The monitors of streams are apart and in order: each has its own number and its
/// stream's place and size, and the first alone is the primary one.
pub proof fn law_monitors_follow_streams(m: InputMonitorInfo, stream: StreamInfo, index: int)
    requires
        0 <= index <= u32::MAX,
        m.shows(stream, index),
    ensures
        m.id == index,
        m.is_primary <==> index == 0,
        (m.x, m.y) == (stream.position_x, stream.position_y),
        (m.width, m.height) == (stream.width, stream.height),
        (m.stream_width, m.stream_height) == (stream.width, stream.height),
        stream.position_x >= 0 ==> m.stream_x == stream.position_x,
        stream.position_y >= 0 ==> m.stream_y == stream.position_y,
        unsigned(m.name@.skip("Monitor "@.len() as int), u32::MAX as nat) == Some(index as nat),
        m.name@.take("Monitor "@.len() as int) == "Monitor "@,
{
    let title = "Monitor "@;
    assert(m.name@.skip(title.len() as int) =~= decimal(index as nat));
    assert(m.name@.take(title.len() as int) =~= title);
    crate::text::law_decimal_reads_back(index as nat, u32::MAX as nat);
}

/// What stands in for an unknown monitor is a primary one of full HD at the origin.
pub proof fn law_placeholder(m: InputMonitorInfo)
    requires
        m.is_placeholder(),
    ensures
        m.id == 0 && m.is_primary && m.name@ == "placeholder"@,
        (m.x, m.y) == (0i32, 0i32) && (m.width, m.height) == (1920u32, 1080u32),
        (m.stream_x, m.stream_y) == (0u32, 0u32),
        (m.stream_width, m.stream_height) == (1920u32, 1080u32),
{
}

/// A plan maps input to the streams, and to nothing where there is no input; only where a
/// self-sufficient session has no stream yet a monitor stands in.
pub proof fn law_plan_maps_streams(
    parts: ServerParts,
    streams: Seq<StreamInfo>,
    monitors: Seq<InputMonitorInfo>,
    k: int,
)
    requires
        planned_monitors(parts, streams, monitors),
    ensures
        !parts.input ==> monitors.len() == 0,
        parts.input && streams.len() > 0 ==> monitors.len() == streams.len(),
        parts.input && 0 <= k < streams.len() ==> monitors[k].shows(streams[k], k),
        parts.input && streams.len() == 0 && parts.self_sufficient ==> monitors.len() == 1
            && monitors[0].is_placeholder(),
        !parts.self_sufficient && streams.len() == 0 ==> monitors.len() == 0,
{
}

/// A type in the list allows each kind whose pattern it holds; a list none of whose types
/// holds the pattern does not allow the kind.
pub proof fn law_list_allows_what_it_names(allowed: Seq<String>, i: int, pattern: Seq<char>)
    ensures
        0 <= i < allowed.len() && contains_text(allowed[i]@, pattern) ==> allows(allowed, pattern),
        allowed.len() > 0 && (forall|k: int|
            0 <= k < allowed.len() ==> !contains_text((#[trigger] allowed[k])@, pattern))
            ==> !allows(allowed, pattern),
{
}

/// A version is read as its three numbers; one that is not given counts as 0.3.0.
pub proof fn law_version_is_read(major: u32, minor: u32, patch: u32, odd: Seq<char>)
    ensures
        version_of(
            Some(
                decimal(major as nat).push('.') + (decimal(minor as nat).push('.') + decimal(
                    patch as nat,
                )),
            ),
        ) == (major, minor, patch),
        version_of(None) == (0u32, 3u32, 0u32),
        !odd.contains('.') ==> version_of(Some(odd)) == (0u32, 3u32, 0u32),
        unsigned(odd, u32::MAX as nat) is None ==> version_part(odd) == 0,
{
    let dot = Separator::Char('.');
    let a = decimal(major as nat);
    let b = decimal(minor as nat);
    let c = decimal(patch as nat);
    crate::text::law_decimal_form(major as nat);
    crate::text::law_decimal_form(minor as nat);
    crate::text::law_decimal_form(patch as nat);
    crate::text::law_split_parts(a, '.', b.push('.') + c, dot);
    crate::text::law_split_parts(b, '.', c, dot);
    crate::text::law_split_parts(c, '.', c, dot);
    crate::text::law_split_parts(odd, '.', odd, dot);
    crate::text::law_decimal_reads_back(major as nat, u32::MAX as nat);
    crate::text::law_decimal_reads_back(minor as nat, u32::MAX as nat);
    crate::text::law_decimal_reads_back(patch as nat, u32::MAX as nat);
    let parts = split(a.push('.') + (b.push('.') + c), dot);
    assert(parts =~= seq![a, b, c]);
}

} // verus!
