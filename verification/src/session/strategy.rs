//! What all session strategies share: streams, session types, configuration and
//! the choice of a clipboard.

use vstd::prelude::*;

use vstd::string::*;

use crate::text::join2;

verus! {

/// A captured monitor.
#[derive(Clone, Copy, Debug, PartialEq, Eq, Structural)]
pub struct StreamInfo {
    pub node_id: u32,
    pub width: u32,
    pub height: u32,
    pub position_x: i32,
    pub position_y: i32,
}

/// How long a session lives.
#[derive(Clone, Copy, Debug, PartialEq, Eq, Structural)]
pub enum SessionLifecyclePolicy {
    /// Set up once, kept over all connections.
    Persistent,
    /// Set up for each client, taken down when the client leaves.
    PerConnection,
}

/// The strategy that a session was made by.
#[derive(Clone, Copy, Debug, PartialEq, Eq, Structural)]
pub enum SessionType {
    Portal,
    MutterDirect,
    WlrDirect,
    Libei,
    PortalGeneric,
    KwinVirtual,
    ScreenCastOnly,
}

impl SessionType {
    /// Name for people.
    pub open spec fn name(self) -> Seq<char> {
        match self {
            SessionType::Portal => "Portal"@,
            SessionType::MutterDirect => "Mutter Direct API"@,
            SessionType::WlrDirect => "wlr-direct"@,
            SessionType::Libei => "libei/EIS"@,
            SessionType::PortalGeneric => "portal-generic (embedded)"@,
            SessionType::ScreenCastOnly => "ScreenCast-only (view-only)"@,
            SessionType::KwinVirtual => "kwin-virtual (zkde-screencast)"@,
        }
    }

    pub fn to_string(&self) -> (r: String)
        ensures
            r@ == self.name(),
    {
        let text = match self {
            SessionType::Portal => "Portal",
            SessionType::MutterDirect => "Mutter Direct API",
            SessionType::WlrDirect => "wlr-direct",
            SessionType::Libei => "libei/EIS",
            SessionType::PortalGeneric => "portal-generic (embedded)",
            SessionType::ScreenCastOnly => "ScreenCast-only (view-only)",
            SessionType::KwinVirtual => "kwin-virtual (zkde-screencast)",
        };
        text.to_owned()
    }
}

/// How the capture shows the pointer.
#[derive(Clone, Copy, Debug, PartialEq, Eq, Structural)]
pub enum CursorMode {
    /// Painted into the frames.
    Embedded,
    /// Beside the frames, as position and image.
    Metadata,
    /// Not at all.
    Hidden,
}

/// How to reach the PipeWire streams of a session.
#[derive(Clone, Copy, Debug, PartialEq, Eq, Structural)]
pub enum PipeWireAccess {
    /// A connected socket, by its descriptor.
    FileDescriptor(i32),
    /// A node on the daemon's default socket.
    NodeId(u32),
    /// Frames come over a channel of this process.
    DirectChannel,
}

impl PipeWireAccess {
    /// A second way to the same streams. A channel has one reader only.
    pub fn duplicate(&self) -> (r: PipeWireAccess)
        requires
            !(*self is DirectChannel),
        ensures
            r == *self,
    {
        *self
    }
}

/// What is known of a clipboard that the portal offers.
#[derive(Clone, Copy, Debug, PartialEq, Eq, Structural)]
pub struct ClipboardComponents {
    /// Whether the portal has a clipboard at all; its first version has none.
    pub manager: bool,
    pub session_valid: bool,
}

impl ClipboardComponents {
    pub fn is_session_valid(&self) -> (r: bool)
        ensures
            r == self.session_valid,
    {
        self.session_valid
    }
}

/// What a resize did to the capture.
#[derive(Clone, Copy, Debug, PartialEq, Eq, Structural)]
pub enum CaptureResizeEffect {
    /// Nothing: the capture must not be bound again.
    Unchanged,
    /// The same stream delivers the new size.
    RelaidOutInPlace,
    /// There is a new stream to bind to.
    Recreated { node_id: u32 },
}

/// The size of the capture after a resize, and what was done for it.
#[derive(Clone, Copy, Debug, PartialEq, Eq, Structural)]
pub struct CaptureResizeOutcome {
    pub width: u16,
    pub height: u16,
    pub effect: CaptureResizeEffect,
}

/// Where a session's clipboard is.
#[derive(Clone, Copy, Debug, PartialEq, Eq, Structural)]
pub enum ClipboardSource {
    Portal(ClipboardComponents),
    Mutter,
    DataControl,
    /// The session has none of its own.
    Absent,
}

/// The clipboard that a client gets.
#[derive(Clone, Copy, Debug, PartialEq, Eq, Structural)]
pub enum ClipboardBackend {
    Portal,
    Mutter,
    DataControl,
    /// Data control over a connection of this process to the compositor.
    WlClipboard,
}

/// The clipboard for a session: its own, or the portal's where it has none. A
/// Mutter clipboard that could not be set up (`mutter_ready` is false) and a
/// portal without a clipboard both mean that there is none.
pub open spec fn clipboard_for(
    source: ClipboardSource,
    portal_fallback: Option<ClipboardComponents>,
    mutter_ready: bool,
) -> Option<ClipboardBackend> {
    let portal = |c: ClipboardComponents|
        if c.manager {
            Some(ClipboardBackend::Portal)
        } else {
            None
        };
    match source {
        ClipboardSource::Mutter => if mutter_ready {
            Some(ClipboardBackend::Mutter)
        } else {
            None
        },
        ClipboardSource::DataControl => Some(ClipboardBackend::DataControl),
        ClipboardSource::Portal(c) => portal(c),
        ClipboardSource::Absent => match portal_fallback {
            Some(c) => portal(c),
            None => None,
        },
    }
}

/// Chooses the clipboard for a session.
pub fn build_clipboard(
    source: ClipboardSource,
    portal_fallback: Option<ClipboardComponents>,
    mutter_ready: bool,
) -> (r: Option<ClipboardBackend>)
    ensures
        r == clipboard_for(source, portal_fallback, mutter_ready),
{
    let components = match source {
        ClipboardSource::Portal(c) => Some(c),
        ClipboardSource::Mutter => {
            return if mutter_ready {
                Some(ClipboardBackend::Mutter)
            } else {
                None
            };
        },
        ClipboardSource::DataControl => {
            return Some(ClipboardBackend::DataControl);
        },
        ClipboardSource::Absent => portal_fallback,
    };
    match components {
        Some(c) => if c.manager {
            Some(ClipboardBackend::Portal)
        } else {
            None
        },
        None => None,
    }
}

/// A lower-case hexadecimal digit.
pub open spec fn is_hex(c: char) -> bool {
    ('0' <= c <= '9') || ('a' <= c <= 'f')
}

/// The text of a random (version four) UUID: groups of 8, 4, 4, 4 and 12
/// lower-case hexadecimal digits joined by hyphens, the third group starting with
/// `4` and the fourth with `8`, `9`, `a` or `b`.
pub open spec fn is_random_uuid(s: Seq<char>) -> bool {
    &&& s.len() == 36
    &&& s[8] == '-' && s[13] == '-' && s[18] == '-' && s[23] == '-'
    &&& forall|i: int|
        0 <= i < 36 && i != 8 && i != 13 && i != 18 && i != 23 ==> is_hex(#[trigger] s[i])
    &&& s[14] == '4'
    &&& s[19] == '8' || s[19] == '9' || s[19] == 'a' || s[19] == 'b'
}

/// Calls `uuid::Uuid::new_v4` and formats the result with its `Display`. The
/// claim: whatever bits are drawn, the text is the hyphenated lower-case form with
/// the version and variant of a random UUID. Which of those it is rests on chance.
#[verifier::external_body]
fn random_uuid() -> (r: String)
    ensures
        is_random_uuid(r@),
{
    uuid::Uuid::new_v4().to_string()
}

/// Name of a session, from a text that tells it from others.
pub fn session_id(unique: &str) -> (r: String)
    ensures
        r@ == "lamco-rdp-"@ + unique@,
{
    join2("lamco-rdp-", unique)
}

/// Short tag of a session: a prefix and the first eight characters of a text that
/// tells it from others.
pub fn session_tag(prefix: &str, unique: &str) -> (r: String)
    requires
        unique@.len() >= 8,
    ensures
        r@ == prefix@ + unique@.take(8),
{
    proof {
        assert(unique@.subrange(0, 8) =~= unique@.take(8));
    }
    join2(prefix, unique.substring_char(0, 8))
}

/// A tag for a new session: the prefix and eight random hexadecimal digits.
pub fn new_session_tag(prefix: &str) -> (r: String)
    ensures
        r@.len() == prefix@.len() + 8,
        r@.take(prefix@.len() as int) == prefix@,
        forall|i: int| prefix@.len() <= i < r@.len() ==> is_hex(#[trigger] r@[i]),
{
    let unique = random_uuid();
    let r = session_tag(prefix, unique.as_str());
    assert(r@.take(prefix@.len() as int) =~= prefix@);
    assert forall|i: int| prefix@.len() <= i < r@.len() implies is_hex(#[trigger] r@[i]) by {
        assert(is_hex(unique@[i - prefix@.len()]));
    }
    r
}

/// What to set up in a session.
#[derive(Clone, Debug)]
pub struct SessionConfig {
    pub session_id: String,
    pub cursor_mode: CursorMode,
    /// The monitor to capture; the primary one where none is named.
    pub monitor_connector: Option<String>,
    pub enable_clipboard: bool,
}

impl Default for SessionConfig {
    fn default() -> (r: SessionConfig)
        ensures
            exists|unique: Seq<char>|
                is_random_uuid(unique) && r.session_id@ == "lamco-rdp-"@ + unique,
            r.cursor_mode == CursorMode::Metadata,
            r.monitor_connector is None,
            r.enable_clipboard,
    {
        let unique = random_uuid();
        assert(is_random_uuid(unique@));
        SessionConfig {
            session_id: session_id(unique.as_str()),
            cursor_mode: CursorMode::Metadata,
            monitor_connector: None,
            enable_clipboard: true,
        }
    }
}

/// A stream as the portal describes it. The portal may leave out size and
/// position.
#[derive(Clone, Copy, Debug)]
pub struct PortalStream {
    pub node_id: u32,
    pub size: Option<(i32, i32)>,
    pub position: Option<(i32, i32)>,
}

impl PortalStream {
    /// The stream with zero for what the portal left out.
    pub open spec fn info(self) -> StreamInfo {
        let size = match self.size {
            Some(s) => s,
            None => (0, 0),
        };
        let position = match self.position {
            Some(p) => p,
            None => (0, 0),
        };
        StreamInfo {
            node_id: self.node_id,
            width: size.0 as u32,
            height: size.1 as u32,
            position_x: position.0,
            position_y: position.1,
        }
    }
}

/// Takes over the streams that a portal started.
pub fn streams_from_portal(portal: &Vec<PortalStream>) -> (r: Vec<StreamInfo>)
    ensures
        r@ == portal@.map_values(|s: PortalStream| s.info()),
{
    let mut r: Vec<StreamInfo> = Vec::new();
    let mut i: usize = 0;
    while i < portal.len()
        invariant
            i <= portal.len(),
            r@.len() == i,
            forall|k: int| 0 <= k < i ==> #[trigger] r@[k] == portal@[k].info(),
        decreases portal.len() - i,
    {
        let s = portal[i];
        let size: (i32, i32) = match s.size {
            Some(v) => v,
            None => (0, 0),
        };
        let position: (i32, i32) = match s.position {
            Some(v) => v,
            None => (0, 0),
        };
        r.push(
            StreamInfo {
                node_id: s.node_id,
                width: size.0 as u32,
                height: size.1 as u32,
                position_x: position.0,
                position_y: position.1,
            },
        );
        i += 1;
    }
    r
}

/// A session uses its own clipboard where it has one that works, and the portal's only
/// where it has none of its own.
pub proof fn law_own_clipboard_first(
    c: ClipboardComponents,
    fallback: Option<ClipboardComponents>,
    ready: bool,
)
    ensures
        clipboard_for(ClipboardSource::Mutter, fallback, true) == Some(ClipboardBackend::Mutter),
        clipboard_for(ClipboardSource::Mutter, fallback, false) is None,
        clipboard_for(ClipboardSource::DataControl, fallback, ready) == Some(
            ClipboardBackend::DataControl,
        ),
        clipboard_for(ClipboardSource::Portal(c), fallback, ready) is Some <==> c.manager,
        clipboard_for(ClipboardSource::Portal(c), fallback, ready) is Some ==> clipboard_for(
            ClipboardSource::Portal(c),
            fallback,
            ready,
        )->0 == ClipboardBackend::Portal,
        clipboard_for(ClipboardSource::Absent, Some(c), ready) == clipboard_for(
            ClipboardSource::Portal(c),
            fallback,
            ready,
        ),
        clipboard_for(ClipboardSource::Absent, None, ready) is None,
{
}

/// What the portal says of a stream is kept, and what it leaves out is zero.
pub proof fn law_streams_are_taken_over(s: PortalStream)
    ensures
        s.info().node_id == s.node_id,
        s.size matches Some((w, h)) ==> (w >= 0 ==> s.info().width == w) && (h >= 0
            ==> s.info().height == h),
        s.position matches Some((x, y)) ==> s.info().position_x == x && s.info().position_y == y,
        s.size is None ==> s.info().width == 0 && s.info().height == 0,
        s.position is None ==> s.info().position_x == 0 && s.info().position_y == 0,
{
}

/// What people read of each strategy.
pub proof fn law_strategy_names(a: SessionType, b: SessionType)
    ensures
        SessionType::Portal.name() == "Portal"@,
        SessionType::MutterDirect.name() == "Mutter Direct API"@,
        SessionType::WlrDirect.name() == "wlr-direct"@,
        SessionType::Libei.name() == "libei/EIS"@,
        SessionType::PortalGeneric.name() == "portal-generic (embedded)"@,
        SessionType::ScreenCastOnly.name() == "ScreenCast-only (view-only)"@,
        SessionType::KwinVirtual.name() == "kwin-virtual (zkde-screencast)"@,
        a.name() == b.name() ==> a == b,
{
    reveal_strlit("Portal");
    reveal_strlit("Mutter Direct API");
    reveal_strlit("wlr-direct");
    reveal_strlit("libei/EIS");
    reveal_strlit("portal-generic (embedded)");
    reveal_strlit("ScreenCast-only (view-only)");
    reveal_strlit("kwin-virtual (zkde-screencast)");
    assert("Portal"@.len() == 6 && "Mutter Direct API"@.len() == 17 && "wlr-direct"@.len() == 10
        && "libei/EIS"@.len() == 9 && "portal-generic (embedded)"@.len() == 25
        && "ScreenCast-only (view-only)"@.len() == 27 && "kwin-virtual (zkde-screencast)"@.len()
        == 30);
}

/// A tag's digits are the ones of base sixteen, in lower case.
pub proof fn law_tag_digits(c: char)
    ensures
        is_hex(c) ==> ('0' <= c && c <= '9') || ('a' <= c && c <= 'f'),
        '0' <= c <= '9' ==> is_hex(c),
        'a' <= c <= 'f' ==> is_hex(c),
{
}

} // verus!
