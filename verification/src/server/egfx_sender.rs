//! Sending of frames over the graphics channel: admission, damage rectangles,
//! H.264 stream inspection.

use vstd::prelude::*;
use vstd::string::*;

use crate::arith::{align16, capped};
use crate::damage::{
    all_edges_from, any_has, covers, edges_from, finest_cover, law_merge_keeps_pixels,
    merge_regions, DamageRegion,
};
use crate::server::gfx_factory::SharedHandlerState;
use crate::text::{decimal, decimal_text};

verus! {

/// Why a frame was not sent.
#[derive(Debug)]
pub enum SendError {
    /// Capabilities are not negotiated.
    NotReady,
    /// The client does not decode AVC420.
    Avc420NotSupported,
    /// The client does not decode AVC444.
    Avc444NotSupported,
    /// There is no primary surface.
    NoSurface,
    /// The client lags behind.
    Backpressure,
    /// The channel for server events is closed.
    ChannelClosed,
    /// The messages could not be encoded.
    EncodingFailed(String),
    /// The graphics pipeline could not be locked.
    LockFailed,
}

impl SendError {
    /// The error in words.
    pub open spec fn message(self) -> Seq<char> {
        match self {
            SendError::NotReady => "EGFX channel not ready"@,
            SendError::Avc420NotSupported => "AVC420 not supported by client"@,
            SendError::Avc444NotSupported => "AVC444 not supported by client"@,
            SendError::NoSurface => "No primary surface available"@,
            SendError::Backpressure => "Frame dropped due to backpressure"@,
            SendError::ChannelClosed => "Server event channel closed"@,
            SendError::EncodingFailed(e) => "DVC encoding failed: "@ + e@,
            SendError::LockFailed => "Failed to acquire lock"@,
        }
    }

    /// The error in words.
    pub fn to_string(&self) -> (r: String)
        ensures
            r@ == self.message(),
    {
        match self {
            SendError::NotReady => "EGFX channel not ready".to_owned(),
            SendError::Avc420NotSupported => "AVC420 not supported by client".to_owned(),
            SendError::Avc444NotSupported => "AVC444 not supported by client".to_owned(),
            SendError::NoSurface => "No primary surface available".to_owned(),
            SendError::Backpressure => "Frame dropped due to backpressure".to_owned(),
            SendError::ChannelClosed => "Server event channel closed".to_owned(),
            SendError::EncodingFailed(e) => {
                let mut r = "DVC encoding failed: ".to_owned();
                r.append(e.as_str());
                r
            },
            SendError::LockFailed => "Failed to acquire lock".to_owned(),
        }
    }
}

/// A rectangle of a frame on the wire; all four edges are inclusive.
#[derive(Clone, Copy, Debug, PartialEq, Eq, Structural)]
pub struct WireRegion {
    pub left: u16,
    pub top: u16,
    pub right: u16,
    pub bottom: u16,
    pub quantization_parameter: u8,
    pub quality: u8,
}

/// The rectangle of a whole frame, in full quality.
pub open spec fn whole_frame_region(width: u16, height: u16, qp: u8) -> WireRegion {
    WireRegion {
        left: 0,
        top: 0,
        right: if width == 0 {
            0
        } else {
            (width - 1) as u16
        },
        bottom: if height == 0 {
            0
        } else {
            (height - 1) as u16
        },
        quantization_parameter: qp,
        quality: 100,
    }
}

/// `Avc420Region::full_frame` of `ironrdp-egfx`: the rectangle from the origin to
/// the last column and row, which stay zero for an empty frame, with the given
/// quantization parameter and quality 100.
#[verifier::external_body]
fn full_frame(width: u16, height: u16, qp: u8) -> (r: WireRegion)
    ensures
        r == whole_frame_region(width, height, qp),
{
    let region = ironrdp_egfx::pdu::Avc420Region::full_frame(width, height, qp);
    WireRegion {
        left: region.left,
        top: region.top,
        right: region.right,
        bottom: region.bottom,
        quantization_parameter: region.quantization_parameter,
        quality: region.quality,
    }
}

/// Whether the regions stand for the whole frame: none at all, or a single one
/// from the origin that covers the display.
pub fn is_full_frame_update(
    regions: &[DamageRegion],
    display_width: u16,
    display_height: u16,
) -> (r: bool)
    ensures
        r == full_update(regions@, display_width, display_height),
{
    if regions.len() == 0 {
        return true;
    }
    regions.len() == 1 && regions[0].x == 0 && regions[0].y == 0 && regions[0].width
        >= display_width as u32 && regions[0].height >= display_height as u32
}

/// The regions stand for the whole frame.
pub open spec fn full_update(
    regions: Seq<DamageRegion>,
    display_width: u16,
    display_height: u16,
) -> bool {
    regions.len() == 0 || (regions.len() == 1 && regions[0].x == 0 && regions[0].y == 0
        && regions[0].width >= display_width && regions[0].height >= display_height)
}

/// The region grown to the grid of sixteen pixels and cut to the encoded frame,
/// unless nothing is left of it.
pub open spec fn snapped(r: DamageRegion, encoded_width: u16, encoded_height: u16) -> Option<
    DamageRegion,
> {
    let left = r.x as int / 16 * 16;
    let top = r.y as int / 16 * 16;
    let right = capped(align16(r.right()), encoded_width as int);
    let bottom = capped(align16(r.bottom()), encoded_height as int);
    if right <= left || bottom <= top {
        None
    } else {
        Some(
            DamageRegion {
                x: left as u32,
                y: top as u32,
                width: (right - left) as u32,
                height: (bottom - top) as u32,
            },
        )
    }
}

/// What is left of each region on the grid, in order.
pub open spec fn all_snapped(
    regions: Seq<DamageRegion>,
    encoded_width: u16,
    encoded_height: u16,
) -> Seq<DamageRegion>
    decreases regions.len(),
{
    if regions.len() == 0 {
        seq![]
    } else {
        let before = all_snapped(regions.drop_last(), encoded_width, encoded_height);
        match snapped(regions.last(), encoded_width, encoded_height) {
            Some(r) => before.push(r),
            None => before,
        }
    }
}

/// The edges of the region, moved out to the grid, are representable.
pub open spec fn can_snap(r: DamageRegion) -> bool {
    align16(r.right()) <= u32::MAX && align16(r.bottom()) <= u32::MAX
}

/// A region as a rectangle on the wire, in full quality.
pub open spec fn wire(r: DamageRegion, qp: u8) -> WireRegion {
    WireRegion {
        left: r.x as u16,
        top: r.y as u16,
        right: (r.right() - 1) as u16,
        bottom: (r.bottom() - 1) as u16,
        quantization_parameter: qp,
        quality: 100,
    }
}

/// `out` holds the regions of `merged` as rectangles, in order.
pub open spec fn wired(merged: Seq<DamageRegion>, qp: u8, out: Seq<WireRegion>) -> bool {
    out.len() == merged.len() && forall|i: int|
        0 <= i < out.len() ==> #[trigger] out[i] == wire(merged[i], qp)
}

/// `out` are the rectangles for damage: the snapped regions, merged.
pub open spec fn damage_rectangles(
    regions: Seq<DamageRegion>,
    encoded_width: u16,
    encoded_height: u16,
    qp: u8,
    out: Seq<WireRegion>,
) -> bool {
    let grid = all_snapped(regions, encoded_width, encoded_height);
    exists|merged: Seq<DamageRegion>| #[trigger]
        finest_cover(grid, 0, merged) && all_edges_from(grid, merged) && wired(merged, qp, out)
}

proof fn lemma_align16(n: int)
    requires
        0 <= n,
    ensures
        n <= align16(n) < n + 16,
        align16(n) % 16 == 0,
{
}

/// Every snapped region lies in the encoded frame and is not empty.
pub open spec fn in_frame(s: Seq<DamageRegion>, encoded_width: u16, encoded_height: u16) -> bool {
    forall|i: int|
        0 <= i < s.len() ==> (#[trigger] s[i]).right() <= encoded_width && s[i].bottom()
            <= encoded_height && s[i].width > 0 && s[i].height > 0
}

fn snap_regions(regions: &[DamageRegion], encoded_width: u16, encoded_height: u16) -> (r: Vec<
    DamageRegion,
>)
    requires
        forall|i: int| 0 <= i < regions@.len() ==> can_snap(#[trigger] regions@[i]),
    ensures
        r@ == all_snapped(regions@, encoded_width, encoded_height),
        in_frame(r@, encoded_width, encoded_height),
{
    let ew: u32 = encoded_width as u32;
    let eh: u32 = encoded_height as u32;
    let mut out: Vec<DamageRegion> = Vec::new();
    let mut i: usize = 0;
    while i < regions.len()
        invariant
            0 <= i <= regions@.len(),
            ew == encoded_width,
            eh == encoded_height,
            forall|k: int| 0 <= k < regions@.len() ==> can_snap(#[trigger] regions@[k]),
            out@ == all_snapped(regions@.take(i as int), encoded_width, encoded_height),
            in_frame(out@, encoded_width, encoded_height),
        decreases regions@.len() - i,
    {
        assert(regions@.take(i + 1).drop_last() =~= regions@.take(i as int));
        let r = regions[i];
        proof {
            assert(can_snap(regions@[i as int]));
            lemma_align16(r.right());
            lemma_align16(r.bottom());
        }
        let left: u32 = r.x / 16 * 16;
        let top: u32 = r.y / 16 * 16;
        let far: u32 = next_multiple(r.x + r.width);
        let low: u32 = next_multiple(r.y + r.height);
        let right: u32 = if far <= ew { far } else { ew };
        let bottom: u32 = if low <= eh { low } else { eh };
        if right > left && bottom > top {
            out.push(DamageRegion::new(left, top, right - left, bottom - top));
        }
        i = i + 1;
    }
    assert(regions@.take(i as int) =~= regions@);
    out
}

fn next_multiple(n: u32) -> (r: u32)
    requires
        align16(n as int) <= u32::MAX,
    ensures
        r == align16(n as int),
{
    let q: u32 = n / 16;
    if n % 16 == 0 {
        q * 16
    } else {
        (q + 1) * 16
    }
}

proof fn lemma_merged_in_frame(
    grid: Seq<DamageRegion>,
    merged: Seq<DamageRegion>,
    encoded_width: u16,
    encoded_height: u16,
    j: int,
)
    requires
        in_frame(grid, encoded_width, encoded_height),
        all_edges_from(grid, merged),
        0 <= j < merged.len(),
    ensures
        merged[j].right() <= encoded_width,
        merged[j].bottom() <= encoded_height,
        merged[j].width > 0,
        merged[j].height > 0,
{
    assert(edges_from(grid, merged[j]));
    reveal(edges_from);
}

/// The rectangles for damage, on the grid of sixteen pixels on which frames are
/// encoded: grown outwards, cut to the encoded frame, merged. A region outside
/// the frame leaves none.
pub fn damage_regions_to_avc420(
    regions: &[DamageRegion],
    encoded_width: u16,
    encoded_height: u16,
    qp: u8,
) -> (out: Vec<WireRegion>)
    requires
        forall|i: int| 0 <= i < regions@.len() ==> can_snap(#[trigger] regions@[i]),
    ensures
        damage_rectangles(regions@, encoded_width, encoded_height, qp, out@),
        out@.len() == 0 <==> all_snapped(regions@, encoded_width, encoded_height).len() == 0,
{
    let grid = snap_regions(regions, encoded_width, encoded_height);
    let ghost g = grid@;
    let merged = merge_regions(grid, 0);
    let mut out: Vec<WireRegion> = Vec::new();
    let mut i: usize = 0;
    while i < merged.len()
        invariant
            0 <= i <= merged@.len(),
            in_frame(g, encoded_width, encoded_height),
            all_edges_from(g, merged@),
            out@.len() == i,
            forall|k: int| 0 <= k < i ==> #[trigger] out@[k] == wire(merged@[k], qp),
        decreases merged@.len() - i,
    {
        proof {
            lemma_merged_in_frame(g, merged@, encoded_width, encoded_height, i as int);
        }
        let r = merged[i];
        out.push(
            WireRegion {
                left: r.x as u16,
                top: r.y as u16,
                right: (r.x + r.width - 1) as u16,
                bottom: (r.y + r.height - 1) as u16,
                quantization_parameter: qp,
                quality: 100,
            },
        );
        i = i + 1;
    }
    proof {
        assert(wired(merged@, qp, out@));
        assert(finest_cover(g, 0, merged@) && all_edges_from(g, merged@));
    }
    out
}

/// The pixel lies in some rectangle.
pub open spec fn any_shows(out: Seq<WireRegion>, px: int, py: int) -> bool {
    exists|i: int|
        0 <= i < out.len() && (#[trigger] out[i]).left <= px <= out[i].right && out[i].top <= py
            <= out[i].bottom
}

proof fn lemma_snapped_has(
    regions: Seq<DamageRegion>,
    encoded_width: u16,
    encoded_height: u16,
    px: int,
    py: int,
)
    requires
        any_has(regions, px, py),
        0 <= px < encoded_width,
        0 <= py < encoded_height,
    ensures
        any_has(all_snapped(regions, encoded_width, encoded_height), px, py),
    decreases regions.len(),
{
    let i = choose|i: int| 0 <= i < regions.len() && (#[trigger] regions[i]).has(px, py);
    let init = regions.drop_last();
    let before = all_snapped(init, encoded_width, encoded_height);
    let after = all_snapped(regions, encoded_width, encoded_height);
    if i == regions.len() - 1 {
        let r = regions.last();
        lemma_align16(r.right());
        lemma_align16(r.bottom());
        let s = snapped(r, encoded_width, encoded_height);
        assert(s is Some && s->0.has(px, py));
        assert(after[before.len() as int].has(px, py));
    } else {
        assert(init[i].has(px, py));
        lemma_snapped_has(init, encoded_width, encoded_height, px, py);
        let j = choose|j: int| 0 <= j < before.len() && (#[trigger] before[j]).has(px, py);
        assert(after[j] == before[j]);
    }
}

proof fn lemma_snapped_in_frame(
    regions: Seq<DamageRegion>,
    encoded_width: u16,
    encoded_height: u16,
)
    ensures
        in_frame(
            all_snapped(regions, encoded_width, encoded_height),
            encoded_width,
            encoded_height,
        ),
    decreases regions.len(),
{
    if regions.len() > 0 {
        lemma_snapped_in_frame(regions.drop_last(), encoded_width, encoded_height);
        lemma_align16(regions.last().right());
        lemma_align16(regions.last().bottom());
    }
}

/// A damaged pixel of the encoded frame is in a rectangle: nothing stays stale.
pub proof fn law_damage_is_shown(
    regions: Seq<DamageRegion>,
    encoded_width: u16,
    encoded_height: u16,
    qp: u8,
    out: Seq<WireRegion>,
    px: int,
    py: int,
)
    requires
        damage_rectangles(regions, encoded_width, encoded_height, qp, out),
        any_has(regions, px, py),
        0 <= px < encoded_width,
        0 <= py < encoded_height,
    ensures
        any_shows(out, px, py),
{
    let grid = all_snapped(regions, encoded_width, encoded_height);
    let merged = choose|merged: Seq<DamageRegion>| #[trigger]
        finest_cover(grid, 0, merged) && all_edges_from(grid, merged) && wired(merged, qp, out);
    lemma_snapped_has(regions, encoded_width, encoded_height, px, py);
    lemma_snapped_in_frame(regions, encoded_width, encoded_height);
    law_merge_keeps_pixels(grid, 0, merged, px, py);
    let j = choose|j: int| 0 <= j < merged.len() && (#[trigger] merged[j]).has(px, py);
    lemma_merged_in_frame(grid, merged, encoded_width, encoded_height, j);
    assert(out[j] == wire(merged[j], qp));
}

/// Every edge of `s` is on the grid of sixteen pixels.
pub open spec fn on_grid(s: Seq<DamageRegion>) -> bool {
    forall|i: int|
        0 <= i < s.len() ==> (#[trigger] s[i]).x % 16 == 0 && s[i].y % 16 == 0 && s[i].right() % 16
            == 0 && s[i].bottom() % 16 == 0
}

proof fn lemma_snapped_on_grid(
    regions: Seq<DamageRegion>,
    encoded_width: u16,
    encoded_height: u16,
)
    requires
        encoded_width % 16 == 0,
        encoded_height % 16 == 0,
    ensures
        on_grid(all_snapped(regions, encoded_width, encoded_height)),
    decreases regions.len(),
{
    if regions.len() > 0 {
        lemma_snapped_on_grid(regions.drop_last(), encoded_width, encoded_height);
        lemma_align16(regions.last().right());
        lemma_align16(regions.last().bottom());
    }
}

/// A region whose edges are those of regions on the grid is on the grid.
proof fn lemma_edges_on_grid(grid: Seq<DamageRegion>, m: DamageRegion)
    requires
        on_grid(grid),
        edges_from(grid, m),
    ensures
        m.x % 16 == 0,
        m.y % 16 == 0,
        m.right() % 16 == 0,
        m.bottom() % 16 == 0,
{
    reveal(edges_from);
}

/// A region on the grid, as a rectangle, starts on the grid and spans at least
/// sixteen pixels each way.
proof fn lemma_wire_on_grid(m: DamageRegion, qp: u8, encoded_width: u16, encoded_height: u16)
    requires
        m.x % 16 == 0,
        m.y % 16 == 0,
        m.right() % 16 == 0,
        m.bottom() % 16 == 0,
        m.width > 0,
        m.height > 0,
        m.right() <= encoded_width,
        m.bottom() <= encoded_height,
    ensures
        wire(m, qp).left % 16 == 0,
        wire(m, qp).top % 16 == 0,
        wire(m, qp).right - wire(m, qp).left >= 15,
        wire(m, qp).bottom - wire(m, qp).top >= 15,
        (wire(m, qp).right + 1) % 16 == 0,
        (wire(m, qp).bottom + 1) % 16 == 0,
        wire(m, qp).right < encoded_width,
        wire(m, qp).bottom < encoded_height,
{
    let w = wire(m, qp);
    assert(w.left == m.x && w.top == m.y);
    assert(w.right == m.right() - 1 && w.bottom == m.bottom() - 1);
}

/// On a frame whose sides are multiples of sixteen, every rectangle starts on the
/// grid and spans at least sixteen pixels each way, within the frame: none is
/// degenerate.
pub proof fn law_rectangles_on_grid(
    regions: Seq<DamageRegion>,
    encoded_width: u16,
    encoded_height: u16,
    qp: u8,
    out: Seq<WireRegion>,
    i: int,
)
    requires
        damage_rectangles(regions, encoded_width, encoded_height, qp, out),
        encoded_width % 16 == 0,
        encoded_height % 16 == 0,
        0 <= i < out.len(),
    ensures
        out[i].left % 16 == 0,
        out[i].top % 16 == 0,
        out[i].right - out[i].left >= 15,
        out[i].bottom - out[i].top >= 15,
        (out[i].right + 1) % 16 == 0,
        (out[i].bottom + 1) % 16 == 0,
        out[i].right < encoded_width,
        out[i].bottom < encoded_height,
        out[i].quantization_parameter == qp,
        out[i].quality == 100,
{
    let grid = all_snapped(regions, encoded_width, encoded_height);
    let merged = choose|merged: Seq<DamageRegion>| #[trigger]
        finest_cover(grid, 0, merged) && all_edges_from(grid, merged) && wired(merged, qp, out);
    lemma_snapped_on_grid(regions, encoded_width, encoded_height);
    lemma_snapped_in_frame(regions, encoded_width, encoded_height);
    lemma_merged_in_frame(grid, merged, encoded_width, encoded_height, i);
    let m = merged[i];
    lemma_edges_on_grid(grid, m);
    lemma_wire_on_grid(m, qp, encoded_width, encoded_height);
    assert(out[i] == wire(m, qp));
}

/// Codec of a frame.
#[derive(Clone, Copy, Debug, PartialEq, Eq, Structural)]
pub enum SendCodec {
    Avc420,
    Avc444,
    Uncompressed,
}

/// What goes to the graphics pipeline for a frame.
pub struct SendPlan {
    pub surface_id: u16,
    /// Rectangles of the frame; for AVC444 those of the main stream.
    pub regions: Vec<WireRegion>,
    /// Rectangles of the auxiliary stream, where there is one.
    pub aux_regions: Option<Vec<WireRegion>>,
}

/// What became of the messages of a frame.
pub enum MessageReply {
    /// There was none to send.
    Empty,
    /// They could not be encoded, for this reason.
    EncodeFailed(String),
    /// The server no longer takes events.
    Closed,
    /// The server has them.
    Delivered,
}

/// What the graphics pipeline made of a frame.
pub enum ServerReply {
    LockFailed,
    NoChannel,
    /// The client lags behind.
    Refused,
    /// The frame got this number.
    Queued { frame_id: u32, messages: MessageReply },
}

/// The frame can be sent: negotiated, decodable, and there is a surface. The
/// conditions are tried in this order.
pub open spec fn admission(state: SharedHandlerState, codec: SendCodec) -> Result<u16, SendError> {
    if !state.is_ready {
        Err(SendError::NotReady)
    } else if codec == SendCodec::Avc420 && !state.client_supports_avc420 {
        Err(SendError::Avc420NotSupported)
    } else if codec == SendCodec::Avc444 && !state.is_avc444_enabled {
        Err(SendError::Avc444NotSupported)
    } else if !state.has_surface {
        Err(SendError::NoSurface)
    } else {
        Ok(state.primary_surface_id)
    }
}

/// The result of a send.
pub open spec fn send_result(reply: ServerReply) -> Result<u32, SendError> {
    match reply {
        ServerReply::LockFailed => Err(SendError::LockFailed),
        ServerReply::NoChannel => Err(SendError::NotReady),
        ServerReply::Refused => Err(SendError::Backpressure),
        ServerReply::Queued { frame_id, messages } => match messages {
            MessageReply::EncodeFailed(e) => Err(SendError::EncodingFailed(e)),
            MessageReply::Closed => Err(SendError::ChannelClosed),
            _ => Ok(frame_id),
        },
    }
}

/// Sends frames over the graphics channel.
#[derive(Clone, Copy, Debug, PartialEq, Eq, Structural)]
pub struct EgfxFrameSender {
    /// What the channel negotiated.
    pub handler_state: SharedHandlerState,
    /// Frames sent.
    pub frame_count: u64,
    /// Quantization parameter in use.
    pub current_qp: u32,
}

impl EgfxFrameSender {
    pub fn new(handler_state: SharedHandlerState) -> (r: Self)
        ensures
            r == (EgfxFrameSender { handler_state, frame_count: 0, current_qp: 22 }),
    {
        EgfxFrameSender { handler_state, frame_count: 0, current_qp: 22 }
    }

    pub fn set_qp(&mut self, qp: u32)
        ensures
            *final(self) == (EgfxFrameSender { current_qp: qp, ..*old(self) }),
    {
        self.current_qp = qp;
    }

    /// The quantization parameter as it goes on the wire.
    pub open spec fn wire_qp(self) -> u8 {
        (self.current_qp % 256) as u8
    }

    fn qp(&self) -> (r: u8)
        ensures
            r == self.wire_qp(),
    {
        (self.current_qp % 256) as u8
    }

    /// Negotiated, with AVC420.
    pub fn is_ready(&self) -> (r: bool)
        ensures
            r == (self.handler_state.is_ready && self.handler_state.client_supports_avc420),
    {
        self.handler_state.is_ready && self.handler_state.client_supports_avc420
    }

    /// Negotiated, whatever the codec.
    pub fn is_egfx_ready(&self) -> (r: bool)
        ensures
            r == self.handler_state.is_ready,
    {
        self.handler_state.is_ready
    }

    /// Negotiated, with AVC444.
    pub fn is_avc444_supported(&self) -> (r: bool)
        ensures
            r == (self.handler_state.is_ready && self.handler_state.is_avc444_enabled),
    {
        self.handler_state.is_ready && self.handler_state.is_avc444_enabled
    }

    pub fn primary_surface_id(&self) -> (r: Option<u16>)
        ensures
            r == (if self.handler_state.has_surface {
                Some(self.handler_state.primary_surface_id)
            } else {
                None
            }),
    {
        if self.handler_state.has_surface {
            Some(self.handler_state.primary_surface_id)
        } else {
            None
        }
    }

    pub fn frames_sent(&self) -> (r: u64)
        ensures
            r == self.frame_count,
    {
        self.frame_count
    }

    fn check_admission(&self, codec: SendCodec) -> (r: Result<u16, SendError>)
        ensures
            r == admission(self.handler_state, codec),
    {
        if !self.handler_state.is_ready {
            return Err(SendError::NotReady);
        }
        match codec {
            SendCodec::Avc420 => {
                if !self.handler_state.client_supports_avc420 {
                    return Err(SendError::Avc420NotSupported);
                }
            },
            SendCodec::Avc444 => {
                if !self.handler_state.is_avc444_enabled {
                    return Err(SendError::Avc444NotSupported);
                }
            },
            SendCodec::Uncompressed => {},
        }
        if self.handler_state.has_surface {
            Ok(self.handler_state.primary_surface_id)
        } else {
            Err(SendError::NoSurface)
        }
    }

    /// Plans a whole AVC420 frame: one rectangle, of the visible size, so that
    /// the padding of the encoded frame is cut off.
    pub fn send_frame(&self, display_width: u16, display_height: u16) -> (r: Result<
        SendPlan,
        SendError,
    >)
        ensures
            match admission(self.handler_state, SendCodec::Avc420) {
                Err(e) => r == Err::<SendPlan, SendError>(e),
                Ok(surface_id) => r matches Ok(plan) && plan.surface_id == surface_id
                    && plan.regions@ == seq![
                    whole_frame_region(display_width, display_height, self.wire_qp()),
                ] && plan.aux_regions is None,
            },
    {
        let surface_id: u16 = match self.check_admission(SendCodec::Avc420) {
            Ok(id) => id,
            Err(e) => {
                return Err(e);
            },
        };
        let regions = one(full_frame(display_width, display_height, self.qp()));
        Ok(SendPlan { surface_id, regions, aux_regions: None })
    }

    /// Plans a whole AVC444 frame: one rectangle of the visible size per stream.
    pub fn send_avc444_frame(&self, display_width: u16, display_height: u16) -> (r: Result<
        SendPlan,
        SendError,
    >)
        ensures
            match admission(self.handler_state, SendCodec::Avc444) {
                Err(e) => r == Err::<SendPlan, SendError>(e),
                Ok(surface_id) => r matches Ok(plan) && plan.surface_id == surface_id
                    && plan.regions@ == seq![
                    whole_frame_region(display_width, display_height, self.wire_qp()),
                ] && plan.aux_regions is Some && plan.aux_regions->0@ == plan.regions@,
            },
    {
        let surface_id: u16 = match self.check_admission(SendCodec::Avc444) {
            Ok(id) => id,
            Err(e) => {
                return Err(e);
            },
        };
        let regions = one(full_frame(display_width, display_height, self.qp()));
        let aux_regions = Some(one(full_frame(display_width, display_height, self.qp())));
        Ok(SendPlan { surface_id, regions, aux_regions })
    }

    /// Plans a frame of raw pixels, for which no codec is needed.
    pub fn send_uncompressed_frame(&self) -> (r: Result<u16, SendError>)
        ensures
            r == admission(self.handler_state, SendCodec::Uncompressed),
    {
        self.check_admission(SendCodec::Uncompressed)
    }

    /// `out` are the rectangles of a frame with this damage: those of the damage,
    /// or a single one of the encoded size where the damage stands for the whole
    /// frame or nothing is left of it.
    pub open spec fn frame_rectangles(
        self,
        encoded_width: u16,
        encoded_height: u16,
        display_width: u16,
        display_height: u16,
        damage: Seq<DamageRegion>,
        out: Seq<WireRegion>,
    ) -> bool {
        if full_update(damage, display_width, display_height) || all_snapped(
            damage,
            encoded_width,
            encoded_height,
        ).len() == 0 {
            out == seq![whole_frame_region(encoded_width, encoded_height, self.wire_qp())]
        } else {
            damage_rectangles(damage, encoded_width, encoded_height, self.wire_qp(), out)
        }
    }

    fn plan_rectangles(
        &self,
        encoded_width: u16,
        encoded_height: u16,
        display_width: u16,
        display_height: u16,
        damage_regions: &[DamageRegion],
    ) -> (out: Vec<WireRegion>)
        requires
            forall|i: int|
                0 <= i < damage_regions@.len() ==> can_snap(#[trigger] damage_regions@[i]),
        ensures
            self.frame_rectangles(
                encoded_width,
                encoded_height,
                display_width,
                display_height,
                damage_regions@,
                out@,
            ),
            out@.len() > 0,
    {
        if is_full_frame_update(damage_regions, display_width, display_height) {
            return one(full_frame(encoded_width, encoded_height, self.qp()));
        }
        let regions = damage_regions_to_avc420(
            damage_regions,
            encoded_width,
            encoded_height,
            self.qp(),
        );
        if regions.len() == 0 {
            return one(full_frame(encoded_width, encoded_height, self.qp()));
        }
        regions
    }

    /// Plans an AVC420 frame with damage.
    pub fn send_frame_with_regions(
        &self,
        encoded_width: u16,
        encoded_height: u16,
        display_width: u16,
        display_height: u16,
        damage_regions: &[DamageRegion],
    ) -> (r: Result<SendPlan, SendError>)
        requires
            forall|i: int|
                0 <= i < damage_regions@.len() ==> can_snap(#[trigger] damage_regions@[i]),
        ensures
            match admission(self.handler_state, SendCodec::Avc420) {
                Err(e) => r == Err::<SendPlan, SendError>(e),
                Ok(surface_id) => r matches Ok(plan) && plan.surface_id == surface_id
                    && self.frame_rectangles(
                    encoded_width,
                    encoded_height,
                    display_width,
                    display_height,
                    damage_regions@,
                    plan.regions@,
                ) && plan.regions@.len() > 0 && plan.aux_regions is None,
            },
    {
        let surface_id: u16 = match self.check_admission(SendCodec::Avc420) {
            Ok(id) => id,
            Err(e) => {
                return Err(e);
            },
        };
        let regions = self.plan_rectangles(
            encoded_width,
            encoded_height,
            display_width,
            display_height,
            damage_regions,
        );
        Ok(SendPlan { surface_id, regions, aux_regions: None })
    }

    /// Plans an AVC444 frame with damage. Without an auxiliary stream the client
    /// reuses the one it has.
    pub fn send_avc444_frame_with_regions(
        &self,
        has_aux: bool,
        encoded_width: u16,
        encoded_height: u16,
        display_width: u16,
        display_height: u16,
        damage_regions: &[DamageRegion],
    ) -> (r: Result<SendPlan, SendError>)
        requires
            forall|i: int|
                0 <= i < damage_regions@.len() ==> can_snap(#[trigger] damage_regions@[i]),
        ensures
            match admission(self.handler_state, SendCodec::Avc444) {
                Err(e) => r == Err::<SendPlan, SendError>(e),
                Ok(surface_id) => r matches Ok(plan) && plan.surface_id == surface_id
                    && self.frame_rectangles(
                    encoded_width,
                    encoded_height,
                    display_width,
                    display_height,
                    damage_regions@,
                    plan.regions@,
                ) && plan.regions@.len() > 0 && (has_aux <==> plan.aux_regions is Some) && (has_aux
                    ==> plan.aux_regions->0@ == plan.regions@),
            },
    {
        let surface_id: u16 = match self.check_admission(SendCodec::Avc444) {
            Ok(id) => id,
            Err(e) => {
                return Err(e);
            },
        };
        let regions = self.plan_rectangles(
            encoded_width,
            encoded_height,
            display_width,
            display_height,
            damage_regions,
        );
        let aux_regions = if has_aux {
            Some(vstd::slice::slice_to_vec(regions.as_slice()))
        } else {
            None
        };
        Ok(SendPlan { surface_id, regions, aux_regions })
    }

    /// The result of a send; a frame that got through is counted. The count wraps.
    pub fn complete(&mut self, reply: ServerReply) -> (r: Result<u32, SendError>)
        ensures
            r == send_result(reply),
            *final(self) == (EgfxFrameSender {
                frame_count: if r is Ok {
                    if old(self).frame_count == u64::MAX {
                        0
                    } else {
                        (old(self).frame_count + 1) as u64
                    }
                } else {
                    old(self).frame_count
                },
                ..*old(self)
            }),
    {
        match reply {
            ServerReply::LockFailed => Err(SendError::LockFailed),
            ServerReply::NoChannel => Err(SendError::NotReady),
            ServerReply::Refused => Err(SendError::Backpressure),
            ServerReply::Queued { frame_id, messages } => match messages {
                MessageReply::EncodeFailed(e) => Err(SendError::EncodingFailed(e)),
                MessageReply::Closed => Err(SendError::ChannelClosed),
                _ => {
                    self.frame_count = if self.frame_count == u64::MAX {
                        0
                    } else {
                        self.frame_count + 1
                    };
                    Ok(frame_id)
                },
            },
        }
    }
}

fn one(r: WireRegion) -> (v: Vec<WireRegion>)
    ensures
        v@ == seq![r],
{
    let mut v: Vec<WireRegion> = Vec::new();
    v.push(r);
    assert(v@ =~= seq![r]);
    v
}

/// A unit of an H.264 stream: its bytes without the start code.
#[derive(Clone, Copy, Debug, PartialEq, Eq, Structural)]
pub struct NalUnit {
    pub start: usize,
    pub end: usize,
}

/// Length of the start code at position `k`: four or three bytes, zero for none.
pub open spec fn start_code(d: Seq<u8>, k: int) -> int {
    if k + 4 <= d.len() && d[k] == 0 && d[k + 1] == 0 && d[k + 2] == 0 && d[k + 3] == 1 {
        4
    } else if k + 3 <= d.len() && d[k] == 0 && d[k + 1] == 0 && d[k + 2] == 1 {
        3
    } else {
        0
    }
}

/// Three bytes at position `j` start a unit.
pub open spec fn short_code(d: Seq<u8>, j: int) -> bool {
    0 <= j && j + 3 <= d.len() && d[j] == 0 && d[j + 1] == 0 && d[j + 2] == 1
}

/// Where a unit ends, looked for from position `j` on: before the next start code,
/// with the zero that makes it four bytes long, or at the end of the data.
pub open spec fn unit_end(d: Seq<u8>, j: int) -> int
    decreases d.len() - j,
{
    if j + 3 > d.len() {
        d.len() as int
    } else if short_code(d, j) {
        if d[j - 1] == 0 {
            j - 1
        } else {
            j
        }
    } else {
        unit_end(d, j + 1)
    }
}

/// The units from position `at` on.
pub open spec fn units_from(d: Seq<u8>, at: int) -> Seq<NalUnit>
    decreases d.len() - at,
{
    if at < 0 || at >= d.len() {
        seq![]
    } else if start_code(d, at) == 0 {
        units_from(d, at + 1)
    } else {
        let start = at + start_code(d, at);
        let end = unit_end(d, start + 1);
        let rest = if at < end <= d.len() {
            units_from(d, end)
        } else {
            seq![]
        };
        if start < d.len() {
            seq![NalUnit { start: start as usize, end: end as usize }] + rest
        } else {
            rest
        }
    }
}

proof fn lemma_unit_end(d: Seq<u8>, j: int)
    requires
        1 <= j <= d.len() + 1,
    ensures
        unit_end(d, j) >= j - 1,
        unit_end(d, j) <= d.len(),
    decreases d.len() - j,
{
    if j + 3 <= d.len() && !short_code(d, j) {
        lemma_unit_end(d, j + 1);
    }
}

fn find_unit_end(data: &[u8], from: usize) -> (r: usize)
    requires
        1 <= from <= data@.len() + 1,
        data@.len() < usize::MAX,
    ensures
        r == unit_end(data@, from as int),
{
    let n: usize = data.len();
    let mut j: usize = from;
    while j <= n && n - j >= 3
        invariant
            1 <= j <= data@.len() + 1,
            n == data@.len(),
            n < usize::MAX,
            unit_end(data@, from as int) == unit_end(data@, j as int),
        decreases n + 1 - j,
    {
        if data[j] == 0 && data[j + 1] == 0 && data[j + 2] == 1 {
            return if data[j - 1] == 0 { j - 1 } else { j };
        }
        j = j + 1;
    }
    n
}

/// The first ten units of an H.264 stream in Annex B form, with whether there are
/// that many.
pub fn nal_units(data: &[u8]) -> (r: (Vec<NalUnit>, bool))
    requires
        data@.len() < usize::MAX,
    ensures
        r.0@ == units_from(data@, 0).take(capped(units_from(data@, 0).len() as int, 10)),
        r.1 == (units_from(data@, 0).len() >= 10),
{
    let n: usize = data.len();
    let ghost all = units_from(data@, 0);
    let mut out: Vec<NalUnit> = Vec::new();
    let mut at: usize = 0;
    assert(out@ + units_from(data@, 0) =~= all);
    while at < n
        invariant
            0 <= at <= n,
            n == data@.len(),
            n < usize::MAX,
            all == units_from(data@, 0),
            out@.len() < 10,
            out@ + units_from(data@, at as int) == all,
        decreases n - at,
    {
        let code: usize = if n - at >= 4 && data[at] == 0 && data[at + 1] == 0 && data[at + 2] == 0
            && data[at + 3] == 1 {
            4
        } else if n - at >= 3 && data[at] == 0 && data[at + 1] == 0 && data[at + 2] == 1 {
            3
        } else {
            0
        };
        assert(code == start_code(data@, at as int));
        if code == 0 {
            at = at + 1;
        } else {
            let start: usize = at + code;
            proof {
                lemma_unit_end(data@, start + 1);
            }
            let end: usize = find_unit_end(data, start + 1);
            if start < n {
                let ghost before = out@;
                out.push(NalUnit { start, end });
                assert(out@ + units_from(data@, end as int) =~= before + units_from(
                    data@,
                    at as int,
                ));
                if out.len() >= 10 {
                    assert(all.take(10) =~= out@);
                    return (out, true);
                }
            }
            at = end;
        }
    }
    assert(out@ =~= all);
    assert(all.take(all.len() as int) =~= all);
    (out, false)
}

/// Units lie in the data, in order, and do not overlap.
pub proof fn law_units_in_order(d: Seq<u8>, at: int, i: int)
    requires
        0 <= at,
        d.len() <= usize::MAX,
        0 <= i < units_from(d, at).len(),
    ensures
        at < units_from(d, at)[i].start <= units_from(d, at)[i].end <= d.len(),
        units_from(d, at)[i].start < d.len(),
        i + 1 < units_from(d, at).len() ==> units_from(d, at)[i].end < units_from(d, at)[i
            + 1].start,
    decreases d.len() - at,
{
    if at < d.len() {
        if start_code(d, at) == 0 {
            law_units_in_order(d, at + 1, i);
        } else {
            let start = at + start_code(d, at);
            lemma_unit_end(d, start + 1);
            let end = unit_end(d, start + 1);
            let rest = units_from(d, end);
            if start < d.len() {
                if i > 0 {
                    law_units_in_order(d, end, i - 1);
                } else if rest.len() > 0 {
                    law_units_in_order(d, end, 0);
                }
            } else {
                law_units_in_order(d, end, i);
            }
        }
    }
}

/// Name of the kind of a unit, from the low five bits of its first byte.
pub open spec fn kind_name(header: u8) -> Seq<char> {
    let kind = header % 32;
    if kind == 1 {
        "P-slice"@
    } else if kind == 5 {
        "IDR"@
    } else if kind == 6 {
        "SEI"@
    } else if kind == 7 {
        "SPS"@
    } else if kind == 8 {
        "PPS"@
    } else if kind == 9 {
        "AUD"@
    } else {
        "Other"@
    }
}

/// Name of the kind of a unit.
pub fn nal_type_name(header: u8) -> (r: &'static str)
    ensures
        r@ == kind_name(header),
{
    let kind: u8 = header % 32;
    if kind == 1 {
        "P-slice"
    } else if kind == 5 {
        "IDR"
    } else if kind == 6 {
        "SEI"
    } else if kind == 7 {
        "SPS"
    } else if kind == 8 {
        "PPS"
    } else if kind == 9 {
        "AUD"
    } else {
        "Other"
    }
}

/// A byte as two lower-case hexadecimal digits.
pub open spec fn hex_byte(b: u8) -> Seq<char> {
    seq!["0123456789abcdef"@[b as int / 16], "0123456789abcdef"@[b as int % 16]]
}

/// Bytes in hexadecimal, with a space between them.
pub open spec fn hex_bytes(s: Seq<u8>) -> Seq<char>
    decreases s.len(),
{
    if s.len() == 0 {
        seq![]
    } else if s.len() == 1 {
        hex_byte(s[0])
    } else {
        hex_bytes(s.drop_last()) + " "@ + hex_byte(s.last())
    }
}

/// A unit in words: its kind, length and importance, and of parameter sets the
/// first sixteen bytes.
pub open spec fn unit_text(d: Seq<u8>, u: NalUnit) -> Seq<char> {
    let header = d[u.start as int];
    let len = u.end - u.start;
    let head = kind_name(header) + "("@ + decimal(len as nat) + "b,ref="@ + decimal(
        (header / 32 % 4) as nat,
    ) + ")"@;
    if header % 32 == 7 || header % 32 == 8 {
        head + "["@ + hex_bytes(d.subrange(u.start as int, u.start + capped(len, 16))) + "]"@
    } else {
        head
    }
}

/// Units in words, with commas between them.
pub open spec fn units_text(d: Seq<u8>, units: Seq<NalUnit>) -> Seq<char>
    decreases units.len(),
{
    if units.len() == 0 {
        seq![]
    } else if units.len() == 1 {
        unit_text(d, units[0])
    } else {
        units_text(d, units.drop_last()) + ", "@ + unit_text(d, units.last())
    }
}

fn hex_text(b: u8) -> (r: String)
    ensures
        r@ == hex_byte(b),
{
    proof {
        reveal_strlit("0123456789abcdef");
    }
    let digits = "0123456789abcdef";
    let high: usize = (b / 16) as usize;
    let low: usize = (b % 16) as usize;
    assert(digits@.len() == 16);
    let mut r = digits.substring_char(high, high + 1).to_owned();
    r.append(digits.substring_char(low, low + 1));
    assert(r@ =~= hex_byte(b));
    r
}

fn hex_preview(data: &[u8], from: usize, to: usize) -> (r: String)
    requires
        from <= to <= data@.len(),
    ensures
        r@ == hex_bytes(data@.subrange(from as int, to as int)),
{
    let ghost s = data@.subrange(from as int, to as int);
    let mut r = "".to_owned();
    let mut i: usize = from;
    proof {
        reveal_strlit("");
        assert(r@ =~= hex_bytes(s.take(0)));
    }
    while i < to
        invariant
            from <= i <= to <= data@.len(),
            s == data@.subrange(from as int, to as int),
            r@ == hex_bytes(s.take(i - from)),
        decreases to - i,
    {
        let next = hex_text(data[i]);
        if i > from {
            r.append(" ");
        }
        r.append(next.as_str());
        proof {
            let t = s.take(i + 1 - from);
            assert(t.drop_last() =~= s.take(i - from));
            assert(t.last() == data@[i as int]);
            if i == from {
                assert(s.take(0) =~= Seq::<u8>::empty());
                assert(r@ =~= hex_byte(data@[i as int]));
            }
        }
        i += 1;
    }
    assert(s.take(to - from) =~= s);
    r
}

fn describe_unit(data: &[u8], u: NalUnit) -> (r: String)
    requires
        u.start < data@.len(),
        u.start <= u.end <= data@.len(),
    ensures
        r@ == unit_text(data@, u),
{
    let header: u8 = data[u.start];
    let len: usize = u.end - u.start;
    let length = decimal_text(len as u64);
    let importance = decimal_text((header / 32 % 4) as u64);
    let mut r = nal_type_name(header).to_owned();
    r.append("(");
    r.append(length.as_str());
    r.append("b,ref=");
    r.append(importance.as_str());
    r.append(")");
    if header % 32 == 7 || header % 32 == 8 {
        let shown: usize = if len < 16 { len } else { 16 };
        let preview = hex_preview(data, u.start, u.start + shown);
        r.append("[");
        r.append(preview.as_str());
        r.append("]");
    }
    r
}

/// The units of an H.264 stream in words: the first ten, and dots where there are
/// that many.
pub fn describe_units(data: &[u8]) -> (r: String)
    requires
        data@.len() < usize::MAX,
    ensures
        ({
            let all = units_from(data@, 0);
            let shown = all.take(capped(all.len() as int, 10));
            r@ == units_text(data@, shown) + (if all.len() >= 10 {
                ", ..."@
            } else {
                seq![]
            })
        }),
{
    let (units, more) = nal_units(data);
    let ghost all = units_from(data@, 0);
    let mut r = "".to_owned();
    let mut i: usize = 0;
    proof {
        reveal_strlit("");
        assert(r@ =~= units_text(data@, units@.take(0)));
    }
    while i < units.len()
        invariant
            i <= units@.len(),
            data@.len() < usize::MAX,
            all == units_from(data@, 0),
            units@ == all.take(capped(all.len() as int, 10)),
            r@ == units_text(data@, units@.take(i as int)),
        decreases units@.len() - i,
    {
        proof {
            law_units_in_order(data@, 0, i as int);
            assert(units@[i as int] == all[i as int]);
        }
        let next = describe_unit(data, units[i]);
        if i > 0 {
            r.append(", ");
        }
        r.append(next.as_str());
        proof {
            let t = units@.take(i + 1);
            assert(t.drop_last() =~= units@.take(i as int));
            assert(t.last() == units@[i as int]);
            if i == 0 {
                assert(units@.take(0) =~= Seq::<NalUnit>::empty());
                assert(r@ =~= unit_text(data@, units@[0]));
            }
        }
        i += 1;
    }
    assert(units@.take(units@.len() as int) =~= units@);
    if more {
        r.append(", ...");
    }
    r
}

/// File into which one of the first three frames is written, for inspection.
pub fn frame_dump_file(frame: u32) -> (r: Option<String>)
    ensures
        frame >= 3 ==> r is None,
        frame < 3 ==> (r matches Some(name) && name@ == "/tmp/rdp-frame-"@ + decimal(frame as nat)
            + ".h264"@),
{
    if frame < 3 {
        let mut name = "/tmp/rdp-frame-".to_owned();
        name.append(decimal_text(frame as u64).as_str());
        name.append(".h264");
        Some(name)
    } else {
        None
    }
}

/// A frame may go exactly where capabilities are negotiated, the client decodes it and
/// there is a surface, and it goes to that surface. What is missing is told in that order.
pub proof fn law_admission(s: SharedHandlerState, codec: SendCodec)
    ensures
        ({
            let decodes = match codec {
                SendCodec::Avc420 => s.client_supports_avc420,
                SendCodec::Avc444 => s.is_avc444_enabled,
                SendCodec::Uncompressed => true,
            };
            let r = admission(s, codec);
            &&& r is Ok <==> s.is_ready && decodes && s.has_surface
            &&& r is Ok ==> r->Ok_0 == s.primary_surface_id
            &&& !s.is_ready ==> r->Err_0 is NotReady
            &&& s.is_ready && !decodes && codec == SendCodec::Avc420 ==> r->Err_0
                is Avc420NotSupported
            &&& s.is_ready && !decodes && codec == SendCodec::Avc444 ==> r->Err_0
                is Avc444NotSupported
            &&& s.is_ready && decodes && !s.has_surface ==> r->Err_0 is NoSurface
        }),
{
}

/// A frame has got through exactly where the pipeline took it and its messages did not
/// fail; each failure keeps its own name.
pub proof fn law_send_result(reply: ServerReply, id: u32, why: String)
    ensures
        send_result(ServerReply::Queued { frame_id: id, messages: MessageReply::Delivered }) == Ok::<
            u32,
            SendError,
        >(id),
        send_result(ServerReply::Queued { frame_id: id, messages: MessageReply::Empty }) == Ok::<
            u32,
            SendError,
        >(id),
        send_result(ServerReply::Queued { frame_id: id, messages: MessageReply::Closed })->Err_0
            is ChannelClosed,
        send_result(
            ServerReply::Queued { frame_id: id, messages: MessageReply::EncodeFailed(why) },
        ) == Err::<u32, SendError>(SendError::EncodingFailed(why)),
        send_result(ServerReply::LockFailed)->Err_0 is LockFailed,
        send_result(ServerReply::NoChannel)->Err_0 is NotReady,
        send_result(ServerReply::Refused)->Err_0 is Backpressure,
        send_result(reply) is Ok ==> reply is Queued,
{
}

/// Any parameter that the wire can hold goes on it as it is.
pub proof fn law_wire_parameter(s: EgfxFrameSender)
    ensures
        s.current_qp < 256 ==> s.wire_qp() == s.current_qp,
        (s.current_qp - s.wire_qp()) % 256 == 0,
{
}

/// Damage stands for the whole frame exactly where there is none, or one region holds
/// every visible pixel.
pub proof fn law_full_update(regions: Seq<DamageRegion>, width: u16, height: u16)
    requires
        width > 0,
        height > 0,
    ensures
        regions.len() == 0 ==> full_update(regions, width, height),
        regions.len() >= 2 ==> !full_update(regions, width, height),
        regions.len() == 1 && full_update(regions, width, height) ==> forall|px: int, py: int|
            0 <= px < width && 0 <= py < height ==> #[trigger] regions[0].has(px, py),
        regions.len() == 1 && regions[0].has(0, 0) && regions[0].has(width - 1, height - 1)
            ==> full_update(regions, width, height),
{
}

/// The rectangle of a whole frame shows every pixel of the frame and none beyond it.
pub proof fn law_whole_frame_region(width: u16, height: u16, qp: u8, px: int, py: int)
    requires
        width > 0,
        height > 0,
    ensures
        ({
            let r = whole_frame_region(width, height, qp);
            &&& r.left <= px <= r.right && r.top <= py <= r.bottom <==> 0 <= px < width && 0 <= py
                < height
            &&& r.quantization_parameter == qp && r.quality == 100
        }),
{
}

/// A region on the grid holds what is in the frame of the region it came from, and reaches
/// less than sixteen pixels beyond it on either side. Nothing is left exactly of a region
/// that has no block in the frame.
pub proof fn law_snapped_region(r: DamageRegion, width: u16, height: u16, px: int, py: int)
    ensures
        snapped(r, width, height) matches Some(s) ==> {
            &&& r.has(px, py) && px < width && py < height ==> s.has(px, py)
            &&& s.has(px, py) ==> 0 <= px < width && 0 <= py < height
            &&& s.has(px, py) ==> r.x - 16 < px < r.x + r.width + 15
            &&& s.has(px, py) ==> r.y - 16 < py < r.y + r.height + 15
            &&& s.x % 16 == 0 && s.y % 16 == 0
        },
        snapped(r, width, height) is None ==> !(r.has(px, py) && px < width && py < height),
{
    lemma_align16(r.right());
    lemma_align16(r.bottom());
}

/// Every region on the grid comes from a damaged region.
pub proof fn law_grid_comes_from_damage(
    regions: Seq<DamageRegion>,
    width: u16,
    height: u16,
    j: int,
)
    requires
        0 <= j < all_snapped(regions, width, height).len(),
    ensures
        exists|i: int|
            0 <= i < regions.len() && #[trigger] snapped(regions[i], width, height) == Some(
                all_snapped(regions, width, height)[j],
            ),
    decreases regions.len(),
{
    let init = regions.drop_last();
    let before = all_snapped(init, width, height);
    if j < before.len() {
        law_grid_comes_from_damage(init, width, height, j);
        let i = choose|i: int|
            0 <= i < init.len() && #[trigger] snapped(init[i], width, height) == Some(before[j]);
        assert(snapped(regions[i], width, height) == Some(before[j]));
    } else {
        assert(snapped(regions[regions.len() - 1], width, height) == Some(
            all_snapped(regions, width, height)[j],
        ));
    }
}

/// A frame with damage shows every damaged pixel of it, however the damage is put.
pub proof fn law_frame_shows_damage(
    s: EgfxFrameSender,
    encoded_width: u16,
    encoded_height: u16,
    display_width: u16,
    display_height: u16,
    damage: Seq<DamageRegion>,
    out: Seq<WireRegion>,
    px: int,
    py: int,
)
    requires
        s.frame_rectangles(
            encoded_width,
            encoded_height,
            display_width,
            display_height,
            damage,
            out,
        ),
        0 <= px < encoded_width,
        0 <= py < encoded_height,
    ensures
        any_has(damage, px, py) ==> any_shows(out, px, py),
        damage.len() == 0 ==> any_shows(out, px, py),
{
    if full_update(damage, display_width, display_height) || all_snapped(
        damage,
        encoded_width,
        encoded_height,
    ).len() == 0 {
        assert(out[0] == whole_frame_region(encoded_width, encoded_height, s.wire_qp()));
    } else if any_has(damage, px, py) {
        law_damage_is_shown(damage, encoded_width, encoded_height, s.wire_qp(), out, px, py);
    }
}

/// A start code is two or three zeros and a one.
pub proof fn law_start_codes(d: Seq<u8>, k: int)
    requires
        0 <= k,
    ensures
        start_code(d, k) == 0 || start_code(d, k) == 3 || start_code(d, k) == 4,
        start_code(d, k) == 3 ==> k + 3 <= d.len() && d[k] == 0 && d[k + 1] == 0 && d[k + 2] == 1,
        start_code(d, k) == 4 ==> k + 4 <= d.len() && d[k] == 0 && d[k + 1] == 0 && d[k + 2] == 0
            && d[k + 3] == 1,
        k + 3 <= d.len() && d[k] == 0 && d[k + 1] == 0 && d[k + 2] == 1 ==> start_code(d, k) == 3,
        k + 4 <= d.len() && d[k] == 0 && d[k + 1] == 0 && d[k + 2] == 0 && d[k + 3] == 1
            ==> start_code(d, k) == 4,
{
}

proof fn lemma_no_code_before_end(d: Seq<u8>, j: int, k: int)
    requires
        1 <= j <= k,
        k + 3 <= unit_end(d, j),
    ensures
        !short_code(d, k),
    decreases d.len() - j,
{
    lemma_unit_end_bound(d, j);
    if j + 3 <= d.len() && !short_code(d, j) && j < k {
        lemma_no_code_before_end(d, j + 1, k);
    }
}

proof fn lemma_unit_end_bound(d: Seq<u8>, j: int)
    requires
        1 <= j,
    ensures
        unit_end(d, j) < d.len() ==> short_code(d, unit_end(d, j)) || short_code(
            d,
            unit_end(d, j) + 1,
        ),
        unit_end(d, j) <= d.len(),
    decreases d.len() - j,
{
    if j + 3 <= d.len() && !short_code(d, j) {
        lemma_unit_end_bound(d, j + 1);
    }
}

/// Each unit follows a start code, holds none behind its first byte, and goes on to the
/// next one or to the end of the data.
pub proof fn law_units_between_codes(d: Seq<u8>, at: int, i: int, k: int)
    requires
        0 <= at,
        d.len() <= usize::MAX,
        0 <= i < units_from(d, at).len(),
    ensures
        ({
            let u = units_from(d, at)[i];
            &&& u.start >= 3 && d[u.start - 1] == 1 && d[u.start - 2] == 0 && d[u.start - 3] == 0
            &&& u.start < k && k + 3 <= u.end ==> !(d[k] == 0 && d[k + 1] == 0 && d[k + 2] == 1)
            &&& u.end == d.len() || short_code(d, u.end as int) || short_code(d, u.end + 1)
        }),
    decreases d.len() - at,
{
    if at < d.len() {
        if start_code(d, at) == 0 {
            law_units_between_codes(d, at + 1, i, k);
        } else {
            let start = at + start_code(d, at);
            lemma_unit_end(d, start + 1);
            lemma_unit_end_bound(d, start + 1);
            let end = unit_end(d, start + 1);
            if start < d.len() {
                if i > 0 {
                    law_units_between_codes(d, end, i - 1, k);
                } else if start < k && k + 3 <= end {
                    lemma_no_code_before_end(d, start + 1, k);
                }
            } else {
                law_units_between_codes(d, end, i, k);
            }
        }
    }
}

/// The kind of a unit is in the low five bits of its first byte.
pub proof fn law_unit_kinds(header: u8)
    ensures
        kind_name(header) == kind_name((header % 32) as u8),
        kind_name(1) == "P-slice"@,
        kind_name(5) == "IDR"@,
        kind_name(6) == "SEI"@,
        kind_name(7) == "SPS"@,
        kind_name(8) == "PPS"@,
        kind_name(9) == "AUD"@,
        header % 32 != 1 && !(5 <= header % 32 <= 9) ==> kind_name(header) == "Other"@,
{
}

proof fn lemma_unit_end_code(d: Seq<u8>, j: int)
    requires
        1 <= j,
    ensures
        ({
            let end = unit_end(d, j);
            end == d.len() || (d[end] == 0 && d[end + 1] == 0 && d[end + 2] == 1 && d[end - 1] != 0
                && end + 3 <= d.len()) || (d[end] == 0 && d[end + 1] == 0 && d[end + 2] == 0 && d[
            end + 3] == 1 && end + 4 <= d.len())
        }),
    decreases d.len() - j,
{
    if j + 3 <= d.len() && !short_code(d, j) {
        lemma_unit_end_code(d, j + 1);
    }
}

/// A unit ends where the next start code begins, with the zero before it where that has
/// four bytes.
pub proof fn law_unit_ends_at_code(d: Seq<u8>, at: int, i: int)
    requires
        0 <= at,
        d.len() <= usize::MAX,
        0 <= i < units_from(d, at).len(),
    ensures
        ({
            let end = units_from(d, at)[i].end as int;
            end == d.len() || start_code(d, end) == 4 || (start_code(d, end) == 3 && d[end - 1]
                != 0)
        }),
    decreases d.len() - at,
{
    if at < d.len() {
        if start_code(d, at) == 0 {
            law_unit_ends_at_code(d, at + 1, i);
        } else {
            let start = at + start_code(d, at);
            lemma_unit_end(d, start + 1);
            lemma_unit_end_code(d, start + 1);
            let end = unit_end(d, start + 1);
            if start < d.len() {
                if i > 0 {
                    law_unit_ends_at_code(d, end, i - 1);
                }
            } else {
                law_unit_ends_at_code(d, end, i);
            }
        }
    }
}

/// A byte is written as two digits of base sixteen, the higher one first, in lower case;
/// bytes stand in order with a blank between them.
pub proof fn law_bytes_in_hexadecimal(s: Seq<u8>, b: u8)
    ensures
        hex_byte(b).len() == 2,
        hex_byte(b)[0] == "0123456789abcdef"@[(b / 16) as int],
        hex_byte(b)[1] == "0123456789abcdef"@[(b % 16) as int],
        hex_bytes(Seq::<u8>::empty()).len() == 0,
        hex_bytes(seq![b]) == hex_byte(b),
        s.len() > 0 ==> hex_bytes(s.push(b)) == hex_bytes(s) + " "@ + hex_byte(b),
{
    assert(s.push(b).drop_last() =~= s);
}

/// A unit is told by its kind, its length and its importance, and a parameter set by its
/// first bytes, sixteen at most.
pub proof fn law_units_in_words(d: Seq<u8>, u: NalUnit, units: Seq<NalUnit>)
    requires
        u.start < u.end <= d.len(),
    ensures
        ({
            let header = d[u.start as int];
            let head = kind_name(header) + "("@ + decimal((u.end - u.start) as nat) + "b,ref="@
                + decimal((header / 32 % 4) as nat) + ")"@;
            let told = if u.end - u.start <= 16 {
                d.subrange(u.start as int, u.end as int)
            } else {
                d.subrange(u.start as int, u.start + 16)
            };
            &&& kind_name(header) != "SPS"@ && kind_name(header) != "PPS"@ ==> unit_text(d, u)
                == head
            &&& kind_name(header) == "SPS"@ || kind_name(header) == "PPS"@ ==> unit_text(d, u)
                == head + "["@ + hex_bytes(told) + "]"@
        }),
        units_text(d, Seq::<NalUnit>::empty()).len() == 0,
        units_text(d, seq![u]) == unit_text(d, u),
        units.len() > 0 ==> units_text(d, units.push(u)) == units_text(d, units) + ", "@
            + unit_text(d, u),
{
    reveal_strlit("P-slice");
    reveal_strlit("IDR");
    reveal_strlit("SEI");
    reveal_strlit("SPS");
    reveal_strlit("PPS");
    reveal_strlit("AUD");
    reveal_strlit("Other");
    assert("P-slice"@.len() == 7 && "Other"@.len() == 5);
    assert("IDR"@[0] == 'I' && "SEI"@[1] == 'E' && "SPS"@[1] == 'P' && "SPS"@[0] == 'S' && "PPS"@[
    0] == 'P' && "AUD"@[0] == 'A' && "SEI"@[0] == 'S' && "PPS"@[1] == 'P');
    assert(units.push(u).drop_last() =~= units);
}

} // verus!
