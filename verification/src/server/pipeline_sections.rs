//! Parts of the frame loop that stand by themselves: turning frames, packing of
//! padded rows, what the encoder gets, changes of the capture size, and captures of
//! any size.

use vstd::prelude::*;

use crate::arith::align16;
use crate::server::display_handler::{align_to_16, CaptureStream, LamcoDisplayHandler};
use crate::server::frame_transform::{
    apply_frame_transform, can_transform, lemma_cell, lemma_row_end, pad_frame_to_aligned, padded,
    swaps_axes, transformed,
};
use crate::session::strategy::{CaptureResizeEffect, CaptureResizeOutcome};
use crate::video::{FrameBuffer, VideoFrame};

verus! {

/// The first `tight` bytes of each of `height` rows of `stride` bytes.
pub open spec fn packed_rows(s: Seq<u8>, height: int, stride: int, tight: int) -> Seq<u8> {
    Seq::new((height * tight) as nat, |k: int| s[k / tight * stride + k % tight])
}

/// The rows of the frame are padded and its bytes hold them all.
pub open spec fn is_padded(frame: VideoFrame) -> bool {
    frame.buffer matches FrameBuffer::Memory(data) && frame.stride > frame.width * 4 && data@.len()
        >= frame.stride * frame.height
}

fn pack_rows(data: &Vec<u8>, height: usize, stride: usize, tight: usize) -> (r: Vec<u8>)
    requires
        tight < stride,
        stride * height <= data@.len(),
    ensures
        r@ == packed_rows(data@, height as int, stride as int, tight as int),
{
    let ghost s = data@;
    let ghost want = packed_rows(s, height as int, stride as int, tight as int);
    let len: usize = data.len();
    let mut out: Vec<u8> = Vec::new();
    let mut y: usize = 0;
    assert(0 * tight == 0);
    assert(height * stride == stride * height) by (nonlinear_arith);
    assert(0 <= height * tight) by (nonlinear_arith)
        requires
            height >= 0,
            tight >= 0,
    ;
    while y < height
        invariant
            0 <= y <= height,
            tight < stride,
            height * stride <= len,
            data@ == s,
            len == s.len(),
            want == packed_rows(s, height as int, stride as int, tight as int),
            want.len() == height * tight,
            out@.len() == y * tight,
            forall|k: int| 0 <= k < out@.len() ==> out@[k] == want[k],
        decreases height - y,
    {
        proof {
            lemma_row_end(y as int, height as int, stride as int);
            lemma_row_end(y as int, height as int, tight as int);
        }
        let start: usize = y * stride;
        let mut i: usize = 0;
        while i < tight
            invariant
                0 <= i <= tight,
                0 <= y < height,
                tight < stride,
                start == y * stride,
                start + stride <= len,
                0 <= y * tight,
                y * tight + tight <= height * tight,
                data@ == s,
                len == s.len(),
                want == packed_rows(s, height as int, stride as int, tight as int),
                want.len() == height * tight,
                out@.len() == y * tight + i,
                forall|k: int| 0 <= k < out@.len() ==> out@[k] == want[k],
            decreases tight - i,
        {
            proof {
                lemma_cell(y as int, tight as int, i as int);
                assert(want[y * tight + i] == s[start + i]);
            }
            out.push(data[start + i]);
            i = i + 1;
        }
        y = y + 1;
    }
    assert(out@ =~= want);
    out
}

/// Packs the rows of a frame whose stride is padded; other frames stay as they are.
pub fn compact_padded_stride(frame: &mut VideoFrame)
    ensures
        !is_padded(*old(frame)) ==> *final(frame) == *old(frame),
        is_padded(*old(frame)) ==> {
            &&& final(frame).buffer is Memory
            &&& final(frame).buffer->Memory_0@ == packed_rows(
                old(frame).buffer->Memory_0@,
                old(frame).height as int,
                old(frame).stride as int,
                old(frame).width * 4,
            )
            &&& final(frame).stride == old(frame).width * 4
            &&& *final(frame) == (VideoFrame {
                buffer: final(frame).buffer,
                stride: final(frame).stride,
                ..*old(frame)
            })
        },
{
    let tight: u64 = frame.width as u64 * 4;
    let width: u32 = frame.width;
    let height: u32 = frame.height;
    let stride: u32 = frame.stride;
    proof {
        assert(0 <= stride * height <= u32::MAX * u32::MAX) by (nonlinear_arith)
            requires
                0 <= stride <= u32::MAX,
                0 <= height <= u32::MAX,
        ;
    }
    let needed: u64 = stride as u64 * height as u64;
    let packed: Option<Vec<u8>> = match &frame.buffer {
        FrameBuffer::Memory(data) => {
            if stride as u64 > tight && data.len() as u64 >= needed {
                Some(pack_rows(data, height as usize, stride as usize, width as usize * 4))
            } else {
                None
            }
        },
        FrameBuffer::DmaBuf(_) => None,
    };
    match packed {
        Some(bytes) => {
            frame.buffer = FrameBuffer::Memory(bytes);
            frame.stride = tight as u32;
        },
        None => {},
    }
}

/// The new capture size, where a frame has another than the recorded one.
pub fn track_capture_size_change(recorded: (u32, u32), width: u32, height: u32) -> (r: Option<
    (u32, u32),
>)
    ensures
        r == (if recorded == (width, height) {
            None
        } else {
            Some((width, height))
        }),
{
    if recorded.0 == width && recorded.1 == height {
        None
    } else {
        Some((width, height))
    }
}

/// What a resize of a capture of any size entails.
#[derive(Clone, Copy, Debug, PartialEq, Eq, Structural)]
pub enum ElasticResize {
    /// The capture has a fixed size: recreate its stream instead.
    NotElastic,
    /// The stream is the one it was, or there is none to follow: keep the current one.
    Keep,
    /// Move capture from the first node to the stream.
    Rebind(u32, CaptureStream),
}

/// The stream that capture is bound to after a resize, where it is another one. A
/// stream that is still the same is not bound again: that would destroy it, and with
/// it the only output there is.
pub open spec fn rebound(outcome: CaptureResizeOutcome) -> Option<u32> {
    match outcome.effect {
        CaptureResizeEffect::Recreated { node_id } => Some(node_id),
        CaptureResizeEffect::RelaidOutInPlace => None,
        CaptureResizeEffect::Unchanged => None,
    }
}

/// The node that capture is bound to after a resize, where it is to be bound again.
pub fn rebinds(outcome: CaptureResizeOutcome) -> (r: Option<u32>)
    ensures
        r == rebound(outcome),
{
    match outcome.effect {
        CaptureResizeEffect::Recreated { node_id } => Some(node_id),
        CaptureResizeEffect::RelaidOutInPlace => None,
        CaptureResizeEffect::Unchanged => None,
    }
}

/// What a resize entails. `resized` is what it did to the source, if that could be
/// resized, where the session has a source of any size; `streams` are its streams.
pub fn handle_elastic_resize(
    h: &LamcoDisplayHandler,
    resized: Option<Option<CaptureResizeOutcome>>,
    streams: &Vec<CaptureStream>,
) -> (r: ElasticResize)
    ensures
        r == (match resized {
            None => ElasticResize::NotElastic,
            Some(None) => ElasticResize::Keep,
            Some(Some(outcome)) => if rebound(outcome) is Some && streams@.len() > 0 {
                ElasticResize::Rebind(h.capture_node, streams@[0])
            } else {
                ElasticResize::Keep
            },
        }),
{
    match resized {
        None => ElasticResize::NotElastic,
        Some(None) => ElasticResize::Keep,
        Some(Some(outcome)) => {
            if rebinds(outcome).is_some() && streams.len() > 0 {
                ElasticResize::Rebind(h.capture_node, streams[0])
            } else {
                ElasticResize::Keep
            }
        },
    }
}

/// A resize that leaves the stream alone leaves the capture alone: only one that
/// created a stream binds it again.
pub proof fn law_live_stream_is_not_rebound(outcome: CaptureResizeOutcome)
    ensures
        rebound(outcome) is Some <==> outcome.effect is Recreated,
{
}

/// Turns a frame. Returns `None` where its pixels are not in memory.
pub fn transform_frame(frame: VideoFrame, transform: u32) -> (r: Option<VideoFrame>)
    requires
        transform != 0 ==> (frame.buffer matches FrameBuffer::Memory(data) ==> can_transform(
            data@.len() as int,
            frame.width as int,
            frame.height as int,
            frame.stride as int,
            transform as int,
            4,
        )),
    ensures
        transform == 0 ==> r == Some(frame),
        transform != 0 && frame.buffer is DmaBuf ==> r is None,
        transform != 0 && frame.buffer is Memory ==> {
            &&& r is Some
            &&& r->0.buffer is Memory
            &&& r->0.buffer->Memory_0@ == transformed(
                frame.buffer->Memory_0@,
                frame.width as int,
                frame.height as int,
                frame.stride as int,
                transform as int,
                4,
            )
            &&& r->0 == (VideoFrame {
                buffer: r->0.buffer,
                width: if swaps_axes(transform as int) {
                    frame.height
                } else {
                    frame.width
                },
                height: if swaps_axes(transform as int) {
                    frame.width
                } else {
                    frame.height
                },
                stride: r->0.stride,
                ..frame
            })
            &&& r->0.stride == (if swaps_axes(transform as int) {
                frame.height * 4
            } else {
                frame.stride as int
            })
        },
{
    if transform == 0 {
        return Some(frame);
    }
    let turned: Option<(Vec<u8>, u32, u32, u32)> = match &frame.buffer {
        FrameBuffer::Memory(data) => Some(
            apply_frame_transform(data, frame.width, frame.height, frame.stride, transform, 4),
        ),
        FrameBuffer::DmaBuf(_) => None,
    };
    match turned {
        Some((data, width, height, stride)) => {
            let mut r = frame;
            r.buffer = FrameBuffer::Memory(data);
            r.width = width;
            r.height = height;
            r.stride = stride;
            Some(r)
        },
        None => None,
    }
}

/// What the encoder gets: a frame whose sides are multiples of sixteen.
pub struct EncoderInput {
    pub data: Vec<u8>,
    pub width: u32,
    pub height: u32,
}

/// The pixels for the encoder: those of the frame, with its edges repeated up to
/// the next multiple of sixteen where it has other sides.
pub fn encoder_input(data: &Vec<u8>, width: u32, height: u32) -> (r: EncoderInput)
    requires
        width >= 1,
        height >= 1,
        width + 15 <= u32::MAX,
        height + 15 <= u32::MAX,
        align16(height as int) * (align16(width as int) * 4) <= u32::MAX,
        height * (width * 4) <= data@.len(),
    ensures
        r.width == align16(width as int),
        r.height == align16(height as int),
        r.data@ == (if r.width == width && r.height == height {
            data@
        } else {
            padded(data@, width as int, height as int, r.width as int, r.height as int)
        }),
{
    let aligned_width: u32 = align_to_16(width);
    let aligned_height: u32 = align_to_16(height);
    let bytes = if aligned_width != width || aligned_height != height {
        pad_frame_to_aligned(data, width, height, aligned_width, aligned_height)
    } else {
        vstd::slice::slice_to_vec(data.as_slice())
    };
    EncoderInput { data: bytes, width: aligned_width, height: aligned_height }
}

/// Packing keeps each byte of the picture, at its row and its place in the row, and drops
/// what stands behind the rows.
pub proof fn law_packing_keeps_the_picture(
    s: Seq<u8>,
    height: int,
    stride: int,
    tight: int,
    y: int,
    i: int,
)
    requires
        0 <= y < height,
        0 <= i < tight,
    ensures
        packed_rows(s, height, stride, tight).len() == height * tight,
        packed_rows(s, height, stride, tight)[y * tight + i] == s[y * stride + i],
{
    lemma_row_end(y, height, tight);
    lemma_cell(y, tight, i);
    assert(0 <= height * tight) by (nonlinear_arith)
        requires
            height >= 0,
            tight >= 0,
    ;
}

/// A frame in memory is packed exactly where its rows are longer than its pixels and all
/// of them are there.
pub proof fn law_padded_frames(frame: VideoFrame)
    ensures
        frame.buffer is DmaBuf ==> !is_padded(frame),
        frame.stride <= frame.width * 4 ==> !is_padded(frame),
        frame.buffer matches FrameBuffer::Memory(data) ==> (frame.stride > frame.width * 4
            && data@.len() >= frame.stride * frame.height ==> is_padded(frame)) && (data@.len()
            < frame.stride * frame.height ==> !is_padded(frame)),
{
}

/// A new stream is followed to its own node.
pub proof fn law_new_stream_is_followed(width: u16, height: u16, node_id: u32)
    ensures
        rebound(
            CaptureResizeOutcome {
                width,
                height,
                effect: CaptureResizeEffect::Recreated { node_id },
            },
        ) == Some(node_id),
{
}

} // verus!
