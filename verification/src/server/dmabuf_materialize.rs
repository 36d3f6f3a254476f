//! Moving GPU buffers into CPU memory.

use vstd::prelude::*;

use crate::arith::{capped, saturating_mul_usize};
use crate::video::{DmaBufDescriptor, FrameBuffer, VideoFrame};

verus! {

/// Which bytes of a GPU buffer hold the picture.
#[derive(Clone, Copy, Debug, PartialEq, Eq, Structural)]
pub struct PlaneRead {
    pub offset: u32,
    pub size: usize,
}

/// The bytes to read of a GPU buffer: all rows of its first plane.
///
/// `linear` is the verdict on the buffer's layout; its error comes back as it is.
pub fn plan_plane_read(desc: &DmaBufDescriptor, linear: Result<(), String>) -> (r: Result<
    PlaneRead,
    String,
>)
    ensures
        match linear {
            Err(e) => r == Err::<PlaneRead, String>(e),
            Ok(_) => if desc.planes@.len() == 0 {
                r matches Err(e) && e@ == "no planes"@
            } else {
                r == Ok::<PlaneRead, String>(
                    PlaneRead {
                        offset: desc.planes@[0].offset,
                        size: capped(
                            desc.height * desc.planes@[0].stride,
                            usize::MAX as int,
                        ) as usize,
                    },
                )
            },
        },
{
    match linear {
        Err(e) => Err(e),
        Ok(_) => {
            if desc.planes.len() == 0 {
                return Err("no planes".to_owned());
            }
            let plane = desc.planes[0];
            let size: usize = saturating_mul_usize(desc.height as usize, plane.stride as usize);
            Ok(PlaneRead { offset: plane.offset, size })
        },
    }
}

/// Flags with the lowest bit, which marks a GPU buffer, cleared.
pub open spec fn without_dmabuf_flag(flags: u32) -> u32 {
    (flags - flags % 2) as u32
}

/// Puts the bytes that were read into the frame, which then no longer counts
/// as a GPU buffer. A frame in memory, or one whose bytes could not be read,
/// stays as it is.
pub fn materialize_dmabuf_frame(frame: VideoFrame, read: Option<Vec<u8>>) -> (r: VideoFrame)
    ensures
        frame.buffer is Memory || read is None ==> r == frame,
        frame.buffer is DmaBuf && read is Some ==> {
            &&& r.buffer == FrameBuffer::Memory(read->0)
            &&& r.flags == without_dmabuf_flag(frame.flags)
            &&& r == (VideoFrame { buffer: r.buffer, flags: r.flags, ..frame })
        },
{
    let is_memory = match &frame.buffer {
        FrameBuffer::Memory(_) => true,
        FrameBuffer::DmaBuf(_) => false,
    };
    if is_memory {
        return frame;
    }
    match read {
        None => frame,
        Some(data) => {
            let mut r = frame;
            r.flags = r.flags - r.flags % 2;
            r.buffer = FrameBuffer::Memory(data);
            r
        },
    }
}

/// Clearing the lowest bit is clearing it and nothing else.
pub proof fn law_only_dmabuf_bit_cleared(flags: u32)
    ensures
        without_dmabuf_flag(flags) == flags & !1u32,
{
    assert((flags - flags % 2) as u32 == flags & !1u32) by (bit_vector);
}

/// Share of the materialized frames, in whole percent, that read as all zero,
/// or `None` before the first frame.
pub fn log_materialization_summary(total: u64, nonzero: u64) -> (r: Option<u64>)
    requires
        total > 0 ==> nonzero <= total && (total - nonzero) * 100 <= u64::MAX,
    ensures
        total == 0 ==> r is None,
        total > 0 ==> r == Some((((total - nonzero) * 100) / total as int) as u64),
{
    if total > 0 {
        Some((total - nonzero) * 100 / total)
    } else {
        None
    }
}

} // verus!
