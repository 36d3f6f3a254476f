//! Captured frames, capture streams and bitmaps, as plain values.

use vstd::prelude::*;

use crate::damage::DamageRegion;

verus! {

/// One plane of a GPU buffer.
#[derive(Clone, Copy, Debug, PartialEq, Eq, Structural)]
pub struct DmaBufPlane {
    pub offset: u32,
    pub stride: u32,
}

/// A frame that lives in a GPU buffer.
pub struct DmaBufDescriptor {
    pub width: u32,
    pub height: u32,
    pub modifier: u64,
    pub planes: Vec<DmaBufPlane>,
}

/// Where the pixels of a frame are.
pub enum FrameBuffer {
    Memory(Vec<u8>),
    DmaBuf(DmaBufDescriptor),
}

/// A captured frame.
pub struct VideoFrame {
    pub frame_id: u64,
    pub width: u32,
    pub height: u32,
    /// Bytes per row.
    pub stride: u32,
    /// Presentation time in nanoseconds, zero when unknown.
    pub pts: u64,
    pub flags: u32,
    pub buffer: FrameBuffer,
    /// Damage as the compositor reports it.
    pub damage_regions: Vec<DamageRegion>,
}

/// State of a capture stream.
#[derive(Clone, Copy, Debug, PartialEq, Eq, Structural)]
pub enum PwStreamState {
    Streaming,
    Paused,
    Error,
    Unconnected,
    Connecting,
}

/// What the health monitor hears of a capture stream.
#[derive(Clone, Copy, Debug, PartialEq, Eq, Structural)]
pub enum VideoStreamState {
    Streaming,
    Paused,
    Error,
}

/// Pixel layout of a bitmap or of a captured frame.
#[derive(Clone, Copy, Debug, PartialEq, Eq, Structural)]
pub enum RdpPixelFormat {
    BgrX32,
    Bgr24,
    Rgb16,
    Rgb15,
}

/// A rectangle whose right and bottom edges are exclusive.
#[derive(Clone, Copy, Debug, PartialEq, Eq, Structural)]
pub struct Rectangle {
    pub left: u16,
    pub top: u16,
    pub right: u16,
    pub bottom: u16,
}

impl Rectangle {
    pub fn new(left: u16, top: u16, right: u16, bottom: u16) -> (r: Self)
        ensures
            r == (Rectangle { left, top, right, bottom }),
    {
        Rectangle { left, top, right, bottom }
    }
}

/// One changed rectangle with its pixels.
pub struct BitmapData {
    pub rectangle: Rectangle,
    pub format: RdpPixelFormat,
    pub data: Vec<u8>,
    pub compressed: bool,
}

/// The changed rectangles of one frame.
pub struct BitmapUpdate {
    pub rectangles: Vec<BitmapData>,
}

} // verus!
