//! Conversion of XCursor files to pointer shapes of the protocol.
//!
//! A pointer shape has two masks, both with the last row first. A set bit of the
//! one-bit mask leaves the screen as it is; elsewhere the colour mask shows.

use vstd::prelude::*;
use vstd::string::*;

use crate::arith::{capped, ceil_div};
use crate::server::frame_transform::{lemma_cell, lemma_row_end};
use crate::text::{chars_of, join2, split, split_ranges, Separator};

verus! {

/// A pointer shape.
pub struct RdpPointer {
    pub cache_index: u16,
    pub hot_spot: (u16, u16),
    pub width: u16,
    pub height: u16,
    pub and_mask: Vec<u8>,
    pub xor_mask: Vec<u8>,
}

/// First word of an XCursor file.
pub const MAGIC: u32 = 0x7275_6358;

/// Kind of a chunk that holds an image.
pub const CHUNK_IMAGE: u32 = 0xFFFD_0002;

/// Why there is no pointer shape.
#[derive(Debug)]
pub enum CursorError {
    /// The file could not be read.
    Io(String),
    /// The file is not an XCursor file.
    Malformed(&'static str),
    /// The file has no image.
    NoImage,
}

impl CursorError {
    /// The error in words.
    pub open spec fn message(self) -> Seq<char> {
        match self {
            CursorError::Io(e) => "cursor file_io: "@ + e@,
            CursorError::Malformed(why) => "cursor malformed: "@ + why@,
            CursorError::NoImage => "cursor file has no image chunk"@,
        }
    }

    /// The error in words.
    pub fn to_string(&self) -> (r: String)
        ensures
            r@ == self.message(),
    {
        match self {
            CursorError::Io(e) => {
                let mut r = "cursor file_io: ".to_owned();
                r.append(e.as_str());
                r
            },
            CursorError::Malformed(why) => {
                let mut r = "cursor malformed: ".to_owned();
                r.append(why);
                r
            },
            CursorError::NoImage => "cursor file has no image chunk".to_owned(),
        }
    }
}

/// An image of an XCursor file: rows of four-byte pixels, first row first.
pub struct ImageChunk {
    pub nominal: u32,
    pub width: u32,
    pub height: u32,
    pub xhot: u32,
    pub yhot: u32,
    pub pixels: Vec<u8>,
}

/// What an image holds.
pub struct Image {
    pub nominal: u32,
    pub width: u32,
    pub height: u32,
    pub xhot: u32,
    pub yhot: u32,
    pub pixels: Seq<u8>,
}

impl Image {
    /// How far the nominal size is from 24 pixels.
    pub open spec fn distance(self) -> int {
        if self.nominal >= 24 {
            self.nominal - 24
        } else {
            24 - self.nominal
        }
    }
}

impl View for ImageChunk {
    type V = Image;

    open spec fn view(&self) -> Image {
        Image {
            nominal: self.nominal,
            width: self.width,
            height: self.height,
            xhot: self.xhot,
            yhot: self.yhot,
            pixels: self.pixels@,
        }
    }
}

impl ImageChunk {
    /// There are as many pixels as the size says.
    pub open spec fn wf(self) -> bool {
        self.pixels@.len() == self.height * (self.width * 4)
    }
}

/// The little-endian word at position `at`, if the data reach that far.
pub open spec fn word(d: Seq<u8>, at: int) -> Option<u32> {
    if at + 4 <= d.len() {
        Some((d[at] + 256 * d[at + 1] + 65536 * d[at + 2] + 16777216 * d[at + 3]) as u32)
    } else {
        None
    }
}

/// What an entry of the table of contents leads to.
pub enum Entry {
    /// The data end before it is read.
    Truncated,
    /// No image, or one with a header of another kind.
    Other,
    /// The data end before the pixels do.
    TruncatedPixels,
    /// An image.
    Holds(Image),
}

/// What entry `i` of the table of contents leads to.
///
/// An entry has the kind of its chunk, the nominal size and the chunk's
/// position; the chunk has its header's length, which is 36, its kind, nominal
/// size and version, then width, height, hot spot and delay, then the pixels.
pub open spec fn entry(d: Seq<u8>, i: int) -> Entry {
    let at = 16 + i * 12;
    if word(d, at) is None {
        Entry::Truncated
    } else if word(d, at)->0 != CHUNK_IMAGE {
        Entry::Other
    } else if word(d, at + 8) is None {
        Entry::Truncated
    } else {
        let pos = word(d, at + 8)->0 as int;
        if word(d, pos) is None {
            Entry::Truncated
        } else if word(d, pos)->0 != 36 {
            Entry::Other
        } else if word(d, pos + 28) is None {
            Entry::Truncated
        } else {
            let width = word(d, pos + 16)->0;
            let height = word(d, pos + 20)->0;
            if pos + 36 + height * (width * 4) > d.len() {
                Entry::TruncatedPixels
            } else {
                Entry::Holds(
                    Image {
                        nominal: word(d, at + 4)->0,
                        width,
                        height,
                        xhot: word(d, pos + 24)->0,
                        yhot: word(d, pos + 28)->0,
                        pixels: d.subrange(pos + 36, pos + 36 + height * (width * 4)),
                    },
                )
            }
        }
    }
}

/// Outcome of reading the first entries: the image closest to 24 pixels so far, of
/// equally close ones the first, or what is wrong with the file.
pub enum Scan {
    Truncated,
    TruncatedPixels,
    Best(Option<Image>),
}

/// Outcome of reading the first `n` entries.
pub open spec fn scan(d: Seq<u8>, n: int) -> Scan
    decreases n,
{
    if n <= 0 {
        Scan::Best(None)
    } else {
        match scan(d, n - 1) {
            Scan::Best(best) => match entry(d, n - 1) {
                Entry::Truncated => Scan::Truncated,
                Entry::TruncatedPixels => Scan::TruncatedPixels,
                Entry::Other => Scan::Best(best),
                Entry::Holds(image) => if best is None || image.distance() < best->0.distance() {
                    Scan::Best(Some(image))
                } else {
                    Scan::Best(best)
                },
            },
            failed => failed,
        }
    }
}

fn read_word(data: &[u8], at: u64) -> (r: Option<u32>)
    requires
        at <= u64::MAX - 4,
    ensures
        r == word(data@, at as int),
{
    if at + 4 > data.len() as u64 {
        return None;
    }
    let i: usize = at as usize;
    Some(
        data[i] as u32 + 256 * (data[i + 1] as u32) + 65536 * (data[i + 2] as u32) + 16777216 * (
        data[i + 3] as u32),
    )
}

/// What was found at an entry.
enum Found {
    Truncated,
    Other,
    TruncatedPixels,
    Holds(ImageChunk),
}

fn read_entry(data: &[u8], i: u32) -> (r: Found)
    ensures
        match r {
            Found::Truncated => entry(data@, i as int) is Truncated,
            Found::Other => entry(data@, i as int) is Other,
            Found::TruncatedPixels => entry(data@, i as int) is TruncatedPixels,
            Found::Holds(chunk) => entry(data@, i as int) == Entry::Holds(chunk@) && chunk.wf(),
        },
{
    let at: u64 = 16 + i as u64 * 12;
    let kind: u32 = match read_word(data, at) {
        Some(w) => w,
        None => {
            return Found::Truncated;
        },
    };
    if kind != CHUNK_IMAGE {
        return Found::Other;
    }
    let nominal_word = read_word(data, at + 4);
    let pos: u64 = match read_word(data, at + 8) {
        Some(w) => w as u64,
        None => {
            return Found::Truncated;
        },
    };
    let nominal: u32 = match nominal_word {
        Some(w) => w,
        None => {
            return Found::Truncated;
        },
    };
    match read_word(data, pos) {
        Some(w) => {
            if w != 36 {
                return Found::Other;
            }
        },
        None => {
            return Found::Truncated;
        },
    }
    let yhot: u32 = match read_word(data, pos + 28) {
        Some(w) => w,
        None => {
            return Found::Truncated;
        },
    };
    let (width, height, xhot) = match (
        read_word(data, pos + 16),
        read_word(data, pos + 20),
        read_word(data, pos + 24),
    ) {
        (Some(w), Some(h), Some(x)) => (w, h, x),
        _ => {
            return Found::Truncated;
        },
    };
    proof {
        assert(0 <= height * (width * 4) <= u32::MAX * (u32::MAX * 4)) by (nonlinear_arith)
            requires
                0 <= height <= u32::MAX,
                0 <= width <= u32::MAX,
        ;
    }
    let len: u128 = height as u128 * (width as u128 * 4);
    let start: u64 = pos + 36;
    if start as u128 + len > data.len() as u128 {
        return Found::TruncatedPixels;
    }
    let from: usize = start as usize;
    let to: usize = (start as u128 + len) as usize;
    let pixels = vstd::slice::slice_to_vec(vstd::slice::slice_subrange(data, from, to));
    Found::Holds(ImageChunk { nominal, width, height, xhot, yhot, pixels })
}

fn distance_from_24(nominal: u32) -> (r: u32)
    ensures
        r == (if nominal >= 24 {
            nominal - 24
        } else {
            24 - nominal
        }),
{
    if nominal >= 24 {
        nominal - 24
    } else {
        24 - nominal
    }
}

/// The file starts as an XCursor file does.
pub open spec fn has_header(d: Seq<u8>) -> bool {
    d.len() >= 16 && word(d, 0) == Some(MAGIC)
}

/// What is wrong with a file from which no image can be read.
pub open spec fn fault(d: Seq<u8>) -> Seq<char> {
    if d.len() < 16 {
        "file too small"@
    } else if word(d, 0) != Some(MAGIC) {
        "bad magic"@
    } else if scan(d, word(d, 12)->0 as int) is Truncated {
        "truncated header/toc"@
    } else {
        "truncated pixels"@
    }
}

/// Reads an XCursor file and picks the image closest to 24 pixels.
pub fn parse_xcursor(data: &[u8]) -> (r: Result<ImageChunk, CursorError>)
    ensures
        match r {
            Ok(chunk) => {
                &&& has_header(data@)
                &&& scan(data@, word(data@, 12)->0 as int) == Scan::Best(Some(chunk@))
                &&& chunk.wf()
            },
            Err(CursorError::Malformed(why)) => {
                &&& why@ == fault(data@)
                &&& has_header(data@) ==> scan(data@, word(data@, 12)->0 as int) !is Best
            },
            Err(CursorError::NoImage) => {
                &&& has_header(data@)
                &&& scan(data@, word(data@, 12)->0 as int) == Scan::Best(None)
            },
            Err(CursorError::Io(_)) => false,
        },
{
    if data.len() < 16 {
        return Err(CursorError::Malformed("file too small"));
    }
    match read_word(data, 0) {
        Some(w) => {
            if w != MAGIC {
                return Err(CursorError::Malformed("bad magic"));
            }
        },
        None => {
            return Err(CursorError::Malformed("bad magic"));
        },
    }
    let ntoc: u32 = match read_word(data, 12) {
        Some(w) => w,
        None => {
            return Err(CursorError::Malformed("truncated header/toc"));
        },
    };
    let mut best: Option<ImageChunk> = None;
    let mut i: u32 = 0;
    while i < ntoc
        invariant
            0 <= i <= ntoc,
            data@.len() >= 16,
            word(data@, 0) == Some(MAGIC),
            word(data@, 12) == Some(ntoc),
            match best {
                Some(chunk) => scan(data@, i as int) == Scan::Best(Some(chunk@)) && chunk.wf(),
                None => scan(data@, i as int) == Scan::Best(None),
            },
        decreases ntoc - i,
    {
        match read_entry(data, i) {
            Found::Truncated => {
                proof {
                    lemma_scan_fails(data@, i as int + 1, ntoc as int);
                }
                return Err(CursorError::Malformed("truncated header/toc"));
            },
            Found::TruncatedPixels => {
                proof {
                    lemma_scan_fails(data@, i as int + 1, ntoc as int);
                }
                return Err(CursorError::Malformed("truncated pixels"));
            },
            Found::Other => {},
            Found::Holds(chunk) => {
                let better = match &best {
                    None => true,
                    Some(b) => distance_from_24(chunk.nominal) < distance_from_24(b.nominal),
                };
                if better {
                    best = Some(chunk);
                }
            },
        }
        i = i + 1;
    }
    match best {
        Some(chunk) => Ok(chunk),
        None => Err(CursorError::NoImage),
    }
}

proof fn lemma_scan_fails(d: Seq<u8>, i: int, n: int)
    requires
        0 <= i <= n,
        scan(d, i) !is Best,
    ensures
        scan(d, n) == scan(d, i),
    decreases n - i,
{
    if i < n {
        lemma_scan_fails(d, i, n - 1);
    }
}

/// The chosen image is as close to 24 pixels as any image of the file.
pub proof fn law_closest_image(d: Seq<u8>, n: int, i: int)
    requires
        0 <= i < n,
        scan(d, n) is Best,
        entry(d, i) is Holds,
    ensures
        scan(d, n)->Best_0 is Some,
        scan(d, n)->Best_0->0.distance() <= entry(d, i)->Holds_0.distance(),
    decreases n,
{
    if i < n - 1 {
        law_closest_image(d, n - 1, i);
    }
}

/// Width and height of a shape: those of the image, at most 96.
pub open spec fn shape_side(n: u32) -> int {
    capped(n as int, 96)
}

/// Bytes of a row of the one-bit mask: whole pairs.
pub open spec fn and_stride(w: int) -> int {
    ceil_div(w, 16) * 2
}

/// Bytes of a row of the colour mask: four for each pixel, but sixteen for rows of two.
pub open spec fn xor_stride(w: int) -> int {
    if w == 2 {
        16
    } else {
        w * 4
    }
}

/// Byte `c` of pixel `(x, y)` of an image.
pub open spec fn image_byte(img: Image, x: int, y: int, c: int) -> u8 {
    img.pixels[y * (img.width * 4) + x * 4 + c]
}

/// The pixel is fully transparent.
pub open spec fn transparent(img: Image, x: int, y: int) -> bool {
    image_byte(img, x, y, 3) == 0
}

/// Byte `c` of a pixel of the colour mask: the three colours in reverse order of
/// the image, then zero; nothing for a transparent pixel.
pub open spec fn colour_byte(img: Image, x: int, y: int, c: int) -> u8 {
    if transparent(img, x, y) || c == 3 {
        0
    } else {
        image_byte(img, x, y, 2 - c)
    }
}

/// The colour mask of an image.
pub open spec fn colour_mask(img: Image) -> Seq<u8> {
    let w = shape_side(img.width);
    let h = shape_side(img.height);
    Seq::new(
        (h * xor_stride(w)) as nat,
        |k: int|
            {
                let y = h - 1 - k / xor_stride(w);
                let i = k % xor_stride(w);
                if i < w * 4 {
                    colour_byte(img, i / 4, y, i % 4)
                } else {
                    0
                }
            },
    )
}

/// One for a transparent pixel of the first `w` of a row, else zero.
pub open spec fn hole(img: Image, w: int, x: int, y: int) -> int {
    if x < w && transparent(img, x, y) {
        1
    } else {
        0
    }
}

/// Eight pixels of a row from `x` on as a byte, the first in the highest bit.
pub open spec fn hole_byte(img: Image, w: int, x: int, y: int) -> int {
    hole(img, w, x, y) * 128 + hole(img, w, x + 1, y) * 64 + hole(img, w, x + 2, y) * 32 + hole(
        img,
        w,
        x + 3,
        y,
    ) * 16 + hole(img, w, x + 4, y) * 8 + hole(img, w, x + 5, y) * 4 + hole(img, w, x + 6, y) * 2
        + hole(img, w, x + 7, y)
}

/// The one-bit mask of an image.
pub open spec fn hole_mask(img: Image) -> Seq<u8> {
    let w = shape_side(img.width);
    let h = shape_side(img.height);
    Seq::new(
        (h * and_stride(w)) as nat,
        |k: int|
            hole_byte(img, w, k % and_stride(w) * 8, h - 1 - k / and_stride(w)) as u8,
    )
}

fn min_side(n: u32) -> (r: usize)
    ensures
        r == shape_side(n),
{
    if n <= 96 {
        n as usize
    } else {
        96
    }
}

proof fn lemma_pixel_in_image(img: ImageChunk, x: int, y: int)
    requires
        img.wf(),
        0 <= x < img.width,
        0 <= y < img.height,
    ensures
        0 <= y * (img.width * 4) + x * 4,
        y * (img.width * 4) + x * 4 + 4 <= img.pixels@.len(),
{
    lemma_row_end(y, img.height as int, img.width * 4);
}

fn pixel_offset(img: &ImageChunk, x: usize, y: usize) -> (r: usize)
    requires
        img.wf(),
        x < img.width,
        y < img.height,
    ensures
        r == y * (img.width * 4) + x * 4,
        r + 4 <= img.pixels@.len(),
        r + 4 <= usize::MAX,
{
    proof {
        lemma_pixel_in_image(*img, x as int, y as int);
        lemma_row_end(y as int, img.height as int, img.width * 4);
        assert(img.width * 4 <= img.height * (img.width * 4)) by (nonlinear_arith)
            requires
                img.height >= 1,
                img.width >= 1,
        ;
    }
    let len: usize = img.pixels.len();
    assert(y * (img.width * 4) + x * 4 + 4 <= len);
    y * (img.width as usize * 4) + x * 4
}

fn is_hole(img: &ImageChunk, w: usize, x: usize, y: usize) -> (r: u8)
    requires
        img.wf(),
        w == shape_side(img.width),
        y < img.height,
    ensures
        r == hole(img@, w as int, x as int, y as int),
        r <= 1,
{
    if x < w {
        let at: usize = pixel_offset(img, x, y);
        if img.pixels[at + 3] == 0 {
            1
        } else {
            0
        }
    } else {
        0
    }
}

fn build_hole_mask(img: &ImageChunk) -> (r: Vec<u8>)
    requires
        img.wf(),
    ensures
        r@ == hole_mask(img@),
{
    let w: usize = min_side(img.width);
    let h: usize = min_side(img.height);
    let stride: usize = (w + 15) / 16 * 2;
    let ghost want = hole_mask(img@);
    let mut out: Vec<u8> = Vec::new();
    let mut row: usize = 0;
    assert(0 * stride == 0);
    proof {
        assert(0 <= h * stride) by (nonlinear_arith)
            requires
                h >= 0,
                stride >= 0,
        ;
    }
    while row < h
        invariant
            0 <= row <= h,
            img.wf(),
            w == shape_side(img.width),
            h == shape_side(img.height),
            stride == and_stride(w as int),
            stride <= 12,
            want == hole_mask(img@),
            want.len() == h * stride,
            out@.len() == row * stride,
            forall|k: int| 0 <= k < out@.len() ==> out@[k] == want[k],
        decreases h - row,
    {
        proof {
            lemma_row_end(row as int, h as int, stride as int);
        }
        let y: usize = h - 1 - row;
        let mut j: usize = 0;
        while j < stride
            invariant
                0 <= j <= stride,
                0 <= row < h,
                y == h - 1 - row,
                img.wf(),
                w == shape_side(img.width),
                h == shape_side(img.height),
                stride == and_stride(w as int),
                stride <= 12,
                0 <= row * stride,
                row * stride + stride <= h * stride,
                want == hole_mask(img@),
                want.len() == h * stride,
                out@.len() == row * stride + j,
                forall|k: int| 0 <= k < out@.len() ==> out@[k] == want[k],
            decreases stride - j,
        {
            let x: usize = j * 8;
            let byte: u8 = is_hole(img, w, x, y) * 128 + is_hole(img, w, x + 1, y) * 64 + is_hole(
                img,
                w,
                x + 2,
                y,
            ) * 32 + is_hole(img, w, x + 3, y) * 16 + is_hole(img, w, x + 4, y) * 8 + is_hole(
                img,
                w,
                x + 5,
                y,
            ) * 4 + is_hole(img, w, x + 6, y) * 2 + is_hole(img, w, x + 7, y);
            proof {
                lemma_cell(row as int, stride as int, j as int);
                assert(want[row * stride + j] == hole_byte(
                    img@,
                    w as int,
                    x as int,
                    y as int,
                ) as u8);
            }
            out.push(byte);
            j = j + 1;
        }
        row = row + 1;
    }
    assert(out@ =~= want);
    out
}

fn build_colour_mask(img: &ImageChunk) -> (r: Vec<u8>)
    requires
        img.wf(),
    ensures
        r@ == colour_mask(img@),
{
    let w: usize = min_side(img.width);
    let h: usize = min_side(img.height);
    let stride: usize = if w == 2 { 16 } else { w * 4 };
    let ghost want = colour_mask(img@);
    let mut out: Vec<u8> = Vec::new();
    let mut row: usize = 0;
    assert(0 * stride == 0);
    proof {
        assert(0 <= h * stride) by (nonlinear_arith)
            requires
                h >= 0,
                stride >= 0,
        ;
    }
    while row < h
        invariant
            0 <= row <= h,
            img.wf(),
            w == shape_side(img.width),
            h == shape_side(img.height),
            stride == xor_stride(w as int),
            w * 4 <= stride <= 384,
            want == colour_mask(img@),
            want.len() == h * stride,
            out@.len() == row * stride,
            forall|k: int| 0 <= k < out@.len() ==> out@[k] == want[k],
        decreases h - row,
    {
        proof {
            lemma_row_end(row as int, h as int, stride as int);
        }
        let y: usize = h - 1 - row;
        let mut x: usize = 0;
        while x < w
            invariant
                0 <= x <= w,
                0 <= row < h,
                y == h - 1 - row,
                img.wf(),
                w == shape_side(img.width),
                h == shape_side(img.height),
                stride == xor_stride(w as int),
                w * 4 <= stride <= 384,
                0 <= row * stride,
                row * stride + stride <= h * stride,
                want == colour_mask(img@),
                want.len() == h * stride,
                out@.len() == row * stride + x * 4,
                forall|k: int| 0 <= k < out@.len() ==> out@[k] == want[k],
            decreases w - x,
        {
            let at: usize = pixel_offset(img, x, y);
            let drawn = img.pixels[at + 3] > 0;
            let first: u8 = if drawn { img.pixels[at + 2] } else { 0 };
            let second: u8 = if drawn { img.pixels[at + 1] } else { 0 };
            let third: u8 = if drawn { img.pixels[at] } else { 0 };
            proof {
                lemma_cell(row as int, stride as int, x * 4);
                lemma_cell(row as int, stride as int, x * 4 + 1);
                lemma_cell(row as int, stride as int, x * 4 + 2);
                lemma_cell(row as int, stride as int, x * 4 + 3);
                assert(want[row * stride + (x * 4)] == first);
                assert(want[row * stride + (x * 4 + 1)] == second);
                assert(want[row * stride + (x * 4 + 2)] == third);
                assert(want[row * stride + (x * 4 + 3)] == 0);
            }
            out.push(first);
            out.push(second);
            out.push(third);
            out.push(0);
            x = x + 1;
        }
        let mut i: usize = w * 4;
        while i < stride
            invariant
                w * 4 <= i <= stride,
                0 <= row < h,
                w == shape_side(img.width),
                h == shape_side(img.height),
                stride == xor_stride(w as int),
                0 <= row * stride,
                row * stride + stride <= h * stride,
                want == colour_mask(img@),
                want.len() == h * stride,
                out@.len() == row * stride + i,
                forall|k: int| 0 <= k < out@.len() ==> out@[k] == want[k],
            decreases stride - i,
        {
            proof {
                lemma_cell(row as int, stride as int, i as int);
                assert(want[row * stride + i] == 0);
            }
            out.push(0);
            i = i + 1;
        }
        row = row + 1;
    }
    assert(out@ =~= want);
    out
}

/// Converts an image to a pointer shape of at most 96 by 96 pixels.
///
/// Every pixel that is not fully transparent draws its colour, so that soft
/// edges are kept.
pub fn to_rdp(img: &ImageChunk, cache_index: u16) -> (r: RdpPointer)
    requires
        img.wf(),
    ensures
        r.cache_index == cache_index,
        r.hot_spot.0 == shape_side(img.xhot),
        r.hot_spot.1 == shape_side(img.yhot),
        r.width == shape_side(img.width),
        r.height == shape_side(img.height),
        r.and_mask@ == hole_mask(img@),
        r.xor_mask@ == colour_mask(img@),
{
    RdpPointer {
        cache_index,
        hot_spot: (min_side(img.xhot) as u16, min_side(img.yhot) as u16),
        width: min_side(img.width) as u16,
        height: min_side(img.height) as u16,
        and_mask: build_hole_mask(img),
        xor_mask: build_colour_mask(img),
    }
}

/// Bit `7 - x % 8` of a byte, as a number.
pub open spec fn bit_of(byte: u8, x: int) -> int {
    let t = x % 8;
    if t == 0 {
        byte as int / 128 % 2
    } else if t == 1 {
        byte as int / 64 % 2
    } else if t == 2 {
        byte as int / 32 % 2
    } else if t == 3 {
        byte as int / 16 % 2
    } else if t == 4 {
        byte as int / 8 % 2
    } else if t == 5 {
        byte as int / 4 % 2
    } else if t == 6 {
        byte as int / 2 % 2
    } else {
        byte as int % 2
    }
}

/// The bits of a byte that is put together from eight bits.
proof fn lemma_bits(
    b0: int,
    b1: int,
    b2: int,
    b3: int,
    b4: int,
    b5: int,
    b6: int,
    b7: int,
    byte: u8,
)
    requires
        0 <= b0 <= 1,
        0 <= b1 <= 1,
        0 <= b2 <= 1,
        0 <= b3 <= 1,
        0 <= b4 <= 1,
        0 <= b5 <= 1,
        0 <= b6 <= 1,
        0 <= b7 <= 1,
        byte == b0 * 128 + b1 * 64 + b2 * 32 + b3 * 16 + b4 * 8 + b5 * 4 + b6 * 2 + b7,
    ensures
        byte as int / 128 % 2 == b0,
        byte as int / 64 % 2 == b1,
        byte as int / 32 % 2 == b2,
        byte as int / 16 % 2 == b3,
        byte as int / 8 % 2 == b4,
        byte as int / 4 % 2 == b5,
        byte as int / 2 % 2 == b6,
        byte as int % 2 == b7,
{
    let n = byte as int;
    assert(n / 2 == b0 * 64 + b1 * 32 + b2 * 16 + b3 * 8 + b4 * 4 + b5 * 2 + b6);
    assert(n / 4 == b0 * 32 + b1 * 16 + b2 * 8 + b3 * 4 + b4 * 2 + b5);
    assert(n / 8 == b0 * 16 + b1 * 8 + b2 * 4 + b3 * 2 + b4);
    assert(n / 16 == b0 * 8 + b1 * 4 + b2 * 2 + b3);
    assert(n / 32 == b0 * 4 + b1 * 2 + b2);
    assert(n / 64 == b0 * 2 + b1);
    assert(n / 128 == b0);
}

/// The bit of a pixel in the byte that holds it.
proof fn lemma_hole_bit(img: Image, w: int, x: int, y: int)
    requires
        0 <= x,
    ensures
        0 <= hole_byte(img, w, x / 8 * 8, y) <= 255,
        bit_of(hole_byte(img, w, x / 8 * 8, y) as u8, x) == hole(img, w, x, y),
{
    let base = x / 8 * 8;
    let byte = hole_byte(img, w, base, y) as u8;
    lemma_bits(
        hole(img, w, base, y),
        hole(img, w, base + 1, y),
        hole(img, w, base + 2, y),
        hole(img, w, base + 3, y),
        hole(img, w, base + 4, y),
        hole(img, w, base + 5, y),
        hole(img, w, base + 6, y),
        hole(img, w, base + 7, y),
        byte,
    );
    assert(x == base + x % 8);
}

/// A pixel is punched out iff it is fully transparent, and only then; every other
/// pixel shows its colour, whatever its opacity.
pub proof fn law_only_transparent_pixels_punched(img: Image, x: int, y: int)
    requires
        0 <= x < shape_side(img.width),
        0 <= y < shape_side(img.height),
    ensures
        ({
            let w = shape_side(img.width);
            let h = shape_side(img.height);
            let row = h - 1 - y;
            &&& (bit_of(hole_mask(img)[row * and_stride(w) + x / 8], x) == 1) <==> transparent(
                img,
                x,
                y,
            )
            &&& colour_mask(img)[row * xor_stride(w) + x * 4] == colour_byte(img, x, y, 0)
            &&& colour_mask(img)[row * xor_stride(w) + x * 4 + 1] == colour_byte(img, x, y, 1)
            &&& colour_mask(img)[row * xor_stride(w) + x * 4 + 2] == colour_byte(img, x, y, 2)
        }),
{
    let w = shape_side(img.width);
    let h = shape_side(img.height);
    let row = h - 1 - y;
    assert(bit_of(hole_mask(img)[row * and_stride(w) + x / 8], x) == hole(img, w, x, y)) by {
        lemma_row_end(row, h, and_stride(w));
        lemma_cell(row, and_stride(w), x / 8);
        lemma_hole_bit(img, w, x, y);
    }
    lemma_row_end(row, h, xor_stride(w));
    lemma_cell(row, xor_stride(w), x * 4);
    lemma_cell(row, xor_stride(w), x * 4 + 1);
    lemma_cell(row, xor_stride(w), x * 4 + 2);
    assert(row * xor_stride(w) + x * 4 + 1 == row * xor_stride(w) + (x * 4 + 1));
    assert(row * xor_stride(w) + x * 4 + 2 == row * xor_stride(w) + (x * 4 + 2));
}

/// A two-byte number, low byte first.
pub open spec fn le16(n: u16) -> Seq<u8> {
    seq![(n % 256) as u8, (n / 256) as u8]
}

fn push_le16(out: &mut Vec<u8>, n: u16)
    ensures
        final(out)@ == old(out)@ + le16(n),
{
    out.push((n % 256) as u8);
    out.push((n / 256) as u8);
    assert(out@ =~= old(out)@ + le16(n));
}

/// The body of a colour pointer update: cache index, hot spot, size, lengths of
/// the masks, then the colour mask and the one-bit mask. Lengths take two bytes.
pub fn encode_color_pointer(p: &RdpPointer) -> (r: Vec<u8>)
    ensures
        r@ == le16(p.cache_index) + le16(p.hot_spot.0) + le16(p.hot_spot.1) + le16(p.width) + le16(
            p.height,
        ) + le16((p.and_mask@.len() % 65536) as u16) + le16((p.xor_mask@.len() % 65536) as u16)
            + p.xor_mask@ + p.and_mask@,
{
    let mut out: Vec<u8> = Vec::new();
    push_le16(&mut out, p.cache_index);
    push_le16(&mut out, p.hot_spot.0);
    push_le16(&mut out, p.hot_spot.1);
    push_le16(&mut out, p.width);
    push_le16(&mut out, p.height);
    push_le16(&mut out, (p.and_mask.len() % 65536) as u16);
    push_le16(&mut out, (p.xor_mask.len() % 65536) as u16);
    let mut xor = vstd::slice::slice_to_vec(p.xor_mask.as_slice());
    let mut and = vstd::slice::slice_to_vec(p.and_mask.as_slice());
    out.append(&mut xor);
    out.append(&mut and);
    assert(out@ =~= le16(p.cache_index) + le16(p.hot_spot.0) + le16(p.hot_spot.1) + le16(p.width)
        + le16(p.height) + le16((p.and_mask@.len() % 65536) as u16) + le16(
        (p.xor_mask@.len() % 65536) as u16,
    ) + p.xor_mask@ + p.and_mask@);
    out
}

/// The directories that hold cursor themes: those that are configured, separated by
/// colons, or the system's.
pub open spec fn theme_directories(xcursor_path: Option<Seq<char>>) -> Seq<Seq<char>> {
    match xcursor_path {
        Some(path) => split(path, Separator::Char(':')),
        None => seq!["/usr/share/icons"@],
    }
}

/// The arrow of the configured theme in a directory.
pub open spec fn configured_arrow(directory: Seq<char>) -> Seq<char> {
    directory + "/default/cursors/left_ptr"@
}

/// Files that may hold the arrow, in the order in which they are tried: those of the
/// configured theme, then those of themes that are commonly there.
pub fn pointer_candidates(xcursor_path: Option<&str>) -> (r: Vec<String>)
    ensures
        ({
            let directories = theme_directories(match xcursor_path {
                Some(p) => Some(p@),
                None => None,
            });
            let n = directories.len() as int;
            &&& r@.len() == n + 3
            &&& forall|i: int| 0 <= i < n ==> (#[trigger] r@[i])@ == configured_arrow(directories[i])
            &&& r@[n]@ == "/usr/share/icons/breeze_cursors/cursors/left_ptr"@
            &&& r@[n + 1]@ == "/usr/share/icons/default/cursors/left_ptr"@
            &&& r@[n + 2]@ == "/usr/share/icons/whiteglass/cursors/left_ptr"@
        }),
{
    let mut r: Vec<String> = Vec::new();
    match xcursor_path {
        Some(path) => {
            let chars = chars_of(path);
            let n: usize = chars.len();
            let parts = split_ranges(&chars, 0, n, Separator::Char(':'));
            let ghost directories = split(path@, Separator::Char(':'));
            assert(chars@.subrange(0, n as int) =~= path@);
            let mut i: usize = 0;
            while i < parts.len()
                invariant
                    i <= parts@.len(),
                    parts@.len() == directories.len(),
                    chars@ == path@,
                    n == chars@.len(),
                    forall|k: int|
                        0 <= k < parts@.len() ==> {
                            &&& 0 <= (#[trigger] parts@[k]).0 <= parts@[k].1 <= n
                            &&& chars@.subrange(parts@[k].0 as int, parts@[k].1 as int)
                                == directories[k]
                        },
                    r@.len() == i,
                    forall|k: int|
                        0 <= k < i ==> (#[trigger] r@[k])@ == configured_arrow(directories[k]),
                decreases parts@.len() - i,
            {
                let part: (usize, usize) = parts[i];
                let directory = path.substring_char(part.0, part.1);
                r.push(join2(directory, "/default/cursors/left_ptr"));
                i += 1;
            }
        },
        None => {
            r.push(join2("/usr/share/icons", "/default/cursors/left_ptr"));
        },
    }
    r.push("/usr/share/icons/breeze_cursors/cursors/left_ptr".to_owned());
    r.push("/usr/share/icons/default/cursors/left_ptr".to_owned());
    r.push("/usr/share/icons/whiteglass/cursors/left_ptr".to_owned());
    r
}

/// What became of a file.
pub enum PointerFile {
    Missing,
    /// It could not be read, for this reason.
    Unreadable(String),
    Read(Vec<u8>),
}

/// The search for the arrow through the candidate files.
pub struct PointerSearch {
    /// What was wrong with the last file that was there.
    pub last: CursorError,
}

impl PointerSearch {
    pub fn new() -> (r: Self)
        ensures
            r.last is NoImage,
    {
        PointerSearch { last: CursorError::NoImage }
    }

    /// Looks at the next file. Returns the shape and ends the search, or takes
    /// note of what was wrong; a missing file counts for nothing.
    pub fn look_at(&mut self, file: PointerFile) -> (r: Option<RdpPointer>)
        ensures
            match file {
                PointerFile::Missing => r is None && *final(self) == *old(self),
                PointerFile::Unreadable(e) => r is None && final(self).last == CursorError::Io(e),
                PointerFile::Read(data) => {
                    let valid = has_header(data@);
                    let found = scan(data@, word(data@, 12)->0 as int);
                    if valid && found is Best && found->Best_0 is Some {
                        let img = found->Best_0->0;
                        &&& r is Some
                        &&& r->0.cache_index == 0
                        &&& r->0.hot_spot.0 == shape_side(img.xhot)
                        &&& r->0.hot_spot.1 == shape_side(img.yhot)
                        &&& r->0.width == shape_side(img.width)
                        &&& r->0.height == shape_side(img.height)
                        &&& r->0.and_mask@ == hole_mask(img)
                        &&& r->0.xor_mask@ == colour_mask(img)
                        &&& *final(self) == *old(self)
                    } else if valid && found == Scan::Best(None) {
                        r is None && final(self).last is NoImage
                    } else {
                        &&& r is None
                        &&& final(self).last matches CursorError::Malformed(why)
                        &&& why@ == fault(data@)
                    }
                },
            },
    {
        match file {
            PointerFile::Missing => None,
            PointerFile::Unreadable(e) => {
                self.last = CursorError::Io(e);
                None
            },
            PointerFile::Read(data) => match parse_xcursor(data.as_slice()) {
                Ok(img) => Some(to_rdp(&img, 0)),
                Err(e) => {
                    self.last = e;
                    None
                },
            },
        }
    }
}

/// A shape is as large as its image, but no side is larger than 96, and its masks have
/// whole rows: of pairs of bytes with a bit for each pixel, and of four bytes for each
/// pixel, sixteen for rows of two.
pub proof fn law_mask_sizes(img: Image)
    ensures
        ({
            let w = if img.width <= 96 {
                img.width as int
            } else {
                96
            };
            let h = if img.height <= 96 {
                img.height as int
            } else {
                96
            };
            &&& shape_side(img.width) == w && shape_side(img.height) == h
            &&& hole_mask(img).len() == h * ((w + 15) / 16 * 2)
            &&& colour_mask(img).len() == h * (if w == 2 {
                16
            } else {
                4 * w
            })
        }),
{
    let w = shape_side(img.width);
    let h = shape_side(img.height);
    assert(0 <= h * and_stride(w) && 0 <= h * xor_stride(w)) by (nonlinear_arith)
        requires
            h >= 0,
            and_stride(w) >= 0,
            xor_stride(w) >= 0,
    ;
}

/// Every pixel with any opacity, full opacity included, shows its own three colours, in
/// reverse order of the image; a pixel without any shows nothing and lets what is
/// behind it through. Rows are bottom up.
pub proof fn law_pixels_keep_their_colours(img: Image, x: int, y: int)
    requires
        0 <= x < img.width,
        x < 96,
        0 <= y < img.height,
        y < 96,
    ensures
        ({
            let w = if img.width <= 96 {
                img.width as int
            } else {
                96
            };
            let h = if img.height <= 96 {
                img.height as int
            } else {
                96
            };
            let row = if w == 2 {
                16
            } else {
                4 * w
            };
            let at = (h - 1 - y) * row + x * 4;
            let from = y * (img.width * 4) + x * 4;
            let mask = colour_mask(img);
            let hidden = bit_of(hole_mask(img)[(h - 1 - y) * ((w + 15) / 16 * 2) + x / 8], x);
            &&& img.pixels[from + 3] > 0 ==> {
                &&& mask[at] == img.pixels[from + 2]
                &&& mask[at + 1] == img.pixels[from + 1]
                &&& mask[at + 2] == img.pixels[from]
                &&& hidden == 0
            }
            &&& img.pixels[from + 3] == 0 ==> {
                &&& mask[at] == 0 && mask[at + 1] == 0 && mask[at + 2] == 0
                &&& hidden == 1
            }
            &&& mask[at + 3] == 0
        }),
{
    let w = shape_side(img.width);
    let h = shape_side(img.height);
    let row = h - 1 - y;
    let stride = xor_stride(w);
    let from = y * (img.width * 4) + x * 4;
    law_only_transparent_pixels_punched(img, x, y);
    assert(bit_of(hole_mask(img)[row * and_stride(w) + x / 8], x) == hole(img, w, x, y)) by {
        lemma_row_end(row, h, and_stride(w));
        lemma_cell(row, and_stride(w), x / 8);
        lemma_hole_bit(img, w, x, y);
    }
    lemma_row_end(row, h, stride);
    lemma_cell(row, stride, x * 4 + 3);
    assert(row * stride + x * 4 + 3 == row * stride + (x * 4 + 3));
    assert(image_byte(img, x, y, 3) == img.pixels[from + 3]);
    assert(image_byte(img, x, y, 2) == img.pixels[from + 2]);
    assert(image_byte(img, x, y, 1) == img.pixels[from + 1]);
    assert(image_byte(img, x, y, 0) == img.pixels[from]);
}

/// What fills a row of the one-bit mask up to whole pairs of bytes hides nothing.
pub proof fn law_filling_hides_nothing(img: Image, x: int, y: int)
    requires
        0 <= y < shape_side(img.height),
        shape_side(img.width) <= x < ceil_div(shape_side(img.width), 16) * 16,
    ensures
        ({
            let w = shape_side(img.width);
            let row = shape_side(img.height) - 1 - y;
            bit_of(hole_mask(img)[row * (ceil_div(w, 16) * 2) + x / 8], x) == 0
        }),
{
    let w = shape_side(img.width);
    let h = shape_side(img.height);
    let row = h - 1 - y;
    lemma_row_end(row, h, and_stride(w));
    lemma_cell(row, and_stride(w), x / 8);
    lemma_hole_bit(img, w, x, y);
}

/// A word is read exactly where four bytes are left, and holds them, low byte first.
pub proof fn law_words(d: Seq<u8>, at: int)
    requires
        0 <= at,
    ensures
        word(d, at) is Some <==> at + 4 <= d.len(),
        word(d, at) matches Some(n) ==> n as int % 256 == d[at] && n as int / 256 % 256 == d[at
            + 1] && n as int / 65536 % 256 == d[at + 2] && n as int / 16777216 == d[at + 3],
{
}

/// An image is read as it stands: an entry of that kind leads to the chunk at its
/// position, whose header says size and hot spot, and whose pixels follow it. It keeps
/// the nominal size of its entry.
pub proof fn law_image_is_read(
    d: Seq<u8>,
    i: int,
    nominal: u32,
    pos: u32,
    width: u32,
    height: u32,
    xhot: u32,
    yhot: u32,
)
    requires
        0 <= i,
        word(d, 16 + 12 * i) == Some(0xfffd_0002u32),
        word(d, 20 + 12 * i) == Some(nominal),
        word(d, 24 + 12 * i) == Some(pos),
        word(d, pos as int) == Some(36u32),
        word(d, pos + 16) == Some(width),
        word(d, pos + 20) == Some(height),
        word(d, pos + 24) == Some(xhot),
        word(d, pos + 28) == Some(yhot),
    ensures
        pos + 36 + height * (width * 4) > d.len() ==> entry(d, i) is TruncatedPixels,
        pos + 36 + height * (width * 4) <= d.len() ==> (entry(d, i) matches Entry::Holds(img)
            && img.nominal == nominal && img.width == width && img.height == height && img.xhot
            == xhot && img.yhot == yhot && img.pixels.len() == height * (width * 4) && (forall|
            k: int,
        |
            0 <= k < img.pixels.len() ==> #[trigger] img.pixels[k] == d[pos + 36 + k])),
{
    assert(0 <= height * (width * 4)) by (nonlinear_arith)
        requires
            0 <= height,
            0 <= width,
    ;
}

/// An entry of another kind is passed over, and so is a chunk with another header. A file
/// that ends before what it points to is truncated.
pub proof fn law_other_chunks_are_passed_over(d: Seq<u8>, i: int, kind: u32, pos: u32)
    requires
        0 <= i,
        word(d, 16 + 12 * i) == Some(kind),
        word(d, 24 + 12 * i) == Some(pos),
    ensures
        kind != 0xfffd_0002 ==> entry(d, i) is Other,
        kind == 0xfffd_0002 && word(d, pos as int) is None ==> entry(d, i) is Truncated,
        kind == 0xfffd_0002 && word(d, pos as int) is Some && word(d, pos as int)->0 != 36
            ==> entry(d, i) is Other,
        kind == 0xfffd_0002 && word(d, pos as int) == Some(36u32) && word(d, pos + 28) is None
            ==> entry(d, i) is Truncated,
{
}

/// The chosen image is one of the file, and every image before it is further from 24
/// pixels; there is one where the file has any.
pub proof fn law_first_of_the_closest(d: Seq<u8>, n: int)
    requires
        0 <= n,
        scan(d, n) is Best,
    ensures
        scan(d, n)->Best_0 matches Some(best) ==> exists|k: int|
            {
                &&& 0 <= k < n
                &&& #[trigger] entry(d, k) == Entry::Holds(best)
                &&& forall|j: int|
                    0 <= j < k && (#[trigger] entry(d, j)) is Holds ==> entry(
                        d,
                        j,
                    )->Holds_0.distance() > best.distance()
            },
        scan(d, n)->Best_0 is None ==> forall|j: int|
            0 <= j < n ==> (#[trigger] entry(d, j)) is Other,
    decreases n,
{
    if n > 0 {
        law_first_of_the_closest(d, n - 1);
        assert(entry(d, n - 1) is Other || entry(d, n - 1) is Holds);
        match entry(d, n - 1) {
            Entry::Holds(image) => {
                let before = scan(d, n - 1)->Best_0;
                if before is None || image.distance() < before->0.distance() {
                    assert forall|j: int| 0 <= j < n - 1 && (#[trigger] entry(d, j)) is Holds implies entry(
                        d,
                        j,
                    )->Holds_0.distance() > image.distance() by {
                        law_closest_image(d, n - 1, j);
                    }
                }
            },
            _ => {},
        }
    }
}

/// A file is read to the end exactly where none of its entries is cut off, and what is
/// wrong with another is what is wrong with the first entry that is.
pub proof fn law_truncation_is_found(d: Seq<u8>, n: int, i: int)
    requires
        0 <= i < n,
        forall|j: int| 0 <= j < i ==> (#[trigger] entry(d, j)) is Other || entry(d, j) is Holds,
    ensures
        entry(d, i) is Truncated ==> scan(d, n) is Truncated,
        entry(d, i) is TruncatedPixels ==> scan(d, n) is TruncatedPixels,
        i == n - 1 && (entry(d, i) is Other || entry(d, i) is Holds) ==> scan(d, n) is Best,
    decreases n,
{
    if i < n - 1 {
        law_truncation_is_found(d, n - 1, i);
    } else if i > 0 {
        law_truncation_is_found(d, n - 1, i - 1);
    }
}

/// How far an image is from 24 pixels, either way.
pub proof fn law_distance_from_24(img: Image)
    ensures
        img.distance() == 0 <==> img.nominal == 24,
        img.nominal == 24 + img.distance() || img.nominal == 24 - img.distance(),
        img.distance() >= 0,
{
}

/// Two bytes hold a number, low byte first.
pub proof fn law_two_bytes(n: u16)
    ensures
        le16(n).len() == 2,
        le16(n)[0] + 256 * le16(n)[1] == n,
{
}

/// The configured theme is looked for in every configured directory, in order, and
/// without one in the system's.
pub proof fn law_theme_directories(path: Seq<char>, directory: Seq<char>)
    ensures
        theme_directories(None) == seq!["/usr/share/icons"@],
        theme_directories(Some(path)) == split(path, Separator::Char(':')),
        configured_arrow(directory).subrange(0, directory.len() as int) == directory,
        configured_arrow(directory).skip(directory.len() as int) == "/default/cursors/left_ptr"@,
{
    assert(configured_arrow(directory).subrange(0, directory.len() as int) =~= directory);
    assert(configured_arrow(directory).skip(directory.len() as int)
        =~= "/default/cursors/left_ptr"@);
}

/// A file is faulty for the first of four reasons that holds.
pub proof fn law_faults(d: Seq<u8>)
    ensures
        d.len() < 16 ==> fault(d) == "file too small"@ && !has_header(d),
        d.len() >= 16 && word(d, 0) != Some(0x7275_6358u32) ==> fault(d) == "bad magic"@
            && !has_header(d),
        d.len() >= 16 && word(d, 0) == Some(0x7275_6358u32) ==> has_header(d),
        has_header(d) && scan(d, word(d, 12)->0 as int) is Truncated ==> fault(d)
            == "truncated header/toc"@,
        has_header(d) && scan(d, word(d, 12)->0 as int) is TruncatedPixels ==> fault(d)
            == "truncated pixels"@,
{
}

} // verus!
