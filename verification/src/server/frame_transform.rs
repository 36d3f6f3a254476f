//! Orientation, padding and packing of raw frames.
//!
//! A frame is a sequence of rows of `stride` bytes; pixel `x` of a row starts
//! at byte `x * bpp` of the row.

use vstd::arithmetic::div_mod::lemma_fundamental_div_mod;
use vstd::arithmetic::div_mod::lemma_fundamental_div_mod_converse;
use vstd::arithmetic::mul::lemma_mul_inequality;
use vstd::prelude::*;

use crate::text::same_text;

verus! {

/// Byte `i` of row `y` is in row `y` and no other.
pub proof fn lemma_cell(y: int, stride: int, i: int)
    requires
        0 <= y,
        0 <= i < stride,
    ensures
        (y * stride + i) / stride == y,
        (y * stride + i) % stride == i,
{
    lemma_fundamental_div_mod_converse(y * stride + i, stride, y, i);
}

/// A row ends where the next one starts.
pub proof fn lemma_row_end(y: int, h: int, stride: int)
    requires
        0 <= y < h,
        0 <= stride,
    ensures
        0 <= y * stride,
        y * stride + stride == (y + 1) * stride,
        (y + 1) * stride <= h * stride,
        y * stride <= (h - 1) * stride,
        (h - 1) * stride + stride == h * stride,
{
    assert(0 <= y * stride) by (nonlinear_arith)
        requires
            0 <= y,
            0 <= stride,
    ;
    assert(y * stride + stride == (y + 1) * stride) by (nonlinear_arith);
    assert((h - 1) * stride + stride == h * stride) by (nonlinear_arith);
    lemma_mul_inequality(y + 1, h, stride);
    lemma_mul_inequality(y, h - 1, stride);
}

/// The rows in reverse order; bytes past the last row stay.
pub open spec fn rows_reversed(s: Seq<u8>, height: int, stride: int) -> Seq<u8> {
    Seq::new(
        s.len(),
        |k: int|
            if k < height * stride {
                s[(height - 1 - k / stride) * stride + k % stride]
            } else {
                s[k]
            },
    )
}

/// The pixels of each row in reverse order; bytes past the last pixel of a row stay.
pub open spec fn pixels_reversed(
    s: Seq<u8>,
    width: int,
    height: int,
    stride: int,
    bpp: int,
) -> Seq<u8> {
    Seq::new(
        s.len(),
        |k: int|
            if k < height * stride && k % stride < width * bpp {
                s[k / stride * stride + (width - 1 - k % stride / bpp) * bpp + k % stride % bpp]
            } else {
                s[k]
            },
    )
}

/// Rows become columns; the result is packed without padding.
pub open spec fn transposed(s: Seq<u8>, width: int, height: int, stride: int, bpp: int) -> Seq<u8> {
    Seq::new(
        (width * (height * bpp)) as nat,
        |k: int|
            s[k % (height * bpp) / bpp * stride + k / (height * bpp) * bpp + k % (height * bpp)
                % bpp],
    )
}

/// There is a row, and where there are more, `len` bytes hold them all.
pub open spec fn can_flip_vertical(len: int, height: int, stride: int) -> bool {
    height >= 1 && (height >= 2 ==> height * stride <= len)
}

/// Rows hold at least one pixel and fit their stride, and where there is
/// anything to exchange, `len` bytes hold the pixels of every row.
pub open spec fn can_flip_horizontal(
    len: int,
    width: int,
    height: int,
    stride: int,
    bpp: int,
) -> bool {
    height >= 1 ==> width >= 1 && width * bpp <= stride && (width >= 2 ==> (height - 1) * stride
        + width * bpp <= len)
}

/// `len` bytes hold the pixels of every row, and the result has a size that
/// the machine can hold.
pub open spec fn can_transpose(len: int, width: int, height: int, stride: int, bpp: int) -> bool {
    &&& width >= 1 && height >= 1 ==> (height - 1) * stride + width * bpp <= len
    &&& height * bpp <= u32::MAX
    &&& width * (height * bpp) <= usize::MAX
}

/// Reverses the order of the rows.
pub fn flip_vertical(data: &mut Vec<u8>, _width: u32, height: u32, stride: u32)
    requires
        can_flip_vertical(old(data)@.len() as int, height as int, stride as int),
    ensures
        final(data)@ == rows_reversed(old(data)@, height as int, stride as int),
{
    let ghost s = data@;
    let ghost want = rows_reversed(s, height as int, stride as int);
    if height == 1 {
        proof {
            assert forall|k: int| 0 <= k < s.len() implies want[k] == s[k] by {
                assert(height * stride == stride) by (nonlinear_arith)
                    requires
                        height == 1,
                ;
                if k < stride {
                    lemma_cell(0, stride as int, k);
                    assert((0 * stride + k) == k);
                    assert((height - 1 - k / stride as int) * stride == 0) by (nonlinear_arith)
                        requires
                            height == 1,
                            k / stride as int == 0,
                    ;
                }
            }
            assert(want =~= s);
        }
        return;
    }
    let h: usize = height as usize;
    let st: usize = stride as usize;
    let len: usize = data.len();
    let mut out: Vec<u8> = Vec::new();
    let mut y: usize = 0;
    while y < h
        invariant
            0 <= y <= h,
            h == height,
            st == stride,
            h >= 2,
            data@ == s,
            len == s.len(),
            h * st <= s.len(),
            want == rows_reversed(s, h as int, st as int),
            out@.len() == y * st,
            forall|k: int| 0 <= k < out@.len() ==> out@[k] == want[k],
        decreases h - y,
    {
        proof {
            lemma_row_end(y as int, h as int, st as int);
            lemma_row_end(h - 1 - y, h as int, st as int);
        }
        let start: usize = (h - 1 - y) * st;
        let mut i: usize = 0;
        while i < st
            invariant
                0 <= i <= st,
                0 <= y < h,
                h == height,
                st == stride,
                data@ == s,
                len == s.len(),
                h * st <= s.len(),
                y * st + st <= h * st,
                start == (h - 1 - y) * st,
                start + st <= h * st,
                want == rows_reversed(s, h as int, st as int),
                out@.len() == y * st + i,
                forall|k: int| 0 <= k < out@.len() ==> out@[k] == want[k],
            decreases st - i,
        {
            proof {
                lemma_cell(y as int, st as int, i as int);
                assert(want[y * st + i] == s[start + i]);
            }
            out.push(data[start + i]);
            i = i + 1;
        }
        y = y + 1;
    }
    let mut k: usize = out.len();
    while k < data.len()
        invariant
            h * st <= k <= s.len(),
            data@ == s,
            h == height,
            st == stride,
            want == rows_reversed(s, h as int, st as int),
            out@.len() == k,
            forall|j: int| 0 <= j < out@.len() ==> out@[j] == want[j],
        decreases s.len() - k,
    {
        out.push(data[k]);
        k = k + 1;
    }
    assert(out@ =~= want);
    *data = out;
}

/// Reverses the order of the pixels of each row.
pub fn flip_horizontal(data: &mut Vec<u8>, width: u32, height: u32, stride: u32, bpp: u32)
    requires
        can_flip_horizontal(
            old(data)@.len() as int,
            width as int,
            height as int,
            stride as int,
            bpp as int,
        ),
    ensures
        final(data)@ == pixels_reversed(
            old(data)@,
            width as int,
            height as int,
            stride as int,
            bpp as int,
        ),
{
    let ghost s = data@;
    let ghost want = pixels_reversed(
        s,
        width as int,
        height as int,
        stride as int,
        bpp as int,
    );
    if height == 0 || width == 1 || bpp == 0 {
        proof {
            assert forall|k: int| 0 <= k < s.len() implies want[k] == s[k] by {
                if k < height * stride && k % (stride as int) < width * bpp {
                    if height == 0 {
                        assert(height * stride == 0) by (nonlinear_arith)
                            requires
                                height == 0,
                        ;
                    } else if bpp == 0 {
                        assert(width * bpp == 0) by (nonlinear_arith)
                            requires
                                bpp == 0,
                        ;
                        assert(stride > 0) by (nonlinear_arith)
                            requires
                                0 <= k < height * stride,
                                stride >= 0,
                        ;
                    } else {
                        let i = k % (stride as int);
                        assert(width * bpp == bpp) by (nonlinear_arith)
                            requires
                                width == 1,
                        ;
                        assert(0 <= i < bpp);
                        lemma_cell(0, bpp as int, i);
                        assert(0 * bpp + i == i);
                        assert((width - 1 - i / bpp as int) * bpp == 0) by (nonlinear_arith)
                            requires
                                width == 1,
                                i / bpp as int == 0,
                        ;
                        lemma_fundamental_div_mod(k, stride as int);
                        assert(k / stride as int * stride == stride * (k / stride as int))
                            by (nonlinear_arith);
                    }
                }
            }
            assert(want =~= s);
        }
        return;
    }
    let w: usize = width as usize;
    let h: usize = height as usize;
    let st: usize = stride as usize;
    let bp: usize = bpp as usize;
    let len: usize = data.len();
    let mut out: Vec<u8> = Vec::new();
    let mut y: usize = 0;
    let mut start: usize = 0;
    assert(start == 0 * st);
    while y < h
        invariant
            0 <= y <= h,
            h == height,
            w == width,
            st == stride,
            bp == bpp,
            w >= 2,
            bp >= 1,
            w * bp <= st,
            len == s.len(),
            data@ == s,
            (h - 1) * st + w * bp <= s.len(),
            want == pixels_reversed(s, w as int, h as int, st as int, bp as int),
            y < h ==> start == y * st && out@.len() == start,
            y == h ==> out@.len() == len || out@.len() == h * st,
            out@.len() <= len,
            forall|k: int| 0 <= k < out@.len() ==> out@[k] == want[k],
        decreases h - y,
    {
        proof {
            lemma_row_end(y as int, h as int, st as int);
        }
        let mut x: usize = 0;
        while x < w
            invariant
                0 <= x <= w,
                0 <= y < h,
                h == height,
                w == width,
                st == stride,
                bp == bpp,
                w >= 2,
                bp >= 1,
                w * bp <= st,
                len == s.len(),
                data@ == s,
                start == y * st,
                start + st <= h * st,
                start + w * bp <= s.len(),
                want == pixels_reversed(s, w as int, h as int, st as int, bp as int),
                out@.len() == start + x * bp,
                forall|k: int| 0 <= k < out@.len() ==> out@[k] == want[k],
            decreases w - x,
        {
            proof {
                lemma_row_end(x as int, w as int, bp as int);
                lemma_row_end(w - 1 - x, w as int, bp as int);
            }
            let from: usize = start + (w - 1 - x) * bp;
            let mut b: usize = 0;
            while b < bp
                invariant
                    0 <= b <= bp,
                    0 <= x < w,
                    0 <= y < h,
                    h == height,
                    w == width,
                    st == stride,
                    bp == bpp,
                    bp >= 1,
                    w * bp <= st,
                    data@ == s,
                    len == s.len(),
                    start == y * st,
                    start + st <= h * st,
                    start + w * bp <= s.len(),
                    0 <= x * bp,
                    x * bp + bp <= w * bp,
                    from == start + (w - 1 - x) * bp,
                    from + bp <= start + w * bp,
                    want == pixels_reversed(s, w as int, h as int, st as int, bp as int),
                    out@.len() == start + x * bp + b,
                    forall|k: int| 0 <= k < out@.len() ==> out@[k] == want[k],
                decreases bp - b,
            {
                proof {
                    lemma_cell(y as int, st as int, x * bp + b);
                    lemma_cell(x as int, bp as int, b as int);
                    assert(want[y * st + (x * bp + b)] == s[from + b]);
                }
                out.push(data[from + b]);
                b = b + 1;
            }
            x = x + 1;
        }
        let mut k: usize = out.len();
        while k < len && k - start < st
            invariant
                start + w * bp <= k <= len,
                k <= start + st,
                0 <= y < h,
                h == height,
                w == width,
                st == stride,
                bp == bpp,
                len == s.len(),
                data@ == s,
                start == y * st,
                start + st <= h * st,
                want == pixels_reversed(s, w as int, h as int, st as int, bp as int),
                out@.len() == k,
                forall|j: int| 0 <= j < out@.len() ==> out@[j] == want[j],
            decreases len - k,
        {
            proof {
                lemma_cell(y as int, st as int, k - start);
            }
            out.push(data[k]);
            k = k + 1;
        }
        proof {
            if y + 1 < h {
                lemma_row_end((y + 1) as int, h as int, st as int);
                assert(0 <= w * bp) by (nonlinear_arith);
            }
        }
        if y + 1 < h {
            start = start + st;
        }
        y = y + 1;
    }
    let mut k: usize = out.len();
    while k < len
        invariant
            k == len || h * st <= k,
            k <= len,
            len == s.len(),
            data@ == s,
            h == height,
            w == width,
            st == stride,
            bp == bpp,
            want == pixels_reversed(s, w as int, h as int, st as int, bp as int),
            out@.len() == k,
            forall|j: int| 0 <= j < out@.len() ==> out@[j] == want[j],
        decreases len - k,
    {
        out.push(data[k]);
        k = k + 1;
    }
    assert(out@ =~= want);
    *data = out;
}

/// Turns rows into columns. Returns the packed result and its stride.
pub fn transpose(data: &Vec<u8>, width: u32, height: u32, stride: u32, bpp: u32) -> (r: (
    Vec<u8>,
    u32,
))
    requires
        can_transpose(
            data@.len() as int,
            width as int,
            height as int,
            stride as int,
            bpp as int,
        ),
    ensures
        r.0@ == transposed(data@, width as int, height as int, stride as int, bpp as int),
        r.1 == height * bpp,
{
    let ghost s = data@;
    let w: usize = width as usize;
    let h: usize = height as usize;
    let st: usize = stride as usize;
    let bp: usize = bpp as usize;
    let ghost want = transposed(s, w as int, h as int, st as int, bp as int);
    proof {
        assert(0 <= h * bp) by (nonlinear_arith)
            requires
                h >= 0,
                bp >= 0,
        ;
        assert(0 <= w * (h * bp)) by (nonlinear_arith)
            requires
                w >= 0,
                0 <= h * bp,
        ;
    }
    let new_stride: usize = h * bp;
    let len: usize = data.len();
    let mut out: Vec<u8> = Vec::new();
    let mut x: usize = 0;
    assert(0 * new_stride == 0);
    while x < w
        invariant
            0 <= x <= w,
            w == width,
            h == height,
            st == stride,
            bp == bpp,
            new_stride == h * bp,
            w * new_stride <= usize::MAX,
            data@ == s,
            len == s.len(),
            w >= 1 && h >= 1 ==> (h - 1) * st + w * bp <= len,
            want == transposed(s, w as int, h as int, st as int, bp as int),
            want.len() == w * new_stride,
            out@.len() == x * new_stride,
            forall|k: int| 0 <= k < out@.len() ==> out@[k] == want[k],
        decreases w - x,
    {
        proof {
            lemma_row_end(x as int, w as int, new_stride as int);
        }
        let mut y: usize = 0;
        assert(0 * bp == 0);
        while y < h
            invariant
                0 <= y <= h,
                0 <= x < w,
                w == width,
                h == height,
                st == stride,
                bp == bpp,
                new_stride == h * bp,
                0 <= x * new_stride,
                x * new_stride + new_stride <= w * new_stride,
                data@ == s,
                len == s.len(),
                w >= 1 && h >= 1 ==> (h - 1) * st + w * bp <= len,
                want == transposed(s, w as int, h as int, st as int, bp as int),
                want.len() == w * new_stride,
                out@.len() == x * new_stride + y * bp,
                forall|k: int| 0 <= k < out@.len() ==> out@[k] == want[k],
            decreases h - y,
        {
            proof {
                lemma_row_end(y as int, h as int, st as int);
                lemma_row_end(x as int, w as int, bp as int);
                lemma_row_end(y as int, h as int, bp as int);
            }
            let from: usize = y * st + x * bp;
            let mut b: usize = 0;
            while b < bp
                invariant
                    0 <= b <= bp,
                    0 <= y < h,
                    0 <= x < w,
                    w == width,
                    h == height,
                    st == stride,
                    bp == bpp,
                    new_stride == h * bp,
                    0 <= x * new_stride,
                    x * new_stride + new_stride <= w * new_stride,
                    0 <= y * bp,
                    y * bp + bp <= h * bp,
                    data@ == s,
                    len == s.len(),
                    from == y * st + x * bp,
                    from + bp <= len,
                    want == transposed(s, w as int, h as int, st as int, bp as int),
                    want.len() == w * new_stride,
                    out@.len() == x * new_stride + y * bp + b,
                    forall|k: int| 0 <= k < out@.len() ==> out@[k] == want[k],
                decreases bp - b,
            {
                proof {
                    lemma_cell(x as int, new_stride as int, y * bp + b);
                    lemma_cell(y as int, bp as int, b as int);
                    assert(want[x * new_stride + (y * bp + b)] == s[from + b]);
                }
                out.push(data[from + b]);
                b = b + 1;
            }
            y = y + 1;
        }
        x = x + 1;
    }
    assert(out@ =~= want);
    (out, new_stride as u32)
}

/// The transform in force: the configured one, or the one that came with the
/// frame where the configuration says `auto` or nothing known.
///
/// The numbers are those of the capture protocol: quarter turns 0 to 3, then the same
/// four with a horizontal flip behind them.
pub open spec fn transform_for(config: Seq<char>, pw_transform: u32) -> u32 {
    if config == "none"@ {
        0
    } else if config == "90"@ {
        1
    } else if config == "180"@ {
        2
    } else if config == "270"@ {
        3
    } else if config == "flipped"@ {
        4
    } else if config == "flipped-90"@ {
        5
    } else if config == "flipped-180"@ {
        6
    } else if config == "flipped-270"@ {
        7
    } else {
        pw_transform
    }
}

/// The nine names are nine different ones.
proof fn lemma_transform_names()
    ensures
        ({
            let names = seq![
                "none"@,
                "90"@,
                "180"@,
                "270"@,
                "flipped"@,
                "flipped-90"@,
                "flipped-180"@,
                "flipped-270"@,
                "auto"@,
            ];
            &&& names[0] == "none"@ && names[1] == "90"@ && names[2] == "180"@
            &&& names[3] == "270"@ && names[4] == "flipped"@ && names[5] == "flipped-90"@
            &&& names[6] == "flipped-180"@ && names[7] == "flipped-270"@ && names[8] == "auto"@
            &&& forall|i: int, j: int| 0 <= i < j < 9 ==> #[trigger] names[i] != #[trigger] names[j]
        }),
{
    reveal_strlit("auto");
    reveal_strlit("none");
    reveal_strlit("90");
    reveal_strlit("180");
    reveal_strlit("270");
    reveal_strlit("flipped");
    reveal_strlit("flipped-90");
    reveal_strlit("flipped-180");
    reveal_strlit("flipped-270");
    assert("none"@.len() == 4 && "90"@.len() == 2 && "180"@.len() == 3 && "270"@.len() == 3);
    assert("flipped"@.len() == 7 && "flipped-90"@.len() == 10 && "auto"@.len() == 4);
    assert("flipped-180"@.len() == 11 && "flipped-270"@.len() == 11);
    assert("auto"@[0] != "none"@[0]);
    assert("180"@[0] != "270"@[0]);
    assert("flipped-180"@[8] != "flipped-270"@[8]);
}

/// The transform in force; a configured one overrides the frame's own.
pub fn resolve_transform(config_value: &str, pw_transform: u32) -> (r: u32)
    ensures
        r == transform_for(config_value@, pw_transform),
        config_value@ == "auto"@ ==> r == pw_transform,
        config_value@ == "none"@ ==> r == 0,
        config_value@ == "90"@ ==> r == 1,
        config_value@ == "180"@ ==> r == 2,
        config_value@ == "270"@ ==> r == 3,
        config_value@ == "flipped"@ ==> r == 4,
        config_value@ == "flipped-90"@ ==> r == 5,
        config_value@ == "flipped-180"@ ==> r == 6,
        config_value@ == "flipped-270"@ ==> r == 7,
{
    proof {
        lemma_transform_names();
    }
    if same_text(config_value, "none") {
        0
    } else if same_text(config_value, "90") {
        1
    } else if same_text(config_value, "180") {
        2
    } else if same_text(config_value, "270") {
        3
    } else if same_text(config_value, "flipped") {
        4
    } else if same_text(config_value, "flipped-90") {
        5
    } else if same_text(config_value, "flipped-180") {
        6
    } else if same_text(config_value, "flipped-270") {
        7
    } else {
        pw_transform
    }
}

/// The transform to apply to a frame: a bottom-up frame that needs no other is
/// flipped vertically.
pub fn effective_transform(config_value: &str, pw_transform: u32, bottom_up: bool) -> (r: u32)
    ensures
        r == (if transform_for(config_value@, pw_transform) == 0 && bottom_up {
            6
        } else {
            transform_for(config_value@, pw_transform)
        }),
{
    let transform: u32 = resolve_transform(config_value, pw_transform);
    if transform == 0 && bottom_up {
        6
    } else {
        transform
    }
}

/// The frame can be transformed: its bytes hold what the transform reads.
pub open spec fn can_transform(
    len: int,
    width: int,
    height: int,
    stride: int,
    transform: int,
    bpp: int,
) -> bool {
    if transform == 2 {
        can_flip_vertical(len, height, stride) && can_flip_horizontal(
            len,
            width,
            height,
            stride,
            bpp,
        )
    } else if transform == 4 {
        can_flip_horizontal(len, width, height, stride, bpp)
    } else if transform == 6 {
        height * stride <= len
    } else if transform == 1 {
        can_transpose(len, width, height, stride, bpp) && (width >= 1 ==> height >= 1)
    } else if transform == 3 {
        can_transpose(len, width, height, stride, bpp) && width >= 1
    } else if transform == 5 {
        can_transpose(len, width, height, stride, bpp)
    } else if transform == 7 {
        can_transpose(len, width, height, stride, bpp) && (height >= 1 ==> width >= 1)
    } else {
        true
    }
}

/// The bytes of a transformed frame.
pub open spec fn transformed(
    s: Seq<u8>,
    width: int,
    height: int,
    stride: int,
    transform: int,
    bpp: int,
) -> Seq<u8> {
    if transform == 1 {
        pixels_reversed(
            transposed(s, width, height, stride, bpp),
            height,
            width,
            height * bpp,
            bpp,
        )
    } else if transform == 2 {
        pixels_reversed(rows_reversed(s, height, stride), width, height, stride, bpp)
    } else if transform == 3 {
        rows_reversed(transposed(s, width, height, stride, bpp), width, height * bpp)
    } else if transform == 4 {
        pixels_reversed(s, width, height, stride, bpp)
    } else if transform == 5 {
        transposed(s, width, height, stride, bpp)
    } else if transform == 6 {
        rows_reversed(s, height, stride).take(height * stride)
    } else if transform == 7 {
        pixels_reversed(
            rows_reversed(transposed(s, width, height, stride, bpp), width, height * bpp),
            height,
            width,
            height * bpp,
            bpp,
        )
    } else {
        s
    }
}

/// The transform exchanges width and height.
pub open spec fn swaps_axes(transform: int) -> bool {
    transform == 1 || transform == 3 || transform == 5 || transform == 7
}

fn copy_bytes(data: &Vec<u8>) -> (r: Vec<u8>)
    ensures
        r@ == data@,
{
    vstd::slice::slice_to_vec(data.as_slice())
}

proof fn lemma_transposed_shape(width: int, height: int, bpp: int)
    requires
        width >= 1,
        height >= 0,
        bpp >= 0,
    ensures
        0 <= height * bpp,
        (width - 1) * (height * bpp) + height * bpp == width * (height * bpp),
{
    assert(0 <= height * bpp) by (nonlinear_arith)
        requires
            height >= 0,
            bpp >= 0,
    ;
    lemma_row_end(width - 1, width, height * bpp);
}

/// Applies a transform. Returns the bytes with the new width, height and stride.
///
/// An unknown transform leaves the frame as it is.
pub fn apply_frame_transform(
    data: &Vec<u8>,
    width: u32,
    height: u32,
    stride: u32,
    transform: u32,
    bpp: u32,
) -> (r: (Vec<u8>, u32, u32, u32))
    requires
        can_transform(
            data@.len() as int,
            width as int,
            height as int,
            stride as int,
            transform as int,
            bpp as int,
        ),
    ensures
        r.0@ == transformed(
            data@,
            width as int,
            height as int,
            stride as int,
            transform as int,
            bpp as int,
        ),
        swaps_axes(transform as int) ==> r.1 == height && r.2 == width && r.3 == height * bpp,
        !swaps_axes(transform as int) ==> r.1 == width && r.2 == height && r.3 == stride,
{
    if transform == 2 {
        let mut buf = copy_bytes(data);
        flip_vertical(&mut buf, width, height, stride);
        flip_horizontal(&mut buf, width, height, stride, bpp);
        (buf, width, height, stride)
    } else if transform == 4 {
        let mut buf = copy_bytes(data);
        flip_horizontal(&mut buf, width, height, stride, bpp);
        (buf, width, height, stride)
    } else if transform == 6 {
        let mut buf = copy_bytes(data);
        let len: usize = data.len();
        assert(height * stride <= len);
        let end: usize = (height as usize) * (stride as usize);
        if height > 0 {
            flip_vertical(&mut buf, width, height, stride);
        }
        assert(height == 0 ==> buf@ =~= rows_reversed(data@, height as int, stride as int)) by {
            assert(height == 0 ==> height * stride == 0) by (nonlinear_arith);
        }
        buf.truncate(end);
        assert(buf@ =~= rows_reversed(data@, height as int, stride as int).take(
            height * stride,
        ));
        (buf, width, height, stride)
    } else if transform == 1 {
        let (transposed_bytes, new_stride) = transpose(data, width, height, stride, bpp);
        let mut buf = transposed_bytes;
        proof {
            if width >= 1 {
                lemma_transposed_shape(width as int, height as int, bpp as int);
            }
        }
        flip_horizontal(&mut buf, height, width, new_stride, bpp);
        (buf, height, width, new_stride)
    } else if transform == 3 {
        let (transposed_bytes, new_stride) = transpose(data, width, height, stride, bpp);
        let mut buf = transposed_bytes;
        proof {
            lemma_transposed_shape(width as int, height as int, bpp as int);
        }
        flip_vertical(&mut buf, height, width, new_stride);
        (buf, height, width, new_stride)
    } else if transform == 5 {
        let (transposed_bytes, new_stride) = transpose(data, width, height, stride, bpp);
        (transposed_bytes, height, width, new_stride)
    } else if transform == 7 {
        let (transposed_bytes, new_stride) = transpose(data, width, height, stride, bpp);
        let mut buf = transposed_bytes;
        if height >= 1 {
            proof {
                lemma_transposed_shape(width as int, height as int, bpp as int);
            }
            flip_vertical(&mut buf, height, width, new_stride);
            flip_horizontal(&mut buf, height, width, new_stride, bpp);
        } else {
            proof {
                assert(width * (height * bpp) == 0) by (nonlinear_arith)
                    requires
                        height == 0,
                ;
                assert(buf@ =~= transformed(
                    data@,
                    width as int,
                    height as int,
                    stride as int,
                    7,
                    bpp as int,
                ));
            }
        }
        (buf, height, width, new_stride)
    } else {
        (copy_bytes(data), width, height, stride)
    }
}

/// The pixel of the source frame that pixel `(x, y)` of the transformed frame shows.
pub open spec fn source_pixel(
    transform: int,
    width: int,
    height: int,
    x: int,
    y: int,
) -> (int, int) {
    if transform == 1 {
        (y, height - 1 - x)
    } else if transform == 2 {
        (width - 1 - x, height - 1 - y)
    } else if transform == 3 {
        (width - 1 - y, x)
    } else if transform == 4 {
        (width - 1 - x, y)
    } else if transform == 5 {
        (y, x)
    } else if transform == 6 {
        (x, height - 1 - y)
    } else if transform == 7 {
        (width - 1 - y, height - 1 - x)
    } else {
        (x, y)
    }
}

/// Byte `b` of pixel `(x, y)`.
pub open spec fn pixel_byte(s: Seq<u8>, stride: int, bpp: int, x: int, y: int, b: int) -> u8 {
    s[y * stride + x * bpp + b]
}

/// A frame of whole rows.
pub open spec fn whole_frame(len: int, width: int, height: int, stride: int, bpp: int) -> bool {
    width >= 1 && height >= 1 && bpp >= 1 && width * bpp <= stride && height * stride <= len
}

proof fn lemma_pixel_offset(
    width: int,
    height: int,
    stride: int,
    bpp: int,
    x: int,
    y: int,
    b: int,
)
    requires
        0 <= x < width,
        0 <= y < height,
        0 <= b < bpp,
        width * bpp <= stride,
    ensures
        0 <= x * bpp + b < width * bpp,
        0 <= y * stride + x * bpp + b < height * stride,
        (y * stride + x * bpp + b) / stride == y,
        (y * stride + x * bpp + b) % stride == x * bpp + b,
        (x * bpp + b) / bpp == x,
        (x * bpp + b) % bpp == b,
{
    lemma_row_end(x, width, bpp);
    lemma_row_end(y, height, stride);
    lemma_cell(y, stride, x * bpp + b);
    lemma_cell(x, bpp, b);
    assert(y * stride + (x * bpp + b) == y * stride + x * bpp + b);
}

proof fn lemma_rows_reversed_pixel(
    s: Seq<u8>,
    width: int,
    height: int,
    stride: int,
    bpp: int,
    x: int,
    y: int,
    b: int,
)
    requires
        0 <= x < width,
        0 <= y < height,
        0 <= b < bpp,
        width * bpp <= stride,
        height * stride <= s.len(),
    ensures
        pixel_byte(rows_reversed(s, height, stride), stride, bpp, x, y, b) == pixel_byte(
            s,
            stride,
            bpp,
            x,
            height - 1 - y,
            b,
        ),
{
    lemma_pixel_offset(width, height, stride, bpp, x, y, b);
    assert((height - 1 - y) * stride + (x * bpp + b) == (height - 1 - y) * stride + x * bpp + b);
}

proof fn lemma_pixels_reversed_pixel(
    s: Seq<u8>,
    width: int,
    height: int,
    stride: int,
    bpp: int,
    x: int,
    y: int,
    b: int,
)
    requires
        0 <= x < width,
        0 <= y < height,
        0 <= b < bpp,
        width * bpp <= stride,
        height * stride <= s.len(),
    ensures
        pixel_byte(pixels_reversed(s, width, height, stride, bpp), stride, bpp, x, y, b)
            == pixel_byte(s, stride, bpp, width - 1 - x, y, b),
{
    lemma_pixel_offset(width, height, stride, bpp, x, y, b);
}

proof fn lemma_transposed_pixel(
    s: Seq<u8>,
    width: int,
    height: int,
    stride: int,
    bpp: int,
    x: int,
    y: int,
    b: int,
)
    requires
        0 <= x < height,
        0 <= y < width,
        0 <= b < bpp,
    ensures
        pixel_byte(transposed(s, width, height, stride, bpp), height * bpp, bpp, x, y, b)
            == pixel_byte(s, stride, bpp, y, x, b),
        transposed(s, width, height, stride, bpp).len() == width * (height * bpp),
{
    lemma_pixel_offset(height, width, height * bpp, bpp, x, y, b);
    lemma_row_end(y, width, height * bpp);
}

/// Each pixel of a transformed frame is the pixel of the source frame that the
/// transform puts there.
pub proof fn law_transform_pixels(
    s: Seq<u8>,
    width: int,
    height: int,
    stride: int,
    transform: int,
    bpp: int,
    x: int,
    y: int,
    b: int,
)
    requires
        whole_frame(s.len() as int, width, height, stride, bpp),
        0 <= b < bpp,
        0 <= x < (if swaps_axes(transform) {
            height
        } else {
            width
        }),
        0 <= y < (if swaps_axes(transform) {
            width
        } else {
            height
        }),
    ensures
        pixel_byte(
            transformed(s, width, height, stride, transform, bpp),
            if swaps_axes(transform) {
                height * bpp
            } else {
                stride
            },
            bpp,
            x,
            y,
            b,
        ) == pixel_byte(
            s,
            stride,
            bpp,
            source_pixel(transform, width, height, x, y).0,
            source_pixel(transform, width, height, x, y).1,
            b,
        ),
{
    if transform == 1 {
        let t = transposed(s, width, height, stride, bpp);
        lemma_transposed_pixel(s, width, height, stride, bpp, height - 1 - x, y, b);
        lemma_pixels_reversed_pixel(t, height, width, height * bpp, bpp, x, y, b);
    } else if transform == 2 {
        let t = rows_reversed(s, height, stride);
        lemma_rows_reversed_pixel(s, width, height, stride, bpp, width - 1 - x, y, b);
        lemma_pixels_reversed_pixel(t, width, height, stride, bpp, x, y, b);
    } else if transform == 3 {
        let t = transposed(s, width, height, stride, bpp);
        lemma_transposed_pixel(s, width, height, stride, bpp, x, width - 1 - y, b);
        lemma_rows_reversed_pixel(t, height, width, height * bpp, bpp, x, y, b);
    } else if transform == 4 {
        lemma_pixels_reversed_pixel(s, width, height, stride, bpp, x, y, b);
    } else if transform == 5 {
        lemma_transposed_pixel(s, width, height, stride, bpp, x, y, b);
    } else if transform == 6 {
        lemma_rows_reversed_pixel(s, width, height, stride, bpp, x, y, b);
        lemma_pixel_offset(width, height, stride, bpp, x, y, b);
    } else if transform == 7 {
        let t = transposed(s, width, height, stride, bpp);
        let r = rows_reversed(t, width, height * bpp);
        lemma_transposed_pixel(s, width, height, stride, bpp, height - 1 - x, width - 1 - y, b);
        lemma_rows_reversed_pixel(t, height, width, height * bpp, bpp, height - 1 - x, y, b);
        lemma_pixels_reversed_pixel(r, height, width, height * bpp, bpp, x, y, b);
    }
}

/// The eight transforms are eight different ones: on a frame of at least two by two
/// pixels, any two of them show different pixels in one of two places.
pub proof fn law_transforms_differ(one: int, other: int, width: int, height: int)
    requires
        0 <= one <= 7,
        0 <= other <= 7,
        one != other,
        width >= 2,
        height >= 2,
    ensures
        source_pixel(one, width, height, 0, 0) != source_pixel(other, width, height, 0, 0)
            || source_pixel(one, width, height, 1, 0) != source_pixel(other, width, height, 1, 0),
{
}

/// The last four transforms are the first four with a horizontal flip behind them.
pub proof fn law_flipped_transforms(turn: int, width: int, height: int, x: int, y: int)
    requires
        0 <= turn <= 3,
    ensures
        swaps_axes(turn + 4) == swaps_axes(turn),
        source_pixel(turn + 4, width, height, x, y) == source_pixel(
            turn,
            width,
            height,
            (if swaps_axes(turn) {
                height
            } else {
                width
            }) - 1 - x,
            y,
        ),
{
}

/// A half turn, a flip or a transposition undoes itself, and the two quarter
/// turns undo each other: pixel for pixel, the source of the source is the
/// pixel itself.
pub proof fn law_transform_undone(transform: int, width: int, height: int, x: int, y: int)
    requires
        0 <= x < width,
        0 <= y < height,
        0 <= transform <= 7,
    ensures
        ({
            let undo = if transform == 1 {
                3
            } else if transform == 3 {
                1
            } else {
                transform
            };
            let (w, h) = if swaps_axes(transform) {
                (height, width)
            } else {
                (width, height)
            };
            let (mx, my) = source_pixel(undo, w, h, x, y);
            source_pixel(transform, width, height, mx, my) == (x, y)
        }),
{
}

/// Reversing the rows twice changes no byte.
pub proof fn law_flip_vertical_twice(s: Seq<u8>, height: int, stride: int)
    requires
        height >= 1,
        stride >= 0,
        height * stride <= s.len(),
    ensures
        rows_reversed(rows_reversed(s, height, stride), height, stride) == s,
{
    let once = rows_reversed(s, height, stride);
    let twice = rows_reversed(once, height, stride);
    assert forall|k: int| 0 <= k < s.len() implies twice[k] == s[k] by {
        if k < height * stride {
            assert(stride > 0) by (nonlinear_arith)
                requires
                    0 <= k < height * stride,
                    stride >= 0,
            ;
            let y = k / stride;
            let i = k % stride;
            lemma_fundamental_div_mod(k, stride);
            assert(stride * y == y * stride) by (nonlinear_arith);
            assert(0 <= y < height) by (nonlinear_arith)
                requires
                    0 <= k < height * stride,
                    k == y * stride + i,
                    0 <= i < stride,
            ;
            lemma_cell(height - 1 - y, stride, i);
            lemma_row_end(height - 1 - y, height, stride);
        }
    }
    assert(twice =~= s);
}

/// Reversing the pixels of each row twice changes no byte.
pub proof fn law_flip_horizontal_twice(
    s: Seq<u8>,
    width: int,
    height: int,
    stride: int,
    bpp: int,
)
    requires
        whole_frame(s.len() as int, width, height, stride, bpp),
    ensures
        pixels_reversed(
            pixels_reversed(s, width, height, stride, bpp),
            width,
            height,
            stride,
            bpp,
        ) == s,
{
    let once = pixels_reversed(s, width, height, stride, bpp);
    let twice = pixels_reversed(once, width, height, stride, bpp);
    assert forall|k: int| 0 <= k < s.len() implies twice[k] == s[k] by {
        if k < height * stride && k % stride < width * bpp {
            let y = k / stride;
            let i = k % stride;
            assert(stride >= 1) by (nonlinear_arith)
                requires
                    width >= 1,
                    bpp >= 1,
                    width * bpp <= stride,
            ;
            lemma_fundamental_div_mod(k, stride);
            assert(stride * y == y * stride) by (nonlinear_arith);
            assert(0 <= y < height) by (nonlinear_arith)
                requires
                    0 <= k < height * stride,
                    k == y * stride + i,
                    0 <= i < stride,
            ;
            let x = i / bpp;
            let b = i % bpp;
            lemma_fundamental_div_mod(i, bpp);
            assert(bpp * x == x * bpp) by (nonlinear_arith);
            assert(0 <= x < width) by (nonlinear_arith)
                requires
                    0 <= i < width * bpp,
                    i == x * bpp + b,
                    0 <= b < bpp,
            ;
            lemma_pixels_reversed_pixel(once, width, height, stride, bpp, x, y, b);
            lemma_pixels_reversed_pixel(s, width, height, stride, bpp, width - 1 - x, y, b);
        }
    }
    assert(twice =~= s);
}

/// A frame enlarged to `aligned_width` by `aligned_height` pixels of four bytes
/// by repeating its last column and its last row.
pub open spec fn padded(
    s: Seq<u8>,
    width: int,
    height: int,
    aligned_width: int,
    aligned_height: int,
) -> Seq<u8> {
    Seq::new(
        (aligned_height * (aligned_width * 4)) as nat,
        |k: int|
            {
                let y = k / (aligned_width * 4);
                let x = k % (aligned_width * 4) / 4;
                let sy = if y < height {
                    y
                } else {
                    height - 1
                };
                let sx = if x < width {
                    x
                } else {
                    width - 1
                };
                s[sy * (width * 4) + sx * 4 + k % (aligned_width * 4) % 4]
            },
    )
}

proof fn lemma_padded_byte(
    s: Seq<u8>,
    width: int,
    height: int,
    aligned_width: int,
    aligned_height: int,
    x: int,
    y: int,
    c: int,
)
    requires
        0 <= x < aligned_width,
        0 <= y < aligned_height,
        0 <= c < 4,
    ensures
        ({
            let sy = if y < height {
                y
            } else {
                height - 1
            };
            let sx = if x < width {
                x
            } else {
                width - 1
            };
            padded(s, width, height, aligned_width, aligned_height)[y * (aligned_width * 4) + (x
                * 4 + c)] == s[sy * (width * 4) + sx * 4 + c]
        }),
{
    let stride = aligned_width * 4;
    lemma_row_end(y, aligned_height, stride);
    lemma_cell(y, stride, x * 4 + c);
    assert((x * 4 + c) / 4 == x);
    assert((x * 4 + c) % 4 == c);
}

/// Enlarges a frame by repeating its edge pixels.
pub fn pad_frame_to_aligned(
    data: &Vec<u8>,
    width: u32,
    height: u32,
    aligned_width: u32,
    aligned_height: u32,
) -> (r: Vec<u8>)
    requires
        1 <= width <= aligned_width,
        1 <= height <= aligned_height,
        aligned_height * (aligned_width * 4) <= u32::MAX,
        height * (width * 4) <= data@.len(),
    ensures
        r@ == padded(
            data@,
            width as int,
            height as int,
            aligned_width as int,
            aligned_height as int,
        ),
{
    let ghost s = data@;
    let w: usize = width as usize;
    let h: usize = height as usize;
    let aw: usize = aligned_width as usize;
    let ah: usize = aligned_height as usize;
    let ghost want = padded(s, w as int, h as int, aw as int, ah as int);
    let len: usize = data.len();
    proof {
        lemma_row_end(0, ah as int, aw as int * 4);
        assert(aw * 4 <= ah * (aw * 4)) by (nonlinear_arith)
            requires
                ah >= 1,
                aw >= 1,
        ;
    }
    let dst_stride: usize = aw * 4;
    let src_stride: usize = w * 4;
    let mut out: Vec<u8> = Vec::new();
    let mut y: usize = 0;
    assert(0 * dst_stride == 0);
    while y < ah
        invariant
            0 <= y <= ah,
            1 <= w <= aw,
            1 <= h <= ah,
            dst_stride == aw * 4,
            src_stride == w * 4,
            ah * dst_stride <= u32::MAX,
            h * src_stride <= len,
            data@ == s,
            len == s.len(),
            want == padded(s, w as int, h as int, aw as int, ah as int),
            want.len() == ah * dst_stride,
            out@.len() == y * dst_stride,
            forall|k: int| 0 <= k < out@.len() ==> out@[k] == want[k],
        decreases ah - y,
    {
        let sy: usize = if y < h { y } else { h - 1 };
        proof {
            lemma_row_end(y as int, ah as int, dst_stride as int);
            lemma_row_end(sy as int, h as int, src_stride as int);
        }
        let row: usize = sy * src_stride;
        let mut x: usize = 0;
        while x < aw
            invariant
                0 <= x <= aw,
                0 <= y < ah,
                1 <= w <= aw,
                1 <= h <= ah,
                dst_stride == aw * 4,
                src_stride == w * 4,
                sy == (if y < h {
                    y as int
                } else {
                    h - 1
                }),
                row == sy * src_stride,
                row + src_stride <= len,
                0 <= y * dst_stride,
                y * dst_stride + dst_stride <= ah * dst_stride,
                data@ == s,
                len == s.len(),
                want == padded(s, w as int, h as int, aw as int, ah as int),
                want.len() == ah * dst_stride,
                out@.len() == y * dst_stride + x * 4,
                forall|k: int| 0 <= k < out@.len() ==> out@[k] == want[k],
            decreases aw - x,
        {
            let sx: usize = if x < w { x } else { w - 1 };
            let from: usize = row + sx * 4;
            proof {
                lemma_padded_byte(s, w as int, h as int, aw as int, ah as int, x as int, y as int, 0);
                lemma_padded_byte(s, w as int, h as int, aw as int, ah as int, x as int, y as int, 1);
                lemma_padded_byte(s, w as int, h as int, aw as int, ah as int, x as int, y as int, 2);
                lemma_padded_byte(s, w as int, h as int, aw as int, ah as int, x as int, y as int, 3);
                assert(want[y * dst_stride + (x * 4 + 0)] == s[from as int]);
                assert(want[y * dst_stride + (x * 4 + 1)] == s[from + 1]);
                assert(want[y * dst_stride + (x * 4 + 2)] == s[from + 2]);
                assert(want[y * dst_stride + (x * 4 + 3)] == s[from + 3]);
            }
            out.push(data[from]);
            out.push(data[from + 1]);
            out.push(data[from + 2]);
            out.push(data[from + 3]);
            x = x + 1;
        }
        y = y + 1;
    }
    assert(out@ =~= want);
    out
}

/// Padding keeps every pixel of the frame where it was.
pub proof fn law_padding_keeps_pixels(
    s: Seq<u8>,
    width: int,
    height: int,
    aligned_width: int,
    aligned_height: int,
    x: int,
    y: int,
    b: int,
)
    requires
        1 <= width <= aligned_width,
        1 <= height <= aligned_height,
        0 <= x < width,
        0 <= y < height,
        0 <= b < 4,
    ensures
        pixel_byte(
            padded(s, width, height, aligned_width, aligned_height),
            aligned_width * 4,
            4,
            x,
            y,
            b,
        ) == pixel_byte(s, width * 4, 4, x, y, b),
{
    lemma_pixel_offset(aligned_width, aligned_height, aligned_width * 4, 4, x, y, b);
}

/// A configured transform is the one of its name, whatever the frame says of itself: none,
/// the three turns, the flip, and the three turns with it. Anything else leaves it to the
/// frame.
pub proof fn law_configured_transform(config: Seq<char>, reported: u32)
    ensures
        transform_for("none"@, reported) == 0,
        transform_for("90"@, reported) == 1,
        transform_for("180"@, reported) == 2,
        transform_for("270"@, reported) == 3,
        transform_for("flipped"@, reported) == 4,
        transform_for("flipped-90"@, reported) == 5,
        transform_for("flipped-180"@, reported) == 6,
        transform_for("flipped-270"@, reported) == 7,
        transform_for("auto"@, reported) == reported,
        config != "none"@ && config != "90"@ && config != "180"@ && config != "270"@ && config
            != "flipped"@ && config != "flipped-90"@ && config != "flipped-180"@ && config
            != "flipped-270"@ ==> transform_for(config, reported) == reported,
{
    lemma_transform_names();
}

/// A configured quarter turn, flipped or not, exchanges width and height; the others do
/// not.
pub proof fn law_quarter_turns_swap_sides(reported: u32)
    ensures
        swaps_axes(transform_for("90"@, reported) as int),
        swaps_axes(transform_for("270"@, reported) as int),
        swaps_axes(transform_for("flipped-90"@, reported) as int),
        swaps_axes(transform_for("flipped-270"@, reported) as int),
        !swaps_axes(transform_for("none"@, reported) as int),
        !swaps_axes(transform_for("180"@, reported) as int),
        !swaps_axes(transform_for("flipped"@, reported) as int),
        !swaps_axes(transform_for("flipped-180"@, reported) as int),
{
    law_configured_transform("auto"@, reported);
}

/// Where the corners come from. A quarter turn shows the source's bottom left corner at
/// the top left and its top left corner at the top right; three of them show its top
/// right and bottom right there. The flip exchanges left and right alone, and the
/// transform that is none moves nothing.
pub proof fn law_corners(width: int, height: int)
    ensures
        source_pixel(0, width, height, 0, 0) == (0int, 0int),
        source_pixel(0, width, height, width - 1, 0) == (width - 1, 0int),
        source_pixel(1, width, height, 0, 0) == (0int, height - 1),
        source_pixel(1, width, height, height - 1, 0) == (0int, 0int),
        source_pixel(1, width, height, 0, width - 1) == (width - 1, height - 1),
        source_pixel(3, width, height, 0, 0) == (width - 1, 0int),
        source_pixel(3, width, height, height - 1, 0) == (width - 1, height - 1),
        source_pixel(3, width, height, 0, width - 1) == (0int, 0int),
        source_pixel(4, width, height, 0, 0) == (width - 1, 0int),
        source_pixel(4, width, height, 0, height - 1) == (width - 1, height - 1),
{
}

/// Quarter turns add up: two make the half turn, three the turn the other way, four none.
pub proof fn law_quarter_turns_add_up(width: int, height: int, x: int, y: int)
    ensures
        ({
            let (x1, y1) = source_pixel(1, height, width, x, y);
            let (x2, y2) = source_pixel(1, width, height, x1, y1);
            (x2, y2) == source_pixel(2, width, height, x, y)
        }),
        ({
            let (x1, y1) = source_pixel(1, width, height, x, y);
            let (x2, y2) = source_pixel(2, width, height, x1, y1);
            (x2, y2) == source_pixel(3, width, height, x, y)
        }),
        ({
            let (x1, y1) = source_pixel(2, width, height, x, y);
            source_pixel(2, width, height, x1, y1) == (x, y)
        }),
{
}

/// Pixels that were side by side stay side by side, and every pixel of the turned frame
/// comes from the source frame.
pub proof fn law_neighbours_stay(transform: int, width: int, height: int, x: int, y: int)
    requires
        0 <= transform <= 7,
        0 <= x < (if swaps_axes(transform) {
            height
        } else {
            width
        }),
        0 <= y < (if swaps_axes(transform) {
            width
        } else {
            height
        }),
    ensures
        ({
            let (sx, sy) = source_pixel(transform, width, height, x, y);
            let (rx, ry) = source_pixel(transform, width, height, x + 1, y);
            let (dx, dy) = source_pixel(transform, width, height, x, y + 1);
            &&& 0 <= sx < width && 0 <= sy < height
            &&& (rx - sx) * (rx - sx) + (ry - sy) * (ry - sy) == 1
            &&& (dx - sx) * (dx - sx) + (dy - sy) * (dy - sy) == 1
            &&& (rx == sx) != (dx == sx)
        }),
{
    let (sx, sy) = source_pixel(transform, width, height, x, y);
    let (rx, ry) = source_pixel(transform, width, height, x + 1, y);
    let (dx, dy) = source_pixel(transform, width, height, x, y + 1);
    assert(1int * 1 + 0int * 0 == 1 && 0int * 0 + 1int * 1 == 1 && (-1int) * (-1) == 1);
    assert(rx - sx == 0 || rx - sx == 1 || rx - sx == -1);
    assert(ry - sy == 0 || ry - sy == 1 || ry - sy == -1);
    assert(dx - sx == 0 || dx - sx == 1 || dx - sx == -1);
    assert(dy - sy == 0 || dy - sy == 1 || dy - sy == -1);
}

/// What is added to a frame repeats the pixel at its edge.
pub proof fn law_padding_repeats_the_edge(
    s: Seq<u8>,
    width: int,
    height: int,
    aligned_width: int,
    aligned_height: int,
    x: int,
    y: int,
    c: int,
)
    requires
        1 <= width <= aligned_width,
        1 <= height <= aligned_height,
        0 <= x < aligned_width,
        0 <= y < aligned_height,
        0 <= c < 4,
    ensures
        padded(s, width, height, aligned_width, aligned_height).len() == aligned_height * (
        aligned_width * 4),
        x >= width && y < height ==> padded(s, width, height, aligned_width, aligned_height)[y * (
        aligned_width * 4) + (x * 4 + c)] == s[y * (width * 4) + (width - 1) * 4 + c],
        x < width && y >= height ==> padded(s, width, height, aligned_width, aligned_height)[y * (
        aligned_width * 4) + (x * 4 + c)] == s[(height - 1) * (width * 4) + x * 4 + c],
        x >= width && y >= height ==> padded(s, width, height, aligned_width, aligned_height)[y
            * (aligned_width * 4) + (x * 4 + c)] == s[(height - 1) * (width * 4) + (width - 1) * 4
            + c],
{
    lemma_padded_byte(s, width, height, aligned_width, aligned_height, x, y, c);
    assert(0 <= aligned_height * (aligned_width * 4)) by (nonlinear_arith)
        requires
            aligned_height >= 0,
            aligned_width >= 0,
    ;
}

/// Every frame whose rows are all there can be turned and mirrored, as far as the machine
/// can hold the result.
pub proof fn law_whole_frames_can_be_turned(
    len: int,
    width: int,
    height: int,
    stride: int,
    transform: int,
    bpp: int,
)
    requires
        width >= 1,
        height >= 1,
        bpp >= 1,
        width * bpp <= stride,
        height * stride <= len,
        height * bpp <= u32::MAX,
        width * (height * bpp) <= usize::MAX,
    ensures
        can_transform(len, width, height, stride, transform, bpp),
{
    assert((height - 1) * stride + width * bpp <= len) by (nonlinear_arith)
        requires
            width * bpp <= stride,
            height * stride <= len,
    ;
}

} // verus!
