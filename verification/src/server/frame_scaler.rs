//! Scaling between the capture size and the size of the client's desktop.

use vstd::arithmetic::div_mod::lemma_div_is_ordered;
use vstd::arithmetic::div_mod::lemma_fundamental_div_mod;
use vstd::arithmetic::div_mod::lemma_fundamental_div_mod_converse;
use vstd::arithmetic::div_mod::lemma_truncate_middle;
use vstd::prelude::*;

use crate::arith::{capped, saturating_mul_u32};
use crate::server::frame_transform::{lemma_cell, lemma_row_end};

verus! {

/// Ratios of desktop size to capture size, one per axis, as reduced fractions.
#[derive(Clone, Copy, Debug, PartialEq, Eq)]
pub struct ScaleFactors {
    /// Desktop width over capture width, as numerator and denominator.
    pub x: (u32, u32),
    /// Desktop height over capture height, as numerator and denominator.
    pub y: (u32, u32),
}

/// `n`, or one for zero.
pub open spec fn at_least_one(n: int) -> int {
    if n < 1 {
        1
    } else {
        n
    }
}

/// The greatest common divisor.
pub open spec fn spec_gcd(a: nat, b: nat) -> nat
    decreases b,
{
    if b == 0 {
        a
    } else {
        spec_gcd(b, a % b)
    }
}

/// A coordinate scaled by `num / den`, rounded down. The product saturates.
pub open spec fn scale_down(v: int, num: int, den: int) -> int {
    capped(v * num, u32::MAX as int) / at_least_one(den)
}

/// A coordinate scaled by `num / den`, rounded up. The product saturates.
pub open spec fn scale_up(v: int, num: int, den: int) -> int {
    rounded_up(capped(v * num, u32::MAX as int), at_least_one(den))
}

/// The quotient rounded up.
pub open spec fn rounded_up(a: int, b: int) -> int {
    if a % b == 0 {
        a / b
    } else {
        a / b + 1
    }
}

/// The reduced fraction `num / den`, where zero counts as one.
pub open spec fn reduced(num: u32, den: u32) -> (u32, u32) {
    let n = at_least_one(num as int);
    let d = at_least_one(den as int);
    let g = spec_gcd(n as nat, d as nat) as int;
    ((n / g) as u32, (d / g) as u32)
}

impl ScaleFactors {
    /// Capture and desktop have the same size.
    pub fn is_identity(&self) -> (r: bool)
        ensures
            r == (self.x == (1u32, 1u32) && self.y == (1u32, 1u32)),
    {
        self.x.0 == 1 && self.x.1 == 1 && self.y.0 == 1 && self.y.1 == 1
    }

    /// Factors from a capture of `cw` by `ch` to a desktop of `dw` by `dh`.
    pub fn new(cw: u32, ch: u32, dw: u32, dh: u32) -> (r: Self)
        ensures
            r.x == reduced(dw, cw),
            r.y == reduced(dh, ch),
    {
        ScaleFactors { x: reduce(dw, cw), y: reduce(dh, ch) }
    }

    /// Maps a capture column to the desktop, rounding down.
    pub fn map_x(&self, x: u32) -> (r: u32)
        ensures
            r == scale_down(x as int, self.x.0 as int, self.x.1 as int),
    {
        div_floor(saturating_mul_u32(x, self.x.0), self.x.1)
    }

    /// Maps a capture row to the desktop, rounding down.
    pub fn map_y(&self, y: u32) -> (r: u32)
        ensures
            r == scale_down(y as int, self.y.0 as int, self.y.1 as int),
    {
        div_floor(saturating_mul_u32(y, self.y.0), self.y.1)
    }

    /// Maps a desktop column back to the capture, rounding up.
    pub fn unmap_x(&self, x: u32) -> (r: u32)
        ensures
            r == scale_up(x as int, self.x.1 as int, self.x.0 as int),
    {
        div_ceil(saturating_mul_u32(x, self.x.1), self.x.0)
    }

    /// Maps a desktop row back to the capture, rounding up.
    pub fn unmap_y(&self, y: u32) -> (r: u32)
        ensures
            r == scale_up(y as int, self.y.1 as int, self.y.0 as int),
    {
        div_ceil(saturating_mul_u32(y, self.y.1), self.y.0)
    }

    /// Maps a capture rectangle (left, top, right, bottom) to the desktop,
    /// rounding outwards.
    pub fn map_rect_out(&self, r: (u32, u32, u32, u32)) -> (out: (u32, u32, u32, u32))
        ensures
            out.0 == scale_down(r.0 as int, self.x.0 as int, self.x.1 as int),
            out.1 == scale_down(r.1 as int, self.y.0 as int, self.y.1 as int),
            out.2 == scale_up(r.2 as int, self.x.0 as int, self.x.1 as int),
            out.3 == scale_up(r.3 as int, self.y.0 as int, self.y.1 as int),
    {
        let x0: u32 = div_floor(saturating_mul_u32(r.0, self.x.0), self.x.1);
        let y0: u32 = div_floor(saturating_mul_u32(r.1, self.y.0), self.y.1);
        let x1: u32 = div_ceil(saturating_mul_u32(r.2, self.x.0), self.x.1);
        let y1: u32 = div_ceil(saturating_mul_u32(r.3, self.y.0), self.y.1);
        (x0, y0, x1, y1)
    }
}

proof fn lemma_gcd_divides(a: nat, b: nat)
    requires
        a > 0 || b > 0,
    ensures
        spec_gcd(a, b) > 0,
        a % spec_gcd(a, b) == 0,
        b % spec_gcd(a, b) == 0,
    decreases b,
{
    let g = spec_gcd(a, b);
    if b == 0 {
        assert(a % a == 0) by (nonlinear_arith)
            requires
                a > 0,
        ;
        assert(0nat % a == 0) by (nonlinear_arith)
            requires
                a > 0,
        ;
    } else {
        lemma_gcd_divides(b, a % b);
        let q = (a / b) as int;
        lemma_fundamental_div_mod(a as int, b as int);
        lemma_fundamental_div_mod(b as int, g as int);
        lemma_fundamental_div_mod((a % b) as int, g as int);
        let m = (b / g) as int;
        let n = ((a % b) / g) as int;
        assert(a == g * (m * q + n)) by (nonlinear_arith)
            requires
                a == b * q + a % b,
                b == g * m,
                a % b == g * n,
        ;
        assert(m * q + n >= 0) by (nonlinear_arith)
            requires
                m >= 0,
                q >= 0,
                n >= 0,
        ;
        assert(g * (m * q + n) == (m * q + n) * g + 0) by (nonlinear_arith);
        lemma_fundamental_div_mod_converse(a as int, g as int, m * q + n, 0);
    }
}

fn gcd(a: u32, b: u32) -> (r: u32)
    ensures
        r == spec_gcd(a as nat, b as nat),
    decreases b,
{
    if b == 0 {
        a
    } else {
        gcd(b, a % b)
    }
}

fn reduce(num: u32, den: u32) -> (r: (u32, u32))
    ensures
        r == reduced(num, den),
{
    let n: u32 = if num < 1 { 1 } else { num };
    let d: u32 = if den < 1 { 1 } else { den };
    let g: u32 = gcd(n, d);
    proof {
        lemma_gcd_divides(n as nat, d as nat);
    }
    (n / g, d / g)
}

fn div_floor(a: u32, b: u32) -> (r: u32)
    ensures
        r == a as int / at_least_one(b as int),
{
    let d: u32 = if b < 1 { 1 } else { b };
    a / d
}

fn div_ceil(a: u32, b: u32) -> (r: u32)
    ensures
        r == rounded_up(a as int, at_least_one(b as int)),
{
    let d: u32 = if b < 1 { 1 } else { b };
    if a % d == 0 {
        a / d
    } else {
        proof {
            lemma_fundamental_div_mod(a as int, d as int);
            assert(a / d < a) by (nonlinear_arith)
                requires
                    a == d * (a / d) + a % d,
                    a % d > 0,
                    d >= 1,
                    a / d >= 0,
            ;
        }
        a / d + 1
    }
}

/// Reducing a fraction keeps its value.
pub proof fn law_reduced_same_value(num: u32, den: u32)
    requires
        num >= 1,
        den >= 1,
    ensures
        reduced(num, den).0 * den == num * reduced(num, den).1,
        1 <= reduced(num, den).0 <= num,
        1 <= reduced(num, den).1 <= den,
{
    let g = spec_gcd(num as nat, den as nat) as int;
    lemma_gcd_divides(num as nat, den as nat);
    let n = num as int / g;
    let d = den as int / g;
    lemma_fundamental_div_mod(num as int, g);
    lemma_fundamental_div_mod(den as int, g);
    assert(1 <= n <= num) by (nonlinear_arith)
        requires
            num == g * n,
            num >= 1,
            g >= 1,
    ;
    assert(1 <= d <= den) by (nonlinear_arith)
        requires
            den == g * d,
            den >= 1,
            g >= 1,
    ;
    assert(n * den == num * d) by (nonlinear_arith)
        requires
            num == g * n,
            den == g * d,
    ;
}

proof fn lemma_gcd_scales(a: nat, b: nat, g: nat)
    requires
        g >= 1,
    ensures
        spec_gcd(g * a, g * b) == g * spec_gcd(a, b),
    decreases b,
{
    if b == 0 {
        assert(g * b == 0) by (nonlinear_arith)
            requires
                b == 0,
        ;
    } else {
        assert(g * b > 0) by (nonlinear_arith)
            requires
                b > 0,
                g > 0,
        ;
        lemma_truncate_middle(a as int, g as int, b as int);
        assert((g * a) % (g * b) == g * (a % b));
        lemma_gcd_scales(b, a % b, g);
    }
}

/// Factors are in lowest terms.
pub proof fn law_reduced_in_lowest_terms(num: u32, den: u32)
    ensures
        spec_gcd(reduced(num, den).0 as nat, reduced(num, den).1 as nat) == 1,
{
    let n = at_least_one(num as int) as nat;
    let d = at_least_one(den as int) as nat;
    let g = spec_gcd(n, d);
    lemma_gcd_divides(n, d);
    lemma_fundamental_div_mod(n as int, g as int);
    lemma_fundamental_div_mod(d as int, g as int);
    lemma_gcd_scales(n / g, d / g, g);
    let rest = spec_gcd(n / g, d / g);
    assert(rest == 1) by (nonlinear_arith)
        requires
            g == g * rest,
            g >= 1,
    ;
    assert(n / g <= n) by (nonlinear_arith)
        requires
            n == g * (n / g),
            g >= 1,
    ;
    assert(d / g <= d) by (nonlinear_arith)
        requires
            d == g * (d / g),
            g >= 1,
    ;
}

/// The far edge of the capture maps to the far edge of the desktop, and back.
pub proof fn law_full_size_maps_to_full_size(capture: u32, desktop: u32)
    requires
        capture >= 1,
        desktop >= 1,
        capture * reduced(desktop, capture).0 <= u32::MAX,
    ensures
        ({
            let (num, den) = reduced(desktop, capture);
            &&& scale_down(capture as int, num as int, den as int) == desktop
            &&& scale_up(capture as int, num as int, den as int) == desktop
            &&& scale_up(desktop as int, den as int, num as int) == capture
        }),
{
    law_reduced_same_value(desktop, capture);
    let num = reduced(desktop, capture).0 as int;
    let den = reduced(desktop, capture).1 as int;
    assert(capture * num == desktop * den) by (nonlinear_arith)
        requires
            num * capture == desktop * den,
    ;
    lemma_fundamental_div_mod_converse(capture * num, den, desktop as int, 0);
    assert(capture * num == num * capture) by (nonlinear_arith);
    lemma_fundamental_div_mod_converse(desktop * den, num, capture as int, 0);
}

/// Where the desktop is at least as large as the capture, mapping a coordinate
/// to the desktop and back gives it again.
pub proof fn law_upscale_reversible(v: int, num: int, den: int)
    requires
        v >= 0,
        1 <= den <= num,
        v * num <= u32::MAX,
    ensures
        scale_up(scale_down(v, num, den), den, num) == v,
{
    let m = v * num / den;
    let r = v * num % den;
    lemma_fundamental_div_mod(v * num, den);
    assert(0 <= v * num) by (nonlinear_arith)
        requires
            v >= 0,
            num >= 1,
    ;
    assert(den * m == m * den) by (nonlinear_arith);
    assert(m * den == v * num - r);
    assert(m >= 0) by (nonlinear_arith)
        requires
            m * den == v * num - r,
            0 <= v * num,
            r < den,
            den >= 1,
    ;
    if r == 0 {
        lemma_fundamental_div_mod_converse(m * den, num, v, 0);
    } else {
        assert((v - 1) * num == v * num - num) by (nonlinear_arith);
        assert(v >= 1) by (nonlinear_arith)
            requires
                v * num >= r,
                r > 0,
                v >= 0,
        ;
        lemma_fundamental_div_mod_converse(m * den, num, v - 1, num - r);
    }
}

/// Where the desktop is at most as large as the capture, mapping a desktop
/// coordinate to the capture and back gives it again.
pub proof fn law_downscale_reversible(v: int, num: int, den: int)
    requires
        v >= 0,
        1 <= num <= den,
        v * den <= u32::MAX,
        scale_up(v, den, num) * num <= u32::MAX,
    ensures
        scale_down(scale_up(v, den, num), num, den) == v,
{
    let c = rounded_up(v * den, num);
    lemma_fundamental_div_mod(v * den, num);
    let q = v * den / num;
    let r = v * den % num;
    assert(0 <= v * den) by (nonlinear_arith)
        requires
            v >= 0,
            den >= 1,
    ;
    assert(num * q == q * num) by (nonlinear_arith);
    if r == 0 {
        assert(c * num == v * den);
        lemma_fundamental_div_mod_converse(c * num, den, v, 0);
    } else {
        assert((q + 1) * num == q * num + num) by (nonlinear_arith);
        assert(c * num == v * den + (num - r));
        lemma_fundamental_div_mod_converse(c * num, den, v, num - r);
    }
}

/// A rectangle rounded outwards covers the scaled rectangle: its near edge is
/// not beyond the scaled near edge, its far edge not before the scaled far edge,
/// and neither is a whole pixel off.
pub proof fn law_rect_out_covers(near: int, far: int, num: int, den: int)
    requires
        0 <= near <= far,
        num >= 1,
        den >= 1,
        far * num <= u32::MAX,
    ensures
        scale_down(near, num, den) * den <= near * num < (scale_down(near, num, den) + 1) * den,
        (scale_up(far, num, den) - 1) * den < far * num <= scale_up(far, num, den) * den,
{
    assert(near * num <= far * num) by (nonlinear_arith)
        requires
            near <= far,
            num >= 1,
    ;
    lemma_fundamental_div_mod(near * num, den);
    lemma_fundamental_div_mod(far * num, den);
    let a = near * num / den;
    let b = far * num / den;
    assert(den * a == a * den) by (nonlinear_arith);
    assert(den * b == b * den) by (nonlinear_arith);
    assert((a + 1) * den == a * den + den) by (nonlinear_arith);
    assert((b + 1) * den == b * den + den) by (nonlinear_arith);
    assert((b - 1) * den == b * den - den) by (nonlinear_arith);
}

/// A frame of four-byte pixels scaled to `dw` by `dh`: each pixel is that of the
/// source whose position is proportional, rounded down.
pub open spec fn scaled(src: Seq<u8>, sw: int, sh: int, dw: int, dh: int) -> Seq<u8> {
    Seq::new(
        (dh * (dw * 4)) as nat,
        |k: int|
            {
                let y = k / (dw * 4);
                let x = k % (dw * 4) / 4;
                src[y * sh / dh * (sw * 4) + x * sw / dw * 4 + k % (dw * 4) % 4]
            },
    )
}

/// There is nothing to scale.
pub open spec fn unscaled(sw: u32, sh: u32, dw: u32, dh: u32) -> bool {
    sw == dw && sh == dh || sw == 0 || sh == 0 || dw == 0 || dh == 0
}

proof fn lemma_proportional(v: int, from: int, to: int)
    requires
        0 <= v < from,
        1 <= to,
        1 <= from,
    ensures
        0 <= v * to / from < to,
        v * to / from <= (from - 1) * to / from,
{
    lemma_fundamental_div_mod(v * to, from);
    let q = v * to / from;
    assert(v * to <= (from - 1) * to) by (nonlinear_arith)
        requires
            v <= from - 1,
            to >= 1,
    ;
    assert(0 <= v * to) by (nonlinear_arith)
        requires
            0 <= v,
            to >= 1,
    ;
    assert((from - 1) * to < from * to) by (nonlinear_arith)
        requires
            to >= 1,
    ;
    assert(q < to) by (nonlinear_arith)
        requires
            from * q <= v * to,
            v * to < from * to,
            from >= 1,
    ;
    assert(q >= 0) by (nonlinear_arith)
        requires
            from * q > v * to - from,
            v * to >= 0,
            from >= 1,
    ;
    lemma_div_is_ordered(v * to, (from - 1) * to, from);
}

/// The coordinate of the source pixel that feeds destination coordinate `v`.
fn source_coordinate(v: u32, from: u32, to: u32) -> (r: usize)
    requires
        v < from,
        to >= 1,
    ensures
        r == v as int * to as int / from as int,
        r < to,
        r <= (from - 1) * to / from as int,
{
    proof {
        lemma_proportional(v as int, from as int, to as int);
        assert(v * to <= u32::MAX * u32::MAX) by (nonlinear_arith)
            requires
                v <= u32::MAX,
                to <= u32::MAX,
        ;
    }
    ((v as u64 * to as u64) / from as u64) as usize
}

/// Nearest-neighbour scaling of a packed frame of four-byte pixels.
///
/// Returns the input where the sizes match or one of them is empty.
pub fn scale_bgra(src: &[u8], sw: u32, sh: u32, dw: u32, dh: u32) -> (r: Vec<u8>)
    requires
        src@.len() % 4 == 0,
        !unscaled(sw, sh, dw, dh) ==> {
            &&& dh * (dw * 4) <= usize::MAX
            &&& ((dh - 1) * sh / dh as int + 1) * (sw * 4) <= src@.len()
        },
    ensures
        unscaled(sw, sh, dw, dh) ==> r@ == src@,
        !unscaled(sw, sh, dw, dh) ==> r@ == scaled(
            src@,
            sw as int,
            sh as int,
            dw as int,
            dh as int,
        ),
{
    if sw == dw && sh == dh || sw == 0 || sh == 0 || dw == 0 || dh == 0 {
        return vstd::slice::slice_to_vec(src);
    }
    let ghost s = src@;
    let ghost want = scaled(s, sw as int, sh as int, dw as int, dh as int);
    let ghost last = (dh - 1) * sh / dh as int;
    let len: usize = src.len();
    proof {
        lemma_proportional(dh - 1, dh as int, sh as int);
        assert(dw * 4 <= dh * (dw * 4)) by (nonlinear_arith)
            requires
                dh >= 1,
                dw >= 1,
        ;
        assert(sw * 4 <= (last + 1) * (sw * 4)) by (nonlinear_arith)
            requires
                last >= 0,
                sw >= 1,
        ;
    }
    let dst_stride: usize = dw as usize * 4;
    let src_stride: usize = sw as usize * 4;
    let mut out: Vec<u8> = Vec::new();
    let mut y: u32 = 0;
    assert(0 * dst_stride == 0);
    while y < dh
        invariant
            0 <= y <= dh,
            sw >= 1,
            sh >= 1,
            dw >= 1,
            dh >= 1,
            dst_stride == dw * 4,
            src_stride == sw * 4,
            dh * dst_stride <= usize::MAX,
            last == (dh - 1) * sh / dh as int,
            (last + 1) * src_stride <= len,
            src@ == s,
            len == s.len(),
            want == scaled(s, sw as int, sh as int, dw as int, dh as int),
            want.len() == dh * dst_stride,
            out@.len() == y * dst_stride,
            forall|k: int| 0 <= k < out@.len() ==> out@[k] == want[k],
        decreases dh - y,
    {
        let sy: usize = source_coordinate(y, dh, sh);
        proof {
            lemma_row_end(y as int, dh as int, dst_stride as int);
            lemma_row_end(sy as int, last + 1, src_stride as int);
        }
        let row: usize = sy * src_stride;
        let mut x: u32 = 0;
        while x < dw
            invariant
                0 <= x <= dw,
                0 <= y < dh,
                sw >= 1,
                sh >= 1,
                dw >= 1,
                dh >= 1,
                dst_stride == dw * 4,
                src_stride == sw * 4,
                sy == y * sh / dh as int,
                row == sy * src_stride,
                row + src_stride <= len,
                0 <= y * dst_stride,
                y * dst_stride + dst_stride <= dh * dst_stride,
                src@ == s,
                len == s.len(),
                want == scaled(s, sw as int, sh as int, dw as int, dh as int),
                want.len() == dh * dst_stride,
                out@.len() == y * dst_stride + x * 4,
                forall|k: int| 0 <= k < out@.len() ==> out@[k] == want[k],
            decreases dw - x,
        {
            let sx: usize = source_coordinate(x, dw, sw);
            let from: usize = row + sx * 4;
            proof {
                lemma_cell(y as int, dst_stride as int, x * 4);
                lemma_cell(y as int, dst_stride as int, x * 4 + 1);
                lemma_cell(y as int, dst_stride as int, x * 4 + 2);
                lemma_cell(y as int, dst_stride as int, x * 4 + 3);
                assert(want[y * dst_stride + (x * 4)] == s[from as int]);
                assert(want[y * dst_stride + (x * 4 + 1)] == s[from + 1]);
                assert(want[y * dst_stride + (x * 4 + 2)] == s[from + 2]);
                assert(want[y * dst_stride + (x * 4 + 3)] == s[from + 3]);
            }
            out.push(src[from]);
            out.push(src[from + 1]);
            out.push(src[from + 2]);
            out.push(src[from + 3]);
            x = x + 1;
        }
        y = y + 1;
    }
    assert(out@ =~= want);
    out
}

/// A pixel of a scaled frame is the source's pixel of which it takes its share: the last
/// whose own position, scaled, is not beyond it. Its four bytes stay together.
pub proof fn law_scaled_pixel(
    src: Seq<u8>,
    sw: int,
    sh: int,
    dw: int,
    dh: int,
    x: int,
    y: int,
    sx: int,
    sy: int,
    c: int,
)
    requires
        0 < sw,
        0 < sh,
        0 <= x < dw,
        0 <= y < dh,
        0 <= c < 4,
        sx * dw <= x * sw < (sx + 1) * dw,
        sy * dh <= y * sh < (sy + 1) * dh,
    ensures
        scaled(src, sw, sh, dw, dh).len() == dh * (dw * 4),
        scaled(src, sw, sh, dw, dh)[y * (dw * 4) + (x * 4 + c)] == src[sy * (sw * 4) + sx * 4 + c],
        0 <= sx < sw,
        0 <= sy < sh,
{
    lemma_row_end(y, dh, dw * 4);
    lemma_cell(y, dw * 4, x * 4 + c);
    assert((x * 4 + c) / 4 == x && (x * 4 + c) % 4 == c);
    lemma_quotient(x * sw, dw, sx);
    lemma_quotient(y * sh, dh, sy);
    lemma_proportional(x, dw, sw);
    lemma_proportional(y, dh, sh);
    assert(0 <= dh * (dw * 4)) by (nonlinear_arith)
        requires
            dh >= 0,
            dw >= 0,
    ;
}

proof fn lemma_quotient(a: int, b: int, q: int)
    requires
        b > 0,
        q * b <= a < (q + 1) * b,
    ensures
        a / b == q,
{
    assert((q + 1) * b == q * b + b) by (nonlinear_arith);
    lemma_fundamental_div_mod_converse(a, b, q, a - q * b);
}

/// A frame is left as it is exactly where it has the size already, or one of the sizes is
/// empty.
pub proof fn law_unscaled(sw: u32, sh: u32, dw: u32, dh: u32)
    ensures
        sw == dw && sh == dh ==> unscaled(sw, sh, dw, dh),
        sw == 0 || sh == 0 || dw == 0 || dh == 0 ==> unscaled(sw, sh, dw, dh),
        unscaled(sw, sh, dw, dh) ==> (sw == dw && sh == dh) || sw * sh == 0 || dw * dh == 0,
        sw > 0 && sh > 0 && dw > 0 && dh > 0 && (sw != dw || sh != dh) ==> !unscaled(
            sw,
            sh,
            dw,
            dh,
        ),
{
    assert(sw == 0 || sh == 0 ==> sw * sh == 0) by (nonlinear_arith);
    assert(dw == 0 || dh == 0 ==> dw * dh == 0) by (nonlinear_arith);
}

/// Equal sizes scale by one, and an empty size counts as one pixel.
pub proof fn law_equal_sizes_scale_by_one(n: u32, d: u32)
    requires
        n > 0,
    ensures
        reduced(n, n) == (1u32, 1u32),
        reduced(0, d) == reduced(1, d),
        reduced(d, 0) == reduced(d, 1),
{
    law_reduced_same_value(n, n);
    law_reduced_in_lowest_terms(n, n);
    let (a, b) = reduced(n, n);
    assert(a == b) by (nonlinear_arith)
        requires
            a * n == n * b,
            n > 0,
    ;
    reveal_with_fuel(spec_gcd, 3);
    assert(a as nat % b as nat == 0) by {
        lemma_fundamental_div_mod_converse(a as int, b as int, 1, 0);
    }
    assert(spec_gcd(a as nat, b as nat) == b);
}

/// A product that does not fit counts as the largest number.
pub proof fn law_scaling_saturates(v: int, num: int, den: int)
    requires
        v * num > 0xffff_ffff,
        den >= 1,
    ensures
        scale_down(v, num, den) == 0xffff_ffffint / den,
        scale_up(v, num, den) == scale_down(v, num, den) || scale_up(v, num, den) == scale_down(
            v,
            num,
            den,
        ) + 1,
{
}

} // verus!
