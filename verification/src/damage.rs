//! Damage rectangles and their merging.
//!
//! A [`DamageRegion`] is a half-open rectangle of pixels that changed since the
//! last frame. [`merge_regions`] joins regions that overlap or lie next to each
//! other, so that no pixel is claimed twice.

use vstd::prelude::*;

verus! {

/// A rectangle of changed pixels: columns `x .. x + width`, rows `y .. y + height`.
#[derive(Clone, Copy, Debug, PartialEq, Eq, Structural)]
pub struct DamageRegion {
    pub x: u32,
    pub y: u32,
    pub width: u32,
    pub height: u32,
}

impl DamageRegion {
    /// First column to the right of the region.
    pub open spec fn right(self) -> int {
        self.x + self.width
    }

    /// First row below the region.
    pub open spec fn bottom(self) -> int {
        self.y + self.height
    }

    /// The far edges of the region are representable coordinates.
    pub open spec fn fits(self) -> bool {
        self.right() <= u32::MAX && self.bottom() <= u32::MAX
    }

    /// Pixel `(px, py)` lies in the region.
    pub open spec fn has(self, px: int, py: int) -> bool {
        self.x <= px < self.right() && self.y <= py < self.bottom()
    }

    /// `self` lies in `outer`, edge for edge.
    pub open spec fn within(self, outer: DamageRegion) -> bool {
        &&& outer.x <= self.x
        &&& outer.y <= self.y
        &&& self.right() <= outer.right()
        &&& self.bottom() <= outer.bottom()
    }

    /// At most `distance` pixels separate the two regions on either axis
    /// (zero when they overlap or touch).
    pub open spec fn near(self, other: DamageRegion, distance: int) -> bool {
        &&& self.x <= other.right() + distance
        &&& other.x <= self.right() + distance
        &&& self.y <= other.bottom() + distance
        &&& other.y <= self.bottom() + distance
    }

    /// The smallest region that holds both.
    pub open spec fn spec_union(self, other: DamageRegion) -> DamageRegion {
        let x = if self.x <= other.x { self.x } else { other.x };
        let y = if self.y <= other.y { self.y } else { other.y };
        let right = if self.right() >= other.right() { self.right() } else { other.right() };
        let bottom = if self.bottom() >= other.bottom() { self.bottom() } else { other.bottom() };
        DamageRegion { x, y, width: (right - x) as u32, height: (bottom - y) as u32 }
    }

    pub fn new(x: u32, y: u32, width: u32, height: u32) -> (r: Self)
        ensures
            r == (DamageRegion { x, y, width, height }),
    {
        DamageRegion { x, y, width, height }
    }

    /// The region that covers a whole frame.
    pub fn full_frame(width: u32, height: u32) -> (r: Self)
        ensures
            r == (DamageRegion { x: 0, y: 0, width, height }),
    {
        DamageRegion { x: 0, y: 0, width, height }
    }

    /// Number of pixels in the region.
    pub fn area(&self) -> (r: u64)
        ensures
            r == self.width * self.height,
    {
        proof {
            vstd::arithmetic::mul::lemma_mul_upper_bound(
                self.width as int,
                u32::MAX as int,
                self.height as int,
                u32::MAX as int,
            );
        }
        self.width as u64 * self.height as u64
    }

    /// The smallest region that holds both.
    pub fn union(&self, other: &DamageRegion) -> (r: DamageRegion)
        requires
            self.fits(),
            other.fits(),
        ensures
            r == self.spec_union(*other),
            r.fits(),
            self.within(r),
            other.within(r),
    {
        let x: u32 = if self.x <= other.x { self.x } else { other.x };
        let y: u32 = if self.y <= other.y { self.y } else { other.y };
        let self_right: u32 = self.x + self.width;
        let other_right: u32 = other.x + other.width;
        let self_bottom: u32 = self.y + self.height;
        let other_bottom: u32 = other.y + other.height;
        let right: u32 = if self_right >= other_right { self_right } else { other_right };
        let bottom: u32 = if self_bottom >= other_bottom { self_bottom } else { other_bottom };
        DamageRegion { x, y, width: right - x, height: bottom - y }
    }

    /// Whether at most `distance` pixels separate the two regions on either axis.
    pub fn is_near(&self, other: &DamageRegion, distance: u32) -> (r: bool)
        ensures
            r == self.near(*other, distance as int),
    {
        let d: u64 = distance as u64;
        let self_right: u64 = self.x as u64 + self.width as u64;
        let other_right: u64 = other.x as u64 + other.width as u64;
        let self_bottom: u64 = self.y as u64 + self.height as u64;
        let other_bottom: u64 = other.y as u64 + other.height as u64;
        self.x as u64 <= other_right + d && other.x as u64 <= self_right + d && self.y as u64
            <= other_bottom + d && other.y as u64 <= self_bottom + d
    }
}

/// Every region's far edges are representable.
pub open spec fn all_fit(s: Seq<DamageRegion>) -> bool {
    forall|i: int| 0 <= i < s.len() ==> (#[trigger] s[i]).fits()
}

/// Some region of `s` holds the pixel.
pub open spec fn any_has(s: Seq<DamageRegion>, px: int, py: int) -> bool {
    exists|i: int| 0 <= i < s.len() && (#[trigger] s[i]).has(px, py)
}

/// Some region of `f` holds `r`.
#[verifier::opaque]
pub open spec fn some_holds(f: Seq<DamageRegion>, r: DamageRegion) -> bool {
    exists|j: int| 0 <= j < f.len() && r.within(#[trigger] f[j])
}

/// Every region of `s` lies in some region of `f`.
pub open spec fn covers(f: Seq<DamageRegion>, s: Seq<DamageRegion>) -> bool {
    forall|i: int| 0 <= i < s.len() ==> some_holds(f, #[trigger] s[i])
}

/// No two regions of `s` are within `distance` of each other.
pub open spec fn separated(s: Seq<DamageRegion>, distance: int) -> bool {
    forall|i: int, j: int|
        0 <= i < s.len() && 0 <= j < s.len() && i != j ==> !(#[trigger] s[i]).near(
            #[trigger] s[j],
            distance,
        )
}

/// `merged` is the finest separated cover of `regions`: it covers them, its
/// members are apart, and it lies inside every other cover whose members are
/// apart.
pub open spec fn finest_cover(
    regions: Seq<DamageRegion>,
    distance: int,
    merged: Seq<DamageRegion>,
) -> bool {
    &&& covers(merged, regions)
    &&& separated(merged, distance)
    &&& forall|f: Seq<DamageRegion>|
        separated(f, distance) && #[trigger] covers(f, regions) ==> covers(f, merged)
}

/// Each edge of `m` is an edge of some region of `s`, and some region of `s` lies in `m`.
#[verifier::opaque]
pub open spec fn edges_from(s: Seq<DamageRegion>, m: DamageRegion) -> bool {
    &&& exists|i: int| 0 <= i < s.len() && (#[trigger] s[i]).x == m.x
    &&& exists|i: int| 0 <= i < s.len() && (#[trigger] s[i]).y == m.y
    &&& exists|i: int| 0 <= i < s.len() && (#[trigger] s[i]).right() == m.right()
    &&& exists|i: int| 0 <= i < s.len() && (#[trigger] s[i]).bottom() == m.bottom()
    &&& exists|i: int| 0 <= i < s.len() && (#[trigger] s[i]).within(m)
}

/// Every region of `merged` takes its edges from `regions`.
pub open spec fn all_edges_from(regions: Seq<DamageRegion>, merged: Seq<DamageRegion>) -> bool {
    forall|j: int| 0 <= j < merged.len() ==> edges_from(regions, #[trigger] merged[j])
}

proof fn lemma_edges_own(s: Seq<DamageRegion>, i: int)
    requires
        0 <= i < s.len(),
    ensures
        edges_from(s, s[i]),
{
    reveal(edges_from);
    assert(s[i].within(s[i]));
}

proof fn lemma_edges_longer(s: Seq<DamageRegion>, t: Seq<DamageRegion>, m: DamageRegion)
    requires
        edges_from(s, m),
        s.len() <= t.len(),
        forall|i: int| 0 <= i < s.len() ==> t[i] == s[i],
    ensures
        edges_from(t, m),
{
    reveal(edges_from);
    let a = choose|i: int| 0 <= i < s.len() && (#[trigger] s[i]).x == m.x;
    let b = choose|i: int| 0 <= i < s.len() && (#[trigger] s[i]).y == m.y;
    let c = choose|i: int| 0 <= i < s.len() && (#[trigger] s[i]).right() == m.right();
    let d = choose|i: int| 0 <= i < s.len() && (#[trigger] s[i]).bottom() == m.bottom();
    let e = choose|i: int| 0 <= i < s.len() && (#[trigger] s[i]).within(m);
    assert(t[a].x == m.x && t[b].y == m.y && t[c].right() == m.right() && t[d].bottom()
        == m.bottom() && t[e].within(m));
}

proof fn lemma_edges_union(s: Seq<DamageRegion>, a: DamageRegion, b: DamageRegion)
    requires
        a.fits(),
        b.fits(),
        edges_from(s, a),
        edges_from(s, b),
    ensures
        edges_from(s, a.spec_union(b)),
{
    reveal(edges_from);
    let u = a.spec_union(b);
    assert(u.right() == a.right() || u.right() == b.right());
    assert(u.bottom() == a.bottom() || u.bottom() == b.bottom());
    let e = choose|i: int| 0 <= i < s.len() && (#[trigger] s[i]).within(a);
    assert(s[e].within(u));
}

proof fn lemma_held_at(f: Seq<DamageRegion>, r: DamageRegion, j: int)
    requires
        0 <= j < f.len(),
        r.within(f[j]),
    ensures
        some_holds(f, r),
{
    reveal(some_holds);
}

proof fn lemma_holder(f: Seq<DamageRegion>, r: DamageRegion) -> (j: int)
    requires
        some_holds(f, r),
    ensures
        0 <= j < f.len(),
        r.within(f[j]),
{
    reveal(some_holds);
    choose|j: int| 0 <= j < f.len() && r.within(#[trigger] f[j])
}

proof fn lemma_union_in_cover(
    f: Seq<DamageRegion>,
    a: DamageRegion,
    b: DamageRegion,
    distance: int,
)
    requires
        a.fits(),
        b.fits(),
        distance >= 0,
        separated(f, distance),
        some_holds(f, a),
        some_holds(f, b),
        a.near(b, distance),
    ensures
        some_holds(f, a.spec_union(b)),
{
    let i = lemma_holder(f, a);
    let j = lemma_holder(f, b);
    if i != j {
        assert(f[i].near(f[j], distance));
    }
    lemma_held_at(f, a.spec_union(b), i);
}

/// Joins regions that are within `merge_distance` of each other until none are.
///
/// The result is the finest separated cover of the input; in which order its
/// members come is left open.
pub fn merge_regions(regions: Vec<DamageRegion>, merge_distance: u32) -> (merged: Vec<DamageRegion>)
    requires
        all_fit(regions@),
    ensures
        all_fit(merged@),
        merged@.len() <= regions@.len(),
        regions@.len() > 0 ==> merged@.len() > 0,
        finest_cover(regions@, merge_distance as int, merged@),
        all_edges_from(regions@, merged@),
{
    let ghost d = merge_distance as int;
    let mut out: Vec<DamageRegion> = Vec::new();
    let mut i: usize = 0;
    while i < regions.len()
        invariant
            d == merge_distance,
            0 <= i <= regions@.len(),
            all_fit(regions@),
            all_fit(out@),
            out@.len() <= i,
            i > 0 ==> out@.len() > 0,
            finest_cover(regions@.take(i as int), d, out@),
            all_edges_from(regions@.take(i as int), out@),
        decreases regions@.len() - i,
    {
        let ghost prefix = regions@.take(i as int);
        let ghost longer = regions@.take(i as int + 1);
        assert(longer.len() == i + 1 && longer[i as int] == regions@[i as int]);
        assert(forall|k: int| 0 <= k < i ==> longer[k] == prefix[k]);
        let mut cur = regions[i];
        let mut j: usize = 0;
        proof {
            lemma_edges_own(longer, i as int);
            assert forall|k: int| 0 <= k < out@.len() implies edges_from(
                longer,
                #[trigger] out@[k],
            ) by {
                lemma_edges_longer(prefix, longer, out@[k]);
            }
            assert forall|f: Seq<DamageRegion>|
                separated(f, d) && #[trigger] covers(f, longer) implies covers(f, out@)
                && some_holds(f, cur) by {
                assert(covers(f, prefix)) by {
                    assert forall|k: int| 0 <= k < prefix.len() implies some_holds(
                        f,
                        #[trigger] prefix[k],
                    ) by {
                        assert(longer[k] == prefix[k]);
                    }
                }
                assert(some_holds(f, longer[i as int]));
            }
            assert(covers(out@.push(cur), longer)) by {
                assert forall|k: int| 0 <= k < longer.len() implies some_holds(
                    out@.push(cur),
                    #[trigger] longer[k],
                ) by {
                    if k < i {
                        assert(longer[k] == prefix[k]);
                        let w = lemma_holder(out@, prefix[k]);
                        lemma_held_at(out@.push(cur), longer[k], w);
                    } else {
                        lemma_held_at(out@.push(cur), longer[k], out@.len() as int);
                    }
                }
            }
        }
        while j < out.len()
            invariant
                d == merge_distance,
                longer.len() == i + 1,
                0 <= j <= out@.len(),
                out@.len() <= i,
                cur.fits(),
                all_fit(out@),
                separated(out@, d),
                forall|k: int| 0 <= k < j ==> !(#[trigger] out@[k]).near(cur, d),
                covers(out@.push(cur), longer),
                edges_from(longer, cur),
                all_edges_from(longer, out@),
                forall|f: Seq<DamageRegion>|
                    separated(f, d) && #[trigger] covers(f, longer) ==> covers(f, out@)
                        && some_holds(f, cur),
            decreases out@.len(), out@.len() - j,
        {
            if out[j].is_near(&cur, merge_distance) {
                let ghost before = out@;
                let ghost old_cur = cur;
                let other = out.remove(j);
                cur = other.union(&cur);
                proof {
                    lemma_edges_union(longer, before[j as int], old_cur);
                    assert forall|k: int| 0 <= k < out@.len() implies edges_from(
                        longer,
                        #[trigger] out@[k],
                    ) by {
                        let k2 = if k < j {
                            k
                        } else {
                            k + 1
                        };
                        assert(out@[k] == before[k2]);
                    }
                    assert forall|a: int, b: int|
                        0 <= a < out@.len() && 0 <= b < out@.len() && a != b implies !(
                    #[trigger] out@[a]).near(#[trigger] out@[b], d) by {
                        let a2 = if a < j { a } else { a + 1 };
                        let b2 = if b < j { b } else { b + 1 };
                        assert(out@[a] == before[a2] && out@[b] == before[b2]);
                    }
                    assert(covers(out@.push(cur), longer)) by {
                        assert forall|k: int| 0 <= k < longer.len() implies some_holds(
                            out@.push(cur),
                            #[trigger] longer[k],
                        ) by {
                            let w = lemma_holder(before.push(old_cur), longer[k]);
                            if w < j {
                                lemma_held_at(out@.push(cur), longer[k], w);
                            } else if w == j || w == before.len() {
                                lemma_held_at(out@.push(cur), longer[k], out@.len() as int);
                            } else {
                                lemma_held_at(out@.push(cur), longer[k], w - 1);
                            }
                        }
                    }
                    assert forall|f: Seq<DamageRegion>|
                        separated(f, d) && #[trigger] covers(f, longer) implies covers(f, out@)
                        && some_holds(f, cur) by {
                        assert(some_holds(f, before[j as int]));
                        lemma_union_in_cover(f, before[j as int], old_cur, d);
                        assert forall|k: int| 0 <= k < out@.len() implies some_holds(
                            f,
                            #[trigger] out@[k],
                        ) by {
                            let k2 = if k < j { k } else { k + 1 };
                            assert(out@[k] == before[k2]);
                        }
                    }
                }
                j = 0;
            } else {
                j = j + 1;
            }
        }
        let ghost before = out@;
        out.push(cur);
        proof {
            assert(finest_cover(longer, d, out@)) by {
                assert forall|f: Seq<DamageRegion>|
                    separated(f, d) && #[trigger] covers(f, longer) implies covers(f, out@) by {
                    assert forall|k: int| 0 <= k < out@.len() implies some_holds(
                        f,
                        #[trigger] out@[k],
                    ) by {
                        if k < before.len() {
                            assert(out@[k] == before[k]);
                        }
                    }
                }
            }
        }
        i = i + 1;
    }
    assert(regions@.take(i as int) == regions@);
    out
}

/// Merging never loses damage: a pixel of an input region is in an output region.
pub proof fn law_merge_keeps_pixels(
    regions: Seq<DamageRegion>,
    distance: int,
    merged: Seq<DamageRegion>,
    px: int,
    py: int,
)
    requires
        finest_cover(regions, distance, merged),
        any_has(regions, px, py),
    ensures
        any_has(merged, px, py),
{
    let i = choose|i: int| 0 <= i < regions.len() && (#[trigger] regions[i]).has(px, py);
    let j = lemma_holder(merged, regions[i]);
    assert(merged[j].has(px, py));
}

/// Merged regions never claim a pixel twice.
pub proof fn law_merge_disjoint(
    regions: Seq<DamageRegion>,
    distance: int,
    merged: Seq<DamageRegion>,
    i: int,
    j: int,
    px: int,
    py: int,
)
    requires
        distance >= 0,
        finest_cover(regions, distance, merged),
        0 <= i < merged.len(),
        0 <= j < merged.len(),
        merged[i].has(px, py),
        merged[j].has(px, py),
    ensures
        i == j,
{
    if i != j {
        assert(merged[i].near(merged[j], distance));
    }
}

/// The finest separated cover is unique up to the order of its members.
pub proof fn law_merge_unique(
    regions: Seq<DamageRegion>,
    distance: int,
    a: Seq<DamageRegion>,
    b: Seq<DamageRegion>,
)
    requires
        distance >= 0,
        finest_cover(regions, distance, a),
        finest_cover(regions, distance, b),
    ensures
        a.to_set() == b.to_set(),
{
    lemma_cover_members(regions, distance, a, b);
    lemma_cover_members(regions, distance, b, a);
    assert(a.to_set() =~= b.to_set());
}

proof fn lemma_cover_members(
    regions: Seq<DamageRegion>,
    distance: int,
    a: Seq<DamageRegion>,
    b: Seq<DamageRegion>,
)
    requires
        distance >= 0,
        finest_cover(regions, distance, a),
        finest_cover(regions, distance, b),
    ensures
        forall|r: DamageRegion| a.contains(r) ==> b.contains(r),
{
    assert forall|r: DamageRegion| a.contains(r) implies b.contains(r) by {
        let i = choose|i: int| 0 <= i < a.len() && a[i] == r;
        assert(covers(b, a));
        assert(covers(a, b));
        assert(some_holds(b, a[i]));
        let j = lemma_holder(b, a[i]);
        assert(some_holds(a, b[j]));
        let k = lemma_holder(a, b[j]);
        if k != i {
            assert(a[i].near(a[k], distance));
        }
        assert(b[j] == a[i]);
    }
}

/// Merging a set that is already apart changes nothing but its order.
pub proof fn law_merge_idempotent(
    regions: Seq<DamageRegion>,
    distance: int,
    merged: Seq<DamageRegion>,
)
    requires
        distance >= 0,
        separated(regions, distance),
        finest_cover(regions, distance, merged),
    ensures
        merged.to_set() == regions.to_set(),
{
    assert(covers(regions, regions)) by {
        assert forall|i: int| 0 <= i < regions.len() implies some_holds(
            regions,
            #[trigger] regions[i],
        ) by {
            lemma_held_at(regions, regions[i], i);
        }
    }
    assert(finest_cover(regions, distance, regions));
    law_merge_unique(regions, distance, merged, regions);
}

/// Two regions are near each other exactly where, on each axis, the gap between them is
/// at most the distance; touching and overlapping regions have no gap.
pub proof fn law_near(a: DamageRegion, b: DamageRegion, distance: int)
    requires
        distance >= 0,
    ensures
        a.near(b, distance) == b.near(a, distance),
        b.x > a.x + a.width + distance ==> !a.near(b, distance),
        b.y > a.y + a.height + distance ==> !a.near(b, distance),
        a.x <= b.x <= a.x + a.width + distance && a.y <= b.y <= a.y + a.height + distance
            ==> a.near(b, distance),
        a.x <= b.x <= a.x + a.width + distance && b.y <= a.y <= b.y + b.height + distance
            ==> a.near(b, distance),
        forall|px: int, py: int| a.has(px, py) && b.has(px, py) ==> a.near(b, distance),
{
}

/// The region that holds two is the smallest that does.
pub proof fn law_union_is_smallest(a: DamageRegion, b: DamageRegion, r: DamageRegion)
    requires
        a.fits(),
        b.fits(),
    ensures
        a.within(a.spec_union(b)),
        b.within(a.spec_union(b)),
        a.within(r) && b.within(r) ==> a.spec_union(b).within(r),
        a.spec_union(b) == b.spec_union(a),
        a.spec_union(a) == a,
{
}

/// A region holds its own pixels and those of every region in it: from its corner as far
/// as it is wide and high, and no other.
pub proof fn law_region_pixels(r: DamageRegion, inner: DamageRegion, px: int, py: int)
    ensures
        r.has(px, py) <==> r.x <= px && px < r.x + r.width && r.y <= py && py < r.y + r.height,
        inner.within(r) && inner.has(px, py) ==> r.has(px, py),
        r.fits() <==> r.x + r.width <= 0xffff_ffff && r.y + r.height <= 0xffff_ffff,
{
}

/// Regions that are apart stay apart: merging joins only what is near, so that of two
/// regions with nothing near them each is found again as it was.
pub proof fn law_merge_joins_only_the_near(
    a: DamageRegion,
    b: DamageRegion,
    distance: int,
    merged: Seq<DamageRegion>,
)
    requires
        distance >= 0,
        b.x > a.x + a.width + distance || b.y > a.y + a.height + distance,
        finest_cover(seq![a, b], distance, merged),
    ensures
        merged.contains(a),
        merged.contains(b),
{
    let s = seq![a, b];
    assert(separated(s, distance));
    law_merge_idempotent(s, distance, merged);
    assert(s[0] == a && s[1] == b);
    assert(s.to_set().contains(a) && s.to_set().contains(b));
}

/// Merged regions are apart: of any two the gap is larger than the distance, and no pixel
/// is in both.
pub proof fn law_merged_are_apart(
    regions: Seq<DamageRegion>,
    distance: int,
    merged: Seq<DamageRegion>,
    i: int,
    j: int,
    px: int,
    py: int,
)
    requires
        distance >= 0,
        finest_cover(regions, distance, merged),
        0 <= i < merged.len(),
        0 <= j < merged.len(),
        i != j,
    ensures
        !merged[i].near(merged[j], distance),
        !(merged[i].has(px, py) && merged[j].has(px, py)),
{
}

/// A merged region reaches no further than the regions it came from: each of its four
/// edges is an edge of one of them.
pub proof fn law_merged_edges(regions: Seq<DamageRegion>, merged: Seq<DamageRegion>, j: int)
    requires
        all_edges_from(regions, merged),
        0 <= j < merged.len(),
    ensures
        exists|i: int| 0 <= i < regions.len() && (#[trigger] regions[i]).x == merged[j].x,
        exists|i: int| 0 <= i < regions.len() && (#[trigger] regions[i]).y == merged[j].y,
        exists|i: int|
            0 <= i < regions.len() && (#[trigger] regions[i]).right() == merged[j].right(),
        exists|i: int|
            0 <= i < regions.len() && (#[trigger] regions[i]).bottom() == merged[j].bottom(),
{
    assert(edges_from(regions, merged[j]));
    reveal(edges_from);
}

} // verus!
