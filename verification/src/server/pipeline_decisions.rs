//! Per-frame decisions of the capture pipeline.
//!
//! Everything here works on plain values: times are milliseconds, rates are
//! fractions of integers. The pipeline loop performs the sends and keeps the
//! clock.

use vstd::prelude::*;

use crate::damage::{
    all_fit, any_has, covers, finest_cover, merge_regions, separated, some_holds, DamageRegion,
};
use crate::text::same_text;

verus! {

/// The interval between frames, in milliseconds, at a frame rate of which zero counts as one.
pub open spec fn frame_interval_ms(target_fps: u32) -> int {
    if target_fps == 0 {
        1000
    } else {
        1000int / target_fps as int
    }
}

/// Presentation timestamp of a frame for the H.264 encoder.
///
/// A capture timestamp (nanoseconds) is preferred; without one the timestamp
/// follows from the number of frames sent and the target frame rate.
pub fn compute_timestamp_ms(pts: u64, frames_sent: u64, target_fps: u32) -> (r: u64)
    requires
        pts == 0 ==> frames_sent * frame_interval_ms(target_fps) <= u64::MAX,
    ensures
        pts > 0 ==> r == pts / 1_000_000,
        pts == 0 ==> r == frames_sent * frame_interval_ms(target_fps),
{
    if pts > 0 {
        pts / 1_000_000
    } else {
        let interval: u64 = if target_fps == 0 { 1000 } else { 1000 / (target_fps as u64) };
        assert(interval == frame_interval_ms(target_fps));
        frames_sent * interval
    }
}

/// Synthesized timestamps never run backwards.
pub proof fn law_synthesized_timestamps_monotonic(sent: nat, later: nat, target_fps: u32)
    requires
        sent <= later,
    ensures
        sent * frame_interval_ms(target_fps) <= later * frame_interval_ms(target_fps),
{
    vstd::arithmetic::mul::lemma_mul_inequality(
        sent as int,
        later as int,
        frame_interval_ms(target_fps),
    );
}

/// Damaged area over frame area. A frame without damage or without area is `0 / 1`.
#[derive(Clone, Copy, Debug, PartialEq, Eq, Structural)]
pub struct DamageRatio {
    pub damage: u128,
    pub frame: u64,
}

/// Sum of the areas of regions, overlaps counted twice.
pub open spec fn total_area(s: Seq<DamageRegion>) -> nat
    decreases s.len(),
{
    if s.len() == 0 {
        0
    } else {
        total_area(s.drop_last()) + (s.last().width * s.last().height) as nat
    }
}

/// Fraction of the frame area covered by damage regions.
///
/// Region areas are summed without deduplication, so overlapping regions
/// inflate the ratio; a merged set does not.
pub fn compute_damage_ratio(regions: &[DamageRegion], width: u32, height: u32) -> (r: DamageRatio)
    ensures
        regions@.len() == 0 || width * height == 0 ==> r == (DamageRatio { damage: 0, frame: 1 }),
        regions@.len() > 0 && width * height != 0 ==> {
            &&& r.frame == width * height
            &&& r.damage == total_area(regions@)
        },
{
    let frame: u64 = DamageRegion::full_frame(width, height).area();
    if regions.len() == 0 || frame == 0 {
        return DamageRatio { damage: 0, frame: 1 };
    }
    let mut damage: u128 = 0;
    let mut i: usize = 0;
    while i < regions.len()
        invariant
            0 <= i <= regions@.len(),
            regions@.len() <= u64::MAX,
            damage == total_area(regions@.take(i as int)),
            damage <= i * u64::MAX,
        decreases regions@.len() - i,
    {
        assert(regions@.take(i as int + 1).drop_last() =~= regions@.take(i as int));
        assert(i * u64::MAX <= u64::MAX * u64::MAX) by (nonlinear_arith)
            requires
                i <= u64::MAX,
        ;
        damage = damage + regions[i].area() as u128;
        assert((i + 1) * u64::MAX == i * u64::MAX + u64::MAX) by (nonlinear_arith);
        i = i + 1;
    }
    assert(regions@.take(i as int) =~= regions@);
    DamageRatio { damage, frame }
}

/// The smallest region that holds every region of a non-empty sequence.
pub open spec fn bounding(s: Seq<DamageRegion>) -> DamageRegion
    decreases s.len(),
{
    if s.len() <= 1 {
        s[0]
    } else {
        bounding(s.drop_last()).spec_union(s.last())
    }
}

/// `out` is what the accumulator keeps of `input`: the input itself where it
/// holds at most one region; else its finest separated cover, or, where that
/// has more than `cap` members, its bounding region.
pub open spec fn normalized(
    input: Seq<DamageRegion>,
    cap: int,
    out: Seq<DamageRegion>,
) -> bool {
    if input.len() <= 1 {
        out == input
    } else {
        exists|merged: Seq<DamageRegion>| #[trigger]
            finest_cover(input, 0, merged) && out == (if merged.len() > cap {
                seq![bounding(merged)]
            } else {
                merged
            })
    }
}

/// Damage of frames that were consumed but not sent.
///
/// Compositor damage hints are one-shot: the regions of a skipped frame are
/// sent with a later one. The kept set is merged and capped.
pub struct DamageAccumulator {
    regions: Vec<DamageRegion>,
    cap: usize,
}

impl View for DamageAccumulator {
    type V = Seq<DamageRegion>;

    closed spec fn view(&self) -> Seq<DamageRegion> {
        self.regions@
    }
}

impl DamageAccumulator {
    /// Most regions kept. When it binds, the whole debt is replaced by its
    /// bounding region: a superset is sent rather than an update dropped.
    pub const DEFAULT_CAP: usize = 1024;

    /// The accumulator holds at most `DEFAULT_CAP` regions, pairwise apart.
    pub closed spec fn wf(self) -> bool {
        &&& self.cap == 1024
        &&& self.regions@.len() <= self.cap
        &&& separated(self.regions@, 0)
    }

    pub fn new() -> (r: Self)
        ensures
            r.wf(),
            r@ == Seq::<DamageRegion>::empty(),
    {
        DamageAccumulator { regions: Vec::new(), cap: Self::DEFAULT_CAP }
    }

    /// Replaces the debt with `send_set`, which already holds the prior debt, merged.
    pub fn absorb(&mut self, send_set: Vec<DamageRegion>)
        requires
            old(self).wf(),
            send_set@.len() > 1 ==> all_fit(send_set@),
        ensures
            final(self).wf(),
            normalized(send_set@, 1024, final(self)@),
            covers(final(self)@, send_set@),
            all_fit(send_set@) ==> all_fit(final(self)@),
    {
        let kept = normalize(send_set, self.cap);
        self.regions = kept;
    }

    /// Takes the whole debt and leaves none.
    pub fn take(&mut self) -> (r: Vec<DamageRegion>)
        requires
            old(self).wf(),
        ensures
            final(self).wf(),
            r@ == old(self)@,
            final(self)@ == Seq::<DamageRegion>::empty(),
    {
        let mut r: Vec<DamageRegion> = Vec::new();
        std::mem::swap(&mut r, &mut self.regions);
        r
    }

    /// Drops all debt.
    pub fn clear(&mut self)
        requires
            old(self).wf(),
        ensures
            final(self).wf(),
            final(self)@ == Seq::<DamageRegion>::empty(),
    {
        self.regions.clear();
    }

    pub fn is_empty(&self) -> (r: bool)
        ensures
            r == (self@.len() == 0),
    {
        self.regions.is_empty()
    }

    pub fn len(&self) -> (r: usize)
        ensures
            r == self@.len(),
    {
        self.regions.len()
    }

    /// The debt, for reading.
    pub fn regions(&self) -> (r: &[DamageRegion])
        ensures
            r@ == self@,
    {
        self.regions.as_slice()
    }

    /// No more than `DEFAULT_CAP` regions are ever kept, and no two of them touch.
    pub proof fn law_bounded_and_apart(&self)
        requires
            self.wf(),
        ensures
            self@.len() <= 1024,
            separated(self@, 0),
    {
    }
}

impl Default for DamageAccumulator {
    fn default() -> (r: Self)
        ensures
            r.wf(),
            r@ == Seq::<DamageRegion>::empty(),
    {
        DamageAccumulator::new()
    }
}

/// The smallest region that holds every region.
fn bounding_region(regions: &Vec<DamageRegion>) -> (r: DamageRegion)
    requires
        regions@.len() > 0,
        all_fit(regions@),
    ensures
        r == bounding(regions@),
        r.fits(),
        forall|k: int| 0 <= k < regions@.len() ==> (#[trigger] regions@[k]).within(r),
{
    let mut union = regions[0];
    let mut i: usize = 1;
    assert(regions@.take(1)[0] == regions@[0]);
    while i < regions.len()
        invariant
            1 <= i <= regions@.len(),
            all_fit(regions@),
            union.fits(),
            union == bounding(regions@.take(i as int)),
            forall|k: int| 0 <= k < i ==> (#[trigger] regions@[k]).within(union),
        decreases regions@.len() - i,
    {
        assert(regions@.take(i as int + 1).drop_last() =~= regions@.take(i as int));
        union = union.union(&regions[i]);
        i = i + 1;
    }
    assert(regions@.take(i as int) =~= regions@);
    union
}

proof fn lemma_box_covers(input: Seq<DamageRegion>, merged: Seq<DamageRegion>, b: DamageRegion)
    requires
        covers(merged, input),
        forall|k: int| 0 <= k < merged.len() ==> (#[trigger] merged[k]).within(b),
    ensures
        covers(seq![b], input),
{
    let f = seq![b];
    assert forall|k: int| 0 <= k < input.len() implies some_holds(f, #[trigger] input[k]) by {
        assert(some_holds(merged, input[k]));
        reveal(some_holds);
        let j = choose|j: int| 0 <= j < merged.len() && input[k].within(#[trigger] merged[j]);
        assert(input[k].within(f[0]));
    }
}

proof fn lemma_covers_itself(s: Seq<DamageRegion>)
    ensures
        covers(s, s),
{
    reveal(some_holds);
    assert forall|i: int| 0 <= i < s.len() implies some_holds(s, #[trigger] s[i]) by {
        assert(s[i].within(s[i]));
    }
}

/// Merges overlapping and adjacent regions; a merged set larger than `cap`
/// collapses to its bounding region.
fn normalize(regions: Vec<DamageRegion>, cap: usize) -> (r: Vec<DamageRegion>)
    requires
        regions@.len() > 1 ==> all_fit(regions@),
        cap >= 1,
    ensures
        normalized(regions@, cap as int, r@),
        r@.len() <= cap,
        separated(r@, 0),
        covers(r@, regions@),
        all_fit(regions@) ==> all_fit(r@),
{
    if regions.len() <= 1 {
        proof {
            lemma_covers_itself(regions@);
        }
        return regions;
    }
    let ghost input = regions@;
    let merged = merge_regions(regions, 0);
    if merged.len() <= cap {
        return merged;
    }
    let union = bounding_region(&merged);
    let mut out: Vec<DamageRegion> = Vec::new();
    out.push(union);
    proof {
        assert(out@ =~= seq![bounding(merged@)]);
        assert(finest_cover(input, 0, merged@));
        lemma_box_covers(input, merged@, union);
    }
    out
}

/// A skipped frame loses no damage: each pixel of the absorbed set is in the debt.
pub proof fn law_absorb_keeps_pixels(
    send_set: Seq<DamageRegion>,
    debt: Seq<DamageRegion>,
    px: int,
    py: int,
)
    requires
        covers(debt, send_set),
        any_has(send_set, px, py),
    ensures
        any_has(debt, px, py),
{
    reveal(some_holds);
    let i = choose|i: int| 0 <= i < send_set.len() && (#[trigger] send_set[i]).has(px, py);
    assert(some_holds(debt, send_set[i]));
    let j = choose|j: int| 0 <= j < debt.len() && send_set[i].within(#[trigger] debt[j]);
    assert(debt[j].has(px, py));
}

proof fn lemma_apart_are_distinct(s: Seq<DamageRegion>)
    requires
        separated(s, 0),
    ensures
        s.no_duplicates(),
{
    assert forall|i: int, j: int| 0 <= i < s.len() && 0 <= j < s.len() && i != j implies s[i]
        != s[j] by {
        assert(!s[i].near(s[j], 0));
    }
}

/// Absorbing the debt again, with nothing fresh, keeps the same regions: a
/// streak of skipped frames does not grow the debt.
pub proof fn law_absorb_of_debt_is_stable(debt: Seq<DamageRegion>, again: Seq<DamageRegion>)
    requires
        debt.len() <= 1024,
        separated(debt, 0),
        normalized(debt, 1024, again),
    ensures
        again.to_set() == debt.to_set(),
        again.len() == debt.len(),
{
    if debt.len() > 1 {
        let merged = choose|merged: Seq<DamageRegion>| #[trigger]
            finest_cover(debt, 0, merged) && again == (if merged.len() > 1024 {
                seq![bounding(merged)]
            } else {
                merged
            });
        crate::damage::law_merge_idempotent(debt, 0, merged);
        lemma_apart_are_distinct(debt);
        lemma_apart_are_distinct(merged);
        debt.unique_seq_to_set();
        merged.unique_seq_to_set();
    }
}

/// Whether to skip encoding because the client asked for no output.
///
/// Never before the client has had its first frame; only once the request has
/// been steady for a second; and no longer as soon as it is withdrawn.
/// `suppressed` is `None` where there is no such flag. Times are milliseconds.
pub fn should_skip_for_suppress(
    suppressed: Option<bool>,
    suppressed_since: Option<u64>,
    frames_sent: u64,
    now: u64,
) -> (r: bool)
    ensures
        r == (suppressed == Some(true) && frames_sent >= 1 && suppressed_since is Some && now
            - suppressed_since->0 >= 1000),
{
    let flag: bool = match suppressed {
        Some(f) => f,
        None => {
            return false;
        },
    };
    if frames_sent < 1 {
        return false;
    }
    match suppressed_since {
        Some(since) => flag && now >= since && now - since >= 1000,
        None => false,
    }
}

/// The AVC444-or-AVC420 decision with the reason for it, from the configured
/// preference, the client's capability and the configuration flag.
pub open spec fn avc444_decision(pref: Seq<char>, client: bool, config: bool) -> (bool, Seq<char>) {
    if pref == "avc420"@ {
        (false, "Codec preference: AVC420 forced by config"@)
    } else if pref == "avc444"@ {
        if client && config {
            (true, "Codec preference: AVC444 requested and supported"@)
        } else if !client {
            (
                false,
                "Codec preference: AVC444 requested but client doesn't support it, using AVC420"@,
            )
        } else {
            (false, "Codec preference: AVC444 requested but disabled in config, using AVC420"@)
        }
    } else if client && config {
        (true, "Codec preference: auto → AVC444 (client supports, enabled in config)"@)
    } else if !config {
        (false, "Codec preference: auto → AVC420 (AVC444 disabled in config)"@)
    } else {
        (false, "Codec preference: auto → AVC420 (client doesn't support AVC444)"@)
    }
}

/// Decides between AVC444 and AVC420. Any preference but `avc420` and `avc444`
/// counts as automatic.
pub fn resolve_avc444_enabled(
    codec_pref: &str,
    client_supports_avc444: bool,
    config_avc444_enabled: bool,
) -> (r: (bool, &'static str))
    ensures
        (r.0, r.1@) == avc444_decision(
            codec_pref@,
            client_supports_avc444,
            config_avc444_enabled,
        ),
{
    if same_text(codec_pref, "avc420") {
        (false, "Codec preference: AVC420 forced by config")
    } else if same_text(codec_pref, "avc444") {
        if client_supports_avc444 && config_avc444_enabled {
            (true, "Codec preference: AVC444 requested and supported")
        } else if !client_supports_avc444 {
            (
                false,
                "Codec preference: AVC444 requested but client doesn't support it, using AVC420",
            )
        } else {
            (false, "Codec preference: AVC444 requested but disabled in config, using AVC420")
        }
    } else if config_avc444_enabled && client_supports_avc444 {
        (true, "Codec preference: auto → AVC444 (client supports, enabled in config)")
    } else if !config_avc444_enabled {
        (false, "Codec preference: auto → AVC420 (AVC444 disabled in config)")
    } else {
        (false, "Codec preference: auto → AVC420 (client doesn't support AVC444)")
    }
}

/// AVC444 is used only when the client supports it and the configuration allows it.
pub proof fn law_avc444_needs_both(pref: Seq<char>, client: bool, config: bool)
    ensures
        avc444_decision(pref, client, config).0 ==> client && config,
        pref != "avc420"@ && client && config ==> avc444_decision(pref, client, config).0,
{
    reveal_strlit("avc420");
    reveal_strlit("avc444");
    assert("avc420"@[4] != "avc444"@[4]);
}

/// A non-negative fraction.
#[derive(Clone, Copy, Debug, PartialEq, Eq, Structural)]
pub struct Ratio {
    pub num: u64,
    pub den: u64,
}

/// `a` is greater than `b`.
pub open spec fn ratio_gt(a: Ratio, b: Ratio) -> bool {
    a.num * b.den > b.num * a.den
}

/// Result of the stress detector.
pub struct StressIdrEval {
    /// An early keyframe is to be requested.
    pub should_trigger: bool,
    /// Dropped frames over all frames of the window; `0 / 1` for an empty window.
    pub drop_rate: Ratio,
}

/// Dropped frames over all frames of a window.
pub open spec fn drop_rate(dropped: u64, sent: u64) -> Ratio {
    if dropped + sent > 0 {
        Ratio { num: dropped, den: (dropped + sent) as u64 }
    } else {
        Ratio { num: 0, den: 1 }
    }
}

/// Decides whether sustained frame drops warrant an early keyframe: the drop
/// rate exceeds the threshold, at least five frames were seen, and both the
/// cooldown and the gap since the last keyframe have passed.
pub fn evaluate_stress_idr_trigger(
    dropped_in_window: u64,
    sent_in_window: u64,
    drop_rate_threshold: Ratio,
    cooldown_elapsed_ms: u64,
    cooldown_ms: u64,
    ms_since_last_idr: u64,
    min_idr_gap_ms: u64,
) -> (r: StressIdrEval)
    requires
        dropped_in_window + sent_in_window <= u64::MAX,
        drop_rate_threshold.den > 0,
    ensures
        r.drop_rate == drop_rate(dropped_in_window, sent_in_window),
        r.should_trigger == (ratio_gt(r.drop_rate, drop_rate_threshold) && dropped_in_window
            + sent_in_window >= 5 && cooldown_elapsed_ms > cooldown_ms && ms_since_last_idr
            > min_idr_gap_ms),
{
    let total: u64 = dropped_in_window + sent_in_window;
    let rate = if total > 0 {
        Ratio { num: dropped_in_window, den: total }
    } else {
        Ratio { num: 0, den: 1 }
    };
    assert(rate.num * drop_rate_threshold.den <= u64::MAX * u64::MAX) by (nonlinear_arith)
        requires
            rate.num <= u64::MAX,
            drop_rate_threshold.den <= u64::MAX,
    ;
    assert(drop_rate_threshold.num * rate.den <= u64::MAX * u64::MAX) by (nonlinear_arith)
        requires
            rate.den <= u64::MAX,
            drop_rate_threshold.num <= u64::MAX,
    ;
    let exceeds = rate.num as u128 * drop_rate_threshold.den as u128 > drop_rate_threshold.num
        as u128 * rate.den as u128;
    let should_trigger = exceeds && total >= 5 && cooldown_elapsed_ms > cooldown_ms
        && ms_since_last_idr > min_idr_gap_ms;
    StressIdrEval { should_trigger, drop_rate: rate }
}

/// Result of the trust evaluation of compositor hints.
pub struct CompositorTrustEval {
    /// Samples over the threshold in a row; goes into the next call.
    pub new_consecutive_count: u32,
    /// Compositor hints are to be distrusted for the rest of the connection.
    pub should_distrust: bool,
}

/// The magnitude of a divergence exceeds a threshold.
pub open spec fn exceeds(divergence: int, threshold: int) -> bool {
    divergence > threshold || -divergence > threshold
}

/// Decides whether compositor damage hints are still trusted, after one
/// calibration sample.
///
/// Only `required_consecutive` samples over the threshold in a row distrust; a
/// sample within it starts the count anew. Divergence and threshold are in one
/// unit of the caller's choice.
pub fn evaluate_compositor_trust(
    divergence_pp: i64,
    consecutive_high_divergence: u32,
    threshold_pp: i64,
    required_consecutive: u32,
) -> (r: CompositorTrustEval)
    requires
        exceeds(divergence_pp as int, threshold_pp as int) ==> consecutive_high_divergence
            < u32::MAX,
    ensures
        r.new_consecutive_count == (if exceeds(divergence_pp as int, threshold_pp as int) {
            consecutive_high_divergence + 1
        } else {
            0
        }),
        r.should_distrust == (r.new_consecutive_count >= required_consecutive),
{
    let d: i128 = divergence_pp as i128;
    let t: i128 = threshold_pp as i128;
    let new_consecutive_count: u32 = if d > t || -d > t {
        consecutive_high_divergence + 1
    } else {
        0
    };
    CompositorTrustEval {
        new_consecutive_count,
        should_distrust: new_consecutive_count >= required_consecutive,
    }
}

/// The larger of two numbers.
pub open spec fn larger(a: int, b: int) -> int {
    if a >= b {
        a
    } else {
        b
    }
}

/// The smaller of two numbers.
pub open spec fn smaller(a: int, b: int) -> int {
    if a <= b {
        a
    } else {
        b
    }
}

/// The two regions share a pixel.
pub open spec fn overlap(p: DamageRegion, c: DamageRegion) -> bool {
    larger(p.x as int, c.x as int) < smaller(p.right(), c.right()) && larger(
        p.y as int,
        c.y as int,
    ) < smaller(p.bottom(), c.bottom())
}

/// One region, or none where `present` is false.
pub open spec fn band(present: bool, x: int, y: int, width: int, height: int) -> Seq<DamageRegion> {
    if present {
        seq![DamageRegion { x: x as u32, y: y as u32, width: width as u32, height: height as u32 }]
    } else {
        seq![]
    }
}

/// `p` without `c`: the bands of `p` to the left of, to the right of, above and
/// below what the two share; `p` itself where they share nothing.
pub open spec fn clip(p: DamageRegion, c: DamageRegion) -> Seq<DamageRegion> {
    if !overlap(p, c) {
        seq![p]
    } else {
        let left = larger(p.x as int, c.x as int);
        let top = larger(p.y as int, c.y as int);
        let right = smaller(p.right(), c.right());
        let bottom = smaller(p.bottom(), c.bottom());
        band(left > p.x, p.x as int, p.y as int, left - p.x, p.height as int) + band(
            right < p.right(),
            right,
            p.y as int,
            p.right() - right,
            p.height as int,
        ) + band(top > p.y, left, p.y as int, right - left, top - p.y) + band(
            bottom < p.bottom(),
            left,
            bottom,
            right - left,
            p.bottom() - bottom,
        )
    }
}

/// Each piece without `c`, in order.
pub open spec fn clip_all(pieces: Seq<DamageRegion>, c: DamageRegion) -> Seq<DamageRegion>
    decreases pieces.len(),
{
    if pieces.len() == 0 {
        seq![]
    } else {
        clip_all(pieces.drop_last(), c) + clip(pieces.last(), c)
    }
}

/// The pieces of `r` outside every covered region, or `None` where taking the
/// covered regions away one by one leaves more than 256 pieces at some point.
pub open spec fn fragments(r: DamageRegion, covered: Seq<DamageRegion>) -> Option<Seq<DamageRegion>>
    decreases covered.len(),
{
    if covered.len() == 0 {
        Some(seq![r])
    } else {
        match fragments(r, covered.drop_last()) {
            None => None,
            Some(pieces) => {
                let next = clip_all(pieces, covered.last());
                if next.len() > 256 {
                    None
                } else {
                    Some(next)
                }
            },
        }
    }
}

/// What is sent of `r`: its uncovered pieces, or all of it where those are too many.
pub open spec fn remainder(r: DamageRegion, covered: Seq<DamageRegion>) -> Seq<DamageRegion> {
    match fragments(r, covered) {
        Some(pieces) => pieces,
        None => seq![r],
    }
}

/// What is sent of each region, in order.
pub open spec fn remainders(
    regions: Seq<DamageRegion>,
    covered: Seq<DamageRegion>,
) -> Seq<DamageRegion>
    decreases regions.len(),
{
    if regions.len() == 0 {
        seq![]
    } else {
        remainders(regions.drop_last(), covered) + remainder(regions.last(), covered)
    }
}

/// Some covered region spans the whole frame.
pub open spec fn spans_frame(covered: Seq<DamageRegion>, width: u32, height: u32) -> bool {
    exists|i: int|
        0 <= i < covered.len() && (#[trigger] covered[i]).x == 0 && covered[i].y == 0
            && covered[i].width >= width && covered[i].height >= height
}

/// What `subtract_regions` returns.
pub open spec fn subtracted(
    regions: Seq<DamageRegion>,
    covered: Seq<DamageRegion>,
    width: u32,
    height: u32,
) -> Seq<DamageRegion> {
    if regions.len() == 0 || covered.len() == 0 {
        regions
    } else if spans_frame(covered, width, height) {
        seq![]
    } else {
        remainders(regions, covered)
    }
}

fn max_u32(a: u32, b: u32) -> (r: u32)
    ensures
        r == larger(a as int, b as int),
{
    if a >= b {
        a
    } else {
        b
    }
}

fn min_u32(a: u32, b: u32) -> (r: u32)
    ensures
        r == smaller(a as int, b as int),
{
    if a <= b {
        a
    } else {
        b
    }
}

proof fn lemma_clip_fits(p: DamageRegion, c: DamageRegion)
    requires
        p.fits(),
        c.fits(),
    ensures
        all_fit(clip(p, c)),
        clip(p, c).len() <= 4,
{
}

/// Appends `p` without `c`.
fn push_clip(out: &mut Vec<DamageRegion>, p: DamageRegion, c: DamageRegion)
    requires
        p.fits(),
        c.fits(),
    ensures
        final(out)@ == old(out)@ + clip(p, c),
{
    let ix: u32 = max_u32(p.x, c.x);
    let iy: u32 = max_u32(p.y, c.y);
    let p_x2: u32 = p.x + p.width;
    let p_y2: u32 = p.y + p.height;
    let ix2: u32 = min_u32(p_x2, c.x + c.width);
    let iy2: u32 = min_u32(p_y2, c.y + c.height);
    if ix >= ix2 || iy >= iy2 {
        out.push(p);
        assert(out@ =~= old(out)@ + clip(p, c));
        return;
    }
    if ix > p.x {
        out.push(DamageRegion::new(p.x, p.y, ix - p.x, p.height));
    }
    if ix2 < p_x2 {
        out.push(DamageRegion::new(ix2, p.y, p_x2 - ix2, p.height));
    }
    if iy > p.y {
        out.push(DamageRegion::new(ix, p.y, ix2 - ix, iy - p.y));
    }
    if iy2 < p_y2 {
        out.push(DamageRegion::new(ix, iy2, ix2 - ix, p_y2 - iy2));
    }
    assert(out@ =~= old(out)@ + clip(p, c));
}

/// Each piece without `c`.
fn clip_pieces(pieces: &Vec<DamageRegion>, c: DamageRegion) -> (r: Vec<DamageRegion>)
    requires
        all_fit(pieces@),
        c.fits(),
    ensures
        r@ == clip_all(pieces@, c),
        all_fit(r@),
{
    let mut out: Vec<DamageRegion> = Vec::new();
    let mut k: usize = 0;
    while k < pieces.len()
        invariant
            0 <= k <= pieces@.len(),
            all_fit(pieces@),
            c.fits(),
            out@ == clip_all(pieces@.take(k as int), c),
            all_fit(out@),
        decreases pieces@.len() - k,
    {
        assert(pieces@.take(k as int + 1).drop_last() =~= pieces@.take(k as int));
        proof {
            lemma_clip_fits(pieces@[k as int], c);
        }
        push_clip(&mut out, pieces[k], c);
        k = k + 1;
    }
    assert(pieces@.take(k as int) =~= pieces@);
    out
}

proof fn lemma_no_fragments_left(r: DamageRegion, covered: Seq<DamageRegion>, k: int)
    requires
        0 <= k <= covered.len(),
        fragments(r, covered.take(k)) == Some(Seq::<DamageRegion>::empty()),
    ensures
        fragments(r, covered) == Some(Seq::<DamageRegion>::empty()),
    decreases covered.len() - k,
{
    if k < covered.len() {
        assert(covered.take(k + 1).drop_last() =~= covered.take(k));
        assert(clip_all(Seq::<DamageRegion>::empty(), covered[k]) =~= Seq::<
            DamageRegion,
        >::empty());
        lemma_no_fragments_left(r, covered, k + 1);
    } else {
        assert(covered.take(k) =~= covered);
    }
}

proof fn lemma_too_many_fragments(r: DamageRegion, covered: Seq<DamageRegion>, k: int)
    requires
        0 <= k <= covered.len(),
        fragments(r, covered.take(k)) is None,
    ensures
        fragments(r, covered) is None,
    decreases covered.len() - k,
{
    if k < covered.len() {
        assert(covered.take(k + 1).drop_last() =~= covered.take(k));
        lemma_too_many_fragments(r, covered, k + 1);
    } else {
        assert(covered.take(k) =~= covered);
    }
}

/// What is sent of `r`.
fn uncovered_pieces(r: DamageRegion, covered: &[DamageRegion]) -> (out: Vec<DamageRegion>)
    requires
        r.fits(),
        all_fit(covered@),
    ensures
        out@ == remainder(r, covered@),
{
    let mut pieces: Vec<DamageRegion> = Vec::new();
    pieces.push(r);
    assert(pieces@ =~= seq![r]);
    let mut k: usize = 0;
    while k < covered.len()
        invariant
            0 <= k <= covered@.len(),
            all_fit(covered@),
            all_fit(pieces@),
            fragments(r, covered@.take(k as int)) == Some(pieces@),
        decreases covered@.len() - k,
    {
        assert(covered@.take(k as int + 1).drop_last() =~= covered@.take(k as int));
        pieces = clip_pieces(&pieces, covered[k]);
        if pieces.len() == 0 {
            assert(pieces@ =~= Seq::<DamageRegion>::empty());
            proof {
                lemma_no_fragments_left(r, covered@, k as int + 1);
            }
            return pieces;
        }
        if pieces.len() > 256 {
            proof {
                lemma_too_many_fragments(r, covered@, k as int + 1);
            }
            let mut whole: Vec<DamageRegion> = Vec::new();
            whole.push(r);
            assert(whole@ =~= seq![r]);
            return whole;
        }
        k = k + 1;
    }
    assert(covered@.take(k as int) =~= covered@);
    pieces
}

/// The parts of `regions` that `covered` does not cover.
///
/// Each region is cut along the edges of the covered regions, in order, into
/// at most four bands per cut. A region that would fall into more than 256
/// pieces is returned whole: sending too much is safe, sending too little
/// leaves stale pixels. A covered region that spans the frame leaves nothing.
pub fn subtract_regions(
    regions: &[DamageRegion],
    covered: &[DamageRegion],
    frame_width: u32,
    frame_height: u32,
) -> (out: Vec<DamageRegion>)
    requires
        regions@.len() > 0 && covered@.len() > 0 && !spans_frame(
            covered@,
            frame_width,
            frame_height,
        ) ==> all_fit(regions@) && all_fit(covered@),
    ensures
        out@ == subtracted(regions@, covered@, frame_width, frame_height),
{
    if regions.len() == 0 || covered.len() == 0 {
        return vstd::slice::slice_to_vec(regions);
    }
    let mut c: usize = 0;
    while c < covered.len()
        invariant
            0 <= c <= covered@.len(),
            forall|i: int|
                0 <= i < c ==> !((#[trigger] covered@[i]).x == 0 && covered@[i].y == 0
                    && covered@[i].width >= frame_width && covered@[i].height >= frame_height),
        decreases covered@.len() - c,
    {
        if covered[c].x == 0 && covered[c].y == 0 && covered[c].width >= frame_width
            && covered[c].height >= frame_height {
            assert(spans_frame(covered@, frame_width, frame_height));
            let none: Vec<DamageRegion> = Vec::new();
            assert(none@ =~= seq![]);
            return none;
        }
        c = c + 1;
    }
    let mut out: Vec<DamageRegion> = Vec::new();
    assert(out@ =~= seq![]);
    let mut i: usize = 0;
    while i < regions.len()
        invariant
            0 <= i <= regions@.len(),
            all_fit(regions@),
            all_fit(covered@),
            out@ == remainders(regions@.take(i as int), covered@),
        decreases regions@.len() - i,
    {
        assert(regions@.take(i as int + 1).drop_last() =~= regions@.take(i as int));
        let mut pieces = uncovered_pieces(regions[i], covered);
        out.append(&mut pieces);
        i = i + 1;
    }
    assert(regions@.take(i as int) =~= regions@);
    out
}

proof fn lemma_any_has_concat(a: Seq<DamageRegion>, b: Seq<DamageRegion>, px: int, py: int)
    ensures
        any_has(a + b, px, py) == (any_has(a, px, py) || any_has(b, px, py)),
{
    let s = a + b;
    if any_has(a, px, py) {
        let i = choose|i: int| 0 <= i < a.len() && (#[trigger] a[i]).has(px, py);
        assert(s[i].has(px, py));
    }
    if any_has(b, px, py) {
        let i = choose|i: int| 0 <= i < b.len() && (#[trigger] b[i]).has(px, py);
        assert(s[a.len() + i].has(px, py));
    }
    if any_has(s, px, py) {
        let i = choose|i: int| 0 <= i < s.len() && (#[trigger] s[i]).has(px, py);
        if i < a.len() {
            assert(a[i].has(px, py));
        } else {
            assert(b[i - a.len()].has(px, py));
        }
    }
}

proof fn lemma_band_has(
    present: bool,
    x: int,
    y: int,
    width: int,
    height: int,
    px: int,
    py: int,
)
    requires
        present ==> 0 <= x && 0 <= y && 0 <= width && 0 <= height && x + width <= u32::MAX && y
            + height <= u32::MAX,
    ensures
        any_has(band(present, x, y, width, height), px, py) == (present && x <= px < x + width
            && y <= py < y + height),
{
    let b = band(present, x, y, width, height);
    if present {
        assert(b[0].has(px, py) == (x <= px < x + width && y <= py < y + height));
        if any_has(b, px, py) {
            let i = choose|i: int| 0 <= i < b.len() && (#[trigger] b[i]).has(px, py);
            assert(i == 0);
        }
    }
}

/// Taking one covered region away is exact: a pixel stays in iff it was in and is not covered.
pub proof fn law_clip_exact(p: DamageRegion, c: DamageRegion, px: int, py: int)
    requires
        p.fits(),
        c.fits(),
    ensures
        any_has(clip(p, c), px, py) == (p.has(px, py) && !c.has(px, py)),
{
    if !overlap(p, c) {
        let s = clip(p, c);
        assert(s[0] == p);
        if any_has(s, px, py) {
            let i = choose|i: int| 0 <= i < s.len() && (#[trigger] s[i]).has(px, py);
            assert(i == 0);
        }
    } else {
        let left = larger(p.x as int, c.x as int);
        let top = larger(p.y as int, c.y as int);
        let right = smaller(p.right(), c.right());
        let bottom = smaller(p.bottom(), c.bottom());
        let b1 = band(left > p.x, p.x as int, p.y as int, left - p.x, p.height as int);
        let b2 = band(right < p.right(), right, p.y as int, p.right() - right, p.height as int);
        let b3 = band(top > p.y, left, p.y as int, right - left, top - p.y);
        let b4 = band(bottom < p.bottom(), left, bottom, right - left, p.bottom() - bottom);
        lemma_band_has(left > p.x, p.x as int, p.y as int, left - p.x, p.height as int, px, py);
        lemma_band_has(
            right < p.right(),
            right,
            p.y as int,
            p.right() - right,
            p.height as int,
            px,
            py,
        );
        lemma_band_has(top > p.y, left, p.y as int, right - left, top - p.y, px, py);
        lemma_band_has(
            bottom < p.bottom(),
            left,
            bottom,
            right - left,
            p.bottom() - bottom,
            px,
            py,
        );
        lemma_any_has_concat(b1, b2, px, py);
        lemma_any_has_concat(b1 + b2, b3, px, py);
        lemma_any_has_concat(b1 + b2 + b3, b4, px, py);
    }
}

proof fn lemma_clip_all_exact(pieces: Seq<DamageRegion>, c: DamageRegion, px: int, py: int)
    requires
        all_fit(pieces),
        c.fits(),
    ensures
        any_has(clip_all(pieces, c), px, py) == (any_has(pieces, px, py) && !c.has(px, py)),
        all_fit(clip_all(pieces, c)),
    decreases pieces.len(),
{
    if pieces.len() > 0 {
        let init = pieces.drop_last();
        lemma_clip_all_exact(init, c, px, py);
        law_clip_exact(pieces.last(), c, px, py);
        lemma_clip_fits(pieces.last(), c);
        lemma_any_has_concat(clip_all(init, c), clip(pieces.last(), c), px, py);
        lemma_any_has_concat(init, seq![pieces.last()], px, py);
        assert(init + seq![pieces.last()] =~= pieces);
        let one = seq![pieces.last()];
        assert(one[0] == pieces.last());
        if any_has(one, px, py) {
            let i = choose|i: int| 0 <= i < one.len() && (#[trigger] one[i]).has(px, py);
            assert(i == 0);
        }
    }
}

/// The uncovered pieces of a region are exactly its pixels outside every covered region.
pub proof fn law_fragments_exact(
    r: DamageRegion,
    covered: Seq<DamageRegion>,
    px: int,
    py: int,
)
    requires
        r.fits(),
        all_fit(covered),
        fragments(r, covered) is Some,
    ensures
        any_has(fragments(r, covered)->0, px, py) == (r.has(px, py) && !any_has(covered, px, py)),
        all_fit(fragments(r, covered)->0),
    decreases covered.len(),
{
    if covered.len() == 0 {
        let one = seq![r];
        assert(one[0] == r);
        if any_has(one, px, py) {
            let i = choose|i: int| 0 <= i < one.len() && (#[trigger] one[i]).has(px, py);
            assert(i == 0);
        }
    } else {
        let init = covered.drop_last();
        law_fragments_exact(r, init, px, py);
        let pieces = fragments(r, init)->0;
        lemma_clip_all_exact(pieces, covered.last(), px, py);
        lemma_any_has_concat(init, seq![covered.last()], px, py);
        assert(init + seq![covered.last()] =~= covered);
        let one = seq![covered.last()];
        assert(one[0] == covered.last());
        if any_has(one, px, py) {
            let i = choose|i: int| 0 <= i < one.len() && (#[trigger] one[i]).has(px, py);
            assert(i == 0);
        }
    }
}

/// Subtraction loses no uncovered pixel, adds none, and removes every covered
/// pixel of a region that was cut rather than returned whole.
pub proof fn law_subtract_pixels(
    regions: Seq<DamageRegion>,
    covered: Seq<DamageRegion>,
    px: int,
    py: int,
)
    requires
        all_fit(regions),
        all_fit(covered),
    ensures
        any_has(regions, px, py) && !any_has(covered, px, py) ==> any_has(
            remainders(regions, covered),
            px,
            py,
        ),
        any_has(remainders(regions, covered), px, py) ==> any_has(regions, px, py),
        (forall|i: int|
            0 <= i < regions.len() ==> fragments(#[trigger] regions[i], covered) is Some) ==> (
        any_has(remainders(regions, covered), px, py) == (any_has(regions, px, py) && !any_has(
            covered,
            px,
            py,
        ))),
    decreases regions.len(),
{
    if regions.len() > 0 {
        let init = regions.drop_last();
        let r = regions.last();
        law_subtract_pixels(init, covered, px, py);
        let one = seq![r];
        assert(one[0] == r);
        if any_has(one, px, py) {
            let i = choose|i: int| 0 <= i < one.len() && (#[trigger] one[i]).has(px, py);
            assert(i == 0);
        }
        if fragments(r, covered) is Some {
            law_fragments_exact(r, covered, px, py);
        }
        lemma_any_has_concat(remainders(init, covered), remainder(r, covered), px, py);
        lemma_any_has_concat(init, one, px, py);
        assert(init + one =~= regions);
        if forall|i: int|
            0 <= i < regions.len() ==> fragments(#[trigger] regions[i], covered) is Some {
            assert(forall|i: int| 0 <= i < init.len() ==> init[i] == regions[i]);
            assert(fragments(regions[regions.len() - 1], covered) is Some);
        }
    }
}

/// No region contributes more than 256 pieces.
pub proof fn law_subtract_bounded(regions: Seq<DamageRegion>, covered: Seq<DamageRegion>)
    ensures
        remainders(regions, covered).len() <= 256 * regions.len(),
    decreases regions.len(),
{
    if regions.len() > 0 {
        law_subtract_bounded(regions.drop_last(), covered);
        assert(remainder(regions.last(), covered).len() <= 256);
    }
}

/// Number of pixels that two regions share.
pub open spec fn shared_area(p: DamageRegion, c: DamageRegion) -> int {
    if overlap(p, c) {
        (smaller(p.right(), c.right()) - larger(p.x as int, c.x as int)) * (smaller(
            p.bottom(),
            c.bottom(),
        ) - larger(p.y as int, c.y as int))
    } else {
        0
    }
}

proof fn lemma_total_area_concat(a: Seq<DamageRegion>, b: Seq<DamageRegion>)
    ensures
        total_area(a + b) == total_area(a) + total_area(b),
    decreases b.len(),
{
    if b.len() == 0 {
        assert(a + b =~= a);
    } else {
        assert((a + b).drop_last() =~= a + b.drop_last());
        lemma_total_area_concat(a, b.drop_last());
    }
}

proof fn lemma_band_area(present: bool, x: int, y: int, width: int, height: int)
    requires
        present ==> 0 <= x <= u32::MAX && 0 <= y <= u32::MAX && 0 <= width <= u32::MAX && 0
            <= height <= u32::MAX,
        !present ==> width == 0 || height == 0,
    ensures
        total_area(band(present, x, y, width, height)) == width * height,
{
    let b = band(present, x, y, width, height);
    if present {
        assert(b.drop_last() =~= Seq::<DamageRegion>::empty());
        assert(total_area(b.drop_last()) == 0);
        assert(b.last().width == width && b.last().height == height);
        assert(width * height >= 0) by (nonlinear_arith)
            requires
                width >= 0,
                height >= 0,
        ;
    } else {
        assert(b =~= Seq::<DamageRegion>::empty());
        assert(width * height == 0) by (nonlinear_arith)
            requires
                width == 0 || height == 0,
        ;
    }
}

/// Cutting conserves area: the bands and the shared part add up to the region.
pub proof fn law_clip_conserves_area(p: DamageRegion, c: DamageRegion)
    requires
        p.fits(),
        c.fits(),
    ensures
        total_area(clip(p, c)) + shared_area(p, c) == p.width * p.height,
{
    if !overlap(p, c) {
        let s = clip(p, c);
        assert(s.drop_last() =~= Seq::<DamageRegion>::empty());
        assert(total_area(s.drop_last()) == 0);
        assert(p.width * p.height >= 0) by (nonlinear_arith)
            requires
                p.width >= 0,
                p.height >= 0,
        ;
    } else {
        let left = larger(p.x as int, c.x as int);
        let top = larger(p.y as int, c.y as int);
        let right = smaller(p.right(), c.right());
        let bottom = smaller(p.bottom(), c.bottom());
        let b1 = band(left > p.x, p.x as int, p.y as int, left - p.x, p.height as int);
        let b2 = band(right < p.right(), right, p.y as int, p.right() - right, p.height as int);
        let b3 = band(top > p.y, left, p.y as int, right - left, top - p.y);
        let b4 = band(bottom < p.bottom(), left, bottom, right - left, p.bottom() - bottom);
        lemma_band_area(left > p.x, p.x as int, p.y as int, left - p.x, p.height as int);
        lemma_band_area(right < p.right(), right, p.y as int, p.right() - right, p.height as int);
        lemma_band_area(top > p.y, left, p.y as int, right - left, top - p.y);
        lemma_band_area(bottom < p.bottom(), left, bottom, right - left, p.bottom() - bottom);
        lemma_total_area_concat(b1, b2);
        lemma_total_area_concat(b1 + b2, b3);
        lemma_total_area_concat(b1 + b2 + b3, b4);
        let w = p.width as int;
        let h = p.height as int;
        let x = p.x as int;
        let y = p.y as int;
        assert((left - x) * h + (x + w - right) * h + (right - left) * (top - y) + (right - left)
            * (y + h - bottom) + (right - left) * (bottom - top) == w * h) by (nonlinear_arith);
    }
}

/// The interval is the largest number of whole milliseconds of which as many as the frame
/// rate fit in a second.
pub proof fn law_frame_interval(target_fps: u32)
    ensures
        target_fps == 0 ==> frame_interval_ms(target_fps) == 1000,
        target_fps > 0 ==> frame_interval_ms(target_fps) * target_fps <= 1000 < (
        frame_interval_ms(target_fps) + 1) * target_fps,
{
    if target_fps > 0 {
        let f = target_fps as int;
        let q = 1000int / f;
        vstd::arithmetic::div_mod::lemma_fundamental_div_mod(1000, f);
        assert(q * f <= 1000 < (q + 1) * f) by (nonlinear_arith)
            requires
                1000 == f * q + 1000int % f,
                0 <= 1000int % f < f,
        ;
    }
}

/// Areas add up, each region counting its width times its height.
pub proof fn law_areas_add_up(s: Seq<DamageRegion>, r: DamageRegion, t: Seq<DamageRegion>)
    ensures
        total_area(Seq::<DamageRegion>::empty()) == 0,
        total_area(s.push(r)) == total_area(s) + r.width * r.height,
        total_area(s + t) == total_area(s) + total_area(t),
{
    assert(s.push(r).drop_last() =~= s);
    assert(r.width * r.height >= 0) by (nonlinear_arith)
        requires
            r.width >= 0,
            r.height >= 0,
    ;
    lemma_total_area_concat(s, t);
}

/// The bounding region holds every region, and lies in each region that does.
pub proof fn law_bounding_is_smallest(s: Seq<DamageRegion>, i: int, r: DamageRegion)
    requires
        0 <= i < s.len(),
        all_fit(s),
    ensures
        s[i].within(bounding(s)),
        bounding(s).fits(),
        (forall|k: int| 0 <= k < s.len() ==> (#[trigger] s[k]).within(r)) ==> bounding(s).within(
            r,
        ),
    decreases s.len(),
{
    if s.len() > 1 {
        let init = s.drop_last();
        assert(all_fit(init)) by {
            assert(forall|k: int| 0 <= k < init.len() ==> init[k] == s[k]);
        }
        let j = if i < init.len() {
            i
        } else {
            0
        };
        assert(init[j] == s[j]);
        law_bounding_is_smallest(init, j, r);
        assert(s.last() == s[s.len() - 1]);
        if forall|k: int| 0 <= k < s.len() ==> (#[trigger] s[k]).within(r) {
            assert forall|k: int| 0 <= k < init.len() implies (#[trigger] init[k]).within(r) by {
                assert(init[k] == s[k]);
            }
        }
    }
}

/// What the debt keeps: a single region as it is, few regions merged as far as they touch
/// and no further, and too many as the one region around them.
pub proof fn law_debt_is_kept_small(
    a: DamageRegion,
    b: DamageRegion,
    out: Seq<DamageRegion>,
)
    requires
        b.x > a.x + a.width || b.y > a.y + a.height,
        normalized(seq![a, b], 1024, out),
    ensures
        out.contains(a) && out.contains(b),
        out.len() == 2,
{
    let s = seq![a, b];
    let merged = choose|merged: Seq<DamageRegion>| #[trigger]
        finest_cover(s, 0, merged) && out == (if merged.len() > 1024 {
            seq![bounding(merged)]
        } else {
            merged
        });
    crate::damage::law_merge_joins_only_the_near(a, b, 0, merged);
    assert(separated(s, 0));
    assert(s[0] == a && s[1] == b);
    lemma_apart_are_distinct(s);
    lemma_apart_are_distinct(merged);
    crate::damage::law_merge_idempotent(s, 0, merged);
    s.unique_seq_to_set();
    merged.unique_seq_to_set();
}

/// AVC420 is never refused to whoever asks for it, and AVC444 is used exactly where client
/// and configuration allow it and nobody asks for AVC420.
pub proof fn law_avc420_on_request(pref: Seq<char>, client: bool, config: bool)
    ensures
        !avc444_decision("avc420"@, client, config).0,
        avc444_decision("avc444"@, client, config).0 <==> client && config,
        avc444_decision(pref, client, config).0 <==> pref != "avc420"@ && client && config,
        avc444_decision("avc420"@, client, config).1
            == "Codec preference: AVC420 forced by config"@,
{
    law_avc444_needs_both(pref, client, config);
    reveal_strlit("avc420");
    reveal_strlit("avc444");
    assert("avc420"@[4] != "avc444"@[4]);
}

/// The rate of drops is over a threshold exactly where the dropped frames are more than
/// that share of all frames; a window without frames has none.
pub proof fn law_drop_rate(dropped: u64, sent: u64, threshold: Ratio)
    requires
        dropped + sent <= u64::MAX,
        threshold.den > 0,
    ensures
        dropped + sent > 0 ==> (ratio_gt(drop_rate(dropped, sent), threshold) <==> dropped
            * threshold.den > threshold.num * (dropped + sent)),
        dropped == 0 ==> !ratio_gt(drop_rate(dropped, sent), threshold),
        drop_rate(dropped, sent).den > 0,
        drop_rate(dropped, sent).num <= drop_rate(dropped, sent).den,
{
    assert(0int * threshold.den == 0) by (nonlinear_arith);
    assert(threshold.num * drop_rate(dropped, sent).den >= 0) by (nonlinear_arith)
        requires
            threshold.num >= 0,
            drop_rate(dropped, sent).den >= 0,
    ;
}

/// A divergence is too large exactly where it is not within the threshold, either way.
pub proof fn law_divergence(divergence: int, threshold: int)
    requires
        threshold >= 0,
    ensures
        exceeds(divergence, threshold) <==> !(-threshold <= divergence && divergence <= threshold),
        exceeds(divergence, threshold) == exceeds(-divergence, threshold),
{
}

proof fn lemma_clip_count(pieces: Seq<DamageRegion>, c: DamageRegion)
    ensures
        clip_all(pieces, c).len() <= 4 * pieces.len(),
    decreases pieces.len(),
{
    if pieces.len() > 0 {
        lemma_clip_count(pieces.drop_last(), c);
    }
}

proof fn lemma_fragment_count(r: DamageRegion, covered: Seq<DamageRegion>)
    requires
        covered.len() <= 4,
    ensures
        fragments(r, covered) is Some,
        covered.len() == 0 ==> fragments(r, covered)->0.len() <= 1,
        covered.len() == 1 ==> fragments(r, covered)->0.len() <= 4,
        covered.len() == 2 ==> fragments(r, covered)->0.len() <= 16,
        covered.len() == 3 ==> fragments(r, covered)->0.len() <= 64,
        covered.len() == 4 ==> fragments(r, covered)->0.len() <= 256,
    decreases covered.len(),
{
    if covered.len() > 0 {
        lemma_fragment_count(r, covered.drop_last());
        lemma_clip_count(fragments(r, covered.drop_last())->0, covered.last());
    }
}

/// What is left of damage after what was sent is taken away. No damaged pixel of the frame
/// gets lost, none comes in, and where up to four regions were sent none of theirs is
/// left.
pub proof fn law_subtraction(
    regions: Seq<DamageRegion>,
    covered: Seq<DamageRegion>,
    width: u32,
    height: u32,
    px: int,
    py: int,
)
    requires
        all_fit(regions),
        all_fit(covered),
        0 <= px < width,
        0 <= py < height,
    ensures
        any_has(regions, px, py) && !any_has(covered, px, py) ==> any_has(
            subtracted(regions, covered, width, height),
            px,
            py,
        ),
        any_has(subtracted(regions, covered, width, height), px, py) ==> any_has(regions, px, py),
        covered.len() <= 4 && any_has(covered, px, py) ==> !any_has(
            subtracted(regions, covered, width, height),
            px,
            py,
        ),
{
    law_subtract_pixels(regions, covered, px, py);
    if covered.len() <= 4 {
        assert forall|i: int| 0 <= i < regions.len() implies fragments(
            #[trigger] regions[i],
            covered,
        ) is Some by {
            lemma_fragment_count(regions[i], covered);
        }
    }
    if covered.len() > 0 && spans_frame(covered, width, height) {
        let i = choose|i: int|
            0 <= i < covered.len() && (#[trigger] covered[i]).x == 0 && covered[i].y == 0
                && covered[i].width >= width && covered[i].height >= height;
        assert(covered[i].has(px, py));
    }
}

/// A region that shares no pixel with what was sent, touching it or not, is left whole;
/// one that does is parted into at most four.
pub proof fn law_touching_regions_stay_whole(p: DamageRegion, c: DamageRegion)
    ensures
        p.right() <= c.x || c.right() <= p.x || p.bottom() <= c.y || c.bottom() <= p.y ==> clip(
            p,
            c,
        ) == seq![p],
        clip(p, c).len() <= 4,
        p.within(c) && p.width > 0 && p.height > 0 ==> clip(p, c).len() == 0,
{
}

/// Once the whole frame was sent no damage is left, and where nothing was sent all of it is.
pub proof fn law_whole_frame_settles_all(
    regions: Seq<DamageRegion>,
    covered: Seq<DamageRegion>,
    width: u32,
    height: u32,
    i: int,
)
    ensures
        0 <= i < covered.len() && covered[i].x == 0 && covered[i].y == 0 && covered[i].width
            >= width && covered[i].height >= height ==> subtracted(
            regions,
            covered,
            width,
            height,
        ).len() == 0,
        subtracted(regions, Seq::<DamageRegion>::empty(), width, height) == regions,
{
}

} // verus!
