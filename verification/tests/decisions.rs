use lamco_rdp_server::damage::{merge_regions, DamageRegion};
use lamco_rdp_server::server::pipeline_decisions::{
    compute_damage_ratio, compute_timestamp_ms, evaluate_compositor_trust,
    evaluate_stress_idr_trigger, resolve_avc444_enabled, should_skip_for_suppress,
    subtract_regions, DamageAccumulator, DamageRatio, Ratio,
};

const HALF: Ratio = Ratio { num: 1, den: 2 };

fn value(r: DamageRatio) -> f64 {
    r.damage as f64 / r.frame as f64
}

fn rate(r: Ratio) -> f64 {
    r.num as f64 / r.den as f64
}

#[test]
fn no_flag_never_skips() {
    assert!(!should_skip_for_suppress(None, None, 100, 5_000));
}

#[test]
fn first_frame_grace_beats_suppress_during_handshake() {
    assert!(!should_skip_for_suppress(Some(true), Some(5_000), 0, 15_000));
}

#[test]
fn engages_only_after_steady_interval() {
    let t0 = 5_000;
    assert!(!should_skip_for_suppress(Some(true), Some(t0), 5, t0 + 500));
    assert!(should_skip_for_suppress(Some(true), Some(t0), 5, t0 + 1000));
}

#[test]
fn releases_immediately_when_flag_clears() {
    assert!(!should_skip_for_suppress(Some(false), Some(5_000), 5, 15_000));
}

#[test]
fn unrecorded_onset_does_not_engage() {
    assert!(!should_skip_for_suppress(Some(true), None, 5, 5_000));
}

#[test]
fn accumulator_absorb_replaces_instead_of_extending() {
    let mut acc = DamageAccumulator::new();
    let a = DamageRegion::new(0, 0, 100, 100);
    acc.absorb(vec![a]);
    let b = DamageRegion::new(200, 200, 50, 50);
    acc.absorb(vec![a, b]);
    let taken = acc.take();
    assert_eq!(taken.len(), 2, "no doubling: {taken:?}");
    assert!(acc.is_empty());
}

#[test]
fn accumulator_survives_long_skip_streak_linearly() {
    let mut acc = DamageAccumulator::new();
    let fresh = DamageRegion::new(10, 10, 40, 40);
    let mut send_set = vec![fresh];
    for _ in 0..10 {
        acc.absorb(send_set.clone());
        let mut next = acc.take();
        next.push(fresh);
        send_set = next;
    }
    acc.absorb(send_set);
    assert!(acc.len() <= 2, "streak of 10 skips must stay bounded, got {}", acc.len());
}

#[test]
fn accumulator_merges_overlapping_debt() {
    let mut acc = DamageAccumulator::new();
    acc.absorb(vec![
        DamageRegion::new(0, 0, 100, 100),
        DamageRegion::new(0, 0, 100, 100),
    ]);
    assert_eq!(acc.len(), 1, "overlaps must merge: {:?}", acc.regions());
    let ratio = value(compute_damage_ratio(acc.regions(), 200, 200));
    assert!((ratio - 0.25).abs() < 1e-6, "ratio {ratio}");
}

#[test]
fn accumulator_cap_collapses_to_bounding_union() {
    let mut acc = DamageAccumulator::new();
    let mut set = Vec::new();
    for i in 0..(DamageAccumulator::DEFAULT_CAP + 64) {
        let x = u32::try_from(i % 64).unwrap() * 1000;
        let y = u32::try_from(i / 64).unwrap() * 1000;
        set.push(DamageRegion::new(x, y, 10, 10));
    }
    acc.absorb(set);
    assert!(
        acc.len() <= DamageAccumulator::DEFAULT_CAP,
        "cap must bind, got {}",
        acc.len()
    );
}

#[test]
fn subtract_caps_fragmentation_instead_of_exploding() {
    let region = DamageRegion::new(0, 0, 4096, 4096);
    let covered: Vec<DamageRegion> = (0..200)
        .map(|i| DamageRegion::new(0, i * 20, 4000, 10))
        .collect();
    let out = subtract_regions(&[region], &covered, 4096, 4096);
    assert!(
        out.len() <= 256 || (out.len() == 1 && out[0] == region),
        "bounded output expected, got {}",
        out.len()
    );
}

#[test]
fn timestamp_prefers_pts_when_present() {
    assert_eq!(compute_timestamp_ms(5_000_000, 999, 30), 5);
}

#[test]
fn timestamp_synthesizes_from_frame_count_when_pts_zero() {
    assert_eq!(compute_timestamp_ms(0, 10, 30), 330);
}

#[test]
fn timestamp_clamps_zero_fps() {
    assert_eq!(compute_timestamp_ms(0, 3, 0), 3000);
}

#[test]
fn damage_ratio_empty_is_zero() {
    assert!(value(compute_damage_ratio(&[], 1920, 1080)).abs() < 1e-6);
}

#[test]
fn damage_ratio_full_frame_is_one() {
    let regions = [DamageRegion::new(0, 0, 1920, 1080)];
    assert!((value(compute_damage_ratio(&regions, 1920, 1080)) - 1.0).abs() < 1e-6);
}

#[test]
fn damage_ratio_quarter_frame() {
    let regions = [DamageRegion::new(0, 0, 960, 540)];
    assert!((value(compute_damage_ratio(&regions, 1920, 1080)) - 0.25).abs() < 1e-6);
}

#[test]
fn damage_ratio_guards_zero_area_frame() {
    let regions = [DamageRegion::new(0, 0, 10, 10)];
    assert!(value(compute_damage_ratio(&regions, 0, 0)).abs() < 1e-6);
}

#[test]
fn avc444_forced_off_by_config() {
    let (enabled, reason) = resolve_avc444_enabled("avc420", true, true);
    assert!(!enabled);
    assert!(reason.contains("AVC420 forced"));
}

#[test]
fn avc444_requested_and_supported() {
    assert!(resolve_avc444_enabled("avc444", true, true).0);
}

#[test]
fn avc444_requested_but_client_unsupported() {
    let (enabled, reason) = resolve_avc444_enabled("avc444", false, true);
    assert!(!enabled);
    assert!(reason.contains("client doesn't support"));
}

#[test]
fn avc444_requested_but_config_disabled() {
    let (enabled, reason) = resolve_avc444_enabled("avc444", true, false);
    assert!(!enabled);
    assert!(reason.contains("disabled in config"));
}

#[test]
fn avc444_auto_picks_best_available() {
    assert!(resolve_avc444_enabled("auto", true, true).0);
    assert!(!resolve_avc444_enabled("auto", false, true).0);
    assert!(!resolve_avc444_enabled("auto", true, false).0);
}

#[test]
fn avc444_unrecognized_pref_behaves_as_auto() {
    assert!(resolve_avc444_enabled("nonsense", true, true).0);
}

#[test]
fn stress_triggers_on_sustained_drops() {
    let eval = evaluate_stress_idr_trigger(8, 2, HALF, 2000, 1000, 2000, 1500);
    assert!(eval.should_trigger);
    assert!((rate(eval.drop_rate) - 0.8).abs() < 1e-6);
}

#[test]
fn stress_holds_below_threshold() {
    assert!(!evaluate_stress_idr_trigger(4, 6, HALF, 2000, 1000, 2000, 1500).should_trigger);
}

#[test]
fn stress_holds_on_tiny_sample() {
    assert!(!evaluate_stress_idr_trigger(3, 0, HALF, 2000, 1000, 2000, 1500).should_trigger);
}

#[test]
fn stress_holds_during_cooldown() {
    assert!(!evaluate_stress_idr_trigger(8, 2, HALF, 500, 1000, 2000, 1500).should_trigger);
}

#[test]
fn stress_holds_when_recent_idr() {
    assert!(!evaluate_stress_idr_trigger(8, 2, HALF, 2000, 1000, 800, 1500).should_trigger);
}

#[test]
fn stress_drop_rate_zero_on_empty_window() {
    let eval = evaluate_stress_idr_trigger(0, 0, HALF, 2000, 1000, 2000, 1500);
    assert!(!eval.should_trigger);
    assert!(rate(eval.drop_rate).abs() < 1e-6);
}

#[test]
fn trust_below_threshold_never_distrusts() {
    let eval = evaluate_compositor_trust(5, 0, 15, 3);
    assert_eq!(eval.new_consecutive_count, 0);
    assert!(!eval.should_distrust);
}

#[test]
fn trust_single_high_sample_does_not_distrust() {
    let eval = evaluate_compositor_trust(90, 0, 15, 3);
    assert_eq!(eval.new_consecutive_count, 1);
    assert!(!eval.should_distrust);
}

#[test]
fn trust_consecutive_samples_trigger_distrust() {
    let mut count = 0;
    for _ in 0..2 {
        let eval = evaluate_compositor_trust(90, count, 15, 3);
        count = eval.new_consecutive_count;
        assert!(!eval.should_distrust);
    }
    let eval = evaluate_compositor_trust(90, count, 15, 3);
    assert_eq!(eval.new_consecutive_count, 3);
    assert!(eval.should_distrust);
}

#[test]
fn trust_interrupting_low_sample_resets_counter() {
    let first = evaluate_compositor_trust(90, 0, 15, 3);
    assert_eq!(first.new_consecutive_count, 1);
    let second = evaluate_compositor_trust(90, first.new_consecutive_count, 15, 3);
    assert_eq!(second.new_consecutive_count, 2);
    let reset = evaluate_compositor_trust(2, second.new_consecutive_count, 15, 3);
    assert_eq!(reset.new_consecutive_count, 0);
    assert!(!reset.should_distrust);
}

#[test]
fn trust_negative_divergence_uses_absolute_value() {
    let eval = evaluate_compositor_trust(-90, 0, 15, 3);
    assert_eq!(eval.new_consecutive_count, 1);
}

fn total_area(regions: &[DamageRegion]) -> u64 {
    regions.iter().map(|r| r.area()).sum()
}

#[test]
fn subtract_disjoint_regions_returned_unchanged() {
    let regions = [DamageRegion::new(0, 0, 100, 100)];
    let covered = [DamageRegion::new(500, 500, 100, 100)];
    let out = subtract_regions(&regions, &covered, 1920, 1080);
    assert_eq!(out.len(), 1);
    assert_eq!(out[0], regions[0]);
}

#[test]
fn subtract_fully_covered_region_erased() {
    let regions = [DamageRegion::new(100, 100, 100, 100)];
    let covered = [DamageRegion::new(0, 0, 1920, 1080)];
    let out = subtract_regions(&regions, &covered, 1920, 1080);
    assert!(out.is_empty());
}

#[test]
fn subtract_partial_coverage_conserves_area() {
    let regions = [DamageRegion::new(0, 0, 200, 200)];
    let covered = [DamageRegion::new(0, 0, 100, 200)];
    let out = subtract_regions(&regions, &covered, 1920, 1080);
    assert_eq!(total_area(&out), 20_000);
    for r in &out {
        assert_eq!(r.x, 100);
        assert_eq!(r.width, 100);
    }
}

#[test]
fn subtract_center_hole_produces_four_bands() {
    let regions = [DamageRegion::new(0, 0, 300, 300)];
    let covered = [DamageRegion::new(100, 100, 100, 100)];
    let out = subtract_regions(&regions, &covered, 1920, 1080);
    assert_eq!(total_area(&out), 80_000);
    assert_eq!(out.len(), 4);
}

#[test]
fn subtract_multiple_covered_regions() {
    let regions = [DamageRegion::new(0, 0, 300, 100)];
    let covered = [
        DamageRegion::new(100, 0, 10, 100),
        DamageRegion::new(200, 0, 10, 100),
    ];
    let out = subtract_regions(&regions, &covered, 1920, 1080);
    assert_eq!(total_area(&out), 28_000);
}

#[test]
fn subtract_empty_inputs() {
    assert!(subtract_regions(&[], &[DamageRegion::new(0, 0, 10, 10)], 100, 100).is_empty());
    let regions = [DamageRegion::new(0, 0, 10, 10)];
    let out = subtract_regions(&regions, &[], 100, 100);
    assert_eq!(out.len(), 1);
}

#[test]
fn subtraction_orders_bands_left_right_top_bottom() {
    let out = subtract_regions(
        &[DamageRegion::new(0, 0, 300, 300)],
        &[DamageRegion::new(100, 120, 100, 60)],
        1920,
        1080,
    );
    assert_eq!(
        out,
        vec![
            DamageRegion::new(0, 0, 100, 300),
            DamageRegion::new(200, 0, 100, 300),
            DamageRegion::new(100, 0, 100, 120),
            DamageRegion::new(100, 180, 100, 120),
        ]
    );
}

#[test]
fn merging_keeps_pixels_and_is_stable() {
    let regions = vec![
        DamageRegion::new(0, 0, 20, 20),
        DamageRegion::new(10, 10, 20, 20),
        DamageRegion::new(100, 100, 5, 5),
    ];
    let merged = merge_regions(regions, 0);
    assert_eq!(merged.len(), 2);
    assert!(merged.contains(&DamageRegion::new(0, 0, 30, 30)));
    assert!(merged.contains(&DamageRegion::new(100, 100, 5, 5)));
    let again = merge_regions(merged.clone(), 0);
    assert_eq!(again, merged);
}

#[test]
fn synthesized_timestamps_do_not_go_back() {
    let mut last = 0;
    for frame in 0..100 {
        let t = compute_timestamp_ms(0, frame, 60);
        assert!(t >= last);
        last = t;
    }
    assert_eq!(last, 99 * 16);
}

#[test]
fn accumulator_clear_forgets_debt() {
    let mut acc = DamageAccumulator::default();
    acc.absorb(vec![DamageRegion::new(0, 0, 1, 1)]);
    assert!(!acc.is_empty());
    acc.clear();
    assert_eq!(acc.len(), 0);
    assert!(acc.take().is_empty());
}
