use lamco_rdp_server::damage::DamageRegion;
use lamco_rdp_server::server::display_handler::{LamcoDisplayHandler, VideoEncoder};
use lamco_rdp_server::server::pipeline::{
    adaptive_fps, admit_to_encoder, after_encode, after_uncompressed, begin_init, begin_iteration,
    begin_resize, choose_damage_source, collect_damage, damage_label, process_frame, choose_delivery, choose_encoders, choose_path,
    coalesce_resizes, encoder_ladder, fresh_damage, govern, keep_first_built, latency_mode,
    on_frame, on_no_frame, pace, pass_gate, resize_after_create, resize_after_destroy,
    resize_after_mode_switch, route_bitmaps, stress_step, surface_set_up, with_debt, BitmapRoute,
    DamageSource, Delivery, EncodeAdmission, EncodeOutcome, EncodingDecision, FramePath, FrameStep,
    LatencyMode, PipelineState, ResizeRequest, ResizeStep,
};
use lamco_rdp_server::server::pipeline_decisions::DamageAccumulator;

fn handler() -> LamcoDisplayHandler {
    let mut h = LamcoDisplayHandler::new(1920, 1080, &vec![], true, true, true, 100_000);
    h.has_streams = true;
    h.capture_node = 42;
    h
}

fn make_ready(h: &mut LamcoDisplayHandler) {
    let mut state = h.gfx_state.unwrap();
    state.is_ready = true;
    state.client_supports_avc420 = true;
    h.gfx_state = Some(state);
    h.has_event_sender = true;
    h.has_gfx_handle = true;
}

#[test]
fn every_thousandth_turn_reports() {
    let mut p = PipelineState::new(0);
    let mut reports = 0;
    for _ in 0..2000 {
        if begin_iteration(&mut p).is_some() {
            reports += 1;
        }
    }
    assert_eq!(reports, 2);
}

#[test]
fn resize_goes_step_by_step() {
    let h = handler();
    let wanted = ResizeRequest { width: 1280, height: 720 };
    let first = ResizeRequest { width: 1, height: 1 };
    assert_eq!(coalesce_resizes(&vec![first, wanted]), Some(wanted));
    assert!(matches!(begin_resize(&h), ResizeStep::SwitchMode));
    assert!(matches!(resize_after_mode_switch(&h), ResizeStep::Destroy(42)));
    assert!(matches!(resize_after_destroy(&h, wanted, false), ResizeStep::Failed));
    match resize_after_destroy(&h, wanted, true) {
        ResizeStep::Create(node, config) => {
            assert_eq!(node, 42);
            assert_eq!((config.width, config.height), (1280, 720));
            assert_eq!(config.name, "monitor-0");
        }
        _ => unreachable!(),
    }
    let mut p = PipelineState::new(0);
    p.encoder = Some(VideoEncoder::Avc420);
    resize_after_create(&mut p, true);
    assert!(p.pending_resize && p.encoder.is_none());
    let mut h = handler();
    let arrival = on_frame(&mut p, &mut h, 5, 0, 1280, 720);
    assert_eq!(arrival.resized, Some((1280, 720)));
    assert_eq!(h.size(), (1280, 720));
    let direct = LamcoDisplayHandler::new_direct(1, 1, &vec![], true, true, 0);
    assert!(matches!(begin_resize(&direct), ResizeStep::Ignore));
}

#[test]
fn stall_is_reported_once() {
    let mut p = PipelineState::new(0);
    let mut h = handler();
    on_frame(&mut p, &mut h, 1_000, 0, 1920, 1080);
    assert!(on_no_frame(&mut p, &mut h, 11_000).stalled.is_none());
    assert_eq!(on_no_frame(&mut p, &mut h, 11_001).stalled, Some(10_001));
    assert!(on_no_frame(&mut p, &mut h, 20_000).stalled.is_none());
    assert!(on_frame(&mut p, &mut h, 21_000, 0, 1920, 1080).resumed);
}

#[test]
fn gpu_buffers_are_given_up_once() {
    let mut p = PipelineState::new(0);
    let mut h = handler();
    h.client_active = false;
    let missing = on_no_frame(&mut p, &mut h, 10_001);
    assert_eq!(missing.never_started, Some(10_001));
    assert!(missing.rebind && !h.use_dmabuf);
    assert!(!on_no_frame(&mut p, &mut h, 30_000).rebind);
}

#[test]
fn gate_waits_five_seconds_for_graphics() {
    let mut p = PipelineState::new(0);
    let mut h = handler();
    assert!(on_frame(&mut p, &mut h, 1_000, 0, 1920, 1080).new_client);
    on_frame(&mut p, &mut h, 1_010, 0, 1920, 1080);
    assert!(!pass_gate(&mut p, &h, 6_000));
    assert_eq!(p.frames_dropped, 1);
    assert!(pass_gate(&mut p, &h, 6_001));
    assert!(p.egfx_gate_bypassed);
    let choice = choose_path(&mut p, &mut h, 6_002);
    assert_eq!(choice.path, FramePath::Bitmap);
    assert!(!choice.needs_init);
}

#[test]
fn paced_frames_are_counted() {
    let mut p = PipelineState::new(0);
    assert!(pace(&mut p, true));
    assert!(!pace(&mut p, false));
    assert_eq!(p.frames_paced, 1);
}

#[test]
fn sustained_drops_ask_for_keyframe() {
    let mut p = PipelineState::new(100_000);
    p.encoder = Some(VideoEncoder::Avc444);
    p.frames_dropped = 8;
    p.frames_sent = 2;
    let action = stress_step(&mut p, 101_000, 2_000, 30);
    assert!(action.request_idr);
    assert_eq!(action.set_aux_interval, Some(15));
    let calm = stress_step(&mut p, 106_002, 2_000, 15);
    assert!(!calm.request_idr);
    assert_eq!(calm.set_aux_interval, Some(30));
    assert!(!p.stress.active);
}

#[test]
fn lost_decoder_is_started_over() {
    let mut p = PipelineState::new(0);
    let mut h = handler();
    make_ready(&mut h);
    h.egfx_needs_init = false;
    let mut state = h.gfx_state.unwrap();
    state.needs_full_reinit = true;
    h.gfx_state = Some(state);
    let choice = choose_path(&mut p, &mut h, 10);
    assert!(choice.reinit && choice.needs_init);
    assert_eq!(choice.path, FramePath::Avc);
    assert!(h.egfx_needs_init);
    let again = choose_path(&mut p, &mut h, 20);
    assert!(!again.reinit);
}

#[test]
fn encoders_are_tried_in_order() {
    assert_eq!(
        encoder_ladder(true, "auto", true),
        vec![VideoEncoder::Avc444, VideoEncoder::X264, VideoEncoder::Avc420]
    );
    assert_eq!(encoder_ladder(false, "openh264", true), vec![VideoEncoder::Avc420]);
    let (ladder, reason) = choose_encoders("AVC444", "X264", true, true, true);
    assert_eq!(
        ladder,
        vec![VideoEncoder::Avc444, VideoEncoder::X264, VideoEncoder::Avc420]
    );
    assert_eq!(reason, "Codec preference: AVC444 requested and supported");
    let (ladder, reason) = choose_encoders("Avc420", "Vaapi", true, true, true);
    assert_eq!(ladder, vec![VideoEncoder::Avc420]);
    assert_eq!(reason, "Codec preference: AVC420 forced by config");
    let mut p = PipelineState::new(0);
    p.has_sender = true;
    begin_init(&mut p);
    assert!(!p.has_sender);
    keep_first_built(
        &mut p,
        &vec![VideoEncoder::Avc444, VideoEncoder::Avc420],
        &vec![false, true],
    );
    assert_eq!(p.encoder, Some(VideoEncoder::Avc420));
}

#[test]
fn surface_clients_never_get_bitmaps() {
    let mut p = PipelineState::new(0);
    let mut h = handler();
    assert_eq!(choose_delivery(&p, FramePath::Avc), Delivery::Bitmap);
    surface_set_up(&mut p, &mut h, false);
    assert!(h.egfx_needs_init);
    surface_set_up(&mut p, &mut h, true);
    assert!(p.force_first_frame && !h.egfx_needs_init);
    assert_eq!(choose_delivery(&p, FramePath::Avc), Delivery::Uncompressed);
    p.encoder = Some(VideoEncoder::Avc420);
    assert_eq!(choose_delivery(&p, FramePath::Avc), Delivery::Encoded);
    assert_eq!(choose_delivery(&p, FramePath::Plain), Delivery::Uncompressed);
}

#[test]
fn first_frame_goes_whole() {
    let mut p = PipelineState::new(0);
    p.encoder = Some(VideoEncoder::Avc420);
    p.force_first_frame = true;
    assert_eq!(
        admit_to_encoder(&mut p, true, true, 64, 4, 4, false),
        EncodeAdmission::Drop
    );
    assert_eq!(
        admit_to_encoder(&mut p, false, true, 63, 4, 4, false),
        EncodeAdmission::Drop
    );
    assert_eq!(
        admit_to_encoder(&mut p, false, true, 64, 4, 4, false),
        EncodeAdmission::Proceed { force_full: true }
    );
    assert_eq!(
        admit_to_encoder(&mut p, false, true, 64, 4, 4, true),
        EncodeAdmission::Proceed { force_full: false }
    );
    assert_eq!(p.frames_dropped, 2);
}

#[test]
fn damage_that_is_not_sent_stays_owed() {
    let mut p = PipelineState::new(0);
    let mut h = handler();
    let mut debt = DamageAccumulator::new();
    let a = DamageRegion::new(0, 0, 10, 10);
    let b = DamageRegion::new(500, 500, 10, 10);
    assert_eq!(choose_damage_source(false, true, true), DamageSource::PixelDiff);
    let fresh = fresh_damage(DamageSource::PixelDiff, vec![a], vec![b], 100, 100);
    assert_eq!(fresh, vec![a]);
    let regions = with_debt(&debt, fresh);
    assert!(!govern(&mut p, &mut debt, &regions, false, EncodingDecision::Skip));
    assert_eq!(debt.regions(), &[a]);
    let regions = with_debt(&debt, vec![b]);
    assert_eq!(regions, vec![a, b]);
    assert!(govern(&mut p, &mut debt, &regions, false, EncodingDecision::EncodeNow));
    assert!(debt.is_empty());
    let sent = after_encode(&mut p, &mut h, &mut debt, regions.clone(), EncodeOutcome::SendFailed);
    assert!(!sent);
    assert_eq!(debt.len(), 2);
    debt.clear();
    assert!(after_encode(&mut p, &mut h, &mut debt, regions.clone(), EncodeOutcome::Sent));
    assert!(!after_encode(&mut p, &mut h, &mut debt, regions, EncodeOutcome::Sent));
    assert_eq!(h.gfx_state.unwrap().unacked_frames, 2);
    assert!(debt.is_empty());
}

#[test]
fn forced_frames_are_never_held_back() {
    let mut p = PipelineState::new(0);
    let mut debt = DamageAccumulator::new();
    let whole = fresh_damage(DamageSource::Forced, vec![], vec![], 64, 32);
    assert_eq!(whole, vec![DamageRegion::new(0, 0, 64, 32)]);
    assert!(govern(&mut p, &mut debt, &whole, true, EncodingDecision::Skip));
    assert!(!govern(&mut p, &mut debt, &vec![], false, EncodingDecision::EncodeNow));
    assert_eq!(p.frames_skipped_damage, 1);
}

#[test]
fn remaining_choices_follow_configuration() {
    let mut p = PipelineState::new(0);
    after_uncompressed(&mut p, 9, true);
    assert!(p.first_frame_received && p.session_start == 9);
    after_uncompressed(&mut p, 10, false);
    assert_eq!(p.frames_dropped, 1);
    assert_eq!(route_bitmaps(0, true), BitmapRoute::Skip);
    assert_eq!(route_bitmaps(1, true), BitmapRoute::Queue);
    assert_eq!(route_bitmaps(1, false), BitmapRoute::Direct);
    assert_eq!(latency_mode("interactive"), LatencyMode::Interactive);
    assert_eq!(latency_mode("whatever"), LatencyMode::Balanced);
    assert!(adaptive_fps(true, true) && !adaptive_fps(true, false));
}

#[test]
fn frame_goes_step_by_step() {
    let mut p = PipelineState::new(0);
    let mut h = handler();
    let step = process_frame(&mut p, &mut h, false, false, true, 10, 0, 0);
    assert_eq!(step, FrameStep::Paced);
    let step = process_frame(&mut p, &mut h, true, true, false, 10, 0, 0);
    assert_eq!(step, FrameStep::NotTurnable);
    assert_eq!(p.frames_sent, 0);
    let step = process_frame(&mut p, &mut h, true, true, true, 10, 0, 0);
    assert_eq!(step, FrameStep::Held);
    assert_eq!((p.frames_sent, p.frames_dropped), (1, 1));
    make_ready(&mut h);
    match process_frame(&mut p, &mut h, true, false, true, 20, 0, 0) {
        FrameStep::Go { stress, choice } => {
            assert!(!stress.request_idr);
            assert_eq!(choice.path, FramePath::Avc);
            assert!(choice.needs_init);
        }
        _ => unreachable!(),
    }
}

#[test]
fn damage_is_collected_with_debt() {
    let mut debt = DamageAccumulator::new();
    let a = DamageRegion::new(0, 0, 10, 10);
    let b = DamageRegion::new(50, 50, 10, 10);
    let hinted = collect_damage(&debt, false, None, vec![a], 20, 10);
    assert_eq!((hinted.regions, hinted.label), (vec![a], "compositor-hint"));
    assert_eq!((hinted.ratio.damage, hinted.ratio.frame), (100, 200));
    let whole = collect_damage(&debt, false, None, vec![], 20, 10);
    assert_eq!(whole.label, "disabled");
    assert_eq!(whole.regions, vec![DamageRegion::new(0, 0, 20, 10)]);
    debt.absorb(vec![b]);
    let owed = collect_damage(&debt, false, Some(vec![]), vec![a], 20, 10);
    assert_eq!((owed.regions, owed.label), (vec![b], "accumulated"));
    let both = collect_damage(&debt, false, Some(vec![a]), vec![], 20, 10);
    assert_eq!((both.regions, both.label), (vec![b, a], "pixel-diff"));
    assert_eq!(collect_damage(&debt, true, Some(vec![]), vec![], 20, 10).label, "forced");
    assert_eq!(damage_label(DamageSource::Forced, false), "forced");
}
