use std::sync::{Arc, Mutex};

use lamco_rdp_server::damage::DamageRegion;
use lamco_rdp_server::server::egfx_sender::{
    damage_regions_to_avc420, describe_units, frame_dump_file, is_full_frame_update, nal_type_name, nal_units,
    EgfxFrameSender, MessageReply, NalUnit, SendError, ServerReply,
};
use lamco_rdp_server::server::gfx_factory::{
    CompressionMode, LamcoGfxFactory, SharedHandlerState, StoreStep,
};
use lamco_rdp_server::server::graphics_drain::{DrainSend, GraphicsDrainStats};

fn negotiated() -> SharedHandlerState {
    let mut state = SharedHandlerState::new();
    state.is_ready = true;
    state.client_supports_avc420 = true;
    state.is_avc444_enabled = true;
    state.has_surface = true;
    state.primary_surface_id = 5;
    state
}

#[test]
fn test_send_error_display() {
    assert_eq!(SendError::NotReady.to_string(), "EGFX channel not ready");
    assert_eq!(
        SendError::Avc420NotSupported.to_string(),
        "AVC420 not supported by client"
    );
    assert_eq!(
        SendError::Avc444NotSupported.to_string(),
        "AVC444 not supported by client"
    );
    assert_eq!(
        SendError::Backpressure.to_string(),
        "Frame dropped due to backpressure"
    );
}

#[test]
fn send_errors_of_other_kinds_read_as_text() {
    assert_eq!(SendError::NoSurface.to_string(), "No primary surface available");
    assert_eq!(SendError::ChannelClosed.to_string(), "Server event channel closed");
    assert_eq!(
        SendError::EncodingFailed("bad".to_string()).to_string(),
        "DVC encoding failed: bad"
    );
    assert_eq!(SendError::LockFailed.to_string(), "Failed to acquire lock");
}

#[test]
fn avc420_regions_snap_to_macroblock_grid() {
    let regions = [DamageRegion::new(5, 3, 20, 10)];
    let out = damage_regions_to_avc420(&regions, 1920, 1088, 28);
    assert_eq!(out.len(), 1);
    assert_eq!(out[0].left, 0);
    assert_eq!(out[0].top, 0);
    assert_eq!(out[0].right, 31);
    assert_eq!(out[0].bottom, 15);
}

#[test]
fn avc420_regions_already_aligned_pass_through() {
    let regions = [DamageRegion::new(16, 32, 32, 48)];
    let out = damage_regions_to_avc420(&regions, 1920, 1088, 28);
    assert_eq!(out.len(), 1);
    assert_eq!(out[0].left, 16);
    assert_eq!(out[0].top, 32);
    assert_eq!(out[0].right, 47);
    assert_eq!(out[0].bottom, 79);
}

#[test]
fn avc420_sub_macroblock_strip_is_absorbed_not_dropped() {
    let regions = [DamageRegion::new(100, 200, 50, 1)];
    let out = damage_regions_to_avc420(&regions, 1920, 1088, 28);
    assert_eq!(out.len(), 1);
    assert_eq!(out[0].top, 192);
    assert_eq!(out[0].bottom, 207);
    assert!(out[0].right > out[0].left);
    assert!(out[0].bottom > out[0].top);
}

#[test]
fn avc420_overlapping_regions_merge_after_expansion() {
    let regions = [
        DamageRegion::new(0, 0, 20, 20),
        DamageRegion::new(10, 10, 20, 20),
    ];
    let out = damage_regions_to_avc420(&regions, 1920, 1088, 28);
    assert_eq!(out.len(), 1, "aligned overlap must merge: {out:?}");
    assert_eq!(out[0].left, 0);
    assert_eq!(out[0].top, 0);
    assert_eq!(out[0].right, 31);
    assert_eq!(out[0].bottom, 31);
}

#[test]
fn avc420_out_of_bounds_region_dropped() {
    let regions = [DamageRegion::new(5000, 5000, 100, 100)];
    let out = damage_regions_to_avc420(&regions, 1920, 1088, 28);
    assert!(out.is_empty());
}

#[test]
fn avc420_region_clamps_to_encoded_not_display_dims() {
    let regions = [DamageRegion::new(0, 1070, 1920, 30)];
    let out = damage_regions_to_avc420(&regions, 1920, 1088, 28);
    assert_eq!(out.len(), 1);
    assert_eq!(out[0].bottom, 1087);
}

#[test]
fn test_egfx_sender_readiness_from_shared_state() {
    let mut state = SharedHandlerState::new();
    assert!(!state.is_ready);
    state.is_ready = true;
    state.client_supports_avc420 = true;
    assert!(state.is_ready);
    assert!(state.client_supports_avc420);
    state.is_avc444_enabled = true;
    assert!(state.is_avc444_enabled);
    state.has_surface = true;
    state.primary_surface_id = 5;
    assert!(state.has_surface);
    assert_eq!(state.primary_surface_id, 5);
    let sender = EgfxFrameSender::new(state);
    assert!(sender.is_egfx_ready());
    assert!(sender.is_avc444_supported());
    assert_eq!(sender.primary_surface_id(), Some(5));
}

#[test]
fn full_display_damage_region_is_full_frame_update() {
    assert!(is_full_frame_update(&[], 1920, 1080));
    assert!(is_full_frame_update(&[DamageRegion { x: 0, y: 0, width: 1920, height: 1080 }], 1920, 1080));
    assert!(is_full_frame_update(&[DamageRegion { x: 0, y: 0, width: 1920, height: 1088 }], 1920, 1080));
    assert!(!is_full_frame_update(&[DamageRegion { x: 0, y: 0, width: 1920, height: 1079 }], 1920, 1080));
    assert!(!is_full_frame_update(&[DamageRegion { x: 10, y: 0, width: 1910, height: 1080 }], 1920, 1080));
    assert!(!is_full_frame_update(
        &[
            DamageRegion { x: 0, y: 0, width: 960, height: 1080 },
            DamageRegion { x: 960, y: 0, width: 960, height: 1080 },
        ],
        1920,
        1080
    ));
}

#[test]
fn whole_frame_goes_as_one_inclusive_rectangle() {
    let mut sender = EgfxFrameSender::new(negotiated());
    sender.set_qp(30);
    let plan = sender.send_frame(1920, 1080).expect("plan");
    assert_eq!(plan.surface_id, 5);
    assert_eq!(plan.regions.len(), 1);
    let r = plan.regions[0];
    assert_eq!((r.left, r.top, r.right, r.bottom), (0, 0, 1919, 1079));
    assert_eq!((r.quantization_parameter, r.quality), (30, 100));
    assert!(plan.aux_regions.is_none());
}

#[test]
fn frames_are_refused_for_a_reason() {
    let mut state = negotiated();
    state.has_surface = false;
    assert!(matches!(
        EgfxFrameSender::new(state).send_frame(64, 64),
        Err(SendError::NoSurface)
    ));
    state.client_supports_avc420 = false;
    assert!(matches!(
        EgfxFrameSender::new(state).send_frame(64, 64),
        Err(SendError::Avc420NotSupported)
    ));
    state.is_avc444_enabled = false;
    assert!(matches!(
        EgfxFrameSender::new(state).send_avc444_frame(64, 64),
        Err(SendError::Avc444NotSupported)
    ));
    state.is_ready = false;
    assert!(matches!(
        EgfxFrameSender::new(state).send_uncompressed_frame(),
        Err(SendError::NotReady)
    ));
}

#[test]
fn only_frames_that_got_through_are_counted() {
    let mut sender = EgfxFrameSender::new(negotiated());
    assert!(matches!(sender.complete(ServerReply::LockFailed), Err(SendError::LockFailed)));
    assert!(matches!(sender.complete(ServerReply::NoChannel), Err(SendError::NotReady)));
    assert!(matches!(sender.complete(ServerReply::Refused), Err(SendError::Backpressure)));
    let failed = ServerReply::Queued {
        frame_id: 1,
        messages: MessageReply::EncodeFailed("x".to_string()),
    };
    assert!(matches!(sender.complete(failed), Err(SendError::EncodingFailed(_))));
    let closed = ServerReply::Queued { frame_id: 2, messages: MessageReply::Closed };
    assert!(matches!(sender.complete(closed), Err(SendError::ChannelClosed)));
    assert_eq!(sender.frames_sent(), 0);
    let sent = ServerReply::Queued { frame_id: 3, messages: MessageReply::Delivered };
    assert!(matches!(sender.complete(sent), Ok(3)));
    let empty = ServerReply::Queued { frame_id: 4, messages: MessageReply::Empty };
    assert!(matches!(sender.complete(empty), Ok(4)));
    assert_eq!(sender.frames_sent(), 2);
}

#[test]
fn damaged_frame_goes_as_its_rectangles() {
    let sender = EgfxFrameSender::new(negotiated());
    let damage = [DamageRegion::new(5, 3, 20, 10)];
    let plan = sender
        .send_frame_with_regions(1920, 1088, 1920, 1080, &damage)
        .expect("plan");
    assert_eq!(plan.regions.len(), 1);
    assert_eq!(plan.regions[0].right, 31);
    let plan = sender
        .send_avc444_frame_with_regions(true, 1920, 1088, 1920, 1080, &damage)
        .expect("plan");
    assert_eq!(plan.aux_regions.expect("aux"), plan.regions);
}

#[test]
fn stream_units_are_found_between_start_codes() {
    let data = [0, 0, 0, 1, 0x67, 9, 9, 0, 0, 1, 0x68, 7, 0, 0, 1, 0x65, 1, 2];
    let (units, more) = nal_units(&data);
    assert!(!more);
    assert_eq!(
        units,
        vec![
            NalUnit { start: 4, end: 7 },
            NalUnit { start: 10, end: 12 },
            NalUnit { start: 15, end: 18 },
        ]
    );
    assert_eq!(nal_type_name(0x67), "SPS");
    assert_eq!(nal_type_name(0x68), "PPS");
    assert_eq!(nal_type_name(0x65), "IDR");
    assert_eq!(
        describe_units(&data),
        "SPS(3b,ref=3)[67 09 09], PPS(2b,ref=3)[68 07], IDR(3b,ref=3)"
    );
    assert_eq!(describe_units(&[]), "");
    let many: Vec<u8> = [0, 0, 1, 0x41, 7].iter().copied().cycle().take(60).collect();
    let text = describe_units(&many);
    assert!(text.starts_with("P-slice(2b,ref=2), P-slice(2b,ref=2)"));
    assert!(text.ends_with(", ..."));
    assert!(frame_dump_file(3).is_none());
    assert!(frame_dump_file(0).is_some());
}

#[test]
fn test_shared_handler_state_defaults() {
    let state = SharedHandlerState::new();
    assert!(!state.is_ready);
    assert!(!state.client_supports_avc420);
    assert!(!state.is_avc444_enabled);
    assert!(!state.has_surface);
    assert_eq!(state.primary_surface_id, 0);
}

#[test]
fn test_shared_handler_state_set_and_read() {
    let mut state = SharedHandlerState::new();
    state.is_ready = true;
    state.client_supports_avc420 = true;
    state.has_surface = true;
    state.primary_surface_id = 42;
    assert!(state.is_ready);
    assert!(state.client_supports_avc420);
    assert!(state.has_surface);
    assert_eq!(state.primary_surface_id, 42);
}

#[test]
fn test_shared_handler_state_reset() {
    let mut state = SharedHandlerState::new();
    state.is_ready = true;
    state.client_supports_avc420 = true;
    state.is_avc444_enabled = true;
    state.has_surface = true;
    state.primary_surface_id = 99;
    state.reset();
    assert!(!state.is_ready);
    assert!(!state.client_supports_avc420);
    assert!(!state.is_avc444_enabled);
    assert!(!state.has_surface);
    assert_eq!(state.primary_surface_id, 0);
}

#[test]
fn test_shared_handler_state_cross_thread() {
    let state = Arc::new(Mutex::new(SharedHandlerState::new()));
    let state_writer = Arc::clone(&state);
    let state_reader = Arc::clone(&state);
    let runtime = tokio::runtime::Runtime::new().unwrap();
    let writer = runtime.spawn_blocking(move || {
        let mut s = state_writer.lock().unwrap();
        s.is_ready = true;
        s.client_supports_avc420 = true;
        s.has_surface = true;
        s.primary_surface_id = 7;
    });
    runtime.block_on(writer).unwrap();
    let s = state_reader.lock().unwrap();
    assert!(s.is_ready);
    assert!(s.client_supports_avc420);
    assert!(s.has_surface);
    assert_eq!(s.primary_surface_id, 7);
}

#[test]
fn factory_forgets_previous_client() {
    let mut factory = LamcoGfxFactory::with_config(1920, 1080, true, 5, CompressionMode::Auto);
    factory.handler_state = negotiated();
    factory.begin_connection();
    assert_eq!(factory.handler_state(), SharedHandlerState::default());
    assert_eq!(factory.max_frames_in_flight, 5);
    assert_eq!(LamcoGfxFactory::new(1, 2).max_frames_in_flight, 3);
    assert!(LamcoGfxFactory::with_quirks(1, 2, true).force_avc420_only);
}

#[test]
fn handle_is_stored_within_a_hundred_attempts() {
    let mut factory = LamcoGfxFactory::new(1, 1);
    assert_eq!(factory.after_store_attempt(0, false), StoreStep::Retry);
    assert_eq!(factory.after_store_attempt(99, false), StoreStep::GiveUp);
    assert!(!factory.has_server_handle);
    assert_eq!(factory.after_store_attempt(99, true), StoreStep::Stored);
    assert!(factory.has_server_handle);
}

#[test]
fn drained_frames_balance() {
    let mut stats = GraphicsDrainStats::new();
    assert_eq!(stats.coalesce(4), 3);
    assert!(stats.record(DrainSend::Sent));
    assert_eq!(stats.coalesce(1), 0);
    assert!(stats.record(DrainSend::Full));
    assert_eq!(stats.frames_received, 5);
    assert_eq!(
        stats.frames_received,
        stats.frames_coalesced + stats.frames_sent + stats.frames_dropped
    );
    assert_eq!(stats.coalesce(2), 1);
    assert!(!stats.record(DrainSend::Closed));
}
