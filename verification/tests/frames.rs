use lamco_rdp_server::damage::DamageRegion;
use lamco_rdp_server::server::compositor_mode::{
    find_best_mode, is_kde_desktop, mode_argument, mode_switched, plan_mode_change, Mode,
    ModeChange,
};
use lamco_rdp_server::server::display_handler::{
    align_to_16, convert_to_iron_format, plan_streams, stream_state_effect, CaptureStream,
    FrameRateRegulator,
    IronPixelFormat, LamcoDisplayHandler, LayoutDecision, MonitorRequest, VideoEncoder,
};
use lamco_rdp_server::server::dmabuf_materialize::{
    log_materialization_summary, materialize_dmabuf_frame, plan_plane_read,
};
use lamco_rdp_server::server::frame_scaler::{scale_bgra, ScaleFactors};
use lamco_rdp_server::server::frame_transform::{
    apply_frame_transform, effective_transform, flip_horizontal, flip_vertical,
    pad_frame_to_aligned, resolve_transform, transpose,
};
use lamco_rdp_server::server::pipeline_sections::{
    compact_padded_stride, encoder_input, handle_elastic_resize, rebinds,
    track_capture_size_change, transform_frame, ElasticResize,
};
use lamco_rdp_server::session::strategy::{CaptureResizeEffect, CaptureResizeOutcome};
use lamco_rdp_server::video::{
    BitmapData, BitmapUpdate, DmaBufDescriptor, DmaBufPlane, FrameBuffer, PwStreamState,
    RdpPixelFormat, Rectangle, VideoFrame, VideoStreamState,
};

#[test]
fn identity_factors() {
    let f = ScaleFactors::new(1920, 1080, 1920, 1080);
    assert!(f.is_identity());
    assert_eq!(f.map_x(123), 123);
    assert_eq!(f.unmap_y(456), 456);
}

#[test]
fn upscaling_1080p_to_1440p_math() {
    let f = ScaleFactors::new(1920, 1080, 2560, 1440);
    assert_eq!(f.x, (4, 3));
    assert_eq!(f.y, (4, 3));
    assert!(!f.is_identity());
    assert_eq!(f.map_x(1920), 2560);
    assert_eq!(f.map_y(1080), 1440);
    assert_eq!(f.unmap_x(2560), 1920);
    assert_eq!(f.unmap_y(1440), 1080);
}

#[test]
fn downscale_capture_to_5_4_desktop() {
    let f = ScaleFactors::new(1920, 1080, 1280, 1024);
    assert_eq!(f.map_x(1920), 1280);
    assert_eq!(f.map_y(1080), 1024);
    let r = f.map_rect_out((0, 0, 1920, 1080));
    assert_eq!(r, (0, 0, 1280, 1024));
}

#[test]
fn scale_bgra_identity_returns_copy() {
    let src = vec![1u8, 2, 3, 4];
    let out = scale_bgra(&src, 1, 1, 1, 1);
    assert_eq!(out, src);
}

#[test]
fn scale_bgra_double_width() {
    let src: Vec<u8> = vec![10, 20, 30, 255, 40, 50, 60, 255];
    let out = scale_bgra(&src, 2, 1, 4, 1);
    assert_eq!(out.len(), 16);
    assert_eq!(&out[0..4], &[10, 20, 30, 255]);
    assert_eq!(&out[4..8], &[10, 20, 30, 255]);
    assert_eq!(&out[8..12], &[40, 50, 60, 255]);
    assert_eq!(&out[12..16], &[40, 50, 60, 255]);
}

#[test]
fn scale_bgra_corners_survive() {
    let src: Vec<u8> = (0..16).collect();
    let out = scale_bgra(&src, 2, 2, 3, 3);
    assert_eq!(out.len(), 36);
    assert_eq!(&out[0..4], &src[0..4]);
    assert_eq!(&out[32..36], &src[12..16]);
}

#[test]
fn degenerate_sizes_stay_safe() {
    let f = ScaleFactors::new(0, 1080, 1920, 1080);
    let _ = f.map_x(10);
    let out = scale_bgra(&[0u8; 4], 1, 1, 0, 0);
    assert_eq!(out, &[0u8; 4]);
}

#[test]
fn scaled_rectangles_grow_outward() {
    let f = ScaleFactors::new(1920, 1080, 1280, 720);
    assert_eq!(f.map_rect_out((1, 1, 2, 2)), (0, 0, 2, 2));
    assert_eq!(f.map_x(2), 1);
    assert_eq!(f.unmap_x(1), 2);
}

#[test]
fn flips_undo_themselves() {
    let src: Vec<u8> = (0..24).collect();
    let mut data = src.clone();
    flip_vertical(&mut data, 3, 2, 12);
    assert_eq!(&data[0..12], &src[12..24]);
    flip_vertical(&mut data, 3, 2, 12);
    assert_eq!(data, src);
    flip_horizontal(&mut data, 3, 2, 12, 4);
    assert_eq!(&data[0..4], &src[8..12]);
    flip_horizontal(&mut data, 3, 2, 12, 4);
    assert_eq!(data, src);
}

#[test]
fn transposition_swaps_sides() {
    let src: Vec<u8> = (0..24).collect();
    let (out, stride) = {
        let r = transpose(&src, 3, 2, 12, 4);
        (r.0, r.1)
    };
    assert_eq!(stride, 8);
    assert_eq!(&out[0..8], &[0, 1, 2, 3, 12, 13, 14, 15]);
    assert_eq!(&out[16..24], &[8, 9, 10, 11, 20, 21, 22, 23]);
}

#[test]
fn quarter_turns_undo_each_other() {
    let src: Vec<u8> = (0..24).collect();
    let (turned, w, h, stride) = apply_frame_transform(&src, 3, 2, 12, 1, 4);
    assert_eq!((w, h, stride), (2, 3, 8));
    let (back, w, h, stride) = apply_frame_transform(&turned, w, h, stride, 3, 4);
    assert_eq!((w, h, stride), (3, 2, 12));
    assert_eq!(back, src);
    let (half, _, _, _) = apply_frame_transform(&src, 3, 2, 12, 2, 4);
    assert_eq!(&half[0..4], &src[20..24]);
}

#[test]
fn eight_transforms_are_different() {
    let src: Vec<u8> = vec![1, 2, 3, 4, 5, 6];
    assert_eq!(apply_frame_transform(&src, 3, 2, 3, 7, 1), (vec![6, 3, 5, 2, 4, 1], 2, 3, 2));
    assert_eq!(apply_frame_transform(&src, 3, 2, 3, 5, 1), (vec![1, 4, 2, 5, 3, 6], 2, 3, 2));
    let all: Vec<_> = (0..8).map(|t| apply_frame_transform(&src, 3, 2, 3, t, 1)).collect();
    for i in 0..8 {
        for j in 0..i {
            assert_ne!(all[i], all[j]);
        }
    }
    let (twice, w, h, stride) = apply_frame_transform(&all[7].0, 2, 3, 2, 7, 1);
    assert_eq!((twice, w, h, stride), (src, 3, 2, 3));
    assert_eq!(apply_frame_transform(&vec![], 3, 0, 3, 7, 1), (vec![], 0, 3, 0));
}

#[test]
fn transform_follows_configuration() {
    assert_eq!(resolve_transform("auto", 3), 3);
    assert_eq!(resolve_transform("none", 3), 0);
    assert_eq!(effective_transform("none", 0, false), 0);
    assert_ne!(effective_transform("none", 0, true), 0);
}

#[test]
fn padding_repeats_edges_around_pixels() {
    let src: Vec<u8> = (0..16).collect();
    let out = pad_frame_to_aligned(&src, 2, 2, 4, 4);
    assert_eq!(out.len(), 64);
    assert_eq!(&out[0..8], &src[0..8]);
    assert_eq!(&out[16..24], &src[8..16]);
}

fn memory_frame(width: u32, height: u32, stride: u32, data: Vec<u8>) -> VideoFrame {
    VideoFrame {
        frame_id: 1,
        width,
        height,
        stride,
        pts: 0,
        flags: 3,
        buffer: FrameBuffer::Memory(data),
        damage_regions: vec![DamageRegion::new(0, 0, 1, 1)],
    }
}

#[test]
fn padded_rows_are_compacted() {
    let mut data = Vec::new();
    for row in 0..2u8 {
        data.extend_from_slice(&[row; 8]);
        data.extend_from_slice(&[99; 4]);
    }
    let mut frame = memory_frame(2, 2, 12, data);
    compact_padded_stride(&mut frame);
    assert_eq!(frame.stride, 8);
    match &frame.buffer {
        FrameBuffer::Memory(d) => {
            assert_eq!(d.len(), 16);
            assert_eq!(&d[0..8], &[0; 8]);
            assert_eq!(&d[8..16], &[1; 8]);
        }
        FrameBuffer::DmaBuf(_) => unreachable!(),
    }
}

#[test]
fn frames_are_turned_in_memory_only() {
    let src: Vec<u8> = (0..24).collect();
    let turned = transform_frame(memory_frame(3, 2, 12, src.clone()), 5).expect("turned");
    assert_eq!((turned.width, turned.height, turned.stride), (2, 3, 8));
    assert_eq!(turned.frame_id, 1);
    let mut gpu = memory_frame(3, 2, 12, vec![]);
    gpu.buffer = FrameBuffer::DmaBuf(DmaBufDescriptor {
        width: 3,
        height: 2,
        modifier: 0,
        planes: vec![],
    });
    assert!(transform_frame(gpu, 5).is_none());
    let same = transform_frame(memory_frame(3, 2, 12, src.clone()), 0).expect("same");
    assert!(matches!(same.buffer, FrameBuffer::Memory(d) if d == src));
}

#[test]
fn encoder_gets_sides_of_sixteen() {
    let small = encoder_input(&vec![7u8; 8 * 4 * 4], 8, 4);
    assert_eq!((small.width, small.height), (16, 16));
    assert_eq!(small.data, vec![7u8; 16 * 16 * 4]);
    let exact = encoder_input(&vec![1u8; 16 * 16 * 4], 16, 16);
    assert_eq!(exact.data.len(), 16 * 16 * 4);
}

#[test]
fn gpu_frames_become_memory_frames() {
    let desc = || DmaBufDescriptor {
        width: 2,
        height: 3,
        modifier: 0,
        planes: vec![DmaBufPlane { offset: 64, stride: 16 }],
    };
    let plan = plan_plane_read(&desc(), Ok(())).expect("plan");
    assert_eq!((plan.offset, plan.size), (64, 48));
    assert_eq!(plan_plane_read(&desc(), Err("tiled".to_string())).unwrap_err(), "tiled");
    let empty = DmaBufDescriptor { width: 1, height: 1, modifier: 0, planes: vec![] };
    assert_eq!(plan_plane_read(&empty, Ok(())).unwrap_err(), "no planes");
    let mut frame = memory_frame(2, 3, 16, vec![]);
    frame.buffer = FrameBuffer::DmaBuf(desc());
    let frame = materialize_dmabuf_frame(frame, Some(vec![7; 48]));
    assert_eq!(frame.flags, 2);
    assert!(matches!(frame.buffer, FrameBuffer::Memory(ref d) if d.len() == 48));
    assert_eq!(log_materialization_summary(200, 150), Some(25));
    assert_eq!(log_materialization_summary(0, 0), None);
}

#[test]
fn closest_mode_is_chosen() {
    let listing = "Output: 1 DP-1\n  Modes:  1:1024x768@60!  2:1920x1080@60*  3:1600x1200@60 \n";
    assert_eq!(find_best_mode(listing, 1900, 1080), (1920, 1080));
    assert_eq!(find_best_mode(listing, 1024, 800), (1024, 768));
    assert_eq!(find_best_mode("nothing", 1280, 720), (1280, 720));
    let turned = "Modes:  1:1024x1280@60  2:1280x1024@60";
    assert_eq!(find_best_mode(turned, 1280, 1024), (1280, 1024));
    assert_eq!(find_best_mode(turned, 1024, 1280), (1024, 1280));
    assert_eq!(find_best_mode(turned, 1310720, 1), (1024, 1280));
    assert!(is_kde_desktop("plasma:KDE", false));
    assert!(!is_kde_desktop("GNOME", false));
    assert_eq!(plan_mode_change(false, Some(listing), 800, 600), ModeChange::Keep);
    assert_eq!(
        plan_mode_change(true, Some(listing), 1900, 1080),
        ModeChange::Switch(Mode { width: 1920, height: 1080 })
    );
    assert!(mode_argument(Mode { width: 1920, height: 1080 }).contains("1920x1080"));
    assert!(mode_switched("ok", true));
    assert!(!mode_switched("mode not found", true));
}

#[test]
fn test_pixel_format_conversion() {
    let formats = vec![(RdpPixelFormat::BgrX32, IronPixelFormat::BgrX32)];
    for (our_format, iron_format) in formats {
        let update = BitmapUpdate {
            rectangles: vec![BitmapData {
                rectangle: Rectangle::new(0, 0, 1, 1),
                format: our_format,
                data: vec![0; 4],
                compressed: false,
            }],
        };
        let out = convert_to_iron_format(&update).expect("converted");
        assert_eq!(out[0].format, iron_format);
        assert_eq!(out[0].stride, 4);
    }
}

#[test]
fn test_bitmap_data_structure() {
    let rect = Rectangle::new(0, 0, 100, 100);
    let data = BitmapData {
        rectangle: rect,
        format: RdpPixelFormat::BgrX32,
        data: vec![0u8; 100 * 100 * 4],
        compressed: false,
    };
    assert_eq!(data.rectangle.left, 0);
    assert_eq!(data.rectangle.top, 0);
    assert_eq!(data.rectangle.right, 100);
    assert_eq!(data.rectangle.bottom, 100);
    assert_eq!(data.data.len(), 100 * 100 * 4);
}

#[test]
fn bitmaps_without_area_are_refused() {
    let bitmap = |r: Rectangle| BitmapUpdate {
        rectangles: vec![BitmapData {
            rectangle: r,
            format: RdpPixelFormat::Bgr24,
            data: vec![],
            compressed: false,
        }],
    };
    assert_eq!(
        convert_to_iron_format(&bitmap(Rectangle::new(5, 0, 5, 9))).err(),
        Some("Invalid stride calculation: width=0")
    );
    assert_eq!(
        convert_to_iron_format(&bitmap(Rectangle::new(0, 9, 5, 9))).err(),
        Some("Invalid height: 0")
    );
}

#[test]
fn frame_rate_stays_bounded() {
    let mut regulator = FrameRateRegulator::new(10, 0);
    let mut sent = 0;
    for ms in 0..1000u64 {
        if regulator.should_send_frame(ms * 1_000_000) {
            sent += 1;
        }
    }
    assert!(sent <= 11, "{sent}");
    assert!(sent >= 10, "{sent}");
}

#[test]
fn layouts_are_adjusted_then_judged() {
    let streams = vec![CaptureStream { node_id: 7, width: 1920, height: 1080 }];
    let mut h = LamcoDisplayHandler::new(1920, 1080, &streams, true, true, false, 50_000);
    assert_eq!(h.capture_node, 7);
    let primary = |w, h| vec![MonitorRequest { is_primary: true, width: w, height: h }];
    assert_eq!(
        h.request_layout(&primary(1281, 100), true, &vec![], true, 60_000),
        LayoutDecision::Accept { width: 1280, height: 200, in_burst: false }
    );
    assert_eq!(
        h.request_layout(&primary(1282, 100), true, &vec![], true, 60_100),
        LayoutDecision::Accept { width: 1282, height: 200, in_burst: true }
    );
    assert_eq!(
        h.request_layout(&primary(1920, 1080), true, &vec![], true, 70_000),
        LayoutDecision::Unchanged
    );
    assert_eq!(
        h.request_layout(&primary(9000, 9000), true, &vec![], true, 70_000),
        LayoutDecision::TooLarge
    );
    assert_eq!(
        h.request_layout(&primary(800, 600), true, &vec!["1024x768".to_string()], true, 70_000),
        LayoutDecision::NotAllowed
    );
    assert_eq!(
        h.request_layout(&primary(800, 600), false, &vec![], true, 70_000),
        LayoutDecision::Disabled
    );
    assert_eq!(h.request_layout(&vec![], true, &vec![], true, 70_000), LayoutDecision::Empty);
}

#[test]
fn reconnecting_client_starts_blank() {
    let mut h = LamcoDisplayHandler::new(800, 600, &vec![], true, false, false, 0);
    let first = h.updates();
    assert!(!first.renewed);
    let mut state = h.gfx_state.unwrap();
    state.is_ready = true;
    state.client_supports_avc420 = true;
    h.gfx_state = Some(state);
    h.has_event_sender = true;
    h.has_gfx_handle = true;
    assert!(h.is_egfx_ready());
    assert_eq!(h.egfx_wait_reason(), "ready");
    h.on_client_disconnect();
    let second = h.updates();
    assert!(second.renewed && second.clipboard_disconnect);
    assert!(!h.is_egfx_ready() && !h.is_avc_supported() && h.client_active);
    assert_eq!(h.egfx_wait_reason(), "EGFX channel open, negotiating capabilities");
    let third = h.updates();
    assert!(third.renewed && !third.clipboard_disconnect);
    h.reset_update_channel();
    assert!(!h.updates().renewed);
}

#[test]
fn surface_sides_are_multiples_of_sixteen() {
    assert_eq!(align_to_16(1080), 1088);
    assert_eq!(align_to_16(1920), 1920);
    let mut h = LamcoDisplayHandler::new_direct(1920, 1080, &vec![], true, false, 0);
    assert!(h.direct_channel_mode && !h.use_dmabuf);
    assert!(h.setup_egfx_surface(1920, 1080).is_none());
    h.has_event_sender = true;
    h.has_gfx_handle = true;
    let setup = h.setup_egfx_surface(1920, 1080).expect("surface");
    assert_eq!((setup.output_width, setup.output_height), (1920, 1080));
    assert_eq!((setup.surface_width, setup.surface_height), (1920, 1088));
    assert!(h.rebind_capture_node(9, true));
    assert!(!h.rebind_capture_node(11, false));
    assert_eq!(h.capture_node, 9);
}

#[test]
fn encoders_wrap_their_output() {
    assert_eq!(VideoEncoder::Avc444.codec_name(), "AVC444");
    assert_eq!(VideoEncoder::X264.codec_name(), "x264-AVC420");
    assert!(VideoEncoder::Avc420.encode_bgra(None).is_none());
    assert_eq!(VideoEncoder::Avc420.ms_since_last_idr(5), u64::MAX);
    assert_eq!(VideoEncoder::Avc444.ms_since_last_idr(5), 5);
    assert!(!VideoEncoder::X264.is_periodic_idr_due(true));
}

#[test]
fn stream_states_reach_input_and_health() {
    let paused = stream_state_effect(PwStreamState::Paused);
    assert_eq!(paused.stream_active, Some(false));
    assert_eq!(paused.health, Some(VideoStreamState::Paused));
    assert_eq!(stream_state_effect(PwStreamState::Connecting).sensor_state, None);
}

#[test]
fn size_changes_are_noticed() {
    assert!(track_capture_size_change((1920, 1080), 1920, 1080).is_none());
    assert!(track_capture_size_change((1920, 1080), 1280, 720).is_some());
    let h = LamcoDisplayHandler::new(800, 600, &vec![], true, false, false, 0);
    let s = CaptureStream { node_id: 4, width: 1, height: 1 };
    assert_eq!(handle_elastic_resize(&h, None, &vec![s]), ElasticResize::NotElastic);
    assert_eq!(handle_elastic_resize(&h, Some(None), &vec![s]), ElasticResize::Keep);
    let after = |effect| CaptureResizeOutcome { width: 1, height: 1, effect };
    let unchanged = after(CaptureResizeEffect::Unchanged);
    let in_place = after(CaptureResizeEffect::RelaidOutInPlace);
    let anew = after(CaptureResizeEffect::Recreated { node_id: 4 });
    let resize = |o, streams: Vec<CaptureStream>| handle_elastic_resize(&h, Some(Some(o)), &streams);
    assert_eq!(resize(unchanged, vec![s]), ElasticResize::Keep);
    assert_eq!(resize(in_place, vec![s]), ElasticResize::Keep);
    assert_eq!(resize(anew, vec![s]), ElasticResize::Rebind(0, s));
    assert_eq!(resize(anew, vec![]), ElasticResize::Keep);
    assert_eq!((rebinds(unchanged), rebinds(in_place), rebinds(anew)), (None, None, Some(4)));
}

#[test]
fn streams_are_asked_for_in_one_layout() {
    let s = CaptureStream { node_id: 4, width: 640, height: 480 };
    let h = LamcoDisplayHandler::new(800, 600, &vec![s], true, true, false, 0);
    let planned = plan_streams(&vec![s, s], true);
    assert_eq!(planned[1].name, "monitor-1");
    for config in [&planned[0], &h.rebind_config(640, 480)] {
        assert_eq!((config.name.as_str(), config.width, config.height), ("monitor-0", 640, 480));
        assert_eq!((config.framerate, config.buffer_count), (60, 5));
        assert_eq!(config.preferred_format, Some(RdpPixelFormat::BgrX32));
        assert!(config.use_dmabuf && !config.dmabuf_passthrough);
    }
}
