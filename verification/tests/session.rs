use lamco_rdp_server::session::strategies::eis_common::{
    assign_device_roles, current_time_us, eis_keyboard_keycode, eis_pointer_axis,
    eis_pointer_button, eis_pointer_motion_absolute, eis_pointer_motion_relative, eis_touch_down,
    eis_touch_motion, eis_touch_up, flush_frame, DeviceData, DeviceRegion, DeviceRole, DeviceType,
    EisDevices, InputError, InputTarget, Interface, PressState, TouchPhase,
};
use lamco_rdp_server::session::strategies::kwin_virtual::{
    in_place_mode_change_enabled, Establish, KwinVirtualSessionHandle, KwinVirtualStrategy,
    ReleaseStep, ResizeNext, OUTPUT_NAME, VIRTUAL_OUTPUT_KSCREEN_NAME,
};
use lamco_rdp_server::session::strategies::libei::{
    Activation, EiEvent, EiResponse, LibeiSessionHandleImpl, LibeiStrategy, SetupStep, StreamItem,
    TokenLookup, WatchStep,
};
use lamco_rdp_server::session::strategies::screencast_only::{
    ScreenCastOnlySessionHandle, ScreenCastOnlyStrategy,
};
use lamco_rdp_server::session::strategy::{
    build_clipboard, new_session_tag, session_id, session_tag, streams_from_portal,
    CaptureResizeEffect, CaptureResizeOutcome, ClipboardBackend, ClipboardComponents,
    ClipboardSource, CursorMode, PipeWireAccess, PortalStream, SessionConfig,
    SessionLifecyclePolicy, SessionType, StreamInfo,
};

fn view_only() -> ScreenCastOnlySessionHandle {
    ScreenCastOnlySessionHandle {
        pipewire_fd: 0,
        streams: vec![],
    }
}

#[test]
fn test_session_type() {
    assert_eq!(view_only().session_type(), SessionType::ScreenCastOnly);
}

#[test]
fn test_no_clipboard() {
    assert!(matches!(view_only().clipboard_source(), ClipboardSource::Absent));
}

#[test]
fn test_best_cursor_mode_prefers_metadata() {
    let strategy = ScreenCastOnlyStrategy::with_cursor_modes(vec![
        CursorMode::Hidden,
        CursorMode::Embedded,
        CursorMode::Metadata,
    ]);
    assert_eq!(strategy.best_cursor_mode(), CursorMode::Hidden);
}

#[test]
fn test_best_cursor_mode_falls_back_to_embedded() {
    let strategy =
        ScreenCastOnlyStrategy::with_cursor_modes(vec![CursorMode::Hidden, CursorMode::Embedded]);
    assert_eq!(strategy.best_cursor_mode(), CursorMode::Hidden);
}

#[test]
fn test_best_cursor_mode_hidden_only() {
    let strategy = ScreenCastOnlyStrategy::with_cursor_modes(vec![CursorMode::Hidden]);
    assert_eq!(strategy.best_cursor_mode(), CursorMode::Hidden);
}

#[test]
fn test_best_cursor_mode_empty_defaults_metadata() {
    let strategy = ScreenCastOnlyStrategy::new();
    assert_eq!(strategy.best_cursor_mode(), CursorMode::Hidden);
}

#[test]
fn test_input_rejected() {
    let handle = view_only();
    assert!(handle.notify_keyboard_keycode(42, true).is_err());
    assert!(handle.notify_pointer_motion_absolute(0).is_err());
    assert!(handle.notify_pointer_button(1, true).is_err());
    assert_eq!(
        handle.notify_pointer_axis(),
        Err("Input not available in view-only mode")
    );
}

#[test]
fn view_only_session_needs_a_stream() {
    let strategy = ScreenCastOnlyStrategy::default();
    assert_eq!(
        strategy.started(&vec![]).unwrap_err(),
        "No streams available from ScreenCast"
    );
    let portal = PortalStream { node_id: 3, size: Some((640, 480)), position: None };
    let streams = strategy.started(&vec![portal]).expect("streams");
    assert_eq!(
        streams,
        vec![StreamInfo { node_id: 3, width: 640, height: 480, position_x: 0, position_y: 0 }]
    );
    assert_eq!(strategy.name(), "ScreenCast-only (view-only)");
    assert!(strategy.requires_initial_setup() && !strategy.supports_unattended_restore());
    let request = strategy.source_request();
    assert!(!request.multiple && !request.persist);
    let handle = ScreenCastOnlySessionHandle { pipewire_fd: 9, streams };
    assert_eq!(handle.pipewire_access(), PipeWireAccess::FileDescriptor(9));
    assert_eq!(handle.streams().len(), 1);
}

#[test]
fn portal_may_leave_out_size() {
    let portal = PortalStream { node_id: 1, size: None, position: Some((-5, 7)) };
    let s = streams_from_portal(&vec![portal])[0];
    assert_eq!((s.width, s.height, s.position_x, s.position_y), (0, 0, -5, 7));
    let odd = PortalStream { node_id: 1, size: Some((-1, 2)), position: None };
    assert_eq!(streams_from_portal(&vec![odd])[0].width, u32::MAX);
}

#[test]
fn session_types_have_names() {
    assert_eq!(SessionType::Portal.to_string(), "Portal");
    assert_eq!(SessionType::MutterDirect.to_string(), "Mutter Direct API");
    assert_eq!(SessionType::WlrDirect.to_string(), "wlr-direct");
    assert_eq!(SessionType::Libei.to_string(), "libei/EIS");
    assert_eq!(SessionType::PortalGeneric.to_string(), "portal-generic (embedded)");
    assert_eq!(SessionType::ScreenCastOnly.to_string(), "ScreenCast-only (view-only)");
    assert_eq!(SessionType::KwinVirtual.to_string(), "kwin-virtual (zkde-screencast)");
}

fn is_random_uuid(s: &str) -> bool {
    s.len() == 36
        && s.char_indices().all(|(i, c)| match i {
            8 | 13 | 18 | 23 => c == '-',
            14 => c == '4',
            19 => "89ab".contains(c),
            _ => c.is_ascii_digit() || ('a'..='f').contains(&c),
        })
}

#[test]
fn default_configuration_has_random_name() {
    let a = SessionConfig::default();
    let b = SessionConfig::default();
    assert!(is_random_uuid(a.session_id.strip_prefix("lamco-rdp-").expect("prefix")));
    assert_ne!(a.session_id, b.session_id);
    assert_eq!(a.cursor_mode, CursorMode::Metadata);
    assert!(a.monitor_connector.is_none() && a.enable_clipboard);
    assert_eq!(session_id("x"), "lamco-rdp-x");
    assert_eq!(session_tag("libei-", "0123456789"), "libei-01234567");
    let tag = new_session_tag("libei-");
    assert_eq!(tag.len(), 14);
    assert!(tag[6..].chars().all(|c| c.is_ascii_hexdigit()));
    assert_ne!(LibeiStrategy::default().session_tag(), tag);
}

#[test]
fn clipboard_comes_from_session_or_portal() {
    let full = ClipboardComponents { manager: true, session_valid: true };
    let old = ClipboardComponents { manager: false, session_valid: true };
    assert!(full.is_session_valid());
    assert_eq!(
        build_clipboard(ClipboardSource::Portal(full), None, false),
        Some(ClipboardBackend::Portal)
    );
    assert_eq!(build_clipboard(ClipboardSource::Portal(old), Some(full), false), None);
    assert_eq!(build_clipboard(ClipboardSource::Mutter, Some(full), false), None);
    assert_eq!(
        build_clipboard(ClipboardSource::Mutter, None, true),
        Some(ClipboardBackend::Mutter)
    );
    assert_eq!(
        build_clipboard(ClipboardSource::DataControl, None, false),
        Some(ClipboardBackend::DataControl)
    );
    assert_eq!(
        build_clipboard(ClipboardSource::Absent, Some(full), false),
        Some(ClipboardBackend::Portal)
    );
    assert_eq!(build_clipboard(ClipboardSource::Absent, None, false), None);
}

#[test]
fn only_virtual_devices_get_roles() {
    let mut devices = EisDevices::new(7);
    let mut data = DeviceData::announced(1);
    data.interfaces.insert(Interface::Keyboard);
    data.interfaces.insert(Interface::Button);
    data.device_type = Some(DeviceType::Physical);
    assert!(!assign_device_roles(5, &data, &mut devices));
    assert_eq!(devices.keyboard, None);
    data.device_type = Some(DeviceType::Virtual);
    assert!(assign_device_roles(5, &data, &mut devices));
    assert_eq!(devices.keyboard, Some(5));
    assert_eq!(devices.pointer, None);
    let mut buttons = DeviceData::announced(1);
    buttons.device_type = Some(DeviceType::Virtual);
    buttons.interfaces.insert(Interface::Button);
    assert!(!assign_device_roles(6, &buttons, &mut devices));
    devices.clear();
    assert_eq!(devices.keyboard, None);
    assert_eq!(devices.last_serial, 7);
}

#[test]
fn input_errors_read_as_text() {
    let mut devices = EisDevices::new(0);
    let e = eis_keyboard_keycode(&devices, 30, true).unwrap_err();
    assert_eq!(e.to_string(), "EIS keyboard not ready");
    assert_eq!(
        eis_pointer_motion_absolute(&devices).unwrap_err().to_string(),
        "EIS pointer_absolute not ready"
    );
    devices.touch = Some(3);
    assert_eq!(
        eis_touch_down(&devices, 0).unwrap_err().to_string(),
        "Device data missing for touchscreen"
    );
    devices.pointer = Some(4);
    devices.all.insert(4, DeviceData::announced(1));
    assert_eq!(
        eis_pointer_axis(&devices).unwrap_err().to_string(),
        "ei_scroll interface not found"
    );
    assert_eq!(
        flush_frame(false).unwrap_err().to_string(),
        "EIS context not initialized"
    );
    assert!(flush_frame(true).is_ok());
}

#[test]
fn frame_times_are_microseconds() {
    assert_eq!(current_time_us(Some((2, 3_456))), 2_000_003);
    assert_eq!(current_time_us(None), 0);
    assert_eq!(current_time_us(Some((u64::MAX, 0))), 0u64.wrapping_sub(1_000_000));
}

fn started() -> LibeiSessionHandleImpl {
    let stream = StreamInfo { node_id: 11, width: 800, height: 600, position_x: 5, position_y: 6 };
    LibeiSessionHandleImpl::new(vec![stream], 3)
}

fn announce(s: &mut LibeiSessionHandleImpl, device: u64, interfaces: &[&str]) {
    s.handle_event(EiEvent::SeatDevice { seat: 1, device });
    s.handle_event(EiEvent::DeviceType { device, device_type: DeviceType::Virtual });
    for i in interfaces {
        s.handle_event(EiEvent::DeviceInterface { device, interface: i.to_string() });
    }
}

#[test]
fn announced_device_gets_input_until_destroyed() {
    let mut s = started();
    assert_eq!(s.handle_event(EiEvent::Seat { seat: 1 }), EiResponse::Nothing);
    announce(&mut s, 20, &["ei_pointer_absolute", "ei_button", "ei_text"]);
    assert_eq!(s.handle_event(EiEvent::DeviceDone { device: 20 }), EiResponse::Nothing);
    assert_eq!(
        eis_pointer_motion_absolute(&s.devices),
        Ok(InputTarget { device: 20, serial: 0 })
    );
    assert_eq!(
        s.handle_event(EiEvent::DeviceDestroyed { device: 20, serial: 8 }),
        EiResponse::Nothing
    );
    assert_eq!(
        eis_pointer_motion_absolute(&s.devices),
        Err(InputError::NotReady(DeviceRole::PointerAbsolute))
    );
    announce(&mut s, 21, &["ei_pointer_absolute"]);
    s.handle_event(EiEvent::DeviceDone { device: 21 });
    assert_eq!(
        eis_pointer_motion_absolute(&s.devices),
        Ok(InputTarget { device: 21, serial: 8 })
    );
}

#[test]
fn keys_and_buttons_carry_their_codes() {
    let mut s = started();
    s.handle_event(EiEvent::Seat { seat: 1 });
    announce(&mut s, 2, &["ei_keyboard", "ei_pointer", "ei_button", "ei_scroll"]);
    s.handle_event(EiEvent::DeviceDone { device: 2 });
    let key = eis_keyboard_keycode(&s.devices, 30, true).expect("key");
    assert_eq!((key.code, key.state), (30, PressState::Press));
    let button = eis_pointer_button(&s.devices, -1, false).expect("button");
    assert_eq!((button.code, button.state), (u32::MAX, PressState::Released));
    assert!(eis_pointer_motion_relative(&s.devices).is_ok());
    assert!(eis_pointer_axis(&s.devices).is_ok());
    assert!(eis_touch_motion(&s.devices, 1).is_err());
    announce(&mut s, 3, &["ei_touchscreen"]);
    s.handle_event(EiEvent::DeviceDone { device: 3 });
    let down = eis_touch_down(&s.devices, 1).expect("down");
    assert_eq!((down.slot, down.phase, down.target.device), (1, TouchPhase::Down, 3));
    assert_eq!(eis_touch_motion(&s.devices, 1).expect("motion").phase, TouchPhase::Motion);
    assert_eq!(eis_touch_up(&s.devices, 2).expect("up").phase, TouchPhase::Up);
}

#[test]
fn seats_are_bound_with_all_capabilities() {
    let mut s = started();
    s.handle_event(EiEvent::Seat { seat: 1 });
    s.handle_event(EiEvent::SeatName { seat: 1, name: "default".to_string() });
    for (interface, mask) in [("ei_pointer", 8u64), ("ei_keyboard", 2), ("ei_pointer", 1)] {
        s.handle_event(EiEvent::SeatCapability {
            seat: 1,
            mask,
            interface: interface.to_string(),
        });
    }
    assert_eq!(
        s.handle_event(EiEvent::SeatDone { seat: 1 }),
        EiResponse::Bind { seat: 1, capabilities: 3, sync: false, flush: false }
    );
    assert_eq!(s.handle_event(EiEvent::SeatDone { seat: 2 }), EiResponse::UnknownSeat);
    assert_eq!(s.handle_event(EiEvent::DeviceDone { device: 9 }), EiResponse::UnknownDevice);
}

#[test]
fn connected_session_answers() {
    let mut s = started();
    s.connected(40, Some(3));
    assert_eq!(s.handle_event(EiEvent::Ping), EiResponse::Pong { flush: true });
    s.handle_event(EiEvent::Seat { seat: 1 });
    announce(&mut s, 2, &["ei_keyboard"]);
    let area = |width| DeviceRegion { x: 0, y: 0, width, height: 10 };
    s.handle_event(EiEvent::DeviceRegion { device: 2, region: area(10) });
    s.handle_event(EiEvent::DeviceRegion { device: 2, region: area(20) });
    assert_eq!(s.devices.all[&2].regions, vec![area(20)]);
    assert_eq!(
        s.handle_event(EiEvent::DeviceDone { device: 2 }),
        EiResponse::Ready { device: 2, flush: true }
    );
    assert_eq!(
        s.handle_event(EiEvent::DeviceResumed { device: 2, serial: u32::MAX }),
        EiResponse::Emulate { device: 2, sequence: 0, serial: u32::MAX, flush: true }
    );
    assert_eq!(s.devices.last_serial, u32::MAX);
}

#[test]
fn activation_runs_once_at_a_time() {
    let mut s = started();
    assert_eq!(s.begin_activation(false), Activation::Connect);
    assert_eq!(s.begin_activation(false), Activation::Wait);
    s.abort_activation();
    assert_eq!(s.begin_activation(false), Activation::Connect);
    s.connected(1, None);
    assert!(matches!(s.setup_step(StreamItem::ParseError), SetupStep::Continue(_)));
    assert!(matches!(
        s.setup_step(StreamItem::Event(EiEvent::Seat { seat: 1 })),
        SetupStep::Continue(_)
    ));
    assert!(matches!(
        s.setup_step(StreamItem::Event(EiEvent::CallbackDone)),
        SetupStep::Complete(_)
    ));
    assert_eq!(s.begin_activation(true), Activation::Ready);
    announce(&mut s, 2, &["ei_keyboard"]);
    assert!(matches!(
        s.watch_step(StreamItem::Event(EiEvent::DeviceDone { device: 2 })),
        WatchStep::Continue(_)
    ));
    assert_eq!(s.devices.role(DeviceRole::Keyboard), Some(2));
    assert_eq!(s.begin_activation(false), Activation::Connect);
    assert_eq!(s.devices.role(DeviceRole::Keyboard), None);
    assert!(s.seats.is_empty());
    assert_eq!(s.setup_step(StreamItem::Failed), SetupStep::Failed);
    assert!(!s.activating && !s.eis_activated);
}

#[test]
fn lost_connection_is_replaced() {
    let mut s = started();
    s.begin_activation(false);
    s.connected(1, Some(2));
    assert!(matches!(s.setup_step(StreamItem::TimedOut), SetupStep::Complete(_)));
    assert_eq!(s.watch_step(StreamItem::Ended), WatchStep::Stop);
    assert_eq!(s.begin_activation(true), Activation::Connect);
}

#[test]
fn libei_session_is_described() {
    let s = started();
    assert_eq!(s.session_type(), SessionType::Libei);
    assert_eq!(s.pipewire_access(), PipeWireAccess::FileDescriptor(3));
    assert_eq!(s.stream_position(11), Some((5, 6)));
    assert_eq!(s.stream_position(12), None);
    assert_eq!(s.streams().len(), 1);
    assert_eq!(s.clipboard_source(), ClipboardSource::Absent);
    assert_eq!(s.build_clipboard(), Some(ClipboardBackend::WlClipboard));
    let strategy = LibeiStrategy::new(true);
    assert_eq!(strategy.name(), "libei");
    assert_eq!(strategy.token_name(), "libei-default");
    assert_eq!(strategy.restore_token(TokenLookup::Found("t".to_string())), Some("t".to_string()));
    assert_eq!(strategy.restore_token(TokenLookup::Missing), None);
    assert_eq!(strategy.restore_token(TokenLookup::Failed), None);
    assert_eq!(strategy.restore_token(TokenLookup::NoStore), None);
    assert_eq!(strategy.token_to_save(Some("n".to_string())), Some("n".to_string()));
    assert_eq!(LibeiStrategy::new(false).token_to_save(Some("n".to_string())), None);
    assert_eq!(strategy.cursor_mode(true, true), CursorMode::Metadata);
    assert_eq!(strategy.cursor_mode(false, true), CursorMode::Embedded);
    assert_eq!(strategy.cursor_mode(false, false), CursorMode::Hidden);
    assert!(strategy.start_notice(true).contains("no dialog expected"));
    assert_eq!(
        strategy.started(&vec![]).unwrap_err(),
        "libei: RemoteDesktop session returned no ScreenCast streams"
    );
}

#[test]
fn live_stream_is_reused() {
    let mut s = KwinVirtualSessionHandle::new();
    assert_eq!(s.build_clipboard(), Some(ClipboardBackend::WlClipboard));
    assert_eq!(s.establish_for_client(), Establish::Create(1920, 1200));
    assert!(s.established(70, 1920, 1200));
    assert!(matches!(s.establish_for_client(), Establish::Reuse(i) if i.node_id == 70));
    assert_eq!(s.pipewire_access(None), PipeWireAccess::NodeId(70));
    assert_eq!(s.streams().len(), 1);
    assert_eq!(s.lifecycle_policy(), SessionLifecyclePolicy::PerConnection);
    assert_eq!(s.session_type(), SessionType::KwinVirtual);
}

#[test]
fn outputs_return_before_stream_closes() {
    let mut s = KwinVirtualSessionHandle::new();
    s.established(70, 1280, 800);
    assert_eq!(
        s.release_after_client(),
        vec![ReleaseStep::RestoreOutputs, ReleaseStep::CloseStream]
    );
    assert_eq!(s.release_after_client(), vec![ReleaseStep::CloseStream]);
    assert_eq!(s.establish_for_client(), Establish::Create(1280, 800));
    assert_eq!(s.pipewire_access(Some(4)), PipeWireAccess::FileDescriptor(4));
    assert_eq!(s.pipewire_access(None), PipeWireAccess::NodeId(0));
}

#[test]
fn resize_changes_mode_or_recreates() {
    let mut s = KwinVirtualSessionHandle::new();
    s.established(70, 1280, 800);
    assert_eq!(
        s.resize_capture_source(1280, 800, true),
        ResizeNext::Done(CaptureResizeOutcome {
            width: 1280,
            height: 800,
            effect: CaptureResizeEffect::Unchanged
        })
    );
    assert_eq!(s.resize_capture_source(1000, 700, true), ResizeNext::ChangeMode);
    assert!(matches!(
        s.mode_changed(1000, 700, true),
        ResizeNext::Done(o) if o.effect == CaptureResizeEffect::RelaidOutInPlace
    ));
    assert_eq!(s.streams()[0].node_id, 70);
    assert_eq!(s.resize_capture_source(900, 600, false), ResizeNext::Recreate);
    assert_eq!(
        s.recreated(900, 600, Some(71)).expect("outcome").effect,
        CaptureResizeEffect::Recreated { node_id: 71 }
    );
    let kept = s.recreated(1, 1, None).expect("outcome");
    assert_eq!((kept.width, kept.height), (900, 600));
    assert_eq!(kept.effect, CaptureResizeEffect::Unchanged);
    s.release_after_client();
    assert_eq!(s.resize_capture_source(10, 10, true), ResizeNext::Recreate);
    assert_eq!(s.recreated(10, 10, None), None);
}

#[test]
fn virtual_output_needs_kde_on_wayland() {
    assert!(KwinVirtualStrategy::<u8>::is_available("KDE", false, true));
    assert!(KwinVirtualStrategy::<u8>::is_available("", true, true));
    assert!(!KwinVirtualStrategy::<u8>::is_available("KDE", false, false));
    let strategy = KwinVirtualStrategy::new(Some(5u8));
    assert_eq!(strategy.token_manager(), &Some(5u8));
    assert_eq!(strategy.name(), "kwin-virtual");
    assert!(in_place_mode_change_enabled(None));
    assert!(in_place_mode_change_enabled(Some("1")));
    assert!(!in_place_mode_change_enabled(Some("0")));
    assert_eq!(VIRTUAL_OUTPUT_KSCREEN_NAME, format!("Virtual-{OUTPUT_NAME}"));
}
