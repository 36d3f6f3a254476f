use lamco_rdp_server::server::deployment::{
    captured_node, identity_path, name, on_connect, on_disconnect, proxy_auth, trim_secret,
    EmptySecret, OnDisconnect, ProxyAuth, Rebind,
};
use lamco_rdp_server::server::gfx_factory::CompressionMode;
use lamco_rdp_server::server::lifecycle::{
    autodetect_step, cleanup_goes_on, perform_disconnect_cleanup, portal_notification,
    CleanupStep, DisconnectReport, DisconnectStep, LamcoRdpServer, NotificationPriority,
    OverallHealth, ProbeEvent, ProbeNext, SessionHealth,
};
use lamco_rdp_server::server::port_check::{
    check_port_available, describe, process_id, socket_target, sockets_on_port, PortUse, Probe,
};
use lamco_rdp_server::server::security::{
    audit_transports, effective_auth_method, is_exposed, is_standard_rdp_security,
    lacks_credentials, needs_plain_server, resolve_security_mode, security_label, server_security,
    uses_pam, ServerSecurity, TransportAudit,
};
use lamco_rdp_server::server::startup::{
    after_failed_session, capture_pacing_fps, choose_strategy, clipboard_provider,
    clipboard_types, codec_label, compression_from, compression_mode, falls_back_to_portal,
    initial_size, input_monitors, input_monitors_or_placeholder, mode_name, pipewire_version,
    honored_size, plan_run, plan_server,
    primary_stream_id, report_failed_clipboard, screencast_cursor_mode, server_parts, use_dmabuf,
    video_source, AfterFailure, ServerSettings, StrategyChoice, VideoSource,
};
use lamco_rdp_server::session::strategy::{
    ClipboardBackend, CursorMode, PipeWireAccess, SessionLifecyclePolicy, SessionType, StreamInfo,
};
use lamco_rdp_server::text::{decimal_text, has_text, join3};

fn stream(node_id: u32, width: u32, height: u32, x: i32) -> StreamInfo {
    StreamInfo { node_id, width, height, position_x: x, position_y: 0 }
}

#[test]
fn security_modes_resolve() {
    assert!(is_standard_rdp_security("rdp") && is_standard_rdp_security("none"));
    assert!(!is_standard_rdp_security("tls") && !is_standard_rdp_security("RDP"));
    assert!(resolve_security_mode("hybrid", "none"));
    assert!(resolve_security_mode("auto", "pam"));
    assert!(!resolve_security_mode("auto", "none"));
    assert!(!resolve_security_mode("tls", "pam"));
    assert_eq!(security_label("hybrid"), "Hybrid (NLA/CredSSP)");
    assert_eq!(security_label("auto"), "Auto");
    assert_eq!(security_label("none"), "Standard RDP (no TLS/encryption)");
    assert_eq!(security_label("x"), "TLS");
    assert_eq!(server_security("rdp", true), ServerSecurity::Standard);
    assert_eq!(server_security("hybrid", true), ServerSecurity::Hybrid);
    assert_eq!(server_security("hybrid", false), ServerSecurity::Tls);
    assert_eq!(server_security("auto", true), ServerSecurity::Tls);
    assert!(needs_plain_server("tls", true));
    assert!(!needs_plain_server("rdp", true) && !needs_plain_server("tls", false));
}

#[test]
fn authentication_falls_back_without_pam() {
    assert_eq!(effective_auth_method("pam", false, "none"), "none");
    assert_eq!(effective_auth_method("pam", true, "none"), "pam");
    assert_eq!(effective_auth_method("none", false, "pam"), "none");
    assert!(uses_pam("pam") && !uses_pam("none"));
    assert!(lacks_credentials("hybrid", "none", false));
    assert!(!lacks_credentials("hybrid", "pam", false));
    assert!(!lacks_credentials("hybrid", "none", true));
    assert!(is_exposed("none", Some(false)));
    assert!(!is_exposed("none", Some(true)) && !is_exposed("none", None));
    assert!(!is_exposed("pam", Some(false)));
}

#[test]
fn transports_are_held_against_security() {
    assert_eq!(audit_transports("rdp", Some(false), true), TransportAudit::PlainOnRoutableAddress);
    assert_eq!(audit_transports("rdp", Some(true), true), TransportAudit::Fine);
    assert_eq!(audit_transports("tls", Some(false), true), TransportAudit::VsockNeedsPlain);
    assert_eq!(audit_transports("tls", Some(false), false), TransportAudit::Fine);
}

const TABLE: &str = "  sl  local_address rem_address   st tx_queue rx_queue tr tm->when retrnsmt   uid  timeout inode\n   0: 00000000:0D3D 00000000:0000 0A 00000000:00000000 00:00000000 00000000  1000        0 12345 1 x\n   1: 0100007F:0D3D 0100007F:A000 01 00000000:00000000 00:00000000 00000000  1000        0 777 1 x\n   2: 00000000:0016 00000000:0000 0A 00000000:00000000 00:00000000 00000000     0        0 999 1 x\n   3: 00000000:0D3D short\n   4: 00000000:0D3D 00000000:0000 0B 00000000:00000000 00:00000000 00000000  1000        0 888 1 x\n";

#[test]
fn sockets_on_the_port_are_found() {
    let found = sockets_on_port(TABLE, 3389);
    let pairs: Vec<(&str, &str)> =
        found.iter().map(|u| (u.state.as_str(), u.inode.as_str())).collect();
    assert_eq!(pairs, vec![("LISTEN", "12345"), ("ESTABLISHED", "777"), ("0B", "888")]);
    assert_eq!(sockets_on_port(TABLE, 22).len(), 1);
    assert!(sockets_on_port(TABLE, 80).is_empty());
    assert!(sockets_on_port("", 80).is_empty());
}

#[test]
fn refused_port_is_free() {
    assert!(check_port_available(Probe::Refused, Some(TABLE), 3389).sockets.is_empty());
    let unclear = check_port_available(Probe::Unclear, Some(TABLE), 3389);
    assert!(!unclear.answered);
    assert_eq!(unclear.sockets.len(), 3);
    let taken = check_port_available(Probe::Accepted, None, 3389);
    assert!(taken.answered && taken.sockets.is_empty());
}

#[test]
fn holders_are_described() {
    assert_eq!(socket_target("12345"), "socket:[12345]");
    assert_eq!(process_id("4711"), Some(4711));
    assert_eq!(process_id("self"), None);
    assert_eq!(process_id("99999999999"), None);
    let socket = PortUse { state: "LISTEN".to_string(), inode: "12345".to_string() };
    assert_eq!(
        describe(3389, &socket, Some((17, "xrdp".to_string()))),
        "Port 3389 is held by process 'xrdp' (PID 17) in state LISTEN"
    );
    assert_eq!(
        describe(3389, &socket, None),
        "Port 3389 is in use (state: LISTEN, inode: 12345)"
    );
}

#[test]
fn compression_is_named_in_any_case() {
    assert_eq!(compression_mode("AUTO"), CompressionMode::Auto);
    assert_eq!(compression_mode("Always"), CompressionMode::Always);
    assert_eq!(compression_mode("off"), CompressionMode::Never);
    assert_eq!(compression_from("auto"), CompressionMode::Auto);
    assert_eq!(compression_from("AUTO"), CompressionMode::Never);
}

#[test]
fn strategy_and_video_are_chosen() {
    assert_eq!(choose_strategy(true), StrategyChoice::ViewOnly);
    assert_eq!(choose_strategy(false), StrategyChoice::Select);
    assert_eq!(after_failed_session(true), AfterFailure::ViewOnly);
    assert_eq!(after_failed_session(false), AfterFailure::GiveUp);
    assert_eq!(capture_pacing_fps(30, 60), 60);
    assert_eq!(capture_pacing_fps(75, 60), 75);
    assert_eq!(
        video_source(SessionType::WlrDirect, PipeWireAccess::NodeId(1)),
        VideoSource::Screencast
    );
    assert_eq!(
        video_source(SessionType::Libei, PipeWireAccess::FileDescriptor(8)),
        VideoSource::Descriptor(8)
    );
    assert_eq!(
        video_source(SessionType::MutterDirect, PipeWireAccess::NodeId(9)),
        VideoSource::Node(9)
    );
    assert_eq!(
        video_source(SessionType::PortalGeneric, PipeWireAccess::DirectChannel),
        VideoSource::Channel
    );
    assert_eq!(PipeWireAccess::NodeId(2).duplicate(), PipeWireAccess::NodeId(2));
    assert_eq!(
        screencast_cursor_mode(&vec![CursorMode::Embedded, CursorMode::Metadata]),
        CursorMode::Metadata
    );
    assert_eq!(screencast_cursor_mode(&vec![CursorMode::Embedded]), CursorMode::Embedded);
    assert_eq!(screencast_cursor_mode(&vec![]), CursorMode::Hidden);
}

#[test]
fn servers_are_put_together_by_session() {
    let view = server_parts(SessionType::ScreenCastOnly, true);
    assert!(view.self_sufficient && !view.input && !view.clipboard);
    assert!(view.report_no_input && view.report_no_clipboard);
    let wlr = server_parts(SessionType::WlrDirect, true);
    assert!(wlr.input && wlr.clipboard && !wlr.elastic);
    assert!(!server_parts(SessionType::PortalGeneric, false).clipboard);
    let kwin = server_parts(SessionType::KwinVirtual, true);
    assert!(kwin.input && kwin.elastic && !kwin.clipboard);
    let full = server_parts(SessionType::Libei, false);
    assert!(!full.self_sufficient && full.input && full.clipboard);
    assert!(report_failed_clipboard(SessionType::WlrDirect, false));
    assert!(!report_failed_clipboard(SessionType::WlrDirect, true));
    assert!(!report_failed_clipboard(SessionType::KwinVirtual, false));
    assert_eq!(mode_name(SessionType::PortalGeneric), "portal-generic");
    assert_eq!(mode_name(SessionType::WlrDirect), "wlr-direct");
    assert_eq!(mode_name(SessionType::ScreenCastOnly), "view-only");
    assert_eq!(codec_label(false), "RemoteFX");
}

#[test]
fn desktop_starts_at_first_stream() {
    assert_eq!(initial_size(&vec![]), (1920, 1080));
    assert_eq!(initial_size(&vec![stream(1, 800, 600, 0)]), (800, 600));
    assert_eq!(primary_stream_id(&vec![]), 0);
    assert_eq!(primary_stream_id(&vec![stream(6, 1, 1, 0)]), 6);
    assert!(use_dmabuf(false, false, false) && use_dmabuf(false, true, true));
    assert!(!use_dmabuf(true, false, false) && !use_dmabuf(false, true, false));
}

#[test]
fn monitors_follow_streams() {
    let streams = vec![stream(1, 800, 600, 0), stream(2, 1024, 768, -800)];
    let monitors = input_monitors(&streams);
    assert_eq!(monitors.len(), 2);
    assert_eq!(monitors[1].name, "Monitor 1");
    assert_eq!(monitors[1].id, 1);
    assert_eq!((monitors[1].x, monitors[1].stream_x), (-800, (-800i32) as u32));
    assert!(monitors[0].is_primary && !monitors[1].is_primary);
    assert!(input_monitors(&vec![]).is_empty());
    let placeholder = input_monitors_or_placeholder(&vec![]);
    assert_eq!(placeholder.len(), 1);
    assert_eq!(placeholder[0].name, "placeholder");
    assert_eq!((placeholder[0].width, placeholder[0].height), (1920, 1080));
    assert_eq!(input_monitors_or_placeholder(&streams).len(), 2);
}

#[test]
fn clipboard_types_follow_list() {
    let all = clipboard_types(&vec![]);
    assert!(all.images && all.files && all.html && all.rtf);
    let some = clipboard_types(&vec!["image/png".to_string(), "text/uri-list".to_string()]);
    assert!(some.images && some.files && !some.html && !some.rtf);
    assert_eq!(
        clipboard_provider(true, Some(ClipboardBackend::Mutter)),
        Some(ClipboardBackend::WlClipboard)
    );
    assert_eq!(clipboard_provider(false, None), None);
    assert!(falls_back_to_portal(true, false, true, true, true));
    assert!(!falls_back_to_portal(true, true, true, true, true));
    assert!(!falls_back_to_portal(true, false, true, true, false));
}

#[test]
fn versions_are_read() {
    assert_eq!(pipewire_version(Some("1.2.7")), (1, 2, 7));
    assert_eq!(pipewire_version(Some("1.x.7.9")), (1, 0, 7));
    assert_eq!(pipewire_version(Some("1.2")), (0, 3, 0));
    assert_eq!(pipewire_version(None), (0, 3, 0));
}

#[test]
fn unserved_client_changes_nothing() {
    let plan = perform_disconnect_cleanup(false, None);
    assert!(plan.steps.is_empty() && plan.accept);
    let plan = perform_disconnect_cleanup(true, None);
    assert_eq!(
        plan.steps,
        vec![
            DisconnectStep::RestoreCursor,
            DisconnectStep::PausePipeline,
            DisconnectStep::ReleaseClipboard
        ]
    );
    let health = |session_failed, overall| Some(SessionHealth { session_failed, overall });
    let dead = perform_disconnect_cleanup(true, health(true, OverallHealth::Invalid));
    assert!(!dead.accept);
    assert_eq!(dead.report, DisconnectReport::SessionDestroyed);
    let ill = perform_disconnect_cleanup(true, health(false, OverallHealth::Invalid));
    assert!(ill.accept);
    assert_eq!(ill.report, DisconnectReport::SubsystemFailed);
    let slow = perform_disconnect_cleanup(true, health(false, OverallHealth::Degraded));
    assert_eq!(slow.report, DisconnectReport::Degraded);
    let well = perform_disconnect_cleanup(true, health(false, OverallHealth::Healthy));
    assert_eq!(well.report, DisconnectReport::Ready);
}

#[test]
fn cleanup_happens_once_and_in_order() {
    let mut server = LamcoRdpServer::new(true, true);
    assert_eq!(
        server.cleanup_resources(),
        vec![
            CleanupStep::AnnounceStop,
            CleanupStep::BroadcastShutdown,
            CleanupStep::Settle,
            CleanupStep::ShutDownClipboard,
            CleanupStep::ShutDownCapture,
            CleanupStep::ClosePortalSession,
        ]
    );
    assert!(server.cleanup_resources().is_empty());
    assert_eq!(LamcoRdpServer::new(false, false).cleanup_resources().len(), 4);
    assert!(!cleanup_goes_on(CleanupStep::ShutDownClipboard, false));
    assert!(cleanup_goes_on(CleanupStep::ClosePortalSession, false));
}

#[test]
fn notifications_need_a_sandbox() {
    assert_eq!(portal_notification(false, true), None);
    assert_eq!(portal_notification(true, true), Some(NotificationPriority::High));
    assert_eq!(portal_notification(true, false), Some(NotificationPriority::Normal));
}

#[test]
fn round_trip_is_measured_for_ready_clients() {
    assert_eq!(autodetect_step(ProbeEvent::Tick { ready: false }), ProbeNext::Wait);
    assert_eq!(autodetect_step(ProbeEvent::Tick { ready: true }), ProbeNext::Request);
    assert_eq!(autodetect_step(ProbeEvent::Sent { accepted: true }), ProbeNext::Wait);
    assert_eq!(autodetect_step(ProbeEvent::Sent { accepted: false }), ProbeNext::Stop);
    assert_eq!(autodetect_step(ProbeEvent::Shutdown), ProbeNext::Stop);
}

#[test]
fn web_socket_clients_need_the_secret() {
    assert_eq!(name(), "desktop");
    assert!(matches!(proxy_auth(true, None), Ok(ProxyAuth::AllowAllInsecure)));
    assert!(matches!(proxy_auth(false, None), Ok(ProxyAuth::DenyAll)));
    assert!(matches!(
        proxy_auth(false, Some(b"key\r\n".to_vec())),
        Ok(ProxyAuth::SharedSecret(s)) if s == b"key".to_vec()
    ));
    assert_eq!(proxy_auth(false, Some(b"\n".to_vec())).unwrap_err(), EmptySecret);
    assert_eq!(trim_secret(b"a\n\n".to_vec()), b"a\n".to_vec());
    assert_eq!(trim_secret(b"a\r".to_vec()), b"a".to_vec());
    assert_eq!(identity_path(None, "server".to_string()), "server");
    assert_eq!(identity_path(Some("own".to_string()), "server".to_string()), "own");
}

#[test]
fn sessions_follow_clients() {
    let per_connection = SessionLifecyclePolicy::PerConnection;
    let persistent = SessionLifecyclePolicy::Persistent;
    assert_eq!(
        on_disconnect(true, per_connection, false),
        OnDisconnect { release: true, accept: true }
    );
    assert_eq!(
        on_disconnect(false, per_connection, false),
        OnDisconnect { release: false, accept: true }
    );
    assert_eq!(
        on_disconnect(true, persistent, false),
        OnDisconnect { release: false, accept: false }
    );
    assert_eq!(captured_node(PipeWireAccess::NodeId(5)), 5);
    assert_eq!(captured_node(PipeWireAccess::FileDescriptor(5)), 0);
    let plan = on_connect(5, Some((vec![stream(5, 800, 600, 0)], true)));
    assert!(plan.accept);
    assert_eq!(
        plan.rebind,
        Some(Rebind { old_node: 5, new_node: 5, width: 800, height: 600 })
    );
    let reused = on_connect(5, Some((vec![stream(5, 800, 600, 0)], false)));
    assert!(reused.rebind.is_none());
    assert_eq!(reused.streams.expect("streams").len(), 1);
    assert!(!on_connect(5, None).accept);
}

#[test]
fn text_helpers_agree_with_std() {
    assert_eq!(decimal_text(0), "0");
    assert_eq!(decimal_text(u64::MAX), u64::MAX.to_string());
    assert_eq!(join3("a", "", "c"), "ac");
    assert!(has_text("abc", "bc") && has_text("abc", "") && !has_text("abc", "cb"));
}

fn settings() -> ServerSettings {
    ServerSettings {
        clipboard_enabled: true,
        allowed_types: vec!["text/html".to_string()],
        zgfx_compression: "Auto".to_string(),
        max_frames_in_flight: 4,
        egfx_enabled: true,
        enable_touch: true,
        security_mode: "hybrid".to_string(),
        public_key: true,
        vsock_active: true,
        shared_memory_recommended: false,
        virgl: false,
        venus: false,
    }
}

#[test]
fn servers_are_planned() {
    let plan = plan_server(
        SessionType::KwinVirtual,
        PipeWireAccess::FileDescriptor(3),
        &vec![],
        &settings(),
    );
    assert!(plan.parts.elastic && plan.plain_server && plan.use_dmabuf);
    assert_eq!(plan.initial_size, (1920, 1080));
    assert_eq!(plan.monitors[0].name, "placeholder");
    assert_eq!(plan.graphics.compression_mode, CompressionMode::Auto);
    assert_eq!(plan.graphics.max_frames_in_flight, 4);
    assert_eq!(plan.security, ServerSecurity::Hybrid);
    assert!(plan.clipboard.html && !plan.clipboard.rtf);
    let view = plan_server(
        SessionType::ScreenCastOnly,
        PipeWireAccess::FileDescriptor(3),
        &vec![stream(5, 640, 480, 0)],
        &settings(),
    );
    assert!(view.monitors.is_empty() && !view.plain_server);
    assert_eq!(view.primary_stream, 5);
    let direct = plan_server(
        SessionType::PortalGeneric,
        PipeWireAccess::DirectChannel,
        &vec![],
        &settings(),
    );
    assert!(!direct.use_dmabuf);
    let full = plan_server(
        SessionType::Libei,
        PipeWireAccess::FileDescriptor(3),
        &vec![stream(5, 640, 480, 0)],
        &settings(),
    );
    assert!(!full.plain_server && full.offers_touch);
    assert_eq!(full.monitors.len(), 1);
    assert!(plan.offers_graphics && plan.follows_graphics && plan.offers_touch);
    assert!(!view.offers_touch);
    let mut bare = settings();
    bare.egfx_enabled = false;
    bare.enable_touch = false;
    let access = PipeWireAccess::FileDescriptor(3);
    let plan = plan_server(SessionType::Portal, access, &vec![], &bare);
    assert!(!plan.offers_graphics && plan.follows_graphics && !plan.offers_touch);
    let access = PipeWireAccess::FileDescriptor(3);
    let plan = plan_server(SessionType::WlrDirect, access, &vec![], &bare);
    assert!(!plan.offers_graphics && !plan.follows_graphics);
}

#[test]
fn runs_are_planned() {
    let plan = plan_run("auto", "pam", false, "none", false, true, Some(false));
    assert_eq!(plan.auth_method, "none");
    assert!(plan.auth_fell_back && !plan.hybrid && !plan.pam && plan.exposed);
    let plan = plan_run("hybrid", "pam", true, "none", false, false, Some(true));
    assert!(plan.hybrid && plan.pam && !plan.lacks_credentials && !plan.exposed);
    assert_eq!(plan.codec_label, "RemoteFX");
    let plan = plan_run("hybrid", "none", true, "pam", false, false, None);
    assert!(plan.lacks_credentials && !plan.standard);
}

#[test]
fn client_sizes_are_limited() {
    assert_eq!(honored_size(1920, 1080), (1920, 1080));
    assert_eq!(honored_size(5000, 5000), (3840, 2160));
    assert_eq!(honored_size(1000, 2161), (1000, 2160));
}

#[test]
fn automatic_mode_calls_for_what_tls_offers() {
    assert!(resolve_security_mode("auto", "pam"));
    assert_eq!(server_security("auto", true), ServerSecurity::Tls);
    assert_eq!(server_security("hybrid", true), ServerSecurity::Hybrid);
}
