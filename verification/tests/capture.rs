use bignetscreen::backend::{
    is_sandboxed, load_restore_token, restore_token_path, select_backend, select_backend_for,
    Backend, MutterWithPortalFallback, ParentWindow, PortalBackend, PortalCursor, PortalSources,
};
use bignetscreen::capture::SourceType;
use bignetscreen::display_config::{
    after_rejection, arrange_error, connectors, logical_width, preferred_mode, primary_connector,
    wait_for_virtual_connector, ConnectorWait, DisplayState, LayoutSnapshot, LogicalMonitor, Mode,
    Monitor, RestoreStep,
};
use bignetscreen::error::NdError;
use bignetscreen::mutter::{
    after_keep_alive_failure, after_step, cleanup_after, extra_screen_node, is_far_too_small,
    keep_alive_description, monitor_missing, recorded_node, session_refused, stop, ActiveSession,
    MutterBackend, NodeWait, Recording, StartStep, StopStep,
};

fn mode(id: &str, width: i32, height: i32, current: bool, preferred: bool) -> Mode {
    Mode { id: id.into(), width, height, is_current: current, is_preferred: preferred }
}

fn monitor(connector: &str, modes: Vec<Mode>) -> Monitor {
    Monitor { connector: connector.into(), modes, underscanning: None, color_mode: None }
}

fn logical(x: i32, scale: f64, transform: u32, primary: bool, on: &[&str]) -> LogicalMonitor {
    LogicalMonitor {
        x,
        y: 0,
        scale: scale.to_bits(),
        transform,
        primary,
        connectors: on.iter().map(|c| c.to_string()).collect(),
    }
}

/// The width in logical pixels: the extent divided by the scale.
fn width(monitors: &Vec<Monitor>, part: &LogicalMonitor, layout_mode: u32) -> Option<i32> {
    let extent = logical_width(monitors, part, layout_mode)?;
    let scale = f64::from_bits(extent.scale);
    if !scale.is_finite() || scale <= 0.0 {
        return None;
    }
    Some(((extent.pixels as f64) / scale).round() as i32)
}

#[test]
fn portrait_width_and_physical_layout_are_preserved() {
    let monitors = vec![monitor("DP-1", vec![mode("mode", 1920, 1080, true, false)])];
    let at = |scale, transform| logical(0, scale, transform, false, &["DP-1"]);
    assert_eq!(width(&monitors, &at(2.0, 1), 1), Some(540));
    assert_eq!(width(&monitors, &at(2.0, 1), 2), Some(1080));
    assert_eq!(width(&monitors, &at(2.0, 0), 1), Some(960));
    assert_eq!(width(&monitors, &at(0.0, 0), 1), None);
}

fn laptop() -> DisplayState {
    DisplayState {
        monitors: vec![
            monitor(
                "eDP-1",
                vec![
                    mode("1920x1200@60", 1920, 1200, false, true),
                    mode("1920x1200@60+vrr", 1920, 1200, true, false),
                ],
            ),
            monitor("HDMI-1", vec![mode("off", 800, 600, false, false)]),
        ],
        logical: vec![
            logical(0, 1.0, 0, true, &["eDP-1"]),
            logical(1920, 1.0, 0, false, &["HDMI-1"]),
        ],
        layout_mode: None,
        supports_layout_mode: Some(true),
        global_scale_required: None,
    }
}

#[test]
fn the_users_screen_keeps_its_mode_and_scale() {
    let state = laptop();
    let widths: Vec<Option<i32>> =
        state.logical.iter().map(|l| width(&state.monitors, l, state.layout_mode())).collect();
    assert_eq!(widths, vec![Some(1920), None]);
    let snapshot = LayoutSnapshot::capture(&state, &widths).unwrap();
    assert_eq!(snapshot.logical.len(), 1, "what shows nowhere is not kept");
    assert_eq!(snapshot.logical[0].assigned[0].mode, "1920x1200@60+vrr");
    assert_eq!(snapshot.right_edge, 1920);
    assert_eq!(snapshot.properties(), Some(1));
    assert_eq!(snapshot.connectors, vec!["eDP-1", "HDMI-1"]);

    let extended = snapshot.extend_with("Meta-0", "1920x1080@60");
    assert_eq!(extended.len(), 2);
    assert_eq!(extended[0].assigned[0].mode, "1920x1200@60+vrr");
    assert_eq!((extended[1].x, extended[1].y), (1920, 0));
    assert_eq!(f64::from_bits(extended[1].scale), 1.0);
    assert_eq!(extended[1].assigned[0].connector, "Meta-0");
    assert!(!extended[1].primary);
    assert_eq!(snapshot.arrangement().len(), 1);
}

#[test]
fn the_new_screen_is_never_scaled() {
    let mut state = laptop();
    state.global_scale_required = Some(true);
    state.supports_layout_mode = None;
    state.logical[0].scale = 1.5f64.to_bits();
    let snapshot = LayoutSnapshot::capture(&state, &[Some(1280), None]).unwrap();
    let extended = snapshot.extend_with("Meta-0", "m");
    assert_eq!(snapshot.global_scale.map(f64::from_bits), Some(1.5));
    assert_eq!(f64::from_bits(extended[0].scale), 1.5);
    assert_eq!(f64::from_bits(extended[1].scale), 1.0);
    assert_eq!(snapshot.properties(), None);
    state.logical.clear();
    assert!(LayoutSnapshot::capture(&state, &[]).is_none());
}

#[test]
fn a_removed_connector_leaves_a_primary_screen() {
    let mut state = laptop();
    state.monitors[1].modes[0].is_current = true;
    let snapshot = LayoutSnapshot::capture(&state, &[Some(1920), Some(800)]).unwrap();
    assert_eq!(snapshot.right_edge, 2720);
    let rest = snapshot.without("eDP-1").unwrap();
    assert_eq!(rest.logical.len(), 1);
    assert!(rest.logical[0].primary);
    assert_eq!(rest.connectors, vec!["HDMI-1"]);
    assert!(rest.without("HDMI-1").is_none());
}

#[test]
fn a_layout_is_restored_once_the_monitors_are_back() {
    let snapshot = LayoutSnapshot::capture(&laptop(), &[Some(1920), None]).unwrap();
    let back = vec!["HDMI-1".to_string(), "eDP-1".to_string()];
    let more = vec!["HDMI-1".to_string(), "eDP-1".to_string(), "Meta-0".to_string()];
    assert_eq!(snapshot.restore(1, &back), RestoreStep::Apply);
    assert_eq!(snapshot.restore(7, &more), RestoreStep::Wait);
    assert_eq!(snapshot.restore(8, &more), RestoreStep::Leave);
    assert!(after_rejection(7, "stale").is_none());
    assert_eq!(
        after_rejection(8, "stale").unwrap().message(),
        "capture: could not restore the layout after 8 attempts: stale"
    );
    assert_eq!(
        arrange_error("x").message(),
        "capture: could not arrange the extra screen: x"
    );
}

#[test]
fn the_virtual_monitor_is_found_by_elimination() {
    let state = laptop();
    let before = connectors(&state);
    let mut now = connectors(&state);
    assert!(matches!(
        wait_for_virtual_connector(&now, &before, false),
        ConnectorWait::Wait
    ));
    assert!(matches!(
        wait_for_virtual_connector(&now, &before, true),
        ConnectorWait::GiveUp
    ));
    now.insert(1, "Meta-0".to_string());
    match wait_for_virtual_connector(&now, &before, true) {
        ConnectorWait::Found(connector) => assert_eq!(connector, "Meta-0"),
        other => panic!("{other:?}"),
    }
}

#[test]
fn monitors_are_looked_up_by_connector() {
    let mut state = laptop();
    assert_eq!(primary_connector(&state).as_deref(), Some("eDP-1"));
    state.logical[0].primary = false;
    state.logical[1].primary = true;
    assert_eq!(primary_connector(&state).as_deref(), Some("HDMI-1"));
    state.logical.clear();
    assert_eq!(primary_connector(&state).as_deref(), Some("eDP-1"));
    assert_eq!(
        preferred_mode(&state, "eDP-1"),
        Some(("1920x1200@60".to_string(), 1920, 1200))
    );
    assert_eq!(
        preferred_mode(&state, "HDMI-1"),
        Some(("off".to_string(), 800, 600))
    );
    assert_eq!(preferred_mode(&state, "DP-9"), None);
}

#[test]
fn restore_token_path_follows_xdg() {
    if let Some(path) = restore_token_path(Some("/data"), Some("/home/u")) {
        assert!(path.ends_with("bignetscreen/restore-token"), "{path:?}");
    }
    assert_eq!(
        restore_token_path(Some("/data/"), None).as_deref(),
        Some("/data/bignetscreen/restore-token")
    );
    assert_eq!(
        restore_token_path(None, Some("/home/u")).as_deref(),
        Some("/home/u/.local/share/bignetscreen/restore-token")
    );
    assert_eq!(restore_token_path(None, None), None);
    assert_eq!(load_restore_token(Some(" abc\n")).as_deref(), Some("abc"));
    assert_eq!(load_restore_token(Some(" \n")), None);
    assert_eq!(load_restore_token(None), None);
}

#[test]
fn sandbox_detection_does_not_panic() {
    assert!(is_sandboxed(true, false));
    assert!(is_sandboxed(false, true));
    assert!(!is_sandboxed(false, false));
}

#[test]
fn availability_check_never_panics() {
    // Both on GNOME and without a graphical session.
    let backend = MutterBackend::new();
    assert!(!backend.is_available(false, None));
    assert!(!backend.is_available(true, Some(4)));
    assert!(!backend.is_available(false, Some(2)));
    assert!(backend.is_available(false, Some(3)));
    assert!(backend.is_available(false, Some(4)));
    assert!(!backend.is_available(false, Some(5)));
    assert_eq!(backend.supported_sources(true).len(), 3);
    assert!(backend.supported_sources(false).is_empty());
}

#[test]
fn stop_without_start_is_a_noop() {
    assert!(stop(None).is_empty());
    let active = ActiveSession { holds_stream: true, has_virtual: true, has_layout: true };
    assert_eq!(
        stop(Some(active)),
        vec![
            StopStep::StopRecording,
            StopStep::ReleaseStream,
            StopStep::StopVirtual,
            StopStep::RestoreLayout
        ]
    );
}

#[test]
fn what_to_record_follows_the_source() {
    let mut backend = MutterBackend::new();
    match backend.start(SourceType::Monitor, Some("eDP-1")).unwrap() {
        Recording::Monitor { connector, cursor_mode } => {
            assert_eq!((connector.as_str(), cursor_mode), ("eDP-1", 1));
        }
        other => panic!("{other:?}"),
    }
    assert_eq!(
        backend.start(SourceType::Monitor, None).unwrap_err().message(),
        "capture: could not identify the primary monitor"
    );
    backend.set_monitor_connector(Some("HDMI-1".into()));
    backend.set_cursor_mode(2);
    backend.set_virtual_size(1280, 720);
    match backend.start(SourceType::Monitor, None).unwrap() {
        Recording::Monitor { connector, cursor_mode } => {
            assert_eq!((connector.as_str(), cursor_mode), ("HDMI-1", 2));
        }
        other => panic!("{other:?}"),
    }
    assert!(matches!(
        backend.start(SourceType::Virtual, None).unwrap(),
        Recording::Virtual { size: (1280, 720), cursor_mode: 2 }
    ));
    assert!(matches!(
        backend.start(SourceType::Window, None),
        Err(NdError::Unsupported(_))
    ));
    assert_eq!(backend.started(SourceType::Virtual, 9).size, Some((1280, 720)));
    assert_eq!(backend.started(SourceType::Monitor, 9).size, None);
    assert_eq!(backend.id(), "mutter");
}

#[test]
fn a_virtual_monitor_takes_two_sessions() {
    let mut step = StartStep::CloseOld;
    let mut steps = vec![step];
    while step != StartStep::Done {
        step = after_step(step, SourceType::Virtual);
        steps.push(step);
    }
    assert_eq!(steps.len(), 12);
    assert_eq!(steps[2], StartStep::SnapshotLayout);
    assert_eq!(steps[10], StartStep::RecordScreen);

    let mut step = StartStep::CloseOld;
    let mut steps = vec![step];
    while step != StartStep::Done {
        step = after_step(step, SourceType::Monitor);
        steps.push(step);
    }
    assert_eq!(
        steps,
        vec![
            StartStep::CloseOld,
            StartStep::CreateSession,
            StartStep::Record,
            StartStep::Subscribe,
            StartStep::StartSession,
            StartStep::AwaitNode,
            StartStep::Done
        ]
    );
    assert!(cleanup_after(StartStep::AwaitNode).stop_session);
    assert!(!cleanup_after(StartStep::AwaitNode).release_stream);
    assert!(cleanup_after(StartStep::RecordScreen).release_stream);
    assert!(!cleanup_after(StartStep::Record).stop_session);
}

#[test]
fn failures_of_the_compositor_are_explained() {
    assert_eq!(recorded_node(NodeWait::Announced(7)).unwrap(), 7);
    assert_eq!(
        recorded_node(NodeWait::TimedOut).unwrap_err().message(),
        "capture: Mutter did not announce the PipeWire node within 10s"
    );
    assert!(recorded_node(NodeWait::Closed).is_err());
    assert_eq!(extra_screen_node(NodeWait::Announced(7)).unwrap(), 7);
    assert_eq!(
        extra_screen_node(NodeWait::Closed).unwrap_err().message(),
        "capture: the extra screen did not announce a PipeWire node"
    );
    assert_eq!(
        session_refused("denied").message(),
        "capture: Mutter refused to create the capture session (denied) — use the portal \
         (BIGNETSCREEN_CAPTURE=portal)"
    );
    assert_eq!(
        monitor_missing().message(),
        "capture: the virtual monitor never appeared in the display configuration"
    );
    assert!(after_keep_alive_failure(14, "x").is_none());
    assert_eq!(
        after_keep_alive_failure(15, "x").unwrap().message(),
        "capture: could not hold the virtual screen open after 15 attempts: x"
    );
    assert!(is_far_too_small(16, 16));
    assert!(!is_far_too_small(640, 480));
    let desc = keep_alive_description(9);
    assert!(desc.starts_with("pipewiresrc path=9"), "{desc}");
    assert!(desc.ends_with(" ! videoconvert ! fakesink sync=false"), "{desc}");
}

#[test]
fn the_portal_is_asked_only_for_what_it_has() {
    let portal = PortalBackend::new();
    assert_eq!(portal.id(), "portal");
    assert!(portal.supported_sources(false, None).is_empty());
    assert_eq!(portal.supported_sources(true, None), vec![SourceType::Monitor]);
    let sources = PortalSources { monitor: true, window: true, virtual_monitor: false };
    let supported = portal.supported_sources(true, Some(sources));
    assert_eq!(supported, vec![SourceType::Monitor, SourceType::Window]);
    assert!(portal.start(SourceType::Window, &supported).is_ok());
    assert_eq!(
        portal.start(SourceType::Virtual, &supported).unwrap_err().message(),
        "unsupported: this desktop's portal does not offer Virtual capture (available: \
         [Monitor, Window])"
    );
    assert_eq!(
        portal.start(SourceType::Monitor, &[]).unwrap_err().message(),
        "unsupported: this desktop's portal does not offer Monitor capture (available: [])"
    );
    assert_eq!(portal.cursor_mode(Some(true)), PortalCursor::Embedded);
    assert_eq!(portal.cursor_mode(Some(false)), PortalCursor::Hidden);
    assert_eq!(portal.cursor_mode(None), PortalCursor::Hidden);
    assert!(portal.discards_token(false, true));
    assert!(!portal.discards_token(false, false));
    assert!(!portal.discards_token(true, true));
    let source = portal.started(SourceType::Monitor, &[(5, Some((2, 4))), (6, None)], 3).unwrap();
    assert_eq!((source.node_id, source.pipewire_fd, source.size), (5, Some(3), Some((2, 4))));
    assert_eq!(
        portal.started(SourceType::Monitor, &[], 3).unwrap_err().message(),
        "capture: the portal returned no capture stream"
    );
    let parented = PortalBackend::with_parent(ParentWindow::from_handle("wayland:x"));
    assert_eq!(parented.parent.handle.as_deref(), Some("wayland:x"));
}

#[test]
fn mutter_is_for_the_virtual_monitor_and_for_whoever_asks() {
    assert_eq!(select_backend(None, true), Backend::Portal);
    assert_eq!(select_backend(Some("mutter"), true), Backend::Mutter);
    assert_eq!(select_backend(Some("mutter"), false), Backend::Portal);
    assert_eq!(
        select_backend_for(SourceType::Virtual, None, true),
        Backend::Mutter
    );
    assert_eq!(
        select_backend_for(SourceType::Virtual, None, false),
        Backend::Portal
    );
    assert_eq!(
        select_backend_for(SourceType::Virtual, Some("portal"), true),
        Backend::Portal
    );
    assert_eq!(
        select_backend_for(SourceType::Virtual, Some("other"), true),
        Backend::Mutter
    );
}

#[test]
fn a_failed_capture_falls_back_for_good() {
    let mut fallback = MutterWithPortalFallback::new();
    assert_eq!(fallback.id(), "mutter");
    let source = MutterBackend::new().started(SourceType::Monitor, 1);
    assert_eq!(fallback.start(Ok(source)).unwrap().node_id, 1);
    assert!(!fallback.using_portal());
    assert!(fallback.start(Err(NdError::Cancelled)).is_none());
    assert!(fallback.using_portal());
    assert_eq!(fallback.id(), "portal");
    assert!(fallback.is_available(false, true));
    assert!(!fallback.is_available(false, false));
}
