use dimmer::gamma::{create_backend, detect_session, map_drm_to_xrandr,
    parse_connector_type_and_index, GammaBackend, SessionType, WaylandBackend, X11Backend};
use dimmer::gamma::x11::parse_xrandr_query;
use dimmer::strmap::StrMap;

#[test]
fn test_map_drm_to_xrandr_dp() {
    let mut outputs = StrMap::new();
    outputs.insert("DP-0".to_string(), "connected".to_string());
    outputs.insert("DP-1".to_string(), "connected".to_string());

    // DRM DP-1 should map to xrandr DP-0 (NVIDIA) or DP-1 (others)
    let result = map_drm_to_xrandr("card1-DP-1", &outputs);
    assert!(result == Some("DP-0".to_string()) || result == Some("DP-1".to_string()));
}

#[test]
fn test_map_drm_to_xrandr_hdmi() {
    let mut outputs = StrMap::new();
    outputs.insert("HDMI-A-0".to_string(), "connected".to_string());

    let result = map_drm_to_xrandr("card0-HDMI-A-1", &outputs);
    assert_eq!(result, Some("HDMI-A-0".to_string()));
}

#[test]
fn zero_based_candidate_is_preferred() {
    let mut outputs = StrMap::new();
    outputs.insert("DP-0".to_string(), "connected".to_string());
    outputs.insert("DP-1".to_string(), "connected".to_string());
    assert_eq!(map_drm_to_xrandr("card1-DP-1", &outputs), Some("DP-0".to_string()));
}

#[test]
fn one_based_candidate_is_the_fallback() {
    let mut zero = StrMap::new();
    zero.insert("DP-0".to_string(), "connected".to_string());
    assert_eq!(map_drm_to_xrandr("card1-DP-1", &zero), Some("DP-0".to_string()));

    let mut one = StrMap::new();
    one.insert("DP-1".to_string(), "disconnected".to_string());
    assert_eq!(map_drm_to_xrandr("card1-DP-1", &one), Some("DP-1".to_string()));

    let mut neither = StrMap::new();
    neither.insert("HDMI-0".to_string(), "connected".to_string());
    assert_eq!(map_drm_to_xrandr("card1-DP-1", &neither), None);
}

#[test]
fn malformed_connectors_never_resolve() {
    let mut outputs = StrMap::new();
    outputs.insert("DP-0".to_string(), "connected".to_string());
    outputs.insert("DP-1".to_string(), "connected".to_string());

    // Fewer than three segments.
    assert_eq!(map_drm_to_xrandr("card1-DP", &outputs), None);
    assert_eq!(map_drm_to_xrandr("DP-1", &outputs), None);
    assert_eq!(map_drm_to_xrandr("", &outputs), None);
    // Non-numeric trailing segment.
    assert_eq!(map_drm_to_xrandr("card1-DP-x", &outputs), None);
    assert_eq!(map_drm_to_xrandr("card0-HDMI-A-y", &outputs), None);
    assert_eq!(map_drm_to_xrandr("card1-DP-", &outputs), None);
}

#[test]
fn connector_type_and_index_shapes() {
    let compound = vec!["HDMI".to_string(), "A".to_string(), "1".to_string()];
    assert_eq!(
        parse_connector_type_and_index(&compound),
        Some(("HDMI-A".to_string(), 1))
    );

    let simple = vec!["DP".to_string(), "1".to_string()];
    assert_eq!(parse_connector_type_and_index(&simple), Some(("DP".to_string(), 1)));

    let triple = vec!["eDP".to_string(), "B".to_string(), "2".to_string()];
    assert_eq!(
        parse_connector_type_and_index(&triple),
        Some(("eDP-B".to_string(), 2))
    );

    let short = vec!["DP".to_string()];
    assert_eq!(parse_connector_type_and_index(&short), None);

    let bad = vec!["DP".to_string(), "x".to_string()];
    assert_eq!(parse_connector_type_and_index(&bad), None);
}

#[test]
fn xrandr_query_parse_keeps_output_lines_only() {
    let text = "Screen 0: minimum 8 x 8, current 2560 x 1440\nDP-0 connected primary 2560x1440+0+0 (normal left) 597mm x 336mm\nDP-1 disconnected (normal left inverted)\n   2560x1440     59.95*+\nHDMI-0\n";
    let outputs = parse_xrandr_query(text);
    assert!(outputs.contains_key("DP-0"));
    assert_eq!(outputs.get("DP-0"), Some(&"connected".to_string()));
    assert_eq!(outputs.get("DP-1"), Some(&"disconnected".to_string()));
    assert!(!outputs.contains_key("HDMI-0"));
    assert!(!outputs.contains_key("Screen"));
}

#[test]
fn strmap_insert_replaces_and_lookups_agree() {
    let mut m = StrMap::new();
    assert!(!m.contains_key("k"));
    assert_eq!(m.get("k"), None);
    m.insert("k".to_string(), "v1".to_string());
    assert!(m.contains_key("k"));
    assert_eq!(m.get("k"), Some(&"v1".to_string()));
    m.insert("k".to_string(), "v2".to_string());
    assert_eq!(m.get("k"), Some(&"v2".to_string()));
    m.insert("other".to_string(), "w".to_string());
    assert_eq!(m.get("k"), Some(&"v2".to_string()));
    assert_eq!(m.get("other"), Some(&"w".to_string()));
}

#[test]
fn session_classifier_precedence() {
    let x11 = "x11".to_string();
    let x11_upper = "X11".to_string();
    let wayland = "Wayland".to_string();
    let other = "mir".to_string();

    // An explicit session type wins outright, case-insensitively.
    assert_eq!(detect_session(Some(&x11), true, false), SessionType::X11);
    assert_eq!(detect_session(Some(&x11_upper), true, true), SessionType::X11);
    assert_eq!(detect_session(Some(&wayland), false, true), SessionType::Wayland);
    // An unrecognized value falls through to the presence signals.
    assert_eq!(detect_session(Some(&other), true, false), SessionType::Wayland);
    assert_eq!(detect_session(Some(&other), false, true), SessionType::X11);
    assert_eq!(detect_session(None, true, true), SessionType::Wayland);
    assert_eq!(detect_session(None, false, true), SessionType::X11);
    assert_eq!(detect_session(None, false, false), SessionType::Unknown);
}

#[test]
fn backend_construction_follows_session_and_probe() {
    assert!(matches!(
        create_backend(SessionType::X11, true),
        Some(GammaBackend::X11(_))
    ));
    assert!(create_backend(SessionType::X11, false).is_none());
    // The compositor variant cannot be built.
    assert!(create_backend(SessionType::Wayland, true).is_none());
    assert!(create_backend(SessionType::Unknown, true).is_none());

    assert!(X11Backend::new(true).is_some());
    assert!(X11Backend::new(false).is_none());
    assert!(WaylandBackend::new().is_none());
}

#[test]
fn backend_commands_and_errors() {
    let backend = create_backend(SessionType::X11, true).unwrap();
    assert_eq!(backend.name(), "X11 (xrandr)");

    assert_eq!(
        backend.enumerate_command().unwrap(),
        vec!["xrandr".to_string(), "--query".to_string()]
    );

    assert_eq!(
        backend.apply_dimming("DP-0", 35).unwrap(),
        vec!["xrandr", "--output", "DP-0", "--brightness", "0.35"]
    );
    assert_eq!(backend.apply_dimming("DP-0", 100).unwrap()[4], "1");
    assert_eq!(backend.apply_dimming("DP-0", 30).unwrap()[4], "0.3");
    assert_eq!(backend.apply_dimming("DP-0", 7).unwrap()[4], "0.07");
    assert_eq!(backend.apply_dimming("DP-0", 0).unwrap()[4], "0");

    assert_eq!(
        backend.reset("HDMI-A-0").unwrap(),
        vec!["xrandr", "--output", "HDMI-A-0", "--brightness", "1.0"]
    );

    // A failed capture's error text is handed through verbatim.
    let failed: Result<String, String> = Err("xrandr: cannot open display".to_string());
    assert_eq!(
        backend.enumerate_outputs(&failed).err(),
        Some("xrandr: cannot open display".to_string())
    );

    // The compositor stub fails every operation with its fixed message.
    let stub = GammaBackend::Wayland(dimmer::gamma::WaylandBackend);
    let msg = "Wayland gamma control not yet implemented".to_string();
    assert_eq!(stub.name(), "Wayland");
    assert_eq!(stub.enumerate_command().err(), Some(msg.clone()));
    assert_eq!(stub.apply_dimming("DP-0", 50).err(), Some(msg.clone()));
    assert_eq!(stub.reset("DP-0").err(), Some(msg));
}
