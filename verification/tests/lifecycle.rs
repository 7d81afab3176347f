use dimmer::app::{App, InitResult, InitState, PollEvent};
use dimmer::ddc::{detect_command, probe_command, read_vcp, read_vcp_command, set_vcp,
    VCP_BRIGHTNESS, VCP_CONTRAST};
use dimmer::gamma::{create_backend, SessionType};

const DETECT_FIXTURE: &str = "Display 1\n   I2C bus:  /dev/i2c-7\n   DRM connector:           card1-DP-1\n   Model:                DELL U2715H\n\nDisplay 2\n   I2C bus:  /dev/i2c-8\n   DRM connector:           card1-HDMI-A-1\n   Model:                Samsung 27\n";

#[test]
fn app_starts_empty_and_pending() {
    let app = App::new();
    assert!(app.displays.is_empty());
    assert_eq!(app.selected_display, 0);
    assert_eq!(app.brightness, 50);
    assert_eq!(app.contrast, 50);
    assert_eq!(app.gamma_dimming, 100);
    assert!(!app.ddcutil_available);
    assert!(app.gamma_backend.is_none());
    assert!(app.status.is_none());
    assert!(app.error.is_none());
    assert!(matches!(app.init_state, InitState::Pending));
}

#[test]
fn successful_pass_ends_ready() {
    let mut app = App::new();
    app.start_init();
    assert!(matches!(app.init_state, InitState::Loading));

    let backend = create_backend(SessionType::X11, true);
    let detect: Result<String, String> = Ok(DETECT_FIXTURE.to_string());
    let query: Result<String, String> = Ok("DP-0 connected\nHDMI-A-0 connected\n".to_string());
    let result = App::init_blocking(true, backend, &detect, Some(&query));
    let result = App::init_apply_values(result, Some(40), None);

    app.apply_poll(PollEvent::Received(result));
    assert!(matches!(app.init_state, InitState::Ready));
    assert!(!matches!(app.init_state, InitState::Failed(_)));
    assert_eq!(app.status.as_deref(), Some("Ready"));
    assert!(app.ddcutil_available);
    assert_eq!(app.displays.len(), 2);
    assert_eq!(app.brightness, 40);
    assert_eq!(app.contrast, 0);
}

#[test]
fn lost_worker_ends_failed_with_crash_reason() {
    let mut app = App::new();
    app.start_init();
    app.apply_poll(PollEvent::Disconnected);
    match &app.init_state {
        InitState::Failed(reason) => assert_eq!(reason, "Initialization thread crashed"),
        _ => panic!("expected Failed"),
    }
}

#[test]
fn empty_channel_keeps_loading() {
    let mut app = App::new();
    app.start_init();
    app.apply_poll(PollEvent::Empty);
    assert!(matches!(app.init_state, InitState::Loading));
}

#[test]
fn missing_tool_is_the_first_fatal_error() {
    let detect: Result<String, String> = Ok(DETECT_FIXTURE.to_string());
    let result = App::init_blocking(false, None, &detect, None);
    assert!(!result.ddcutil_available);
    assert_eq!(
        result.error.as_deref(),
        Some("ddcutil not found. Install with: sudo apt install ddcutil")
    );
    assert!(result.displays.is_empty());

    let mut app = App::new();
    app.start_init();
    app.apply_poll(PollEvent::Received(result));
    match &app.init_state {
        InitState::Failed(reason) => {
            assert_eq!(reason, "ddcutil not found. Install with: sudo apt install ddcutil")
        },
        _ => panic!("expected Failed"),
    }
}

#[test]
fn no_devices_is_the_other_fatal_error() {
    let detect: Result<String, String> = Ok("nothing to see\n".to_string());
    let result = App::init_blocking(true, None, &detect, None);
    assert!(result.ddcutil_available);
    assert_eq!(
        result.error.as_deref(),
        Some("No displays found. Try running: sudo ddcutil detect")
    );
}

#[test]
fn end_to_end_address_map() {
    let backend = create_backend(SessionType::X11, true);
    let detect: Result<String, String> = Ok(DETECT_FIXTURE.to_string());
    let query: Result<String, String> =
        Ok("DP-0 connected\nHDMI-A-0 connected\n".to_string());
    let result = App::init_blocking(true, backend, &detect, Some(&query));
    assert!(result.error.is_none());
    assert_eq!(result.gamma_output_map.get("1"), Some(&"DP-0".to_string()));
    assert_eq!(result.gamma_output_map.get("2"), Some(&"HDMI-A-0".to_string()));

    // A device whose connector matches no directory key gets no entry.
    let backend2 = create_backend(SessionType::X11, true);
    let query2: Result<String, String> = Ok("DP-0 connected\n".to_string());
    let result2 = App::init_blocking(true, backend2, &detect, Some(&query2));
    assert_eq!(result2.gamma_output_map.get("1"), Some(&"DP-0".to_string()));
    assert_eq!(result2.gamma_output_map.get("2"), None);
}

#[test]
fn backend_absence_only_empties_the_map() {
    let detect: Result<String, String> = Ok(DETECT_FIXTURE.to_string());
    let result = App::init_blocking(true, None, &detect, None);
    assert!(result.error.is_none());
    assert_eq!(result.displays.len(), 2);
    assert!(result.gamma_backend.is_none());
    assert!(!result.gamma_output_map.contains_key("1"));
}

#[test]
fn selected_device_accessors() {
    let mut app = App::new();
    app.start_init();
    let backend = create_backend(SessionType::X11, true);
    let detect: Result<String, String> = Ok(DETECT_FIXTURE.to_string());
    let query: Result<String, String> = Ok("DP-0 connected\n".to_string());
    let result = App::init_blocking(true, backend, &detect, Some(&query));
    app.apply_poll(PollEvent::Received(result));

    assert_eq!(app.display_id(), "1");
    assert_eq!(app.gamma_output(), Some("DP-0"));
    assert!(app.gamma_available());

    app.selected_display = 1;
    assert_eq!(app.display_id(), "2");
    assert_eq!(app.gamma_output(), None);
    assert!(!app.gamma_available());
}

#[test]
fn refresh_values_tolerates_failed_reads() {
    let mut app = App::new();
    app.refresh_values(Some(33), None);
    assert_eq!(app.brightness, 33);
    assert_eq!(app.contrast, 50);
    assert_eq!(app.status.as_deref(), Some("Values refreshed from monitor"));
    app.refresh_values(None, Some(77));
    assert_eq!(app.brightness, 33);
    assert_eq!(app.contrast, 77);
}

#[test]
fn init_result_default_is_empty() {
    let r = InitResult::default();
    assert!(!r.ddcutil_available);
    assert!(r.displays.is_empty());
    assert!(r.gamma_backend.is_none());
    assert_eq!(r.brightness, 0);
    assert_eq!(r.contrast, 0);
    assert!(r.error.is_none());
}

#[test]
fn vcp_commands_are_exact() {
    assert_eq!(probe_command(), vec!["ddcutil", "--version"]);
    assert_eq!(detect_command(), vec!["ddcutil", "detect"]);
    assert_eq!(
        read_vcp_command("1", VCP_BRIGHTNESS),
        vec!["ddcutil", "getvcp", "10", "--display", "1", "--terse"]
    );
    assert_eq!(
        set_vcp("2", VCP_CONTRAST, 75),
        vec!["ddcutil", "setvcp", "12", "75", "--display", "2"]
    );
    assert_eq!(set_vcp("1", VCP_BRIGHTNESS, 0)[3], "0");
}

#[test]
fn read_vcp_takes_the_fourth_token() {
    let ok: Result<String, String> = Ok("VCP 10 C 50 100\n".to_string());
    assert_eq!(read_vcp(&ok), Some(50));

    let short: Result<String, String> = Ok("VCP 10 C\n".to_string());
    assert_eq!(read_vcp(&short), None);

    let bad: Result<String, String> = Ok("VCP 10 C xx 100\n".to_string());
    assert_eq!(read_vcp(&bad), None);

    let failed: Result<String, String> = Err("Display not found".to_string());
    assert_eq!(read_vcp(&failed), None);
}
