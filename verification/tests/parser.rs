use dimmer::display::{enumerate_displays, parse_ddcutil_detect};

#[test]
fn test_parse_ddcutil_detect() {
    let output = r#"Display 1
   I2C bus:  /dev/i2c-7
   DRM connector:           card1-DP-1
   EDID synopsis:
      Mfg id:               DEL - Dell Inc.
      Model:                DELL U2715H
      Product code:         16614  (0x40E6)
      Serial number:        ABC123
      Binary serial number: 123456 (0x0001E240)
      Manufacture year:     2016,  Week: 52
   VCP version:         2.1

Display 2
   I2C bus:  /dev/i2c-8
   DRM connector:           card1-HDMI-A-1
   EDID synopsis:
      Mfg id:               SAM - Samsung
      Model:                Samsung 27"
      Product code:         1234
      Serial number:        XYZ789
      Binary serial number: 789012
      Manufacture year:     2020,  Week: 10
   VCP version:         2.2
"#;

    let displays = parse_ddcutil_detect(output);
    assert_eq!(displays.len(), 2);

    assert_eq!(displays[0].id, "1");
    assert_eq!(displays[0].name, "DELL U2715H");
    assert_eq!(displays[0].drm_connector, "card1-DP-1");

    assert_eq!(displays[1].id, "2");
    assert_eq!(displays[1].name, "Samsung 27\"");
    assert_eq!(displays[1].drm_connector, "card1-HDMI-A-1");
}

#[test]
fn record_missing_connector_is_omitted() {
    let output = "Display 1\n   DRM connector: card1-DP-1\n   Model: First\nDisplay 2\n   Model: Middle Without Connector\nDisplay 3\n   DRM connector: card1-HDMI-A-1\n   Model: Third\n";
    let displays = parse_ddcutil_detect(output);
    assert_eq!(displays.len(), 2);
    assert_eq!(displays[0].id, "1");
    assert_eq!(displays[0].name, "First");
    assert_eq!(displays[1].id, "3");
    assert_eq!(displays[1].name, "Third");
}

#[test]
fn monitor_is_name_fallback() {
    let output = "Display 1\n   DRM connector: card0-DP-2\n   Monitor: Fallback Name\n";
    let displays = parse_ddcutil_detect(output);
    assert_eq!(displays.len(), 1);
    assert_eq!(displays[0].name, "Fallback Name");
}

#[test]
fn model_has_priority_over_monitor() {
    let output = "Display 1\n   Monitor: Fallback Name\n   DRM connector: card0-DP-2\n   Model: Real Model\n";
    let displays = parse_ddcutil_detect(output);
    assert_eq!(displays.len(), 1);
    assert_eq!(displays[0].name, "Real Model");

    let output2 = "Display 1\n   Model: Real Model\n   DRM connector: card0-DP-2\n   Monitor: Fallback Name\n";
    let displays2 = parse_ddcutil_detect(output2);
    assert_eq!(displays2.len(), 1);
    assert_eq!(displays2[0].name, "Real Model");
}

#[test]
fn name_synthesized_when_absent() {
    let output = "Display 7\n   DRM connector: card0-DP-2\n";
    let displays = parse_ddcutil_detect(output);
    assert_eq!(displays.len(), 1);
    assert_eq!(displays[0].name, "Display 7");
}

#[test]
fn display_not_found_line_opens_no_record() {
    let output = "Display 1\n   DRM connector: card1-DP-1\nDisplay on bus 5 not found\n   Model: Stray\n";
    let displays = parse_ddcutil_detect(output);
    assert_eq!(displays.len(), 1);
    assert_eq!(displays[0].id, "1");
    // The stray Model line lands in the still-open first record.
    assert_eq!(displays[0].name, "Stray");
}

#[test]
fn empty_and_garbage_inputs_parse_to_nothing() {
    assert_eq!(parse_ddcutil_detect("").len(), 0);
    assert_eq!(parse_ddcutil_detect("no displays here\njust noise\n").len(), 0);
    // An id without a connector never enters the output.
    assert_eq!(parse_ddcutil_detect("Display 1\n   Model: Lonely\n").len(), 0);
}

#[test]
fn enumerate_displays_on_failed_capture_is_empty() {
    let capture: Result<String, String> = Err("tool exploded".to_string());
    assert_eq!(enumerate_displays(&capture).len(), 0);

    let ok: Result<String, String> =
        Ok("Display 1\n   DRM connector: card1-DP-1\n".to_string());
    let displays = enumerate_displays(&ok);
    assert_eq!(displays.len(), 1);
    assert_eq!(displays[0].id, "1");
}
