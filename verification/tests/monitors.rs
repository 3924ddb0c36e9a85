use rusty_twinkle_tray::monitors::{
    Brightness, ConnectionBackend, ConnectionTarget, DisplayTarget, GdiMonitor, InternalBrightness, Monitor,
    MonitorConnection, MonitorPath, OpenFailure, INTERNAL_DISPLAY_NAME,
};
use rusty_twinkle_tray::edid;
use rusty_twinkle_tray::utils::error::{hresult_from_win32, Error};

fn wide(s: &str) -> Vec<u16> {
    s.encode_utf16().collect()
}

fn target(name: &str, path: &str, gdi: &str) -> DisplayTarget {
    DisplayTarget { name: name.to_string(), path: path.to_string(), gdi_name: wide(gdi), edid: Vec::new() }
}

/// An EDID block of a BOE panel (product 0x0B40) whose second descriptor
/// holds `name` (at most 13 bytes, line feed included).
fn panel_edid(name: Option<&[u8]>) -> Vec<u8> {
    let mut edid = vec![0u8; 128];
    edid[..8].copy_from_slice(&[0x00, 0xff, 0xff, 0xff, 0xff, 0xff, 0xff, 0x00]);
    edid[8] = 0x09;
    edid[9] = 0xe5;
    edid[10] = 0x40;
    edid[11] = 0x0b;
    // a detailed timing descriptor first
    edid[54] = 0x3a;
    edid[55] = 0x38;
    if let Some(name) = name {
        edid[72..77].copy_from_slice(&[0, 0, 0, 0xfc, 0]);
        let mut text = [0x20u8; 13];
        text[..name.len()].copy_from_slice(name);
        edid[77..90].copy_from_slice(&text);
    }
    edid
}

fn gdi(name: &str, hmonitor: isize) -> GdiMonitor {
    GdiMonitor { gdi_name: wide(name), hmonitor }
}

#[test]
fn monitor_path_text() {
    let path = MonitorPath::new(r"\\?\DISPLAY#DEL4242#5&1234");
    assert_eq!(path.as_str(), r"\\?\DISPLAY#DEL4242#5&1234");
    assert!(!path.is_empty());
    assert!(MonitorPath::new("").is_empty());
}

#[test]
fn find_all_matches_gdi_monitors() {
    let targets = vec![
        target("DELL U2720Q", "path-a", r"\\.\DISPLAY1"),
        target("LG HDR 4K", "path-b", r"\\.\DISPLAY2"),
    ];
    let monitors = vec![gdi(r"\\.\DISPLAY2", 200), gdi(r"\\.\DISPLAY1", 100)];
    let found = Monitor::find_all(&targets, &monitors, true);
    assert_eq!(found.len(), 2);
    assert_eq!(found[0].name(), "DELL U2720Q");
    assert_eq!(found[0].path().as_str(), "path-a");
    assert_eq!(found[0].hmonitor(), 100);
    assert!(!found[0].is_internal());
    assert_eq!(found[1].name(), "LG HDR 4K");
    assert_eq!(found[1].hmonitor(), 200);
    assert_eq!(found[1].open(), ConnectionTarget::Ddc { hmonitor: 200 });
}

#[test]
fn find_all_takes_first_gdi_match() {
    let targets = vec![target("A", "p", r"\\.\DISPLAY1")];
    let monitors = vec![gdi(r"\\.\DISPLAY1", 1), gdi(r"\\.\DISPLAY1", 2)];
    assert_eq!(Monitor::find_all(&targets, &monitors, false)[0].hmonitor(), 1);
}

#[test]
fn find_all_skips_unmatched_and_pathless_targets() {
    let targets = vec![
        target("No source", "p1", r"\\.\DISPLAY9"),
        target("No path", "", r"\\.\DISPLAY1"),
        target("Fine", "p3", r"\\.\DISPLAY1"),
    ];
    let monitors = vec![gdi(r"\\.\DISPLAY1", 5)];
    let found = Monitor::find_all(&targets, &monitors, false);
    assert_eq!(found.len(), 1);
    assert_eq!(found[0].name(), "Fine");
    assert!(Monitor::find_all(&targets, &Vec::new(), false).is_empty());
}

#[test]
fn nameless_monitor_is_internal_when_supported() {
    let targets = vec![target("  ", "panel", r"\\.\DISPLAY1"), target("External", "ext", r"\\.\DISPLAY2")];
    let monitors = vec![gdi(r"\\.\DISPLAY1", 1), gdi(r"\\.\DISPLAY2", 2)];
    let found = Monitor::find_all(&targets, &monitors, true);
    assert!(found[0].is_internal());
    assert_eq!(found[0].name(), INTERNAL_DISPLAY_NAME);
    assert_eq!(found[0].name(), "Internal Display");
    assert_eq!(found[0].open(), ConnectionTarget::Internal);
    assert!(!found[1].is_internal());
}

#[test]
fn internal_monitor_is_named_after_its_edid_model() {
    let mut panel = target("", "panel", r"\\.\DISPLAY1");
    panel.edid = panel_edid(Some(b"NV156FHM-N48\n"));
    let mut coded = target(" ", "panel2", r"\\.\DISPLAY2");
    coded.edid = panel_edid(None);
    let mut blank_name = target("", "panel3", r"\\.\DISPLAY3");
    blank_name.edid = panel_edid(Some(b"  \n"));
    let mut short = target("", "panel4", r"\\.\DISPLAY4");
    short.edid = vec![0u8; 11];
    let monitors = vec![gdi(r"\\.\DISPLAY1", 1), gdi(r"\\.\DISPLAY2", 2), gdi(r"\\.\DISPLAY3", 3), gdi(r"\\.\DISPLAY4", 4)];
    let found = Monitor::find_all(&vec![panel, coded, blank_name, short], &monitors, true);
    assert_eq!(found.len(), 4);
    assert!(found.iter().all(|m| m.is_internal()));
    assert_eq!(found[0].name(), "NV156FHM-N48");
    assert_eq!(found[1].name(), "BOE0B40");
    assert_eq!(found[2].name(), "BOE0B40");
    assert_eq!(found[3].name(), "Internal Display");
}

#[test]
fn named_monitor_keeps_its_name_despite_edid() {
    let mut external = target("DELL U2720Q", "ext", r"\\.\DISPLAY1");
    external.edid = panel_edid(Some(b"NV156FHM-N48\n"));
    let found = Monitor::find_all(&vec![external], &vec![gdi(r"\\.\DISPLAY1", 1)], true);
    assert_eq!(found[0].name(), "DELL U2720Q");
    assert!(!found[0].is_internal());
}

#[test]
fn edid_model_of_a_panel() {
    let chars = |v: Vec<char>| v.into_iter().collect::<String>();
    assert_eq!(edid::model_code(&panel_edid(None)).map(chars), Some("BOE0B40".to_string()));
    assert_eq!(edid::monitor_name(&panel_edid(None)), None);
    assert_eq!(
        edid::monitor_name(&panel_edid(Some(b" LP140WF1\n"))).map(chars),
        Some("LP140WF1".to_string())
    );
    // text without a line feed uses all 13 bytes
    assert_eq!(
        edid::monitor_name(&panel_edid(Some(b"ABCDEFGHIJKLM"))).map(chars),
        Some("ABCDEFGHIJKLM".to_string())
    );
    assert_eq!(edid::model(&panel_edid(Some(b"X\n"))).map(chars), Some("X".to_string()));
    assert_eq!(edid::model(&panel_edid(Some(b"\n"))).map(chars), Some("BOE0B40".to_string()));
    assert_eq!(edid::model(&vec![0u8; 11]), None);
    // manufacturer AUO (0x06af), product 0x123d
    let mut auo = vec![0u8; 12];
    auo[8] = 0x06;
    auo[9] = 0xaf;
    auo[10] = 0x3d;
    auo[11] = 0x12;
    assert_eq!(edid::model(&auo).map(chars), Some("AUO123D".to_string()));
}

#[test]
fn edid_registry_key_of_device_path() {
    assert_eq!(
        edid::edid_registry_key(r"\\?\DISPLAY#BOE0B40#4&1a2b3c&0&UID265988#{e6f07b5f-ee97-4a90-b076-33f57bf4eaa7}"),
        Some(r"SYSTEM\CurrentControlSet\Enum\DISPLAY\BOE0B40\4&1a2b3c&0&UID265988\Device Parameters".to_string())
    );
    assert_eq!(edid::edid_registry_key(r"\\?\DISPLAY"), None);
    assert_eq!(edid::edid_registry_key(r"DISPLAY#BOE0B40#4&1#{x}"), None);
    assert_eq!(edid::edid_registry_key(""), None);
    assert_eq!(
        edid::edid_registry_key(r"\\?\#"),
        Some(r"SYSTEM\CurrentControlSet\Enum\\Device Parameters".to_string())
    );
}

#[test]
fn nameless_monitor_stays_ddc_without_internal_interface() {
    let targets = vec![target("", "panel", r"\\.\DISPLAY1")];
    let monitors = vec![gdi(r"\\.\DISPLAY1", 1)];
    let found = Monitor::find_all(&targets, &monitors, false);
    assert!(!found[0].is_internal());
    assert_eq!(found[0].name(), "");
    assert_eq!(found[0].open(), ConnectionTarget::Ddc { hmonitor: 1 });
}

/// The levels a typical driver lists: 0, 10, ..., 100.
fn percent_levels() -> Vec<u8> {
    (0..=10).map(|step| step * 10).collect()
}

#[test]
fn internal_brightness_reading() {
    let levels = percent_levels();
    // policy 2 (DC) takes the DC value, on the 0 - 100 scale
    assert_eq!(
        InternalBrightness::get_brightness([2, 40, 60], &levels),
        Ok(Brightness { current: 60, min: 0, max: 100 })
    );
    assert_eq!(InternalBrightness::get_brightness([2, 50, 50], &levels).unwrap().current, 50);
    // any other policy takes the AC value
    assert_eq!(InternalBrightness::get_brightness([1, 40, 60], &levels).unwrap().current, 40);
    // a zero falls back to AC, then to DC
    assert_eq!(InternalBrightness::get_brightness([2, 40, 0], &levels).unwrap().current, 40);
    assert_eq!(InternalBrightness::get_brightness([1, 0, 30], &levels).unwrap().current, 30);
    assert_eq!(InternalBrightness::get_brightness([1, 0, 0], &levels).unwrap().current, 0);
    // the reading is limited to the highest listed level
    assert_eq!(
        InternalBrightness::get_brightness([1, 90, 0], &vec![5, 80, 20]),
        Ok(Brightness { current: 80, min: 0, max: 80 })
    );
    assert_eq!(InternalBrightness::get_brightness([1, 200, 0], &levels).unwrap().current, 100);
}

#[test]
fn internal_brightness_without_levels() {
    assert_eq!(InternalBrightness::get_brightness([2, 40, 60], &Vec::new()), Err(Error::NoBrightnessLevels));
    assert_eq!(InternalBrightness::set_brightness(50, &Vec::new()), Err(Error::NoBrightnessLevels));
    assert_eq!(InternalBrightness::supported_levels(&Vec::new()), Err(Error::NoBrightnessLevels));
    assert_eq!(InternalBrightness::supported_levels(&percent_levels()), Ok(100));
    assert_eq!(InternalBrightness::supported_levels(&vec![30, 90, 60]), Ok(90));
}

#[test]
fn internal_brightness_request() {
    let levels = percent_levels();
    assert_eq!(InternalBrightness::set_brightness(50, &levels), Ok([2, 50, 50]));
    assert_eq!(InternalBrightness::set_brightness(55, &levels), Ok([2, 55, 55]));
    assert_eq!(InternalBrightness::set_brightness(150, &levels), Ok([2, 100, 100]));
    assert_eq!(InternalBrightness::set_brightness(0, &levels), Ok([2, 0, 0]));
    assert_eq!(InternalBrightness::set_brightness(1000, &vec![10, 70]), Ok([2, 70, 70]));
}

#[test]
fn internal_brightness_write_then_read() {
    for levels in [percent_levels(), vec![0, 50, 100], vec![25], vec![255, 3]] {
        let highest = *levels.iter().max().unwrap() as u32;
        for value in [0u32, 1, 9, 10, 50, 100, 255, 1000] {
            let request = InternalBrightness::set_brightness(value, &levels).unwrap();
            let reading = InternalBrightness::get_brightness(request, &levels).unwrap();
            assert_eq!(reading.current, value.min(highest));
            assert!(reading.current <= reading.max);
        }
    }
}

#[test]
fn internal_device_open() {
    let device = InternalBrightness::open(0x1234, 0, Ok(percent_levels())).unwrap();
    assert_eq!(device.device(), 0x1234);
    // an invalid handle: the error of the open, nothing to close
    let failure = InternalBrightness::open(-1, 6, Ok(percent_levels())).err().unwrap();
    assert_eq!(failure, OpenFailure { error: Error::Windows(hresult_from_win32(6)), close: None });
    let failure = InternalBrightness::open(0, 2, Err(Error::Windows(1))).err().unwrap();
    assert_eq!(failure, OpenFailure { error: Error::Windows(0x8007_0002u32 as i32), close: None });
    // a device without brightness levels is refused, and its handle is to be closed
    let failure = InternalBrightness::open(5, 0, Ok(Vec::new())).err().unwrap();
    assert_eq!(failure, OpenFailure { error: Error::NoBrightnessLevels, close: Some(5) });
    // so is one whose levels query failed
    let failure = InternalBrightness::open(5, 0, Err(Error::Windows(hresult_from_win32(1)))).err().unwrap();
    assert_eq!(failure, OpenFailure { error: Error::Windows(hresult_from_win32(1)), close: Some(5) });
}

#[test]
fn physical_monitor_count() {
    assert_eq!(MonitorConnection::check_physical_monitor_count(1), Ok(()));
    assert_eq!(MonitorConnection::check_physical_monitor_count(0), Err(Error::AssertionFailed));
    assert_eq!(MonitorConnection::check_physical_monitor_count(2), Err(Error::AssertionFailed));
}

#[test]
fn save_settings_only_for_ddc() {
    let ddc = MonitorConnection::ddc(77);
    assert_eq!(ddc.save_settings(), Some(77));
    assert!(matches!(ddc.backend(), ConnectionBackend::Ddc { handle: 77 }));
    let internal = MonitorConnection::internal(InternalBrightness::open(5, 0, Ok(vec![0, 100])).unwrap());
    assert_eq!(internal.save_settings(), None);
    match internal.backend() {
        ConnectionBackend::Internal(device) => assert_eq!(device.device(), 5),
        ConnectionBackend::Ddc { .. } => panic!("expected the internal backend"),
    }
}
