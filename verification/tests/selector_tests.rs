use audio_selector::audio::PactlDevice;
use audio_selector::config::{CachedDevice, Config};
use audio_selector::selector::{
    bluetooth_filtered, cached_device_lists, device_at, install_plan, volume_target, is_unknown_bt, merge_bluetooth,
    needs_connection, paired_source, restore_index, start_mode, update_ui_models,
};

fn dev(name: &str, desc: &str) -> PactlDevice {
    PactlDevice { name: name.to_string(), description: desc.to_string(), volume: None }
}

fn names(v: &[PactlDevice]) -> Vec<&str> {
    v.iter().map(|d| d.name.as_str()).collect()
}

#[test]
fn unknown_bluetooth_devices() {
    assert!(is_unknown_bt(true, "AA:BB:CC:DD:EE:FF (Bluetooth)"));
    assert!(is_unknown_bt(true, "aa:bb:cc:dd:ee:ff (bluetooth)"));
    assert!(is_unknown_bt(true, "  AA-BB-CC-DD-EE-FF "));
    assert!(!is_unknown_bt(false, "AA:BB:CC:DD:EE:FF (Bluetooth)"));
    assert!(!is_unknown_bt(true, "My Headphones (Bluetooth)"));
    assert!(!is_unknown_bt(true, "AA:BB:CC:DD:EE:F"));
    assert!(!is_unknown_bt(true, "AA:BB:CC:DD:EE:ÉÉ"));
    assert!(is_unknown_bt(true, "AA:BB:CC:DD:EE:É"));
}

#[test]
fn window_lists() {
    let mut c = Config::default();
    c.filter_enabled = true;
    c.hide_unknown_bt = true;
    c.excluded_devices = vec!["hdmi".to_string()];
    c.last_sink = Some("usb".to_string());
    let sinks = vec![
        dev("hdmi", "HDMI"),
        dev("pci", "Speakers"),
        dev("usb", "USB"),
        dev("bluez_connect.AA:BB:CC:DD:EE:FF", "AA:BB:CC:DD:EE:FF (Bluetooth)"),
    ];
    let sources = vec![dev("usb", "USB mic"), dev("mic", "Mic")];
    let m = update_ui_models(&sinks, &sources, &c);
    assert_eq!(names(&m.sinks), vec!["pci", "usb"]);
    assert_eq!(m.sink_names, vec!["Speakers", "USB"]);
    assert_eq!(m.selected_sink, Some(1));
    assert_eq!(names(&m.sources), vec!["usb", "mic"]);
    assert_eq!(m.source_names, vec!["USB mic", "Mic"]);
    assert_eq!(m.selected_source, Some(0));
    let all: Vec<(&str, &str, bool)> = m
        .all_devices
        .iter()
        .map(|t| (t.name.as_str(), t.description.as_str(), t.excluded))
        .collect();
    assert_eq!(
        all,
        vec![
            ("hdmi", "HDMI", true),
            ("pci", "Speakers", false),
            ("usb", "USB", false),
            ("bluez_connect.AA:BB:CC:DD:EE:FF", "AA:BB:CC:DD:EE:FF (Bluetooth)", false),
            ("mic", "Mic", false),
        ]
    );
    c.filter_enabled = false;
    let m = update_ui_models(&sinks, &Vec::new(), &c);
    assert_eq!(names(&m.sinks), vec!["hdmi", "pci", "usb"]);
    assert_eq!(m.selected_source, None);
}

#[test]
fn paired_devices_join_the_scan() {
    let found = vec![dev("bluez_output.AA_BB_CC_DD_EE_FF.1", "Phones"), dev("pci", "Speakers")];
    let bt = vec![
        dev("bluez_connect.aa:bb:cc:dd:ee:ff", "Phones (Bluetooth)"),
        dev("bluez_connect.11:22:33:44:55:66", "Speaker (Bluetooth)"),
        dev("bluez_connect.11:22:33:44:55:66", "Speaker (Bluetooth)"),
    ];
    let all = merge_bluetooth(found, &bt);
    assert_eq!(
        names(&all),
        vec![
            "bluez_output.AA_BB_CC_DD_EE_FF.1",
            "pci",
            "bluez_connect.11:22:33:44:55:66",
            "bluez_connect.11:22:33:44:55:66"
        ]
    );
}

#[test]
fn bluetooth_setting_filters() {
    let mut c = Config::default();
    let sinks = vec![dev("bluez_connect.X", ""), dev("bluez_sink.X", ""), dev("bluez_output.X", ""), dev("pci", "")];
    assert_eq!(names(&bluetooth_filtered(&sinks, &c, false)), vec!["bluez_output.X", "pci"]);
    let sources = vec![dev("bluez_input.X", ""), dev("bluez_source.X", ""), dev("bluez_sink.X", ""), dev("mic", "")];
    assert_eq!(names(&bluetooth_filtered(&sources, &c, true)), vec!["bluez_sink.X", "mic"]);
    c.bluetooth_enabled = true;
    assert_eq!(bluetooth_filtered(&sinks, &c, false).len(), 4);
}

#[test]
fn restoring_the_last_device() {
    let ds = vec![dev("pci", ""), dev("bluez_connect.AA:BB:CC:DD:EE:FF", "")];
    assert_eq!(restore_index(&ds, "pci"), Some(0));
    assert_eq!(restore_index(&ds, "bluez_output.AA_BB_CC_DD_EE_FF.1"), Some(1));
    assert_eq!(restore_index(&ds, "usb"), None);
}

#[test]
fn unified_mode_pairs_the_source() {
    let sources = vec![dev("alsa_input.pci-0000.analog-stereo", ""), dev("bluez_input.AA_BB_CC_DD_EE_FF.0", "")];
    assert_eq!(
        paired_source("alsa_output.pci-0000.analog-stereo", &sources).as_deref(),
        Some("alsa_input.pci-0000.analog-stereo")
    );
    assert_eq!(
        paired_source("bluez_output.AA_BB_CC_DD_EE_FF.1", &sources).as_deref(),
        Some("bluez_input.AA_BB_CC_DD_EE_FF.0")
    );
    let mut c = Config::default();
    c.last_source = Some("old".into());
    assert_eq!(c.choose_sink("usb_out.sink", true, &sources), None);
    assert_eq!(c.last_sink.as_deref(), Some("usb_out.sink"));
    assert_eq!(c.last_source.as_deref(), Some("old"));
    let got = c.choose_sink("alsa_output.pci-0000.analog-stereo", true, &sources);
    assert_eq!(got.as_deref(), Some("alsa_input.pci-0000.analog-stereo"));
    assert_eq!(c.last_source.as_deref(), Some("alsa_input.pci-0000.analog-stereo"));
    assert_eq!(c.choose_sink("bluez_output.AA_BB_CC_DD_EE_FF.1", false, &sources), None);
    c.choose_source("mic");
    assert_eq!(c.last_source.as_deref(), Some("mic"));
}

#[test]
fn scans_are_remembered() {
    let mut c = Config::default();
    assert!(!c.remember_scan(&Vec::new(), &Vec::new(), &Vec::new()));
    assert!(cached_device_lists(&c).is_none());
    let sinks = vec![dev("pci", "Speakers"), dev("bluez_sink.X", "Phones")];
    let sources = vec![dev("mic", "Mic")];
    assert!(c.remember_scan(&sinks, &sources, &vec![30, 60]));
    assert_eq!(c.cached_sinks[1].volume_percent, 60);
    assert_eq!(c.cached_sources[0].volume_percent, 0);
    let (s, src) = cached_device_lists(&c).unwrap();
    assert_eq!(names(&s), vec!["pci"]);
    assert_eq!(s[0].volume_text().as_deref(), Some("30"));
    assert_eq!(names(&src), vec!["mic"]);
    c.bluetooth_enabled = true;
    c.cached_sources = vec![CachedDevice::default()];
    assert_eq!(cached_device_lists(&c).unwrap().0.len(), 2);
}

#[test]
fn start_modes_and_connections() {
    let args: Vec<String> = vec!["audio-selector".into(), "--tray".into()];
    let m = start_mode(&args);
    assert!(m.tray && !m.install);
    let m = start_mode(&vec!["x".into(), "-install".into()]);
    assert!(m.install && !m.tray);
    assert!(needs_connection("bluez_connect.AA"));
    assert!(!needs_connection("bluez_output.AA"));
}

#[test]
fn installation_files() {
    let p = install_plan(b"/home/u");
    assert_eq!(p.bin_dir, b"/home/u/.local/bin".to_vec());
    assert_eq!(p.binary, b"/home/u/.local/bin/audio-selector".to_vec());
    assert_eq!(p.icon_dir, b"/home/u/.local/share/icons/hicolor/256x256/apps".to_vec());
    assert_eq!(p.icon, b"/home/u/.local/share/icons/hicolor/256x256/apps/audio-selector.png".to_vec());
    assert_eq!(p.applications_dir, b"/home/u/.local/share/applications".to_vec());
    assert_eq!(p.desktop_file, b"/home/u/.local/share/applications/audio-selector.desktop".to_vec());
    assert_eq!(p.autostart_dir, b"/home/u/.config/autostart".to_vec());
    assert_eq!(p.autostart_file, b"/home/u/.config/autostart/audio-selector.desktop".to_vec());
    let base = "[Desktop Entry]\nType=Application\nName=Audio Selector\nIcon=/home/u/.local/share/icons/hicolor/256x256/apps/audio-selector.png\nTerminal=false\nCategories=AudioVideo;Audio;Utility;\nStartupNotify=true";
    assert_eq!(p.desktop_entry, format!("{}\nExec=/home/u/.local/bin/audio-selector", base));
    assert_eq!(p.autostart_entry, format!("{}\nExec=/home/u/.local/bin/audio-selector --tray", base));
}

#[test]
fn installation_under_a_home_that_is_not_unicode() {
    let p = install_plan(&[b'/', b'h', 0xff]);
    assert_eq!(p.binary, vec![b'/', b'h', 0xff, b'/', b'.', b'l', b'o', b'c', b'a', b'l', b'/', b'b', b'i', b'n', b'/', b'a', b'u', b'd', b'i', b'o', b'-', b's', b'e', b'l', b'e', b'c', b't', b'o', b'r']);
    assert!(p.desktop_entry.ends_with("\nExec=/h\u{FFFD}/.local/bin/audio-selector"));
    assert!(p.desktop_entry.contains("Icon=/h\u{FFFD}/.local/share/icons/hicolor/256x256/apps/audio-selector.png\n"));
    assert!(p.autostart_entry.ends_with("\nExec=/h\u{FFFD}/.local/bin/audio-selector --tray"));
}

#[test]
fn window_positions() {
    let sinks = vec![dev("pci", ""), dev("bluez_connect.AA", "")];
    assert_eq!(device_at(&sinks, 0).as_deref(), Some("pci"));
    assert_eq!(device_at(&sinks, 1).as_deref(), Some("bluez_connect.AA"));
    assert_eq!(device_at(&sinks, 2), None);
    assert_eq!(device_at(&sinks, -1), None);
    assert_eq!(volume_target(&sinks, 0).as_deref(), Some("pci"));
    assert_eq!(volume_target(&sinks, 1), None);
    assert_eq!(volume_target(&sinks, -1), None);
}
