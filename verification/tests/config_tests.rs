use audio_selector::audio::PactlDevice;
use audio_selector::config::{cache_devices, devices_from_cache, load_config, CachedDevice, Config};

#[test]
fn first_run_uses_one_device_for_both() {
    let c = load_config(None);
    assert!(c.unified_mode);
    assert!(!c.bluetooth_enabled && !c.filter_enabled && !c.hide_unknown_bt);
    assert!(c.last_sink.is_none() && c.last_source.is_none());
    assert!(c.window_width.is_none() && c.window_x.is_none());
    assert!(c.excluded_devices.is_empty() && c.cached_sinks.is_empty());
}

#[test]
fn stored_settings_are_kept() {
    let mut s = Config::default();
    assert!(!s.unified_mode);
    s.last_sink = Some("hdmi".to_string());
    s.window_width = Some(640);
    let c = load_config(Some(s));
    assert!(!c.unified_mode);
    assert_eq!(c.last_sink.as_deref(), Some("hdmi"));
    assert_eq!(c.window_width, Some(640));
}

#[test]
fn exclusion_toggles() {
    let mut c = Config::default();
    c.toggle_device_exclusion("a", true);
    c.toggle_device_exclusion("b", true);
    c.toggle_device_exclusion("a", true);
    assert_eq!(c.excluded_devices, vec!["a", "b"]);
    c.excluded_devices.push("a".to_string());
    c.toggle_device_exclusion("a", false);
    assert_eq!(c.excluded_devices, vec!["b"]);
    c.toggle_device_exclusion("z", false);
    assert_eq!(c.excluded_devices, vec!["b"]);
}

#[test]
fn cached_devices_round_trip() {
    let ds = vec![
        PactlDevice { name: "s1".into(), description: "Speakers".into(), volume: None },
        PactlDevice { name: "s2".into(), description: "Phones".into(), volume: None },
    ];
    let cached = cache_devices(&ds, &vec![45, -3]);
    assert_eq!(cached.len(), 2);
    assert_eq!(cached[0].name, "s1");
    assert_eq!(cached[0].description, "Speakers");
    assert_eq!(cached[0].volume_percent, 45);
    let back = devices_from_cache(&cached, true);
    assert_eq!(back[0].volume, Some(vec![Some("45%".to_string())]));
    assert_eq!(back[0].volume_text().as_deref(), Some("45"));
    assert_eq!(back[1].volume_text().as_deref(), Some("-3"));
    let sources = devices_from_cache(&cached, false);
    assert!(sources[0].volume.is_none());
    assert_eq!(sources[1].name, "s2");
    let d = CachedDevice::default();
    assert!(d.name.is_empty() && d.volume_percent == 0);
}
