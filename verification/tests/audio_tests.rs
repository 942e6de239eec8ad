use audio_selector::audio::{
    apply_device_change, get_pactl_devices, json_payload_of, list_devices_command, set_sink_volume,
    stream_moves_for, volume_percent, PactlDevice, DEFAULT_VOLUME_PERCENT,
};
use audio_selector::command::ExternalCommand;

fn dev(name: &str, volume: Option<Vec<Option<&str>>>) -> PactlDevice {
    PactlDevice {
        name: name.to_string(),
        description: format!("{} device", name),
        volume: volume.map(|v| v.into_iter().map(|c| c.map(|t| t.to_string())).collect()),
    }
}

fn argv(c: &ExternalCommand) -> Vec<&str> {
    c.args.iter().map(|a| a.as_str()).collect()
}

#[test]
fn volume_text_of_first_channel() {
    assert_eq!(dev("a", Some(vec![Some(" 45% ")])).volume_text().as_deref(), Some("45"));
    assert_eq!(dev("a", Some(vec![Some("12,5 %"), Some("80%")])).volume_text().as_deref(), Some("12.5"));
    assert_eq!(dev("a", Some(vec![None, Some("80%")])).volume_text(), None);
    assert_eq!(dev("a", Some(vec![])).volume_text(), None);
    assert_eq!(dev("a", None).volume_text(), None);
}

#[test]
fn default_volume() {
    assert_eq!(volume_percent(None), 50);
    assert_eq!(DEFAULT_VOLUME_PERCENT, 50);
    assert_eq!(volume_percent(Some(7)), 7);
}

#[test]
fn json_payload_starts_at_bracket() {
    assert_eq!(
        json_payload_of("Warning: deprecated\n [{\"name\":\"x\"}]\n\n").as_deref(),
        Some("[{\"name\":\"x\"}]")
    );
    assert_eq!(json_payload_of(" {\"a\":1} ").as_deref(), Some("{\"a\":1}"));
    assert_eq!(json_payload_of("x {\"a\":[1]}").as_deref(), Some("[1]}"));
    assert_eq!(json_payload_of("nothing here"), None);
}

#[test]
fn monitor_sources_are_not_offered() {
    let found = vec![
        dev("alsa_output.pci.monitor", None),
        dev("bluez_source.AA_BB.monitor", None),
        dev("alsa_input.pci", None),
    ];
    let names: Vec<String> = get_pactl_devices("sources", found).into_iter().map(|d| d.name).collect();
    assert_eq!(names, vec!["bluez_source.AA_BB.monitor", "alsa_input.pci"]);
    let found = vec![dev("alsa_output.pci.monitor", None), dev("x", None)];
    assert_eq!(get_pactl_devices("sinks", found).len(), 2);
}

#[test]
fn listing_command() {
    let c = list_devices_command("sinks");
    assert_eq!(c.program, "timeout");
    assert_eq!(argv(&c), vec!["3s", "pactl", "--format=json", "list", "sinks"]);
    assert!(c.c_locale);
}

#[test]
fn device_change_commands() {
    let p = apply_device_change("sinks", "hdmi");
    assert_eq!(argv(&p.set_default), vec!["5s", "pactl", "set-default-sink", "hdmi"]);
    assert_eq!(argv(&p.list_streams), vec!["10s", "pactl", "list", "short", "sink-inputs"]);
    let p = apply_device_change("sources", "mic");
    assert_eq!(argv(&p.set_default), vec!["5s", "pactl", "set-default-source", "mic"]);
    assert_eq!(argv(&p.list_streams), vec!["10s", "pactl", "list", "short", "source-outputs"]);
}

#[test]
fn every_listed_stream_is_moved() {
    let listing = "12\tPipeWire\tfloat32le 2ch\n\n   \n13 x\n";
    let moves = stream_moves_for("sinks", "new", listing);
    assert_eq!(moves.len(), 2);
    assert_eq!(argv(&moves[0]), vec!["5s", "pactl", "move-sink-input", "12", "new"]);
    assert_eq!(argv(&moves[1]), vec!["5s", "pactl", "move-sink-input", "13", "new"]);
    let moves = stream_moves_for("sources", "mic", "7 a\n");
    assert_eq!(argv(&moves[0]), vec!["5s", "pactl", "move-source-output", "7", "mic"]);
    assert!(stream_moves_for("sinks", "x", "").is_empty());
}

#[test]
fn volume_command() {
    assert_eq!(argv(&set_sink_volume("s", 75)), vec!["5s", "pactl", "set-sink-volume", "s", "75%"]);
    assert_eq!(argv(&set_sink_volume("s", -5))[4], "-5%");
}
