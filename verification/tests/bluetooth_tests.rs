use audio_selector::audio::PactlDevice;
use audio_selector::bluetooth::{
    get_bluetooth_devices, get_bluetooth_mac, set_bluetooth_power, BtConnection, ConnectAction,
};

fn argv(a: &ConnectAction) -> Vec<String> {
    match a {
        ConnectAction::Run(c) | ConnectAction::Spawn(c) => {
            let mut v = vec![c.program.clone()];
            v.extend(c.args.iter().cloned());
            v
        }
        ConnectAction::Sleep(ms) => vec![format!("sleep {}", ms)],
        ConnectAction::ListDevices => vec!["list".to_string()],
        ConnectAction::Finish(r) => vec![format!("finish {:?}", r)],
    }
}

#[test]
fn paired_devices_are_parsed() {
    let out = "Device AA:BB:CC:DD:EE:FF My  Headphones\nGarbage\nDevice 11:22\r\nDevice 00:11:22:33:44:55 Speaker\r\n";
    let ds = get_bluetooth_devices(out);
    assert_eq!(ds.len(), 2);
    assert_eq!(ds[0].name, "bluez_connect.AA:BB:CC:DD:EE:FF");
    assert_eq!(ds[0].description, "My Headphones (Bluetooth)");
    assert!(ds[0].volume.is_none());
    assert_eq!(ds[1].name, "bluez_connect.00:11:22:33:44:55");
    assert_eq!(ds[1].description, "Speaker (Bluetooth)");
    assert!(get_bluetooth_devices("").is_empty());
}

#[test]
fn power_commands() {
    let on = set_bluetooth_power(true);
    assert_eq!(on.program, "bluetoothctl");
    assert_eq!(on.args, vec!["power", "on"]);
    assert_eq!(set_bluetooth_power(false).args, vec!["power", "off"]);
}

#[test]
fn mac_of_device_names() {
    assert_eq!(get_bluetooth_mac("bluez_connect.AA:BB:CC:DD:EE:FF").as_deref(), Some("AA:BB:CC:DD:EE:FF"));
    assert_eq!(get_bluetooth_mac("bluez_output.AA_BB_CC_DD_EE_FF.1").as_deref(), Some("AA:BB:CC:DD:EE:FF"));
    assert_eq!(get_bluetooth_mac("bluez_input.AA_BB_CC_DD_EE_FF").as_deref(), Some("AA:BB:CC:DD:EE:FF"));
    assert_eq!(get_bluetooth_mac("bluez_sink.short.a2dp"), None);
    assert_eq!(get_bluetooth_mac("alsa_output.pci-0000.analog-stereo"), None);
}

fn sink(name: &str) -> PactlDevice {
    PactlDevice { name: name.to_string(), description: String::new(), volume: None }
}

#[test]
fn connection_found_on_second_attempt() {
    let mut c = BtConnection::begin("bluez_connect.AA:BB:CC:DD:EE:FF");
    assert_eq!(c.mac, "AA:BB:CC:DD:EE:FF");
    let mut seen = Vec::new();
    let other = vec![sink("alsa_output.pci")];
    let there = vec![sink("alsa_output.pci"), sink("bluez_output.AA_BB_CC_DD_EE_FF.1")];
    let mut probes = 0;
    loop {
        let a = c.action();
        seen.push(argv(&a).join(" "));
        if let ConnectAction::Finish(r) = a {
            assert_eq!(r.as_deref(), Some("bluez_output.AA_BB_CC_DD_EE_FF.1"));
            break;
        }
        let listed = if matches!(a, ConnectAction::ListDevices) {
            probes += 1;
            if probes == 2 { there.clone() } else { other.clone() }
        } else {
            Vec::new()
        };
        c.advance(&listed);
    }
    assert_eq!(
        seen,
        vec![
            "bluetoothctl connect AA:BB:CC:DD:EE:FF",
            "sleep 1500",
            "list",
            "bluetoothctl trust AA:BB:CC:DD:EE:FF",
            "bluetoothctl scan on",
            "sleep 1500",
            "bluetoothctl scan off",
            "bluetoothctl connect AA:BB:CC:DD:EE:FF",
            "sleep 3000",
            "list",
            "finish Some(\"bluez_output.AA_BB_CC_DD_EE_FF.1\")",
        ]
    );
}

#[test]
fn connection_gives_up_after_three_attempts() {
    let mut c = BtConnection::begin("bluez_connect.11:22:33:44:55:66");
    let mut steps = 0;
    let mut sleeps = Vec::new();
    loop {
        let a = c.action();
        match &a {
            ConnectAction::Finish(r) => {
                assert!(r.is_none());
                break;
            }
            ConnectAction::Sleep(ms) => sleeps.push(*ms),
            _ => {}
        }
        c.advance(&vec![sink("bluez_output.AA_BB_CC_DD_EE_FF.1")]);
        steps += 1;
    }
    assert_eq!(steps, 13);
    assert_eq!(sleeps, vec![1500, 1500, 3000, 4500]);
    assert_eq!(c.attempt, 3);
}

#[test]
fn connection_match_is_case_sensitive_on_mac() {
    let mut c = BtConnection::begin("bluez_connect.aa:bb:cc:dd:ee:ff");
    c.advance(&Vec::new());
    c.advance(&Vec::new());
    c.advance(&vec![sink("bluez_output.AA_BB_CC_DD_EE_FF.1")]);
    assert_eq!(c.attempt, 2);
    assert!(c.found.is_none());
}
