//! Bluetooth devices as `bluetoothctl` reports them, and the sequence that
//! connects one of them until the sound server offers it.

use vstd::prelude::*;
use crate::audio::{devices, DeviceView, PactlDevice};
use crate::command::{bluetoothctl, bluetoothctl_command, CommandView, ExternalCommand};
use crate::text::{
    chars_before, chars_from, concat, contains, contains_chars, copy_chars, find_char,
    first_index, join, join_chars, lines, owned_all, replace, replace_chars, split_lines,
    split_words, starts_with, starts_with_chars, str_views, strings, to_chars, to_string, views,
    words,
};

verus! {

broadcast use vstd::string::group_string_axioms;

/// The prefix of the names given to paired Bluetooth devices that the sound
/// server does not offer yet.
pub open spec fn connect_prefix() -> Seq<char> {
    "bluez_connect."@
}

/// The device for a line of `bluetoothctl devices` (`Device <MAC> <name...>`):
/// named after the MAC, described by the name; `None` for a line of fewer
/// than three words.
pub open spec fn bt_device(line: Seq<char>) -> Option<DeviceView> {
    let ws = words(line);
    if ws.len() >= 3 {
        Some(
            DeviceView {
                name: connect_prefix() + ws[1],
                description: join(ws.skip(2), " "@) + " (Bluetooth)"@,
                volume: None,
            },
        )
    } else {
        None
    }
}

/// The devices for the lines of a `bluetoothctl devices` answer, in order.
pub open spec fn bt_devices(ls: Seq<Seq<char>>) -> Seq<DeviceView>
    decreases ls.len(),
{
    if ls.len() == 0 {
        seq![]
    } else {
        let d = bt_devices(ls.drop_last());
        match bt_device(ls.last()) {
            Some(x) => d.push(x),
            None => d,
        }
    }
}

/// The paired devices listed in the output of `bluetoothctl devices`.
pub fn get_bluetooth_devices(output: &str) -> (r: Vec<PactlDevice>)
    ensures
        devices(r@) == bt_devices(lines(output@)),
{
    let ls = split_lines(&to_chars(output));
    let ghost lv = views(ls@);
    let prefix = to_chars("bluez_connect.");
    let space = to_chars(" ");
    let suffix = to_chars(" (Bluetooth)");
    let mut r: Vec<PactlDevice> = Vec::new();
    let mut i: usize = 0;
    while i < ls.len()
        invariant
            i <= ls.len(),
            lv == views(ls@),
            lv == lines(output@),
            prefix@ == connect_prefix(),
            space@ == " "@,
            suffix@ == " (Bluetooth)"@,
            devices(r@) == bt_devices(lv.take(i as int)),
        decreases ls.len() - i,
    {
        proof {
            assert(lv.take(i + 1).drop_last() =~= lv.take(i as int));
            assert(lv.take(i + 1).last() == ls@[i as int]@);
        }
        let ws = split_words(&ls[i]);
        if ws.len() >= 3 {
            let mut rest: Vec<Vec<char>> = Vec::new();
            let mut k: usize = 2;
            while k < ws.len()
                invariant
                    2 <= k <= ws.len(),
                    views(rest@) == views(ws@).subrange(2, k as int),
                decreases ws.len() - k,
            {
                let ghost r0 = rest@;
                rest.push(copy_chars(&ws[k]));
                proof {
                    assert(views(rest@) =~= views(r0).push(ws@[k as int]@));
                    assert(views(rest@) =~= views(ws@).subrange(2, k + 1));
                }
                k = k + 1;
            }
            proof {
                assert(views(ws@).subrange(2, ws.len() as int) =~= views(ws@).skip(2));
                assert(views(ws@)[1] == ws@[1]@);
            }
            let name = to_string(&concat(&prefix, &ws[1]));
            let description = to_string(&concat(&join_chars(&rest, &space), &suffix));
            let d = PactlDevice { name, description, volume: None };
            let ghost r0 = r@;
            r.push(d);
            proof {
                assert(devices(r@) =~= devices(r0).push(d@));
            }
        }
        i = i + 1;
    }
    proof {
        assert(lv.take(ls.len() as int) =~= lv);
    }
    r
}

/// `bluetoothctl devices`, which lists the paired devices.
pub open spec fn list_paired() -> CommandView {
    bluetoothctl(seq!["devices"@])
}

/// The call that lists the paired Bluetooth devices.
pub fn list_paired_command() -> (c: ExternalCommand)
    ensures
        c@ == list_paired(),
{
    let mut args: Vec<String> = Vec::new();
    args.push("devices".to_owned());
    proof {
        assert(strings(args@) =~= seq!["devices"@]);
    }
    bluetoothctl_command(args)
}

/// `bluetoothctl power on` or `bluetoothctl power off`.
pub open spec fn power(on: bool) -> CommandView {
    bluetoothctl(
        seq![
            "power"@,
            if on {
                "on"@
            } else {
                "off"@
            },
        ],
    )
}

/// Switches the Bluetooth adapter on or off.
pub fn set_bluetooth_power(on: bool) -> (c: ExternalCommand)
    ensures
        c@ == power(on),
{
    let state = if on {
        "on"
    } else {
        "off"
    };
    let args = owned_all(&["power", state]);
    proof {
        assert(str_views(seq!["power", state]) =~= seq!["power"@, state@]);
    }
    bluetoothctl_command(args)
}

/// The MAC address, in `AA:BB:CC:DD:EE:FF` form, of the Bluetooth device a
/// device name stands for: the rest of a `bluez_connect.` name; for another
/// `bluez_` name, the 17 characters between its first and second dot, with
/// `_` read as `:`; otherwise none.
pub open spec fn bluetooth_mac(name: Seq<char>) -> Option<Seq<char>> {
    if starts_with(name, connect_prefix()) {
        Some(name.skip(connect_prefix().len() as int))
    } else if starts_with(name, "bluez_"@) {
        match first_index(name, '.') {
            Some(i) => {
                let rest = name.skip(i + 1);
                let seg = match first_index(rest, '.') {
                    Some(j) => rest.take(j),
                    None => rest,
                };
                if seg.len() == 17 {
                    Some(replace(seg, "_"@, ":"@))
                } else {
                    None
                }
            },
            None => None,
        }
    } else {
        None
    }
}

/// The MAC address of the Bluetooth device `name` stands for, if any.
pub fn get_bluetooth_mac(name: &str) -> (r: Option<String>)
    ensures
        crate::text::opt_text(r) == bluetooth_mac(name@),
{
    proof {
        reveal_strlit("bluez_connect.");
        reveal_strlit("_");
    }
    let n = to_chars(name);
    let prefix = to_chars("bluez_connect.");
    if starts_with_chars(&n, &prefix) {
        return Some(to_string(&chars_from(&n, prefix.len())));
    }
    if !starts_with_chars(&n, &to_chars("bluez_")) {
        return None;
    }
    match find_char(&n, '.') {
        Some(i) => {
            let rest = chars_from(&n, i + 1);
            let seg = match find_char(&rest, '.') {
                Some(j) => chars_before(&rest, j),
                None => rest,
            };
            if seg.len() == 17 {
                Some(to_string(&replace_chars(&seg, &to_chars("_"), &to_chars(":"))))
            } else {
                None
            }
        },
        None => None,
    }
}


/// The stages of connecting a paired Bluetooth device. Each attempt runs
/// `bluetoothctl connect`, lets the sound server settle, then looks for the
/// device among the server's devices; the second attempt first trusts the
/// device and scans briefly to wake it up.
#[derive(PartialEq, Eq, Structural, Clone, Copy, Debug)]
pub enum ConnectStage {
    Trust,
    ScanOn,
    ScanPause,
    ScanOff,
    Connect,
    Settle,
    Probe,
    Done,
}

/// A connection in progress: the MAC address being connected, the attempt
/// (counted from one), the stage within it, and the sound server's name for
/// the device once it was found.
#[derive(Debug, Clone)]
pub struct BtConnection {
    pub mac: String,
    pub attempt: u32,
    pub stage: ConnectStage,
    pub found: Option<String>,
}

/// The model of a [`BtConnection`].
pub struct ConnectionView {
    pub mac: Seq<char>,
    pub attempt: nat,
    pub stage: ConnectStage,
    pub found: Option<Seq<char>>,
}

impl View for BtConnection {
    type V = ConnectionView;

    open spec fn view(&self) -> ConnectionView {
        ConnectionView {
            mac: self.mac@,
            attempt: self.attempt as nat,
            stage: self.stage,
            found: crate::text::opt_text(self.found),
        }
    }
}

/// What the caller does next for a connection.
#[derive(Debug, Clone)]
pub enum ConnectAction {
    /// Run the command and wait for it.
    Run(ExternalCommand),
    /// Start the command without waiting for it.
    Spawn(ExternalCommand),
    /// Wait this many milliseconds.
    Sleep(u64),
    /// List the sound server's devices of the kind being connected and hand
    /// them to [`BtConnection::advance`].
    ListDevices,
    /// The sequence is over: the server's name for the device, or `None`
    /// when every attempt failed.
    Finish(Option<String>),
}

/// The model of a [`ConnectAction`].
pub enum ActionView {
    Run(CommandView),
    Spawn(CommandView),
    Sleep(nat),
    ListDevices,
    Finish(Option<Seq<char>>),
}

/// The model of a [`ConnectAction`].
pub open spec fn action_view(a: ConnectAction) -> ActionView {
    match a {
        ConnectAction::Run(c) => ActionView::Run(c@),
        ConnectAction::Spawn(c) => ActionView::Spawn(c@),
        ConnectAction::Sleep(ms) => ActionView::Sleep(ms as nat),
        ConnectAction::ListDevices => ActionView::ListDevices,
        ConnectAction::Finish(f) => ActionView::Finish(crate::text::opt_text(f)),
    }
}

/// The number of connection attempts.
pub const MAX_CONNECT_ATTEMPTS: u32 = 3;

/// The pause, in milliseconds, of the wake-up scan.
pub const SCAN_PAUSE_MS: u64 = 1500;

/// The form in which a MAC address appears in the sound server's names.
pub open spec fn mac_key(mac: Seq<char>) -> Seq<char> {
    replace(mac, ":"@, "_"@)
}

/// The name of the first device whose name contains `key`.
pub open spec fn first_match(listed: Seq<DeviceView>, key: Seq<char>) -> Option<Seq<char>>
    decreases listed.len(),
{
    if listed.len() == 0 {
        None
    } else {
        match first_match(listed.drop_last(), key) {
            Some(n) => Some(n),
            None => if contains(listed.last().name, key) {
                Some(listed.last().name)
            } else {
                None
            },
        }
    }
}

/// The state every connection keeps: the attempt is between one and three,
/// the wake-up steps belong to the second attempt, and a device is known
/// only once the sequence is over.
pub open spec fn connection_ok(s: ConnectionView) -> bool {
    &&& 1 <= s.attempt <= MAX_CONNECT_ATTEMPTS
    &&& (s.stage == ConnectStage::Trust || s.stage == ConnectStage::ScanOn || s.stage
        == ConnectStage::ScanPause || s.stage == ConnectStage::ScanOff) ==> s.attempt == 2
    &&& s.stage != ConnectStage::Done ==> s.found is None
}

/// The connection of the device named `name` before its first step.
pub open spec fn connection_start(name: Seq<char>) -> ConnectionView {
    ConnectionView {
        mac: replace(name, connect_prefix(), ""@),
        attempt: 1,
        stage: ConnectStage::Connect,
        found: None,
    }
}

/// The connection after the step of its stage; `listed` matters only when
/// probing.
pub open spec fn connection_next(s: ConnectionView, listed: Seq<DeviceView>) -> ConnectionView {
    match s.stage {
        ConnectStage::Trust => ConnectionView { stage: ConnectStage::ScanOn, ..s },
        ConnectStage::ScanOn => ConnectionView { stage: ConnectStage::ScanPause, ..s },
        ConnectStage::ScanPause => ConnectionView { stage: ConnectStage::ScanOff, ..s },
        ConnectStage::ScanOff => ConnectionView { stage: ConnectStage::Connect, ..s },
        ConnectStage::Connect => ConnectionView { stage: ConnectStage::Settle, ..s },
        ConnectStage::Settle => ConnectionView { stage: ConnectStage::Probe, ..s },
        ConnectStage::Probe => match first_match(listed, mac_key(s.mac)) {
            Some(n) => ConnectionView { stage: ConnectStage::Done, found: Some(n), ..s },
            None => if s.attempt >= MAX_CONNECT_ATTEMPTS {
                ConnectionView { stage: ConnectStage::Done, ..s }
            } else {
                ConnectionView {
                    attempt: s.attempt + 1,
                    stage: if s.attempt + 1 == 2 {
                        ConnectStage::Trust
                    } else {
                        ConnectStage::Connect
                    },
                    ..s
                }
            },
        },
        ConnectStage::Done => s,
    }
}

/// What the caller does in each stage.
pub open spec fn connection_action(s: ConnectionView) -> ActionView {
    match s.stage {
        ConnectStage::Trust => ActionView::Run(bluetoothctl(seq!["trust"@, s.mac])),
        ConnectStage::ScanOn => ActionView::Spawn(bluetoothctl(seq!["scan"@, "on"@])),
        ConnectStage::ScanPause => ActionView::Sleep(SCAN_PAUSE_MS as nat),
        ConnectStage::ScanOff => ActionView::Run(bluetoothctl(seq!["scan"@, "off"@])),
        ConnectStage::Connect => ActionView::Run(bluetoothctl(seq!["connect"@, s.mac])),
        ConnectStage::Settle => ActionView::Sleep(1500 * s.attempt),
        ConnectStage::Probe => ActionView::ListDevices,
        ConnectStage::Done => ActionView::Finish(s.found),
    }
}

/// The number of steps left before the sequence is over.
pub open spec fn steps_left(s: ConnectionView) -> nat {
    let in_attempt: nat = match s.stage {
        ConnectStage::Trust => 7,
        ConnectStage::ScanOn => 6,
        ConnectStage::ScanPause => 5,
        ConnectStage::ScanOff => 4,
        ConnectStage::Connect => 3,
        ConnectStage::Settle => 2,
        ConnectStage::Probe => 1,
        ConnectStage::Done => 0,
    };
    let later: nat = if s.stage == ConnectStage::Done {
        0
    } else if s.attempt == 1 {
        10
    } else if s.attempt == 2 {
        3
    } else {
        0
    };
    in_attempt + later
}

/// The name of the first device whose name contains `key`.
pub fn find_named(listed: &Vec<PactlDevice>, key: &Vec<char>) -> (r: Option<String>)
    ensures
        crate::text::opt_text(r) == first_match(devices(listed@), key@),
{
    let ghost all = devices(listed@);
    let mut i: usize = 0;
    while i < listed.len()
        invariant
            i <= listed.len(),
            all == devices(listed@),
            first_match(all.take(i as int), key@) is None,
        decreases listed.len() - i,
    {
        proof {
            assert(all.take(i + 1).drop_last() =~= all.take(i as int));
        }
        if contains_chars(&to_chars(listed[i].name.as_str()), key) {
            proof {
                assert(first_match(all.take(i + 1), key@) == Some(listed@[i as int].name@));
                lemma_first_match_prefix(all, i + 1, key@);
            }
            return Some(listed[i].name.clone());
        }
        i = i + 1;
    }
    proof {
        assert(all.take(listed.len() as int) =~= all);
    }
    None
}

/// A match within a prefix is the first match in the whole.
proof fn lemma_first_match_prefix(s: Seq<DeviceView>, k: int, key: Seq<char>)
    requires
        0 <= k <= s.len(),
        first_match(s.take(k), key) is Some,
    ensures
        first_match(s, key) == first_match(s.take(k), key),
    decreases s.len() - k,
{
    if k < s.len() {
        assert(s.take(k + 1).drop_last() =~= s.take(k));
        assert(first_match(s.take(k + 1), key) == first_match(s.take(k), key));
        lemma_first_match_prefix(s, k + 1, key);
    } else {
        assert(s.take(k) =~= s);
    }
}

impl BtConnection {
    /// The connection of the paired device named `name`
    /// (`bluez_connect.<MAC>`).
    pub fn begin(name: &str) -> (c: BtConnection)
        ensures
            c@ == connection_start(name@),
            connection_ok(c@),
    {
        proof {
            reveal_strlit("bluez_connect.");
        }
        let mac = to_string(
            &replace_chars(&to_chars(name), &to_chars("bluez_connect."), &to_chars("")),
        );
        BtConnection { mac, attempt: 1, stage: ConnectStage::Connect, found: None }
    }

    /// What the caller does now.
    pub fn action(&self) -> (a: ConnectAction)
        requires
            connection_ok(self@),
        ensures
            action_view(a) == connection_action(self@),
    {
        match self.stage {
            ConnectStage::Trust => {
                let m = self.mac.as_str();
                let args = owned_all(&["trust", m]);
                proof {
                    assert(str_views(seq!["trust", m]) =~= seq!["trust"@, self.mac@]);
                }
                ConnectAction::Run(bluetoothctl_command(args))
            },
            ConnectStage::ScanOn => {
                let args = owned_all(&["scan", "on"]);
                proof {
                    assert(str_views(seq!["scan", "on"]) =~= seq!["scan"@, "on"@]);
                }
                ConnectAction::Spawn(bluetoothctl_command(args))
            },
            ConnectStage::ScanPause => ConnectAction::Sleep(SCAN_PAUSE_MS),
            ConnectStage::ScanOff => {
                let args = owned_all(&["scan", "off"]);
                proof {
                    assert(str_views(seq!["scan", "off"]) =~= seq!["scan"@, "off"@]);
                }
                ConnectAction::Run(bluetoothctl_command(args))
            },
            ConnectStage::Connect => {
                let m = self.mac.as_str();
                let args = owned_all(&["connect", m]);
                proof {
                    assert(str_views(seq!["connect", m]) =~= seq!["connect"@, self.mac@]);
                }
                ConnectAction::Run(bluetoothctl_command(args))
            },
            ConnectStage::Settle => ConnectAction::Sleep(1500 * (self.attempt as u64)),
            ConnectStage::Probe => ConnectAction::ListDevices,
            ConnectStage::Done => ConnectAction::Finish(crate::text::copy_opt_string(&self.found)),
        }
    }

    /// Moves past the current stage; `listed` holds the sound server's
    /// devices after a [`ConnectAction::ListDevices`], and is not read in
    /// any other stage.
    pub fn advance(&mut self, listed: &Vec<PactlDevice>)
        requires
            connection_ok(old(self)@),
        ensures
            final(self)@ == connection_next(old(self)@, devices(listed@)),
            connection_ok(final(self)@),
    {
        proof {
            reveal_strlit(":");
        }
        match self.stage {
            ConnectStage::Trust => self.stage = ConnectStage::ScanOn,
            ConnectStage::ScanOn => self.stage = ConnectStage::ScanPause,
            ConnectStage::ScanPause => self.stage = ConnectStage::ScanOff,
            ConnectStage::ScanOff => self.stage = ConnectStage::Connect,
            ConnectStage::Connect => self.stage = ConnectStage::Settle,
            ConnectStage::Settle => self.stage = ConnectStage::Probe,
            ConnectStage::Probe => {
                let key = replace_chars(&to_chars(self.mac.as_str()), &to_chars(":"), &to_chars("_"));
                match find_named(listed, &key) {
                    Some(n) => {
                        self.found = Some(n);
                        self.stage = ConnectStage::Done;
                    },
                    None => {
                        if self.attempt >= MAX_CONNECT_ATTEMPTS {
                            self.stage = ConnectStage::Done;
                        } else {
                            self.attempt = self.attempt + 1;
                            self.stage = if self.attempt == 2 {
                                ConnectStage::Trust
                            } else {
                                ConnectStage::Connect
                            };
                        }
                    },
                }
            },
            ConnectStage::Done => {},
        }
    }
}

/// Every step of a connection that is not over brings it closer to its end:
/// the sequence is over after at most `steps_left` steps, thirteen from the
/// start.
pub proof fn lemma_connection_progress(s: ConnectionView, listed: Seq<DeviceView>)
    requires
        connection_ok(s),
        s.stage != ConnectStage::Done,
    ensures
        steps_left(connection_next(s, listed)) < steps_left(s),
        connection_ok(connection_next(s, listed)),
{
}

/// A connection starts with thirteen steps ahead of it.
pub proof fn lemma_connection_start(name: Seq<char>)
    ensures
        connection_ok(connection_start(name)),
        steps_left(connection_start(name)) == 13,
{
}

/// A device that a connection finds is one of the listed devices, and its
/// name holds the MAC address being connected.
pub proof fn lemma_found_is_listed(s: ConnectionView, listed: Seq<DeviceView>)
    requires
        connection_ok(s),
        connection_next(s, listed).found matches Some(n) && s.found is None,
    ensures
        exists|i: int|
            0 <= i < listed.len() && #[trigger] listed[i].name == connection_next(s, listed).found->0,
        contains(connection_next(s, listed).found->0, mac_key(s.mac)),
{
    lemma_first_match_sound(listed, mac_key(s.mac));
}

/// The first match is the name of a listed device that contains the key.
pub proof fn lemma_first_match_sound(listed: Seq<DeviceView>, key: Seq<char>)
    ensures
        first_match(listed, key) matches Some(n) ==> contains(n, key) && exists|i: int|
            0 <= i < listed.len() && #[trigger] listed[i].name == n,
    decreases listed.len(),
{
    if listed.len() > 0 {
        lemma_first_match_sound(listed.drop_last(), key);
        if let Some(n) = first_match(listed.drop_last(), key) {
            let i = choose|i: int| 0 <= i < listed.drop_last().len() && #[trigger] listed.drop_last()[i].name == n;
            assert(listed[i].name == n);
        } else if contains(listed.last().name, key) {
            assert(listed[listed.len() - 1].name == listed.last().name);
        }
    }
}

} // verus!
