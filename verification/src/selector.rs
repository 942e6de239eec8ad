//! What the selector window shows for the devices of a scan, and how a scan
//! and the user's choices update the settings.

use vstd::prelude::*;
use crate::audio::{devices, keep, DeviceView, PactlDevice};
use crate::bluetooth::{bluetooth_mac, connect_prefix, find_named, first_match, get_bluetooth_mac};
use crate::config::{cache_devices, cache_of, cached, devices_from_cache, from_cache};
use crate::config::{contains_text, has_text, Config, ConfigView};
use crate::text::{
    append_chars, concat, str_views, contains, contains_chars, copy_string, count_char, count_chars, lowercase,
    opt_text, replace, replace_chars, same_text, starts_with, starts_with_chars, strings, to_chars,
    to_lowercase, to_string, to_uppercase, trim, trimmed, uppercase,
};
use vstd::utf8::{encode_utf8, valid_utf8};
use crate::utils::{join_os_path, os_path_join};

verus! {

broadcast use vstd::string::group_string_axioms;

/// Whether a description is that of an unknown Bluetooth device and the user
/// hides those: stripped of ` (Bluetooth)` (in any case) and of surrounding
/// whitespace, it is 17 bytes long with five `-` or five `:`, the form of a
/// bare MAC address.
pub open spec fn unknown_bt(hide: bool, desc: Seq<char>) -> bool {
    let b = trim(replace(uppercase(desc), " (BLUETOOTH)"@, ""@));
    &&& hide
    &&& encode_utf8(b).len() == 17
    &&& (count_char(b, '-') == 5 || count_char(b, ':') == 5)
}

/// Whether the description `desc` names an unknown Bluetooth device that the
/// user hides.
pub fn is_unknown_bt(hide: bool, desc: &str) -> (r: bool)
    ensures
        r == unknown_bt(hide, desc@),
{
    if !hide {
        return false;
    }
    proof {
        reveal_strlit(" (BLUETOOTH)");
    }
    let up = to_uppercase(desc);
    let b = trimmed(
        &replace_chars(&to_chars(up.as_str()), &to_chars(" (BLUETOOTH)"), &to_chars("")),
    );
    proof {
        lemma_utf8_len_bounds(b@);
    }
    if b.len() > 17 {
        return false;
    }
    let s = to_string(&b);
    let n = s.as_str().len();
    n == 17 && (count_chars(&b, '-') == 5 || count_chars(&b, ':') == 5)
}

/// A text takes at least one and at most four bytes per character in UTF-8.
proof fn lemma_utf8_len_bounds(s: Seq<char>)
    ensures
        s.len() <= encode_utf8(s).len() <= 4 * s.len(),
    decreases s.len(),
{
    if s.len() > 0 {
        lemma_utf8_len_bounds(s.drop_first());
    }
}

/// Whether the window lists a device under the settings `c`: it is not
/// excluded while exclusion is on, and not an unknown Bluetooth device that
/// the user hides.
pub open spec fn shown(c: ConfigView, d: DeviceView) -> bool {
    (!c.filter_enabled || !has_text(c.excluded_devices, d.name)) && !unknown_bt(
        c.hide_unknown_bt,
        d.description,
    )
}

/// The devices of `s` that the window lists under the settings `c`.
pub open spec fn shown_devices(c: ConfigView, s: Seq<DeviceView>) -> Seq<DeviceView> {
    keep(s, |d: DeviceView| shown(c, d))
}

/// Whether a device `name` is one of the paired Bluetooth devices that the
/// sound server does not offer yet.
pub open spec fn is_connect_name(name: Seq<char>) -> bool {
    starts_with(name, connect_prefix())
}

/// Whether a device list keeps a device while Bluetooth is in the state
/// `enabled`: with Bluetooth off, paired entries and the server's Bluetooth
/// endpoints (`bluez_sink`; for sources `bluez_source` and `bluez_input`) are
/// dropped.
pub open spec fn kept_with_bluetooth(enabled: bool, source: bool, name: Seq<char>) -> bool {
    let endpoint = if source {
        contains(name, "bluez_source"@) || contains(name, "bluez_input"@)
    } else {
        contains(name, "bluez_sink"@)
    };
    enabled || (!contains(name, connect_prefix()) && !endpoint)
}

/// The devices of `s` that remain while Bluetooth is in the state
/// `enabled` (`source` for input devices), in order.
pub open spec fn bluetooth_kept(enabled: bool, source: bool, s: Seq<DeviceView>) -> Seq<DeviceView> {
    keep(s, |d: DeviceView| kept_with_bluetooth(enabled, source, d.name))
}

/// The filters that device lists go through.
#[derive(PartialEq, Eq, Structural, Clone, Copy, Debug)]
pub enum ListFilter {
    /// What the window lists.
    Window,
    /// Output devices under the Bluetooth setting.
    BluetoothSinks,
    /// Input devices under the Bluetooth setting.
    BluetoothSources,
}

/// The devices of `ds` that pass the filter `mode`, in order.
fn keep_devices(ds: &Vec<PactlDevice>, c: &Config, mode: ListFilter) -> (r: Vec<PactlDevice>)
    ensures
        devices(r@) == keep(devices(ds@), |d: DeviceView| device_filter(c@, mode, d)),
{
    let ghost p = |d: DeviceView| device_filter(c@, mode, d);
    let mut r: Vec<PactlDevice> = Vec::new();
    let mut i: usize = 0;
    while i < ds.len()
        invariant
            i <= ds.len(),
            p == (|d: DeviceView| device_filter(c@, mode, d)),
            devices(r@) == keep(devices(ds@).take(i as int), p),
        decreases ds.len() - i,
    {
        let ghost all = devices(ds@);
        proof {
            assert(all.take(i + 1).drop_last() =~= all.take(i as int));
        }
        if filter_device(c, mode, &ds[i]) {
            let ghost r0 = devices(r@);
            r.push(ds[i].duplicate());
            proof {
                assert(devices(r@) =~= r0.push(ds@[i as int]@));
            }
        }
        i = i + 1;
    }
    proof {
        assert(devices(ds@).take(ds.len() as int) =~= devices(ds@));
    }
    r
}

/// Whether a device passes the filter `mode` under the settings `c`.
pub open spec fn device_filter(c: ConfigView, mode: ListFilter, d: DeviceView) -> bool {
    match mode {
        ListFilter::Window => shown(c, d),
        ListFilter::BluetoothSinks => kept_with_bluetooth(c.bluetooth_enabled, false, d.name),
        ListFilter::BluetoothSources => kept_with_bluetooth(c.bluetooth_enabled, true, d.name),
    }
}

/// Whether `d` passes the filter `mode`.
fn filter_device(c: &Config, mode: ListFilter, d: &PactlDevice) -> (b: bool)
    ensures
        b == device_filter(c@, mode, d@),
{
    if mode == ListFilter::Window {
        (!c.filter_enabled || !contains_text(&c.excluded_devices, d.name.as_str())) && !is_unknown_bt(
            c.hide_unknown_bt,
            d.description.as_str(),
        )
    } else {
        if c.bluetooth_enabled {
            return true;
        }
        let n = to_chars(d.name.as_str());
        if contains_chars(&n, &to_chars("bluez_connect.")) {
            return false;
        }
        if mode == ListFilter::BluetoothSources {
            !contains_chars(&n, &to_chars("bluez_source")) && !contains_chars(
                &n,
                &to_chars("bluez_input"),
            )
        } else {
            !contains_chars(&n, &to_chars("bluez_sink"))
        }
    }
}

/// The devices of a scan or of the cache that remain under the Bluetooth
/// setting of `c` (`source` for input devices).
pub fn bluetooth_filtered(ds: &Vec<PactlDevice>, c: &Config, source: bool) -> (r: Vec<PactlDevice>)
    ensures
        devices(r@) == bluetooth_kept(c@.bluetooth_enabled, source, devices(ds@)),
{
    let mode = if source {
        ListFilter::BluetoothSources
    } else {
        ListFilter::BluetoothSinks
    };
    let r = keep_devices(ds, c, mode);
    proof {
        assert((|d: DeviceView| device_filter(c@, mode, d)) =~= (|d: DeviceView| kept_with_bluetooth(c@.bluetooth_enabled, source, d.name)));
    }
    r
}

/// An entry of the list where the user picks the devices to hide.
#[derive(Debug, Clone)]
pub struct DeviceToggle {
    pub name: String,
    pub description: String,
    pub excluded: bool,
}

/// The model of a [`DeviceToggle`].
pub struct ToggleView {
    pub name: Seq<char>,
    pub description: Seq<char>,
    pub excluded: bool,
}

impl View for DeviceToggle {
    type V = ToggleView;

    open spec fn view(&self) -> ToggleView {
        ToggleView { name: self.name@, description: self.description@, excluded: self.excluded }
    }
}

/// The views of toggles.
pub open spec fn toggles(v: Seq<DeviceToggle>) -> Seq<ToggleView> {
    v.map_values(|t: DeviceToggle| t@)
}

/// Whether a device named `name` is in `u`.
pub open spec fn has_name(u: Seq<DeviceView>, name: Seq<char>) -> bool {
    exists|i: int| 0 <= i < u.len() && #[trigger] u[i].name == name
}

/// The devices of `s`, each name once, at its first occurrence.
pub open spec fn unique_by_name(s: Seq<DeviceView>) -> Seq<DeviceView>
    decreases s.len(),
{
    if s.len() == 0 {
        seq![]
    } else {
        let u = unique_by_name(s.drop_last());
        if has_name(u, s.last().name) {
            u
        } else {
            u.push(s.last())
        }
    }
}

/// The entry for a device in the list of devices to hide.
pub open spec fn toggle_of(c: ConfigView, d: DeviceView) -> ToggleView {
    ToggleView {
        name: d.name,
        description: d.description,
        excluded: has_text(c.excluded_devices, d.name),
    }
}

/// The position of the first device named `name`.
pub open spec fn position_of(s: Seq<DeviceView>, name: Seq<char>) -> Option<int>
    decreases s.len(),
{
    if s.len() == 0 {
        None
    } else {
        match position_of(s.drop_last(), name) {
            Some(i) => Some(i),
            None => if s.last().name == name {
                Some(s.len() - 1)
            } else {
                None
            },
        }
    }
}

/// The entry a list selects: the device remembered by `last` when it is in
/// the list, else the first one; none for an empty list.
pub open spec fn selection(s: Seq<DeviceView>, last: Option<Seq<char>>) -> Option<int> {
    match last {
        Some(l) => match position_of(s, l) {
            Some(i) => Some(i),
            None => if s.len() > 0 {
                Some(0)
            } else {
                None
            },
        },
        None => if s.len() > 0 {
            Some(0)
        } else {
            None
        },
    }
}

/// The descriptions of devices.
pub open spec fn descriptions(s: Seq<DeviceView>) -> Seq<Seq<char>> {
    s.map_values(|d: DeviceView| d.description)
}

/// What the window shows: the devices to hide or show, the output devices
/// with their descriptions and the one selected, and the same for input
/// devices. No selection leaves the window's selection as it was.
#[derive(Debug, Clone)]
pub struct UiModels {
    pub all_devices: Vec<DeviceToggle>,
    pub sinks: Vec<PactlDevice>,
    pub sink_names: Vec<String>,
    pub selected_sink: Option<usize>,
    pub sources: Vec<PactlDevice>,
    pub source_names: Vec<String>,
    pub selected_source: Option<usize>,
}

/// The position of the first device named `name`.
fn find_position(s: &Vec<PactlDevice>, name: &str) -> (r: Option<usize>)
    ensures
        r matches Some(i) ==> position_of(devices(s@), name@) == Some(i as int) && i < s.len(),
        r is None ==> position_of(devices(s@), name@) is None,
{
    let ghost all = devices(s@);
    let mut i: usize = 0;
    while i < s.len()
        invariant
            i <= s.len(),
            all == devices(s@),
            position_of(all.take(i as int), name@) is None,
        decreases s.len() - i,
    {
        proof {
            assert(all.take(i + 1).drop_last() =~= all.take(i as int));
        }
        if same_text(s[i].name.as_str(), name) {
            proof {
                assert(position_of(all.take(i + 1), name@) == Some(i as int));
                lemma_position_prefix(all, i + 1, name@);
            }
            return Some(i);
        }
        i = i + 1;
    }
    proof {
        assert(all.take(s.len() as int) =~= all);
    }
    None
}

/// A position found in a prefix is the position in the whole.
proof fn lemma_position_prefix(s: Seq<DeviceView>, k: int, name: Seq<char>)
    requires
        0 <= k <= s.len(),
        position_of(s.take(k), name) is Some,
    ensures
        position_of(s, name) == position_of(s.take(k), name),
    decreases s.len() - k,
{
    if k < s.len() {
        assert(s.take(k + 1).drop_last() =~= s.take(k));
        assert(position_of(s.take(k + 1), name) == position_of(s.take(k), name));
        lemma_position_prefix(s, k + 1, name);
    } else {
        assert(s.take(k) =~= s);
    }
}

/// The entry selected in `s` given the remembered device `last`.
fn select(s: &Vec<PactlDevice>, last: &Option<String>) -> (r: Option<usize>)
    ensures
        r matches Some(i) ==> selection(devices(s@), opt_text(*last)) == Some(i as int),
        r is None ==> selection(devices(s@), opt_text(*last)) is None,
{
    let found = match last {
        Some(l) => find_position(s, l.as_str()),
        None => None,
    };
    match found {
        Some(i) => Some(i),
        None => if s.len() > 0 {
            Some(0)
        } else {
            None
        },
    }
}

/// The descriptions of the devices of `s`.
fn description_list(s: &Vec<PactlDevice>) -> (r: Vec<String>)
    ensures
        strings(r@) == descriptions(devices(s@)),
{
    let mut r: Vec<String> = Vec::new();
    let mut i: usize = 0;
    while i < s.len()
        invariant
            i <= s.len(),
            strings(r@) == descriptions(devices(s@)).take(i as int),
        decreases s.len() - i,
    {
        let d = copy_string(&s[i].description);
        let ghost r0 = strings(r@);
        r.push(d);
        proof {
            assert(strings(r@) =~= r0.push(d@));
            assert(strings(r@) =~= descriptions(devices(s@)).take(i + 1));
        }
        i = i + 1;
    }
    proof {
        assert(descriptions(devices(s@)).take(s.len() as int) =~= descriptions(devices(s@)));
    }
    r
}

/// Whether a device named `name` is in `u`.
fn has_device_named(u: &Vec<PactlDevice>, name: &str) -> (b: bool)
    ensures
        b == has_name(devices(u@), name@),
{
    let mut i: usize = 0;
    while i < u.len()
        invariant
            i <= u.len(),
            forall|j: int| 0 <= j < i ==> devices(u@)[j].name != name@,
        decreases u.len() - i,
    {
        if same_text(u[i].name.as_str(), name) {
            proof {
                assert(devices(u@)[i as int].name == name@);
            }
            return true;
        }
        i = i + 1;
    }
    false
}

/// Adds the devices of `ds` whose names `u` does not hold yet, in order.
fn add_unique(u: &mut Vec<PactlDevice>, ds: &Vec<PactlDevice>, Ghost(before): Ghost<Seq<DeviceView>>)
    requires
        devices(old(u)@) == unique_by_name(before),
    ensures
        devices(final(u)@) == unique_by_name(before + devices(ds@)),
{
    let ghost all = before + devices(ds@);
    let mut j: usize = 0;
    proof {
        assert(all.take(before.len() as int) =~= before);
    }
    while j < ds.len()
        invariant
            j <= ds.len(),
            all == before + devices(ds@),
            devices(u@) == unique_by_name(all.take(before.len() + j)),
        decreases ds.len() - j,
    {
        let d = &ds[j];
        proof {
            assert(all.take(before.len() + j + 1).drop_last() =~= all.take(before.len() + j));
            assert(all.take(before.len() + j + 1).last() == d@);
        }
        if !has_device_named(u, d.name.as_str()) {
            let ghost u0 = devices(u@);
            u.push(d.duplicate());
            proof {
                assert(devices(u@) =~= u0.push(d@));
            }
        }
        j = j + 1;
    }
    proof {
        assert(all.take(before.len() + ds.len()) =~= all);
    }
}

/// The entries of the list of devices to hide, for the devices of a scan.
fn device_toggles(sinks: &Vec<PactlDevice>, sources: &Vec<PactlDevice>, c: &Config) -> (r: Vec<
    DeviceToggle,
>)
    ensures
        toggles(r@) == unique_by_name(devices(sinks@) + devices(sources@)).map_values(
            |d: DeviceView| toggle_of(c@, d),
        ),
{
    let mut u: Vec<PactlDevice> = Vec::new();
    proof {
        assert(devices(u@) =~= unique_by_name(Seq::<DeviceView>::empty()));
    }
    add_unique(&mut u, sinks, Ghost(Seq::<DeviceView>::empty()));
    proof {
        assert(Seq::<DeviceView>::empty() + devices(sinks@) =~= devices(sinks@));
    }
    add_unique(&mut u, sources, Ghost(devices(sinks@)));
    let ghost uv = devices(u@);
    let mut r: Vec<DeviceToggle> = Vec::new();
    let mut i: usize = 0;
    while i < u.len()
        invariant
            i <= u.len(),
            uv == devices(u@),
            toggles(r@) == uv.map_values(|d: DeviceView| toggle_of(c@, d)).take(i as int),
        decreases u.len() - i,
    {
        let t = DeviceToggle {
            name: copy_string(&u[i].name),
            description: copy_string(&u[i].description),
            excluded: contains_text(&c.excluded_devices, u[i].name.as_str()),
        };
        let ghost r0 = toggles(r@);
        r.push(t);
        proof {
            assert(toggles(r@) =~= r0.push(t@));
            assert(toggles(r@) =~= uv.map_values(|d: DeviceView| toggle_of(c@, d)).take(i + 1));
        }
        i = i + 1;
    }
    proof {
        assert(uv.map_values(|d: DeviceView| toggle_of(c@, d)).take(u.len() as int)
            =~= uv.map_values(|d: DeviceView| toggle_of(c@, d)));
    }
    r
}

/// The lists the window shows for the scanned `sinks` and `sources` under
/// the settings `c`.
pub fn update_ui_models(sinks: &Vec<PactlDevice>, sources: &Vec<PactlDevice>, c: &Config) -> (m:
    UiModels)
    ensures
        toggles(m.all_devices@) == unique_by_name(devices(sinks@) + devices(sources@)).map_values(
            |d: DeviceView| toggle_of(c@, d),
        ),
        devices(m.sinks@) == shown_devices(c@, devices(sinks@)),
        devices(m.sources@) == shown_devices(c@, devices(sources@)),
        strings(m.sink_names@) == descriptions(devices(m.sinks@)),
        strings(m.source_names@) == descriptions(devices(m.sources@)),
        m.selected_sink matches Some(i) ==> selection(devices(m.sinks@), c@.last_sink) == Some(
            i as int,
        ),
        m.selected_sink is None ==> selection(devices(m.sinks@), c@.last_sink) is None,
        m.selected_source matches Some(i) ==> selection(devices(m.sources@), c@.last_source)
            == Some(i as int),
        m.selected_source is None ==> selection(devices(m.sources@), c@.last_source) is None,
{
    let fsinks = keep_devices(sinks, c, ListFilter::Window);
    let fsrcs = keep_devices(sources, c, ListFilter::Window);
    proof {
        assert((|d: DeviceView| device_filter(c@, ListFilter::Window, d)) =~= (|d: DeviceView|
            shown(c@, d)));
    }
    let all_devices = device_toggles(sinks, sources, c);
    let sink_names = description_list(&fsinks);
    let source_names = description_list(&fsrcs);
    let selected_sink = select(&fsinks, &c.last_sink);
    let selected_source = select(&fsrcs, &c.last_source);
    UiModels {
        all_devices,
        sinks: fsinks,
        sink_names,
        selected_sink,
        sources: fsrcs,
        source_names,
        selected_source,
    }
}


/// The text by which a paired Bluetooth device is recognised in the sound
/// server's names: its MAC address with `_` for `:`, in lowercase.
pub open spec fn bt_key(name: Seq<char>) -> Seq<char> {
    lowercase(replace(replace(name, connect_prefix(), ""@), ":"@, "_"@))
}

/// Whether a device of `r` already stands for the paired device `b`: its
/// lowercase name contains the key of `b`.
pub open spec fn covered(r: Seq<DeviceView>, b: DeviceView) -> bool {
    exists|i: int| 0 <= i < r.len() && contains(lowercase(#[trigger] r[i].name), bt_key(b.name))
}

/// The devices the sound server `found`, followed by each paired Bluetooth
/// device (in the order of `bt`) that no device before it stands for.
pub open spec fn merged(found: Seq<DeviceView>, bt: Seq<DeviceView>) -> Seq<DeviceView>
    decreases bt.len(),
{
    if bt.len() == 0 {
        found
    } else {
        let r = merged(found, bt.drop_last());
        if covered(r, bt.last()) {
            r
        } else {
            r.push(bt.last())
        }
    }
}

/// Whether a device of `r` stands for the paired device named `name`.
fn is_covered(r: &Vec<PactlDevice>, name: &str) -> (b: bool)
    ensures
        b == exists|i: int|
            0 <= i < r.len() && contains(lowercase(#[trigger] devices(r@)[i].name), bt_key(name@)),
{
    proof {
        reveal_strlit("bluez_connect.");
        reveal_strlit(":");
    }
    let k1 = replace_chars(&to_chars(name), &to_chars("bluez_connect."), &to_chars(""));
    let k2 = replace_chars(&k1, &to_chars(":"), &to_chars("_"));
    let key = to_chars(to_lowercase(to_string(&k2).as_str()).as_str());
    let mut i: usize = 0;
    while i < r.len()
        invariant
            i <= r.len(),
            key@ == bt_key(name@),
            forall|j: int| 0 <= j < i ==> !contains(lowercase(#[trigger] devices(r@)[j].name), key@),
        decreases r.len() - i,
    {
        let low = to_chars(to_lowercase(r[i].name.as_str()).as_str());
        if contains_chars(&low, &key) {
            proof {
                assert(contains(lowercase(devices(r@)[i as int].name), key@));
            }
            return true;
        }
        i = i + 1;
    }
    false
}

/// The devices of a scan: those the sound server `found`, followed by the
/// paired Bluetooth devices it does not offer yet.
pub fn merge_bluetooth(found: Vec<PactlDevice>, bt: &Vec<PactlDevice>) -> (r: Vec<PactlDevice>)
    ensures
        devices(r@) == merged(devices(found@), devices(bt@)),
{
    let ghost f = devices(found@);
    let ghost bv = devices(bt@);
    let mut r = found;
    let mut i: usize = 0;
    proof {
        assert(bv.take(0) =~= Seq::<DeviceView>::empty());
    }
    while i < bt.len()
        invariant
            i <= bt.len(),
            bv == devices(bt@),
            devices(r@) == merged(f, bv.take(i as int)),
        decreases bt.len() - i,
    {
        proof {
            assert(bv.take(i + 1).drop_last() =~= bv.take(i as int));
            assert(bv.take(i + 1).last() == bt@[i as int]@);
        }
        if !is_covered(&r, bt[i].name.as_str()) {
            let ghost r0 = devices(r@);
            r.push(bt[i].duplicate());
            proof {
                assert(devices(r@) =~= r0.push(bt@[i as int]@));
            }
        } else {
            proof {
                let j = choose|j: int|
                    0 <= j < r.len() && contains(
                        lowercase(#[trigger] devices(r@)[j].name),
                        bt_key(bt@[i as int]@.name),
                    );
                assert(contains(lowercase(devices(r@)[j].name), bt_key(bt@[i as int]@.name)));
            }
        }
        i = i + 1;
    }
    proof {
        assert(bv.take(bt.len() as int) =~= bv);
    }
    r
}

/// The device to select again after a scan for the remembered name `last`:
/// the device of that name; failing that, for a Bluetooth name, the paired
/// entry of the same MAC address, which connects it.
pub open spec fn restore_position(s: Seq<DeviceView>, last: Seq<char>) -> Option<int> {
    match position_of(s, last) {
        Some(i) => Some(i),
        None => match bluetooth_mac(last) {
            Some(mac) => position_of(s, connect_prefix() + mac),
            None => None,
        },
    }
}

/// The position of the device to select again for the remembered name
/// `last`.
pub fn restore_index(ds: &Vec<PactlDevice>, last: &str) -> (r: Option<usize>)
    ensures
        r matches Some(i) ==> restore_position(devices(ds@), last@) == Some(i as int) && i
            < ds.len(),
        r is None ==> restore_position(devices(ds@), last@) is None,
{
    match find_position(ds, last) {
        Some(i) => Some(i),
        None => match get_bluetooth_mac(last) {
            Some(mac) => {
                let target = to_string(
                    &concat(&to_chars("bluez_connect."), &to_chars(mac.as_str())),
                );
                find_position(ds, target.as_str())
            },
            None => None,
        },
    }
}

/// The text by which the input device belonging to the output device `sink`
/// is recognised: the MAC address with `_` for a Bluetooth device, else the
/// name with `alsa_output` turned to `alsa_input` and `.sink` to `.source`.
pub open spec fn source_base(sink: Seq<char>) -> Seq<char> {
    match bluetooth_mac(sink) {
        Some(mac) => replace(mac, ":"@, "_"@),
        None => replace(replace(sink, "alsa_output"@, "alsa_input"@), ".sink"@, ".source"@),
    }
}

/// The input device belonging to the output device `sink`: the first source
/// whose name contains its base.
pub fn paired_source(sink: &str, sources: &Vec<PactlDevice>) -> (r: Option<String>)
    ensures
        opt_text(r) == first_match(devices(sources@), source_base(sink@)),
{
    proof {
        reveal_strlit(":");
        reveal_strlit("alsa_output");
        reveal_strlit(".sink");
    }
    let base = match get_bluetooth_mac(sink) {
        Some(mac) => replace_chars(&to_chars(mac.as_str()), &to_chars(":"), &to_chars("_")),
        None => {
            let a = replace_chars(&to_chars(sink), &to_chars("alsa_output"), &to_chars("alsa_input"));
            replace_chars(&a, &to_chars(".sink"), &to_chars(".source"))
        },
    };
    find_named(sources, &base)
}

impl Config {
    /// Records the output device `sink` the user switched to. In unified
    /// mode the input device belonging to it, if any, is recorded too and
    /// returned, for the caller to switch to it as well.
    pub fn choose_sink(&mut self, sink: &str, unified: bool, sources: &Vec<PactlDevice>) -> (src:
        Option<String>)
        ensures
            opt_text(src) == if unified {
                first_match(devices(sources@), source_base(sink@))
            } else {
                None
            },
            final(self)@ == (ConfigView {
                last_sink: Some(sink@),
                last_source: match opt_text(src) {
                    Some(s) => Some(s),
                    None => old(self)@.last_source,
                },
                ..old(self)@
            }),
    {
        self.last_sink = Some(sink.to_owned());
        if unified {
            let src = paired_source(sink, sources);
            match &src {
                Some(s) => {
                    self.last_source = Some(copy_string(s));
                },
                None => {},
            }
            src
        } else {
            None
        }
    }

    /// Records the input device `source` the user switched to.
    pub fn choose_source(&mut self, source: &str)
        ensures
            final(self)@ == (ConfigView { last_source: Some(source@), ..old(self)@ }),
    {
        self.last_source = Some(source.to_owned());
    }

    /// Remembers the devices of a scan for the next start: the sinks with
    /// their volumes, the sources with volume zero. A scan that found nothing
    /// is not remembered; the result tells whether this one was.
    pub fn remember_scan(
        &mut self,
        sinks: &Vec<PactlDevice>,
        sources: &Vec<PactlDevice>,
        sink_volumes: &Vec<i32>,
    ) -> (kept: bool)
        requires
            sinks.len() == sink_volumes.len(),
        ensures
            kept == (sinks.len() > 0 || sources.len() > 0),
            kept ==> final(self)@ == (ConfigView {
                cached_sinks: cache_of(devices(sinks@), sink_volumes@),
                cached_sources: cache_of(
                    devices(sources@),
                    Seq::new(sources.len() as nat, |i: int| 0i32),
                ),
                ..old(self)@
            }),
            !kept ==> final(self)@ == old(self)@,
    {
        if sinks.len() == 0 && sources.len() == 0 {
            return false;
        }
        let mut zeros: Vec<i32> = Vec::new();
        let mut i: usize = 0;
        while i < sources.len()
            invariant
                i <= sources.len(),
                zeros@ == Seq::new(i as nat, |k: int| 0i32),
            decreases sources.len() - i,
        {
            zeros.push(0);
            proof {
                assert(zeros@ =~= Seq::new((i + 1) as nat, |k: int| 0i32));
            }
            i = i + 1;
        }
        self.cached_sinks = cache_devices(sinks, sink_volumes);
        self.cached_sources = cache_devices(sources, &zeros);
        true
    }
}

/// The devices the window shows at start-up, before the first scan: those
/// remembered from the last one, under the Bluetooth setting; `None` when
/// nothing is remembered.
pub fn cached_device_lists(c: &Config) -> (r: Option<(Vec<PactlDevice>, Vec<PactlDevice>)>)
    ensures
        (c.cached_sinks.len() == 0 && c.cached_sources.len() == 0) <==> r is None,
        r matches Some((s, src)) ==> {
            &&& devices(s@) == bluetooth_kept(
                c@.bluetooth_enabled,
                false,
                cached(c.cached_sinks@).map_values(|e: crate::config::CachedView| from_cache(e, true)),
            )
            &&& devices(src@) == bluetooth_kept(
                c@.bluetooth_enabled,
                true,
                cached(c.cached_sources@).map_values(|e: crate::config::CachedView| from_cache(e, false)),
            )
        },
{
    if c.cached_sinks.len() == 0 && c.cached_sources.len() == 0 {
        return None;
    }
    let all_sinks = devices_from_cache(&c.cached_sinks, true);
    let all_sources = devices_from_cache(&c.cached_sources, false);
    proof {
        assert(devices(all_sinks@) =~= cached(c.cached_sinks@).map_values(
            |e: crate::config::CachedView| from_cache(e, true),
        ));
        assert(devices(all_sources@) =~= cached(c.cached_sources@).map_values(
            |e: crate::config::CachedView| from_cache(e, false),
        ));
    }
    Some((bluetooth_filtered(&all_sinks, c, false), bluetooth_filtered(&all_sources, c, true)))
}

/// Whether the device `name` is a paired Bluetooth device that has to be
/// connected before the sound server offers it (its volume cannot be set
/// either).
pub fn needs_connection(name: &str) -> (b: bool)
    ensures
        b == is_connect_name(name@),
{
    starts_with_chars(&to_chars(name), &to_chars("bluez_connect."))
}

/// The name of the device at the window position `idx` of `ds`, if there is
/// one (the window reports `-1` for no selection).
pub open spec fn device_name_at(ds: Seq<DeviceView>, idx: int) -> Option<Seq<char>> {
    if 0 <= idx < ds.len() {
        Some(ds[idx].name)
    } else {
        None
    }
}

/// The name of the device at the window position `idx`.
pub fn device_at(ds: &Vec<PactlDevice>, idx: i32) -> (r: Option<String>)
    ensures
        opt_text(r) == device_name_at(devices(ds@), idx as int),
{
    if idx >= 0 && (idx as usize) < ds.len() {
        Some(copy_string(&ds[idx as usize].name))
    } else {
        None
    }
}

/// The sink whose volume the slider sets when the sink at the window
/// position `idx` is selected: none for a paired device not yet connected.
pub fn volume_target(sinks: &Vec<PactlDevice>, idx: i32) -> (r: Option<String>)
    ensures
        opt_text(r) == match device_name_at(devices(sinks@), idx as int) {
            Some(n) => if is_connect_name(n) {
                None
            } else {
                Some(n)
            },
            None => None,
        },
{
    match device_at(sinks, idx) {
        Some(n) => if needs_connection(n.as_str()) {
            None
        } else {
            Some(n)
        },
        None => None,
    }
}

/// How the program was asked to start: to install itself, and whether to
/// start hidden in the system tray.
#[derive(Clone, Copy, Debug)]
pub struct StartMode {
    pub install: bool,
    pub tray: bool,
}

/// How the program starts for the command-line arguments `args` (the
/// program name included): `-install` installs it, `--tray` starts it in
/// the tray.
pub fn start_mode(args: &Vec<String>) -> (m: StartMode)
    ensures
        m.install == has_text(strings(args@), "-install"@),
        m.tray == has_text(strings(args@), "--tray"@),
{
    StartMode { install: contains_text(args, "-install"), tray: contains_text(args, "--tray") }
}

/// The files an installation writes for the home directory `home`: the
/// program copied to `~/.local/bin`, its icon in the icon theme, a menu
/// entry, and an autostart entry that starts it in the tray. The paths are
/// the bytes of operating system paths; the entries are text.
#[derive(Debug)]
pub struct InstallPlan {
    pub bin_dir: Vec<u8>,
    pub binary: Vec<u8>,
    pub icon_dir: Vec<u8>,
    pub icon: Vec<u8>,
    pub applications_dir: Vec<u8>,
    pub desktop_file: Vec<u8>,
    pub desktop_entry: String,
    pub autostart_dir: Vec<u8>,
    pub autostart_file: Vec<u8>,
    pub autostart_entry: String,
}

/// The path `dir` with the relative parts appended one by one.
pub open spec fn path_of(dir: Seq<u8>, parts: Seq<Seq<char>>) -> Seq<u8>
    decreases parts.len(),
{
    if parts.len() == 0 {
        dir
    } else {
        os_path_join(path_of(dir, parts.drop_last()), encode_utf8(parts.last()))
    }
}

/// The common part of the desktop entries, for the icon at `icon`.
pub open spec fn desktop_base(icon: Seq<char>) -> Seq<char> {
    "[Desktop Entry]\nType=Application\nName=Audio Selector\nIcon="@ + icon
        + "\nTerminal=false\nCategories=AudioVideo;Audio;Utility;\nStartupNotify=true"@
}

/// The path `dir` with the relative parts appended one by one.
fn join_all(dir: &[u8], parts: &[&str]) -> (r: Vec<u8>)
    ensures
        r@ == path_of(dir@, str_views(parts@)),
{
    let mut r = join_os_path(&[], dir);
    let mut i: usize = 0;
    proof {
        assert(r@ =~= dir@);
        assert(str_views(parts@).take(0) =~= Seq::<Seq<char>>::empty());
    }
    while i < parts.len()
        invariant
            i <= parts.len(),
            r@ == path_of(dir@, str_views(parts@).take(i as int)),
        decreases parts.len() - i,
    {
        proof {
            assert(str_views(parts@).take(i + 1).drop_last() =~= str_views(parts@).take(i as int));
        }
        r = join_os_path(r.as_slice(), parts[i].as_bytes());
        i = i + 1;
    }
    proof {
        assert(str_views(parts@).take(parts.len() as int) =~= str_views(parts@));
    }
    r
}

/// The text that `String::from_utf8_lossy` makes of `bytes`.
pub uninterp spec fn lossy_text(bytes: Seq<u8>) -> Seq<char>;

/// `String::from_utf8_lossy`, made an owned `String`: `bytes` read as UTF-8,
/// each invalid sequence replaced by U+FFFD. Which replacements are made is
/// not written out here; the result is named by `lossy_text`. Of valid UTF-8
/// it is, as documented, the text that the bytes encode.
#[verifier::external_body]
fn text_of_bytes(bytes: &[u8]) -> (r: String)
    ensures
        r@ == lossy_text(bytes@),
        valid_utf8(bytes@) ==> encode_utf8(r@) == bytes@,
{
    String::from_utf8_lossy(bytes).into_owned()
}

/// The files an installation writes for the home directory `home`, given as
/// the bytes of its path. The entries name the icon and the program by their
/// paths as text, as `Path::to_string_lossy` gives them.
pub fn install_plan(home: &[u8]) -> (p: InstallPlan)
    ensures
        p.bin_dir@ == path_of(home@, seq![".local"@, "bin"@]),
        p.binary@ == os_path_join(p.bin_dir@, encode_utf8("audio-selector"@)),
        p.icon_dir@ == path_of(
            home@,
            seq![".local"@, "share"@, "icons"@, "hicolor"@, "256x256"@, "apps"@],
        ),
        p.icon@ == os_path_join(p.icon_dir@, encode_utf8("audio-selector.png"@)),
        p.applications_dir@ == path_of(home@, seq![".local"@, "share"@, "applications"@]),
        p.desktop_file@ == os_path_join(
            p.applications_dir@,
            encode_utf8("audio-selector.desktop"@),
        ),
        p.desktop_entry@ == desktop_base(lossy_text(p.icon@)) + "\nExec="@ + lossy_text(
            p.binary@,
        ),
        p.autostart_dir@ == path_of(home@, seq![".config"@, "autostart"@]),
        p.autostart_file@ == os_path_join(p.autostart_dir@, encode_utf8("audio-selector.desktop"@)),
        p.autostart_entry@ == desktop_base(lossy_text(p.icon@)) + "\nExec="@ + lossy_text(
            p.binary@,
        ) + " --tray"@,
{
    let bin_dir = join_all(home, &[".local", "bin"]);
    let binary = join_os_path(bin_dir.as_slice(), "audio-selector".as_bytes());
    let icon_dir = join_all(home, &[".local", "share", "icons", "hicolor", "256x256", "apps"]);
    let icon = join_os_path(icon_dir.as_slice(), "audio-selector.png".as_bytes());
    let applications_dir = join_all(home, &[".local", "share", "applications"]);
    let desktop_file = join_os_path(applications_dir.as_slice(), "audio-selector.desktop".as_bytes());
    let autostart_dir = join_all(home, &[".config", "autostart"]);
    let autostart_file = join_os_path(autostart_dir.as_slice(), "audio-selector.desktop".as_bytes());
    let icon_text = text_of_bytes(icon.as_slice());
    let binary_text = text_of_bytes(binary.as_slice());
    let mut base = to_chars("[Desktop Entry]\nType=Application\nName=Audio Selector\nIcon=");
    append_chars(&mut base, &to_chars(icon_text.as_str()));
    append_chars(
        &mut base,
        &to_chars("\nTerminal=false\nCategories=AudioVideo;Audio;Utility;\nStartupNotify=true"),
    );
    let mut entry = crate::text::copy_chars(&base);
    append_chars(&mut entry, &to_chars("\nExec="));
    append_chars(&mut entry, &to_chars(binary_text.as_str()));
    let mut auto = crate::text::copy_chars(&entry);
    append_chars(&mut auto, &to_chars(" --tray"));
    proof {
        assert(str_views(seq![".local", "bin"]) =~= seq![".local"@, "bin"@]);
        assert(str_views(seq![".local", "share", "icons", "hicolor", "256x256", "apps"]) =~= seq![
            ".local"@,
            "share"@,
            "icons"@,
            "hicolor"@,
            "256x256"@,
            "apps"@,
        ]);
        assert(str_views(seq![".local", "share", "applications"]) =~= seq![
            ".local"@,
            "share"@,
            "applications"@,
        ]);
        assert(str_views(seq![".config", "autostart"]) =~= seq![".config"@, "autostart"@]);
        assert(base@ =~= desktop_base(icon_text@));
        assert(entry@ =~= desktop_base(icon_text@) + "\nExec="@ + binary_text@);
        assert(auto@ =~= desktop_base(icon_text@) + "\nExec="@ + binary_text@ + " --tray"@);
    }
    InstallPlan {
        bin_dir,
        binary,
        icon_dir,
        icon,
        applications_dir,
        desktop_file,
        desktop_entry: to_string(&entry),
        autostart_dir,
        autostart_file,
        autostart_entry: to_string(&auto),
    }
}

} // verus!
