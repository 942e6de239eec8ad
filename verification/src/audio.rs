//! Audio devices as `pactl` reports them, and the `pactl` calls that switch
//! and adjust them.

use vstd::prelude::*;
use crate::command::{pactl, pactl_command, CommandView, ExternalCommand};
use crate::text::{
    concat, contains, contains_chars, find_char, first_index, lines, opt_text,
    owned_all, replace, replace_chars, same_text, split_lines, split_words, str_views, strings,
    to_chars, to_string, trim, trimmed, views, words, copy_string, decimal, decimal_chars,
};

verus! {

broadcast use vstd::string::group_string_axioms;

/// An audio endpoint: its `pactl` name, its human-readable description, and
/// its volume.
///
/// The volume is what the selector reads of the `volume` object of a `pactl`
/// JSON entry: for each channel, in the order in which the JSON reader yields
/// the object's entries (by key, for serde_json's default map), its
/// `value_percent` text if it has one. `None` stands for an absent volume, or
/// one that is not an object.
#[derive(Debug, Clone, PartialEq)]
pub struct PactlDevice {
    pub name: String,
    pub description: String,
    pub volume: Option<Vec<Option<String>>>,
}

/// The model of a [`PactlDevice`].
pub struct DeviceView {
    pub name: Seq<char>,
    pub description: Seq<char>,
    pub volume: Option<Seq<Option<Seq<char>>>>,
}

/// The views of optional strings.
pub open spec fn opt_texts(v: Seq<Option<String>>) -> Seq<Option<Seq<char>>> {
    v.map_values(|o: Option<String>| opt_text(o))
}

impl View for PactlDevice {
    type V = DeviceView;

    open spec fn view(&self) -> DeviceView {
        DeviceView {
            name: self.name@,
            description: self.description@,
            volume: match self.volume {
                Some(v) => Some(opt_texts(v@)),
                None => None,
            },
        }
    }
}

/// The views of a sequence of devices.
pub open spec fn devices(v: Seq<PactlDevice>) -> Seq<DeviceView> {
    v.map_values(|d: PactlDevice| d@)
}

/// The devices of `s` that satisfy `p`, in order.
pub open spec fn keep(s: Seq<DeviceView>, p: spec_fn(DeviceView) -> bool) -> Seq<DeviceView>
    decreases s.len(),
{
    if s.len() == 0 {
        seq![]
    } else {
        let k = keep(s.drop_last(), p);
        if p(s.last()) {
            k.push(s.last())
        } else {
            k
        }
    }
}

/// A copy of the optional texts in `v`.
fn copy_opt_strings(v: &Vec<Option<String>>) -> (r: Vec<Option<String>>)
    ensures
        opt_texts(r@) == opt_texts(v@),
{
    let mut r: Vec<Option<String>> = Vec::new();
    let mut i: usize = 0;
    while i < v.len()
        invariant
            i <= v.len(),
            opt_texts(r@) == opt_texts(v@).take(i as int),
        decreases v.len() - i,
    {
        let c = match &v[i] {
            Some(s) => Some(copy_string(s)),
            None => None,
        };
        let ghost r0 = r@;
        r.push(c);
        proof {
            assert(opt_texts(r@) =~= opt_texts(r0).push(opt_text(c)));
            assert(opt_texts(r@) =~= opt_texts(v@).take(i + 1));
        }
        i = i + 1;
    }
    proof {
        assert(opt_texts(v@).take(v.len() as int) =~= opt_texts(v@));
    }
    r
}

/// The text of a `value_percent` field made ready for a number parser:
/// percent signs removed, decimal commas turned to points, whitespace trimmed.
pub open spec fn clean_percent(t: Seq<char>) -> Seq<char> {
    trim(replace(replace(t, "%"@, ""@), ","@, "."@))
}

/// The volume text of a device: the cleaned `value_percent` of its first
/// channel, when it has one.
pub open spec fn volume_text(d: DeviceView) -> Option<Seq<char>> {
    match d.volume {
        Some(chs) => if chs.len() > 0 {
            match chs[0] {
                Some(t) => Some(clean_percent(t)),
                None => None,
            }
        } else {
            None
        },
        None => None,
    }
}

/// The volume shown for a device whose volume text is missing or is not a
/// number.
pub const DEFAULT_VOLUME_PERCENT: i32 = 50;

impl PactlDevice {
    /// A copy of this device.
    pub fn duplicate(&self) -> (r: PactlDevice)
        ensures
            r@ == self@,
    {
        PactlDevice {
            name: copy_string(&self.name),
            description: copy_string(&self.description),
            volume: match &self.volume {
                Some(v) => Some(copy_opt_strings(v)),
                None => None,
            },
        }
    }

    /// The volume text of this device, ready to be read as a number of percent.
    pub fn volume_text(&self) -> (r: Option<String>)
        ensures
            opt_text(r) == volume_text(self@),
    {
        match &self.volume {
            Some(chs) => {
                if chs.len() > 0 {
                    match &chs[0] {
                        Some(t) => Some(to_string(&clean_percent_chars(t.as_str()))),
                        None => None,
                    }
                } else {
                    None
                }
            },
            None => None,
        }
    }
}

/// The cleaned form of a `value_percent` text.
fn clean_percent_chars(t: &str) -> (r: Vec<char>)
    ensures
        r@ == clean_percent(t@),
{
    proof {
        reveal_strlit("%");
        reveal_strlit(",");
    }
    let a = replace_chars(&to_chars(t), &to_chars("%"), &to_chars(""));
    let b = replace_chars(&a, &to_chars(","), &to_chars("."));
    trimmed(&b)
}

/// The volume of a device in percent, given its volume text read as a number
/// and rounded (`None` when there was no text or it was not a number).
pub fn volume_percent(parsed: Option<i32>) -> (v: i32)
    ensures
        v == match parsed {
            Some(p) => p,
            None => DEFAULT_VOLUME_PERCENT,
        },
{
    match parsed {
        Some(p) => p,
        None => DEFAULT_VOLUME_PERCENT,
    }
}

/// Where the JSON document in `pactl` output begins: the first `[`, or else
/// the first `{`.
pub open spec fn json_start(s: Seq<char>) -> Option<int> {
    match first_index(s, '[') {
        Some(i) => Some(i),
        None => first_index(s, '{'),
    }
}

/// The JSON document in `pactl` output: everything from its start, trimmed;
/// `None` when the output holds neither `[` nor `{`.
pub open spec fn json_payload(s: Seq<char>) -> Option<Seq<char>> {
    match json_start(s) {
        Some(k) => Some(trim(s.skip(k))),
        None => None,
    }
}

/// The JSON document in the output of `pactl --format=json list`.
pub fn json_payload_of(stdout: &str) -> (r: Option<String>)
    ensures
        opt_text(r) == json_payload(stdout@),
{
    let s = to_chars(stdout);
    let start = match find_char(&s, '[') {
        Some(i) => Some(i),
        None => find_char(&s, '{'),
    };
    match start {
        Some(k) => {
            let mut rest: Vec<char> = Vec::new();
            let mut j: usize = k;
            while j < s.len()
                invariant
                    k <= j <= s.len(),
                    rest@ == s@.subrange(k as int, j as int),
                decreases s.len() - j,
            {
                rest.push(s[j]);
                proof {
                    assert(rest@ =~= s@.subrange(k as int, j + 1));
                }
                j = j + 1;
            }
            proof {
                assert(rest@ =~= s@.skip(k as int));
            }
            Some(to_string(&trimmed(&rest)))
        },
        None => None,
    }
}

/// Whether a device of a `pactl list <target>` answer is offered: monitor
/// sources are left out, but for Bluetooth sources.
pub open spec fn offered(target: Seq<char>, d: DeviceView) -> bool {
    target == "sources"@ ==> (!contains(d.name, ".monitor"@) || contains(d.name, "bluez_source"@))
}

/// The devices of `s` that the selector offers for `target`, in order.
pub open spec fn offered_devices(target: Seq<char>, s: Seq<DeviceView>) -> Seq<DeviceView> {
    keep(s, |d: DeviceView| offered(target, d))
}

/// The devices of a `pactl list <target>` answer that the selector offers,
/// in the order `pactl` gave them.
pub fn get_pactl_devices(target: &str, found: Vec<PactlDevice>) -> (r: Vec<PactlDevice>)
    ensures
        devices(r@) == offered_devices(target@, devices(found@)),
{
    let ghost p = |d: DeviceView| offered(target@, d);
    let is_sources = same_text(target, "sources");
    let monitor = to_chars(".monitor");
    let bluez_source = to_chars("bluez_source");
    let mut r: Vec<PactlDevice> = Vec::new();
    let mut i: usize = 0;
    while i < found.len()
        invariant
            i <= found.len(),
            is_sources == (target@ == "sources"@),
            monitor@ == ".monitor"@,
            bluez_source@ == "bluez_source"@,
            p == (|d: DeviceView| offered(target@, d)),
            devices(r@) == keep(devices(found@).take(i as int), p),
        decreases found.len() - i,
    {
        let ghost all = devices(found@);
        proof {
            assert(all.take(i + 1).drop_last() =~= all.take(i as int));
        }
        let d = &found[i];
        let name = to_chars(d.name.as_str());
        let keep_it = !is_sources || !contains_chars(&name, &monitor) || contains_chars(
            &name,
            &bluez_source,
        );
        if keep_it {
            let ghost r0 = r@;
            r.push(d.duplicate());
            proof {
                assert(devices(r@) =~= devices(r0).push(found@[i as int]@));
            }
        }
        i = i + 1;
    }
    proof {
        assert(devices(found@).take(found.len() as int) =~= devices(found@));
    }
    r
}

/// `pactl --format=json list <target>`, stopped after three seconds.
pub open spec fn list_devices(target: Seq<char>) -> CommandView {
    pactl("3s"@, seq!["--format=json"@, "list"@, target])
}

/// The call that lists the devices of `target` (`sinks` or `sources`).
pub fn list_devices_command(target: &str) -> (c: ExternalCommand)
    ensures
        c@ == list_devices(target@),
{
    let args = owned_all(&["--format=json", "list", target]);
    proof {
        assert(str_views(seq!["--format=json", "list", target]) =~= seq![
            "--format=json"@,
            "list"@,
            target@,
        ]);
    }
    pactl_command("3s", args)
}

/// The two calls that begin a device change: the one that makes `name` the
/// default of `target`, and the one that lists the streams of that kind.
pub struct DeviceChange {
    pub set_default: ExternalCommand,
    pub list_streams: ExternalCommand,
}

/// `pactl set-default-sink <name>` for sinks, `set-default-source` for any
/// other target.
pub open spec fn set_default(target: Seq<char>, name: Seq<char>) -> CommandView {
    pactl(
        "5s"@,
        seq![
            if target == "sinks"@ {
                "set-default-sink"@
            } else {
                "set-default-source"@
            },
            name,
        ],
    )
}

/// `pactl list short sink-inputs` for sinks, `source-outputs` otherwise.
pub open spec fn list_streams(target: Seq<char>) -> CommandView {
    pactl(
        "10s"@,
        seq![
            "list"@,
            "short"@,
            if target == "sinks"@ {
                "sink-inputs"@
            } else {
                "source-outputs"@
            },
        ],
    )
}

/// The move of the stream `id` to `name`: `move-sink-input` for sinks,
/// `move-source-output` otherwise.
pub open spec fn move_stream(target: Seq<char>, id: Seq<char>, name: Seq<char>) -> CommandView {
    pactl(
        "5s"@,
        seq![
            if target == "sinks"@ {
                "move-sink-input"@
            } else {
                "move-source-output"@
            },
            id,
            name,
        ],
    )
}

/// The stream moves for a `pactl list short` answer: one per line that holds
/// a word, for the stream whose id is that first word, in line order.
pub open spec fn stream_moves(target: Seq<char>, name: Seq<char>, ls: Seq<Seq<char>>) -> Seq<
    CommandView,
>
    decreases ls.len(),
{
    if ls.len() == 0 {
        seq![]
    } else {
        let m = stream_moves(target, name, ls.drop_last());
        let ws = words(ls.last());
        if ws.len() > 0 {
            m.push(move_stream(target, ws[0], name))
        } else {
            m
        }
    }
}

/// The views of a sequence of commands.
pub open spec fn commands(v: Seq<ExternalCommand>) -> Seq<CommandView> {
    v.map_values(|c: ExternalCommand| c@)
}

/// Makes `name` the default device of `target` (`sinks` or `sources`): the
/// call that sets the default, and the call that lists the streams to move.
pub fn apply_device_change(target: &str, name: &str) -> (r: DeviceChange)
    ensures
        r.set_default@ == set_default(target@, name@),
        r.list_streams@ == list_streams(target@),
{
    let sinks = same_text(target, "sinks");
    let set_cmd = if sinks {
        "set-default-sink"
    } else {
        "set-default-source"
    };
    let list_cmd = if sinks {
        "sink-inputs"
    } else {
        "source-outputs"
    };
    let a = owned_all(&[set_cmd, name]);
    let b = owned_all(&["list", "short", list_cmd]);
    proof {
        assert(str_views(seq![set_cmd, name]) =~= seq![set_cmd@, name@]);
        assert(str_views(seq!["list", "short", list_cmd]) =~= seq!["list"@, "short"@, list_cmd@]);
    }
    DeviceChange { set_default: pactl_command("5s", a), list_streams: pactl_command("10s", b) }
}

/// The moves of the streams that `pactl list short` reported in `listing`
/// to the new default `name` of `target`.
pub fn stream_moves_for(target: &str, name: &str, listing: &str) -> (r: Vec<ExternalCommand>)
    ensures
        commands(r@) == stream_moves(target@, name@, lines(listing@)),
{
    let sinks = same_text(target, "sinks");
    let cmd = if sinks {
        "move-sink-input"
    } else {
        "move-source-output"
    };
    let ls = split_lines(&to_chars(listing));
    let ghost lv = views(ls@);
    let mut r: Vec<ExternalCommand> = Vec::new();
    let mut i: usize = 0;
    while i < ls.len()
        invariant
            i <= ls.len(),
            lv == views(ls@),
            lv == lines(listing@),
            sinks == (target@ == "sinks"@),
            cmd@ == if target@ == "sinks"@ {
                "move-sink-input"@
            } else {
                "move-source-output"@
            },
            commands(r@) == stream_moves(target@, name@, lv.take(i as int)),
        decreases ls.len() - i,
    {
        proof {
            assert(lv.take(i + 1).drop_last() =~= lv.take(i as int));
            assert(lv.take(i + 1).last() == ls@[i as int]@);
        }
        let ws = split_words(&ls[i]);
        if ws.len() > 0 {
            let id = to_string(&ws[0]);
            let mut args: Vec<String> = Vec::new();
            args.push(cmd.to_owned());
            args.push(id);
            args.push(name.to_owned());
            let c = pactl_command("5s", args);
            let ghost r0 = r@;
            r.push(c);
            proof {
                assert(strings(args@) =~= seq![cmd@, ws@[0]@, name@]);
                assert(views(ws@)[0] == ws@[0]@);
                assert(commands(r@) =~= commands(r0).push(c@));
            }
        }
        i = i + 1;
    }
    proof {
        assert(lv.take(ls.len() as int) =~= lv);
    }
    r
}

/// `pactl set-sink-volume <name> <vol>%`.
pub open spec fn sink_volume(name: Seq<char>, vol: int) -> CommandView {
    pactl("5s"@, seq!["set-sink-volume"@, name, decimal(vol) + "%"@])
}

/// Sets the volume of the sink `name` to `vol` percent.
pub fn set_sink_volume(name: &str, vol: i32) -> (c: ExternalCommand)
    ensures
        c@ == sink_volume(name@, vol as int),
{
    let pct = to_string(&concat(&decimal_chars(vol), &to_chars("%")));
    let mut args: Vec<String> = Vec::new();
    args.push("set-sink-volume".to_owned());
    args.push(name.to_owned());
    args.push(pct);
    proof {
        assert(strings(args@) =~= seq!["set-sink-volume"@, name@, decimal(vol as int) + "%"@]);
    }
    pactl_command("5s", args)
}

} // verus!
