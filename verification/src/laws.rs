//! Properties that hold across the functions of the selector.

use vstd::prelude::*;
use vstd::utf8::{encode_utf8, is_ascii_chars, is_ascii_chars_encode_utf8};
use crate::audio::{keep, offered, offered_devices, DeviceView};
use crate::config::{has_text, toggled, without};
use crate::selector::{
    bluetooth_kept, bt_key, covered, kept_with_bluetooth, source_base,
    has_name, merged, position_of, restore_position, selection, shown, shown_devices,
    unique_by_name, unknown_bt,
};
use crate::audio::{clean_percent, volume_text};
use crate::config::{from_cache, CachedView};
use crate::audio::{move_stream, stream_moves};
use crate::bluetooth::{bt_devices, connect_prefix, first_match, lemma_first_match_sound};
use crate::utils::{config_dir_of, last_n, matching_lines, os_path_join};
use crate::text::{ascii_lower, ascii_lowercase, contains, lowercase, occurs_at, starts_with, words, decimal, digits, is_space, replace, trim, trim_end, trim_start};

verus! {

/// What `keep` keeps satisfies the filter, and comes from the input.
pub proof fn lemma_keep_sound(s: Seq<DeviceView>, p: spec_fn(DeviceView) -> bool)
    ensures
        keep(s, p).len() <= s.len(),
        forall|i: int| 0 <= i < keep(s, p).len() ==> #[trigger] p(keep(s, p)[i]),
        forall|i: int|
            0 <= i < keep(s, p).len() ==> exists|j: int| 0 <= j < s.len() && s[j] == #[trigger] keep(s, p)[i],
    decreases s.len(),
{
    if s.len() > 0 {
        lemma_keep_sound(s.drop_last(), p);
        let k = keep(s.drop_last(), p);
        assert forall|i: int| 0 <= i < keep(s, p).len() implies exists|j: int|
            0 <= j < s.len() && s[j] == #[trigger] keep(s, p)[i] by {
            if i < k.len() {
                let j = choose|j: int| 0 <= j < s.drop_last().len() && s.drop_last()[j] == k[i];
                assert(s[j] == keep(s, p)[i]);
            } else {
                assert(s[s.len() - 1] == keep(s, p)[i]);
            }
        }
    }
}

/// A device the window lists is never one the user excluded while exclusion
/// is on, nor an unknown Bluetooth device while those are hidden.
pub proof fn lemma_shown_devices_respect_settings(
    c: crate::config::ConfigView,
    s: Seq<DeviceView>,
)
    ensures
        forall|i: int|
            0 <= i < shown_devices(c, s).len() ==> {
                let d = #[trigger] shown_devices(c, s)[i];
                &&& c.filter_enabled ==> !has_text(c.excluded_devices, d.name)
                &&& !unknown_bt(c.hide_unknown_bt, d.description)
            },
{
    let p = |d: DeviceView| shown(c, d);
    lemma_keep_sound(s, p);
    assert(shown_devices(c, s) == keep(s, p));
    assert forall|i: int| 0 <= i < shown_devices(c, s).len() implies {
        let d = #[trigger] shown_devices(c, s)[i];
        &&& c.filter_enabled ==> !has_text(c.excluded_devices, d.name)
        &&& !unknown_bt(c.hide_unknown_bt, d.description)
    } by {
        assert(p(keep(s, p)[i]));
    }
}

/// The sources offered from a `pactl list sources` answer are never monitor
/// sources, but for Bluetooth ones.
pub proof fn lemma_no_monitor_sources(s: Seq<DeviceView>)
    ensures
        forall|i: int|
            0 <= i < offered_devices("sources"@, s).len() ==> {
                let d = #[trigger] offered_devices("sources"@, s)[i];
                !crate::text::contains(d.name, ".monitor"@) || crate::text::contains(
                    d.name,
                    "bluez_source"@,
                )
            },
{
    let p = |d: DeviceView| offered("sources"@, d);
    lemma_keep_sound(s, p);
    assert(offered_devices("sources"@, s) == keep(s, p));
    assert forall|i: int| 0 <= i < offered_devices("sources"@, s).len() implies {
        let d = #[trigger] offered_devices("sources"@, s)[i];
        !crate::text::contains(d.name, ".monitor"@) || crate::text::contains(d.name, "bluez_source"@)
    } by {
        assert(p(keep(s, p)[i]));
    }
}

/// The list of devices to hide names each device once, and names every
/// device of the scan.
pub proof fn lemma_unique_names(s: Seq<DeviceView>)
    ensures
        forall|i: int, j: int|
            0 <= i < j < unique_by_name(s).len() ==> #[trigger] unique_by_name(s)[i].name
                != #[trigger] unique_by_name(s)[j].name,
        forall|k: int| 0 <= k < s.len() ==> has_name(unique_by_name(s), #[trigger] s[k].name),
    decreases s.len(),
{
    if s.len() > 0 {
        lemma_unique_names(s.drop_last());
        let u = unique_by_name(s.drop_last());
        assert forall|k: int| 0 <= k < s.len() implies has_name(unique_by_name(s), #[trigger] s[k].name) by {
            if k < s.len() - 1 {
                assert(s.drop_last()[k] == s[k]);
                assert(has_name(u, s[k].name));
                let i = choose|i: int| 0 <= i < u.len() && #[trigger] u[i].name == s[k].name;
                assert(unique_by_name(s)[i] == u[i]);
            } else if has_name(u, s.last().name) {
                let i = choose|i: int| 0 <= i < u.len() && #[trigger] u[i].name == s.last().name;
                assert(unique_by_name(s)[i] == u[i]);
            } else {
                assert(unique_by_name(s)[u.len() as int].name == s.last().name);
            }
        }
    }
}

/// The devices the sound server found come first in a merged scan, in
/// their order; every device after them is a paired Bluetooth device.
pub proof fn lemma_merge_keeps_found(f: Seq<DeviceView>, bt: Seq<DeviceView>)
    ensures
        merged(f, bt).len() >= f.len(),
        merged(f, bt).take(f.len() as int) == f,
        forall|i: int|
            f.len() <= i < merged(f, bt).len() ==> exists|j: int|
                0 <= j < bt.len() && bt[j] == #[trigger] merged(f, bt)[i],
    decreases bt.len(),
{
    if bt.len() == 0 {
        assert(merged(f, bt).take(f.len() as int) =~= f);
    } else {
        lemma_merge_keeps_found(f, bt.drop_last());
        let r = merged(f, bt.drop_last());
        assert(merged(f, bt).take(f.len() as int) =~= r.take(f.len() as int));
        assert forall|i: int| f.len() <= i < merged(f, bt).len() implies exists|j: int|
            0 <= j < bt.len() && bt[j] == #[trigger] merged(f, bt)[i] by {
            if i < r.len() {
                let j = choose|j: int| 0 <= j < bt.drop_last().len() && bt.drop_last()[j] == r[i];
                assert(bt[j] == merged(f, bt)[i]);
            } else {
                assert(bt[bt.len() - 1] == merged(f, bt)[i]);
            }
        }
    }
}

/// Marking a device hidden puts it among the excluded devices, and marking
/// it shown takes it out; no other device changes its state.
pub proof fn lemma_toggle_exclusion(v: Seq<Seq<char>>, name: Seq<char>, exclude: bool)
    ensures
        has_text(toggled(v, name, exclude), name) == exclude,
        forall|x: Seq<char>| x != name ==> (#[trigger] has_text(toggled(v, name, exclude), x)
            == has_text(v, x)),
{
    if exclude {
        if !has_text(v, name) {
            let t = v.push(name);
            assert(t[v.len() as int] == name);
            assert forall|x: Seq<char>| x != name implies (#[trigger] has_text(t, x) == has_text(v, x)) by {
                if has_text(t, x) {
                    let i = choose|i: int| 0 <= i < t.len() && t[i] == x;
                    assert(v[i] == x);
                }
                if has_text(v, x) {
                    let i = choose|i: int| 0 <= i < v.len() && v[i] == x;
                    assert(t[i] == x);
                }
            }
        }
    } else {
        lemma_without(v, name);
    }
}

/// `without` drops exactly the entries equal to `name`.
proof fn lemma_without(v: Seq<Seq<char>>, name: Seq<char>)
    ensures
        !has_text(without(v, name), name),
        forall|x: Seq<char>| x != name ==> (#[trigger] has_text(without(v, name), x) == has_text(v, x)),
    decreases v.len(),
{
    if v.len() > 0 {
        lemma_without(v.drop_last(), name);
        let w = without(v.drop_last(), name);
        let vd = v.drop_last();
        if v.last() == name {
            assert(without(v, name) == w);
        } else {
            assert(without(v, name) == w.push(v.last()));
        }
        assert forall|x: Seq<char>| x != name implies (#[trigger] has_text(without(v, name), x)
            == has_text(v, x)) by {
            if has_text(v, x) {
                let i = choose|i: int| 0 <= i < v.len() && v[i] == x;
                if i < vd.len() {
                    assert(vd[i] == x);
                    assert(has_text(vd, x));
                    assert(has_text(w, x));
                    let k = choose|k: int| 0 <= k < w.len() && w[k] == x;
                    assert(without(v, name)[k] == x);
                } else {
                    assert(without(v, name)[w.len() as int] == x);
                }
            }
            if has_text(without(v, name), x) {
                let k = choose|k: int| 0 <= k < without(v, name).len() && without(v, name)[k] == x;
                if k < w.len() {
                    assert(w[k] == x);
                    assert(has_text(w, x));
                    let i = choose|i: int| 0 <= i < vd.len() && vd[i] == x;
                    assert(v[i] == x);
                } else {
                    assert(v[v.len() - 1] == x);
                }
            }
        }
        if has_text(without(v, name), name) {
            let k = choose|k: int| 0 <= k < without(v, name).len() && without(v, name)[k] == name;
            if k < w.len() {
                assert(w[k] == name);
            }
        }
    }
}

/// Marking a device twice in the same way changes nothing the second time.
pub proof fn lemma_toggle_idempotent(v: Seq<Seq<char>>, name: Seq<char>, exclude: bool)
    ensures
        toggled(toggled(v, name, exclude), name, exclude) == toggled(v, name, exclude),
{
    if exclude {
        lemma_toggle_exclusion(v, name, true);
    } else {
        lemma_without(v, name);
        lemma_without_absent(without(v, name), name);
    }
}

/// Removing an absent entry leaves the sequence as it is.
proof fn lemma_without_absent(v: Seq<Seq<char>>, name: Seq<char>)
    requires
        !has_text(v, name),
    ensures
        without(v, name) == v,
    decreases v.len(),
{
    if v.len() > 0 {
        let vd = v.drop_last();
        if has_text(vd, name) {
            let i = choose|i: int| 0 <= i < vd.len() && vd[i] == name;
            assert(v[i] == name);
        }
        lemma_without_absent(vd, name);
        assert(v[v.len() - 1] != name);
        assert(without(v, name) =~= v);
    }
}


/// `position_of` finds the first device of the given name, and finds one
/// whenever there is one.
pub proof fn lemma_position(s: Seq<DeviceView>, name: Seq<char>)
    ensures
        position_of(s, name) matches Some(i) ==> 0 <= i < s.len() && s[i].name == name && forall|
            j: int,
        | 0 <= j < i ==> #[trigger] s[j].name != name,
        position_of(s, name) is None <==> !has_name(s, name),
    decreases s.len(),
{
    if s.len() > 0 {
        lemma_position(s.drop_last(), name);
        let d = s.drop_last();
        if has_name(d, name) {
            let k = choose|k: int| 0 <= k < d.len() && #[trigger] d[k].name == name;
            assert(s[k].name == name);
        }
        if has_name(s, name) && position_of(s, name) is None {
            let k = choose|k: int| 0 <= k < s.len() && #[trigger] s[k].name == name;
            if k < d.len() {
                assert(d[k].name == name);
            }
        }
        if let Some(i) = position_of(s, name) {
            assert forall|j: int| 0 <= j < i implies #[trigger] s[j].name != name by {
                if i < d.len() {
                    assert(d[j].name == s[j].name);
                } else {
                    assert(d[j].name == s[j].name);
                    assert(!has_name(d, name));
                }
            }
        }
    }
}

/// A list selects one of its entries whenever it is not empty: the
/// remembered device when it is listed, else the first entry.
pub proof fn lemma_selection(s: Seq<DeviceView>, last: Option<Seq<char>>)
    ensures
        selection(s, last) is Some <==> s.len() > 0,
        selection(s, last) matches Some(i) ==> 0 <= i < s.len(),
        last matches Some(l) ==> (has_name(s, l) ==> (selection(s, last) matches Some(i)
            && s[i].name == l)),
{
    if let Some(l) = last {
        lemma_position(s, l);
    }
}

/// After a scan, a remembered device that is still there is selected again.
pub proof fn lemma_restore_exact(s: Seq<DeviceView>, last: Seq<char>)
    ensures
        has_name(s, last) ==> (restore_position(s, last) matches Some(i) && 0 <= i < s.len()
            && s[i].name == last),
        restore_position(s, last) matches Some(i) ==> 0 <= i < s.len(),
{
    lemma_position(s, last);
    if let Some(mac) = crate::bluetooth::bluetooth_mac(last) {
        lemma_position(s, crate::bluetooth::connect_prefix() + mac);
    }
}

/// The decimal digits are the characters `0` to `9`.
proof fn lemma_digits_chars(n: nat)
    ensures
        digits(n).len() > 0,
        forall|i: int| 0 <= i < digits(n).len() ==> 48 <= (#[trigger] digits(n)[i]) as u32 <= 57,
    decreases n,
{
    if n >= 10 {
        lemma_digits_chars(n / 10);
        let d = digits(n / 10);
        assert forall|i: int| 0 <= i < digits(n).len() implies 48 <= (#[trigger] digits(n)[i]) as u32
            <= 57 by {
            if i < d.len() {
                assert(digits(n)[i] == d[i]);
            }
        }
    }
}

/// Replacing a one-character pattern that does not occur changes nothing.
proof fn lemma_replace_absent(s: Seq<char>, x: char, r: Seq<char>)
    requires
        forall|i: int| 0 <= i < s.len() ==> s[i] != x,
    ensures
        replace(s, seq![x], r) == s,
    decreases s.len(),
{
    if s.len() > 0 {
        assert(s.take(1)[0] == s[0]);
        assert(s.take(1) != seq![x]);
        lemma_replace_absent(s.skip(1), x, r);
        assert(seq![s[0]] + s.skip(1) =~= s);
    }
}

/// Removing a one-character pattern that occurs only at the end drops it.
proof fn lemma_replace_last(s: Seq<char>, x: char)
    requires
        forall|i: int| 0 <= i < s.len() ==> s[i] != x,
    ensures
        replace(s.push(x), seq![x], seq![]) == s,
    decreases s.len(),
{
    let t = s.push(x);
    if s.len() == 0 {
        assert(t.take(1) =~= seq![x]);
        assert(t.skip(1) =~= Seq::<char>::empty());
        assert(seq![] + replace(t.skip(1), seq![x], seq![]) =~= s);
    } else {
        assert(t.take(1)[0] == s[0]);
        assert(t.take(1) != seq![x]);
        assert(t.skip(1) =~= s.skip(1).push(x));
        lemma_replace_last(s.skip(1), x);
        assert(seq![t[0]] + s.skip(1) =~= s);
    }
}

/// A cached sink reads back as a device of the same name and description
/// whose volume text is the remembered percentage, and a cached source as
/// one without volume.
pub proof fn lemma_cache_round_trip(c: CachedView)
    ensures
        from_cache(c, true).name == c.name,
        from_cache(c, true).description == c.description,
        volume_text(from_cache(c, true)) == Some(decimal(c.volume_percent)),
        volume_text(from_cache(c, false)) is None,
{
    reveal_strlit("%");
    reveal_strlit(",");
    reveal_strlit("");
    let v = c.volume_percent;
    let m: nat = if v < 0 { (-v) as nat } else { v as nat };
    lemma_digits_chars(m);
    let d = decimal(v);
    assert forall|i: int| 0 <= i < d.len() implies d[i] != '%' && d[i] != ',' && !is_space(
        #[trigger] d[i],
    ) by {
        if v < 0 {
            if i > 0 {
                assert(d[i] == digits(m)[i - 1]);
            }
        } else {
            assert(d[i] == digits(m)[i]);
        }
    }
    assert("%"@ =~= seq!['%']);
    assert(","@ =~= seq![',']);
    assert(d + "%"@ =~= d.push('%'));
    lemma_replace_last(d, '%');
    lemma_replace_absent(d, ',', "."@);
    assert(d.len() > 0);
    assert(trim_start(d) == d);
    assert(trim_end(d) == d);
    assert(""@ =~= Seq::<char>::empty());
    assert(replace(d + "%"@, "%"@, ""@) == d);
    assert(replace(d, ","@, "."@) == d);
    assert(trim(d) == d);
    assert(clean_percent(d + "%"@) == d);
    assert(from_cache(c, true).volume->0 =~= seq![Some(d + "%"@)]);
}


/// Every stream move sends a stream to the new default device, with the
/// move command of the target; there is one move per listed line that holds
/// a word.
pub proof fn lemma_stream_moves(target: Seq<char>, name: Seq<char>, ls: Seq<Seq<char>>)
    ensures
        stream_moves(target, name, ls).len() <= ls.len(),
        forall|i: int|
            0 <= i < stream_moves(target, name, ls).len() ==> exists|id: Seq<char>|
                #[trigger] stream_moves(target, name, ls)[i] == move_stream(target, id, name),
    decreases ls.len(),
{
    if ls.len() > 0 {
        lemma_stream_moves(target, name, ls.drop_last());
        let m = stream_moves(target, name, ls.drop_last());
        assert forall|i: int| 0 <= i < stream_moves(target, name, ls).len() implies exists|
            id: Seq<char>,
        | #[trigger] stream_moves(target, name, ls)[i] == move_stream(target, id, name) by {
            if i < m.len() {
                let id = choose|id: Seq<char>| #[trigger] m[i] == move_stream(target, id, name);
                assert(stream_moves(target, name, ls)[i] == move_stream(target, id, name));
            } else {
                let id = words(ls.last())[0];
                assert(stream_moves(target, name, ls)[i] == move_stream(target, id, name));
            }
        }
    }
}

/// The log window shows at most the given number of lines, the last ones.
pub proof fn lemma_last_lines(s: Seq<Seq<char>>, n: nat)
    ensures
        last_n(s, n).len() <= n,
        last_n(s, n).len() == if s.len() <= n {
            s.len()
        } else {
            n
        },
        last_n(s, n) == s.skip(s.len() - last_n(s, n).len()),
{
    if s.len() <= n {
        assert(s.skip(0) =~= s);
    }
}

/// A search shows only log lines that contain the search text regardless
/// of case, in their order in the log.
pub proof fn lemma_search_matches(ls: Seq<Seq<char>>, needle: Seq<char>)
    ensures
        matching_lines(ls, needle).len() <= ls.len(),
        forall|i: int|
            0 <= i < matching_lines(ls, needle).len() ==> contains(
                lowercase(#[trigger] matching_lines(ls, needle)[i]),
                needle,
            ),
    decreases ls.len(),
{
    if ls.len() > 0 {
        lemma_search_matches(ls.drop_last(), needle);
        let m = matching_lines(ls.drop_last(), needle);
        assert forall|i: int| 0 <= i < matching_lines(ls, needle).len() implies contains(
            lowercase(#[trigger] matching_lines(ls, needle)[i]),
            needle,
        ) by {
            if i < m.len() {
                assert(matching_lines(ls, needle)[i] == m[i]);
            }
        }
    }
}

/// With a configuration directory `dir` such as `~/.config`, the settings
/// live in `dir/audio-selector/config.json` (the names in UTF-8).
pub proof fn lemma_config_file_location(dir: Seq<u8>, home: Option<Seq<u8>>)
    requires
        dir.len() > 0,
        dir.last() != 47u8,
    ensures
        os_path_join(config_dir_of(Some(dir), home), encode_utf8("config.json"@)) == dir.push(47u8)
            + encode_utf8("audio-selector"@) + seq![47u8] + encode_utf8("config.json"@),
{
    reveal_strlit("audio-selector");
    let chars = "audio-selector"@;
    assert(is_ascii_chars(chars));
    is_ascii_chars_encode_utf8(chars);
    let name = encode_utf8(chars);
    assert(chars[13] as u8 == name[13]);
    let a = dir.push(47u8) + name;
    assert(a.last() == name[13]);
    assert(a.push(47u8) + encode_utf8("config.json"@) =~= dir.push(47u8) + name + seq![47u8]
        + encode_utf8("config.json"@));
}

/// Every device read from `bluetoothctl devices` is a paired entry, named
/// `bluez_connect.<MAC>`, without volume.
pub proof fn lemma_bt_devices_are_paired_entries(ls: Seq<Seq<char>>)
    ensures
        forall|i: int|
            0 <= i < bt_devices(ls).len() ==> starts_with(
                (#[trigger] bt_devices(ls)[i]).name,
                connect_prefix(),
            ) && bt_devices(ls)[i].volume is None,
    decreases ls.len(),
{
    if ls.len() > 0 {
        lemma_bt_devices_are_paired_entries(ls.drop_last());
        let d = bt_devices(ls.drop_last());
        assert forall|i: int| 0 <= i < bt_devices(ls).len() implies starts_with(
            (#[trigger] bt_devices(ls)[i]).name,
            connect_prefix(),
        ) && bt_devices(ls)[i].volume is None by {
            if i < d.len() {
                assert(bt_devices(ls)[i] == d[i]);
            } else {
                let ws = words(ls.last());
                let n = connect_prefix() + ws[1];
                assert(n.subrange(0, connect_prefix().len() as int) =~= connect_prefix());
            }
        }
    }
}


/// In unified mode, the input device recorded with an output device is one
/// of the scanned sources, and its name contains the base derived from the
/// output device's name.
pub proof fn lemma_unified_source(sources: Seq<DeviceView>, sink: Seq<char>)
    ensures
        first_match(sources, source_base(sink)) matches Some(n) ==> contains(n, source_base(sink))
            && exists|i: int| 0 <= i < sources.len() && #[trigger] sources[i].name == n,
{
    lemma_first_match_sound(sources, source_base(sink));
}

/// With Bluetooth off, no list holds a paired entry or a Bluetooth endpoint
/// of the sound server.
pub proof fn lemma_bluetooth_off(s: Seq<DeviceView>, source: bool)
    ensures
        forall|i: int|
            0 <= i < bluetooth_kept(false, source, s).len() ==> {
                let n = (#[trigger] bluetooth_kept(false, source, s)[i]).name;
                &&& !contains(n, connect_prefix())
                &&& source ==> !contains(n, "bluez_source"@) && !contains(n, "bluez_input"@)
                &&& !source ==> !contains(n, "bluez_sink"@)
            },
{
    let p = |d: DeviceView| kept_with_bluetooth(false, source, d.name);
    lemma_keep_sound(s, p);
    assert(bluetooth_kept(false, source, s) == keep(s, p));
    assert forall|i: int| 0 <= i < keep(s, p).len() implies {
        let n = (#[trigger] keep(s, p)[i]).name;
        &&& !contains(n, connect_prefix())
        &&& source ==> !contains(n, "bluez_source"@) && !contains(n, "bluez_input"@)
        &&& !source ==> !contains(n, "bluez_sink"@)
    } by {
        assert(p(keep(s, p)[i]));
    }
}

/// Whether `a` and `b` are the same character once the case of ASCII
/// letters is disregarded.
pub open spec fn same_letter(a: char, b: char) -> bool {
    ||| a == b
    ||| 'A' <= a <= 'Z' && (b as u32) == (a as u32) + 32
    ||| 'A' <= b <= 'Z' && (a as u32) == (b as u32) + 32
}

/// Whether `n` occurs in `h` at position `p` when the case of ASCII letters
/// is disregarded.
pub open spec fn occurs_ignoring_case(h: Seq<char>, n: Seq<char>, p: int) -> bool {
    &&& 0 <= p
    &&& p + n.len() <= h.len()
    &&& forall|j: int| 0 <= j < n.len() ==> same_letter(#[trigger] h[p + j], n[j])
}

/// Two characters that are the same letter in either case have the same
/// small form.
proof fn lemma_same_letter_lower(a: char, b: char)
    requires
        same_letter(a, b),
    ensures
        ascii_lower(a) == ascii_lower(b),
{
}

/// A match that disregards case is an exact match of the small forms.
proof fn lemma_occurs_lowercase(h: Seq<char>, n: Seq<char>, p: int)
    requires
        occurs_ignoring_case(h, n, p),
    ensures
        occurs_at(ascii_lowercase(h), ascii_lowercase(n), p),
{
    assert forall|j: int| 0 <= j < n.len() implies ascii_lowercase(h).subrange(p, p + n.len())[j]
        == ascii_lowercase(n)[j] by {
        lemma_same_letter_lower(h[p + j], n[j]);
    }
    assert(ascii_lowercase(h).subrange(p, p + n.len()) =~= ascii_lowercase(n));
}

/// Replacing in an ASCII text by an ASCII text gives an ASCII text.
proof fn lemma_replace_ascii(s: Seq<char>, p: Seq<char>, r: Seq<char>)
    requires
        is_ascii_chars(s),
        is_ascii_chars(r),
    ensures
        is_ascii_chars(replace(s, p, r)),
    decreases s.len(),
{
    if p.len() == 0 || s.len() < p.len() {
    } else if s.take(p.len() as int) == p {
        lemma_replace_ascii(s.skip(p.len() as int), p, r);
        let t = replace(s.skip(p.len() as int), p, r);
        assert forall|i: int| 0 <= i < (r + t).len() implies '\0' <= #[trigger] (r + t)[i] <= '\u{7f}' by {
            if i < r.len() {
                assert((r + t)[i] == r[i]);
            } else {
                assert((r + t)[i] == t[i - r.len()]);
            }
        }
    } else {
        lemma_replace_ascii(s.skip(1), p, r);
        let t = replace(s.skip(1), p, r);
        assert forall|i: int| 0 <= i < (seq![s[0]] + t).len() implies '\0' <= #[trigger] (seq![s[0]]
            + t)[i] <= '\u{7f}' by {
            if i == 0 {
                assert((seq![s[0]] + t)[i] == s[0]);
            } else {
                assert((seq![s[0]] + t)[i] == t[i - 1]);
            }
        }
    }
}

/// A scan lists a connected Bluetooth device once: a paired device whose
/// MAC address (with `_` for `:`) occurs, in any letter case, in the name of
/// a device the sound server found adds nothing to the scan.
pub proof fn lemma_found_bluetooth_device_listed_once(
    found: Seq<DeviceView>,
    bt: Seq<DeviceView>,
    b: DeviceView,
    i: int,
    p: int,
)
    requires
        0 <= i < found.len(),
        is_ascii_chars(found[i].name),
        is_ascii_chars(b.name),
        occurs_ignoring_case(
            found[i].name,
            replace(replace(b.name, connect_prefix(), ""@), ":"@, "_"@),
            p,
        ),
    ensures
        merged(found, bt.push(b)) == merged(found, bt),
{
    reveal_strlit("");
    reveal_strlit("_");
    let k1 = replace(b.name, connect_prefix(), ""@);
    let key = replace(k1, ":"@, "_"@);
    lemma_replace_ascii(b.name, connect_prefix(), ""@);
    lemma_replace_ascii(k1, ":"@, "_"@);
    assert(bt_key(b.name) == ascii_lowercase(key));
    assert(lowercase(found[i].name) == ascii_lowercase(found[i].name));
    lemma_occurs_lowercase(found[i].name, key, p);
    lemma_merge_keeps_found(found, bt);
    let r = merged(found, bt);
    assert(r[i] == r.take(found.len() as int)[i]);
    assert(r[i] == found[i]);
    assert(contains(lowercase(r[i].name), bt_key(b.name)));
    assert(covered(r, b));
    assert(bt.push(b).drop_last() =~= bt);
}

/// A log search finds a line that holds the search text in any letter case
/// (both in ASCII): the line is among the matching lines.
pub proof fn lemma_search_ignores_case(ls: Seq<Seq<char>>, search: Seq<char>, k: int, p: int)
    requires
        0 <= k < ls.len(),
        is_ascii_chars(ls[k]),
        is_ascii_chars(search),
        occurs_ignoring_case(ls[k], search, p),
    ensures
        matching_lines(ls, lowercase(search)).contains(ls[k]),
    decreases ls.len(),
{
    let needle = lowercase(search);
    let m = matching_lines(ls.drop_last(), needle);
    if k == ls.len() - 1 {
        lemma_occurs_lowercase(ls[k], search, p);
        assert(contains(lowercase(ls.last()), needle));
        assert(matching_lines(ls, needle) == m.push(ls.last()));
        assert(m.push(ls.last())[m.len() as int] == ls[k]);
    } else {
        assert(ls.drop_last()[k] == ls[k]);
        lemma_search_ignores_case(ls.drop_last(), search, k, p);
        let j = choose|j: int| 0 <= j < m.len() && m[j] == ls[k];
        if contains(lowercase(ls.last()), needle) {
            assert(m.push(ls.last())[j] == ls[k]);
        }
    }
}

} // verus!
