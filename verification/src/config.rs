//! The persisted settings of the selector, and the device lists it keeps
//! between runs.

use vstd::prelude::*;
use crate::audio::{devices, DeviceView, PactlDevice};
use crate::text::{
    concat, copy_string, decimal, decimal_chars, opt_text,
    same_text, strings, to_chars, to_string,
};

verus! {

broadcast use vstd::string::group_string_axioms;

/// A device remembered from the last scan, shown at start-up before a new
/// scan completes.
#[derive(Debug, Clone)]
pub struct CachedDevice {
    pub name: String,
    pub description: String,
    pub volume_percent: i32,
}

/// The model of a [`CachedDevice`].
pub struct CachedView {
    pub name: Seq<char>,
    pub description: Seq<char>,
    pub volume_percent: int,
}

impl View for CachedDevice {
    type V = CachedView;

    open spec fn view(&self) -> CachedView {
        CachedView {
            name: self.name@,
            description: self.description@,
            volume_percent: self.volume_percent as int,
        }
    }
}

impl Default for CachedDevice {
    fn default() -> (d: CachedDevice)
        ensures
            d@ == (CachedView { name: seq![], description: seq![], volume_percent: 0 }),
    {
        CachedDevice { name: String::new(), description: String::new(), volume_percent: 0 }
    }
}

/// The views of cached devices.
pub open spec fn cached(v: Seq<CachedDevice>) -> Seq<CachedView> {
    v.map_values(|d: CachedDevice| d@)
}

/// The settings: the modes the user chose, the devices last selected, the
/// window geometry in pixels, the devices the user hides, and the device
/// lists of the last scan.
#[derive(Debug, Clone)]
pub struct Config {
    pub unified_mode: bool,
    pub bluetooth_enabled: bool,
    pub last_sink: Option<String>,
    pub last_source: Option<String>,
    pub window_width: Option<u32>,
    pub window_height: Option<u32>,
    pub window_x: Option<i32>,
    pub window_y: Option<i32>,
    pub filter_enabled: bool,
    pub excluded_devices: Vec<String>,
    pub hide_unknown_bt: bool,
    pub cached_sinks: Vec<CachedDevice>,
    pub cached_sources: Vec<CachedDevice>,
}

/// The model of a [`Config`].
pub struct ConfigView {
    pub unified_mode: bool,
    pub bluetooth_enabled: bool,
    pub last_sink: Option<Seq<char>>,
    pub last_source: Option<Seq<char>>,
    pub window_width: Option<u32>,
    pub window_height: Option<u32>,
    pub window_x: Option<i32>,
    pub window_y: Option<i32>,
    pub filter_enabled: bool,
    pub excluded_devices: Seq<Seq<char>>,
    pub hide_unknown_bt: bool,
    pub cached_sinks: Seq<CachedView>,
    pub cached_sources: Seq<CachedView>,
}

impl View for Config {
    type V = ConfigView;

    open spec fn view(&self) -> ConfigView {
        ConfigView {
            unified_mode: self.unified_mode,
            bluetooth_enabled: self.bluetooth_enabled,
            last_sink: opt_text(self.last_sink),
            last_source: opt_text(self.last_source),
            window_width: self.window_width,
            window_height: self.window_height,
            window_x: self.window_x,
            window_y: self.window_y,
            filter_enabled: self.filter_enabled,
            excluded_devices: strings(self.excluded_devices@),
            hide_unknown_bt: self.hide_unknown_bt,
            cached_sinks: cached(self.cached_sinks@),
            cached_sources: cached(self.cached_sources@),
        }
    }
}

/// Settings with every option off and nothing remembered.
pub open spec fn blank_config() -> ConfigView {
    ConfigView {
        unified_mode: false,
        bluetooth_enabled: false,
        last_sink: None,
        last_source: None,
        window_width: None,
        window_height: None,
        window_x: None,
        window_y: None,
        filter_enabled: false,
        excluded_devices: seq![],
        hide_unknown_bt: false,
        cached_sinks: seq![],
        cached_sources: seq![],
    }
}

/// The settings of a first run: blank, but with one device for input and
/// output.
pub open spec fn initial_config() -> ConfigView {
    ConfigView { unified_mode: true, ..blank_config() }
}

impl Default for Config {
    fn default() -> (c: Config)
        ensures
            c@ == blank_config(),
    {
        let c = Config {
            unified_mode: false,
            bluetooth_enabled: false,
            last_sink: None,
            last_source: None,
            window_width: None,
            window_height: None,
            window_x: None,
            window_y: None,
            filter_enabled: false,
            excluded_devices: Vec::new(),
            hide_unknown_bt: false,
            cached_sinks: Vec::new(),
            cached_sources: Vec::new(),
        };
        proof {
            assert(strings(c.excluded_devices@) =~= seq![]);
            assert(cached(c.cached_sinks@) =~= seq![]);
            assert(cached(c.cached_sources@) =~= seq![]);
        }
        c
    }
}

/// The settings to start with: the stored ones when they could be read,
/// else those of a first run.
pub fn load_config(stored: Option<Config>) -> (c: Config)
    ensures
        c@ == match stored {
            Some(s) => s@,
            None => initial_config(),
        },
{
    match stored {
        Some(s) => s,
        None => {
            let mut c = Config::default();
            c.unified_mode = true;
            c
        },
    }
}

/// Whether `x` is one of `v`.
pub open spec fn has_text(v: Seq<Seq<char>>, x: Seq<char>) -> bool {
    exists|i: int| 0 <= i < v.len() && v[i] == x
}

/// `v` without the entries equal to `x`.
pub open spec fn without(v: Seq<Seq<char>>, x: Seq<char>) -> Seq<Seq<char>>
    decreases v.len(),
{
    if v.len() == 0 {
        seq![]
    } else {
        let w = without(v.drop_last(), x);
        if v.last() == x {
            w
        } else {
            w.push(v.last())
        }
    }
}

/// The excluded devices after the user marks `name` as hidden (`exclude`)
/// or shown: hiding appends it unless it is there already; showing removes
/// every entry of it.
pub open spec fn toggled(v: Seq<Seq<char>>, name: Seq<char>, exclude: bool) -> Seq<Seq<char>> {
    if exclude {
        if has_text(v, name) {
            v
        } else {
            v.push(name)
        }
    } else {
        without(v, name)
    }
}

/// Whether `x` is one of the strings of `v`.
pub fn contains_text(v: &Vec<String>, x: &str) -> (b: bool)
    ensures
        b == has_text(strings(v@), x@),
{
    let mut i: usize = 0;
    while i < v.len()
        invariant
            i <= v.len(),
            forall|j: int| 0 <= j < i ==> strings(v@)[j] != x@,
        decreases v.len() - i,
    {
        if same_text(v[i].as_str(), x) {
            proof {
                assert(strings(v@)[i as int] == x@);
            }
            return true;
        }
        i = i + 1;
    }
    false
}

impl Config {
    /// Marks the device `name` as hidden (`exclude`) or shown; the other
    /// settings stay as they are.
    pub fn toggle_device_exclusion(&mut self, name: &str, exclude: bool)
        ensures
            final(self)@ == (ConfigView {
                excluded_devices: toggled(old(self)@.excluded_devices, name@, exclude),
                ..old(self)@
            }),
    {
        if exclude {
            if !contains_text(&self.excluded_devices, name) {
                let ghost v0 = strings(self.excluded_devices@);
                self.excluded_devices.push(name.to_owned());
                proof {
                    assert(strings(self.excluded_devices@) =~= v0.push(name@));
                }
            }
        } else {
            let mut kept: Vec<String> = Vec::new();
            let ghost v = strings(self.excluded_devices@);
            let mut i: usize = 0;
            while i < self.excluded_devices.len()
                invariant
                    i <= self.excluded_devices.len(),
                    v == strings(self.excluded_devices@),
                    strings(kept@) == without(v.take(i as int), name@),
                decreases self.excluded_devices.len() - i,
            {
                proof {
                    assert(v.take(i + 1).drop_last() =~= v.take(i as int));
                }
                if !same_text(self.excluded_devices[i].as_str(), name) {
                    let c = copy_string(&self.excluded_devices[i]);
                    let ghost k0 = strings(kept@);
                    kept.push(c);
                    proof {
                        assert(strings(kept@) =~= k0.push(c@));
                    }
                }
                i = i + 1;
            }
            proof {
                assert(v.take(v.len() as int) =~= v);
            }
            self.excluded_devices = kept;
        }
    }
}

/// The cached form of scanned sinks, with the volume read for each.
pub open spec fn cache_of(ds: Seq<DeviceView>, volumes: Seq<i32>) -> Seq<CachedView> {
    Seq::new(
        ds.len(),
        |i: int|
            CachedView {
                name: ds[i].name,
                description: ds[i].description,
                volume_percent: volumes[i] as int,
            },
    )
}

/// The cached form of scanned devices, each with the volume at the same
/// position of `volumes` (sources are cached with volume zero).
pub fn cache_devices(ds: &Vec<PactlDevice>, volumes: &Vec<i32>) -> (r: Vec<CachedDevice>)
    requires
        ds.len() == volumes.len(),
    ensures
        cached(r@) == cache_of(devices(ds@), volumes@),
{
    let mut r: Vec<CachedDevice> = Vec::new();
    let mut i: usize = 0;
    while i < ds.len()
        invariant
            i <= ds.len(),
            ds.len() == volumes.len(),
            cached(r@) == cache_of(devices(ds@), volumes@).take(i as int),
        decreases ds.len() - i,
    {
        let c = CachedDevice {
            name: copy_string(&ds[i].name),
            description: copy_string(&ds[i].description),
            volume_percent: volumes[i],
        };
        let ghost r0 = cached(r@);
        r.push(c);
        proof {
            assert(cached(r@) =~= r0.push(c@));
            assert(cached(r@) =~= cache_of(devices(ds@), volumes@).take(i + 1));
        }
        i = i + 1;
    }
    proof {
        assert(cache_of(devices(ds@), volumes@).take(ds.len() as int) =~= cache_of(
            devices(ds@),
            volumes@,
        ));
    }
    r
}

/// The device a cached entry stands for: a sink keeps its volume, as a
/// single channel reading `<volume>%`; a source has none.
pub open spec fn from_cache(c: CachedView, sink: bool) -> DeviceView {
    DeviceView {
        name: c.name,
        description: c.description,
        volume: if sink {
            Some(seq![Some(decimal(c.volume_percent) + "%"@)])
        } else {
            None
        },
    }
}

/// The devices cached entries stand for.
pub fn devices_from_cache(cs: &Vec<CachedDevice>, sink: bool) -> (r: Vec<PactlDevice>)
    ensures
        r.len() == cs.len(),
        forall|i: int| 0 <= i < cs.len() ==> #[trigger] r@[i]@ == from_cache(cs@[i]@, sink),
{
    let mut r: Vec<PactlDevice> = Vec::new();
    let mut i: usize = 0;
    while i < cs.len()
        invariant
            i <= cs.len(),
            r.len() == i,
            forall|j: int| 0 <= j < i ==> #[trigger] r@[j]@ == from_cache(cs@[j]@, sink),
        decreases cs.len() - i,
    {
        let c = &cs[i];
        let volume = if sink {
            let pct = to_string(&concat(&decimal_chars(c.volume_percent), &to_chars("%")));
            let mut chs: Vec<Option<String>> = Vec::new();
            chs.push(Some(pct));
            proof {
                assert(crate::audio::opt_texts(chs@) =~= seq![
                    Some(decimal(c.volume_percent as int) + "%"@),
                ]);
            }
            Some(chs)
        } else {
            None
        };
        let d = PactlDevice {
            name: copy_string(&c.name),
            description: copy_string(&c.description),
            volume,
        };
        r.push(d);
        i = i + 1;
    }
    r
}

} // verus!
