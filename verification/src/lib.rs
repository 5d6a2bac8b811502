//! Core of a terminal network-load monitor.
//!
//! The library turns raw, cumulative per-device byte counters into
//! instantaneous throughput figures, folds those into rolling-window
//! statistics, and rasterizes the recent history into a fixed-size
//! character grid for a presentation layer to display.  It performs no
//! I/O of its own: a collector hands it timestamped counter snapshots,
//! and it hands back numbers, strings and grids.

use vstd::prelude::*;

pub mod format;
pub mod graph;
pub mod sample;
pub mod stats;
pub mod window;

use crate::sample::RawSample;
use crate::stats::{spec_engine_update, spec_new_engine_model, StatisticsEngine};

verus! {

/// The identity of one network device: its name and zero or more
/// address strings, supplied once by the collector at startup and
/// immutable for the lifetime of a view.
pub struct DeviceInfo {
    /// The interface name.
    pub name: String,
    /// Human-readable addresses of the interface.
    pub addrs: Vec<String>,
}

/// One device's view state: its identity plus the statistics engine
/// that folds its traffic samples.
pub struct DeviceView {
    /// The device's identity.
    pub info: DeviceInfo,
    /// The per-device statistics engine.
    pub engine: StatisticsEngine,
}

/// Whether `needle` occurs as a contiguous substring of `hay`.
pub open spec fn spec_contains(hay: Seq<char>, needle: Seq<char>) -> bool {
    exists|i: int|
        0 <= i <= hay.len() - needle.len() && #[trigger] hay.subrange(i, i + needle.len() as int)
            == needle
}

/// Relies on str::contains: returns true exactly when the pattern
/// occurs as a substring of the haystack.
#[verifier::external_body]
fn str_contains(hay: &str, needle: &str) -> (r: bool)
    ensures
        r == spec_contains(hay@, needle@),
{
    hay.contains(needle)
}

/// The lowercase form of a string, as str::to_lowercase computes it.
pub uninterp spec fn lower_of(s: Seq<char>) -> Seq<char>;

/// Relies on str::to_lowercase: the result depends on the characters
/// alone.
#[verifier::external_body]
fn to_lowercase(s: &str) -> (r: String)
    ensures
        r@ == lower_of(s@),
{
    s.to_lowercase()
}

/// Whether a device name matches a user-supplied filter: the
/// lowercase form of the name contains the lowercase form of the
/// filter (case-insensitive partial match).
pub open spec fn spec_name_matches(name: Seq<char>, filter: Seq<char>) -> bool {
    spec_contains(lower_of(name), lower_of(filter))
}

/// The first sample in the batch recorded for the given device name,
/// if any.
pub open spec fn spec_lookup(samples: Seq<(String, RawSample)>, name: Seq<char>) -> Option<
    RawSample,
>
    decreases samples.len(),
{
    if samples.len() == 0 {
        None
    } else if samples[0].0@ == name {
        Some(samples[0].1)
    } else {
        spec_lookup(samples.drop_first(), name)
    }
}

/// Finds the batch entry for one device name.
fn lookup(samples: &Vec<(String, RawSample)>, name: &String) -> (r: Option<RawSample>)
    ensures
        r == spec_lookup(samples@, name@),
{
    let n = samples.len();
    let mut k: usize = 0;
    proof {
        assert(samples@.skip(0) =~= samples@);
    }
    while k < n
        invariant
            n == samples@.len(),
            k <= n,
            spec_lookup(samples@, name@) == spec_lookup(samples@.skip(k as int), name@),
        decreases n - k,
    {
        proof {
            assert(samples@.skip(k as int)[0] == samples@[k as int]);
            assert(samples@.skip(k as int).drop_first() =~= samples@.skip(k as int + 1));
        }
        if samples[k].0 == *name {
            return Some(samples[k].1);
        }
        k += 1;
    }
    proof {
        assert(samples@.skip(n as int).len() == 0);
    }
    None
}

/// The whole application state: one view per discovered device and
/// the index of the currently displayed one.
pub struct App {
    /// One view per device, in discovery order.
    pub views: Vec<DeviceView>,
    /// Index of the device being displayed.
    pub current_idx: usize,
}

impl App {
    /// Well-formedness: every engine is coherent, and the selection is
    /// in bounds whenever there are devices at all.
    pub open spec fn wf(&self) -> bool {
        &&& forall|i: int|
            0 <= i < self.views@.len() ==> (#[trigger] self.views@[i]).engine.wf()
        &&& self.views@.len() > 0 ==> self.current_idx < self.views@.len()
        &&& self.views@.len() == 0 ==> self.current_idx == 0
    }

    /// Builds the application state for the discovered devices: one
    /// view per device, each with a fresh statistics engine for the
    /// given configuration, and the starting selection resolved from
    /// the optional device-name filter — the first case-insensitive
    /// partial match, or the first device when nothing matches or no
    /// filter was given.
    pub fn new(
        interval_ms: u64,
        average_secs: u64,
        device_filter: &Option<String>,
        devices: Vec<DeviceInfo>,
    ) -> (r: App)
        requires
            interval_ms > 0,
        ensures
            r.wf(),
            r.views@.len() == devices@.len(),
            forall|i: int|
                0 <= i < devices@.len() ==> (#[trigger] r.views@[i]).info == devices@[i],
            forall|i: int|
                0 <= i < devices@.len() ==> (#[trigger] r.views@[i]).engine.model()
                    == spec_new_engine_model(interval_ms, average_secs),
            (match device_filter {
                Some(f) => {
                    if exists|i: int|
                        0 <= i < devices@.len() && #[trigger] spec_name_matches(
                            devices@[i].name@,
                            f@,
                        ) {
                        &&& r.current_idx < devices@.len()
                        &&& spec_name_matches(devices@[r.current_idx as int].name@, f@)
                        &&& forall|i: int|
                            0 <= i < r.current_idx ==> !spec_name_matches(
                                devices@[i].name@,
                                f@,
                            )
                    } else {
                        r.current_idx == 0
                    }
                },
                None => r.current_idx == 0,
            }),
    {
        let mut views: Vec<DeviceView> = Vec::new();
        let n = devices.len();
        let ghost devs = devices@;
        let mut devices = devices;
        let mut i: usize = 0;
        while i < n
            invariant
                interval_ms > 0,
                n == devs.len(),
                devices@ == devs.skip(i as int),
                i <= n,
                views@.len() == i,
                forall|a: int| 0 <= a < i ==> (#[trigger] views@[a]).info == devs[a],
                forall|a: int|
                    0 <= a < i ==> (#[trigger] views@[a]).engine.model()
                        == spec_new_engine_model(interval_ms, average_secs),
                forall|a: int| 0 <= a < i ==> (#[trigger] views@[a]).engine.wf(),
            decreases n - i,
        {
            proof {
                assert(devices@[0] == devs[i as int]);
                assert(devices@.drop_first() =~= devs.skip(i as int + 1));
            }
            let info = devices.remove(0);
            let engine = StatisticsEngine::new(interval_ms, average_secs);
            views.push(DeviceView { info, engine });
            i += 1;
        }
        let mut current_idx: usize = 0;
        match device_filter {
            None => {},
            Some(name) => {
                let lower = to_lowercase(name.as_str());
                let mut j: usize = 0;
                let mut found = false;
                while j < n && !found
                    invariant
                        n == devs.len(),
                        views@.len() == n,
                        j <= n,
                        forall|a: int| 0 <= a < n ==> (#[trigger] views@[a]).info == devs[a],
                        lower@ == lower_of(name@),
                        !found ==> current_idx == 0,
                        !found ==> forall|a: int|
                            0 <= a < j ==> !spec_name_matches(devs[a].name@, name@),
                        found ==> {
                            &&& current_idx < n
                            &&& j == current_idx + 1
                            &&& spec_name_matches(devs[current_idx as int].name@, name@)
                            &&& forall|a: int|
                                0 <= a < current_idx ==> !spec_name_matches(
                                    devs[a].name@,
                                    name@,
                                )
                        },
                    decreases n - j,
                {
                    let lname = to_lowercase(views[j].info.name.as_str());
                    if str_contains(lname.as_str(), lower.as_str()) {
                        current_idx = j;
                        found = true;
                    }
                    j += 1;
                }
            },
        }
        App { views, current_idx }
    }

    /// The view for the currently displayed device, if any.
    pub fn current_view(&self) -> (r: Option<&DeviceView>)
        ensures
            match r {
                Some(v) => self.current_idx < self.views@.len() && *v == self.views@[self.current_idx as int],
                None => self.current_idx >= self.views@.len(),
            },
    {
        if self.current_idx < self.views.len() {
            Some(&self.views[self.current_idx])
        } else {
            None
        }
    }

    /// Folds one tick's batch of raw samples into the per-device
    /// engines.  A device absent from the batch is left unchanged for
    /// this tick, not reset; identities and the selection are
    /// untouched.
    pub fn update(&mut self, samples: &Vec<(String, RawSample)>)
        requires
            old(self).wf(),
        ensures
            final(self).wf(),
            final(self).current_idx == old(self).current_idx,
            final(self).views@.len() == old(self).views@.len(),
            forall|i: int|
                0 <= i < old(self).views@.len() ==> (#[trigger] final(self).views@[i]).info
                    == old(self).views@[i].info,
            forall|i: int|
                0 <= i < old(self).views@.len() ==> (#[trigger] final(self).views@[i]).engine.model()
                    == (match spec_lookup(samples@, old(self).views@[i].info.name@) {
                    Some(s) => spec_engine_update(old(self).views@[i].engine.model(), s),
                    None => old(self).views@[i].engine.model(),
                }),
    {
        let n = self.views.len();
        let mut i: usize = 0;
        while i < n
            invariant
                n == self.views@.len(),
                n == old(self).views@.len(),
                i <= n,
                self.current_idx == old(self).current_idx,
                forall|a: int|
                    0 <= a < n ==> (#[trigger] self.views@[a]).info == old(self).views@[a].info,
                forall|a: int| 0 <= a < n ==> (#[trigger] self.views@[a]).engine.wf(),
                forall|a: int|
                    0 <= a < i ==> (#[trigger] self.views@[a]).engine.model() == (
                    match spec_lookup(samples@, old(self).views@[a].info.name@) {
                        Some(s) => spec_engine_update(old(self).views@[a].engine.model(), s),
                        None => old(self).views@[a].engine.model(),
                    }),
                forall|a: int|
                    i <= a < n ==> (#[trigger] self.views@[a]).engine.model() == old(
                        self,
                    ).views@[a].engine.model(),
            decreases n - i,
        {
            let found = lookup(samples, &self.views[i].info.name);
            if let Some(s) = found {
                self.views[i].engine.update(s);
            }
            i += 1;
        }
    }

    /// Moves the selection to the next device, wrapping past the end.
    pub fn next_device(&mut self)
        requires
            old(self).wf(),
        ensures
            final(self).wf(),
            final(self).views == old(self).views,
            old(self).views@.len() == 0 ==> final(self).current_idx == old(self).current_idx,
            old(self).views@.len() > 0 ==> final(self).current_idx == (old(self).current_idx + 1)
                % (old(self).views@.len() as int),
    {
        if self.views.len() > 0 {
            self.current_idx = (self.current_idx + 1) % self.views.len();
        }
    }

    /// Moves the selection to the previous device, wrapping past the
    /// start.
    pub fn prev_device(&mut self)
        requires
            old(self).wf(),
        ensures
            final(self).wf(),
            final(self).views == old(self).views,
            old(self).views@.len() == 0 ==> final(self).current_idx == old(self).current_idx,
            old(self).views@.len() > 0 ==> final(self).current_idx == (old(self).current_idx
                + old(self).views@.len() - 1) % (old(self).views@.len() as int),
    {
        let n = self.views.len();
        if n > 0 {
            let next = if self.current_idx == 0 {
                n - 1
            } else {
                self.current_idx - 1
            };
            proof {
                vstd::arithmetic::div_mod::lemma_mod_multiples_vanish(1, next as int, n as int);
                vstd::arithmetic::div_mod::lemma_small_mod(next as nat, n as nat);
            }
            self.current_idx = next;
        }
    }
}

} // verus!
