//! StatsCollector: bounded hashrate time-series and share counters.
//!
//! Hashrates are whole hashes per second, temperatures millidegrees
//! Celsius, power milliwatts. Each device's hashrate history is a bounded
//! FIFO: when full, the oldest sample is evicted first.

use vstd::prelude::*;
use crate::encoding::str_eq;

verus! {

/// The cap on each device's hashrate history.
pub const HISTORY_CAP: usize = 1440;

/// One timestamped hashrate sample.
#[derive(Clone, Copy, PartialEq, Eq, Structural)]
pub struct HashratePoint {
    /// Milliseconds since the Unix epoch.
    pub timestamp: i64,
    pub hashrate: u64,
}

/// Per-device counters and gauges.
#[derive(Clone, Copy, PartialEq, Eq, Structural)]
pub struct DeviceStats {
    pub hashrate: u64,
    pub shares_accepted: u64,
    pub shares_rejected: u64,
    /// Millidegrees Celsius.
    pub temperature: u32,
    /// Milliwatts.
    pub power_usage: u32,
    /// Seconds.
    pub uptime: u64,
}

/// The all-zero statistics a device starts with.
pub open spec fn default_stats() -> DeviceStats {
    DeviceStats {
        hashrate: 0,
        shares_accepted: 0,
        shares_rejected: 0,
        temperature: 0,
        power_usage: 0,
        uptime: 0,
    }
}

impl Default for DeviceStats {
    fn default() -> (r: Self)
        ensures
            r == default_stats(),
    {
        DeviceStats {
            hashrate: 0,
            shares_accepted: 0,
            shares_rejected: 0,
            temperature: 0,
            power_usage: 0,
            uptime: 0,
        }
    }
}

/// Process-wide counters.
#[derive(Clone, Copy, PartialEq, Eq, Structural)]
pub struct GlobalStats {
    pub total_shares: u64,
    pub accepted_shares: u64,
    pub rejected_shares: u64,
    /// Milliseconds since the Unix epoch.
    pub start_time: i64,
    pub pending_rewards: u64,
}

impl GlobalStats {
    /// Zero counters, with the start time stamped now.
    pub fn new() -> (r: Self)
        ensures
            r.total_shares == 0,
            r.accepted_shares == 0,
            r.rejected_shares == 0,
            r.pending_rewards == 0,
    {
        GlobalStats {
            total_shares: 0,
            accepted_shares: 0,
            rejected_shares: 0,
            start_time: crate::clock::now_millis(),
            pending_rewards: 0,
        }
    }
}

/// One device's slot in the collector.
pub struct CollectorEntry {
    pub device_id: String,
    pub stats: DeviceStats,
    pub history: Vec<HashratePoint>,
}

/// Ghost image of a collector entry.
#[verifier::ext_equal]
pub struct EntryView {
    pub device_id: Seq<char>,
    pub stats: DeviceStats,
    pub history: Seq<HashratePoint>,
}

impl View for CollectorEntry {
    type V = EntryView;

    open spec fn view(&self) -> EntryView {
        EntryView { device_id: self.device_id@, stats: self.stats, history: self.history@ }
    }
}

/// Ghost image of the whole collector.
#[verifier::ext_equal]
pub struct CollectorView {
    pub entries: Seq<EntryView>,
    pub global: GlobalStats,
}

pub open spec fn has_entry(entries: Seq<EntryView>, id: Seq<char>) -> bool {
    exists|i: int| 0 <= i < entries.len() && entries[i].device_id == id
}

/// The index of the entry for `id`; meaningful when `has_entry` holds and
/// ids are unique.
pub open spec fn entry_index(entries: Seq<EntryView>, id: Seq<char>) -> int {
    choose|i: int| 0 <= i < entries.len() && entries[i].device_id == id
}

/// A history after appending one sample: the oldest sample is evicted first
/// when the cap would be exceeded.
pub open spec fn push_bounded(history: Seq<HashratePoint>, point: HashratePoint) -> Seq<HashratePoint> {
    let grown = history.push(point);
    if grown.len() > HISTORY_CAP { grown.drop_first() } else { grown }
}

/// The entry table after recording a hashrate sample for `id` at time `ts`:
/// the sample is appended to that device's bounded history and its gauge is
/// set; an unknown device gets a fresh entry.
pub open spec fn spec_record_hashrate(entries: Seq<EntryView>, id: Seq<char>, hashrate: u64, ts: i64) -> Seq<EntryView> {
    let point = HashratePoint { timestamp: ts, hashrate };
    if has_entry(entries, id) {
        let i = entry_index(entries, id);
        let e = entries[i];
        entries.update(i, EntryView {
            stats: DeviceStats { hashrate, ..e.stats },
            history: push_bounded(e.history, point),
            ..e
        })
    } else {
        entries.push(EntryView {
            device_id: id,
            stats: DeviceStats { hashrate, ..default_stats() },
            history: seq![point],
        })
    }
}

/// One device's counters after recording a share.
pub open spec fn bump_stats(stats: DeviceStats, accepted: bool) -> DeviceStats {
    if accepted {
        DeviceStats { shares_accepted: (stats.shares_accepted + 1) as u64, ..stats }
    } else {
        DeviceStats { shares_rejected: (stats.shares_rejected + 1) as u64, ..stats }
    }
}

/// The entry table after recording a share for `id`: that device's counter
/// is incremented; an unknown device gets a fresh entry.
pub open spec fn spec_record_share(entries: Seq<EntryView>, id: Seq<char>, accepted: bool) -> Seq<EntryView> {
    if has_entry(entries, id) {
        let i = entry_index(entries, id);
        let e = entries[i];
        entries.update(i, EntryView { stats: bump_stats(e.stats, accepted), ..e })
    } else {
        entries.push(EntryView {
            device_id: id,
            stats: bump_stats(default_stats(), accepted),
            history: Seq::empty(),
        })
    }
}

/// The entry table after setting one device's temperature gauge; an
/// unknown device gets a fresh entry.
pub open spec fn spec_set_temperature(entries: Seq<EntryView>, id: Seq<char>, temperature: u32) -> Seq<EntryView> {
    if has_entry(entries, id) {
        let i = entry_index(entries, id);
        let e = entries[i];
        entries.update(i, EntryView { stats: DeviceStats { temperature, ..e.stats }, ..e })
    } else {
        entries.push(EntryView {
            device_id: id,
            stats: DeviceStats { temperature, ..default_stats() },
            history: Seq::empty(),
        })
    }
}

/// The entry table after setting one device's power gauge; an unknown
/// device gets a fresh entry.
pub open spec fn spec_set_power(entries: Seq<EntryView>, id: Seq<char>, power: u32) -> Seq<EntryView> {
    if has_entry(entries, id) {
        let i = entry_index(entries, id);
        let e = entries[i];
        entries.update(i, EntryView { stats: DeviceStats { power_usage: power, ..e.stats }, ..e })
    } else {
        entries.push(EntryView {
            device_id: id,
            stats: DeviceStats { power_usage: power, ..default_stats() },
            history: Seq::empty(),
        })
    }
}

/// The global counters after recording a share.
pub open spec fn spec_bump_global(g: GlobalStats, accepted: bool) -> GlobalStats {
    GlobalStats {
        total_shares: (g.total_shares + 1) as u64,
        accepted_shares: if accepted { (g.accepted_shares + 1) as u64 } else { g.accepted_shares },
        rejected_shares: if accepted { g.rejected_shares } else { (g.rejected_shares + 1) as u64 },
        ..g
    }
}

/// The sum of all devices' hashrate gauges, as an unbounded integer.
pub open spec fn sum_hashrate(entries: Seq<EntryView>) -> int
    decreases entries.len(),
{
    if entries.len() == 0 {
        0
    } else {
        sum_hashrate(entries.drop_last()) + entries.last().stats.hashrate
    }
}

/// Well-formedness of the collector: entry ids are unique keys, no history
/// exceeds its cap, the global total is exactly accepted plus rejected, and
/// no device counter exceeds the matching global counter.
pub open spec fn wf(m: CollectorView) -> bool {
    &&& (forall|i: int, j: int| 0 <= i < j < m.entries.len() ==> m.entries[i].device_id != m.entries[j].device_id)
    &&& (forall|i: int| 0 <= i < m.entries.len() ==> (#[trigger] m.entries[i]).history.len() <= HISTORY_CAP)
    &&& m.global.total_shares == m.global.accepted_shares + m.global.rejected_shares
    &&& (forall|i: int| 0 <= i < m.entries.len() ==> (#[trigger] m.entries[i]).stats.shares_accepted <= m.global.accepted_shares)
    &&& (forall|i: int| 0 <= i < m.entries.len() ==> (#[trigger] m.entries[i]).stats.shares_rejected <= m.global.rejected_shares)
}

/// In a well-formed collector no more shares are accepted than recorded,
/// so the acceptance ratio is at most one hundred percent.
pub proof fn lemma_acceptance_rate_bounds(m: CollectorView)
    requires
        wf(m),
    ensures
        m.global.accepted_shares <= m.global.total_shares,
        m.global.rejected_shares <= m.global.total_shares,
{
}

/// The statistics aggregator: one slot per device plus global counters.
/// A single instance is shared by all producers and consumers.
pub struct Collector {
    entries: Vec<CollectorEntry>,
    global: GlobalStats,
}

impl View for Collector {
    type V = CollectorView;

    closed spec fn view(&self) -> CollectorView {
        CollectorView {
            entries: Seq::new(self.entries@.len(), |i: int| self.entries@[i]@),
            global: self.global,
        }
    }
}

impl Collector {
    /// An empty collector with zero counters.
    pub fn new() -> (r: Self)
        ensures
            r@.entries.len() == 0,
            r@.global.total_shares == 0,
            r@.global.accepted_shares == 0,
            r@.global.rejected_shares == 0,
            r@.global.pending_rewards == 0,
            wf(r@),
    {
        Collector { entries: Vec::new(), global: GlobalStats::new() }
    }

    /// The index of the entry for the device id, if one exists.
    fn find_entry(&self, device_id: &str) -> (r: Option<usize>)
        ensures
            match r {
                Some(i) => i < self@.entries.len() && self@.entries[i as int].device_id == device_id@,
                None => !has_entry(self@.entries, device_id@),
            },
    {
        let n = self.entries.len();
        let mut i: usize = 0;
        while i < n
            invariant
                0 <= i <= n,
                n == self@.entries.len(),
                forall|j: int| 0 <= j < i ==> self@.entries[j].device_id != device_id@,
            decreases n - i,
        {
            if str_eq(self.entries[i].device_id.as_str(), device_id) {
                return Some(i);
            }
            i += 1;
        }
        None
    }

    /// Appends a timestamped sample (stamped now) to the device's bounded
    /// history and updates its hashrate gauge.
    pub fn record_hashrate(&mut self, device_id: &str, hashrate: u64)
        requires
            wf(old(self)@),
        ensures
            wf(final(self)@),
            final(self)@.global == old(self)@.global,
            exists|ts: i64| final(self)@.entries == #[trigger] spec_record_hashrate(old(self)@.entries, device_id@, hashrate, ts),
    {
        let ghost m0 = self@;
        let ts = crate::clock::now_millis();
        let point = HashratePoint { timestamp: ts, hashrate };
        match self.find_entry(device_id) {
            Some(i) => {
                proof {
                    let c = entry_index(m0.entries, device_id@);
                    assert(0 <= c < m0.entries.len() && m0.entries[c].device_id == device_id@);
                    if c != i {
                        assert(m0.entries[c].device_id != m0.entries[i as int].device_id);
                    }
                    assert(entry_index(m0.entries, device_id@) == i as int);
                }
                let mut e = self.entries.remove(i);
                e.history.push(point);
                if e.history.len() > HISTORY_CAP {
                    let _evicted = e.history.remove(0);
                    proof {
                        assert(e.history@ =~= push_bounded(m0.entries[i as int].history, point));
                    }
                } else {
                    proof {
                        assert(e.history@ =~= push_bounded(m0.entries[i as int].history, point));
                    }
                }
                e.stats.hashrate = hashrate;
                let ghost ev = e@;
                self.entries.insert(i, e);
                proof {
                    assert(ev =~~= EntryView {
                        stats: DeviceStats { hashrate, ..m0.entries[i as int].stats },
                        history: push_bounded(m0.entries[i as int].history, point),
                        ..m0.entries[i as int]
                    });
                    assert(self@.entries =~~= spec_record_hashrate(m0.entries, device_id@, hashrate, ts));
                    assert forall|a: int, b: int| 0 <= a < b < self@.entries.len()
                        implies self@.entries[a].device_id != self@.entries[b].device_id by {
                        assert(self@.entries[a].device_id == m0.entries[a].device_id);
                        assert(self@.entries[b].device_id == m0.entries[b].device_id);
                    }
                }
            },
            None => {
                let mut history: Vec<HashratePoint> = Vec::new();
                history.push(point);
                let stats = DeviceStats {
                    hashrate,
                    shares_accepted: 0,
                    shares_rejected: 0,
                    temperature: 0,
                    power_usage: 0,
                    uptime: 0,
                };
                let entry = CollectorEntry { device_id: device_id.to_owned(), stats, history };
                self.entries.push(entry);
                proof {
                    assert(self@.entries =~~= spec_record_hashrate(m0.entries, device_id@, hashrate, ts));
                    assert forall|a: int, b: int| 0 <= a < b < self@.entries.len()
                        implies self@.entries[a].device_id != self@.entries[b].device_id by {
                        if b < self@.entries.len() - 1 {
                            assert(self@.entries[a].device_id == m0.entries[a].device_id);
                            assert(self@.entries[b].device_id == m0.entries[b].device_id);
                        } else {
                            assert(self@.entries[a].device_id == m0.entries[a].device_id);
                        }
                    }
                }
            },
        }
    }

    /// Counts a share, accepted or rejected, against the device and the
    /// global counters atomically.
    pub fn record_share(&mut self, device_id: &str, accepted: bool)
        requires
            wf(old(self)@),
            old(self)@.global.total_shares < u64::MAX,
        ensures
            wf(final(self)@),
            final(self)@.entries == spec_record_share(old(self)@.entries, device_id@, accepted),
            final(self)@.global == spec_bump_global(old(self)@.global, accepted),
    {
        let ghost m0 = self@;
        match self.find_entry(device_id) {
            Some(i) => {
                proof {
                    let c = entry_index(m0.entries, device_id@);
                    assert(0 <= c < m0.entries.len() && m0.entries[c].device_id == device_id@);
                    if c != i {
                        assert(m0.entries[c].device_id != m0.entries[i as int].device_id);
                    }
                    assert(entry_index(m0.entries, device_id@) == i as int);
                }
                let mut e = self.entries.remove(i);
                if accepted {
                    e.stats.shares_accepted = e.stats.shares_accepted + 1;
                } else {
                    e.stats.shares_rejected = e.stats.shares_rejected + 1;
                }
                let ghost ev = e@;
                self.entries.insert(i, e);
                proof {
                    assert(ev =~~= EntryView {
                        stats: bump_stats(m0.entries[i as int].stats, accepted),
                        ..m0.entries[i as int]
                    });
                    assert(self@.entries =~~= spec_record_share(m0.entries, device_id@, accepted));
                }
            },
            None => {
                let stats = DeviceStats {
                    hashrate: 0,
                    shares_accepted: if accepted { 1 } else { 0 },
                    shares_rejected: if accepted { 0 } else { 1 },
                    temperature: 0,
                    power_usage: 0,
                    uptime: 0,
                };
                let entry = CollectorEntry { device_id: device_id.to_owned(), stats, history: Vec::new() };
                self.entries.push(entry);
                proof {
                    assert(self@.entries =~~= spec_record_share(m0.entries, device_id@, accepted));
                }
            },
        }
        self.global.total_shares = self.global.total_shares + 1;
        if accepted {
            self.global.accepted_shares = self.global.accepted_shares + 1;
        } else {
            self.global.rejected_shares = self.global.rejected_shares + 1;
        }
        proof {
            let out = spec_record_share(m0.entries, device_id@, accepted);
            assert forall|a: int, b: int| 0 <= a < b < out.len()
                implies out[a].device_id != out[b].device_id by {
                if has_entry(m0.entries, device_id@) {
                    assert(out[a].device_id == m0.entries[a].device_id);
                    assert(out[b].device_id == m0.entries[b].device_id);
                } else {
                    if b < out.len() - 1 {
                        assert(out[a].device_id == m0.entries[a].device_id);
                        assert(out[b].device_id == m0.entries[b].device_id);
                    } else {
                        assert(out[a].device_id == m0.entries[a].device_id);
                        assert(!has_entry(m0.entries, device_id@));
                    }
                }
            }
        }
    }

    /// Sets the device's temperature gauge, in millidegrees Celsius.
    pub fn update_temperature(&mut self, device_id: &str, temperature: u32)
        requires
            wf(old(self)@),
        ensures
            wf(final(self)@),
            final(self)@.global == old(self)@.global,
            final(self)@.entries == spec_set_temperature(old(self)@.entries, device_id@, temperature),
            has_entry(final(self)@.entries, device_id@),
            final(self)@.entries[entry_index(final(self)@.entries, device_id@)].stats.temperature == temperature,
    {
        let ghost m0 = self@;
        match self.find_entry(device_id) {
            Some(i) => {
                proof {
                    let c = entry_index(m0.entries, device_id@);
                    if c != i {
                        assert(m0.entries[c].device_id != m0.entries[i as int].device_id);
                    }
                }
                let mut e = self.entries.remove(i);
                e.stats.temperature = temperature;
                let ghost ev = e@;
                self.entries.insert(i, e);
                proof {
                    assert(ev =~~= EntryView {
                        stats: DeviceStats { temperature, ..m0.entries[i as int].stats },
                        ..m0.entries[i as int]
                    });
                    assert(entry_index(m0.entries, device_id@) == i as int);
                    assert(self@.entries =~~= spec_set_temperature(m0.entries, device_id@, temperature));
                    assert forall|a: int, b: int| 0 <= a < b < self@.entries.len()
                        implies self@.entries[a].device_id != self@.entries[b].device_id by {
                        assert(self@.entries[a].device_id == m0.entries[a].device_id);
                        assert(self@.entries[b].device_id == m0.entries[b].device_id);
                    }
                    assert(self@.entries[i as int].device_id == device_id@);
                    let c2 = entry_index(self@.entries, device_id@);
                    if c2 != i {
                        assert(self@.entries[c2].device_id != self@.entries[i as int].device_id);
                    }
                    assert forall|a: int| 0 <= a < self@.entries.len()
                        implies (#[trigger] self@.entries[a]).history.len() <= HISTORY_CAP by {
                        if a != i {
                            assert(self@.entries[a] == m0.entries[a]);
                        } else {
                            assert(self@.entries[a].history == m0.entries[a].history);
                        }
                    }
                    assert forall|a: int| 0 <= a < self@.entries.len()
                        implies (#[trigger] self@.entries[a]).stats.shares_accepted <= self@.global.accepted_shares
                            && self@.entries[a].stats.shares_rejected <= self@.global.rejected_shares by {
                        if a != i {
                            assert(self@.entries[a] == m0.entries[a]);
                        } else {
                            assert(self@.entries[a].stats.shares_accepted == m0.entries[a].stats.shares_accepted);
                            assert(self@.entries[a].stats.shares_rejected == m0.entries[a].stats.shares_rejected);
                        }
                    }
                }
            },
            None => {
                let stats = DeviceStats {
                    hashrate: 0,
                    shares_accepted: 0,
                    shares_rejected: 0,
                    temperature,
                    power_usage: 0,
                    uptime: 0,
                };
                let entry = CollectorEntry { device_id: device_id.to_owned(), stats, history: Vec::new() };
                let ghost ev = entry@;
                self.entries.push(entry);
                proof {
                    let n = self@.entries.len() - 1;
                    assert(self@.entries =~~= m0.entries.push(ev));
                    assert(self@.entries =~~= spec_set_temperature(m0.entries, device_id@, temperature));
                    assert(self@.entries[n].device_id == device_id@);
                    assert forall|a: int| 0 <= a < self@.entries.len()
                        implies (#[trigger] self@.entries[a]).history.len() <= HISTORY_CAP by {
                        if a < n {
                            assert(self@.entries[a] == m0.entries[a]);
                        } else {
                            assert(self@.entries[a].history.len() == 0);
                        }
                    }
                    assert forall|a: int| 0 <= a < self@.entries.len()
                        implies (#[trigger] self@.entries[a]).stats.shares_accepted <= self@.global.accepted_shares
                            && self@.entries[a].stats.shares_rejected <= self@.global.rejected_shares by {
                        if a < n {
                            assert(self@.entries[a] == m0.entries[a]);
                        } else {
                            assert(self@.entries[a].stats.shares_accepted == 0);
                            assert(self@.entries[a].stats.shares_rejected == 0);
                        }
                    }
                    let c2 = entry_index(self@.entries, device_id@);
                    if c2 != n {
                        assert(self@.entries[c2].device_id == m0.entries[c2].device_id);
                        assert(!has_entry(m0.entries, device_id@));
                    }
                    assert forall|a: int, b: int| 0 <= a < b < self@.entries.len()
                        implies self@.entries[a].device_id != self@.entries[b].device_id by {
                        if b < n {
                            assert(self@.entries[a].device_id == m0.entries[a].device_id);
                            assert(self@.entries[b].device_id == m0.entries[b].device_id);
                        } else {
                            assert(self@.entries[a].device_id == m0.entries[a].device_id);
                            assert(!has_entry(m0.entries, device_id@));
                        }
                    }
                }
            },
        }
    }

    /// Sets the device's power gauge, in milliwatts.
    pub fn update_power(&mut self, device_id: &str, power: u32)
        requires
            wf(old(self)@),
        ensures
            wf(final(self)@),
            final(self)@.global == old(self)@.global,
            final(self)@.entries == spec_set_power(old(self)@.entries, device_id@, power),
            has_entry(final(self)@.entries, device_id@),
            final(self)@.entries[entry_index(final(self)@.entries, device_id@)].stats.power_usage == power,
    {
        let ghost m0 = self@;
        match self.find_entry(device_id) {
            Some(i) => {
                proof {
                    let c = entry_index(m0.entries, device_id@);
                    if c != i {
                        assert(m0.entries[c].device_id != m0.entries[i as int].device_id);
                    }
                }
                let mut e = self.entries.remove(i);
                e.stats.power_usage = power;
                let ghost ev = e@;
                self.entries.insert(i, e);
                proof {
                    assert(ev =~~= EntryView {
                        stats: DeviceStats { power_usage: power, ..m0.entries[i as int].stats },
                        ..m0.entries[i as int]
                    });
                    assert(entry_index(m0.entries, device_id@) == i as int);
                    assert(self@.entries =~~= spec_set_power(m0.entries, device_id@, power));
                    assert forall|a: int, b: int| 0 <= a < b < self@.entries.len()
                        implies self@.entries[a].device_id != self@.entries[b].device_id by {
                        assert(self@.entries[a].device_id == m0.entries[a].device_id);
                        assert(self@.entries[b].device_id == m0.entries[b].device_id);
                    }
                    assert(self@.entries[i as int].device_id == device_id@);
                    let c2 = entry_index(self@.entries, device_id@);
                    if c2 != i {
                        assert(self@.entries[c2].device_id != self@.entries[i as int].device_id);
                    }
                    assert forall|a: int| 0 <= a < self@.entries.len()
                        implies (#[trigger] self@.entries[a]).history.len() <= HISTORY_CAP by {
                        if a != i {
                            assert(self@.entries[a] == m0.entries[a]);
                        } else {
                            assert(self@.entries[a].history == m0.entries[a].history);
                        }
                    }
                    assert forall|a: int| 0 <= a < self@.entries.len()
                        implies (#[trigger] self@.entries[a]).stats.shares_accepted <= self@.global.accepted_shares
                            && self@.entries[a].stats.shares_rejected <= self@.global.rejected_shares by {
                        if a != i {
                            assert(self@.entries[a] == m0.entries[a]);
                        } else {
                            assert(self@.entries[a].stats.shares_accepted == m0.entries[a].stats.shares_accepted);
                            assert(self@.entries[a].stats.shares_rejected == m0.entries[a].stats.shares_rejected);
                        }
                    }
                }
            },
            None => {
                let stats = DeviceStats {
                    hashrate: 0,
                    shares_accepted: 0,
                    shares_rejected: 0,
                    temperature: 0,
                    power_usage: power,
                    uptime: 0,
                };
                let entry = CollectorEntry { device_id: device_id.to_owned(), stats, history: Vec::new() };
                let ghost ev = entry@;
                self.entries.push(entry);
                proof {
                    let n = self@.entries.len() - 1;
                    assert(self@.entries =~~= m0.entries.push(ev));
                    assert(self@.entries =~~= spec_set_power(m0.entries, device_id@, power));
                    assert(self@.entries[n].device_id == device_id@);
                    assert forall|a: int| 0 <= a < self@.entries.len()
                        implies (#[trigger] self@.entries[a]).history.len() <= HISTORY_CAP by {
                        if a < n {
                            assert(self@.entries[a] == m0.entries[a]);
                        } else {
                            assert(self@.entries[a].history.len() == 0);
                        }
                    }
                    assert forall|a: int| 0 <= a < self@.entries.len()
                        implies (#[trigger] self@.entries[a]).stats.shares_accepted <= self@.global.accepted_shares
                            && self@.entries[a].stats.shares_rejected <= self@.global.rejected_shares by {
                        if a < n {
                            assert(self@.entries[a] == m0.entries[a]);
                        } else {
                            assert(self@.entries[a].stats.shares_accepted == 0);
                            assert(self@.entries[a].stats.shares_rejected == 0);
                        }
                    }
                    let c2 = entry_index(self@.entries, device_id@);
                    if c2 != n {
                        assert(self@.entries[c2].device_id == m0.entries[c2].device_id);
                        assert(!has_entry(m0.entries, device_id@));
                    }
                    assert forall|a: int, b: int| 0 <= a < b < self@.entries.len()
                        implies self@.entries[a].device_id != self@.entries[b].device_id by {
                        if b < n {
                            assert(self@.entries[a].device_id == m0.entries[a].device_id);
                            assert(self@.entries[b].device_id == m0.entries[b].device_id);
                        } else {
                            assert(self@.entries[a].device_id == m0.entries[a].device_id);
                            assert(!has_entry(m0.entries, device_id@));
                        }
                    }
                }
            },
        }
    }

    /// The sum of all devices' hashrate gauges, saturating at the largest
    /// representable value.
    pub fn total_hashrate(&self) -> (r: u64)
        ensures
            r as int == if sum_hashrate(self@.entries) <= u64::MAX as int { sum_hashrate(self@.entries) } else { u64::MAX as int },
    {
        let n = self.entries.len();
        let mut total: u64 = 0;
        let mut i: usize = 0;
        while i < n
            invariant
                0 <= i <= n,
                n == self@.entries.len(),
                total as int == if sum_hashrate(self@.entries.take(i as int)) <= u64::MAX as int { sum_hashrate(self@.entries.take(i as int)) } else { u64::MAX as int },
            decreases n - i,
        {
            proof {
                assert(self@.entries.take(i + 1).drop_last() =~= self@.entries.take(i as int));
                assert(self@.entries.take(i + 1).last() == self@.entries[i as int]);
            }
            total = total.saturating_add(self.entries[i].stats.hashrate);
            i += 1;
        }
        proof {
            assert(self@.entries.take(n as int) =~= self@.entries);
        }
        total
    }

    /// A snapshot of one device's statistics, if the device is known.
    pub fn device_stats(&self, device_id: &str) -> (r: Option<DeviceStats>)
        requires
            wf(self@),
        ensures
            match r {
                Some(stats) => has_entry(self@.entries, device_id@)
                    && stats == self@.entries[entry_index(self@.entries, device_id@)].stats,
                None => !has_entry(self@.entries, device_id@),
            },
    {
        match self.find_entry(device_id) {
            Some(i) => {
                proof {
                    let c = entry_index(self@.entries, device_id@);
                    assert(0 <= c < self@.entries.len() && self@.entries[c].device_id == device_id@);
                    if c != i {
                        assert(self@.entries[c].device_id != self@.entries[i as int].device_id);
                    }
                }
                Some(self.entries[i].stats)
            },
            None => None,
        }
    }

    /// A snapshot of every device's statistics, as id/stats pairs in table
    /// order.
    pub fn all_device_stats(&self) -> (r: Vec<(String, DeviceStats)>)
        ensures
            r@.len() == self@.entries.len(),
            forall|i: int| 0 <= i < r@.len()
                ==> (#[trigger] r@[i]).0@ == self@.entries[i].device_id && r@[i].1 == self@.entries[i].stats,
    {
        let n = self.entries.len();
        let mut out: Vec<(String, DeviceStats)> = Vec::new();
        let mut i: usize = 0;
        while i < n
            invariant
                0 <= i <= n,
                n == self@.entries.len(),
                out@.len() == i,
                forall|j: int| 0 <= j < i
                    ==> (#[trigger] out@[j]).0@ == self@.entries[j].device_id && out@[j].1 == self@.entries[j].stats,
            decreases n - i,
        {
            out.push((self.entries[i].device_id.clone(), self.entries[i].stats));
            i += 1;
        }
        out
    }

    /// A snapshot of the global counters.
    pub fn global_stats(&self) -> (r: GlobalStats)
        ensures
            r == self@.global,
    {
        self.global
    }

    pub fn pending_rewards(&self) -> (r: u64)
        ensures
            r == self@.global.pending_rewards,
    {
        self.global.pending_rewards
    }

    /// A snapshot of one device's hashrate history, oldest sample first;
    /// empty for an unknown device.
    pub fn hashrate_history(&self, device_id: &str) -> (r: Vec<HashratePoint>)
        requires
            wf(self@),
        ensures
            has_entry(self@.entries, device_id@)
                ==> r@ == self@.entries[entry_index(self@.entries, device_id@)].history,
            !has_entry(self@.entries, device_id@) ==> r@.len() == 0,
    {
        match self.find_entry(device_id) {
            Some(i) => {
                proof {
                    let c = entry_index(self@.entries, device_id@);
                    assert(0 <= c < self@.entries.len() && self@.entries[c].device_id == device_id@);
                    if c != i {
                        assert(self@.entries[c].device_id != self@.entries[i as int].device_id);
                    }
                }
                let h = &self.entries[i].history;
                let n = h.len();
                let mut out: Vec<HashratePoint> = Vec::new();
                let mut j: usize = 0;
                while j < n
                    invariant
                        0 <= j <= n,
                        n == h@.len(),
                        out@ == h@.subrange(0, j as int),
                    decreases n - j,
                {
                    out.push(h[j]);
                    proof {
                        assert(out@ =~= h@.subrange(0, j + 1));
                    }
                    j += 1;
                }
                proof {
                    assert(out@ =~= h@);
                }
                out
            },
            None => Vec::new(),
        }
    }

    /// The exact acceptance ratio, as the pair of accepted and total share
    /// counts. The rate in percent is `100 * r.0 / r.1`, taken as zero when
    /// no shares have been recorded (`r.1 == 0`).
    pub fn acceptance_rate(&self) -> (r: (u64, u64))
        ensures
            r.0 == self@.global.accepted_shares,
            r.1 == self@.global.total_shares,
    {
        (self.global.accepted_shares, self.global.total_shares)
    }
}

} // verus!
