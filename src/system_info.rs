use vstd::prelude::*;

verus! {

/// The groups of system readings that are refreshed together.
#[derive(PartialEq, Eq, Structural, Clone, Copy, Debug, Hash)]
pub enum RefreshKey {
    Cpu,
    Memory,
    Network,
    Disk,
    Component,
}

/// Memory readings of the host.
#[derive(Debug)]
pub struct MemoryInfo;

/// Readings that describe the host system itself.
#[derive(Debug)]
pub struct SystemInfoInner;

/// Root object of the system information query.
#[derive(Debug)]
pub struct SystemInfo {
    /// Memory readings.
    pub memory: MemoryInfo,
    /// System readings.
    pub system: SystemInfoInner,
}

/// Root of the query schema.
#[derive(Debug)]
pub struct Query;

impl Query {
    /// The system information object.
    pub fn system_info(&self) -> (r: SystemInfo) {
        SystemInfo { memory: MemoryInfo, system: SystemInfoInner }
    }
}

/// When each group of readings was last refreshed, in milliseconds on a monotonic clock,
/// and how long a refresh stays fresh.
pub struct RefreshSchedule {
    cpu: u64,
    memory: u64,
    network: u64,
    disk: u64,
    component: u64,
    limit: u64,
}

/// Time elapsed from `since` to `now`; none where the clock reads earlier.
pub open spec fn elapsed(since: u64, now: u64) -> int {
    if now >= since {
        now - since
    } else {
        0
    }
}

impl RefreshSchedule {
    /// When the readings of `key` were last refreshed.
    pub closed spec fn last(&self, key: RefreshKey) -> u64 {
        match key {
            RefreshKey::Cpu => self.cpu,
            RefreshKey::Memory => self.memory,
            RefreshKey::Network => self.network,
            RefreshKey::Disk => self.disk,
            RefreshKey::Component => self.component,
        }
    }

    /// How long a refresh stays fresh.
    pub closed spec fn limit_spec(&self) -> u64 {
        self.limit
    }

    /// A schedule in which every group was refreshed at `now`.
    pub fn new(now: u64, limit: u64) -> (r: Self)
        ensures
            forall|k: RefreshKey| #[trigger] r.last(k) == now,
            r.limit_spec() == limit,
    {
        RefreshSchedule { cpu: now, memory: now, network: now, disk: now, component: now, limit }
    }

    /// When the readings of `key` were last refreshed.
    pub fn last_refresh(&self, key: RefreshKey) -> (r: u64)
        ensures
            r == self.last(key),
    {
        match key {
            RefreshKey::Cpu => self.cpu,
            RefreshKey::Memory => self.memory,
            RefreshKey::Network => self.network,
            RefreshKey::Disk => self.disk,
            RefreshKey::Component => self.component,
        }
    }

    /// Whether the readings of `key` must be refreshed at `now`: more than the limit has
    /// elapsed since their last refresh.
    pub fn is_due(&self, key: RefreshKey, now: u64) -> (r: bool)
        ensures
            r == (elapsed(self.last(key), now) > self.limit_spec()),
    {
        let last = self.last_refresh(key);
        now >= last && now - last > self.limit
    }

    /// Records that the readings of `key` were refreshed at `now`.
    pub fn record(&mut self, key: RefreshKey, now: u64)
        ensures
            final(self).last(key) == now,
            forall|k: RefreshKey| k != key ==> #[trigger] final(self).last(k) == old(self).last(k),
            final(self).limit_spec() == old(self).limit_spec(),
    {
        match key {
            RefreshKey::Cpu => self.cpu = now,
            RefreshKey::Memory => self.memory = now,
            RefreshKey::Network => self.network = now,
            RefreshKey::Disk => self.disk = now,
            RefreshKey::Component => self.component = now,
        }
    }
}

} // verus!
