//! Collection of all metrics from /proc and /sys — never through a
//! subprocess. The state between ticks (previous CPU, network and disk
//! samples) lives in the `Collector`, so that deltas and rates can be formed.
//!
//! Per tick: hwmon and battery paths are resolved once and cached; values
//! only the popup shows (temperatures, fans, per-core percentages, the
//! PRIME mode) are not gathered while it is closed. Delta metrics (CPU,
//! network, disk, RAPL) always run, else the popup would open with jumps.

pub mod gpu;
pub mod power;
pub mod procfs;
pub mod sensors;

use vstd::prelude::*;

use crate::metrics::gpu::GpuReader;
use crate::metrics::power::PowerReader;
use crate::metrics::procfs::{opt_view, CpuTimes, MemInfo};
use crate::metrics::sensors::{HwmonChip, SensorPaths};

verus! {

/// CPU time between two samples: jiffies spent busy and in total. The
/// usage is `busy / total` (0 when no time passed).
#[derive(Debug, Clone, Copy, PartialEq, Eq, Structural)]
pub struct CpuDelta {
    pub busy: u64,
    pub total: u64,
}

pub open spec fn sat_sub(a: u64, b: u64) -> u64 {
    if a >= b {
        (a - b) as u64
    } else {
        0
    }
}

/// Busy and total time from `prev` to `cur`; counters that went back count
/// as no time.
pub open spec fn spec_cpu_delta(prev: CpuTimes, cur: CpuTimes) -> CpuDelta {
    let dt = sat_sub(cur.total, prev.total);
    let di = sat_sub(cur.idle, prev.idle);
    CpuDelta { busy: sat_sub(dt, di), total: dt }
}

pub fn cpu_delta(prev: CpuTimes, cur: CpuTimes) -> (r: CpuDelta)
    ensures
        r == spec_cpu_delta(prev, cur),
        r.busy <= r.total,
{
    let dt = cur.total.saturating_sub(prev.total);
    let di = cur.idle.saturating_sub(prev.idle);
    CpuDelta { busy: dt.saturating_sub(di), total: dt }
}

/// What the CPU part of a tick yields.
pub struct CpuSample {
    /// Total usage since the previous sample (`None` on the first one).
    pub usage: Option<CpuDelta>,
    /// Per-core usage, only with the popup open and the same core count as before.
    pub per_core: Vec<CpuDelta>,
}

/// Per-core deltas, pairwise.
pub open spec fn spec_core_deltas(prev: Seq<CpuTimes>, cur: Seq<CpuTimes>) -> Seq<CpuDelta> {
    Seq::new(cur.len(), |i: int| spec_cpu_delta(prev[i], cur[i]))
}

/// RAM and swap figures in kB.
#[derive(Debug, Clone, Copy, PartialEq, Eq, Structural)]
pub struct MemSample {
    pub used_kb: u64,
    pub total_kb: u64,
    pub swap_used_kb: u64,
    pub swap_total_kb: u64,
}

/// Used RAM is total minus available, used swap total minus free (neither
/// below 0); all zero without a meminfo reading.
pub open spec fn spec_mem_sample(mi: Option<MemInfo>) -> MemSample {
    match mi {
        Some(m) => MemSample {
            used_kb: sat_sub(m.total, m.avail),
            total_kb: m.total,
            swap_used_kb: sat_sub(m.swap_total, m.swap_free),
            swap_total_kb: m.swap_total,
        },
        None => MemSample { used_kb: 0, total_kb: 0, swap_used_kb: 0, swap_total_kb: 0 },
    }
}

pub fn mem_sample(mi: &Option<MemInfo>) -> (r: MemSample)
    ensures
        r == spec_mem_sample(*mi),
        r.used_kb <= r.total_kb,
        r.swap_used_kb <= r.swap_total_kb,
{
    match mi {
        Some(m) => MemSample {
            used_kb: m.total.saturating_sub(m.avail),
            total_kb: m.total,
            swap_used_kb: m.swap_total.saturating_sub(m.swap_free),
            swap_total_kb: m.swap_total,
        },
        None => MemSample { used_kb: 0, total_kb: 0, swap_used_kb: 0, swap_total_kb: 0 },
    }
}

/// Two counters and the time between two samples of them.
#[derive(Debug, Clone, Copy, PartialEq, Eq, Structural)]
pub struct RateDelta {
    pub a: u64,
    pub b: u64,
    pub dt_ns: u64,
}

/// A new sample `cur` of two counters at `now_ns` against the previous one:
/// the increases (a counter that went back counts as 0) and the time
/// between, where there is a previous sample and time has passed.
pub open spec fn spec_rate(prev: Option<(u64, u64, u64)>, cur: (u64, u64), now_ns: u64) -> Option<
    RateDelta,
> {
    match prev {
        Some((pa, pb, pt)) => if now_ns > pt {
            Some(
                RateDelta {
                    a: sat_sub(cur.0, pa),
                    b: sat_sub(cur.1, pb),
                    dt_ns: (now_ns - pt) as u64,
                },
            )
        } else {
            None
        },
        None => None,
    }
}

fn rate(prev: Option<(u64, u64, u64)>, cur: (u64, u64), now_ns: u64) -> (r: Option<RateDelta>)
    ensures
        r == spec_rate(prev, cur, now_ns),
{
    match prev {
        Some((pa, pb, pt)) => if now_ns > pt {
            Some(
                RateDelta {
                    a: cur.0.saturating_sub(pa),
                    b: cur.1.saturating_sub(pb),
                    dt_ns: now_ns - pt,
                },
            )
        } else {
            None
        },
        None => None,
    }
}

/// The network reference sample after the default-route interface was
/// read as `new_iface`, having been `old_iface`: kept while it is the same
/// interface, dropped on a change.
pub open spec fn spec_net_ref_after(
    prev: Option<(u64, u64, u64)>,
    old_iface: Option<Seq<char>>,
    new_iface: Option<Seq<char>>,
) -> Option<(u64, u64, u64)> {
    if new_iface == old_iface {
        prev
    } else {
        None
    }
}

/// What the network part of a tick yields.
#[derive(Debug, Clone, Copy, PartialEq, Eq)]
pub struct NetSample {
    /// RX/TX bytes since boot of the active interface.
    pub totals: Option<(u64, u64)>,
    /// Bytes received / sent since the previous sample, and the time between.
    pub delta: Option<RateDelta>,
}

/// Which sensor work a tick does.
#[derive(Debug, Clone, Copy, PartialEq, Eq, Structural)]
pub struct SensorPlan {
    /// Scan the hwmon directories and resolve the sensor paths anew.
    pub scan_hwmon: bool,
    /// Read the temperature and fan inputs, the load average and the
    /// uptime: values only the popup shows.
    pub read_values: bool,
}

/// The power reader `after` is `before` with the reference readings of its
/// zones dropped: the same zones, paths, wrap limits and battery state.
pub open spec fn spec_power_reset(before: PowerReader, after: PowerReader) -> bool {
    &&& after.spec_pkg() == match before.spec_pkg() {
        Some((_, max, path)) => Some((None::<(u64, u64)>, max, path)),
        None => None,
    }
    &&& after.spec_psys() == match before.spec_psys() {
        Some((_, max, path)) => Some((None::<(u64, u64)>, max, path)),
        None => None,
    }
    &&& after.spec_bats() == before.spec_bats()
    &&& after.spec_bat_rescan() == before.spec_bat_rescan()
}

/// The state kept between ticks.
pub struct Collector {
    prev_cpu: Option<CpuTimes>,
    prev_core: Vec<CpuTimes>,
    /// Previous RX/TX sample and its time (ns).
    prev_net: Option<(u64, u64, u64)>,
    /// Previous disk sample (sectors read / written) and its time (ns).
    prev_disk: Option<(u64, u64, u64)>,
    iface: Option<String>,
    sensors: SensorPaths,
    /// `live` of the previous tick, to look for sensors again when the
    /// popup opens.
    was_live: bool,
    gpu: GpuReader,
    power: PowerReader,
    /// Set while the system sleeps; pauses GPU reads and drops the deltas.
    paused: bool,
}

impl Collector {
    pub closed spec fn spec_prev_cpu(&self) -> Option<CpuTimes> {
        self.prev_cpu
    }

    pub closed spec fn spec_prev_core(&self) -> Seq<CpuTimes> {
        self.prev_core@
    }

    pub closed spec fn spec_prev_net(&self) -> Option<(u64, u64, u64)> {
        self.prev_net
    }

    pub closed spec fn spec_prev_disk(&self) -> Option<(u64, u64, u64)> {
        self.prev_disk
    }

    pub closed spec fn spec_iface(&self) -> Option<Seq<char>> {
        opt_view(self.iface)
    }

    pub closed spec fn spec_was_live(&self) -> bool {
        self.was_live
    }

    pub closed spec fn spec_sensors(&self) -> SensorPaths {
        self.sensors
    }

    pub closed spec fn spec_gpu(&self) -> GpuReader {
        self.gpu
    }

    pub closed spec fn spec_power(&self) -> PowerReader {
        self.power
    }

    pub closed spec fn spec_paused(&self) -> bool {
        self.paused
    }

    /// Both hold the same CPU reference samples, total and per core.
    pub open spec fn same_cpu_refs(&self, other: &Self) -> bool {
        &&& self.spec_prev_cpu() == other.spec_prev_cpu()
        &&& self.spec_prev_core() == other.spec_prev_core()
    }

    /// Both hold the same sensor paths and popup state of the last tick.
    pub open spec fn same_sensor_state(&self, other: &Self) -> bool {
        &&& self.spec_sensors() == other.spec_sensors()
        &&& self.spec_was_live() == other.spec_was_live()
    }

    /// Both hold the same GPU and power readers and the same sleep mark.
    pub open spec fn same_readers(&self, other: &Self) -> bool {
        &&& self.spec_gpu() == other.spec_gpu()
        &&& self.spec_power() == other.spec_power()
        &&& self.spec_paused() == other.spec_paused()
    }

    /// A collector with no samples yet, around the GPU and power readers
    /// (whose discovery reads the system).
    pub fn new(gpu: GpuReader, power: PowerReader) -> (r: Self)
        ensures
            r.spec_prev_cpu() is None,
            r.spec_prev_core().len() == 0,
            r.spec_prev_net() is None,
            r.spec_prev_disk() is None,
            r.spec_iface() is None,
            !r.spec_sensors().spec_resolved(),
            !r.spec_was_live(),
            r.spec_gpu() == gpu,
            r.spec_power() == power,
            !r.spec_paused(),
    {
        Collector {
            prev_cpu: None,
            prev_core: Vec::new(),
            prev_net: None,
            prev_disk: None,
            iface: None,
            sensors: SensorPaths::new(),
            was_live: false,
            gpu,
            power,
            paused: false,
        }
    }

    /// The CPU part of a tick, from a parsed /proc/stat (`None`: not
    /// readable). Usage against the previous sample; per-core usage only
    /// with `live` and an unchanged core count. The per-core reference is
    /// kept current even while closed, so that the popup opens with correct
    /// deltas.
    pub fn cpu_step(&mut self, cur: Option<(CpuTimes, Vec<CpuTimes>)>, live: bool) -> (r:
        CpuSample)
        ensures
            final(self).spec_prev_net() == old(self).spec_prev_net(),
            final(self).spec_prev_disk() == old(self).spec_prev_disk(),
            final(self).spec_iface() == old(self).spec_iface(),
            final(self).same_sensor_state(old(self)),
            final(self).same_readers(old(self)),
            match cur {
                None => {
                    &&& r.usage is None
                    &&& r.per_core@.len() == 0
                    &&& final(self).spec_prev_cpu() == old(self).spec_prev_cpu()
                    &&& final(self).spec_prev_core() == old(self).spec_prev_core()
                },
                Some((agg, cores)) => {
                    &&& r.usage == match old(self).spec_prev_cpu() {
                        Some(p) => Some(spec_cpu_delta(p, agg)),
                        None => None,
                    }
                    &&& r.per_core@ == if live && old(self).spec_prev_core().len() == cores@.len() {
                        spec_core_deltas(old(self).spec_prev_core(), cores@)
                    } else {
                        Seq::empty()
                    }
                    &&& final(self).spec_prev_cpu() == Some(agg)
                    &&& final(self).spec_prev_core() == cores@
                },
            },
    {
        let (agg, cores) = match cur {
            Some(x) => x,
            None => return CpuSample { usage: None, per_core: Vec::new() },
        };
        let usage = match self.prev_cpu {
            Some(p) => Some(cpu_delta(p, agg)),
            None => None,
        };
        let mut per_core: Vec<CpuDelta> = Vec::new();
        if live && self.prev_core.len() == cores.len() {
            let mut i: usize = 0;
            while i < cores.len()
                invariant
                    i <= cores@.len(),
                    self.prev_core@.len() == cores@.len(),
                    per_core@ == spec_core_deltas(self.prev_core@, cores@).take(i as int),
                decreases cores@.len() - i,
            {
                per_core.push(cpu_delta(self.prev_core[i], cores[i]));
                i = i + 1;
                assert(per_core@ =~= spec_core_deltas(self.prev_core@, cores@).take(i as int));
            }
            assert(per_core@ =~= spec_core_deltas(self.prev_core@, cores@));
        }
        self.prev_cpu = Some(agg);
        self.prev_core = cores;
        CpuSample { usage, per_core }
    }

    /// Sensor bookkeeping at the start of a tick. With the popup just
    /// opened (`live` now, not before) the cached paths are marked for a new
    /// resolution (sensor modules may have been loaded meanwhile). Returns
    /// which sensor work the tick does: the hwmon directories are scanned
    /// (`resolve_sensors`) only with the popup open and the paths not
    /// resolved, and temperatures, fans, load and uptime are read only with
    /// the popup open.
    pub fn sensor_step(&mut self, live: bool) -> (r: SensorPlan)
        ensures
            final(self).spec_was_live() == live,
            r.scan_hwmon == (live && (!old(self).spec_was_live()
                || !old(self).spec_sensors().spec_resolved())),
            r.read_values == live,
            (live && !old(self).spec_was_live()) ==> !final(self).spec_sensors().spec_resolved(),
            !(live && !old(self).spec_was_live()) ==> final(self).spec_sensors() == old(
                self,
            ).spec_sensors(),
            final(self).spec_sensors().spec_cpu() == old(self).spec_sensors().spec_cpu(),
            final(self).spec_sensors().spec_ram() == old(self).spec_sensors().spec_ram(),
            final(self).spec_sensors().spec_fan_base() == old(self).spec_sensors().spec_fan_base(),
            final(self).spec_prev_net() == old(self).spec_prev_net(),
            final(self).spec_prev_disk() == old(self).spec_prev_disk(),
            final(self).spec_iface() == old(self).spec_iface(),
            final(self).same_cpu_refs(old(self)),
            final(self).same_readers(old(self)),
    {
        if live && !self.was_live {
            self.sensors.invalidate();
        }
        self.was_live = live;
        SensorPlan { scan_hwmon: live && !self.sensors.is_resolved(), read_values: live }
    }

    /// Resolves the sensor paths from a scan of the hwmon directories.
    pub fn resolve_sensors(&mut self, chips: &Vec<HwmonChip>)
        ensures
            final(self).spec_sensors().spec_resolved(),
            final(self).spec_sensors().spec_cpu() == crate::metrics::sensors::spec_resolved_cpu(
                chips@,
            ),
            final(self).spec_sensors().spec_ram() == crate::metrics::sensors::resolve_scan(
                chips@,
            ).2,
            final(self).spec_sensors().spec_fan_base() == crate::metrics::sensors::resolve_scan(
                chips@,
            ).3,
            final(self).spec_was_live() == old(self).spec_was_live(),
            final(self).spec_prev_net() == old(self).spec_prev_net(),
            final(self).spec_prev_disk() == old(self).spec_prev_disk(),
            final(self).spec_iface() == old(self).spec_iface(),
            final(self).same_cpu_refs(old(self)),
            final(self).same_readers(old(self)),
    {
        self.sensors.resolve(chips);
    }

    /// The cached sensor paths.
    pub fn sensors(&self) -> (r: &SensorPaths)
        ensures
            *r == self.spec_sensors(),
    {
        &self.sensors
    }

    /// CPU and RAM temperature (m°C) from readings of their input files,
    /// dropping dead paths (see `SensorPaths::cpu_temp`).
    pub fn temps(&mut self, cpu_milli_c: Option<u64>, ram_milli_c: Option<u64>) -> (r: (
        Option<u64>,
        Option<u64>,
    ))
        ensures
            r.0 == if old(self).spec_sensors().spec_cpu() is Some {
                cpu_milli_c
            } else {
                None
            },
            r.1 == if old(self).spec_sensors().spec_ram() is Some {
                ram_milli_c
            } else {
                None
            },
            final(self).spec_sensors().spec_resolved() == old(self).spec_sensors().spec_resolved(),
            final(self).spec_sensors().spec_cpu() == if cpu_milli_c is None {
                None
            } else {
                old(self).spec_sensors().spec_cpu()
            },
            final(self).spec_sensors().spec_ram() == if ram_milli_c is None {
                None
            } else {
                old(self).spec_sensors().spec_ram()
            },
            final(self).spec_sensors().spec_fan_base() == old(self).spec_sensors().spec_fan_base(),
            final(self).spec_was_live() == old(self).spec_was_live(),
            final(self).spec_prev_net() == old(self).spec_prev_net(),
            final(self).spec_prev_disk() == old(self).spec_prev_disk(),
            final(self).spec_iface() == old(self).spec_iface(),
            final(self).same_cpu_refs(old(self)),
            final(self).same_readers(old(self)),
    {
        let c = self.sensors.cpu_temp(cpu_milli_c);
        let r = self.sensors.ram_temp(ram_milli_c);
        (c, r)
    }

    /// The disk part of a tick, from a parsed /proc/diskstats taken at
    /// `now_ns` (`None`: not readable, state kept).
    pub fn disk_step(&mut self, cur: Option<(u64, u64)>, now_ns: u64) -> (r: Option<RateDelta>)
        ensures
            final(self).spec_prev_net() == old(self).spec_prev_net(),
            final(self).spec_iface() == old(self).spec_iface(),
            final(self).same_cpu_refs(old(self)),
            final(self).same_sensor_state(old(self)),
            final(self).same_readers(old(self)),
            match cur {
                None => r is None && final(self).spec_prev_disk() == old(self).spec_prev_disk(),
                Some(c) => {
                    &&& r == spec_rate(old(self).spec_prev_disk(), c, now_ns)
                    &&& final(self).spec_prev_disk() == Some((c.0, c.1, now_ns))
                },
            },
    {
        match cur {
            None => None,
            Some(c) => {
                let r = rate(self.prev_disk, c, now_ns);
                self.prev_disk = Some((c.0, c.1, now_ns));
                r
            },
        }
    }

    /// Sets the interface of the default route, read anew each tick
    /// (WLAN ↔ LAN ↔ VPN). On a change the previous network sample is
    /// dropped, so that no delta spans two interfaces.
    pub fn set_iface(&mut self, cur: Option<String>)
        ensures
            final(self).spec_iface() == opt_view(cur),
            final(self).spec_prev_net() == spec_net_ref_after(
                old(self).spec_prev_net(),
                old(self).spec_iface(),
                opt_view(cur),
            ),
            final(self).spec_prev_disk() == old(self).spec_prev_disk(),
            final(self).same_cpu_refs(old(self)),
            final(self).same_sensor_state(old(self)),
            final(self).same_readers(old(self)),
    {
        let same = match (&cur, &self.iface) {
            (Some(a), Some(b)) => a.eq(b),
            (None, None) => true,
            _ => false,
        };
        if !same {
            self.prev_net = None;
            self.iface = cur;
        }
    }

    /// The interface of the default route, where there is one.
    pub fn iface(&self) -> (r: Option<&String>)
        ensures
            crate::metrics::sensors::opt_view_ref(r) == self.spec_iface(),
    {
        match &self.iface {
            Some(s) => Some(s),
            None => None,
        }
    }

    /// The network part of a tick: the RX/TX byte counters of the current
    /// interface taken at `now_ns` (`None`: not readable). Gives the totals
    /// since boot and the increases since the previous sample; without an
    /// interface nothing is read and nothing given.
    pub fn net_step(&mut self, bytes: Option<(u64, u64)>, now_ns: u64) -> (r: NetSample)
        ensures
            final(self).spec_iface() == old(self).spec_iface(),
            final(self).spec_prev_disk() == old(self).spec_prev_disk(),
            final(self).same_cpu_refs(old(self)),
            final(self).same_sensor_state(old(self)),
            final(self).same_readers(old(self)),
            match (old(self).spec_iface(), bytes) {
                (Some(_), Some(c)) => {
                    &&& r.totals == Some(c)
                    &&& r.delta == spec_rate(old(self).spec_prev_net(), c, now_ns)
                    &&& final(self).spec_prev_net() == Some((c.0, c.1, now_ns))
                },
                _ => {
                    &&& r.totals is None
                    &&& r.delta is None
                    &&& final(self).spec_prev_net() == old(self).spec_prev_net()
                },
            },
    {
        if self.iface.is_none() {
            return NetSample { totals: None, delta: None };
        }
        match bytes {
            None => NetSample { totals: None, delta: None },
            Some(c) => {
                let d = rate(self.prev_net, c, now_ns);
                self.prev_net = Some((c.0, c.1, now_ns));
                NetSample { totals: Some(c), delta: d }
            },
        }
    }

    /// Marks the system as going to sleep (`true`) or awake again.
    pub fn set_paused(&mut self, paused: bool)
        ensures
            final(self).spec_paused() == paused,
            final(self).spec_prev_net() == old(self).spec_prev_net(),
            final(self).spec_prev_disk() == old(self).spec_prev_disk(),
            final(self).spec_iface() == old(self).spec_iface(),
            final(self).spec_power() == old(self).spec_power(),
            final(self).spec_gpu() == old(self).spec_gpu(),
            final(self).same_cpu_refs(old(self)),
            final(self).same_sensor_state(old(self)),
    {
        self.paused = paused;
    }

    /// Whether the system is marked as sleeping.
    pub fn is_paused(&self) -> (r: bool)
        ensures
            r == self.spec_paused(),
    {
        self.paused
    }

    /// Drops every delta reference that a sleep would distort: the RAPL
    /// counters, and the network and disk samples (which have no sanity
    /// bound as RAPL does).
    pub fn reset_deltas(&mut self)
        ensures
            spec_power_reset(old(self).spec_power(), final(self).spec_power()),
            final(self).spec_power().is_reset(),
            final(self).spec_prev_net() is None,
            final(self).spec_prev_disk() is None,
            final(self).spec_iface() == old(self).spec_iface(),
            final(self).spec_paused() == old(self).spec_paused(),
            final(self).spec_gpu() == old(self).spec_gpu(),
            final(self).same_cpu_refs(old(self)),
            final(self).same_sensor_state(old(self)),
    {
        self.power.reset();
        self.prev_net = None;
        self.prev_disk = None;
    }

    /// The pause part of a tick: while paused, the delta references are
    /// dropped (`reset_deltas`), so that no delta spans the sleep.
    pub fn pause_step(&mut self)
        ensures
            old(self).spec_paused() ==> {
                &&& spec_power_reset(old(self).spec_power(), final(self).spec_power())
                &&& final(self).spec_power().is_reset()
                &&& final(self).spec_prev_net() is None
                &&& final(self).spec_prev_disk() is None
            },
            !old(self).spec_paused() ==> final(self).spec_prev_net() == old(self).spec_prev_net()
                && final(self).spec_prev_disk() == old(self).spec_prev_disk()
                && final(self).spec_power() == old(self).spec_power(),
            final(self).spec_paused() == old(self).spec_paused(),
            final(self).spec_iface() == old(self).spec_iface(),
            final(self).spec_gpu() == old(self).spec_gpu(),
            final(self).same_cpu_refs(old(self)),
            final(self).same_sensor_state(old(self)),
    {
        if self.paused {
            self.reset_deltas();
        }
    }

    /// The power reader.
    pub fn power(&self) -> (r: &PowerReader)
        ensures
            *r == self.spec_power(),
    {
        &self.power
    }

    /// The power reader, to take a reading with.
    pub fn power_mut(&mut self) -> (r: &mut PowerReader)
        ensures
            *r == old(self).spec_power(),
            final(self).spec_power() == *final(r),
            final(self).spec_paused() == old(self).spec_paused(),
            final(self).spec_prev_net() == old(self).spec_prev_net(),
            final(self).spec_prev_disk() == old(self).spec_prev_disk(),
            final(self).spec_iface() == old(self).spec_iface(),
            final(self).spec_gpu() == old(self).spec_gpu(),
            final(self).same_cpu_refs(old(self)),
            final(self).same_sensor_state(old(self)),
    {
        &mut self.power
    }

    /// The GPU reader's dGPU directory, to read its runtime state from.
    pub fn gpu_pci_path(&self) -> (r: Option<&String>)
        ensures
            crate::metrics::sensors::opt_view_ref(r) == self.spec_gpu().spec_pci_path(),
    {
        self.gpu.pci_path()
    }

    /// The GPU part of a tick: a reading (see `GpuReader::read`) that asks
    /// for live NVML values exactly when `live` is set and the system is not
    /// marked as sleeping.
    pub fn gpu_step(&mut self, live: bool, prime: &Option<String>, status: &Option<String>) -> (r:
        crate::metrics::gpu::GpuInfo)
        ensures
            crate::metrics::gpu::spec_read_outcome(
                old(self).spec_gpu(),
                final(self).spec_gpu(),
                live && !old(self).spec_paused(),
                opt_view(*prime),
                opt_view(*status),
                r,
            ),
            !(live && !old(self).spec_paused()) ==> {
                &&& r == old(self).spec_gpu().spec_base(opt_view(*prime), opt_view(*status))
                &&& !final(self).spec_gpu().has_handle()
            },
            final(self).spec_paused() == old(self).spec_paused(),
            final(self).spec_power() == old(self).spec_power(),
            final(self).spec_prev_net() == old(self).spec_prev_net(),
            final(self).spec_prev_disk() == old(self).spec_prev_disk(),
            final(self).spec_iface() == old(self).spec_iface(),
            final(self).same_cpu_refs(old(self)),
            final(self).same_sensor_state(old(self)),
    {
        let want = live && !self.paused;
        self.gpu.read(want, prime, status)
    }
}


/// Kind of an interface: WLAN where it has a `wireless` directory, VPN by
/// its name (tun/tap/wg/ppp), LAN otherwise.
pub open spec fn spec_iface_kind(name: Seq<char>, wireless: bool) -> &'static str {
    if wireless {
        "WLAN"
    } else if crate::hw::spec_is_vpn_name(name) {
        "VPN"
    } else {
        "LAN"
    }
}

/// Kind of the interface `name`; `wireless` tells whether
/// `/sys/class/net/<name>/wireless` exists.
pub fn iface_kind(name: &str, wireless: bool) -> (r: &'static str)
    ensures
        r == spec_iface_kind(name@, wireless),
{
    if wireless {
        "WLAN"
    } else if crate::hw::is_vpn_name(name) {
        "VPN"
    } else {
        "LAN"
    }
}


/// The CPU usage of any two samples lies between 0 and 100 %: the busy
/// time never exceeds the total time.
pub proof fn lemma_cpu_usage_bounded(prev: CpuTimes, cur: CpuTimes)
    ensures
        spec_cpu_delta(prev, cur).busy <= spec_cpu_delta(prev, cur).total,
{
}

/// A counter that went back (a reset or a new interface) counts as no
/// traffic, never as a huge wrapped amount.
pub proof fn lemma_rate_counter_back(pa: u64, pb: u64, pt: u64, cur: (u64, u64), now_ns: u64)
    requires
        now_ns > pt,
        cur.0 < pa,
    ensures
        spec_rate(Some((pa, pb, pt)), cur, now_ns) matches Some(d) && d.a == 0,
{
}

/// After the default-route interface changed, the next network sample
/// gives totals but no rate: no delta ever spans two interfaces.
pub proof fn lemma_no_rate_across_iface_change(
    prev: Option<(u64, u64, u64)>,
    old_iface: Option<Seq<char>>,
    new_iface: Option<Seq<char>>,
    bytes: (u64, u64),
    now_ns: u64,
)
    requires
        old_iface != new_iface,
    ensures
        spec_rate(spec_net_ref_after(prev, old_iface, new_iface), bytes, now_ns) is None,
{
}

/// After the delta references were dropped (a sleep), the first network or
/// disk sample gives no rate.
pub proof fn lemma_no_rate_after_reset(bytes: (u64, u64), now_ns: u64)
    ensures
        spec_rate(None, bytes, now_ns) is None,
{
}

/// Each core's usage is taken against that same core's previous sample:
/// for core `i`, the total time is how far its total counter rose, and the
/// busy time how much more that was than the rise of its idle counter
/// (counters that went back count as no time).
pub proof fn lemma_per_core_same_core(prev: Seq<CpuTimes>, cur: Seq<CpuTimes>, i: int)
    requires
        prev.len() == cur.len(),
        0 <= i < cur.len(),
    ensures
        spec_core_deltas(prev, cur).len() == cur.len(),
        ({
            let d = spec_core_deltas(prev, cur)[i];
            let dt: int = if cur[i].total >= prev[i].total {
                cur[i].total - prev[i].total
            } else {
                0
            };
            let di: int = if cur[i].idle >= prev[i].idle {
                cur[i].idle - prev[i].idle
            } else {
                0
            };
            &&& d.total == dt
            &&& d.busy == if dt >= di {
                dt - di
            } else {
                0
            }
        }),
{
}

/// The CPU time between two samples: the total is how far the total
/// counter rose, the busy time how much more that was than the rise of the
/// idle counter (counters that went back count as no time).
pub proof fn lemma_cpu_delta_rises(prev: CpuTimes, cur: CpuTimes)
    ensures
        ({
            let d = spec_cpu_delta(prev, cur);
            let dt: int = if cur.total >= prev.total {
                cur.total - prev.total
            } else {
                0
            };
            let di: int = if cur.idle >= prev.idle {
                cur.idle - prev.idle
            } else {
                0
            };
            &&& d.total == dt
            &&& d.busy == if dt >= di {
                dt - di
            } else {
                0
            }
        }),
{
}

/// A rate sample is taken against the previous sample of the same
/// counters: with a previous sample taken earlier, each counter gives how
/// far it rose since then (0 where it went back) over the time between;
/// without one, or with no time passed, there is no rate.
pub proof fn lemma_rate_against_previous(
    prev: Option<(u64, u64, u64)>,
    cur: (u64, u64),
    now_ns: u64,
)
    ensures
        match prev {
            Some((pa, pb, pt)) => if now_ns > pt {
                spec_rate(prev, cur, now_ns) matches Some(d) && d.dt_ns + pt == now_ns && (
                cur.0 >= pa ==> d.a + pa == cur.0) && (cur.0 < pa ==> d.a == 0) && (cur.1 >= pb
                    ==> d.b + pb == cur.1) && (cur.1 < pb ==> d.b == 0)
            } else {
                spec_rate(prev, cur, now_ns) is None
            },
            None => spec_rate(prev, cur, now_ns) is None,
        },
{
}

/// Used RAM is the total less the available memory, and used swap the swap
/// total less the free swap, each never below 0; the totals are passed on.
/// Without a meminfo reading everything is 0.
pub proof fn lemma_mem_used_is_total_less_free(m: MemInfo)
    ensures
        spec_mem_sample(Some(m)).total_kb == m.total,
        spec_mem_sample(Some(m)).swap_total_kb == m.swap_total,
        m.avail <= m.total ==> spec_mem_sample(Some(m)).used_kb + m.avail == m.total,
        m.avail > m.total ==> spec_mem_sample(Some(m)).used_kb == 0,
        m.swap_free <= m.swap_total ==> spec_mem_sample(Some(m)).swap_used_kb + m.swap_free
            == m.swap_total,
        m.swap_free > m.swap_total ==> spec_mem_sample(Some(m)).swap_used_kb == 0,
        spec_mem_sample(None) == (MemSample { used_kb: 0, total_kb: 0, swap_used_kb: 0, swap_total_kb: 0 }),
{
}

/// Used memory never exceeds the total, for RAM and swap alike.
pub proof fn lemma_mem_used_bounded(mi: Option<MemInfo>)
    ensures
        spec_mem_sample(mi).used_kb <= spec_mem_sample(mi).total_kb,
        spec_mem_sample(mi).swap_used_kb <= spec_mem_sample(mi).swap_total_kb,
{
}

} // verus!
