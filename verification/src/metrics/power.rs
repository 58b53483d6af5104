//! Power draw: RAPL (Intel "Running Average Power Limit") and the battery.
//!
//! RAPL exposes energy counters (µJ) under /sys/class/powercap; power is the
//! counter delta over time. `energy_uj` is readable by root only since
//! kernel 5.10 (CVE-2020-8694); without the optional udev rule the zones are
//! simply absent. The battery (power_now/voltage_now, world-readable) is the
//! fallback: on battery its discharge rate is the whole system's draw. On
//! AC it only measures the charge rate — then no total is given rather than
//! a misleading one.

use vstd::prelude::*;

use crate::hw::BAT_RESCAN_TICKS;
use crate::metrics::procfs::{opt_view, spec_counter};
use crate::text::{
    is_sorted_strs, parse_trimmed_u64, sort_strings, trim, trimmed_eq, wrap_add, wrapping_add,
};

verus! {

/// Charge state according to `BAT*/status`.
#[derive(Debug, Clone, Copy, PartialEq, Eq, Structural)]
pub enum BatStatus {
    Charging,
    Discharging,
    Full,
    Unknown,
}

impl Default for BatStatus {
    fn default() -> (r: Self)
        ensures
            r == BatStatus::Unknown,
    {
        BatStatus::Unknown
    }
}

/// The state a `status` file names, trimmed.
pub open spec fn spec_bat_status(text: Seq<char>) -> BatStatus {
    if trim(text) == "Charging"@ {
        BatStatus::Charging
    } else if trim(text) == "Discharging"@ {
        BatStatus::Discharging
    } else if trim(text) == "Full"@ {
        BatStatus::Full
    } else {
        BatStatus::Unknown
    }
}

pub fn parse_bat_status(text: &str) -> (r: BatStatus)
    ensures
        r == spec_bat_status(text@),
{
    if trimmed_eq(text, "Charging") {
        BatStatus::Charging
    } else if trimmed_eq(text, "Discharging") {
        BatStatus::Discharging
    } else if trimmed_eq(text, "Full") {
        BatStatus::Full
    } else {
        BatStatus::Unknown
    }
}

/// `(a - b) mod 2^64`, what `-` on `u64` gives in a release build.
pub open spec fn wrap_sub(a: u64, b: u64) -> u64 {
    if a >= b {
        (a - b) as u64
    } else {
        (a - b + 0x1_0000_0000_0000_0000) as u64
    }
}

/// Energy used between two counter readings `prev` and `cur` (µJ). A
/// counter that went back has wrapped at `max_range`: the rest up to the
/// limit plus the new reading. Without a known limit there is no figure.
pub open spec fn spec_energy_delta(cur: u64, prev: u64, max_range: u64) -> Option<u64> {
    if cur >= prev {
        Some((cur - prev) as u64)
    } else if max_range > 0 {
        Some(wrap_add(wrap_sub(max_range, prev), cur))
    } else {
        None
    }
}

/// One reading `cur` of a zone counter (`None`: unreadable) at `now_ns`,
/// against the reference `prev`: the new reference, and the energy and time
/// since the previous reading — nothing on the first reading, when no time
/// has passed, or when the counter went back without a known wrap limit.
/// An unreadable counter keeps the reference; a readable one replaces it.
pub open spec fn spec_zone_step(
    prev: Option<(u64, u64)>,
    max_range: u64,
    cur: Option<u64>,
    now_ns: u64,
) -> (Option<(u64, u64)>, Option<EnergyDelta>) {
    match cur {
        None => (prev, None),
        Some(c) => (
            Some((c, now_ns)),
            match prev {
                None => None,
                Some((p, pt)) => if now_ns <= pt {
                    None
                } else {
                    match spec_energy_delta(c, p, max_range) {
                        Some(d) => Some(EnergyDelta { delta_uj: d, dt_ns: (now_ns - pt) as u64 }),
                        None => None,
                    }
                },
            },
        ),
    }
}

/// Energy and time between two readings of a zone.
#[derive(Debug, Clone, Copy, PartialEq, Eq, Structural)]
pub struct EnergyDelta {
    pub delta_uj: u64,
    pub dt_ns: u64,
}

/// A RAPL zone with its counter state.
pub struct RaplZone {
    /// Its `energy_uj` file.
    energy_path: String,
    /// Wrap limit of the counter (`max_energy_range_uj`; 0 = unknown).
    max_range_uj: u64,
    /// Last reading and when it was taken (ns of a monotonic clock).
    prev: Option<(u64, u64)>,
}

impl RaplZone {
    pub closed spec fn spec_prev(&self) -> Option<(u64, u64)> {
        self.prev
    }

    pub closed spec fn spec_path(&self) -> Seq<char> {
        self.energy_path@
    }

    pub closed spec fn spec_max_range(&self) -> u64 {
        self.max_range_uj
    }

    /// Its `energy_uj` file.
    pub fn energy_path(&self) -> (r: &String)
        ensures
            r@ == self.spec_path(),
    {
        &self.energy_path
    }

    /// Wrap limit of the counter (0 = unknown).
    pub fn max_range_uj(&self) -> (r: u64)
        ensures
            r == self.spec_max_range(),
    {
        self.max_range_uj
    }

    pub fn new(energy_path: String, max_range_uj: u64) -> (r: Self)
        ensures
            r.spec_path() == energy_path@,
            r.spec_max_range() == max_range_uj,
            r.spec_prev() is None,
    {
        RaplZone { energy_path, max_range_uj, prev: None }
    }

    /// One counter reading `cur` (`None`: unreadable) taken at `now_ns`.
    /// Gives the energy and time since the previous reading; nothing on the
    /// first reading, when no time has passed, or when the counter went back
    /// without a known wrap limit. An unreadable counter leaves the state
    /// as it was; any readable one becomes the new reference.
    pub fn sample(&mut self, cur: Option<u64>, now_ns: u64) -> (r: Option<EnergyDelta>)
        ensures
            final(self).spec_path() == old(self).spec_path(),
            final(self).spec_max_range() == old(self).spec_max_range(),
            (final(self).spec_prev(), r) == spec_zone_step(
                old(self).spec_prev(),
                old(self).spec_max_range(),
                cur,
                now_ns,
            ),
    {
        let c = match cur {
            Some(c) => c,
            None => return None,
        };
        let prev = self.prev;
        self.prev = Some((c, now_ns));
        let (p, pt) = match prev {
            Some(x) => x,
            None => return None,
        };
        if now_ns <= pt {
            return None;
        }
        let dt_ns = now_ns - pt;
        let delta = if c >= p {
            c - p
        } else if self.max_range_uj > 0 {
            let rest = if self.max_range_uj >= p {
                self.max_range_uj - p
            } else {
                self.max_range_uj + (u64::MAX - p) + 1
            };
            wrapping_add(rest, c)
        } else {
            return None;
        };
        Some(EnergyDelta { delta_uj: delta, dt_ns })
    }

    /// Forgets the reference reading (after suspend).
    pub fn reset(&mut self)
        ensures
            final(self).spec_path() == old(self).spec_path(),
            final(self).spec_max_range() == old(self).spec_max_range(),
            final(self).spec_prev() is None,
    {
        self.prev = None;
    }
}

/// The wrap limit a `max_energy_range_uj` text gives: its number, else 0.
pub fn max_range_of(text: &Option<String>) -> (r: u64)
    ensures
        r == match spec_counter(opt_view(*text)) {
            Some(v) => v,
            None => 0,
        },
{
    match text {
        Some(t) => match parse_trimmed_u64(t.as_str()) {
            Some(v) => v,
            None => 0,
        },
        None => 0,
    }
}

/// A zone found at `energy_uj` file `z.0` with wrap limit `z.1`, as the
/// reader holds it before its first reading: no reference reading yet.
pub open spec fn spec_fresh_zone(z: Option<(String, u64)>) -> Option<(Option<(u64, u64)>, u64, Seq<char>)> {
    match z {
        Some((path, max)) => Some((None::<(u64, u64)>, max, path@)),
        None => None,
    }
}

/// The battery state of one reading: the first battery's status and the
/// power summed over all batteries (µW), where any reports one.
#[derive(Debug, Clone, Copy, PartialEq, Eq, Structural)]
pub struct BatteryState {
    pub status: BatStatus,
    pub power_uw: Option<u64>,
}

/// Sum modulo 2^64 of the readings that are there; `None` if none is.
pub open spec fn power_sum(xs: Seq<Option<u64>>) -> Option<u64>
    decreases xs.len(),
{
    if xs.len() == 0 {
        None
    } else {
        let p = power_sum(xs.drop_last());
        match xs.last() {
            Some(v) => Some(
                wrap_add(
                    match p {
                        Some(s) => s,
                        None => 0,
                    },
                    v,
                ),
            ),
            None => p,
        }
    }
}

/// Where the system total comes from.
#[derive(Debug, Clone, Copy, PartialEq, Eq, Structural)]
pub enum SysSource {
    /// RAPL `psys`.
    Psys,
    /// The battery's discharge power.
    Battery,
    /// No total.
    Absent,
}

/// How the power figures are put together from one reading.
#[derive(Debug, Clone, Copy, PartialEq, Eq, Structural)]
pub struct PowerPlan {
    pub sys: SysSource,
    /// The total would come from the battery (no psys zone): on AC there is
    /// then no total, and the popup says so.
    pub sys_from_battery: bool,
    /// Show the draw from the charger: psys plus the charge power.
    pub charger: bool,
}

/// The RAPL zones found and the cached battery paths.
pub struct PowerReader {
    /// CPU package (`package-0`).
    pkg: Option<RaplZone>,
    /// Whole platform (`psys`), not on every machine.
    psys: Option<RaplZone>,
    /// Cached battery directories. `None`: not scanned (yet);
    /// `Some(empty)`: there is no battery.
    bats: Option<Vec<String>>,
    /// Readings left until the next rescan of the battery directory.
    bat_rescan: u32,
}

impl PowerReader {
    pub open spec fn has_pkg(&self) -> bool {
        self.spec_pkg() is Some
    }

    /// Reference reading, wrap limit and path of the package zone.
    pub closed spec fn spec_pkg(&self) -> Option<(Option<(u64, u64)>, u64, Seq<char>)> {
        match self.pkg {
            Some(z) => Some((z.spec_prev(), z.spec_max_range(), z.spec_path())),
            None => None,
        }
    }

    /// Reference reading, wrap limit and path of the psys zone.
    pub closed spec fn spec_psys(&self) -> Option<(Option<(u64, u64)>, u64, Seq<char>)> {
        match self.psys {
            Some(z) => Some((z.spec_prev(), z.spec_max_range(), z.spec_path())),
            None => None,
        }
    }

    pub open spec fn has_psys(&self) -> bool {
        self.spec_psys() is Some
    }

    /// Neither zone holds a reference reading.
    pub open spec fn is_reset(&self) -> bool {
        &&& self.spec_pkg() matches Some(z) ==> z.0 is None
        &&& self.spec_psys() matches Some(z) ==> z.0 is None
    }

    pub closed spec fn spec_bats(&self) -> Option<Seq<String>> {
        match self.bats {
            Some(v) => Some(v@),
            None => None,
        }
    }

    pub closed spec fn spec_bat_rescan(&self) -> u32 {
        self.bat_rescan
    }

    /// A reader for the zones found, each given as its `energy_uj` file and
    /// wrap limit (`None` where a zone is missing or its counter
    /// unreadable). No zone holds a reference reading yet, so the first
    /// reading gives no power; batteries are scanned on the first reading.
    pub fn new(pkg: Option<(String, u64)>, psys: Option<(String, u64)>) -> (r: Self)
        ensures
            r.spec_pkg() == spec_fresh_zone(pkg),
            r.spec_psys() == spec_fresh_zone(psys),
            r.has_pkg() == pkg is Some,
            r.has_psys() == psys is Some,
            r.is_reset(),
            r.spec_bats() is None,
            r.spec_bat_rescan() == 0,
    {
        let pkg = match pkg {
            Some((path, max)) => Some(RaplZone::new(path, max)),
            None => None,
        };
        let psys = match psys {
            Some((path, max)) => Some(RaplZone::new(path, max)),
            None => None,
        };
        PowerReader { pkg, psys, bats: None, bat_rescan: 0 }
    }

    /// Forgets the counter references (after suspend), so that no delta
    /// spans the sleep.
    pub fn reset(&mut self)
        ensures
            final(self).is_reset(),
            final(self).spec_pkg() == match old(self).spec_pkg() {
                Some((_, max, path)) => Some((None::<(u64, u64)>, max, path)),
                None => None,
            },
            final(self).spec_psys() == match old(self).spec_psys() {
                Some((_, max, path)) => Some((None::<(u64, u64)>, max, path)),
                None => None,
            },
            final(self).has_pkg() == old(self).has_pkg(),
            final(self).has_psys() == old(self).has_psys(),
            final(self).spec_bats() == old(self).spec_bats(),
            final(self).spec_bat_rescan() == old(self).spec_bat_rescan(),
    {
        if let Some(mut z) = self.pkg.take() {
            z.reset();
            self.pkg = Some(z);
        }
        if let Some(mut z) = self.psys.take() {
            z.reset();
            self.psys = Some(z);
        }
    }

    /// The energy files to read: package and psys.
    pub fn zone_paths(&self) -> (r: (Option<&String>, Option<&String>))
        ensures
            crate::metrics::sensors::opt_view_ref(r.0) == match self.spec_pkg() {
                Some(z) => Some(z.2),
                None => None,
            },
            crate::metrics::sensors::opt_view_ref(r.1) == match self.spec_psys() {
                Some(z) => Some(z.2),
                None => None,
            },
            r.0 is Some == self.has_pkg(),
            r.1 is Some == self.has_psys(),
    {
        let a = match &self.pkg {
            Some(z) => Some(&z.energy_path),
            None => None,
        };
        let b = match &self.psys {
            Some(z) => Some(&z.energy_path),
            None => None,
        };
        (a, b)
    }

    /// Feeds one counter reading to each zone (see `RaplZone::sample`);
    /// readings for a missing zone are ignored.
    pub fn sample_zones(&mut self, pkg: Option<u64>, psys: Option<u64>, now_ns: u64) -> (r: (
        Option<EnergyDelta>,
        Option<EnergyDelta>,
    ))
        ensures
            final(self).has_pkg() == old(self).has_pkg(),
            final(self).has_psys() == old(self).has_psys(),
            final(self).spec_bats() == old(self).spec_bats(),
            final(self).spec_bat_rescan() == old(self).spec_bat_rescan(),
            match old(self).spec_pkg() {
                Some((prev, max, path)) => {
                    let (np, d) = spec_zone_step(prev, max, pkg, now_ns);
                    r.0 == d && final(self).spec_pkg() == Some((np, max, path))
                },
                None => r.0 is None && final(self).spec_pkg() is None,
            },
            match old(self).spec_psys() {
                Some((prev, max, path)) => {
                    let (np, d) = spec_zone_step(prev, max, psys, now_ns);
                    r.1 == d && final(self).spec_psys() == Some((np, max, path))
                },
                None => r.1 is None && final(self).spec_psys() is None,
            },
    {
        let a = match self.pkg.take() {
            Some(mut z) => {
                let d = z.sample(pkg, now_ns);
                self.pkg = Some(z);
                d
            },
            None => None,
        };
        let b = match self.psys.take() {
            Some(mut z) => {
                let d = z.sample(psys, now_ns);
                self.psys = Some(z);
                d
            },
            None => None,
        };
        (a, b)
    }

    /// Whether the next battery reading scans the battery directory: on the
    /// first reading, after a battery vanished, and every
    /// `BAT_RESCAN_TICKS` readings.
    pub fn needs_battery_scan(&self) -> (r: bool)
        ensures
            r == (self.spec_bats() is None || self.spec_bat_rescan() == 0),
    {
        self.bats.is_none() || self.bat_rescan == 0
    }

    /// Starts a battery reading. `scanned` is the result of a directory scan
    /// (sorted battery directories), taken where `needs_battery_scan` said
    /// so; a missing scan then counts as no battery.
    pub fn begin_battery_read(&mut self, scanned: Option<Vec<String>>)
        ensures
            final(self).has_pkg() == old(self).has_pkg(),
            final(self).has_psys() == old(self).has_psys(),
            (old(self).spec_bats() is None || old(self).spec_bat_rescan() == 0) ==> {
                &&& final(self).spec_bats() == Some(
                    match scanned {
                        Some(v) => v@,
                        None => Seq::<String>::empty(),
                    },
                )
                &&& final(self).spec_bat_rescan() == BAT_RESCAN_TICKS - 1
            },
            !(old(self).spec_bats() is None || old(self).spec_bat_rescan() == 0) ==> {
                &&& final(self).spec_bats() == old(self).spec_bats()
                &&& final(self).spec_bat_rescan() == old(self).spec_bat_rescan() - 1
            },
    {
        if self.bats.is_none() || self.bat_rescan == 0 {
            self.bats = Some(
                match scanned {
                    Some(v) => v,
                    None => Vec::new(),
                },
            );
            self.bat_rescan = BAT_RESCAN_TICKS;
        }
        self.bat_rescan = self.bat_rescan - 1;
    }

    /// The battery directories to read, the first being BAT0.
    pub fn battery_paths(&self) -> (r: Option<&Vec<String>>)
        ensures
            match r {
                Some(v) => self.spec_bats() == Some(v@),
                None => self.spec_bats() is None,
            },
    {
        match &self.bats {
            Some(v) => Some(v),
            None => None,
        }
    }

    /// Ends a battery reading: `first_status` is the text of the first
    /// battery's `status` (`None`: it could not be read), `power_uw` the
    /// `power_now` readings of the batteries in order. Where the first
    /// battery's status cannot be read it has gone: the cache is dropped
    /// (the next reading rescans) and there is no battery state (`None`).
    pub fn finish_battery_read(&mut self, first_status: &Option<String>, power_uw: &Vec<
        Option<u64>,
    >) -> (r: Option<BatteryState>)
        ensures
            final(self).has_pkg() == old(self).has_pkg(),
            final(self).has_psys() == old(self).has_psys(),
            final(self).spec_bat_rescan() == old(self).spec_bat_rescan(),
            ({
                let nonempty = old(self).spec_bats() matches Some(v) && v.len() > 0;
                &&& (nonempty && first_status is None) ==> (r is None
                    && final(self).spec_bats() is None)
                &&& !(nonempty && first_status is None) ==> {
                    &&& final(self).spec_bats() == old(self).spec_bats()
                    &&& r == Some(
                        BatteryState {
                            status: if nonempty {
                                spec_bat_status(opt_view(*first_status)->0)
                            } else {
                                BatStatus::Unknown
                            },
                            power_uw: power_sum(power_uw@),
                        },
                    )
                }
            }),
    {
        let nonempty = match &self.bats {
            Some(v) => v.len() > 0,
            None => false,
        };
        let mut status = BatStatus::Unknown;
        if nonempty {
            match first_status {
                Some(t) => {
                    status = parse_bat_status(t.as_str());
                },
                None => {
                    self.bats = None;
                    return None;
                },
            }
        }
        let mut sum: Option<u64> = None;
        let mut i: usize = 0;
        while i < power_uw.len()
            invariant
                i <= power_uw@.len(),
                sum == power_sum(power_uw@.take(i as int)),
            decreases power_uw@.len() - i,
        {
            assert(power_uw@.take(i + 1).drop_last() =~= power_uw@.take(i as int));
            match power_uw[i] {
                Some(v) => {
                    let base = match sum {
                        Some(s) => s,
                        None => 0,
                    };
                    sum = Some(wrapping_add(base, v));
                },
                None => {},
            }
            i = i + 1;
        }
        assert(power_uw@.take(power_uw@.len() as int) =~= power_uw@);
        Some(BatteryState { status, power_uw: sum })
    }

    /// How the figures are put together: with a psys reading the total is
    /// psys, and while charging with a known charge power the charger draw
    /// is psys plus it. Without a psys zone but with a battery voltage the
    /// total would come from the battery, and it does while discharging.
    pub fn plan(&self, psys_reading: bool, bat: &Option<BatteryState>, bat_voltage: bool) -> (r:
        PowerPlan)
        ensures
            r == spec_plan(self.has_psys(), psys_reading, *bat, bat_voltage),
    {
        let (status, power) = match bat {
            Some(b) => (b.status, b.power_uw.is_some()),
            None => (BatStatus::Unknown, false),
        };
        if psys_reading {
            PowerPlan {
                sys: SysSource::Psys,
                sys_from_battery: false,
                charger: status == BatStatus::Charging && power,
            }
        } else if self.psys.is_none() && bat_voltage {
            PowerPlan {
                sys: if status == BatStatus::Discharging {
                    SysSource::Battery
                } else {
                    SysSource::Absent
                },
                sys_from_battery: true,
                charger: false,
            }
        } else {
            PowerPlan { sys: SysSource::Absent, sys_from_battery: false, charger: false }
        }
    }
}

pub open spec fn spec_plan(
    has_psys: bool,
    psys_reading: bool,
    bat: Option<BatteryState>,
    bat_voltage: bool,
) -> PowerPlan {
    let status = match bat {
        Some(b) => b.status,
        None => BatStatus::Unknown,
    };
    let power = match bat {
        Some(b) => b.power_uw is Some,
        None => false,
    };
    if psys_reading {
        PowerPlan {
            sys: SysSource::Psys,
            sys_from_battery: false,
            charger: status == BatStatus::Charging && power,
        }
    } else if !has_psys && bat_voltage {
        PowerPlan {
            sys: if status == BatStatus::Discharging {
                SysSource::Battery
            } else {
                SysSource::Absent
            },
            sys_from_battery: true,
            charger: false,
        }
    } else {
        PowerPlan { sys: SysSource::Absent, sys_from_battery: false, charger: false }
    }
}

/// The word the battery row shows for a status.
pub open spec fn spec_status_word(s: BatStatus) -> Option<&'static str> {
    match s {
        BatStatus::Charging => Some("lädt"),
        BatStatus::Discharging => Some("entlädt"),
        BatStatus::Full => Some("voll · Netz"),
        BatStatus::Unknown => None,
    }
}

pub fn status_word(s: BatStatus) -> (r: Option<&'static str>)
    ensures
        r == spec_status_word(s),
{
    match s {
        BatStatus::Charging => Some("lädt"),
        BatStatus::Discharging => Some("entlädt"),
        BatStatus::Full => Some("voll · Netz"),
        BatStatus::Unknown => None,
    }
}

/// The battery row shows the power only while current flows.
pub fn shows_battery_power(s: BatStatus) -> (r: bool)
    ensures
        r == (s == BatStatus::Charging || s == BatStatus::Discharging),
{
    s == BatStatus::Charging || s == BatStatus::Discharging
}


/// A counter that wrapped at a known limit it had not passed gives the
/// true energy: the rest up to the limit plus the new reading.
pub proof fn lemma_energy_wrap(cur: u64, prev: u64, max_range: u64)
    requires
        cur < prev <= max_range,
        max_range - prev + cur <= u64::MAX,
    ensures
        spec_energy_delta(cur, prev, max_range) == Some((max_range - prev + cur) as u64),
{
}

/// A counter that went up gives its increase, whatever the limit.
pub proof fn lemma_energy_increase(cur: u64, prev: u64, max_range: u64)
    requires
        prev <= cur,
    ensures
        spec_energy_delta(cur, prev, max_range) == Some((cur - prev) as u64),
{
}

/// A reader whose zones hold no reference reading (a new one, or one reset
/// after a sleep) gives no power value on its next reading, whatever the
/// counters and the battery read: no package figure, and where there is a
/// psys zone no total, no battery fallback and no charger draw. No energy
/// delta ever spans a sleep or starts from nothing.
pub proof fn lemma_no_power_after_reset(
    p: PowerReader,
    pkg: Option<u64>,
    psys: Option<u64>,
    now_ns: u64,
    bat: Option<BatteryState>,
    bat_voltage: bool,
)
    requires
        p.is_reset(),
    ensures
        p.spec_pkg() matches Some(z) ==> spec_zone_step(z.0, z.1, pkg, now_ns).1 is None,
        p.spec_psys() matches Some(z) ==> {
            let psys_reading = spec_zone_step(z.0, z.1, psys, now_ns).1 is Some;
            &&& !psys_reading
            &&& spec_plan(p.has_psys(), psys_reading, bat, bat_voltage) == PowerPlan {
                sys: SysSource::Absent,
                sys_from_battery: false,
                charger: false,
            }
        },
{
}


/// How a reading's figures are put together, for every input. There is a
/// charger draw exactly when psys was read and the battery is charging with
/// a known charge power: never on battery, full or unknown. With a psys
/// reading the total is psys. Without one, a machine with no psys zone but
/// a battery voltage takes the total from the battery, and has one only
/// while discharging. Otherwise there is no total.
pub proof fn lemma_plan_sources(
    has_psys: bool,
    psys_reading: bool,
    bat: Option<BatteryState>,
    bat_voltage: bool,
)
    ensures
        ({
            let r = spec_plan(has_psys, psys_reading, bat, bat_voltage);
            let charging_known = match bat {
                Some(b) => b.status == BatStatus::Charging && b.power_uw is Some,
                None => false,
            };
            let discharging = match bat {
                Some(b) => b.status == BatStatus::Discharging,
                None => false,
            };
            &&& r.charger == (psys_reading && charging_known)
            &&& psys_reading ==> r.sys == SysSource::Psys && !r.sys_from_battery
            &&& (!psys_reading && !has_psys && bat_voltage) ==> {
                &&& r.sys_from_battery
                &&& (r.sys == SysSource::Battery) == discharging
                &&& r.sys != SysSource::Psys
            }
            &&& (!psys_reading && (has_psys || !bat_voltage)) ==> r.sys == SysSource::Absent
                && !r.sys_from_battery
        }),
{
}

/// The directories of `entries` (directory, text of its `type` file) whose
/// type, trimmed, is `Battery`, in order.
pub open spec fn battery_entries(entries: Seq<(String, Option<String>)>) -> Seq<String>
    decreases entries.len(),
{
    if entries.len() == 0 {
        seq![]
    } else {
        let p = battery_entries(entries.drop_last());
        let e = entries.last();
        match e.1 {
            Some(t) => if trim(t@) == "Battery"@ {
                p.push(e.0)
            } else {
                p
            },
            None => p,
        }
    }
}

/// The battery directories of a scan of the power-supply directory, sorted
/// so that BAT0 comes first.
pub fn select_batteries(entries: &Vec<(String, Option<String>)>) -> (r: Vec<String>)
    ensures
        is_sorted_strs(r@),
        r@.to_multiset() == battery_entries(entries@).to_multiset(),
{
    let mut found: Vec<String> = Vec::new();
    let mut i: usize = 0;
    while i < entries.len()
        invariant
            i <= entries@.len(),
            found@ == battery_entries(entries@.take(i as int)),
        decreases entries@.len() - i,
    {
        assert(entries@.take(i + 1).drop_last() =~= entries@.take(i as int));
        let e = &entries[i];
        match &e.1 {
            Some(t) => {
                if trimmed_eq(t.as_str(), "Battery") {
                    found.push(e.0.clone());
                }
            },
            None => {},
        }
        i = i + 1;
    }
    assert(entries@.take(entries@.len() as int) =~= entries@);
    sort_strings(&found)
}

} // verus!
