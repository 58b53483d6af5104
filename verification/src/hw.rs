//! HARDWARE ADAPTATION — the one file to touch for other hardware.
//!
//! All board- and driver-specific paths and sensor identifiers are gathered
//! here. On other hardware mostly the hwmon chip names (CPU/RAM temperature,
//! fans) and possibly the GPU detection differ.
//!
//! Chip names of the running system:
//!
//! ```sh
//! for f in /sys/class/hwmon/hwmon*/name; do echo "$f -> $(cat "$f")"; done
//! ```
//!
//! Temperature labels of a chip:
//!
//! ```sh
//! grep . /sys/class/hwmon/hwmon*/temp*_label
//! ```
//!
//! Everything here is only read: no subprocesses, no network, no writes.

use vstd::prelude::*;

verus! {

// ---- hwmon (most likely to need changes) ----

/// Number of (chip, label) pairs tried for the CPU package temperature.
pub const CPU_TEMP_CANDIDATES: usize = 2;

pub open spec fn spec_cpu_temp_chip(rank: int) -> &'static str {
    if rank == 0 {
        "coretemp"
    } else {
        "k10temp"
    }
}

pub open spec fn spec_cpu_temp_label(rank: int) -> &'static str {
    if rank == 0 {
        "Package id 0"
    } else {
        "Tctl"
    }
}

/// CPU package temperature, candidate `rank`: the hwmon chip name. The
/// candidates are tried in order; the first hit wins. Intel: `coretemp`,
/// AMD: `k10temp`.
pub fn cpu_temp_chip(rank: usize) -> (r: &'static str)
    requires
        rank < CPU_TEMP_CANDIDATES,
    ensures
        r == spec_cpu_temp_chip(rank as int),
{
    if rank == 0 {
        "coretemp"
    } else {
        "k10temp"
    }
}

/// CPU package temperature, candidate `rank`: the wanted `temp*_label`.
/// Intel: "Package id 0", AMD: "Tctl".
pub fn cpu_temp_label(rank: usize) -> (r: &'static str)
    requires
        rank < CPU_TEMP_CANDIDATES,
    ensures
        r == spec_cpu_temp_label(rank as int),
{
    if rank == 0 {
        "Package id 0"
    } else {
        "Tctl"
    }
}

/// Fallback chip for the CPU temperature (its `temp1_input`).
pub const CPU_TEMP_FALLBACK_CHIP: &'static str = "acpitz";

/// hwmon chip of the RAM temperature (`temp1_input`), often `spd5118` (DDR5).
/// Without it the RAM temperature is simply not shown.
pub const RAM_TEMP_CHIP: &'static str = "spd5118";

/// hwmon chip of the fan speeds (`fan1_input` … `fanN_input`).
/// ThinkPad: `thinkpad`; others use e.g. `dell_smm` or `nct6…`.
pub const FAN_CHIP: &'static str = "thinkpad";

/// Highest fan index looked at (`fan1_input` … `fan{N}_input`).
pub const FAN_MAX_INDEX: u32 = 4;

// ---- GPU (NVIDIA / PRIME) ----

/// Source of the PRIME mode (contents: `on-demand` | `on` | `off`).
pub const PRIME_DISCRETE_PATH: &'static str = "/etc/prime-discrete";

/// PCI devices (dGPU detection and RTD3 state).
pub const PCI_DEVICES_DIR: &'static str = "/sys/bus/pci/devices";

/// PCI vendor id of NVIDIA.
pub const NVIDIA_VENDOR_ID: &'static str = "0x10de";

/// PCI class prefix "display controller" (0x03xxxx).
pub const DISPLAY_CLASS_PREFIX: &'static str = "0x03";

/// Runtime power state of a PCI device, relative to its directory
/// (`active` | `suspended`).
pub const RUNTIME_STATUS_REL: &'static str = "power/runtime_status";

// ---- Network ----

/// Base of the network interfaces.
pub const SYS_CLASS_NET: &'static str = "/sys/class/net";

/// Interface names that count as VPN (else LAN; WLAN via `…/<if>/wireless`):
/// those beginning with `tun`, `tap`, `wg` or `ppp`.
pub open spec fn spec_is_vpn_name(name: Seq<char>) -> bool {
    ||| crate::text::has_prefix(name, "tun"@)
    ||| crate::text::has_prefix(name, "tap"@)
    ||| crate::text::has_prefix(name, "wg"@)
    ||| crate::text::has_prefix(name, "ppp"@)
}

pub fn is_vpn_name(name: &str) -> (r: bool)
    ensures
        r == spec_is_vpn_name(name@),
{
    crate::text::str_starts_with(name, "tun") || crate::text::str_starts_with(name, "tap")
        || crate::text::str_starts_with(name, "wg") || crate::text::str_starts_with(name, "ppp")
}

// ---- Power ----

/// RAPL zones (`/sys/class/powercap/*/name`).
pub const POWERCAP_DIR: &'static str = "/sys/class/powercap";

pub const RAPL_PKG_ZONE: &'static str = "package-0";

pub const RAPL_PSYS_ZONE: &'static str = "psys";

/// Energy counter of a zone (µJ).
pub const RAPL_ENERGY_FILE: &'static str = "energy_uj";

/// Wrap limit of a zone's energy counter (µJ).
pub const RAPL_MAX_ENERGY_FILE: &'static str = "max_energy_range_uj";

/// Readings above this many watts are discarded as implausible.
pub const POWER_SANITY_MAX_W: u32 = 1000;

/// Batteries (`type == Battery`).
pub const POWER_SUPPLY_DIR: &'static str = "/sys/class/power_supply";

/// Battery readings between two rescans of `POWER_SUPPLY_DIR`.
pub const BAT_RESCAN_TICKS: u32 = 40;

// ---- Standard paths (rarely changed) ----

pub const PROC_STAT: &'static str = "/proc/stat";

pub const PROC_MEMINFO: &'static str = "/proc/meminfo";

pub const PROC_NET_ROUTE: &'static str = "/proc/net/route";

pub const PROC_LOADAVG: &'static str = "/proc/loadavg";

pub const PROC_UPTIME: &'static str = "/proc/uptime";

pub const PROC_DISKSTATS: &'static str = "/proc/diskstats";

/// Bytes per sector as /proc/diskstats counts them.
pub const DISK_SECTOR_BYTES: u64 = 512;

pub const SYS_CLASS_HWMON: &'static str = "/sys/class/hwmon";

} // verus!
