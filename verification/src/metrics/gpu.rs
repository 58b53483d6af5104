//! GPU/NVIDIA: the PRIME mode and the dGPU's runtime state come from sysfs
//! (which never wakes the GPU). Usage, temperature, VRAM and power come from
//! NVML in-process, and only while the dGPU is `active` according to sysfs
//! and live values are wanted — a sleeping dGPU is never woken, and the
//! NVML handle is released whenever it is not needed.

use vstd::prelude::*;

use crate::metrics::procfs::opt_view;
use crate::text::{trim, trimmed_eq, trimmed_starts_with};
use nvml_wrapper::error::NvmlError;
use nvml_wrapper::{Device, Nvml};

verus! {

#[verifier::external_type_specification]
#[verifier::external_body]
pub struct ExNvml(Nvml);

#[verifier::external_type_specification]
#[verifier::external_body]
pub struct ExNvmlError(NvmlError);

#[verifier::external_type_specification]
#[verifier::external_body]
pub struct ExDevice<'nvml>(Device<'nvml>);

/// `Nvml::init`: loads libnvidia-ml and initialises it. Whether it succeeds
/// depends on the machine, so nothing is claimed of the result.
#[verifier::external_body]
fn nvml_init() -> (r: Result<Nvml, NvmlError>) {
    Nvml::init()
}

/// `Nvml::device_by_index`: the handle of the GPU with the given index.
/// Depends on the machine; nothing is claimed.
#[verifier::external_body]
fn nvml_device_by_index<'a>(nvml: &'a Nvml, index: u32) -> (r: Result<Device<'a>, NvmlError>) {
    nvml.device_by_index(index)
}

/// `Device::utilization_rates`, of which only the `gpu` figure is given:
/// the percentage of time the GPU was busy. A live reading; nothing is
/// claimed.
#[verifier::external_body]
fn device_gpu_utilization(dev: &Device) -> (r: Result<u32, NvmlError>) {
    dev.utilization_rates().map(|u| u.gpu)
}

/// `Device::temperature` of the GPU die sensor (`TemperatureSensor::Gpu`),
/// in °C. A live reading; nothing is claimed.
#[verifier::external_body]
fn device_temperature_gpu(dev: &Device) -> (r: Result<u32, NvmlError>) {
    dev.temperature(nvml_wrapper::enum_wrappers::device::TemperatureSensor::Gpu)
}

/// `Device::memory_info`, its `MemoryInfo` given as the pair (`used`,
/// `total`) in bytes. A live reading; nothing is claimed.
#[verifier::external_body]
fn device_memory_info(dev: &Device) -> (r: Result<(u64, u64), NvmlError>) {
    dev.memory_info().map(|m| (m.used, m.total))
}

/// `Device::power_usage`: draw of the board in milliwatts. A live reading;
/// nothing is claimed.
#[verifier::external_body]
fn device_power_usage(dev: &Device) -> (r: Result<u32, NvmlError>) {
    dev.power_usage()
}

/// PRIME mode of the machine.
#[derive(Debug, Clone, Copy, PartialEq, Eq, Structural)]
pub enum GpuMode {
    Hybrid,
    Nvidia,
    Integrated,
    Unknown,
}

impl GpuMode {
    pub open spec fn spec_label(self) -> &'static str {
        match self {
            GpuMode::Hybrid => "hybrid",
            GpuMode::Nvidia => "nvidia",
            GpuMode::Integrated => "integriert",
            GpuMode::Unknown => "?",
        }
    }

    pub fn label(self) -> (r: &'static str)
        ensures
            r == self.spec_label(),
    {
        match self {
            GpuMode::Hybrid => "hybrid",
            GpuMode::Nvidia => "nvidia",
            GpuMode::Integrated => "integriert",
            GpuMode::Unknown => "?",
        }
    }
}

impl Default for GpuMode {
    fn default() -> (r: Self)
        ensures
            r == GpuMode::Unknown,
    {
        GpuMode::Unknown
    }
}

/// What the GPU row shows.
#[derive(Debug, Clone, Copy, PartialEq, Eq, Structural)]
pub struct GpuInfo {
    pub mode: GpuMode,
    /// An NVIDIA dGPU is present.
    pub present: bool,
    /// The dGPU is awake (`runtime_status == active`).
    pub awake: bool,
    pub util: Option<u32>,
    pub temp_c: Option<u32>,
    /// Used / total VRAM in MiB (only while the dGPU is active).
    pub vram_used_mb: Option<u32>,
    pub vram_total_mb: Option<u32>,
    /// Board power draw in milliwatts.
    pub power_mw: Option<u32>,
}

/// The PRIME mode that the contents of `/etc/prime-discrete` name; a file
/// that could not be read counts as unknown.
pub open spec fn spec_mode_of(prime: Option<Seq<char>>) -> GpuMode {
    match prime {
        Some(t) => if trim(t) == "on-demand"@ {
            GpuMode::Hybrid
        } else if trim(t) == "on"@ {
            GpuMode::Nvidia
        } else if trim(t) == "off"@ {
            GpuMode::Integrated
        } else {
            GpuMode::Unknown
        },
        None => GpuMode::Unknown,
    }
}

pub fn mode_of(prime: &Option<String>) -> (r: GpuMode)
    ensures
        r == spec_mode_of(opt_view(*prime)),
{
    match prime {
        Some(t) => if trimmed_eq(t.as_str(), "on-demand") {
            GpuMode::Hybrid
        } else if trimmed_eq(t.as_str(), "on") {
            GpuMode::Nvidia
        } else if trimmed_eq(t.as_str(), "off") {
            GpuMode::Integrated
        } else {
            GpuMode::Unknown
        },
        None => GpuMode::Unknown,
    }
}

/// A PCI device is the NVIDIA display controller: vendor `0x10de` and a
/// class beginning with `0x03` (display controller), both trimmed.
pub open spec fn spec_is_nvidia_display(vendor: Seq<char>, class: Seq<char>) -> bool {
    &&& trim(vendor) == "0x10de"@
    &&& "0x03"@.len() <= trim(class).len()
    &&& trim(class).subrange(0, "0x03"@.len() as int) == "0x03"@
}

/// A PCI device counts as the NVIDIA dGPU exactly when its trimmed vendor
/// is `0x10de` and its trimmed class begins with the characters `0`, `x`,
/// `0`, `3`: every display controller subclass (VGA `0x0300..`, 3D
/// `0x0302..`, other `0x0380..`) is accepted.
pub proof fn lemma_nvidia_display_classes(vendor: Seq<char>, class: Seq<char>)
    ensures
        spec_is_nvidia_display(vendor, class) == ({
            let c = trim(class);
            &&& trim(vendor) == "0x10de"@
            &&& c.len() >= 4
            &&& c[0] == '0'
            &&& c[1] == 'x'
            &&& c[2] == '0'
            &&& c[3] == '3'
        }),
{
    reveal_strlit("0x03");
    let c = trim(class);
    if c.len() >= 4 && c[0] == '0' && c[1] == 'x' && c[2] == '0' && c[3] == '3' {
        assert(c.subrange(0, 4) =~= "0x03"@);
    }
    if 4 <= c.len() && c.subrange(0, 4) == "0x03"@ {
        assert(c[0] == c.subrange(0, 4)[0]);
        assert(c[1] == c.subrange(0, 4)[1]);
        assert(c[2] == c.subrange(0, 4)[2]);
        assert(c[3] == c.subrange(0, 4)[3]);
    }
}

pub fn is_nvidia_display(vendor: &str, class: &str) -> (r: bool)
    ensures
        r == spec_is_nvidia_display(vendor@, class@),
{
    trimmed_eq(vendor, "0x10de") && trimmed_starts_with(class, "0x03")
}

/// The dGPU is awake: its `runtime_status`, trimmed, reads `active`.
pub open spec fn spec_is_awake(status: Option<Seq<char>>) -> bool {
    match status {
        Some(t) => trim(t) == "active"@,
        None => false,
    }
}

/// MiB of a byte count, cut to `u32` as `as u32` does.
pub open spec fn mib(b: u64) -> u32 {
    (b / 1048576) as u32
}

/// The GPU info `base` with the live NVML values filled in: usage %,
/// temperature °C, VRAM (used, total) in bytes turned into MiB, and power.
pub open spec fn spec_with_live(
    base: GpuInfo,
    util: Option<u32>,
    temp: Option<u32>,
    mem: Option<(u64, u64)>,
    power_mw: Option<u32>,
) -> GpuInfo {
    GpuInfo {
        util,
        temp_c: temp,
        vram_used_mb: match mem {
            Some(m) => Some(mib(m.0)),
            None => None,
        },
        vram_total_mb: match mem {
            Some(m) => Some(mib(m.1)),
            None => None,
        },
        power_mw,
        ..base
    }
}

pub fn with_live(
    base: GpuInfo,
    util: Option<u32>,
    temp: Option<u32>,
    mem: Option<(u64, u64)>,
    power_mw: Option<u32>,
) -> (r: GpuInfo)
    ensures
        r == spec_with_live(base, util, temp, mem, power_mw),
{
    let (used, total) = match mem {
        Some(m) => (Some((m.0 / 1048576) as u32), Some((m.1 / 1048576) as u32)),
        None => (None, None),
    };
    GpuInfo {
        util,
        temp_c: temp,
        vram_used_mb: used,
        vram_total_mb: total,
        power_mw,
        ..base
    }
}

/// NVML index of the dGPU whose values are read: the first device.
pub const NVML_DEVICE_INDEX: u32 = 0;

/// Ticks to wait after a failed NVML initialisation before trying again.
pub const NVML_RETRY_TICKS: u8 = 20;

/// What one reading (`GpuReader::read`) does, from the reader `before` to
/// the reader `after`, giving `r`. Without live values (no dGPU, asleep, or
/// not wanted) it gives the base info and releases the handle. With them it
/// keeps a handle it has; without one it waits out the backoff, or tries an
/// initialisation, which either gives a handle or starts the backoff anew.
/// It then gives the base info with NVML's values filled in (none without a
/// handle).
pub open spec fn spec_read_outcome(
    before: GpuReader,
    after: GpuReader,
    want_live: bool,
    prime: Option<Seq<char>>,
    status: Option<Seq<char>>,
    r: GpuInfo,
) -> bool {
    let base = before.spec_base(prime, status);
    let live = base.present && base.awake && want_live;
    &&& after.spec_pci_path() == before.spec_pci_path()
    &&& !live ==> {
        &&& r == base
        &&& !after.has_handle()
        &&& after.spec_backoff() == before.spec_backoff()
    }
    &&& live ==> {
        &&& before.has_handle() ==> after.has_handle() && after.spec_backoff()
            == before.spec_backoff()
        &&& (!before.has_handle() && before.spec_backoff() > 0) ==> (!after.has_handle()
            && after.spec_backoff() == before.spec_backoff() - 1)
        &&& (!before.has_handle() && before.spec_backoff() == 0) ==> ((after.has_handle()
            && after.spec_backoff() == 0) || (!after.has_handle() && after.spec_backoff()
            == NVML_RETRY_TICKS))
        &&& !after.has_handle() ==> r == base
        &&& exists|u: Option<u32>, t: Option<u32>, m: Option<(u64, u64)>, p: Option<u32>|
            r == spec_with_live(base, u, t, m, p)
    }
}

/// Reads the GPU; owns the NVML handle while it is needed.
pub struct GpuReader {
    nvml: Option<Nvml>,
    /// Ticks to wait before the next NVML initialisation attempt.
    backoff: u8,
    pci_path: Option<String>,
}

impl GpuReader {
    pub closed spec fn has_handle(&self) -> bool {
        self.nvml is Some
    }

    pub closed spec fn spec_backoff(&self) -> u8 {
        self.backoff
    }

    pub closed spec fn spec_pci_path(&self) -> Option<Seq<char>> {
        opt_view(self.pci_path)
    }

    /// A reader for the NVIDIA display device at `pci_path` (`None`: there
    /// is no NVIDIA dGPU). No NVML handle is held yet.
    pub fn new(pci_path: Option<String>) -> (r: Self)
        ensures
            r.spec_pci_path() == opt_view(pci_path),
            !r.has_handle(),
            r.spec_backoff() == 0,
    {
        GpuReader { nvml: None, backoff: 0, pci_path }
    }

    /// The sysfs directory of the dGPU, where there is one.
    pub fn pci_path(&self) -> (r: Option<&String>)
        ensures
            match r {
                Some(p) => self.spec_pci_path() == Some(p@),
                None => self.spec_pci_path() is None,
            },
    {
        match &self.pci_path {
            Some(p) => Some(p),
            None => None,
        }
    }

    /// The info without live values: mode, presence and awake state.
    pub open spec fn spec_base(&self, prime: Option<Seq<char>>, status: Option<Seq<char>>) -> GpuInfo {
        let present = self.spec_pci_path() is Some;
        GpuInfo {
            mode: spec_mode_of(prime),
            present,
            awake: present && spec_is_awake(status),
            util: None,
            temp_c: None,
            vram_used_mb: None,
            vram_total_mb: None,
            power_mw: None,
        }
    }

    /// One reading. `prime` is the contents of `/etc/prime-discrete`,
    /// `status` that of the dGPU's `power/runtime_status` (each `None` where
    /// it could not be read). NVML is touched only when the dGPU is present,
    /// awake and `want_live` is set; otherwise the handle is released. After
    /// a failed initialisation the next `NVML_RETRY_TICKS` such readings do
    /// not try again. The live values come from the NVML device
    /// `NVML_DEVICE_INDEX`: its usage (the `gpu` figure of
    /// `utilization_rates`), die temperature, memory info and power usage.
    /// As they depend on the machine, the contract says only that they are
    /// some such values; which device and which NVML calls are made is not
    /// stated, only fixed in the code.
    pub fn read(&mut self, want_live: bool, prime: &Option<String>, status: &Option<String>) -> (r:
        GpuInfo)
        ensures
            spec_read_outcome(*old(self), *final(self), want_live, opt_view(*prime), opt_view(*status), r),
    {
        let mode = mode_of(prime);
        let mut info = GpuInfo {
            mode,
            present: false,
            awake: false,
            util: None,
            temp_c: None,
            vram_used_mb: None,
            vram_total_mb: None,
            power_mw: None,
        };
        if self.pci_path.is_none() {
            self.nvml = None;
            return info;
        }
        info.present = true;
        let awake = match status {
            Some(s) => trimmed_eq(s.as_str(), "active"),
            None => false,
        };
        info.awake = awake;
        if !awake || !want_live {
            self.nvml = None;
            return info;
        }
        if self.nvml.is_none() {
            if self.backoff == 0 {
                match nvml_init() {
                    Ok(n) => self.nvml = Some(n),
                    Err(_) => self.backoff = NVML_RETRY_TICKS,
                }
            } else {
                self.backoff = self.backoff - 1;
            }
        }
        let ghost base = info;
        assert(base == spec_with_live(base, None, None, None, None));
        match &self.nvml {
            Some(nvml) => match nvml_device_by_index(nvml, NVML_DEVICE_INDEX) {
                Ok(dev) => {
                    let util = match device_gpu_utilization(&dev) {
                        Ok(u) => Some(u),
                        Err(_) => None,
                    };
                    let temp = match device_temperature_gpu(&dev) {
                        Ok(t) => Some(t),
                        Err(_) => None,
                    };
                    let mem = match device_memory_info(&dev) {
                        Ok(m) => Some(m),
                        Err(_) => None,
                    };
                    let power = match device_power_usage(&dev) {
                        Ok(p) => Some(p),
                        Err(_) => None,
                    };
                    with_live(info, util, temp, mem, power)
                },
                Err(_) => info,
            },
            None => info,
        }
    }
}

} // verus!
