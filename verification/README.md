# Vitals — system monitor applet for the COSMIC panel

Shows CPU/RAM usage, temperatures, network and disk throughput, power draw
and the state of an NVIDIA dGPU. It only reads `/proc`, `/sys` and NVML
in-process, never spawns a subprocess, and never wakes a sleeping dGPU.

## Layout

- `src/` — the library, verified with Verus:
  - `text.rs`: line and word splitting, trimming and `u64` parsing as the
    standard library does them, stated over `Seq<char>`; decimal rendering;
    string ordering and sorting.
  - `metrics/procfs.rs`: parsers of /proc/stat, /proc/meminfo,
    /proc/diskstats, /proc/net/route and one-number sysfs files.
  - `metrics/mod.rs`: the `Collector` — CPU, disk and network deltas between
    ticks, interface changes, suspend handling, and which sensor values a
    tick reads (none with the popup closed).
  - `metrics/sensors.rs`: hwmon sensor resolution and caching.
  - `metrics/power.rs`: RAPL counter deltas (wrap-around included), battery
    cache and the way the power figures are combined.
  - `metrics/gpu.rs`: PRIME mode, dGPU detection and the NVML reader. Its
    contract states that without live values (dGPU absent, not `active`, or
    popup closed) the reading is the sysfs one and the NVML handle is
    released; that NVML is not called then, so a sleeping dGPU is not woken,
    is how the code is written, not something the contract states.
  - `metric.rs`, `config.rs`: metric catalogue, metric order normalisation,
    settings and their update rules.
  - `format.rs`, `history.rs`, `hw.rs`: integer value texts, history ring
    buffers, hardware paths and names.
  - `refresh.rs`: the guard that lets one background collection run at a
    time and runs a live request made meanwhile right after it.
- `app/` — the applet: file reads, floating-point values and formatting,
  and the libcosmic UI.
- `tests/` — tests of the library.
