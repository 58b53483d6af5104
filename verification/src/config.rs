//! Persistent settings of the applet and the small rules that change them.

use vstd::prelude::*;

verus! {

/// Persistent configuration. Only plain values, so that it can be stored
/// and watched as is.
#[derive(Debug, Clone, PartialEq, Eq)]
pub struct Config {
    /// Refresh interval in milliseconds.
    pub interval_ms: u64,
    /// Which metric rows appear in the popup.
    pub show_cpu: bool,
    pub show_cpu_temp: bool,
    pub show_mem: bool,
    pub show_net: bool,
    pub show_gpu: bool,
    pub show_fans: bool,
    /// Power draw (system/CPU/GPU in watts).
    pub show_power: bool,
    /// Split the watts row into CPU/GPU parts (else only the total).
    pub power_breakdown: bool,
    /// Battery row (voltage, charge state).
    pub show_battery: bool,
    /// Disk I/O rate (read/write).
    pub show_disk: bool,
    /// Swap row (only shown when swap is configured).
    pub show_swap: bool,
    /// Load average (1/5/15 min).
    pub show_load: bool,
    /// Uptime row.
    pub show_uptime: bool,
    /// Cumulative network traffic (RX/TX since boot).
    pub show_net_total: bool,
    /// Order of the metrics in the popup, as ids (see `MetricKind`).
    /// 0=CPU, 1=RAM, 2=Net, 3=GPU, 4=Fans, 5=Cores, 6=Watts, 7=Battery,
    /// 8=Disk, 9=Swap, 10=Load, 11=Uptime, 12=Net total.
    pub metric_order: Vec<u8>,
    /// Temperatures in °F instead of °C.
    pub fahrenheit: bool,
    /// Network unit: 0 = SI (MB/s), 1 = binary (MiB/s), 2 = bits (Mbit/s).
    pub net_unit: u8,
    /// Monospace font for values.
    pub mono_font: bool,
    /// Hide the dGPU row while it sleeps instead of saying so.
    pub hide_gpu_when_asleep: bool,
    /// Warning / critical thresholds for temperatures (°C).
    pub warn_temp_c: u32,
    pub crit_temp_c: u32,
    /// Per-core CPU usage rows.
    pub per_core: bool,
    /// Usage bars for CPU/RAM/GPU.
    pub graphical: bool,
    /// History graphs (sparklines), master switch.
    pub show_graphs: bool,
    /// Per-metric sparkline switches (effective only with the master switch).
    pub graph_cpu: bool,
    pub graph_mem: bool,
    pub graph_net: bool,
    pub graph_power: bool,
    /// Metric labels in the system accent colour.
    pub accent_labels: bool,
    /// A compact value next to the panel icon (horizontal panel only).
    pub panel_text: bool,
    /// Which metric the panel text shows (0=CPU, 1=RAM, 2=Net, 3=GPU, 6=Watts).
    pub panel_metric: u8,
}

/// The shipped metric order: every id once, ascending.
pub open spec fn default_order() -> Seq<u8> {
    seq![0u8, 1u8, 2u8, 3u8, 4u8, 5u8, 6u8, 7u8, 8u8, 9u8, 10u8, 11u8, 12u8]
}

impl Config {
    /// The settings a fresh installation starts with.
    pub open spec fn is_default(&self) -> bool {
        &&& self.interval_ms == 1500
        &&& self.show_cpu
        &&& self.show_cpu_temp
        &&& self.show_mem
        &&& self.show_net
        &&& self.show_gpu
        &&& self.show_fans
        &&& self.show_power
        &&& self.power_breakdown
        &&& !self.show_battery
        &&& !self.show_disk
        &&& !self.show_swap
        &&& !self.show_load
        &&& !self.show_uptime
        &&& !self.show_net_total
        &&& self.metric_order@ == default_order()
        &&& !self.fahrenheit
        &&& self.net_unit == 0
        &&& self.mono_font
        &&& !self.hide_gpu_when_asleep
        &&& self.warn_temp_c == 80
        &&& self.crit_temp_c == 90
        &&& self.per_core
        &&& !self.graphical
        &&& self.show_graphs
        &&& self.graph_cpu
        &&& self.graph_mem
        &&& self.graph_net
        &&& self.graph_power
        &&& self.accent_labels
        &&& !self.panel_text
        &&& self.panel_metric == 0
    }
}

impl Default for Config {
    fn default() -> (r: Self)
        ensures
            r.is_default(),
    {
        let r = Config {
            interval_ms: 1500,
            show_cpu: true,
            show_cpu_temp: true,
            show_mem: true,
            show_net: true,
            show_gpu: true,
            show_fans: true,
            show_power: true,
            power_breakdown: true,
            show_battery: false,
            show_disk: false,
            show_swap: false,
            show_load: false,
            show_uptime: false,
            show_net_total: false,
            metric_order: vec![0, 1, 2, 3, 4, 5, 6, 7, 8, 9, 10, 11, 12],
            fahrenheit: false,
            net_unit: 0,
            mono_font: true,
            hide_gpu_when_asleep: false,
            warn_temp_c: 80,
            crit_temp_c: 90,
            per_core: true,
            graphical: false,
            show_graphs: true,
            graph_cpu: true,
            graph_mem: true,
            graph_net: true,
            graph_power: true,
            accent_labels: true,
            panel_text: false,
            panel_metric: 0,
        };
        assert(r.metric_order@ =~= default_order());
        r
    }
}

/// Shortest refresh interval the applet runs at (ms).
pub const MIN_INTERVAL_MS: u64 = 250;

/// The interval actually used for a requested one: never below 250 ms.
pub fn clamp_interval(ms: u64) -> (r: u64)
    ensures
        r == if ms < MIN_INTERVAL_MS {
            MIN_INTERVAL_MS
        } else {
            ms
        },
{
    if ms < MIN_INTERVAL_MS {
        MIN_INTERVAL_MS
    } else {
        ms
    }
}

/// Number of network units the setting cycles through.
pub const NET_UNITS: u8 = 3;

/// The unit after `cur` when the setting is clicked: `(cur + 1) % 3`, the
/// `u8` increment wrapping at 255.
pub fn next_net_unit(cur: u8) -> (r: u8)
    ensures
        r == (if cur == 255 {
            0
        } else {
            cur + 1
        }) % 3,
        r < NET_UNITS,
{
    let n: u8 = if cur == 255 {
        0
    } else {
        cur + 1
    };
    n % NET_UNITS
}

/// The settings label of a network unit.
pub open spec fn spec_net_unit_label(unit: u8) -> &'static str {
    if unit == 1 {
        "MiB/s (binär)"
    } else if unit == 2 {
        "Mbit/s (Bit)"
    } else {
        "MB/s (SI)"
    }
}

pub fn net_unit_label(unit: u8) -> (r: &'static str)
    ensures
        r == spec_net_unit_label(unit),
{
    if unit == 1 {
        "MiB/s (binär)"
    } else if unit == 2 {
        "Mbit/s (Bit)"
    } else {
        "MB/s (SI)"
    }
}

} // verus!
