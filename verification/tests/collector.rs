use vitals::metrics::gpu::{is_nvidia_display, mode_of, GpuMode, GpuReader};
use vitals::metrics::power::{
    max_range_of, parse_bat_status, shows_battery_power, status_word, BatStatus, BatteryState,
    EnergyDelta, PowerReader, RaplZone, SysSource,
};
use vitals::metrics::procfs::{CpuTimes, MemInfo};
use vitals::metrics::sensors::{cpu_label_for, join_path, HwmonChip, SensorPaths};
use vitals::metrics::{
    cpu_delta, iface_kind, mem_sample, Collector, CpuDelta, RateDelta, SensorPlan,
};
use vitals::refresh::RefreshGuard;

fn collector() -> Collector {
    Collector::new(GpuReader::new(None), PowerReader::new(None, None))
}

#[test]
fn cpu_usage_deltas() {
    let d = cpu_delta(CpuTimes { total: 100, idle: 40 }, CpuTimes { total: 200, idle: 60 });
    assert_eq!(d, CpuDelta { busy: 80, total: 100 });
    // Counters that went back count as no time.
    let d = cpu_delta(CpuTimes { total: 200, idle: 60 }, CpuTimes { total: 100, idle: 40 });
    assert_eq!(d, CpuDelta { busy: 0, total: 0 });
}

#[test]
fn cpu_step_first_then_delta() {
    let mut c = collector();
    let s = c.cpu_step(
        Some((CpuTimes { total: 100, idle: 50 }, vec![CpuTimes { total: 50, idle: 25 }])),
        true,
    );
    assert!(s.usage.is_none());
    assert!(s.per_core.is_empty());
    let s = c.cpu_step(
        Some((CpuTimes { total: 200, idle: 80 }, vec![CpuTimes { total: 100, idle: 30 }])),
        true,
    );
    assert_eq!(s.usage, Some(CpuDelta { busy: 70, total: 100 }));
    assert_eq!(s.per_core, vec![CpuDelta { busy: 45, total: 50 }]);
    // Closed popup: no per-core values, but the reference moves on.
    let s = c.cpu_step(
        Some((CpuTimes { total: 300, idle: 80 }, vec![CpuTimes { total: 150, idle: 30 }])),
        false,
    );
    assert!(s.per_core.is_empty());
    // A changed core count gives no per-core values.
    let s = c.cpu_step(Some((CpuTimes { total: 400, idle: 80 }, vec![])), true);
    assert!(s.per_core.is_empty());
    assert_eq!(s.usage, Some(CpuDelta { busy: 100, total: 100 }));
    // An unreadable /proc/stat yields nothing and keeps the reference.
    let s = c.cpu_step(None, true);
    assert!(s.usage.is_none());
    let s = c.cpu_step(Some((CpuTimes { total: 500, idle: 90 }, vec![])), true);
    assert_eq!(s.usage, Some(CpuDelta { busy: 90, total: 100 }));
}

#[test]
fn memory() {
    let m = mem_sample(&Some(MemInfo { total: 100, avail: 30, swap_total: 10, swap_free: 12 }));
    assert_eq!((m.used_kb, m.total_kb, m.swap_used_kb, m.swap_total_kb), (70, 100, 0, 10));
    let m = mem_sample(&None);
    assert_eq!((m.used_kb, m.total_kb), (0, 0));
}

#[test]
fn disk_rates() {
    let mut c = collector();
    assert_eq!(c.disk_step(Some((100, 200)), 1_000), None);
    assert_eq!(c.disk_step(Some((150, 260)), 2_000), Some(RateDelta { a: 50, b: 60, dt_ns: 1_000 }));
    // No time passed: no rate, but a new reference.
    assert_eq!(c.disk_step(Some((160, 270)), 2_000), None);
    assert_eq!(c.disk_step(None, 3_000), None);
    assert_eq!(c.disk_step(Some((150, 280)), 4_000), Some(RateDelta { a: 0, b: 10, dt_ns: 2_000 }));
}

#[test]
fn net_rates_and_iface_change() {
    let mut c = collector();
    // Without an interface nothing is given.
    let s = c.net_step(Some((1, 2)), 10);
    assert_eq!((s.totals, s.delta), (None, None));
    c.set_iface(Some("wlan0".to_string()));
    let s = c.net_step(Some((1_000, 500)), 1_000);
    assert_eq!(s.totals, Some((1_000, 500)));
    assert_eq!(s.delta, None);
    c.set_iface(Some("wlan0".to_string()));
    let s = c.net_step(Some((3_000, 900)), 2_000);
    assert_eq!(s.delta, Some(RateDelta { a: 2_000, b: 400, dt_ns: 1_000 }));
    // A new interface drops the reference.
    c.set_iface(Some("eth0".to_string()));
    assert_eq!(c.iface().map(|s| s.as_str()), Some("eth0"));
    let s = c.net_step(Some((10, 10)), 3_000);
    assert_eq!(s.totals, Some((10, 10)));
    assert_eq!(s.delta, None);
}

#[test]
fn pause_drops_deltas() {
    let mut c = collector();
    c.set_iface(Some("eth0".to_string()));
    c.net_step(Some((1, 1)), 1);
    c.disk_step(Some((1, 1)), 1);
    c.pause_step();
    assert_eq!(c.disk_step(Some((2, 2)), 2), Some(RateDelta { a: 1, b: 1, dt_ns: 1 }));
    c.set_paused(true);
    assert!(c.is_paused());
    c.pause_step();
    assert_eq!(c.disk_step(Some((3, 3)), 3), None);
    assert_eq!(c.net_step(Some((3, 3)), 3).delta, None);
    c.set_paused(false);
    c.reset_deltas();
    assert_eq!(c.disk_step(Some((4, 4)), 4), None);
}

#[test]
fn iface_kinds() {
    assert_eq!(iface_kind("wlp2s0", true), "WLAN");
    assert_eq!(iface_kind("wg0", false), "VPN");
    assert_eq!(iface_kind("tun0", false), "VPN");
    assert_eq!(iface_kind("pppoe", false), "VPN");
    assert_eq!(iface_kind("enp3s0", false), "LAN");
}

#[test]
fn sensors_resolution() {
    let chips = vec![
        HwmonChip { dir: "/h/hwmon0".into(), name: Some("acpitz\n".into()), labeled_input: None },
        HwmonChip {
            dir: "/h/hwmon1".into(),
            name: Some("k10temp\n".into()),
            labeled_input: Some("/h/hwmon1/temp1_input".into()),
        },
        HwmonChip { dir: "/h/hwmon2".into(), name: None, labeled_input: None },
        HwmonChip {
            dir: "/h/hwmon3".into(),
            name: Some("coretemp\n".into()),
            labeled_input: Some("/h/hwmon3/temp2_input".into()),
        },
        HwmonChip { dir: "/h/hwmon4".into(), name: Some("spd5118".into()), labeled_input: None },
        HwmonChip { dir: "/h/hwmon5/".into(), name: Some("thinkpad".into()), labeled_input: None },
    ];
    let mut s = SensorPaths::new();
    assert!(!s.is_resolved());
    s.resolve(&chips);
    assert!(s.is_resolved());
    let (cpu, ram, fan) = s.paths();
    assert_eq!(cpu.map(|p| p.as_str()), Some("/h/hwmon3/temp2_input"));
    assert_eq!(ram.map(|p| p.as_str()), Some("/h/hwmon4/temp1_input"));
    assert_eq!(fan.map(|p| p.as_str()), Some("/h/hwmon5/"));
    assert_eq!(s.fans(&vec![Some(2400), Some(0), None, Some(1 << 33)]), vec![2400, 0]);
    // A dead CPU path is dropped.
    assert_eq!(s.cpu_temp(Some(45_000)), Some(45_000));
    assert_eq!(s.cpu_temp(None), None);
    assert_eq!(s.cpu_temp(Some(45_000)), None);
}

#[test]
fn sensors_fallback_and_helpers() {
    let chips = vec![HwmonChip { dir: "/h/hwmon0".into(), name: Some("acpitz".into()), labeled_input: None }];
    let mut s = SensorPaths::new();
    s.resolve(&chips);
    assert_eq!(s.paths().0.map(|p| p.as_str()), Some("/h/hwmon0/temp1_input"));
    assert!(s.fans(&vec![Some(1)]).is_empty());
    assert_eq!(cpu_label_for("coretemp\n"), Some("Package id 0"));
    assert_eq!(cpu_label_for("k10temp"), Some("Tctl"));
    assert_eq!(cpu_label_for("acpitz"), None);
    assert_eq!(join_path(&"/a".to_string(), "b"), "/a/b");
    assert_eq!(join_path(&"/a/".to_string(), "b"), "/a/b");
    assert_eq!(join_path(&"".to_string(), "b"), "b");
}

#[test]
fn sensor_step_on_popup_open() {
    let mut c = collector();
    assert!(!c.sensor_step(false).scan_hwmon);
    assert!(c.sensor_step(true).scan_hwmon);
    c.resolve_sensors(&vec![]);
    assert!(!c.sensor_step(true).scan_hwmon);
    assert!(!c.sensor_step(false).scan_hwmon);
    // Opening again looks for the sensors anew.
    assert!(c.sensor_step(true).scan_hwmon);
}

#[test]
fn popup_closed_reads_no_sensor_values() {
    let mut c = collector();
    assert_eq!(c.sensor_step(false), SensorPlan { scan_hwmon: false, read_values: false });
    assert_eq!(c.sensor_step(true), SensorPlan { scan_hwmon: true, read_values: true });
    c.resolve_sensors(&vec![]);
    assert_eq!(c.sensor_step(true), SensorPlan { scan_hwmon: false, read_values: true });
    assert_eq!(c.sensor_step(false), SensorPlan { scan_hwmon: false, read_values: false });
}

#[test]
fn sleep_leaves_no_reference() {
    let mut c = Collector::new(
        GpuReader::new(Some("/x".into())),
        PowerReader::new(Some(("/pkg".into(), 0)), Some(("/psys".into(), 0))),
    );
    // A new collector's zones hold no reference: the first reading gives nothing.
    assert_eq!(c.power_mut().sample_zones(Some(10), Some(20), 1), (None, None));
    assert_eq!(
        c.power_mut().sample_zones(Some(15), Some(30), 2),
        (Some(EnergyDelta { delta_uj: 5, dt_ns: 1 }), Some(EnergyDelta { delta_uj: 10, dt_ns: 1 }))
    );
    c.set_iface(Some("eth0".to_string()));
    c.net_step(Some((1, 1)), 2);
    c.disk_step(Some((1, 1)), 2);
    c.set_paused(true);
    c.pause_step();
    assert_eq!(c.power_mut().sample_zones(Some(20), Some(40), 3), (None, None));
    // Paused: the GPU gives no live values even with the popup open.
    let g = c.gpu_step(true, &None, &Some("active".into()));
    assert!(g.present && g.awake);
    assert_eq!(g.util, None);
    c.set_paused(false);
    // The next tick forms no rate across the sleep.
    c.cpu_step(None, true);
    if c.sensor_step(true).scan_hwmon {
        c.resolve_sensors(&vec![]);
    }
    c.temps(None, None);
    assert_eq!(c.disk_step(Some((5, 5)), 4), None);
    c.set_iface(Some("eth0".to_string()));
    assert_eq!(c.net_step(Some((5, 5)), 4).delta, None);
    assert_eq!(c.disk_step(Some((7, 7)), 5), Some(RateDelta { a: 2, b: 2, dt_ns: 1 }));
}

#[test]
fn refresh_guard_runs_one_at_a_time() {
    let mut g = RefreshGuard::new();
    assert!(!g.is_running());
    assert!(g.request(false));
    assert!(g.is_running());
    // A second request waits; a live one is remembered.
    assert!(!g.request(false));
    assert!(!g.finish(true));
    assert!(g.request(false));
    assert!(!g.request(true));
    assert!(g.finish(true));
    assert!(!g.is_running());
    assert!(g.request(true));
    // The popup closed meanwhile: the live request is dropped.
    assert!(!g.request(true));
    assert!(!g.finish(false));
    assert!(g.request(false));
    assert!(!g.finish(true));
}

#[test]
fn gpu_mode_and_detection() {
    assert_eq!(mode_of(&Some("on-demand\n".into())), GpuMode::Hybrid);
    assert_eq!(mode_of(&Some("on".into())), GpuMode::Nvidia);
    assert_eq!(mode_of(&Some(" off ".into())), GpuMode::Integrated);
    assert_eq!(mode_of(&Some("auto".into())), GpuMode::Unknown);
    assert_eq!(mode_of(&None), GpuMode::Unknown);
    assert!(is_nvidia_display("0x10de\n", "0x030000\n"));
    assert!(!is_nvidia_display("0x8086\n", "0x030000\n"));
    assert!(!is_nvidia_display("0x10de\n", "0x040300\n"));
    assert_eq!(GpuMode::Integrated.label(), "integriert");
}

#[test]
fn gpu_reader_never_touches_a_sleeping_gpu() {
    let mut r = GpuReader::new(None);
    let g = r.read(true, &Some("on-demand".into()), &Some("active".into()));
    assert!(!g.present && !g.awake);
    assert_eq!(g.mode, GpuMode::Hybrid);
    let mut r = GpuReader::new(Some("/sys/bus/pci/devices/0000:01:00.0".into()));
    let g = r.read(true, &None, &Some("suspended\n".into()));
    assert!(g.present && !g.awake);
    assert_eq!(g.util, None);
    let g = r.read(false, &None, &Some("active\n".into()));
    assert!(g.present && g.awake);
    assert_eq!(g.util, None);
}

#[test]
fn gpu_reader_live_reading_keeps_base_fields() {
    // Whether NVML is there depends on the machine; the base fields do not.
    let mut r = GpuReader::new(Some("/x".into()));
    let g = r.read(true, &Some("on".into()), &Some("active".into()));
    assert!(g.present && g.awake);
    assert_eq!(g.mode, GpuMode::Nvidia);
    assert_eq!(g.vram_used_mb.is_some(), g.vram_total_mb.is_some());
}

#[test]
fn rapl_zone_deltas() {
    let mut z = RaplZone::new("/p/energy_uj".into(), 1_000);
    assert_eq!(z.sample(Some(100), 10), None);
    assert_eq!(z.sample(Some(300), 20), Some(EnergyDelta { delta_uj: 200, dt_ns: 10 }));
    // Wrap at the limit.
    assert_eq!(z.sample(Some(50), 30), Some(EnergyDelta { delta_uj: 750, dt_ns: 10 }));
    // Unreadable: state kept.
    assert_eq!(z.sample(None, 40), None);
    assert_eq!(z.sample(Some(60), 50), Some(EnergyDelta { delta_uj: 10, dt_ns: 20 }));
    // No time passed.
    assert_eq!(z.sample(Some(70), 50), None);
    z.reset();
    assert_eq!(z.sample(Some(80), 60), None);
    let mut z = RaplZone::new("/p/energy_uj".into(), 0);
    z.sample(Some(100), 1);
    assert_eq!(z.sample(Some(50), 2), None);
    assert_eq!(max_range_of(&Some("262143328850\n".into())), 262143328850);
    assert_eq!(max_range_of(&None), 0);
    assert_eq!(z.max_range_uj(), 0);
    assert_eq!(z.energy_path(), "/p/energy_uj");
}

#[test]
fn battery_status() {
    assert_eq!(parse_bat_status("Charging\n"), BatStatus::Charging);
    assert_eq!(parse_bat_status("Discharging"), BatStatus::Discharging);
    assert_eq!(parse_bat_status("Full\n"), BatStatus::Full);
    assert_eq!(parse_bat_status("Not charging"), BatStatus::Unknown);
    assert_eq!(status_word(BatStatus::Full), Some("voll · Netz"));
    assert_eq!(status_word(BatStatus::Unknown), None);
    assert!(shows_battery_power(BatStatus::Charging));
    assert!(!shows_battery_power(BatStatus::Full));
}

#[test]
fn battery_cache() {
    let mut p = PowerReader::new(None, None);
    assert!(p.needs_battery_scan());
    p.begin_battery_read(Some(vec!["/ps/BAT0".into(), "/ps/BAT1".into()]));
    assert_eq!(p.battery_paths().map(|v| v.len()), Some(2));
    assert!(!p.needs_battery_scan());
    let st = p.finish_battery_read(&Some("Discharging\n".into()), &vec![Some(5_000_000), Some(2_000_000)]);
    assert_eq!(st, Some(BatteryState { status: BatStatus::Discharging, power_uw: Some(7_000_000) }));
    // A battery that vanished drops the cache.
    p.begin_battery_read(None);
    assert_eq!(p.finish_battery_read(&None, &vec![]), None);
    assert!(p.needs_battery_scan());
    // The directory is rescanned every 40 readings.
    p.begin_battery_read(Some(vec![]));
    for _ in 0..38 {
        assert!(!p.needs_battery_scan());
        p.begin_battery_read(None);
    }
    assert!(!p.needs_battery_scan());
    p.begin_battery_read(None);
    assert!(p.needs_battery_scan());
    let st = p.finish_battery_read(&None, &vec![None]);
    assert_eq!(st, Some(BatteryState { status: BatStatus::Unknown, power_uw: None }));
}

#[test]
fn power_plans() {
    let p = PowerReader::new(None, Some(("/psys".into(), 0)));
    let charging = Some(BatteryState { status: BatStatus::Charging, power_uw: Some(1) });
    let plan = p.plan(true, &charging, true);
    assert_eq!(plan.sys, SysSource::Psys);
    assert!(plan.charger && !plan.sys_from_battery);
    // psys zone there but no reading: no total, no battery fallback.
    let plan = p.plan(false, &charging, true);
    assert_eq!(plan.sys, SysSource::Absent);
    assert!(!plan.sys_from_battery);
    let q = PowerReader::new(None, None);
    let discharging = Some(BatteryState { status: BatStatus::Discharging, power_uw: Some(1) });
    let plan = q.plan(false, &discharging, true);
    assert_eq!(plan.sys, SysSource::Battery);
    assert!(plan.sys_from_battery);
    let plan = q.plan(false, &charging, true);
    assert_eq!(plan.sys, SysSource::Absent);
    assert!(plan.sys_from_battery);
    let plan = q.plan(false, &discharging, false);
    assert!(!plan.sys_from_battery);
}

#[test]
fn power_reader_zones() {
    let mut p = PowerReader::new(Some(("/pkg".into(), 100)), None);
    let (a, b) = p.zone_paths();
    assert_eq!(a.map(|s| s.as_str()), Some("/pkg"));
    assert!(b.is_none());
    assert_eq!(p.sample_zones(Some(10), Some(5), 1), (None, None));
    assert_eq!(
        p.sample_zones(Some(30), Some(9), 3),
        (Some(EnergyDelta { delta_uj: 20, dt_ns: 2 }), None)
    );
    p.reset();
    assert_eq!(p.sample_zones(Some(40), None, 4), (None, None));
}

#[test]
fn no_power_across_reset() {
    let mut p = PowerReader::new(Some(("/pkg".into(), 0)), Some(("/psys".into(), 0)));
    p.sample_zones(Some(10), Some(10), 1);
    assert_eq!(
        p.sample_zones(Some(20), Some(30), 2),
        (Some(EnergyDelta { delta_uj: 10, dt_ns: 1 }), Some(EnergyDelta { delta_uj: 20, dt_ns: 1 }))
    );
    p.reset();
    let (pkg, psys) = p.sample_zones(Some(90), Some(90), 3);
    assert_eq!((pkg, psys), (None, None));
    let charging = Some(BatteryState { status: BatStatus::Charging, power_uw: Some(1) });
    let plan = p.plan(psys.is_some(), &charging, true);
    assert_eq!(plan.sys, SysSource::Absent);
    assert!(!plan.sys_from_battery && !plan.charger);
}
