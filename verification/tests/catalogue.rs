use vitals::config::{clamp_interval, net_unit_label, next_net_unit, Config};
use vitals::format::{
    fans_text, fmt_span, fmt_uptime, gpu_inactive_text, gpu_row, history_span_s, sample_age_s,
    GpuRow,
};
use vitals::history::{carry_last, push_sample};
use vitals::metric::{
    move_down, move_up, next_panel_metric, normalize_order, panel_metric_label, MetricKind,
};
use vitals::metrics::gpu::{GpuInfo, GpuMode};
use std::collections::VecDeque;

#[test]
fn default_config() {
    let c = Config::default();
    assert_eq!(c.interval_ms, 1500);
    assert_eq!(c.metric_order, vec![0, 1, 2, 3, 4, 5, 6, 7, 8, 9, 10, 11, 12]);
    assert!(c.show_cpu && c.show_power && c.power_breakdown && c.per_core);
    assert!(!c.show_battery && !c.show_disk && !c.panel_text);
    assert_eq!((c.warn_temp_c, c.crit_temp_c), (80, 90));
    assert_eq!(normalize_order(&c.metric_order), c.metric_order);
}

#[test]
fn ids_round_trip() {
    for v in 0u8..13 {
        assert_eq!(MetricKind::from_u8(v).unwrap().id(), v);
    }
    assert_eq!(MetricKind::from_u8(13), None);
    assert_eq!(MetricKind::Power.id(), 6);
    assert_eq!(MetricKind::NetTotal.label(), "Netz Σ");
    assert_eq!(MetricKind::Fans.label(), "Lüfter");
    assert_eq!(MetricKind::Uptime.info(), "Zeit seit dem letzten Systemstart.");
    assert!(MetricKind::Gpu.info_detail().starts_with("Dedizierte NVIDIA-GPU (NVML).\n• „schläft“"));
}

#[test]
fn enabled_follows_switches() {
    let mut c = Config::default();
    assert!(MetricKind::Cores.enabled(&c));
    c.per_core = false;
    assert!(!MetricKind::Cores.enabled(&c));
    assert!(!MetricKind::Swap.enabled(&c));
}

#[test]
fn normalize_drops_unknown_and_duplicates_and_appends_missing() {
    assert_eq!(
        normalize_order(&[3, 3, 99, 1]),
        vec![3, 1, 0, 2, 4, 5, 6, 7, 8, 9, 10, 11, 12]
    );
    assert_eq!(normalize_order(&[]), (0u8..13).collect::<Vec<_>>());
    let once = normalize_order(&[12, 200, 0, 12, 5]);
    assert_eq!(once, vec![12, 0, 5, 1, 2, 3, 4, 6, 7, 8, 9, 10, 11]);
    assert_eq!(normalize_order(&once), once);
}

#[test]
fn reorder() {
    let o = vec![0, 1, 2];
    assert_eq!(move_up(&o, 1), Some(vec![1, 0, 2]));
    assert_eq!(move_up(&o, 0), None);
    assert_eq!(move_up(&o, 3), None);
    assert_eq!(move_down(&o, 1), Some(vec![0, 2, 1]));
    assert_eq!(move_down(&o, 2), None);
    let up = move_up(&o, 2).unwrap();
    assert_eq!(move_down(&up, 1), Some(o));
}

#[test]
fn panel_cycle() {
    assert_eq!(next_panel_metric(0), 1);
    assert_eq!(next_panel_metric(1), 2);
    assert_eq!(next_panel_metric(2), 3);
    assert_eq!(next_panel_metric(3), 6);
    assert_eq!(next_panel_metric(6), 0);
    // Outside the cycle counts as CPU.
    assert_eq!(next_panel_metric(4), 1);
    assert_eq!(next_panel_metric(200), 1);
    assert_eq!(panel_metric_label(6), "Watt");
    assert_eq!(panel_metric_label(99), "CPU");
}

#[test]
fn net_unit_and_interval() {
    assert_eq!(next_net_unit(0), 1);
    assert_eq!(next_net_unit(2), 0);
    assert_eq!(next_net_unit(255), 0);
    assert_eq!(net_unit_label(1), "MiB/s (binär)");
    assert_eq!(net_unit_label(7), "MB/s (SI)");
    assert_eq!(clamp_interval(100), 250);
    assert_eq!(clamp_interval(1500), 1500);
}

#[test]
fn spans_and_uptime() {
    assert_eq!(fmt_span(45), "45 s");
    assert_eq!(fmt_span(0), "0 s");
    assert_eq!(fmt_span(180), "3 min");
    assert_eq!(fmt_span(119), "1 min");
    assert_eq!(fmt_uptime(3 * 86_400 + 4 * 3_600 + 12 * 60 + 5), "3 d 4 h 12 min");
    assert_eq!(fmt_uptime(86_400), "1 d 0 h 0 min");
    assert_eq!(fmt_uptime(3_600 + 59), "1 h 0 min");
    assert_eq!(fmt_uptime(59), "0 min");
    assert_eq!(fmt_uptime(u64::MAX), "213503982334601 d 7 h 0 min");
}

fn gpu(mode: GpuMode, present: bool, awake: bool, util: Option<u32>) -> GpuInfo {
    GpuInfo {
        mode,
        present,
        awake,
        util,
        temp_c: None,
        vram_used_mb: None,
        vram_total_mb: None,
        power_mw: None,
    }
}

#[test]
fn gpu_texts() {
    assert_eq!(gpu_inactive_text(&gpu(GpuMode::Hybrid, false, false, None)), "keine NVIDIA");
    assert_eq!(gpu_inactive_text(&gpu(GpuMode::Integrated, true, false, None)), "inaktiv · integriert");
    assert_eq!(gpu_inactive_text(&gpu(GpuMode::Hybrid, true, false, None)), "schläft · hybrid");
    assert_eq!(gpu_inactive_text(&gpu(GpuMode::Unknown, true, false, None)), "schläft · ?");
    assert_eq!(gpu_row(&gpu(GpuMode::Hybrid, true, false, None), true), GpuRow::Hidden);
    assert_eq!(
        gpu_row(&gpu(GpuMode::Hybrid, true, false, None), false),
        GpuRow::Text("schläft · hybrid".to_string())
    );
    assert_eq!(
        gpu_row(&gpu(GpuMode::Nvidia, true, true, None), true),
        GpuRow::Text("aktiv · nvidia".to_string())
    );
    assert_eq!(gpu_row(&gpu(GpuMode::Nvidia, true, true, Some(37)), false), GpuRow::Usage(37));
    assert_eq!(
        gpu_row(&gpu(GpuMode::Nvidia, false, false, None), true),
        GpuRow::Text("keine NVIDIA".to_string())
    );
}

#[test]
fn fans() {
    assert_eq!(fans_text(&vec![2400, 2600]), "2400 / 2600 rpm");
    assert_eq!(fans_text(&vec![0]), "0 rpm");
    assert_eq!(fans_text(&vec![]), " rpm");
}

#[test]
fn history_window() {
    assert_eq!(history_span_s(1500), 180);
    assert_eq!(history_span_s(100), 30);
    assert_eq!(sample_age_s(120, 119, 180), 0);
    assert_eq!(sample_age_s(120, 0, 180), 178);
    assert_eq!(sample_age_s(10, 5, 180), 6);
}

#[test]
fn history_keeps_the_most_recent() {
    let mut q: VecDeque<u32> = VecDeque::new();
    for v in 0..130u32 {
        push_sample(&mut q, v);
    }
    assert_eq!(q.len(), 120);
    assert_eq!(q.front(), Some(&10));
    assert_eq!(q.back(), Some(&129));
    assert_eq!(carry_last(5, None), 5);
    assert_eq!(carry_last(5, Some(7)), 7);
}
