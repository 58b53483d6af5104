//! Metric catalogue: `MetricKind` (ids, labels, help texts, visibility)
//! and the normalisation and reordering of stored metric orders.

use vstd::prelude::*;

use crate::config::Config;

verus! {

/// The metrics there are. The `u8` ids match `Config::metric_order`.
#[derive(Debug, Clone, Copy, PartialEq, Eq, Structural)]
pub enum MetricKind {
    Cpu,
    Mem,
    Net,
    Gpu,
    Fans,
    Cores,
    Power,
    Battery,
    Disk,
    Swap,
    Load,
    Uptime,
    NetTotal,
}

/// Number of metrics; the ids are `0..METRIC_COUNT`.
pub const METRIC_COUNT: u8 = 13;

/// Ids of the metrics that the panel text can show, in cycling order:
/// CPU, RAM, Net, GPU, Watts.
pub open spec fn panel_id(p: int) -> u8 {
    if p == 0 {
        0
    } else if p == 1 {
        1
    } else if p == 2 {
        2
    } else if p == 3 {
        3
    } else {
        6
    }
}

/// Number of metrics the panel text cycles through.
pub const PANEL_COUNT: usize = 5;

/// Position of an id in the panel cycle, where it is one of them.
pub open spec fn panel_pos(id: u8) -> Option<int> {
    if id <= 3 {
        Some(id as int)
    } else if id == 6 {
        Some(4)
    } else {
        None
    }
}

impl MetricKind {
    /// The `u8` id: the position in the canonical order.
    pub open spec fn spec_id(self) -> u8 {
        match self {
            MetricKind::Cpu => 0,
            MetricKind::Mem => 1,
            MetricKind::Net => 2,
            MetricKind::Gpu => 3,
            MetricKind::Fans => 4,
            MetricKind::Cores => 5,
            MetricKind::Power => 6,
            MetricKind::Battery => 7,
            MetricKind::Disk => 8,
            MetricKind::Swap => 9,
            MetricKind::Load => 10,
            MetricKind::Uptime => 11,
            MetricKind::NetTotal => 12,
        }
    }

    pub fn from_u8(v: u8) -> (r: Option<MetricKind>)
        ensures
            r == spec_kind_of(v),
            r is Some <==> v < METRIC_COUNT,
            r matches Some(k) ==> k.spec_id() == v,
    {
        match v {
            0 => Some(MetricKind::Cpu),
            1 => Some(MetricKind::Mem),
            2 => Some(MetricKind::Net),
            3 => Some(MetricKind::Gpu),
            4 => Some(MetricKind::Fans),
            5 => Some(MetricKind::Cores),
            6 => Some(MetricKind::Power),
            7 => Some(MetricKind::Battery),
            8 => Some(MetricKind::Disk),
            9 => Some(MetricKind::Swap),
            10 => Some(MetricKind::Load),
            11 => Some(MetricKind::Uptime),
            12 => Some(MetricKind::NetTotal),
            _ => None,
        }
    }

    /// The `u8` id of this metric.
    pub fn id(self) -> (r: u8)
        ensures
            r == self.spec_id(),
            r < METRIC_COUNT,
    {
        match self {
            MetricKind::Cpu => 0,
            MetricKind::Mem => 1,
            MetricKind::Net => 2,
            MetricKind::Gpu => 3,
            MetricKind::Fans => 4,
            MetricKind::Cores => 5,
            MetricKind::Power => 6,
            MetricKind::Battery => 7,
            MetricKind::Disk => 8,
            MetricKind::Swap => 9,
            MetricKind::Load => 10,
            MetricKind::Uptime => 11,
            MetricKind::NetTotal => 12,
        }
    }

    pub open spec fn spec_label(self) -> &'static str {
        match self {
            MetricKind::Cpu => "CPU",
            MetricKind::Mem => "RAM",
            MetricKind::Net => "Netz",
            MetricKind::Gpu => "GPU",
            MetricKind::Fans => "Lüfter",
            MetricKind::Cores => "Kerne",
            MetricKind::Power => "Watt",
            MetricKind::Battery => "Akku",
            MetricKind::Disk => "Disk",
            MetricKind::Swap => "Swap",
            MetricKind::Load => "Load",
            MetricKind::Uptime => "Uptime",
            MetricKind::NetTotal => "Netz Σ",
        }
    }

    /// Short name of the metric, as the popup labels it.
    pub fn label(self) -> (r: &'static str)
        ensures
            r == self.spec_label(),
    {
        match self {
            MetricKind::Cpu => "CPU",
            MetricKind::Mem => "RAM",
            MetricKind::Net => "Netz",
            MetricKind::Gpu => "GPU",
            MetricKind::Fans => "Lüfter",
            MetricKind::Cores => "Kerne",
            MetricKind::Power => "Watt",
            MetricKind::Battery => "Akku",
            MetricKind::Disk => "Disk",
            MetricKind::Swap => "Swap",
            MetricKind::Load => "Load",
            MetricKind::Uptime => "Uptime",
            MetricKind::NetTotal => "Netz Σ",
        }
    }

    pub open spec fn spec_info(self) -> &'static str {
        match self {
            MetricKind::Cpu => "Gesamtauslastung aller Kerne in Prozent; optional mit Temperatur.",
            MetricKind::Mem => "Belegter Arbeitsspeicher (belegt/gesamt) und Prozent.",
            MetricKind::Net => "Empfangs-/Senderate der Netzwerkschnittstellen (Einheit unter „Netz-Einheit“).",
            MetricKind::Gpu => "Auslastung, Speicher und Temperatur der dedizierten GPU (NVIDIA/NVML).",
            MetricKind::Fans => "Drehzahlen der Lüfter (Quelle: hwmon).",
            MetricKind::Cores => "Auslastung jedes einzelnen CPU-Kerns als eigene Zeile.",
            MetricKind::Power => "Leistungsaufnahme: System (RAPL psys), CPU-Package und GPU.",
            MetricKind::Battery => "Ladezustand, Spannung sowie Lade-/Entladeleistung des Akkus.",
            MetricKind::Disk => "Lese-/Schreibrate aller physischen Laufwerke zusammen.",
            MetricKind::Swap => "Belegter Auslagerungsspeicher; ausgeblendet, wenn kein Swap eingerichtet ist.",
            MetricKind::Load => "Load Average über 1, 5 und 15 Minuten.",
            MetricKind::Uptime => "Zeit seit dem letzten Systemstart.",
            MetricKind::NetTotal => "Kumulierter Netz-Verbrauch (empfangen/gesendet) seit dem Systemstart.",
        }
    }

    /// Short explanation for the info icon in the settings.
    pub fn info(self) -> (r: &'static str)
        ensures
            r == self.spec_info(),
    {
        match self {
            MetricKind::Cpu => "Gesamtauslastung aller Kerne in Prozent; optional mit Temperatur.",
            MetricKind::Mem => "Belegter Arbeitsspeicher (belegt/gesamt) und Prozent.",
            MetricKind::Net => "Empfangs-/Senderate der Netzwerkschnittstellen (Einheit unter „Netz-Einheit“).",
            MetricKind::Gpu => "Auslastung, Speicher und Temperatur der dedizierten GPU (NVIDIA/NVML).",
            MetricKind::Fans => "Drehzahlen der Lüfter (Quelle: hwmon).",
            MetricKind::Cores => "Auslastung jedes einzelnen CPU-Kerns als eigene Zeile.",
            MetricKind::Power => "Leistungsaufnahme: System (RAPL psys), CPU-Package und GPU.",
            MetricKind::Battery => "Ladezustand, Spannung sowie Lade-/Entladeleistung des Akkus.",
            MetricKind::Disk => "Lese-/Schreibrate aller physischen Laufwerke zusammen.",
            MetricKind::Swap => "Belegter Auslagerungsspeicher; ausgeblendet, wenn kein Swap eingerichtet ist.",
            MetricKind::Load => "Load Average über 1, 5 und 15 Minuten.",
            MetricKind::Uptime => "Zeit seit dem letzten Systemstart.",
            MetricKind::NetTotal => "Kumulierter Netz-Verbrauch (empfangen/gesendet) seit dem Systemstart.",
        }
    }

    pub open spec fn spec_info_detail(self) -> &'static str {
        match self {
            MetricKind::Cpu => "Gesamtauslastung aller Kerne.\n• links % · rechts Paket-Temperatur (hwmon)\n• Verlauf: Hovern zeigt Wert und Zeitpunkt",
            MetricKind::Mem => "Arbeitsspeicher-Belegung.\n• links % · Mitte belegt/gesamt GiB\n• rechts RAM-Temperatur (falls Sensor vorhanden)\n• Verlauf: Hovern zeigt Wert und Zeitpunkt",
            MetricKind::Net => "Datenrate der aktiven Schnittstelle.\n• ↓ empfangen · ↑ senden · Typ (WLAN/LAN/VPN)\n• Einheit unter „Netz-Einheit“ wählbar\n• Verlauf: Skala 0…≤ Fenster-Maximum, ↑ gedimmt; Hovern zeigt Werte und Zeitpunkt",
            MetricKind::Gpu => "Dedizierte NVIDIA-GPU (NVML).\n• „schläft“ — Stromsparmodus, wird nie geweckt\n• „keine NVIDIA“ — keine dGPU gefunden\n• „aktiv · Modus“ — wach, ohne Live-Werte\n• sonst: Auslastung % · VRAM · Temperatur",
            MetricKind::Fans => "Drehzahlen aller erkannten Lüfter (hwmon), in U/min.",
            MetricKind::Cores => "Auslastung je CPU-Kern in Prozent, Reihen zu je 6 Kernen.",
            MetricKind::Power => "Leistungsaufnahme des Systems.\n• Gesamt: RAPL psys — „– · Netz“ heißt: am Netz nicht messbar (nur Akku-Messung verfügbar)\n• CPU-Package · GPU (Schalter „Watt aufschlüsseln“)\n• beim Laden: „Netzteil ≈“ psys + Ladeleistung\n• Verlauf: Skala 0…≤ Fenster-Maximum; Hovern zeigt Wert und Zeitpunkt",
            MetricKind::Battery => "Akku-Zustand.\n• Spannung (V) · Status (lädt/entlädt/voll)\n• Lade-/Entladeleistung in W, nur wenn Strom fließt",
            MetricKind::Disk => "Datenrate aller physischen Laufwerke.\n• ↓ lesen · ↑ schreiben\n• Partitionen/virtuelle Devices nicht doppelt gezählt\n• Quelle: /proc/diskstats",
            MetricKind::Swap => "Auslagerungsspeicher: % und belegt/gesamt GiB.\n• Zeile erscheint nur, wenn Swap eingerichtet ist",
            MetricKind::Load => "Load Average 1 / 5 / 15 min.\n• Ø lauffähige Prozesse; Werte über der Kernzahl bedeuten Wartezeiten",
            MetricKind::Uptime => "Zeit seit dem letzten Systemstart.",
            MetricKind::NetTotal => "Summe seit Systemstart (aktive Schnittstelle).\n• ↓ empfangen · ↑ gesendet\n• bei Wechsel WLAN↔LAN zählt die neue ab ihrem Stand",
        }
    }

    /// Explanation of the metric's row in the main view: what the columns
    /// and states mean. A heading line, then one "•" line per column/state.
    pub fn info_detail(self) -> (r: &'static str)
        ensures
            r == self.spec_info_detail(),
    {
        match self {
            MetricKind::Cpu => "Gesamtauslastung aller Kerne.\n• links % · rechts Paket-Temperatur (hwmon)\n• Verlauf: Hovern zeigt Wert und Zeitpunkt",
            MetricKind::Mem => "Arbeitsspeicher-Belegung.\n• links % · Mitte belegt/gesamt GiB\n• rechts RAM-Temperatur (falls Sensor vorhanden)\n• Verlauf: Hovern zeigt Wert und Zeitpunkt",
            MetricKind::Net => "Datenrate der aktiven Schnittstelle.\n• ↓ empfangen · ↑ senden · Typ (WLAN/LAN/VPN)\n• Einheit unter „Netz-Einheit“ wählbar\n• Verlauf: Skala 0…≤ Fenster-Maximum, ↑ gedimmt; Hovern zeigt Werte und Zeitpunkt",
            MetricKind::Gpu => "Dedizierte NVIDIA-GPU (NVML).\n• „schläft“ — Stromsparmodus, wird nie geweckt\n• „keine NVIDIA“ — keine dGPU gefunden\n• „aktiv · Modus“ — wach, ohne Live-Werte\n• sonst: Auslastung % · VRAM · Temperatur",
            MetricKind::Fans => "Drehzahlen aller erkannten Lüfter (hwmon), in U/min.",
            MetricKind::Cores => "Auslastung je CPU-Kern in Prozent, Reihen zu je 6 Kernen.",
            MetricKind::Power => "Leistungsaufnahme des Systems.\n• Gesamt: RAPL psys — „– · Netz“ heißt: am Netz nicht messbar (nur Akku-Messung verfügbar)\n• CPU-Package · GPU (Schalter „Watt aufschlüsseln“)\n• beim Laden: „Netzteil ≈“ psys + Ladeleistung\n• Verlauf: Skala 0…≤ Fenster-Maximum; Hovern zeigt Wert und Zeitpunkt",
            MetricKind::Battery => "Akku-Zustand.\n• Spannung (V) · Status (lädt/entlädt/voll)\n• Lade-/Entladeleistung in W, nur wenn Strom fließt",
            MetricKind::Disk => "Datenrate aller physischen Laufwerke.\n• ↓ lesen · ↑ schreiben\n• Partitionen/virtuelle Devices nicht doppelt gezählt\n• Quelle: /proc/diskstats",
            MetricKind::Swap => "Auslagerungsspeicher: % und belegt/gesamt GiB.\n• Zeile erscheint nur, wenn Swap eingerichtet ist",
            MetricKind::Load => "Load Average 1 / 5 / 15 min.\n• Ø lauffähige Prozesse; Werte über der Kernzahl bedeuten Wartezeiten",
            MetricKind::Uptime => "Zeit seit dem letzten Systemstart.",
            MetricKind::NetTotal => "Summe seit Systemstart (aktive Schnittstelle).\n• ↓ empfangen · ↑ gesendet\n• bei Wechsel WLAN↔LAN zählt die neue ab ihrem Stand",
        }
    }

    pub open spec fn spec_enabled(self, c: &Config) -> bool {
        match self {
            MetricKind::Cpu => c.show_cpu,
            MetricKind::Mem => c.show_mem,
            MetricKind::Net => c.show_net,
            MetricKind::Gpu => c.show_gpu,
            MetricKind::Fans => c.show_fans,
            MetricKind::Cores => c.per_core,
            MetricKind::Power => c.show_power,
            MetricKind::Battery => c.show_battery,
            MetricKind::Disk => c.show_disk,
            MetricKind::Swap => c.show_swap,
            MetricKind::Load => c.show_load,
            MetricKind::Uptime => c.show_uptime,
            MetricKind::NetTotal => c.show_net_total,
        }
    }

    /// Whether the configuration shows this metric (its `show_*` switch).
    pub fn enabled(self, c: &Config) -> (r: bool)
        ensures
            r == self.spec_enabled(c),
    {
        match self {
            MetricKind::Cpu => c.show_cpu,
            MetricKind::Mem => c.show_mem,
            MetricKind::Net => c.show_net,
            MetricKind::Gpu => c.show_gpu,
            MetricKind::Fans => c.show_fans,
            MetricKind::Cores => c.per_core,
            MetricKind::Power => c.show_power,
            MetricKind::Battery => c.show_battery,
            MetricKind::Disk => c.show_disk,
            MetricKind::Swap => c.show_swap,
            MetricKind::Load => c.show_load,
            MetricKind::Uptime => c.show_uptime,
            MetricKind::NetTotal => c.show_net_total,
        }
    }
}

/// Every id maps to a metric and back: ids and metrics are in one-to-one
/// correspondence over `0..13`.
pub proof fn lemma_id_roundtrip(k: MetricKind)
    ensures
        k.spec_id() < METRIC_COUNT,
        forall|j: MetricKind| j.spec_id() == k.spec_id() ==> j == k,
{
}

/// First occurrences of the known ids of `order`, in their order.
pub open spec fn keep_known_unique(order: Seq<u8>) -> Seq<u8>
    decreases order.len(),
{
    if order.len() == 0 {
        seq![]
    } else {
        let k = keep_known_unique(order.drop_last());
        let x = order.last();
        if x < METRIC_COUNT && !k.contains(x) {
            k.push(x)
        } else {
            k
        }
    }
}

/// `k` followed by those of the ids `0..n` it lacks, ascending.
pub open spec fn append_missing(k: Seq<u8>, n: nat) -> Seq<u8>
    decreases n,
{
    if n == 0 {
        k
    } else {
        let f = append_missing(k, (n - 1) as nat);
        if f.contains((n - 1) as u8) {
            f
        } else {
            f.push((n - 1) as u8)
        }
    }
}

/// The stored order brought up to date: unknown ids out, duplicates out,
/// ids that are missing (metrics added later) appended.
pub open spec fn normalized(order: Seq<u8>) -> Seq<u8> {
    append_missing(keep_known_unique(order), METRIC_COUNT as nat)
}

/// `o` holds every metric id exactly once.
pub open spec fn is_full_order(o: Seq<u8>) -> bool {
    &&& o.no_duplicates()
    &&& forall|i: int| 0 <= i < o.len() ==> #[trigger] o[i] < METRIC_COUNT
    &&& forall|id: u8| id < METRIC_COUNT ==> #[trigger] o.contains(id)
}

fn contains_id(v: &Vec<u8>, x: u8) -> (r: bool)
    ensures
        r == v@.contains(x),
{
    let mut i: usize = 0;
    while i < v.len()
        invariant
            i <= v@.len(),
            forall|j: int| 0 <= j < i ==> v@[j] != x,
        decreases v@.len() - i,
    {
        if v[i] == x {
            assert(v@[i as int] == x);
            return true;
        }
        i = i + 1;
    }
    false
}

/// Brings a stored `metric_order` up to date (see `normalized`).
pub fn normalize_order(order: &[u8]) -> (r: Vec<u8>)
    ensures
        r@ == normalized(order@),
{
    let mut out: Vec<u8> = Vec::new();
    let mut i: usize = 0;
    while i < order.len()
        invariant
            i <= order@.len(),
            out@ == keep_known_unique(order@.take(i as int)),
        decreases order@.len() - i,
    {
        let id = order[i];
        assert(order@.take(i + 1).drop_last() =~= order@.take(i as int));
        let known = MetricKind::from_u8(id).is_some();
        if known && !contains_id(&out, id) {
            out.push(id);
        }
        i = i + 1;
    }
    assert(order@.take(order@.len() as int) =~= order@);
    let ghost kept = out@;
    let mut n: u8 = 0;
    while n < METRIC_COUNT
        invariant
            n <= METRIC_COUNT,
            out@ == append_missing(kept, n as nat),
            kept == keep_known_unique(order@),
        decreases METRIC_COUNT - n,
    {
        if !contains_id(&out, n) {
            out.push(n);
        }
        n = n + 1;
    }
    out
}

proof fn lemma_keep_known_unique(order: Seq<u8>)
    ensures
        keep_known_unique(order).no_duplicates(),
        forall|i: int|
            0 <= i < keep_known_unique(order).len() ==> #[trigger] keep_known_unique(order)[i]
                < METRIC_COUNT,
        forall|x: u8| x < METRIC_COUNT && order.contains(x) ==> #[trigger] keep_known_unique(
            order,
        ).contains(x),
    decreases order.len(),
{
    if order.len() > 0 {
        lemma_keep_known_unique(order.drop_last());
        let k = keep_known_unique(order.drop_last());
        assert forall|x: u8| x < METRIC_COUNT && order.contains(x) implies #[trigger] keep_known_unique(
            order,
        ).contains(x) by {
            let j = choose|j: int| 0 <= j < order.len() && order[j] == x;
            if j < order.len() - 1 {
                assert(order.drop_last()[j] == x);
                assert(order.drop_last().contains(x));
                assert(k.contains(x));
                let t = choose|t: int| 0 <= t < k.len() && k[t] == x;
                assert(keep_known_unique(order)[t] == x);
            } else {
                if !k.contains(x) {
                    assert(keep_known_unique(order) == k.push(x));
                    assert(keep_known_unique(order)[k.len() as int] == x);
                }
            }
        }
    }
}

proof fn lemma_append_missing(k: Seq<u8>, n: nat)
    requires
        k.no_duplicates(),
        forall|i: int| 0 <= i < k.len() ==> #[trigger] k[i] < METRIC_COUNT,
        n <= METRIC_COUNT,
    ensures
        append_missing(k, n).no_duplicates(),
        forall|i: int|
            0 <= i < append_missing(k, n).len() ==> #[trigger] append_missing(k, n)[i]
                < METRIC_COUNT,
        forall|x: u8| (x < n || k.contains(x)) ==> #[trigger] append_missing(k, n).contains(x),
        append_missing(k, n).take(k.len() as int) == k,
        k.len() <= append_missing(k, n).len(),
    decreases n,
{
    if n > 0 {
        lemma_append_missing(k, (n - 1) as nat);
        let f = append_missing(k, (n - 1) as nat);
        let y = (n - 1) as u8;
        if !f.contains(y) {
            let g = f.push(y);
            assert(g.take(k.len() as int) =~= f.take(k.len() as int));
            assert forall|x: u8| (x < n || k.contains(x)) implies #[trigger] g.contains(x) by {
                if x == y {
                    assert(g[f.len() as int] == y);
                } else {
                    assert(f.contains(x));
                    let t = choose|t: int| 0 <= t < f.len() && f[t] == x;
                    assert(g[t] == x);
                }
            }
        }
    }
}

/// The normalised order holds every metric id exactly once, and it begins
/// with the first occurrences of the known ids of the stored order, in
/// their stored order.
pub proof fn lemma_normalized_is_full_order(order: Seq<u8>)
    ensures
        is_full_order(normalized(order)),
        normalized(order).take(keep_known_unique(order).len() as int) == keep_known_unique(
            order,
        ),
{
    lemma_keep_known_unique(order);
    lemma_append_missing(keep_known_unique(order), METRIC_COUNT as nat);
}

proof fn lemma_keep_full(o: Seq<u8>)
    requires
        o.no_duplicates(),
        forall|i: int| 0 <= i < o.len() ==> #[trigger] o[i] < METRIC_COUNT,
    ensures
        keep_known_unique(o) == o,
    decreases o.len(),
{
    if o.len() > 0 {
        let p = o.drop_last();
        assert forall|i: int, j: int|
            0 <= i < p.len() && 0 <= j < p.len() && i != j implies p[i] != p[j] by {
            assert(o[i] != o[j]);
        }
        assert forall|i: int| 0 <= i < p.len() implies #[trigger] p[i] < METRIC_COUNT by {
            assert(o[i] < METRIC_COUNT);
        }
        lemma_keep_full(p);
        if p.contains(o.last()) {
            let t = choose|t: int| 0 <= t < p.len() && p[t] == o.last();
            assert(o[t] == o[o.len() - 1]);
        }
        assert(p.push(o.last()) =~= o);
    }
}

proof fn lemma_append_full(o: Seq<u8>, n: nat)
    requires
        forall|id: u8| id < METRIC_COUNT ==> #[trigger] o.contains(id),
        n <= METRIC_COUNT,
    ensures
        append_missing(o, n) == o,
    decreases n,
{
    if n > 0 {
        lemma_append_full(o, (n - 1) as nat);
        assert(o.contains((n - 1) as u8));
    }
}

/// An order that already holds every id exactly once is left as it is.
pub proof fn lemma_normalize_keeps_full_order(o: Seq<u8>)
    requires
        is_full_order(o),
    ensures
        normalized(o) == o,
{
    lemma_keep_full(o);
    lemma_append_full(o, METRIC_COUNT as nat);
}

/// Normalising twice gives what normalising once gives.
pub proof fn lemma_normalize_idempotent(order: Seq<u8>)
    ensures
        normalized(normalized(order)) == normalized(order),
{
    lemma_normalized_is_full_order(order);
    lemma_normalize_keeps_full_order(normalized(order));
}

/// `o` with the entries at `i` and `j` exchanged.
pub open spec fn swapped(o: Seq<u8>, i: int, j: int) -> Seq<u8> {
    o.update(i, o[j]).update(j, o[i])
}

/// Moves the entry at `i` one place up (towards the front), where there is
/// a place above it; `None` where `i` is the first entry or out of range.
pub fn move_up(order: &Vec<u8>, i: usize) -> (r: Option<Vec<u8>>)
    ensures
        r is Some <==> (0 < i && i < order@.len()),
        r matches Some(v) ==> v@ == swapped(order@, i as int, i - 1),
{
    if i > 0 && i < order.len() {
        let mut v = order.clone();
        let a = v[i];
        let b = v[i - 1];
        v.set(i, b);
        v.set(i - 1, a);
        assert(v@ =~= swapped(order@, i as int, i - 1));
        Some(v)
    } else {
        None
    }
}

/// Moves the entry at `i` one place down, where there is a place below it.
pub fn move_down(order: &Vec<u8>, i: usize) -> (r: Option<Vec<u8>>)
    ensures
        r is Some <==> i + 1 < order@.len(),
        r matches Some(v) ==> v@ == swapped(order@, i as int, i + 1),
{
    if i < order.len() && i + 1 < order.len() {
        let mut v = order.clone();
        let a = v[i];
        let b = v[i + 1];
        v.set(i, b);
        v.set(i + 1, a);
        assert(v@ =~= swapped(order@, i as int, i + 1));
        Some(v)
    } else {
        None
    }
}

/// Moving an entry up and then moving it back down restores the order.
pub proof fn lemma_move_up_then_down(o: Seq<u8>, i: int)
    requires
        0 < i < o.len(),
    ensures
        swapped(swapped(o, i, i - 1), i - 1, i) == o,
{
    assert(swapped(swapped(o, i, i - 1), i - 1, i) =~= o);
}

/// Reordering keeps an order full: each id stays there exactly once.
pub proof fn lemma_swap_keeps_full_order(o: Seq<u8>, i: int, j: int)
    requires
        is_full_order(o),
        0 <= i < o.len(),
        0 <= j < o.len(),
    ensures
        is_full_order(swapped(o, i, j)),
{
    let s = swapped(o, i, j);
    assert forall|a: int, b: int| 0 <= a < s.len() && 0 <= b < s.len() && a != b implies s[a]
        != s[b] by {
        let pa = if a == i {
            j
        } else if a == j {
            i
        } else {
            a
        };
        let pb = if b == i {
            j
        } else if b == j {
            i
        } else {
            b
        };
        assert(s[a] == o[pa]);
        assert(s[b] == o[pb]);
    }
    assert forall|k: int| 0 <= k < s.len() implies #[trigger] s[k] < METRIC_COUNT by {
        if k == i {
            assert(o[j] < METRIC_COUNT);
        } else if k == j {
            assert(o[i] < METRIC_COUNT);
        } else {
            assert(o[k] < METRIC_COUNT);
        }
    }
    assert forall|id: u8| id < METRIC_COUNT implies #[trigger] s.contains(id) by {
        assert(o.contains(id));
        let t = choose|t: int| 0 <= t < o.len() && o[t] == id;
        let u = if t == i {
            j
        } else if t == j {
            i
        } else {
            t
        };
        assert(s[u] == id);
    }
}

/// The metric id the panel text moves to from `cur`: the next one in the
/// cycle CPU → RAM → Net → GPU → Watts → CPU; an id outside the cycle
/// counts as CPU.
pub open spec fn spec_next_panel_metric(cur: u8) -> u8 {
    let pos = match panel_pos(cur) {
        Some(p) => p,
        None => 0,
    };
    panel_id((pos + 1) % (PANEL_COUNT as int))
}

pub fn next_panel_metric(cur: u8) -> (r: u8)
    ensures
        r == spec_next_panel_metric(cur),
{
    let pos: usize = match MetricKind::from_u8(cur) {
        Some(MetricKind::Cpu) => 0,
        Some(MetricKind::Mem) => 1,
        Some(MetricKind::Net) => 2,
        Some(MetricKind::Gpu) => 3,
        Some(MetricKind::Power) => 4,
        _ => 0,
    };
    let next = (pos + 1) % PANEL_COUNT;
    let kind = if next == 0 {
        MetricKind::Cpu
    } else if next == 1 {
        MetricKind::Mem
    } else if next == 2 {
        MetricKind::Net
    } else if next == 3 {
        MetricKind::Gpu
    } else {
        MetricKind::Power
    };
    kind.id()
}

/// Five steps of the panel cycle come back to where they started, for
/// every id in the cycle.
pub proof fn lemma_panel_cycle_returns(p: int)
    requires
        0 <= p < PANEL_COUNT,
    ensures
        spec_next_panel_metric(
            spec_next_panel_metric(
                spec_next_panel_metric(spec_next_panel_metric(spec_next_panel_metric(panel_id(p)))),
            ),
        ) == panel_id(p),
{
}

/// The label of the metric the panel text shows (CPU for an unknown id).
pub fn panel_metric_label(id: u8) -> (r: &'static str)
    ensures
        r == (match spec_kind_of(id) {
            Some(k) => k.spec_label(),
            None => MetricKind::Cpu.spec_label(),
        }),
{
    match MetricKind::from_u8(id) {
        Some(k) => k.label(),
        None => MetricKind::Cpu.label(),
    }
}

/// The metric with id `id`, where there is one.
pub open spec fn spec_kind_of(id: u8) -> Option<MetricKind> {
    if id == 0 {
        Some(MetricKind::Cpu)
    } else if id == 1 {
        Some(MetricKind::Mem)
    } else if id == 2 {
        Some(MetricKind::Net)
    } else if id == 3 {
        Some(MetricKind::Gpu)
    } else if id == 4 {
        Some(MetricKind::Fans)
    } else if id == 5 {
        Some(MetricKind::Cores)
    } else if id == 6 {
        Some(MetricKind::Power)
    } else if id == 7 {
        Some(MetricKind::Battery)
    } else if id == 8 {
        Some(MetricKind::Disk)
    } else if id == 9 {
        Some(MetricKind::Swap)
    } else if id == 10 {
        Some(MetricKind::Load)
    } else if id == 11 {
        Some(MetricKind::Uptime)
    } else if id == 12 {
        Some(MetricKind::NetTotal)
    } else {
        None
    }
}


/// The shipped order holds every id once and needs no normalisation.
pub proof fn lemma_default_order_is_normal()
    ensures
        is_full_order(crate::config::default_order()),
        normalized(crate::config::default_order()) == crate::config::default_order(),
{
    let o = crate::config::default_order();
    assert forall|id: u8| id < METRIC_COUNT implies #[trigger] o.contains(id) by {
        assert(o[id as int] == id);
    }
    lemma_normalize_keeps_full_order(o);
}

} // verus!
