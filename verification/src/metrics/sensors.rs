//! hwmon sensor paths, resolved once from a scan of /sys/class/hwmon and
//! cached. A failed read drops the path; chips that were not found are
//! looked for again when the popup opens next.

use vstd::prelude::*;

use crate::hw::{
    cpu_temp_chip, spec_cpu_temp_chip, spec_cpu_temp_label, CPU_TEMP_CANDIDATES,
    CPU_TEMP_FALLBACK_CHIP, FAN_CHIP, RAM_TEMP_CHIP,
};
use crate::metrics::procfs::opt_view;
use crate::text::{push_str, trim, trimmed_eq};

verus! {

/// One hwmon directory as scanned: its path, the contents of its `name`
/// file (`None`: unreadable), and, where the trimmed name is one of the
/// CPU temperature chips, the `_input` file whose `temp*_label` matches that
/// chip's label and holds a readable value (`None`: not found or not looked for).
pub struct HwmonChip {
    pub dir: String,
    pub name: Option<String>,
    pub labeled_input: Option<String>,
}

/// `file` inside directory `dir`, as `Path::join` forms it for a relative
/// file name.
pub open spec fn spec_join(dir: Seq<char>, file: Seq<char>) -> Seq<char> {
    if dir.len() == 0 {
        file
    } else if dir.last() == '/' {
        dir + file
    } else {
        dir + "/"@ + file
    }
}

pub fn join_path(dir: &String, file: &str) -> (r: String)
    ensures
        r@ == spec_join(dir@, file@),
{
    let n = dir.as_str().unicode_len();
    if n == 0 {
        return crate::text::string_of(file);
    }
    let last = dir.as_str().get_char(n - 1);
    let mut out = dir.clone();
    if last != '/' {
        push_str(&mut out, "/");
    }
    push_str(&mut out, file);
    out
}

/// The label to look for in a chip's directory: that of the first CPU
/// temperature candidate whose chip name equals the trimmed `name`.
pub open spec fn spec_cpu_label_for(name: Seq<char>) -> Option<&'static str> {
    if trim(name) == spec_cpu_temp_chip(0)@ {
        Some(spec_cpu_temp_label(0))
    } else if trim(name) == spec_cpu_temp_chip(1)@ {
        Some(spec_cpu_temp_label(1))
    } else {
        None
    }
}

pub fn cpu_label_for(name: &str) -> (r: Option<&'static str>)
    ensures
        r == spec_cpu_label_for(name@),
{
    let mut rank: usize = 0;
    while rank < CPU_TEMP_CANDIDATES
        invariant
            rank <= CPU_TEMP_CANDIDATES,
            forall|k: int| 0 <= k < rank ==> trim(name@) != spec_cpu_temp_chip(k)@,
        decreases CPU_TEMP_CANDIDATES - rank,
    {
        if trimmed_eq(name, cpu_temp_chip(rank)) {
            return Some(crate::hw::cpu_temp_label(rank));
        }
        rank = rank + 1;
    }
    None
}

/// The best CPU temperature source so far after looking at one candidate
/// rank of a chip: a lower rank with an input found replaces it.
pub open spec fn best_step(
    best: Option<(int, Seq<char>)>,
    name: Seq<char>,
    input: Option<Seq<char>>,
    rank: int,
) -> Option<(int, Seq<char>)> {
    let better = match best {
        None => true,
        Some(b) => rank < b.0,
    };
    if name == spec_cpu_temp_chip(rank)@ && better && input is Some {
        Some((rank, input->0))
    } else {
        best
    }
}

/// What a scan of `chips` finds: the best CPU temperature input, the
/// fallback chip's `temp1_input`, the RAM chip's `temp1_input` and the fan
/// chip's directory (the last chip of each name wins for the latter three).
pub open spec fn resolve_scan(chips: Seq<HwmonChip>) -> (
    Option<(int, Seq<char>)>,
    Option<Seq<char>>,
    Option<Seq<char>>,
    Option<Seq<char>>,
)
    decreases chips.len(),
{
    if chips.len() == 0 {
        (None, None, None, None)
    } else {
        let (best, fb, ram, fan) = resolve_scan(chips.drop_last());
        let c = chips.last();
        match c.name {
            None => (best, fb, ram, fan),
            Some(n) => {
                let t = trim(n@);
                let input = opt_view(c.labeled_input);
                let b = best_step(best_step(best, t, input, 0), t, input, 1);
                let fb2 = if t == CPU_TEMP_FALLBACK_CHIP@ {
                    Some(spec_join(c.dir@, "temp1_input"@))
                } else {
                    fb
                };
                let ram2 = if t == RAM_TEMP_CHIP@ {
                    Some(spec_join(c.dir@, "temp1_input"@))
                } else {
                    ram
                };
                let fan2 = if t == FAN_CHIP@ {
                    Some(c.dir@)
                } else {
                    fan
                };
                (b, fb2, ram2, fan2)
            },
        }
    }
}

/// The CPU temperature input a scan settles on: the best labelled input,
/// else the fallback chip's.
pub open spec fn spec_resolved_cpu(chips: Seq<HwmonChip>) -> Option<Seq<char>> {
    let (best, fb, _, _) = resolve_scan(chips);
    match best {
        Some(b) => Some(b.1),
        None => fb,
    }
}

/// The chip's trimmed name is `chip`.
pub open spec fn chip_named(c: HwmonChip, chip: Seq<char>) -> bool {
    match c.name {
        Some(n) => trim(n@) == chip,
        None => false,
    }
}

/// The chip is named `chip` and a labelled temperature input was found in it.
pub open spec fn offers_input(c: HwmonChip, chip: Seq<char>) -> bool {
    chip_named(c, chip) && c.labeled_input is Some
}

proof fn lemma_scan_no_offer(chips: Seq<HwmonChip>)
    requires
        forall|k: int|
            0 <= k < chips.len() ==> !offers_input(#[trigger] chips[k], "coretemp"@)
                && !offers_input(chips[k], "k10temp"@),
    ensures
        resolve_scan(chips).0 is None,
    decreases chips.len(),
{
    if chips.len() > 0 {
        lemma_scan_no_offer(chips.drop_last());
        assert(chips.last() == chips[chips.len() - 1]);
    }
}

proof fn lemma_scan_no_coretemp(chips: Seq<HwmonChip>)
    requires
        forall|k: int| 0 <= k < chips.len() ==> !offers_input(#[trigger] chips[k], "coretemp"@),
    ensures
        resolve_scan(chips).0 matches Some(b) ==> b.0 == 1,
    decreases chips.len(),
{
    if chips.len() > 0 {
        lemma_scan_no_coretemp(chips.drop_last());
        assert(chips.last() == chips[chips.len() - 1]);
    }
}

proof fn lemma_scan_first_coretemp(chips: Seq<HwmonChip>, j: int)
    requires
        0 <= j < chips.len(),
        offers_input(chips[j], "coretemp"@),
        forall|k: int| 0 <= k < j ==> !offers_input(#[trigger] chips[k], "coretemp"@),
    ensures
        resolve_scan(chips).0 == Some((0int, chips[j].labeled_input->0@)),
    decreases chips.len(),
{
    let pre = chips.drop_last();
    assert(chips.last() == chips[chips.len() - 1]);
    if j < chips.len() - 1 {
        assert(pre[j] == chips[j]);
        assert forall|k: int| 0 <= k < j implies !offers_input(#[trigger] pre[k], "coretemp"@) by {
            assert(pre[k] == chips[k]);
        }
        lemma_scan_first_coretemp(pre, j);
    } else {
        assert forall|k: int| 0 <= k < pre.len() implies !offers_input(
            #[trigger] pre[k],
            "coretemp"@,
        ) by {
            assert(pre[k] == chips[k]);
        }
        lemma_scan_no_coretemp(pre);
    }
}

proof fn lemma_scan_first_k10temp(chips: Seq<HwmonChip>, j: int)
    requires
        0 <= j < chips.len(),
        offers_input(chips[j], "k10temp"@),
        forall|k: int| 0 <= k < j ==> !offers_input(#[trigger] chips[k], "k10temp"@),
        forall|k: int| 0 <= k < chips.len() ==> !offers_input(#[trigger] chips[k], "coretemp"@),
    ensures
        resolve_scan(chips).0 == Some((1int, chips[j].labeled_input->0@)),
    decreases chips.len(),
{
    reveal_strlit("coretemp");
    reveal_strlit("k10temp");
    let pre = chips.drop_last();
    assert(chips.last() == chips[chips.len() - 1]);
    assert forall|k: int| 0 <= k < pre.len() implies !offers_input(#[trigger] pre[k], "coretemp"@) by {
        assert(pre[k] == chips[k]);
    }
    if j < chips.len() - 1 {
        assert(pre[j] == chips[j]);
        assert forall|k: int| 0 <= k < j implies !offers_input(#[trigger] pre[k], "k10temp"@) by {
            assert(pre[k] == chips[k]);
        }
        lemma_scan_first_k10temp(pre, j);
    } else {
        assert forall|k: int| 0 <= k < pre.len() implies !offers_input(
            #[trigger] pre[k],
            "coretemp"@,
        ) && !offers_input(pre[k], "k10temp"@) by {
            assert(pre[k] == chips[k]);
        }
        lemma_scan_no_offer(pre);
    }
}

proof fn lemma_scan_last_fallback(chips: Seq<HwmonChip>, j: int)
    requires
        0 <= j < chips.len(),
        chip_named(chips[j], "acpitz"@),
        forall|k: int| j < k < chips.len() ==> !chip_named(#[trigger] chips[k], "acpitz"@),
    ensures
        resolve_scan(chips).1 == Some(spec_join(chips[j].dir@, "temp1_input"@)),
    decreases chips.len(),
{
    let pre = chips.drop_last();
    assert(chips.last() == chips[chips.len() - 1]);
    if j < chips.len() - 1 {
        assert(pre[j] == chips[j]);
        assert forall|k: int| j < k < pre.len() implies !chip_named(#[trigger] pre[k], "acpitz"@) by {
            assert(pre[k] == chips[k]);
        }
        lemma_scan_last_fallback(pre, j);
    }
}

proof fn lemma_scan_no_fallback(chips: Seq<HwmonChip>)
    requires
        forall|k: int| 0 <= k < chips.len() ==> !chip_named(#[trigger] chips[k], "acpitz"@),
    ensures
        resolve_scan(chips).1 is None,
    decreases chips.len(),
{
    if chips.len() > 0 {
        lemma_scan_no_fallback(chips.drop_last());
        assert(chips.last() == chips[chips.len() - 1]);
    }
}

/// Which CPU temperature input a scan of the hwmon chips settles on. The
/// first chip named `coretemp` (Intel, `Package id 0`) with a labelled input
/// wins. Without one, the first `k10temp` (AMD, `Tctl`) with one. Without
/// either, the `temp1_input` of the last chip named `acpitz`; and without
/// that there is none.
pub proof fn lemma_cpu_sensor_choice(chips: Seq<HwmonChip>, j: int)
    ensures
        (0 <= j < chips.len() && offers_input(chips[j], "coretemp"@) && forall|k: int|
            0 <= k < j ==> !offers_input(#[trigger] chips[k], "coretemp"@)) ==> spec_resolved_cpu(
            chips,
        ) == Some(chips[j].labeled_input->0@),
        (0 <= j < chips.len() && offers_input(chips[j], "k10temp"@) && (forall|k: int|
            0 <= k < j ==> !offers_input(#[trigger] chips[k], "k10temp"@)) && forall|k: int|
            0 <= k < chips.len() ==> !offers_input(#[trigger] chips[k], "coretemp"@))
            ==> spec_resolved_cpu(chips) == Some(chips[j].labeled_input->0@),
        (0 <= j < chips.len() && chip_named(chips[j], "acpitz"@) && (forall|k: int|
            j < k < chips.len() ==> !chip_named(#[trigger] chips[k], "acpitz"@)) && forall|k: int|
            0 <= k < chips.len() ==> !offers_input(#[trigger] chips[k], "coretemp"@)
                && !offers_input(chips[k], "k10temp"@)) ==> spec_resolved_cpu(chips) == Some(
            spec_join(chips[j].dir@, "temp1_input"@),
        ),
        (forall|k: int|
            0 <= k < chips.len() ==> !offers_input(#[trigger] chips[k], "coretemp"@)
                && !offers_input(chips[k], "k10temp"@) && !chip_named(chips[k], "acpitz"@))
            ==> spec_resolved_cpu(chips) is None,
{
    if 0 <= j < chips.len() && offers_input(chips[j], "coretemp"@) && forall|k: int|
        0 <= k < j ==> !offers_input(#[trigger] chips[k], "coretemp"@) {
        lemma_scan_first_coretemp(chips, j);
    }
    if 0 <= j < chips.len() && offers_input(chips[j], "k10temp"@) && (forall|k: int|
        0 <= k < j ==> !offers_input(#[trigger] chips[k], "k10temp"@)) && forall|k: int|
        0 <= k < chips.len() ==> !offers_input(#[trigger] chips[k], "coretemp"@) {
        lemma_scan_first_k10temp(chips, j);
    }
    if 0 <= j < chips.len() && chip_named(chips[j], "acpitz"@) && (forall|k: int|
        j < k < chips.len() ==> !chip_named(#[trigger] chips[k], "acpitz"@)) && forall|k: int|
        0 <= k < chips.len() ==> !offers_input(#[trigger] chips[k], "coretemp"@)
            && !offers_input(chips[k], "k10temp"@) {
        lemma_scan_no_offer(chips);
        lemma_scan_last_fallback(chips, j);
    }
    if forall|k: int|
        0 <= k < chips.len() ==> !offers_input(#[trigger] chips[k], "coretemp"@)
            && !offers_input(chips[k], "k10temp"@) && !chip_named(chips[k], "acpitz"@) {
        lemma_scan_no_offer(chips);
        lemma_scan_no_fallback(chips);
    }
}

/// The cached sensor paths.
pub struct SensorPaths {
    /// The resolved CPU temperature `_input` file (label search included).
    cpu_temp_input: Option<String>,
    ram_temp_input: Option<String>,
    /// hwmon directory of the fan chip.
    fan_base: Option<String>,
    resolved: bool,
}

fn step_best(
    best: Option<(usize, String)>,
    name: &str,
    input: &Option<String>,
    rank: usize,
) -> (r: Option<(usize, String)>)
    requires
        rank < CPU_TEMP_CANDIDATES,
    ensures
        opt_best(r) == best_step(opt_best(best), trim(name@), opt_view(*input), rank as int),
        r matches Some(b) ==> b.0 < CPU_TEMP_CANDIDATES || (best matches Some(o) && b.0 == o.0),
{
    let better = match &best {
        None => true,
        Some(b) => rank < b.0,
    };
    if better && trimmed_eq(name, cpu_temp_chip(rank)) {
        match input {
            Some(p) => Some((rank, p.clone())),
            None => best,
        }
    } else {
        best
    }
}

pub open spec fn opt_best(b: Option<(usize, String)>) -> Option<(int, Seq<char>)> {
    match b {
        Some(x) => Some((x.0 as int, x.1@)),
        None => None,
    }
}

impl SensorPaths {
    pub closed spec fn spec_cpu(&self) -> Option<Seq<char>> {
        opt_view(self.cpu_temp_input)
    }

    pub closed spec fn spec_ram(&self) -> Option<Seq<char>> {
        opt_view(self.ram_temp_input)
    }

    pub closed spec fn spec_fan_base(&self) -> Option<Seq<char>> {
        opt_view(self.fan_base)
    }

    pub closed spec fn spec_resolved(&self) -> bool {
        self.resolved
    }

    /// Nothing resolved yet.
    pub fn new() -> (r: Self)
        ensures
            r.spec_cpu() is None,
            r.spec_ram() is None,
            r.spec_fan_base() is None,
            !r.spec_resolved(),
    {
        SensorPaths { cpu_temp_input: None, ram_temp_input: None, fan_base: None, resolved: false }
    }

    /// Marks the paths for a new resolution.
    pub fn invalidate(&mut self)
        ensures
            !final(self).spec_resolved(),
            final(self).spec_cpu() == old(self).spec_cpu(),
            final(self).spec_ram() == old(self).spec_ram(),
            final(self).spec_fan_base() == old(self).spec_fan_base(),
    {
        self.resolved = false;
    }

    /// Resolves all paths from one scan of the hwmon directories.
    pub fn resolve(&mut self, chips: &Vec<HwmonChip>)
        ensures
            final(self).spec_resolved(),
            final(self).spec_cpu() == spec_resolved_cpu(chips@),
            final(self).spec_ram() == resolve_scan(chips@).2,
            final(self).spec_fan_base() == resolve_scan(chips@).3,
    {
        let mut best: Option<(usize, String)> = None;
        let mut fallback: Option<String> = None;
        let mut ram: Option<String> = None;
        let mut fan: Option<String> = None;
        let mut i: usize = 0;
        while i < chips.len()
            invariant
                i <= chips@.len(),
                resolve_scan(chips@.take(i as int)) == (
                    opt_best(best),
                    opt_view(fallback),
                    opt_view(ram),
                    opt_view(fan),
                ),
            decreases chips@.len() - i,
        {
            assert(chips@.take(i + 1).drop_last() =~= chips@.take(i as int));
            let c = &chips[i];
            match &c.name {
                None => {},
                Some(n) => {
                    let name = n.as_str();
                    best = step_best(best, name, &c.labeled_input, 0);
                    best = step_best(best, name, &c.labeled_input, 1);
                    if trimmed_eq(name, CPU_TEMP_FALLBACK_CHIP) {
                        fallback = Some(join_path(&c.dir, "temp1_input"));
                    }
                    if trimmed_eq(name, RAM_TEMP_CHIP) {
                        ram = Some(join_path(&c.dir, "temp1_input"));
                    }
                    if trimmed_eq(name, FAN_CHIP) {
                        fan = Some(c.dir.clone());
                    }
                },
            }
            i = i + 1;
        }
        assert(chips@.take(chips@.len() as int) =~= chips@);
        self.cpu_temp_input = match best {
            Some(b) => Some(b.1),
            None => fallback,
        };
        self.ram_temp_input = ram;
        self.fan_base = fan;
        self.resolved = true;
    }

    /// Whether the paths are resolved.
    pub fn is_resolved(&self) -> (r: bool)
        ensures
            r == self.spec_resolved(),
    {
        self.resolved
    }

    /// The files to read: CPU temperature input, RAM temperature input, fan
    /// chip directory.
    pub fn paths(&self) -> (r: (Option<&String>, Option<&String>, Option<&String>))
        ensures
            opt_view_ref(r.0) == self.spec_cpu(),
            opt_view_ref(r.1) == self.spec_ram(),
            opt_view_ref(r.2) == self.spec_fan_base(),
    {
        (opt_ref(&self.cpu_temp_input), opt_ref(&self.ram_temp_input), opt_ref(&self.fan_base))
    }

    /// The CPU temperature in m°C from a reading of its input file
    /// (`None`: unreadable). A dead path is dropped, to be resolved again
    /// when the popup opens next. Without a path there is no temperature.
    pub fn cpu_temp(&mut self, milli_c: Option<u64>) -> (r: Option<u64>)
        ensures
            r == if old(self).spec_cpu() is Some {
                milli_c
            } else {
                None
            },
            final(self).spec_cpu() == if milli_c is None {
                None
            } else {
                old(self).spec_cpu()
            },
            final(self).spec_ram() == old(self).spec_ram(),
            final(self).spec_fan_base() == old(self).spec_fan_base(),
            final(self).spec_resolved() == old(self).spec_resolved(),
    {
        if self.cpu_temp_input.is_none() {
            return None;
        }
        if milli_c.is_none() {
            self.cpu_temp_input = None;
        }
        milli_c
    }

    /// The RAM temperature in m°C, as `cpu_temp` for the RAM sensor.
    pub fn ram_temp(&mut self, milli_c: Option<u64>) -> (r: Option<u64>)
        ensures
            r == if old(self).spec_ram() is Some {
                milli_c
            } else {
                None
            },
            final(self).spec_ram() == if milli_c is None {
                None
            } else {
                old(self).spec_ram()
            },
            final(self).spec_cpu() == old(self).spec_cpu(),
            final(self).spec_fan_base() == old(self).spec_fan_base(),
            final(self).spec_resolved() == old(self).spec_resolved(),
    {
        if self.ram_temp_input.is_none() {
            return None;
        }
        if milli_c.is_none() {
            self.ram_temp_input = None;
        }
        milli_c
    }

    /// Fan speeds from the readings of `fan1_input` … `fanN_input` of the
    /// fan chip: the readable ones above 0 rpm, cut to `u32`. Without a
    /// fan chip there are none.
    pub fn fans(&self, readings: &Vec<Option<u64>>) -> (r: Vec<u32>)
        ensures
            r@ == if self.spec_fan_base() is Some {
                spec_fans(readings@)
            } else {
                Seq::empty()
            },
    {
        let mut out: Vec<u32> = Vec::new();
        if self.fan_base.is_none() {
            return out;
        }
        let mut i: usize = 0;
        while i < readings.len()
            invariant
                i <= readings@.len(),
                out@ == spec_fans(readings@.take(i as int)),
            decreases readings@.len() - i,
        {
            assert(readings@.take(i + 1).drop_last() =~= readings@.take(i as int));
            match readings[i] {
                Some(rpm) => {
                    if rpm > 0 {
                        out.push(rpm as u32);
                    }
                },
                None => {},
            }
            i = i + 1;
        }
        assert(readings@.take(readings@.len() as int) =~= readings@);
        out
    }
}

/// The fan readings that are there and above zero, each cut to `u32`.
pub open spec fn spec_fans(readings: Seq<Option<u64>>) -> Seq<u32>
    decreases readings.len(),
{
    if readings.len() == 0 {
        seq![]
    } else {
        let p = spec_fans(readings.drop_last());
        match readings.last() {
            Some(rpm) => if rpm > 0 {
                p.push(rpm as u32)
            } else {
                p
            },
            None => p,
        }
    }
}

pub open spec fn opt_view_ref(s: Option<&String>) -> Option<Seq<char>> {
    match s {
        Some(t) => Some(t@),
        None => None,
    }
}

fn opt_ref(s: &Option<String>) -> (r: Option<&String>)
    ensures
        opt_view_ref(r) == opt_view(*s),
{
    match s {
        Some(t) => Some(t),
        None => None,
    }
}


/// The input file that belongs to a `temp*_label` file: for a name ending
/// in `_label`, the name with every `_label` replaced by `_input`; no file
/// for other names.
pub open spec fn spec_label_input_name(fname: Seq<char>) -> Option<Seq<char>> {
    let suffix = "_label"@;
    if suffix.len() <= fname.len() && fname.subrange(fname.len() - suffix.len(), fname.len() as int)
        == suffix {
        Some(crate::text::replace_all(fname, suffix, "_input"@))
    } else {
        None
    }
}

pub fn label_input_name(fname: &str) -> (r: Option<String>)
    ensures
        match r {
            Some(n) => spec_label_input_name(fname@) == Some(n@),
            None => spec_label_input_name(fname@) is None,
        },
{
    let v = crate::text::chars_of(fname);
    let s = crate::text::chars_of("_label");
    proof {
        reveal_strlit("_label");
    }
    if v.len() < s.len() {
        return None;
    }
    let start = v.len() - s.len();
    let ends = crate::text::range_eq(v.as_slice(), start, v.len(), "_label");
    if ends {
        Some(crate::text::replace_str(fname, "_label", "_input"))
    } else {
        None
    }
}

} // verus!
