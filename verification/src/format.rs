//! Value texts that need no floating point: time spans, uptime, fan
//! speeds and the GPU row.

use vstd::prelude::*;

use crate::metrics::gpu::{GpuInfo, GpuMode};
use crate::text::{dec, push_dec, push_str, string_of};

verus! {

/// A time window, compactly: "45 s" under a minute, else whole minutes ("3 min").
pub open spec fn spec_fmt_span(s: u64) -> Seq<char> {
    if s < 60 {
        dec(s as nat) + " s"@
    } else {
        dec((s / 60) as nat) + " min"@
    }
}

pub fn fmt_span(s: u64) -> (r: String)
    ensures
        r@ == spec_fmt_span(s),
{
    let mut out = String::new();
    if s < 60 {
        push_dec(&mut out, s);
        push_str(&mut out, " s");
    } else {
        push_dec(&mut out, s / 60);
        push_str(&mut out, " min");
    }
    out
}

/// Uptime for humans: "3 d 4 h 12 min"; leading zero units are left out.
pub open spec fn spec_fmt_uptime(s: u64) -> Seq<char> {
    let d = s / 86_400;
    let h = (s % 86_400) / 3_600;
    let min = (s % 3_600) / 60;
    if d > 0 {
        dec(d as nat) + " d "@ + dec(h as nat) + " h "@ + dec(min as nat) + " min"@
    } else if h > 0 {
        dec(h as nat) + " h "@ + dec(min as nat) + " min"@
    } else {
        dec(min as nat) + " min"@
    }
}

pub fn fmt_uptime(s: u64) -> (r: String)
    ensures
        r@ == spec_fmt_uptime(s),
{
    let d = s / 86_400;
    let h = (s % 86_400) / 3_600;
    let min = (s % 3_600) / 60;
    let mut out = String::new();
    if d > 0 {
        push_dec(&mut out, d);
        push_str(&mut out, " d ");
    }
    if d > 0 || h > 0 {
        push_dec(&mut out, h);
        push_str(&mut out, " h ");
    }
    push_dec(&mut out, min);
    push_str(&mut out, " min");
    assert(out@ =~= spec_fmt_uptime(s));
    out
}

/// The GPU row while the dGPU is not active: says why there are no values.
pub open spec fn spec_gpu_inactive_text(g: GpuInfo) -> Seq<char> {
    if !g.present {
        "keine NVIDIA"@
    } else if g.mode == GpuMode::Integrated {
        "inaktiv · integriert"@
    } else {
        "schläft · "@ + g.mode.spec_label()@
    }
}

pub fn gpu_inactive_text(g: &GpuInfo) -> (r: String)
    ensures
        r@ == spec_gpu_inactive_text(*g),
{
    if !g.present {
        return string_of("keine NVIDIA");
    }
    if g.mode == GpuMode::Integrated {
        return string_of("inaktiv · integriert");
    }
    let mut out = string_of("schläft · ");
    push_str(&mut out, g.mode.label());
    out
}

/// What the GPU row of the popup shows.
#[derive(Debug, Clone, PartialEq, Eq)]
pub enum GpuRow {
    /// No row: the dGPU sleeps and the settings hide it then.
    Hidden,
    /// A text in place of values.
    Text(String),
    /// The usage row with this usage in percent (VRAM and temperature beside it).
    Usage(u32),
}

/// The GPU row: hidden while asleep where so configured; "keine NVIDIA"
/// without a dGPU; the inactive text while it sleeps; "aktiv · <mode>"
/// while awake without live values; else the usage row.
pub fn gpu_row(g: &GpuInfo, hide_when_asleep: bool) -> (r: GpuRow)
    ensures
        g.present && !g.awake && hide_when_asleep ==> r == GpuRow::Hidden,
        !(g.present && !g.awake && hide_when_asleep) ==> (match r {
            GpuRow::Hidden => false,
            GpuRow::Text(t) => if !g.present {
                t@ == "keine NVIDIA"@
            } else if !g.awake {
                t@ == spec_gpu_inactive_text(*g)
            } else {
                g.util is None && t@ == "aktiv · "@ + g.mode.spec_label()@
            },
            GpuRow::Usage(u) => g.present && g.awake && g.util == Some(u),
        }),
{
    if g.present && !g.awake && hide_when_asleep {
        return GpuRow::Hidden;
    }
    if !g.present {
        return GpuRow::Text(string_of("keine NVIDIA"));
    }
    if !g.awake {
        return GpuRow::Text(gpu_inactive_text(g));
    }
    match g.util {
        Some(u) => GpuRow::Usage(u),
        None => {
            let mut t = string_of("aktiv · ");
            push_str(&mut t, g.mode.label());
            GpuRow::Text(t)
        },
    }
}

/// The decimal texts of `xs` joined by `sep`.
pub open spec fn join_dec(xs: Seq<u32>, sep: Seq<char>) -> Seq<char>
    decreases xs.len(),
{
    if xs.len() == 0 {
        seq![]
    } else if xs.len() == 1 {
        dec(xs[0] as nat)
    } else {
        join_dec(xs.drop_last(), sep) + sep + dec(xs.last() as nat)
    }
}

/// Fan speeds, "2400 / 2600 rpm".
pub open spec fn spec_fans_text(rpm: Seq<u32>) -> Seq<char> {
    join_dec(rpm, " / "@) + " rpm"@
}

pub fn fans_text(rpm: &Vec<u32>) -> (r: String)
    ensures
        r@ == spec_fans_text(rpm@),
{
    let mut out = String::new();
    let mut i: usize = 0;
    while i < rpm.len()
        invariant
            i <= rpm@.len(),
            out@ == join_dec(rpm@.take(i as int), " / "@),
        decreases rpm@.len() - i,
    {
        assert(rpm@.take(i + 1).drop_last() =~= rpm@.take(i as int));
        if i > 0 {
            push_str(&mut out, " / ");
        }
        push_dec(&mut out, rpm[i] as u64);
        i = i + 1;
    }
    assert(rpm@.take(rpm@.len() as int) =~= rpm@);
    push_str(&mut out, " rpm");
    out
}

/// Samples each history graph keeps (about 3 minutes at 1.5 s).
pub const HISTORY_LEN: usize = 120;

/// Time window of the history graphs in seconds:
/// `HISTORY_LEN * max(interval_ms, 250) / 1000`, the product taken modulo
/// 2^64 as `u64` multiplication wraps in a release build.
pub open spec fn spec_history_span_s(interval_ms: u64) -> u64 {
    let ms = if interval_ms < 250 {
        250
    } else {
        interval_ms
    };
    (((HISTORY_LEN as int * ms) % 0x1_0000_0000_0000_0000) / 1000) as u64
}

pub fn history_span_s(interval_ms: u64) -> (r: u64)
    ensures
        r == spec_history_span_s(interval_ms),
{
    let ms = crate::config::clamp_interval(interval_ms);
    let p: u128 = (HISTORY_LEN as u128) * (ms as u128);
    let w: u128 = p % 0x1_0000_0000_0000_0000;
    (w / 1000) as u64
}

/// How long ago, in seconds, the sample at `idx` of a series of `len`
/// samples was taken, the series spanning `span_s` seconds over
/// `HISTORY_LEN` slots: `(len - 1 - idx) * span_s / HISTORY_LEN`, the
/// product wrapping modulo 2^64.
pub open spec fn spec_sample_age_s(len: usize, idx: usize, span_s: u64) -> u64 {
    ((((len - 1 - idx) * span_s) % 0x1_0000_0000_0000_0000) / (HISTORY_LEN as int)) as u64
}

pub fn sample_age_s(len: usize, idx: usize, span_s: u64) -> (r: u64)
    requires
        idx < len,
    ensures
        r == spec_sample_age_s(len, idx, span_s),
{
    let back = (len - 1 - idx) as u64;
    assert((back as int) * (span_s as int) <= 0xffff_ffff_ffff_ffff * 0xffff_ffff_ffff_ffff) by (nonlinear_arith)
        requires
            back <= 0xffff_ffff_ffff_ffffu64,
            span_s <= 0xffff_ffff_ffff_ffffu64,
    ;
    let p: u128 = (back as u128) * (span_s as u128);
    let w: u128 = p % 0x1_0000_0000_0000_0000;
    (w / (HISTORY_LEN as u128)) as u64
}

} // verus!
