//! Parsers of the kernel's text interfaces: /proc/stat, /proc/meminfo,
//! /proc/diskstats, /proc/net/route, and the one-number sysfs files.

use vstd::prelude::*;

use crate::text::{
    all_digits, chars_of, has_prefix, is_digit, lines, parse_trimmed_u64, parse_u64_range,
    parse_u64_spec, range_eq, range_starts_with, span_of, spans_are, split_lines, split_words,
    string_from_range, trim, wrap_add, wrapping_add, words,
};

verus! {

/// Cumulated jiffies of one CPU line: all counted fields, and idle + iowait.
#[derive(Debug, Clone, Copy, PartialEq, Eq, Structural)]
pub struct CpuTimes {
    pub total: u64,
    pub idle: u64,
}

/// The numbers that parse as `u64`, in order.
pub open spec fn parsed_nums(ws: Seq<Seq<char>>) -> Seq<u64>
    decreases ws.len(),
{
    if ws.len() == 0 {
        seq![]
    } else {
        let p = parsed_nums(ws.drop_last());
        match parse_u64_spec(ws.last()) {
            Some(x) => p.push(x),
            None => p,
        }
    }
}

/// At most the first eight entries.
pub open spec fn first8(s: Seq<u64>) -> Seq<u64> {
    if s.len() <= 8 {
        s
    } else {
        s.take(8)
    }
}

/// Sum modulo 2^64, added from the front.
pub open spec fn wsum(xs: Seq<u64>) -> u64
    decreases xs.len(),
{
    if xs.len() == 0 {
        0
    } else {
        wrap_add(wsum(xs.drop_last()), xs.last())
    }
}

/// The counted fields of a CPU line: the first eight words after the tag
/// that parse as numbers (user..steal; guest and guest_nice are already
/// part of user and nice).
pub open spec fn cpu_fields(line: Seq<char>) -> Seq<u64> {
    first8(parsed_nums(words(line).drop_first()))
}

/// A line of /proc/stat that counts: it begins with "cpu" and has at least
/// five counted fields.
pub open spec fn cpu_line(line: Seq<char>) -> Option<CpuTimes> {
    let f = cpu_fields(line);
    if has_prefix(line, "cpu"@) && f.len() >= 5 {
        Some(CpuTimes { total: wsum(f), idle: wrap_add(f[3], f[4]) })
    } else {
        None
    }
}

/// The aggregate line (tag exactly "cpu", the last one wins) and the
/// per-core lines (every other tag), in order.
pub open spec fn cpu_scan(ls: Seq<Seq<char>>) -> (Option<CpuTimes>, Seq<CpuTimes>)
    decreases ls.len(),
{
    if ls.len() == 0 {
        (None, seq![])
    } else {
        let (agg, cores) = cpu_scan(ls.drop_last());
        let l = ls.last();
        match cpu_line(l) {
            Some(t) => if words(l)[0] == "cpu"@ {
                (Some(t), cores)
            } else {
                (agg, cores.push(t))
            },
            None => (agg, cores),
        }
    }
}

/// /proc/stat: the aggregate and the per-core times; `None` without an
/// aggregate line.
pub open spec fn spec_parse_cpu_times(text: Seq<char>) -> Option<(CpuTimes, Seq<CpuTimes>)> {
    let (agg, cores) = cpu_scan(lines(text));
    match agg {
        Some(a) => Some((a, cores)),
        None => None,
    }
}

proof fn lemma_words_first_nonempty(s: Seq<char>)
    requires
        s.len() > 0,
        !crate::text::is_ws(s[0]),
    ensures
        words(s).len() > 0,
        words(s)[0].len() > 0,
        words(s)[0][0] == s[0],
    decreases s.len(),
{
    lemma_word_state_first(s);
}

proof fn lemma_word_state_first(s: Seq<char>)
    requires
        s.len() > 0,
        !crate::text::is_ws(s[0]),
    ensures
        ({
            let (done, cur) = crate::text::word_state(s);
            &&& done.len() == 0 ==> cur.len() > 0 && cur[0] == s[0]
            &&& done.len() > 0 ==> done[0].len() > 0 && done[0][0] == s[0]
        }),
    decreases s.len(),
{
    let (d0, c0) = crate::text::word_state(s.drop_last());
    if s.len() > 1 {
        lemma_word_state_first(s.drop_last());
        if !crate::text::is_ws(s.last()) {
            if d0.len() == 0 {
                assert(c0.push(s.last())[0] == c0[0]);
            }
        }
    } else {
        assert(s.drop_last() =~= seq![]);
        assert(d0.len() == 0 && c0.len() == 0);
        assert(c0.push(s.last()) =~= seq![s[0]]);
    }
}

/// The numbers of `words[1..]` that parse, the first eight of them.
fn counted_fields(s: &[char], ws: &Vec<(usize, usize)>, ghost_words: Ghost<Seq<Seq<char>>>) -> (r:
    Vec<u64>)
    requires
        spans_are(s@, ws@, ghost_words@),
        ws@.len() >= 1,
    ensures
        r@ == first8(parsed_nums(ghost_words@.drop_first())),
{
    let ghost all = ghost_words@.drop_first();
    let mut out: Vec<u64> = Vec::new();
    let mut j: usize = 1;
    while j < ws.len() && out.len() < 8
        invariant
            1 <= j <= ws@.len(),
            spans_are(s@, ws@, ghost_words@),
            all == ghost_words@.drop_first(),
            out@ == first8(parsed_nums(all.take(j - 1))),
        decreases ws@.len() - j,
    {
        let (a, b) = ws[j];
        assert(span_of(s@, ws@[j as int]) == all[j - 1]);
        assert(all.take(j as int).drop_last() =~= all.take(j - 1));
        match parse_u64_range(s, a, b) {
            Some(x) => {
                out.push(x);
            },
            None => {},
        }
        j = j + 1;
    }
    proof {
        if j < ws@.len() {
            lemma_first8_stable(all, (j - 1) as int);
        }
        assert(all.take(all.len() as int) =~= all);
    }
    out
}

proof fn lemma_first8_stable(all: Seq<Seq<char>>, k: int)
    requires
        0 <= k <= all.len(),
        first8(parsed_nums(all.take(k))).len() >= 8,
    ensures
        first8(parsed_nums(all)) == first8(parsed_nums(all.take(k))),
    decreases all.len() - k,
{
    if k < all.len() {
        assert(all.take(k + 1).drop_last() =~= all.take(k));
        let p = parsed_nums(all.take(k));
        let q = parsed_nums(all.take(k + 1));
        assert(first8(q) =~= first8(p));
        lemma_first8_stable(all, k + 1);
    } else {
        assert(all.take(k) =~= all);
    }
}

fn wrapping_sum(xs: &Vec<u64>) -> (r: u64)
    ensures
        r == wsum(xs@),
{
    let mut acc: u64 = 0;
    let mut k: usize = 0;
    while k < xs.len()
        invariant
            k <= xs@.len(),
            acc == wsum(xs@.take(k as int)),
        decreases xs@.len() - k,
    {
        assert(xs@.take(k + 1).drop_last() =~= xs@.take(k as int));
        acc = wrapping_add(acc, xs[k]);
        k = k + 1;
    }
    assert(xs@.take(xs@.len() as int) =~= xs@);
    acc
}

/// Parses /proc/stat (see `spec_parse_cpu_times`).
pub fn parse_cpu_times(text: &str) -> (r: Option<(CpuTimes, Vec<CpuTimes>)>)
    ensures
        match r {
            Some((a, cs)) => spec_parse_cpu_times(text@) == Some((a, cs@)),
            None => spec_parse_cpu_times(text@) is None,
        },
{
    let s = chars_of(text);
    let ls = split_lines(s.as_slice(), 0, s.len());
    let ghost lsv = lines(s@.subrange(0, s@.len() as int));
    assert(s@.subrange(0, s@.len() as int) =~= text@);
    let mut agg: Option<CpuTimes> = None;
    let mut cores: Vec<CpuTimes> = Vec::new();
    let mut i: usize = 0;
    while i < ls.len()
        invariant
            i <= ls@.len(),
            spans_are(s@, ls@, lsv),
            lsv == lines(text@),
            (agg, cores@) == cpu_scan(lsv.take(i as int)),
        decreases ls@.len() - i,
    {
        let (a, b) = ls[i];
        let ghost line = lsv[i as int];
        assert(span_of(s@, ls@[i as int]) == line);
        assert(lsv.take(i + 1).drop_last() =~= lsv.take(i as int));
        assert(lsv.take(i + 1).last() == line);
        let is_cpu = range_starts_with(s.as_slice(), a, b, "cpu");
        proof {
            if is_cpu {
                assert(line.subrange(0, "cpu"@.len() as int) =~= s@.subrange(a as int, a + "cpu"@.len()));
            } else if has_prefix(line, "cpu"@) {
                assert(line.subrange(0, "cpu"@.len() as int) =~= s@.subrange(a as int, a + "cpu"@.len()));
            }
        }
        if is_cpu {
            let ws = split_words(s.as_slice(), a, b);
            proof {
                reveal_strlit("cpu");
                assert(line[0] == 'c');
                lemma_words_first_nonempty(line);
            }
            let f = counted_fields(s.as_slice(), &ws, Ghost(words(line)));
            if f.len() >= 5 {
                let t = CpuTimes { total: wrapping_sum(&f), idle: wrapping_add(f[3], f[4]) };
                let (ta, tb) = ws[0];
                assert(span_of(s@, ws@[0]) == words(line)[0]);
                if range_eq(s.as_slice(), ta, tb, "cpu") {
                    agg = Some(t);
                } else {
                    cores.push(t);
                }
            }
        }
        i = i + 1;
    }
    assert(lsv.take(ls@.len() as int) =~= lsv);
    match agg {
        Some(a) => Some((a, cores)),
        None => None,
    }
}


/// RAM and swap figures of /proc/meminfo, all in kB.
#[derive(Debug, Clone, Copy, PartialEq, Eq, Structural)]
pub struct MemInfo {
    pub total: u64,
    pub avail: u64,
    pub swap_total: u64,
    pub swap_free: u64,
}

/// The first word of `v`, parsed.
pub open spec fn kb_of(v: Seq<char>) -> Option<u64> {
    let w = words(v);
    if w.len() == 0 {
        None
    } else {
        parse_u64_spec(w[0])
    }
}

/// `line` after its first `n` characters.
pub open spec fn rest_after(line: Seq<char>, n: nat) -> Seq<char> {
    line.subrange(n as int, line.len() as int)
}

pub open spec fn or_zero(x: Option<u64>) -> u64 {
    match x {
        Some(v) => v,
        None => 0,
    }
}

/// MemTotal, MemAvailable, SwapTotal, SwapFree after the lines `ls`: a
/// later line of a key overrides an earlier one (an unparsable MemTotal or
/// MemAvailable value reads as missing, a swap value as 0).
pub open spec fn mem_scan(ls: Seq<Seq<char>>) -> (Option<u64>, Option<u64>, u64, u64)
    decreases ls.len(),
{
    if ls.len() == 0 {
        (None, None, 0, 0)
    } else {
        let (t, a, st, sf) = mem_scan(ls.drop_last());
        let l = ls.last();
        if has_prefix(l, "MemTotal:"@) {
            (kb_of(rest_after(l, "MemTotal:"@.len())), a, st, sf)
        } else if has_prefix(l, "MemAvailable:"@) {
            (t, kb_of(rest_after(l, "MemAvailable:"@.len())), st, sf)
        } else if has_prefix(l, "SwapTotal:"@) {
            (t, a, or_zero(kb_of(rest_after(l, "SwapTotal:"@.len()))), sf)
        } else if has_prefix(l, "SwapFree:"@) {
            (t, a, st, or_zero(kb_of(rest_after(l, "SwapFree:"@.len()))))
        } else {
            (t, a, st, sf)
        }
    }
}

/// /proc/meminfo: `None` unless both MemTotal and MemAvailable parse.
pub open spec fn spec_parse_meminfo(text: Seq<char>) -> Option<MemInfo> {
    let (t, a, st, sf) = mem_scan(lines(text));
    match (t, a) {
        (Some(total), Some(avail)) => Some(MemInfo { total, avail, swap_total: st, swap_free: sf }),
        _ => None,
    }
}

/// The first word of `s[a..b]`, parsed.
fn first_word_u64(s: &[char], a: usize, b: usize) -> (r: Option<u64>)
    requires
        a <= b <= s@.len(),
    ensures
        r == kb_of(s@.subrange(a as int, b as int)),
{
    let ws = split_words(s, a, b);
    if ws.len() == 0 {
        None
    } else {
        let (x, y) = ws[0];
        parse_u64_range(s, x, y)
    }
}

/// If `s[a..b]` begins with `key`, the first word after it, parsed.
fn keyed_value(s: &[char], a: usize, b: usize, key: &str) -> (r: Option<Option<u64>>)
    requires
        a <= b <= s@.len(),
    ensures
        ({
            let line = s@.subrange(a as int, b as int);
            &&& r is Some <==> has_prefix(line, key@)
            &&& r matches Some(v) ==> v == kb_of(rest_after(line, key@.len()))
        }),
{
    let ghost line = s@.subrange(a as int, b as int);
    let k = chars_of(key);
    let hit = range_starts_with(s, a, b, key);
    proof {
        if hit || has_prefix(line, key@) {
            assert(line.subrange(0, key@.len() as int) =~= s@.subrange(a as int, a + key@.len()));
        }
    }
    if hit {
        assert(rest_after(line, key@.len()) =~= s@.subrange(a + k@.len(), b as int));
        Some(first_word_u64(s, a + k.len(), b))
    } else {
        None
    }
}

/// Parses /proc/meminfo (see `spec_parse_meminfo`).
pub fn parse_meminfo(text: &str) -> (r: Option<MemInfo>)
    ensures
        r == spec_parse_meminfo(text@),
{
    let s = chars_of(text);
    let ls = split_lines(s.as_slice(), 0, s.len());
    let ghost lsv = lines(s@.subrange(0, s@.len() as int));
    assert(s@.subrange(0, s@.len() as int) =~= text@);
    let mut total: Option<u64> = None;
    let mut avail: Option<u64> = None;
    let mut swap_total: u64 = 0;
    let mut swap_free: u64 = 0;
    let mut i: usize = 0;
    while i < ls.len()
        invariant
            i <= ls@.len(),
            spans_are(s@, ls@, lsv),
            lsv == lines(text@),
            (total, avail, swap_total, swap_free) == mem_scan(lsv.take(i as int)),
        decreases ls@.len() - i,
    {
        let (a, b) = ls[i];
        assert(span_of(s@, ls@[i as int]) == lsv[i as int]);
        assert(lsv.take(i + 1).drop_last() =~= lsv.take(i as int));
        if let Some(v) = keyed_value(s.as_slice(), a, b, "MemTotal:") {
            total = v;
        } else if let Some(v) = keyed_value(s.as_slice(), a, b, "MemAvailable:") {
            avail = v;
        } else if let Some(v) = keyed_value(s.as_slice(), a, b, "SwapTotal:") {
            swap_total = match v {
                Some(x) => x,
                None => 0,
            };
        } else if let Some(v) = keyed_value(s.as_slice(), a, b, "SwapFree:") {
            swap_free = match v {
                Some(x) => x,
                None => 0,
            };
        }
        i = i + 1;
    }
    assert(lsv.take(ls@.len() as int) =~= lsv);
    match (total, avail) {
        (Some(total), Some(avail)) => Some(MemInfo { total, avail, swap_total, swap_free }),
        _ => None,
    }
}

/// The part of `name` after its last 'p' (all of it without a 'p').
pub open spec fn after_last_p(name: Seq<char>) -> Seq<char>
    decreases name.len(),
{
    if name.len() == 0 {
        seq![]
    } else if name.last() == 'p' {
        seq![]
    } else {
        after_last_p(name.drop_last()).push(name.last())
    }
}

/// A partition rather than a whole drive: `sda1`, `nvme0n1p2`, `mmcblk0p1`
/// are partitions; `sda`, `nvme0n1`, `mmcblk0` are drives. NVMe and MMC
/// names count as partitions when they hold a 'p' followed only by one or
/// more digits; other names when they end in a digit.
pub open spec fn spec_is_partition(name: Seq<char>) -> bool {
    if has_prefix(name, "nvme"@) || has_prefix(name, "mmcblk"@) {
        &&& name.contains('p')
        &&& after_last_p(name).len() > 0
        &&& all_digits(after_last_p(name))
    } else {
        name.len() > 0 && is_digit(name.last())
    }
}

fn is_partition_range(s: &[char], a: usize, b: usize) -> (r: bool)
    requires
        a <= b <= s@.len(),
    ensures
        r == spec_is_partition(s@.subrange(a as int, b as int)),
{
    let ghost name = s@.subrange(a as int, b as int);
    let nv = range_starts_with(s, a, b, "nvme");
    let mm = range_starts_with(s, a, b, "mmcblk");
    proof {
        assert(nv == has_prefix(name, "nvme"@)) by {
            if "nvme"@.len() <= name.len() {
                assert(name.subrange(0, "nvme"@.len() as int) =~= s@.subrange(a as int, a + "nvme"@.len()));
            }
        }
        assert(mm == has_prefix(name, "mmcblk"@)) by {
            if "mmcblk"@.len() <= name.len() {
                assert(name.subrange(0, "mmcblk"@.len() as int) =~= s@.subrange(a as int, a + "mmcblk"@.len()));
            }
        }
    }
    if nv || mm {
        // Scan from the front, remembering where the tail after the last 'p' starts.
        let mut seen_p = false;
        let mut tail = a;
        let mut i = a;
        while i < b
            invariant
                a <= tail <= i <= b <= s@.len(),
                seen_p == s@.subrange(a as int, i as int).contains('p'),
                after_last_p(s@.subrange(a as int, i as int)) == s@.subrange(tail as int, i as int),
            decreases b - i,
        {
            let ghost pre = s@.subrange(a as int, i as int);
            let ghost nxt = s@.subrange(a as int, i + 1);
            assert(nxt.drop_last() =~= pre);
            assert(nxt.last() == s@[i as int]);
            if s[i] == 'p' {
                seen_p = true;
                tail = i + 1;
                assert(nxt[i - a] == 'p');
            } else {
                assert(s@.subrange(tail as int, i + 1) =~= s@.subrange(tail as int, i as int).push(s@[i as int]));
                proof {
                    if nxt.contains('p') {
                        let k = choose|k: int| 0 <= k < nxt.len() && nxt[k] == 'p';
                        assert(pre[k] == 'p');
                    }
                }
            }
            proof {
                if pre.contains('p') {
                    let k = choose|k: int| 0 <= k < pre.len() && pre[k] == 'p';
                    assert(nxt[k] == 'p');
                }
            }
            i = i + 1;
        }
        assert(s@.subrange(a as int, i as int) == name);
        if !seen_p || tail == b {
            return false;
        }
        assert(spec_is_partition(name) == all_digits(s@.subrange(tail as int, b as int)));
        let mut j = tail;
        while j < b
            invariant
                tail <= j <= b <= s@.len(),
                spec_is_partition(name) == all_digits(s@.subrange(tail as int, b as int)),
                name == s@.subrange(a as int, b as int),
                forall|k: int| tail <= k < j ==> is_digit(#[trigger] s@[k]),
            decreases b - j,
        {
            let u = s[j] as u32;
            if !(48 <= u && u <= 57) {
                assert(s@.subrange(tail as int, b as int)[j - tail] == s@[j as int]);
                assert(!is_digit(s@[j as int]));
                assert(!all_digits(s@.subrange(tail as int, b as int)));
                return false;
            }
            j = j + 1;
        }
        assert(all_digits(s@.subrange(tail as int, b as int)));
        true
    } else {
        if a == b {
            return false;
        }
        let u = s[b - 1] as u32;
        48 <= u && u <= 57
    }
}

/// Whether a partition, by its device name (see `spec_is_partition`).
pub fn is_partition(name: &str) -> (r: bool)
    ensures
        r == spec_is_partition(name@),
{
    let s = chars_of(name);
    assert(s@.subrange(0, s@.len() as int) =~= name@);
    is_partition_range(s.as_slice(), 0, s.len())
}

/// Devices of /proc/diskstats that are not counted: partitions, and the
/// virtual or stacked devices (loop, ram, zram, device-mapper, md RAID),
/// whose I/O already shows on the drives beneath them.
pub open spec fn spec_skip_device(name: Seq<char>) -> bool {
    ||| spec_is_partition(name)
    ||| has_prefix(name, "loop"@)
    ||| has_prefix(name, "ram"@)
    ||| has_prefix(name, "zram"@)
    ||| has_prefix(name, "dm-"@)
    ||| has_prefix(name, "md"@)
}

/// The number in word `k` of `ws`, where there is one that parses.
pub open spec fn word_num(ws: Seq<Seq<char>>, k: int) -> Option<u64> {
    if k < ws.len() {
        parse_u64_spec(ws[k])
    } else {
        None
    }
}

/// Sectors read and written, summed modulo 2^64 over the counted devices
/// of the lines `ls`; `None` as soon as a line has fewer than three words,
/// or a counted device's sectors-read (word 5) or sectors-written (word 9)
/// field is missing or does not parse.
pub open spec fn disk_scan(ls: Seq<Seq<char>>) -> Option<(u64, u64)>
    decreases ls.len(),
{
    if ls.len() == 0 {
        Some((0, 0))
    } else {
        match disk_scan(ls.drop_last()) {
            None => None,
            Some((rd, wr)) => {
                let ws = words(ls.last());
                if ws.len() < 3 {
                    None
                } else if spec_skip_device(ws[2]) {
                    Some((rd, wr))
                } else {
                    match (word_num(ws, 5), word_num(ws, 9)) {
                        (Some(r), Some(w)) => Some((wrap_add(rd, r), wrap_add(wr, w))),
                        _ => None,
                    }
                }
            },
        }
    }
}

/// /proc/diskstats: total sectors read and written by the physical drives.
pub open spec fn spec_parse_disk_sectors(text: Seq<char>) -> Option<(u64, u64)> {
    disk_scan(lines(text))
}

fn skip_device_range(s: &[char], a: usize, b: usize) -> (r: bool)
    requires
        a <= b <= s@.len(),
    ensures
        r == spec_skip_device(s@.subrange(a as int, b as int)),
{
    let ghost name = s@.subrange(a as int, b as int);
    let p = is_partition_range(s, a, b);
    let l1 = prefix_in(s, a, b, "loop");
    let l2 = prefix_in(s, a, b, "ram");
    let l3 = prefix_in(s, a, b, "zram");
    let l4 = prefix_in(s, a, b, "dm-");
    let l5 = prefix_in(s, a, b, "md");
    p || l1 || l2 || l3 || l4 || l5
}

/// Does `s[a..b]` begin with `lit`, stated over the range itself.
fn prefix_in(s: &[char], a: usize, b: usize, lit: &str) -> (r: bool)
    requires
        a <= b <= s@.len(),
    ensures
        r == has_prefix(s@.subrange(a as int, b as int), lit@),
{
    let ghost name = s@.subrange(a as int, b as int);
    let r = range_starts_with(s, a, b, lit);
    proof {
        if lit@.len() <= name.len() {
            assert(name.subrange(0, lit@.len() as int) =~= s@.subrange(a as int, a + lit@.len()));
        }
    }
    r
}

/// Parses /proc/diskstats (see `spec_parse_disk_sectors`).
pub fn parse_disk_sectors(text: &str) -> (r: Option<(u64, u64)>)
    ensures
        r == spec_parse_disk_sectors(text@),
{
    let s = chars_of(text);
    let ls = split_lines(s.as_slice(), 0, s.len());
    let ghost lsv = lines(s@.subrange(0, s@.len() as int));
    assert(s@.subrange(0, s@.len() as int) =~= text@);
    let mut rd: u64 = 0;
    let mut wr: u64 = 0;
    let mut i: usize = 0;
    while i < ls.len()
        invariant
            i <= ls@.len(),
            spans_are(s@, ls@, lsv),
            lsv == lines(text@),
            disk_scan(lsv.take(i as int)) == Some((rd, wr)),
        decreases ls@.len() - i,
    {
        let (a, b) = ls[i];
        assert(span_of(s@, ls@[i as int]) == lsv[i as int]);
        assert(lsv.take(i + 1).drop_last() =~= lsv.take(i as int));
        let ws = split_words(s.as_slice(), a, b);
        let ghost wv = words(lsv[i as int]);
        if ws.len() < 3 {
            proof { lemma_disk_scan_none_after(lsv, i as int); }
            return None;
        }
        let (na, nb) = ws[2];
        assert(span_of(s@, ws@[2]) == wv[2]);
        if !skip_device_range(s.as_slice(), na, nb) {
            let sr = if ws.len() > 5 {
                let (x, y) = ws[5];
                assert(span_of(s@, ws@[5]) == wv[5]);
                parse_u64_range(s.as_slice(), x, y)
            } else {
                None
            };
            let sw = if ws.len() > 9 {
                let (x, y) = ws[9];
                assert(span_of(s@, ws@[9]) == wv[9]);
                parse_u64_range(s.as_slice(), x, y)
            } else {
                None
            };
            match (sr, sw) {
                (Some(r), Some(w)) => {
                    rd = wrapping_add(rd, r);
                    wr = wrapping_add(wr, w);
                },
                _ => {
                    proof { lemma_disk_scan_none_after(lsv, i as int); }
                    return None;
                },
            }
        }
        i = i + 1;
    }
    assert(lsv.take(ls@.len() as int) =~= lsv);
    Some((rd, wr))
}

proof fn lemma_disk_scan_none_after(ls: Seq<Seq<char>>, i: int)
    requires
        0 <= i < ls.len(),
        disk_scan(ls.take(i + 1)) is None,
    ensures
        disk_scan(ls) is None,
    decreases ls.len() - i,
{
    if i + 1 < ls.len() {
        assert(ls.take(i + 2).drop_last() =~= ls.take(i + 1));
        lemma_disk_scan_none_after(ls, i + 1);
    } else {
        assert(ls.take(i + 1) =~= ls);
    }
}

/// The interface of the first route line (after the header line) whose
/// destination is 00000000; `None` when there is none, or as soon as a line
/// has fewer than two words.
pub open spec fn route_scan(ls: Seq<Seq<char>>) -> Option<Seq<char>>
    decreases ls.len(),
{
    if ls.len() == 0 {
        None
    } else {
        let ws = words(ls[0]);
        if ws.len() < 2 {
            None
        } else if ws[1] == "00000000"@ {
            Some(ws[0])
        } else {
            route_scan(ls.drop_first())
        }
    }
}

/// /proc/net/route: the interface of the default route.
pub open spec fn spec_parse_default_iface(text: Seq<char>) -> Option<Seq<char>> {
    let ls = lines(text);
    if ls.len() == 0 {
        None
    } else {
        route_scan(ls.drop_first())
    }
}

/// Parses /proc/net/route (see `spec_parse_default_iface`).
pub fn parse_default_iface(text: &str) -> (r: Option<String>)
    ensures
        match r {
            Some(name) => spec_parse_default_iface(text@) == Some(name@),
            None => spec_parse_default_iface(text@) is None,
        },
{
    let s = chars_of(text);
    let ls = split_lines(s.as_slice(), 0, s.len());
    let ghost lsv = lines(s@.subrange(0, s@.len() as int));
    assert(s@.subrange(0, s@.len() as int) =~= text@);
    if ls.len() == 0 {
        return None;
    }
    let mut i: usize = 1;
    assert(lsv.drop_first() =~= lsv.subrange(1, lsv.len() as int));
    while i < ls.len()
        invariant
            1 <= i <= ls@.len(),
            spans_are(s@, ls@, lsv),
            lsv == lines(text@),
            spec_parse_default_iface(text@) == route_scan(lsv.subrange(i as int, lsv.len() as int)),
        decreases ls@.len() - i,
    {
        let ghost rest = lsv.subrange(i as int, lsv.len() as int);
        assert(rest[0] == lsv[i as int]);
        assert(rest.drop_first() =~= lsv.subrange(i + 1, lsv.len() as int));
        let (a, b) = ls[i];
        assert(span_of(s@, ls@[i as int]) == lsv[i as int]);
        let ws = split_words(s.as_slice(), a, b);
        let ghost wv = words(lsv[i as int]);
        if ws.len() < 2 {
            return None;
        }
        let (x, y) = ws[1];
        assert(span_of(s@, ws@[1]) == wv[1]);
        if range_eq(s.as_slice(), x, y, "00000000") {
            let (p, q) = ws[0];
            assert(span_of(s@, ws@[0]) == wv[0]);
            return Some(string_from_range(s.as_slice(), p, q));
        }
        i = i + 1;
    }
    assert(lsv.subrange(i as int, lsv.len() as int) =~= seq![]);
    None
}

/// `u64::from_str` of a one-number sysfs file, trimmed; `None` where the
/// file could not be read or does not hold a number.
pub open spec fn spec_counter(text: Option<Seq<char>>) -> Option<u64> {
    match text {
        Some(t) => parse_u64_spec(trim(t)),
        None => None,
    }
}

pub open spec fn opt_view(s: Option<String>) -> Option<Seq<char>> {
    match s {
        Some(t) => Some(t@),
        None => None,
    }
}

/// The number a one-number sysfs file holds (see `spec_counter`).
pub fn read_u64(text: &Option<String>) -> (r: Option<u64>)
    ensures
        r == spec_counter(opt_view(*text)),
{
    match text {
        Some(t) => parse_trimmed_u64(t.as_str()),
        None => None,
    }
}

/// The RX and TX byte counters of an interface, from the texts of its
/// `statistics/rx_bytes` and `statistics/tx_bytes`; `None` unless both
/// hold a number.
pub fn read_net_bytes(rx: &Option<String>, tx: &Option<String>) -> (r: Option<(u64, u64)>)
    ensures
        r == (match (spec_counter(opt_view(*rx)), spec_counter(opt_view(*tx))) {
            (Some(x), Some(y)) => Some((x, y)),
            _ => None,
        }),
{
    match (read_u64(rx), read_u64(tx)) {
        (Some(x), Some(y)) => Some((x, y)),
        _ => None,
    }
}

} // verus!
