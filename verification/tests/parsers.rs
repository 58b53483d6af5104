use vitals::metrics::power::select_batteries;
use vitals::metrics::sensors::label_input_name;
use vitals::text::{push_dec, replace_str, sort_strings, str_lex_le};
use vitals::metrics::procfs::{
    is_partition, parse_cpu_times, parse_default_iface, parse_disk_sectors, parse_meminfo,
    read_net_bytes, read_u64, CpuTimes,
};

const STAT: &str = "cpu  100 20 30 400 50 6 7 8 9 10\n\
cpu0 50 10 15 200 25 3 3 4 0 0\n\
cpu1 50 10 15 200 25 3 4 4 9 10\n\
intr 12345 0 0\n\
ctxt 999\n\
cpu_bogus 1 2\n";

#[test]
fn cpu_times_aggregate_and_cores() {
    let (agg, cores) = parse_cpu_times(STAT).unwrap();
    // First eight fields: 100+20+30+400+50+6+7+8, idle = 400 + 50.
    assert_eq!(agg, CpuTimes { total: 621, idle: 450 });
    assert_eq!(cores.len(), 2);
    assert_eq!(cores[0], CpuTimes { total: 310, idle: 225 });
    assert_eq!(cores[1], CpuTimes { total: 311, idle: 225 });
}

#[test]
fn cpu_times_without_aggregate_is_none() {
    assert_eq!(parse_cpu_times("cpu0 1 2 3 4 5\n"), None);
    assert_eq!(parse_cpu_times(""), None);
}

#[test]
fn cpu_times_skips_short_and_unparsable_fields() {
    // Unparsable words are skipped before counting; fewer than five numbers drop the line.
    let (agg, cores) = parse_cpu_times("cpu 1 x 2 3 4 5\ncpu0 1 2 3 4\n").unwrap();
    assert_eq!(agg, CpuTimes { total: 15, idle: 9 });
    assert!(cores.is_empty());
}

#[test]
fn cpu_times_last_aggregate_wins_and_crlf() {
    let (agg, _) = parse_cpu_times("cpu 1 1 1 1 1\r\ncpu 2 2 2 2 2\r\n").unwrap();
    assert_eq!(agg, CpuTimes { total: 10, idle: 4 });
}

#[test]
fn cpu_times_sum_wraps() {
    let text = format!("cpu {} 2 0 0 0\n", u64::MAX);
    let (agg, _) = parse_cpu_times(&text).unwrap();
    assert_eq!(agg.total, 1);
}

const MEMINFO: &str = "MemTotal:       16000000 kB\n\
MemFree:         1000000 kB\n\
MemAvailable:    6000000 kB\n\
SwapTotal:       2000000 kB\n\
SwapFree:        1500000 kB\n";

#[test]
fn meminfo_fields() {
    let m = parse_meminfo(MEMINFO).unwrap();
    assert_eq!(m.total, 16000000);
    assert_eq!(m.avail, 6000000);
    assert_eq!(m.swap_total, 2000000);
    assert_eq!(m.swap_free, 1500000);
}

#[test]
fn meminfo_needs_total_and_available() {
    assert_eq!(parse_meminfo("MemTotal: 5 kB\n"), None);
    assert_eq!(parse_meminfo("MemAvailable: 5 kB\n"), None);
    // Swap lines that do not parse read as 0.
    let m = parse_meminfo("MemTotal: 10 kB\nMemAvailable: 4 kB\nSwapTotal: x\n").unwrap();
    assert_eq!(m.swap_total, 0);
    assert_eq!(m.swap_free, 0);
}

#[test]
fn partitions() {
    assert!(is_partition("sda1"));
    assert!(!is_partition("sda"));
    assert!(is_partition("nvme0n1p2"));
    assert!(!is_partition("nvme0n1"));
    assert!(is_partition("mmcblk0p1"));
    assert!(!is_partition("mmcblk0"));
    assert!(!is_partition("nvme0n1p"));
    assert!(!is_partition(""));
    assert!(is_partition("vdb2"));
}

const DISKSTATS: &str = "   8       0 sda 100 0 2000 50 300 0 4000 60 0 0 0\n\
   8       1 sda1 90 0 1800 40 290 0 3900 50 0 0 0\n\
 259       0 nvme0n1 10 0 100 1 20 0 200 2 0 0 0\n\
 259       1 nvme0n1p1 10 0 100 1 20 0 200 2 0 0 0\n\
   7       0 loop0 5 0 50 0 0 0 0 0 0 0 0\n\
 253       0 dm-0 5 0 50 0 5 0 60 0 0 0 0\n\
   1       0 ram0 0 0 0 0 0 0 0 0 0 0 0\n\
   9       0 md0 1 0 10 0 1 0 10 0 0 0 0\n";

#[test]
fn disk_sectors_count_physical_drives_only() {
    assert_eq!(parse_disk_sectors(DISKSTATS), Some((2100, 4200)));
}

#[test]
fn disk_sectors_errors() {
    // A line with fewer than three words ends the parse.
    assert_eq!(parse_disk_sectors("8 0\n"), None);
    // A counted device with a missing sectors-written field.
    assert_eq!(parse_disk_sectors("8 0 sda 1 2 3 4 5\n"), None);
    // A skipped device may be short.
    assert_eq!(parse_disk_sectors("8 1 sda1\n"), Some((0, 0)));
    assert_eq!(parse_disk_sectors(""), Some((0, 0)));
}

const ROUTE: &str = "Iface\tDestination\tGateway \tFlags\n\
wlp2s0\t0010A8C0\t00000000\t0001\n\
wlp2s0\t00000000\t0100A8C0\t0003\n\
eth0\t00000000\t0100A8C0\t0003\n";

#[test]
fn default_iface_is_first_default_route() {
    assert_eq!(parse_default_iface(ROUTE), Some("wlp2s0".to_string()));
}

#[test]
fn default_iface_none() {
    assert_eq!(parse_default_iface("Iface\tDestination\n"), None);
    assert_eq!(parse_default_iface(""), None);
    // A line with fewer than two words ends the search.
    assert_eq!(parse_default_iface("h\nlo\neth0 00000000\n"), None);
}

#[test]
fn counters() {
    assert_eq!(read_u64(&Some(" 42\n".to_string())), Some(42));
    assert_eq!(read_u64(&Some("+7".to_string())), Some(7));
    assert_eq!(read_u64(&Some("-7".to_string())), None);
    assert_eq!(read_u64(&Some("18446744073709551616".to_string())), None);
    assert_eq!(read_u64(&Some("18446744073709551615".to_string())), Some(u64::MAX));
    assert_eq!(read_u64(&None), None);
    assert_eq!(
        read_net_bytes(&Some("100\n".to_string()), &Some("200\n".to_string())),
        Some((100, 200))
    );
    assert_eq!(read_net_bytes(&Some("100\n".to_string()), &None), None);
}

#[test]
fn sorting_and_selection() {
    assert!(str_lex_le("BAT0", "BAT1"));
    assert!(str_lex_le("BAT", "BAT0"));
    assert!(!str_lex_le("BAT1", "BAT0"));
    assert!(str_lex_le("", ""));
    let v: Vec<String> = vec!["b".into(), "a".into(), "ab".into(), "a".into()];
    assert_eq!(sort_strings(&v), vec!["a", "a", "ab", "b"]);
    let entries = vec![
        ("/ps/BAT1".to_string(), Some("Battery\n".to_string())),
        ("/ps/AC".to_string(), Some("Mains\n".to_string())),
        ("/ps/BAT0".to_string(), Some("Battery\n".to_string())),
        ("/ps/hid-1".to_string(), None),
    ];
    assert_eq!(select_batteries(&entries), vec!["/ps/BAT0", "/ps/BAT1"]);
}

#[test]
fn label_inputs() {
    assert_eq!(label_input_name("temp1_label"), Some("temp1_input".to_string()));
    assert_eq!(label_input_name("temp1_input"), None);
    assert_eq!(label_input_name("_label"), Some("_input".to_string()));
    assert_eq!(label_input_name("x_label_label"), Some("x_input_input".to_string()));
    assert_eq!(replace_str("aaa", "aa", "b"), "ba");
    assert_eq!(replace_str("", "a", "b"), "");
}


#[test]
fn rendered_numbers_parse_back() {
    for n in [0u64, 7, 10, 99, 1234567890, u64::MAX] {
        let mut s = String::new();
        push_dec(&mut s, n);
        assert_eq!(s, n.to_string());
        assert_eq!(read_u64(&Some(s)), Some(n));
    }
}
