use netscan::address::{IpAddress, NetworkRange};
use netscan::cli::{load_config, Cli, DEFAULT_TIMEOUT_MS};
use netscan::discovery::{DiscoverError, Profiling, ScanConfig, Sweep};
use netscan::host::HostInfo;
use netscan::ports::{answered_ports, contains_port, default_ports, distinct_ports, open_ports};

fn config() -> ScanConfig {
    ScanConfig { timeout_ms: 1000, ports: default_ports() }
}

fn every_port() -> Vec<u16> {
    (0..=u16::MAX).collect()
}

fn v4(a: u8, b: u8, c: u8, d: u8) -> IpAddress {
    IpAddress::V4(u32::from_be_bytes([a, b, c, d]))
}

fn start(text: &str) -> Sweep {
    match Sweep::new(text, config()) {
        Ok(s) => s,
        Err(e) => panic!("{:?} refused: {:?}", text, e),
    }
}

fn all_distinct(v: &[IpAddress]) -> bool {
    for i in 0..v.len() {
        for j in (i + 1)..v.len() {
            if v[i] == v[j] {
                return false;
            }
        }
    }
    true
}

#[test]
fn slash30_has_four_addresses_including_network_and_broadcast() {
    let s = start("10.0.0.0/30");
    assert_eq!(
        s.candidates,
        vec![v4(10, 0, 0, 0), v4(10, 0, 0, 1), v4(10, 0, 0, 2), v4(10, 0, 0, 3)]
    );
    assert_eq!(s.reachable, vec![false; 4]);
}

#[test]
fn v4_counts_follow_prefix_length() {
    for (prefix, count) in [(32u32, 1usize), (31, 2), (28, 16), (24, 256), (20, 4096), (16, 65536)] {
        let s = start(&format!("192.168.0.0/{}", prefix));
        assert_eq!(s.candidates.len(), count);
        assert!(all_distinct(&s.candidates[..count.min(4096)]));
        assert_eq!(s.candidates[0], v4(192, 168, 0, 0));
    }
}

#[test]
fn host_bits_in_base_address_start_at_network_address() {
    let s = start("10.1.2.77/29");
    assert_eq!(s.candidates.len(), 8);
    assert_eq!(s.candidates[0], v4(10, 1, 2, 72));
    assert_eq!(s.candidates[7], v4(10, 1, 2, 79));
}

#[test]
fn address_without_prefix_is_a_single_host() {
    let s = start("172.16.5.4");
    assert_eq!(s.candidates, vec![v4(172, 16, 5, 4)]);
}

#[test]
fn top_of_v4_space_does_not_wrap() {
    let s = start("255.255.255.252/30");
    assert_eq!(s.candidates.len(), 4);
    assert_eq!(s.candidates[3], IpAddress::V4(u32::MAX));
}

#[test]
fn v6_range_is_enumerated_the_same_way() {
    let s = start("fe80::1/126");
    let base: u128 = 0xfe80 << 112;
    assert_eq!(
        s.candidates,
        vec![
            IpAddress::V6(base),
            IpAddress::V6(base + 1),
            IpAddress::V6(base + 2),
            IpAddress::V6(base + 3)
        ]
    );
}

#[test]
fn invalid_ranges_are_refused_before_scanning() {
    for text in ["", "not-a-network", "10.0.0.0/33", "10.0.0/24", "10.0.0.0/", "::/129", "300.1.1.1/8"] {
        assert!(matches!(Sweep::new(text, config()), Err(DiscoverError::InvalidRange)), "{}", text);
    }
}

#[test]
fn range_larger_than_memory_is_refused() {
    assert!(matches!(Sweep::new("::/0", config()), Err(DiscoverError::RangeTooLarge)));
}

#[test]
fn unreachable_addresses_are_never_reported() {
    let mut s = start("10.0.0.0/30");
    for i in 0..4 {
        s.record_liveness(i, false);
    }
    assert!(s.live_hosts().is_empty());
    let p = s.finish();
    assert!(p.live.is_empty());
    let report = p.report().expect("nothing left to profile");
    assert!(report.is_empty());
}

#[test]
fn live_hosts_keep_candidate_order_whatever_the_completion_order() {
    let mut s = start("10.0.0.0/29");
    s.record_liveness(6, true);
    s.record_liveness(1, true);
    s.record_liveness(3, true);
    s.record_liveness(3, false);
    assert_eq!(s.live_hosts(), vec![v4(10, 0, 0, 1), v4(10, 0, 0, 6)]);
}

#[test]
fn open_ports_are_sorted_whatever_the_answer_order() {
    for responded in [vec![22u16, 80, 443], vec![443, 80, 22], vec![80, 443, 22, 80]] {
        assert_eq!(open_ports(&responded), vec![22, 80, 443]);
    }
    assert_eq!(open_ports(&vec![]), Vec::<u16>::new());
    assert_eq!(open_ports(&vec![65535, 0, 65535]), vec![0, 65535]);
}

#[test]
fn host_record_sorts_answering_ports() {
    let h = HostInfo::new(v4(10, 0, 0, 9), Some("printer.lan".to_string()), Some(1500), &default_ports(), &vec![8443, 22, 80]);
    assert_eq!(h.address, v4(10, 0, 0, 9));
    assert_eq!(h.hostname.as_deref(), Some("printer.lan"));
    assert_eq!(h.latency_us, Some(1500));
    assert_eq!(h.open_ports, vec![22, 80, 8443]);
    assert_eq!(h.hostname_label(), "printer.lan");
}

#[test]
fn failed_lookup_degrades_only_the_hostname() {
    let mut s = start("10.0.0.4/32");
    s.record_liveness(0, true);
    let mut p = s.finish();
    p.record_profile(0, None, Some(2300), &vec![443, 22]);
    let report = p.report().expect("every host profiled");
    assert_eq!(report.len(), 1);
    assert_eq!(report[0].hostname, None);
    assert_eq!(report[0].hostname_label(), "Unknown");
    assert_eq!(report[0].latency_us, Some(2300));
    assert_eq!(report[0].open_ports, vec![22, 443]);
}

#[test]
fn report_waits_for_every_host() {
    let mut s = start("10.0.0.0/30");
    s.record_liveness(0, true);
    s.record_liveness(2, true);
    let mut p = s.finish();
    assert!(!p.is_complete());
    p.record_profile(1, None, None, &vec![]);
    assert!(!p.is_complete());
    assert!(p.report().is_none());
}

fn profiled(order: &[usize]) -> Vec<HostInfo> {
    let mut s = start("10.0.0.0/30");
    for &i in order {
        s.record_liveness(i, i == 1 || i == 2);
    }
    let mut p: Profiling = s.finish();
    for &i in order.iter().rev() {
        if i < p.live.len() {
            let name = if i == 0 { Some("alpha".to_string()) } else { None };
            let responded = if i == 0 { vec![443, 22] } else { vec![80] };
            p.record_profile(i, name, Some(700), &responded);
        }
    }
    p.report().expect("every host profiled")
}

#[test]
fn same_environment_gives_same_report() {
    let a = profiled(&[0, 1, 2, 3]);
    let b = profiled(&[3, 1, 0, 2]);
    assert_eq!(a.len(), 2);
    assert_eq!(a.len(), b.len());
    for (x, y) in a.iter().zip(b.iter()) {
        assert_eq!(x.address, y.address);
        assert_eq!(x.hostname, y.hostname);
        assert_eq!(x.latency_us, y.latency_us);
        assert_eq!(x.open_ports, y.open_ports);
    }
    assert_eq!(a[0].open_ports, vec![22, 443]);
}

#[test]
fn two_of_four_hosts_live_end_to_end() {
    let mut s = start("10.0.0.0/30");
    let candidates = s.candidates.clone();
    for (i, a) in candidates.iter().enumerate() {
        let up = *a == v4(10, 0, 0, 1) || *a == v4(10, 0, 0, 2);
        s.record_liveness(i, up);
    }
    let mut p = s.finish();
    assert_eq!(p.live, vec![v4(10, 0, 0, 1), v4(10, 0, 0, 2)]);
    let live = p.live.clone();
    let ports = p.config.ports.clone();
    for (i, a) in live.iter().enumerate() {
        let responded: Vec<u16> =
            ports.iter().copied().filter(|&port| *a == v4(10, 0, 0, 1) && port == 80).collect();
        p.record_profile(i, None, None, &responded);
    }
    let report = p.report().expect("every host profiled");
    assert_eq!(report.len(), 2);
    assert_eq!(report[0].address, v4(10, 0, 0, 1));
    assert_eq!(report[0].open_ports, vec![80]);
    assert_eq!(report[1].address, v4(10, 0, 0, 2));
    assert_eq!(report[1].open_ports, Vec::<u16>::new());
}

#[test]
fn default_ports_are_the_well_known_list() {
    assert_eq!(
        default_ports(),
        vec![21, 22, 23, 25, 53, 80, 110, 143, 443, 445, 3306, 3389, 5432, 5900, 8080, 8443]
    );
}

#[test]
fn get_ports_prefers_configured_ports() {
    let c = Cli { network: "10.0.0.0/24".to_string(), timeout: 500, ports: Some(vec![8080, 22]) };
    assert_eq!(c.get_ports(), vec![8080, 22]);
    let d = Cli { network: "10.0.0.0/24".to_string(), timeout: 500, ports: None };
    assert_eq!(d.get_ports(), default_ports());
    let sc = c.scan_config();
    assert_eq!(sc.timeout_ms, 500);
    assert_eq!(sc.ports, vec![8080, 22]);
}

#[test]
fn load_config_defaults_the_timeout() {
    let c = load_config("192.168.1.0/24".to_string(), None, None);
    assert_eq!(c.network, "192.168.1.0/24");
    assert_eq!(c.timeout, DEFAULT_TIMEOUT_MS);
    assert_eq!(c.timeout, 1000);
    assert_eq!(c.ports, None);
    let d = load_config("10.0.0.0/8".to_string(), Some(250), Some(vec![22]));
    assert_eq!(d.timeout, 250);
    assert_eq!(d.ports, Some(vec![22]));
}

#[test]
fn ports_label_joins_ports_or_says_none() {
    let h = HostInfo::new(v4(10, 0, 0, 1), None, None, &every_port(), &vec![443, 22, 80]);
    assert_eq!(h.ports_label(), "22, 80, 443");
    let none = HostInfo::new(v4(10, 0, 0, 1), None, None, &every_port(), &vec![]);
    assert_eq!(none.ports_label(), "None");
    let edges = HostInfo::new(v4(10, 0, 0, 1), None, None, &every_port(), &vec![65535, 0, 9, 10, 100]);
    assert_eq!(edges.ports_label(), "0, 9, 10, 100, 65535");
    let one = HostInfo::new(v4(10, 0, 0, 1), None, None, &every_port(), &vec![8080]);
    assert_eq!(one.ports_label(), "8080");
}

#[test]
fn unprofiled_host_has_degraded_fields() {
    let h = HostInfo::unprofiled(v4(10, 0, 0, 3));
    assert_eq!(h.address, v4(10, 0, 0, 3));
    assert_eq!(h.hostname_label(), "Unknown");
    assert_eq!(h.latency_us, None);
    assert_eq!(h.ports_label(), "None");
}

#[test]
fn parsed_range_starts_a_sweep() {
    let n = NetworkRange { address: v4(10, 0, 0, 1), prefix: 30 };
    assert_eq!(n.address_count(), Some(4));
    assert_eq!(n.enumerate_addresses(), vec![v4(10, 0, 0, 0), v4(10, 0, 0, 1), v4(10, 0, 0, 2), v4(10, 0, 0, 3)]);
    let s = Sweep::for_range(n, config()).expect("small range");
    assert_eq!(s.candidates.len(), 4);
    assert_eq!(s.config.timeout_ms, 1000);
    let all = NetworkRange { address: IpAddress::V6(1), prefix: 0 };
    assert_eq!(all.address_count(), None);
    assert!(matches!(Sweep::for_range(all, config()), Err(DiscoverError::RangeTooLarge)));
    let whole_v4 = NetworkRange { address: IpAddress::V4(7), prefix: 0 };
    assert_eq!(whole_v4.address_count(), Some(1usize << 32));
}

#[test]
fn ports_outside_the_probed_set_are_not_counted() {
    assert_eq!(answered_ports(&vec![22, 80, 443], &vec![8080, 443, 22, 9999]), vec![22, 443]);
    assert_eq!(answered_ports(&vec![], &vec![22]), Vec::<u16>::new());
    let h = HostInfo::new(v4(10, 0, 0, 2), None, None, &vec![80], &vec![22, 80, 80]);
    assert_eq!(h.open_ports, vec![80]);
    let mut s = start("10.0.0.2/32");
    s.record_liveness(0, true);
    let mut p = s.finish();
    p.record_profile(0, None, None, &vec![1, 22, 65000]);
    let report = p.report().expect("every host profiled");
    assert_eq!(report[0].open_ports, vec![22]);
}

#[test]
fn configured_ports_are_kept_once_in_first_order() {
    assert_eq!(distinct_ports(&vec![80, 22, 80, 443, 22]), vec![80, 22, 443]);
    assert_eq!(distinct_ports(&vec![]), Vec::<u16>::new());
    let c = Cli { network: "10.0.0.0/24".to_string(), timeout: 500, ports: Some(vec![22, 22, 8080, 22]) };
    assert_eq!(c.get_ports(), vec![22, 8080]);
    assert_eq!(c.scan_config().ports, vec![22, 8080]);
    assert!(contains_port(&vec![1, 2, 3], 3));
    assert!(!contains_port(&vec![1, 2, 3], 4));
}
