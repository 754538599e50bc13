use terminaline::app::{push_capped, refresh_plan, traffic_totals, Bandwidth, HISTORY_LEN};
use terminaline::display::{
    battery_percent, counts_text, list_window, page_scroll, protection_level, signal_quality, sort_label,
    summarize_connections, summarize_services, Protection, SignalQuality,
};
use terminaline::memory_map::{address_map, kind_totals, total_region_bytes};
use terminaline::types::{NetConnection, NetInterface, ProcessRegion, RegionType, SecurityInfo, ServiceInfo, SortMode};

#[test]
fn list_window_keeps_cursor_visible() {
    assert_eq!(list_window(0, 10, 5), (0, 0));
    assert_eq!(list_window(4, 10, 5), (4, 0));
    assert_eq!(list_window(5, 10, 5), (5, 1));
    assert_eq!(list_window(50, 10, 5), (9, 5));
    assert_eq!(list_window(3, 0, 5), (0, 0));
    assert_eq!(list_window(2, 10, 0), (2, 3));
}

#[test]
fn page_scroll_stops_at_bottom() {
    assert_eq!(page_scroll(0, 100, 20), 0);
    assert_eq!(page_scroll(50, 100, 20), 50);
    assert_eq!(page_scroll(90, 100, 20), 80);
    assert_eq!(page_scroll(5, 10, 20), 0);
}

#[test]
fn sort_labels() {
    assert_eq!(sort_label(SortMode::SizeDsc), "Size ↓");
    assert_eq!(sort_label(SortMode::SizeAsc), "Size ↑");
    assert_eq!(sort_label(SortMode::NameAsc), "Name A→Z");
    assert_eq!(sort_label(SortMode::NameDsc), "Name Z→A");
}

#[test]
fn signal_ratings() {
    assert_eq!(signal_quality("-45 dBm"), SignalQuality::Excellent);
    assert_eq!(signal_quality("-50 dBm"), SignalQuality::Excellent);
    assert_eq!(signal_quality("-51 dBm"), SignalQuality::Good);
    assert_eq!(signal_quality("-60 dBm"), SignalQuality::Good);
    assert_eq!(signal_quality("-65 dBm"), SignalQuality::Fair);
    assert_eq!(signal_quality("-71 dBm"), SignalQuality::Weak);
    assert_eq!(signal_quality("-90 dBm dBm"), SignalQuality::Weak);
    assert_eq!(signal_quality(""), SignalQuality::Excellent);
    assert_eq!(signal_quality("weak"), SignalQuality::Excellent);
}

#[test]
fn battery_levels() {
    assert_eq!(battery_percent("85%"), 85);
    assert_eq!(battery_percent("100%%"), 100);
    assert_eq!(battery_percent("7"), 7);
    assert_eq!(battery_percent(""), 0);
    assert_eq!(battery_percent("70000%"), 0);
    assert_eq!(battery_percent("n/a"), 0);
}

fn security(sip: bool, gk: bool, fv: bool, fw: bool) -> SecurityInfo {
    SecurityInfo {
        sip_enabled: sip,
        gatekeeper_enabled: gk,
        filevault_enabled: fv,
        firewall_enabled: fw,
        firewall_stealth: false,
        firewall_block_all: false,
        sip_status: String::new(),
        gatekeeper_status: String::new(),
        filevault_status: String::new(),
        firewall_status: String::new(),
    }
}

#[test]
fn protection_ratings() {
    assert_eq!(protection_level(&security(true, true, true, true)), Protection::Excellent);
    assert_eq!(protection_level(&security(true, true, false, true)), Protection::Good);
    assert_eq!(protection_level(&security(true, false, true, true)), Protection::Warning);
    assert_eq!(protection_level(&security(false, true, true, true)), Protection::Warning);
}

fn svc(pid: i32, exit: i32) -> ServiceInfo {
    ServiceInfo { pid, label: format!("job{}", pid), last_exit: exit }
}

#[test]
fn service_counts() {
    let s = summarize_services(&vec![svc(10, 0), svc(-1, 0), svc(-1, 78), svc(0, 1), svc(20, 5)]);
    assert_eq!(s.total, 5);
    assert_eq!(s.running, 2);
    assert_eq!(s.stopped, 3);
    assert_eq!(s.failed, 2);
    let e = summarize_services(&Vec::new());
    assert_eq!((e.total, e.running, e.stopped, e.failed), (0, 0, 0, 0));
}

fn conn(process: &str, proto: &str, state: &str) -> NetConnection {
    NetConnection {
        pid: 1,
        process: process.to_string(),
        fd: "3u".to_string(),
        proto: proto.to_string(),
        local_addr: "*:1".to_string(),
        remote_addr: String::new(),
        state: state.to_string(),
    }
}

#[test]
fn connection_summary() {
    let cs = vec![
        conn("Safari", "TCP", "ESTABLISHED"),
        conn("mDNS", "UDP", ""),
        conn("Safari", "TCP", "ESTABLISHED"),
        conn("rapportd", "TCP", "LISTEN"),
        conn("Mail", "TCP", "ESTABLISHED"),
        conn("mDNS", "UDP", ""),
        conn("Safari", "TCP", "CLOSE_WAIT"),
        conn("Slack", "TCP", "ESTABLISHED"),
    ];
    let s = summarize_connections(&cs);
    assert_eq!(s.total, 8);
    assert_eq!(s.tcp, 6);
    assert_eq!(s.udp, 2);
    assert_eq!(s.established, 4);
    assert_eq!(s.listening, 1);
    assert_eq!(
        s.busiest,
        vec![("Safari".to_string(), 3), ("mDNS".to_string(), 2), ("rapportd".to_string(), 1)]
    );
    assert_eq!(counts_text(&s.busiest), "Safari (3), mDNS (2), rapportd (1)");
}

#[test]
fn connection_summary_small() {
    let s = summarize_connections(&vec![conn("a", "tcp", "LISTEN"), conn("b", "UDP", "LISTEN"), conn("b", "UDP", "")]);
    assert_eq!(s.tcp, 0);
    assert_eq!(s.listening, 2);
    assert_eq!(s.busiest, vec![("b".to_string(), 2), ("a".to_string(), 1)]);
    assert_eq!(counts_text(&s.busiest), "b (2), a (1)");
    let e = summarize_connections(&Vec::new());
    assert!(e.busiest.is_empty());
    assert_eq!(counts_text(&e.busiest), "");
}

fn region(start: usize, end: usize, t: RegionType) -> ProcessRegion {
    ProcessRegion { start, end, size: end - start, perms: "RW-".to_string(), region_type: t, name: String::new() }
}

#[test]
fn region_totals() {
    let rs = vec![
        region(0x1000, 0x3000, RegionType::Code),
        region(0x3000, 0x4000, RegionType::Heap),
        region(0x8000, 0x9000, RegionType::Heap),
    ];
    assert_eq!(total_region_bytes(&rs), Some(0x4000));
    assert_eq!(kind_totals(&rs, RegionType::Heap), Some((2, 0x2000)));
    assert_eq!(kind_totals(&rs, RegionType::Stack), Some((0, 0)));
    let big = vec![region(0, usize::MAX, RegionType::Heap), region(0, 2, RegionType::Heap)];
    assert_eq!(total_region_bytes(&big), None);
    assert_eq!(kind_totals(&big, RegionType::Heap), None);
    assert_eq!(kind_totals(&big, RegionType::Code), Some((0, 0)));
}

#[test]
fn address_map_cells() {
    let rs = vec![
        region(100, 140, RegionType::Code),
        region(150, 200, RegionType::Heap),
        region(120, 160, RegionType::Stack),
    ];
    let (g, cells) = address_map(&rs, 5, 2, 1);
    assert_eq!(g.low, 100);
    assert_eq!(g.high, 200);
    assert_eq!(g.span, 100);
    assert_eq!(g.cells, 10);
    assert_eq!(g.per_cell, 10);
    assert_eq!(cells.len(), 10);
    assert_eq!(cells[0], Some((RegionType::Code, false)));
    assert_eq!(cells[1], Some((RegionType::Code, false)));
    assert_eq!(cells[2], Some((RegionType::Stack, false)));
    assert_eq!(cells[5], Some((RegionType::Stack, false)));
    assert_eq!(cells[6], Some((RegionType::Heap, true)));
    assert_eq!(cells[9], Some((RegionType::Heap, true)));
    let (g, cells) = address_map(&Vec::new(), 3, 1, 0);
    assert_eq!((g.low, g.high, g.span, g.per_cell), (0, 1, 1, 1));
    assert_eq!(cells, vec![None, None, None]);
    let (_, cells) = address_map(&vec![region(0, 4, RegionType::Dylib), region(10, 12, RegionType::Dylib)], 12, 1, 9);
    assert_eq!(cells[3], Some((RegionType::Dylib, false)));
    assert_eq!(cells[4], None);
    assert_eq!(cells[11], Some((RegionType::Dylib, false)));
}

#[test]
fn refresh_schedule() {
    let p = refresh_plan(0);
    assert!(p.connections && p.disks && p.services && p.hardware);
    let p = refresh_plan(15);
    assert!(p.connections && p.disks && !p.services && !p.hardware);
    let p = refresh_plan(20);
    assert!(!p.connections && p.disks && p.services && !p.hardware);
    let p = refresh_plan(7);
    assert!(!p.connections && !p.disks && !p.services && !p.hardware);
    assert!(refresh_plan(60).hardware);
}

#[test]
fn history_is_capped() {
    let mut h: Vec<u64> = Vec::new();
    for i in 0..100u64 {
        push_capped(&mut h, i);
        assert!(h.len() <= HISTORY_LEN);
        assert_eq!(*h.last().unwrap(), i);
    }
    assert_eq!(h.len(), 60);
    assert_eq!(h[0], 40);
    let mut f: Vec<f64> = vec![1.5];
    push_capped(&mut f, 2.5);
    assert_eq!(f, vec![1.5, 2.5]);
}

fn iface(bytes_in: u64, bytes_out: u64) -> NetInterface {
    NetInterface {
        name: "en0".to_string(),
        mtu: 1500,
        ip: String::new(),
        pkts_in: 0,
        bytes_in,
        errs_in: 0,
        pkts_out: 0,
        bytes_out,
        errs_out: 0,
        status: "active".to_string(),
    }
}

#[test]
fn traffic_sums() {
    assert_eq!(traffic_totals(&vec![iface(10, 20), iface(5, 7)]), Some((15, 27)));
    assert_eq!(traffic_totals(&Vec::new()), Some((0, 0)));
    assert_eq!(traffic_totals(&vec![iface(u64::MAX, 1), iface(1, 1)]), None);
}

#[test]
fn bandwidth_deltas() {
    let mut b = Bandwidth::new();
    b.record(0, 100);
    assert!(b.in_history.is_empty());
    assert_eq!(b.prev_out, 100);
    b.record(1000, 500);
    // Nothing had been received yet at the last refresh.
    assert!(b.in_history.is_empty());
    b.record(1500, 400);
    assert_eq!(b.in_history, vec![500]);
    assert_eq!(b.out_history, vec![0]);
    b.record(1400, 900);
    assert_eq!(b.in_history, vec![500, 0]);
    assert_eq!(b.out_history, vec![0, 500]);
    assert_eq!((b.prev_in, b.prev_out), (1400, 900));
}

#[test]
fn region_kinds_add_up() {
    let rs = vec![
        region(0x1000, 0x3000, RegionType::Code),
        region(0x3000, 0x4000, RegionType::Heap),
        region(0x5000, 0x5800, RegionType::Stack),
        region(0x8000, 0x9000, RegionType::MappedFile),
        region(0x9000, 0x9100, RegionType::Anonymous),
        region(0xa000, 0xb000, RegionType::Dylib),
    ];
    let kinds = [
        RegionType::Stack,
        RegionType::Heap,
        RegionType::Code,
        RegionType::Dylib,
        RegionType::Anonymous,
        RegionType::MappedFile,
    ];
    let (mut n, mut bytes) = (0, 0);
    for t in kinds {
        let (c, s) = kind_totals(&rs, t).unwrap();
        n += c;
        bytes += s;
    }
    assert_eq!(n, rs.len());
    assert_eq!(Some(bytes), total_region_bytes(&rs));
}
