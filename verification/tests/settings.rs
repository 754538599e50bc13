use terminaline::collectors::cpu::collect_cpu_details;
use terminaline::collectors::disk::parse_diskutil;
use terminaline::collectors::security::collect_security_info;
use terminaline::collectors::thermal::collect_thermal_info;
use terminaline::collectors::wifi::{apply_ssid_fallback, collect_wifi_info, needs_ssid_fallback, wifi_interface};

const SYSCTL_CPU: &str = "machdep.cpu.brand_string: Apple M1 Pro
machdep.cpu.core_count: 10
machdep.cpu.thread_count: 10
machdep.cpu.cores_per_package: 10
hw.cachelinesize: 128
hw.l1icachesize: 131072
hw.l1dcachesize: 65536
hw.l2cachesize: 4194304
hw.nperflevels: 2
hw.perflevel0.physicalcpu: 8
hw.perflevel1.physicalcpu: 2
hw.perflevel0.l1icachesize: 196608
hw.perflevel0.l1dcachesize: 131072
hw.perflevel0.l2cachesize: 12582912
hw.perflevel1.l1icachesize: 131072
hw.perflevel1.l1dcachesize: 65536
hw.perflevel1.l2cachesize: 4194304
hw.pagesize: 16384
hw.memsize: 17179869184
";

const FEATURES: &str = "hw.optional.arm.FEAT_AES: 1
hw.optional.arm.FEAT_SHA3: 0
hw.optional.floatingpoint: 1
hw.optional.neon: 1
garbage
";

#[test]
fn cpu_details() {
    let i = collect_cpu_details(SYSCTL_CPU, "arm64", FEATURES);
    assert_eq!(i.brand, "Apple M1 Pro");
    assert_eq!(i.arch, "arm64");
    assert_eq!(i.core_count, 10);
    assert_eq!(i.thread_count, 10);
    assert_eq!(i.cores_per_package, 10);
    assert_eq!(i.cache_line_size, 128);
    assert_eq!(i.l1i_cache, 131072);
    assert_eq!(i.l1d_cache, 65536);
    assert_eq!(i.l2_cache, 4194304);
    assert_eq!(i.l3_cache, 0);
    assert_eq!(i.num_perf_levels, 2);
    assert_eq!(i.perf_cores, 8);
    assert_eq!(i.efficiency_cores, 2);
    assert_eq!(i.perf_l1i, 196608);
    assert_eq!(i.perf_l1d, 131072);
    assert_eq!(i.perf_l2, 12582912);
    assert_eq!(i.eff_l1i, 131072);
    assert_eq!(i.eff_l1d, 65536);
    assert_eq!(i.eff_l2, 4194304);
    assert_eq!(i.page_size, 16384);
    assert_eq!(i.phys_mem, 17179869184);
    assert_eq!(i.features, vec!["FEAT_AES".to_string(), "floatingpoint".to_string(), "neon".to_string()]);
}

#[test]
fn cpu_unknown_brand() {
    let i = collect_cpu_details("hw.memsize: lots\n", "x86_64", "");
    assert_eq!(i.brand, "Unknown");
    assert_eq!(i.phys_mem, 0);
    assert!(i.features.is_empty());
}

const DISKUTIL: &str = "   Device Identifier:         disk0
   Device Node:               /dev/disk0
   Whole:                     Yes
   Device / Media Name:       APPLE SSD AP1024R
   Content (IOContent):       GUID_partition_scheme
   Protocol:                  Apple Fabric
   SMART Status:              Verified
   Disk Size:                 1.0 TB (1000555581440 Bytes) (exactly 1954210120 512-Byte-Units)
   Device Block Size:         4096 Bytes
";

#[test]
fn diskutil_fields() {
    let d = parse_diskutil(DISKUTIL);
    assert_eq!(d.device_name, "disk0");
    assert_eq!(d.media_name, "APPLE SSD AP1024R");
    assert_eq!(d.content, "GUID_partition_scheme");
    assert_eq!(d.protocol, "Apple Fabric");
    assert_eq!(d.smart_status, "Verified");
    assert_eq!(d.disk_size, "1.0 TB (1000555581440 Bytes) (exactly 1954210120 512-Byte-Units)");
    assert_eq!(d.block_size, "4096 Bytes");
    let e = parse_diskutil("");
    assert_eq!(e.device_name, "");
}

#[test]
fn security_all_on() {
    let s = collect_security_info(
        "System Integrity Protection status: enabled.\n",
        "assessments enabled\n",
        "FileVault is On.\n",
        "1\n",
        "1\n",
        "0\n",
    );
    assert!(s.sip_enabled);
    assert_eq!(s.sip_status, "System Integrity Protection status: enabled.");
    assert!(s.gatekeeper_enabled);
    assert_eq!(s.gatekeeper_status, "assessments enabled");
    assert!(s.filevault_enabled);
    assert_eq!(s.filevault_status, "FileVault is On.");
    assert!(s.firewall_enabled);
    assert_eq!(s.firewall_status, "On (specific services)");
    assert!(s.firewall_stealth);
    assert!(s.firewall_block_all);
}

#[test]
fn security_firewall_states() {
    let s = collect_security_info("disabled", "assessments disabled", "FileVault is Off.", "0", "0", "1");
    assert!(!s.sip_enabled);
    assert!(!s.gatekeeper_enabled);
    assert!(!s.filevault_enabled);
    assert!(!s.firewall_enabled);
    assert_eq!(s.firewall_status, "Off");
    assert!(!s.firewall_stealth);
    assert!(!s.firewall_block_all);
    let s = collect_security_info("", "", "", "2", "", "");
    assert_eq!(s.firewall_status, "On (essential services only)");
    let s = collect_security_info("", "", "", "7", "", "");
    assert!(s.firewall_enabled);
    assert_eq!(s.firewall_status, "Unknown (7)");
    let s = collect_security_info("", "", "", "-3", "", "");
    assert!(!s.firewall_enabled);
    assert_eq!(s.firewall_status, "Unknown (-3)");
    let s = collect_security_info("", "", "", "The domain/default pair does not exist", "", "");
    assert_eq!(s.firewall_status, "Off");
}

const SYSCTL_ALL: &str = "kern.ostype: Darwin
kern.memorystatus_vm_pressure_level: 2
vm.swapusage: total = 0.00M
";

const LEVELS: &str = "machdep.xcpm.cpu_thermal_level: 12
machdep.xcpm.gpu_thermal_level: 3
machdep.xcpm.io_thermal_level: 0
";

const BAT: &str = "    {
      \"Temperature\" = 3050
      \"VirtualTemperature\" = 3100
    }
";

#[test]
fn thermal_entries_and_pressure() {
    let t = collect_thermal_info(SYSCTL_ALL, BAT, LEVELS);
    assert_eq!(t.thermal_pressure, "Urgent");
    assert_eq!(t.entries.len(), 5);
    assert_eq!(t.entries[0].name, "Battery");
    assert_eq!(t.entries[0].category, "Battery");
    assert_eq!(t.entries[0].reading, "3050");
    assert_eq!(t.entries[0].scale, 100);
    assert_eq!(t.entries[1].reading, "3100");
    assert_eq!(t.entries[2].name, "CPU Thermal Level");
    assert_eq!(t.entries[2].category, "CPU");
    assert_eq!(t.entries[2].reading, "12");
    assert_eq!(t.entries[2].scale, 1);
    assert_eq!(t.entries[3].name, "GPU Thermal Level");
    assert_eq!(t.entries[3].category, "GPU");
    assert_eq!(t.entries[4].name, "I/O Thermal Level");
    assert_eq!(t.entries[4].category, "I/O");
    assert_eq!(t.entries[4].reading, "0");
}

#[test]
fn thermal_pressure_levels() {
    assert_eq!(collect_thermal_info("", "", "").thermal_pressure, "Normal");
    let lvl = |n: &str| collect_thermal_info(&format!("kern.memorystatus_vm_pressure_level: {}\n", n), "", "").thermal_pressure;
    assert_eq!(lvl("0"), "Normal");
    assert_eq!(lvl("1"), "Warning");
    assert_eq!(lvl("4"), "Critical");
    assert_eq!(lvl("3"), "Level 3");
    assert_eq!(lvl("-1"), "Level -1");
    assert_eq!(lvl("high"), "Normal");
    assert!(collect_thermal_info("", "", "").entries.is_empty());
}

const PORTS: &str = "
Hardware Port: Thunderbolt Bridge
Device: bridge0
Ethernet Address: N/A

Hardware Port: Wi-Fi
Device: en1
Ethernet Address: aa:bb:cc:dd:ee:ff
";

const AIRPORT: &str = "Wi-Fi:

      Software Versions:
          CoreWLAN: 16.0 (1657)
      Interfaces:
        en1:
          Card Type: Wi-Fi  (0x14E4, 0x4387)
          Firmware Version: wl0: Jul 30 2023
          Country Code: US
          Current Network Information:
            HomeNet:
              PHY Mode: 802.11ax
              BSSID: 11:22:33:44:55:66
              Channel: 149 (5GHz, 80MHz)
              Security: WPA2 Personal
              Signal / Noise: -55 dBm / -92 dBm
              Transmit Rate: 864
              MCS Index: 9
";

#[test]
fn wifi_fields() {
    assert_eq!(wifi_interface(PORTS), "en1");
    let w = collect_wifi_info(PORTS, AIRPORT);
    assert_eq!(w.interface, "en1");
    assert_eq!(w.ssid, "");
    assert_eq!(w.bssid, "11:22:33:44:55:66");
    assert_eq!(w.channel, "149 (5GHz, 80MHz)");
    assert_eq!(w.rssi, "-55 dBm");
    assert_eq!(w.noise, "-92 dBm");
    // The MCS index line comes last and also sets the rate.
    assert_eq!(w.tx_rate, "9");
    assert_eq!(w.security_type, "WPA2 Personal");
    assert_eq!(w.phy_mode, "802.11ax");
    assert_eq!(w.country_code, "US");
    assert_eq!(w.hardware, "Wi-Fi  (0x14E4, 0x4387)");
}

#[test]
fn wifi_interface_default() {
    assert_eq!(wifi_interface(""), "en0");
    assert_eq!(wifi_interface("Hardware Port: Ethernet\nDevice: en5\n"), "en0");
}

#[test]
fn wifi_ssid_fallback() {
    let mut w = collect_wifi_info(PORTS, AIRPORT);
    assert!(needs_ssid_fallback(&w));
    apply_ssid_fallback(&mut w, "Current Wi-Fi Network: HomeNet\n");
    assert_eq!(w.ssid, "HomeNet");
    assert!(!needs_ssid_fallback(&w));
    apply_ssid_fallback(&mut w, "Current Wi-Fi Network: Other\n");
    assert_eq!(w.ssid, "HomeNet");
    let mut v = collect_wifi_info("", "SSID: Cafe\n");
    assert_eq!(v.ssid, "Cafe");
    assert_eq!(v.interface, "en0");
    let mut u = collect_wifi_info("", "");
    apply_ssid_fallback(&mut u, "You are not associated with an AirPort network.\n");
    assert_eq!(u.ssid, "");
    v.ssid = String::new();
    apply_ssid_fallback(&mut v, "a: b: c");
    assert_eq!(v.ssid, "b");
}
