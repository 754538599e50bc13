use terminaline::collectors::ram::{parse_swap, parse_top, parse_vm_stat};

const VM_STAT: &str = "Mach Virtual Memory Statistics: (page size of 16384 bytes)
Pages free:                               12345.
Pages active:                            234567.
Pages inactive:                          230000.
Pages speculative:                         1234.
Pages throttled:                              0.
Pages wired down:                        150000.
Pages purgeable:                           5000.
\"Translation faults\":                 123456789.
Pages copy-on-write:                    9876543.
Pages zero filled:                     55555555.
Pages reactivated:                       777777.
Pages purged:                            100000.
File-backed pages:                       200000.
Anonymous pages:                         300000.
Pages stored in compressor:              400000.
Pages occupied by compressor:            120000.
Decompressions:                          333333.
Compressions:                            444444.
Pageins:                                 555555.
Pageouts:                                  6666.
Swapins:                                     11.
Swapouts:                                    22.
";

#[test]
fn vm_stat_reads_every_counter() {
    let d = parse_vm_stat(VM_STAT);
    assert_eq!(d.page_size, 16384);
    assert_eq!(d.free, 12345);
    assert_eq!(d.active, 234567);
    assert_eq!(d.inactive, 230000);
    assert_eq!(d.speculative, 1234);
    assert_eq!(d.throttled, 0);
    assert_eq!(d.wired, 150000);
    assert_eq!(d.purgeable, 5000);
    assert_eq!(d.faults, 123456789);
    assert_eq!(d.copy_on_write, 9876543);
    assert_eq!(d.zero_fill, 55555555);
    assert_eq!(d.reactivated, 777777);
    assert_eq!(d.compressor, 400000);
    assert_eq!(d.decompressions, 333333);
    assert_eq!(d.compressions, 444444);
    assert_eq!(d.pageins, 555555);
    assert_eq!(d.pageouts, 6666);
    assert_eq!(d.swapins, 11);
    assert_eq!(d.swapouts, 22);
}

#[test]
fn vm_stat_page_size_defaults() {
    let d = parse_vm_stat("Pages free: 10.\n");
    assert_eq!(d.page_size, 16384);
    assert_eq!(d.free, 10);
    let d = parse_vm_stat("Mach Virtual Memory Statistics: (page size of 4096 bytes)\n");
    assert_eq!(d.page_size, 4096);
    let d = parse_vm_stat("Mach Virtual Memory Statistics: (page size of lots bytes)\n");
    assert_eq!(d.page_size, 16384);
    let d = parse_vm_stat("Mach Virtual Memory Statistics: (page size of 0 bytes)\n");
    assert_eq!(d.page_size, 16384);
}

#[test]
fn vm_stat_bad_number_is_zero() {
    let d = parse_vm_stat("Pages free: 100.\nPages free: many.\nPages active 5\n");
    assert_eq!(d.free, 0);
    assert_eq!(d.active, 0);
    let empty = parse_vm_stat("");
    assert_eq!(empty.page_size, 16384);
    assert_eq!(empty.swapouts, 0);
}

#[test]
fn swap_usage_fields() {
    let s = parse_swap("total = 2048.00M  used = 1024.50M  free = 1023.50M  (encrypted)");
    assert_eq!(s.total, "2048.00M");
    assert_eq!(s.used, "1024.50M");
    assert_eq!(s.free, "1023.50M");
    assert!(s.encrypted);
    let s = parse_swap("total = 0.00M  used = 0.00M  free = 0.00M");
    assert_eq!(s.total, "0.00M");
    assert!(!s.encrypted);
    let s = parse_swap("");
    assert_eq!(s.total, "");
    assert_eq!(s.used, "");
}

const TOP: &str = "Processes: 512 total, 3 running, 509 sleeping, 2345 threads 
2024/01/01 12:00:00
Load Avg: 1.50, 1.20, 1.00 
CPU usage: 5.26% user, 10.52% sys, 84.21% idle 
SharedLibs: 500M resident, 100M data, 50M linkedit.
MemRegions: 123456 total, 5000M resident, 200M private, 1000M shared.
PhysMem: 15G used (2000M wired, 500M compressor), 1000M unused.
VM: 200T vsize, 4000M framework vsize, 0(0) swapins, 0(0) swapouts.
Networks: packets: 1000/2G in, 800/100M out.
Disks: 5000/100G read, 3000/50G written.

PID    COMMAND          RSIZE  %CPU
123    WindowServer     500M   10.5
456    kernel_task      1G     5.0
";

#[test]
fn top_summary_lines() {
    let s = parse_top(TOP);
    assert_eq!(s.processes, 512);
    assert_eq!(s.running, 3);
    assert_eq!(s.sleeping, 509);
    assert_eq!(s.threads, 2345);
    assert_eq!(s.cpu_user, "5.26");
    assert_eq!(s.cpu_sys, "10.52");
    assert_eq!(s.cpu_idle, "84.21");
    assert_eq!(s.sharedlibs_resident, "500M");
    assert_eq!(s.sharedlibs_data, "100M");
    assert_eq!(s.mem_regions_total, 123456);
    assert_eq!(s.mem_regions_resident, "5000M");
    assert_eq!(s.mem_regions_private, "200M");
    assert_eq!(s.mem_regions_shared, "1000M");
    assert_eq!(s.net_packets_in, "1000");
    assert_eq!(s.net_bytes_in, "2G");
    assert_eq!(s.net_packets_out, "800");
    assert_eq!(s.net_bytes_out, "100M");
    assert_eq!(s.disk_reads, "5000");
    assert_eq!(s.disk_read_bytes, "100G");
    assert_eq!(s.disk_writes, "3000");
    assert_eq!(s.disk_write_bytes, "50G");
    assert_eq!(s.vm_vsize, "");
}

#[test]
fn top_physmem_parts() {
    let s = parse_top(TOP);
    assert_eq!(s.phys_used, "15G");
    assert_eq!(s.phys_unused, "1000M");
    assert_eq!(s.phys_wired, "2000M");
    assert_eq!(s.phys_compressor, "500M");
}

#[test]
fn top_process_rows() {
    let s = parse_top(TOP);
    assert_eq!(s.top_procs.len(), 2);
    assert_eq!(
        s.top_procs[0],
        ("WindowServer".to_string(), "500M".to_string(), "10.5".to_string())
    );
    assert_eq!(
        s.top_procs[1],
        ("kernel_task".to_string(), "1G".to_string(), "5.0".to_string())
    );
}

#[test]
fn top_empty_output() {
    let s = parse_top("");
    assert_eq!(s.processes, 0);
    assert_eq!(s.cpu_user, "");
    assert!(s.top_procs.is_empty());
}

#[test]
fn top_process_counts() {
    let s = parse_top("Processes: 612 total, 3 running, 609 sleeping, 3180 threads\n");
    assert_eq!((s.processes, s.running, s.sleeping, s.threads), (612, 3, 609, 3180));
    let s = parse_top("Processes: many total\n");
    assert_eq!(s.processes, 0);
}

#[test]
fn top_physmem_forms() {
    let s = parse_top("PhysMem: 15G used (2153M wired, 4567M compressor), 520M unused.\n");
    assert_eq!(s.phys_used, "15G");
    assert_eq!(s.phys_wired, "2153M");
    assert_eq!(s.phys_compressor, "4567M");
    assert_eq!(s.phys_unused, "520M");
    let s = parse_top("PhysMem: 8G used, 3G wired, 1G unused.\n");
    assert_eq!(s.phys_used, "8G");
    assert_eq!(s.phys_wired, "3G");
    assert_eq!(s.phys_unused, "1G");
    let s = parse_top("PhysMem: 1G unused.\n");
    assert_eq!(s.phys_used, "");
}
