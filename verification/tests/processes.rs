use terminaline::collectors::process::collect_processes;
use terminaline::collectors::services::collect_services;
use terminaline::utils::hs;

const PS: &str = "  PID  PPID USER             %CPU %MEM    RSS      VSZ STAT NLWP COMM             STARTED
    1     0 root              0.5  0.1  20480 34000000 Ss      4 /sbin/launchd    Mon Jan  1 10:00:00 2024
  500     1 me               12.3  2.0 102400  5000000 S      12 /Applications/Safari Tue Jan  2 11:00:00 2024
  600     1 me                0.0  0.0      0        0 Z       x zombie
  too short
";

#[test]
fn ps_rows() {
    let ps = collect_processes(PS);
    assert_eq!(ps.len(), 3);
    let p = &ps[0];
    assert_eq!(p.pid, 1);
    assert_eq!(p.ppid, 0);
    assert_eq!(p.user, "root");
    assert_eq!(p.cpu, "0.5");
    assert_eq!(p.mem, "0.1");
    assert_eq!(p.rss, "20.0 MB");
    assert_eq!(p.vsize, format!("{:.2} GB", (34000000u64 * 1024) as f64 / (1u64 << 30) as f64));
    assert_eq!(p.state, "Ss");
    assert_eq!(p.threads, 4);
    assert_eq!(p.command, "/sbin/launchd");
    assert_eq!(p.started, "Mon Jan 1 10:00:00 2024");
    let q = &ps[1];
    assert_eq!(q.pid, 500);
    assert_eq!(q.cpu, "12.3");
    assert_eq!(q.rss, "100.0 MB");
    assert_eq!(q.vsize, hs(5000000 * 1024));
    assert_eq!(q.threads, 12);
}

#[test]
fn ps_defaults() {
    let ps = collect_processes(PS);
    let z = &ps[2];
    assert_eq!(z.pid, 600);
    // A thread count that is not a number counts as one thread.
    assert_eq!(z.threads, 1);
    assert_eq!(z.rss, "0 B");
    assert_eq!(z.command, "zombie");
    assert_eq!(z.started, "");
    assert!(collect_processes("").is_empty());
}

const LAUNCHCTL: &str = "PID\tStatus\tLabel
-\t0\tcom.apple.SafariHistoryServiceAgent
123\t0\tcom.apple.Finder
-\t78\tcom.apple.failing
45\t-9\tcom.apple.dock
no tabs here
";

#[test]
fn services_running_first_then_by_label() {
    let s = collect_services(LAUNCHCTL);
    assert_eq!(s.len(), 4);
    assert_eq!(s[0].label, "com.apple.Finder");
    assert_eq!(s[0].pid, 123);
    assert_eq!(s[1].label, "com.apple.dock");
    assert_eq!(s[1].last_exit, -9);
    assert_eq!(s[2].label, "com.apple.SafariHistoryServiceAgent");
    assert_eq!(s[2].pid, -1);
    assert_eq!(s[3].label, "com.apple.failing");
    assert_eq!(s[3].last_exit, 78);
}

#[test]
fn services_empty() {
    assert!(collect_services("PID\tStatus\tLabel\n").is_empty());
    assert!(collect_services("").is_empty());
}
