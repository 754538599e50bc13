use terminaline::collectors::network::{parse_lsof, parse_netstat};

const NETSTAT: &str = "Name       Mtu   Network       Address            Ipkts Ierrs     Ibytes    Opkts Oerrs     Obytes  Coll
lo0        16384 <Link#1>                        100     0      20000      100     0      20000     0
lo0        16384 127           127.0.0.1          100     -      20000      100     -      20000     -
gif0*      1280  <Link#2>    00:00:00:00:00:00      0     0          0        0     0          0     0
en0        1500  <Link#11>   aa:bb:cc:dd:ee:ff   5000     1    6000000     4000     2     300000     0
en0        1500  192.168.1     192.168.1.10      5000     -    6000000     4000     -     300000     -
stf0       0     <Link#3>    00:00:00:00:00:00      0     0          0        0     0          0     0
en5        1500  <Link#13>   11:22:33:44:55:66     10     0       1000       20     0       2000     0
";

const IFCONFIG: &str = "lo0: flags=8049<UP,LOOPBACK,RUNNING,MULTICAST> mtu 16384
\tinet 127.0.0.1 netmask 0xff000000
en0: flags=8863<UP,BROADCAST,SMART,RUNNING,SIMPLEX,MULTICAST> mtu 1500
\tether aa:bb:cc:dd:ee:ff
\tinet6 fe80::1%en0 prefixlen 64 scopeid 0x4
\tinet 192.168.1.10 netmask 0xffffff00 broadcast 192.168.1.255
\tstatus: active
en1: flags=8863<UP> mtu 1500
\tinet 10.0.0.2 netmask 0xff000000
\tstatus: inactive
";

#[test]
fn netstat_keeps_link_rows() {
    let ifs = parse_netstat(NETSTAT, IFCONFIG);
    // lo0's link row has no address column, gif0* is excluded by its star,
    // stf0 has an MTU of 0, and the address rows are not link rows.
    assert_eq!(ifs.len(), 2);
    let en0 = &ifs[0];
    assert_eq!(en0.name, "en0");
    assert_eq!(en0.mtu, 1500);
    assert_eq!(en0.pkts_in, 5000);
    assert_eq!(en0.errs_in, 1);
    assert_eq!(en0.bytes_in, 6000000);
    assert_eq!(en0.pkts_out, 4000);
    assert_eq!(en0.errs_out, 2);
    assert_eq!(en0.bytes_out, 300000);
    assert_eq!(en0.ip, "192.168.1.10");
    assert_eq!(en0.status, "active");
    let en5 = &ifs[1];
    assert_eq!(en5.name, "en5");
    assert_eq!(en5.ip, "");
    assert_eq!(en5.status, "unknown");
    assert_eq!(en5.bytes_out, 2000);
}

#[test]
fn netstat_header_only() {
    assert!(parse_netstat("Name Mtu Network Address Ipkts Ierrs Ibytes Opkts Oerrs Obytes Coll\n", "").is_empty());
    assert!(parse_netstat("", "").is_empty());
}

#[test]
fn netstat_bad_counter_is_zero() {
    let t = "header\nen0 1500 <Link#4> a:b x 0 y 0 0 z 0\n";
    let ifs = parse_netstat(t, "");
    assert_eq!(ifs.len(), 1);
    assert_eq!(ifs[0].pkts_in, 0);
    assert_eq!(ifs[0].bytes_in, 0);
    assert_eq!(ifs[0].bytes_out, 0);
}

const LSOF: &str = "COMMAND     PID   USER   FD   TYPE             DEVICE SIZE/OFF NODE NAME
rapportd    512   me    4u  IPv4 0x1234567890abcdef      0t0  TCP *:49152 (LISTEN)
Safari      900   me   20u  IPv4 0xabcdef0123456789      0t0  TCP 192.168.1.10:50000->17.253.144.10:443 (ESTABLISHED)
mDNSRespo   300   _mdns  8u  IPv4 0x1111111111111111      0t0  UDP *:5353
short line
";

#[test]
fn lsof_connections() {
    let cs = parse_lsof(LSOF);
    assert_eq!(cs.len(), 3);
    assert_eq!(cs[0].process, "rapportd");
    assert_eq!(cs[0].pid, 512);
    assert_eq!(cs[0].fd, "4u");
    assert_eq!(cs[0].proto, "TCP");
    assert_eq!(cs[0].local_addr, "*:49152");
    assert_eq!(cs[0].remote_addr, "");
    assert_eq!(cs[0].state, "LISTEN");
    assert_eq!(cs[1].process, "Safari");
    assert_eq!(cs[1].local_addr, "192.168.1.10:50000");
    assert_eq!(cs[1].remote_addr, "17.253.144.10:443");
    assert_eq!(cs[1].state, "ESTABLISHED");
    assert_eq!(cs[2].proto, "UDP");
    assert_eq!(cs[2].local_addr, "*:5353");
    assert_eq!(cs[2].state, "");
}

#[test]
fn lsof_bad_pid_and_empty() {
    let cs = parse_lsof("H\nx abc u 1u IPv6 0x1 0t0 TCP [::1]:80\n");
    assert_eq!(cs.len(), 1);
    assert_eq!(cs[0].pid, 0);
    assert_eq!(cs[0].local_addr, "[::1]:80");
    assert!(parse_lsof("").is_empty());
}
