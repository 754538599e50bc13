//! Network interfaces and connections.
use vstd::prelude::*;
use crate::scan::{body_lines, body_lines_exec, filter_map, lemma_filter_map_step, lemma_take_all, num32_or, num32_or_exec, num_or, num_or_exec};
use crate::text::{join, join_from, split2, split2_exec, strip_both, strip_both_exec, CharClass, chars_of, contains, contains_exec, ends_with, ends_with_exec, first_word, first_word_exec, lines, lines_exec, nth_or_empty, nth_or_empty_exec, split, split_exec, starts_with, starts_with_exec, string_of, trim, trim_exec, views, words, words_exec};
use crate::types::{NetConnection, NetConnectionV, NetInterface, NetInterfaceV};

verus! {

/// Where the `ifconfig` scan for one interface stands: whether the current
/// line belongs to that interface's block, and the address and status seen.
pub struct IfcState {
    pub in_iface: bool,
    pub ip: Seq<char>,
    pub status: Seq<char>,
}

/// One line of `ifconfig` output. A line starting with the interface name and
/// holding `: flags=` opens its block; any other line that does not start with
/// a space or a tab closes it. Inside the block, an `inet ` line gives the
/// address and a `status:` line the status.
pub open spec fn ifc_step(st: IfcState, name: Seq<char>, l: Seq<char>) -> IfcState {
    let inside = if starts_with(l, name) && contains(l, ": flags="@) {
        true
    } else if !starts_with(l, " "@) && !starts_with(l, "\t"@) {
        false
    } else {
        st.in_iface
    };
    if inside {
        IfcState {
            in_iface: true,
            ip: if contains(l, "inet "@) && !contains(l, "inet6"@) {
                first_word(nth_or_empty(split(l, "inet "@), 1))
            } else {
                st.ip
            },
            status: if contains(l, "status:"@) {
                trim(nth_or_empty(split(l, "status:"@), 1))
            } else {
                st.status
            },
        }
    } else {
        IfcState { in_iface: false, ..st }
    }
}

/// The `ifconfig` scan for interface `name` after the lines `ls`.
pub open spec fn ifc_scan(ls: Seq<Seq<char>>, name: Seq<char>) -> IfcState
    decreases ls.len(),
{
    if ls.len() == 0 {
        IfcState { in_iface: false, ip: seq![], status: seq![] }
    } else {
        ifc_step(ifc_scan(ls.drop_last(), name), name, ls.last())
    }
}

/// The interface that a line of `netstat -ib` describes: a row of at least 11
/// columns, whose name does not end with `*`, whose MTU is a non-zero number
/// and whose network column holds `Link`. Address and status come from the
/// interface's `ifconfig` block; the status is `unknown` when none is given.
pub open spec fn net_row(l: Seq<char>, ifc: Seq<Seq<char>>) -> Option<NetInterfaceV> {
    let c = words(l);
    if c.len() < 11 || ends_with(c[0], "*"@) || num32_or(c[1], 0) == 0 || !contains(c[2], "Link"@) {
        None
    } else {
        let st = ifc_scan(ifc, c[0]);
        Some(
            NetInterfaceV {
                name: c[0],
                mtu: num32_or(c[1], 0) as u32,
                ip: st.ip,
                pkts_in: num_or(c[4], 0) as u64,
                errs_in: num_or(c[5], 0) as u64,
                bytes_in: num_or(c[6], 0) as u64,
                pkts_out: num_or(c[7], 0) as u64,
                errs_out: num_or(c[8], 0) as u64,
                bytes_out: num_or(c[9], 0) as u64,
                status: if st.status.len() == 0 {
                    "unknown"@
                } else {
                    st.status
                },
            },
        )
    }
}

/// The address and status that `ifconfig` gives for interface `name`.
fn ifc_scan_exec(ifc: &Vec<Vec<char>>, name: &Vec<char>) -> (r: (Vec<char>, Vec<char>))
    ensures
        r.0@ == ifc_scan(views(ifc@), name@).ip,
        r.1@ == ifc_scan(views(ifc@), name@).status,
{
    let ghost ls = views(ifc@);
    let flags = chars_of(": flags=");
    let sp = chars_of(" ");
    let tab = chars_of("\t");
    let inet = chars_of("inet ");
    let inet6 = chars_of("inet6");
    let status_k = chars_of("status:");
    let mut inside = false;
    let mut ip: Vec<char> = Vec::new();
    let mut status: Vec<char> = Vec::new();
    let mut i: usize = 0;
    while i < ifc.len()
        invariant
            i <= ifc@.len(),
            ls == views(ifc@),
            flags@ == ": flags="@,
            sp@ == " "@,
            tab@ == "\t"@,
            inet@ == "inet "@,
            inet6@ == "inet6"@,
            status_k@ == "status:"@,
            (IfcState { in_iface: inside, ip: ip@, status: status@ }) == ifc_scan(ls.take(i as int), name@),
        decreases ifc@.len() - i,
    {
        let l = &ifc[i];
        assert(l@ == ls[i as int]);
        assert(ls.take(i + 1).drop_last() =~= ls.take(i as int));
        if starts_with_exec(l, name) && contains_exec(l, &flags) {
            inside = true;
        } else if !starts_with_exec(l, &sp) && !starts_with_exec(l, &tab) {
            inside = false;
        }
        if inside {
            if contains_exec(l, &inet) && !contains_exec(l, &inet6) {
                let ps = split_exec(l, &inet);
                ip = first_word_exec(&nth_or_empty_exec(&ps, 1));
            }
            if contains_exec(l, &status_k) {
                let ps = split_exec(l, &status_k);
                status = trim_exec(&nth_or_empty_exec(&ps, 1));
            }
        }
        i += 1;
    }
    proof {
        lemma_take_all(ls);
    }
    (ip, status)
}

fn net_row_exec(l: &Vec<char>, ifc: &Vec<Vec<char>>) -> (r: Option<NetInterface>)
    ensures
        match r {
            Some(n) => net_row(l@, views(ifc@)) == Some(n@),
            None => net_row(l@, views(ifc@)) is None,
        },
{
    let c = words_exec(l);
    let ghost cv = views(c@);
    assert(forall|k: int| 0 <= k < c@.len() ==> cv[k] == c@[k]@);
    if c.len() < 11 {
        return None;
    }
    let star = chars_of("*");
    let link = chars_of("Link");
    if ends_with_exec(&c[0], &star) {
        return None;
    }
    let mtu = num32_or_exec(&c[1], 0);
    if mtu == 0 {
        return None;
    }
    if !contains_exec(&c[2], &link) {
        return None;
    }
    let (ip, status) = ifc_scan_exec(ifc, &c[0]);
    let status = if status.len() == 0 {
        chars_of("unknown")
    } else {
        status
    };
    Some(
        NetInterface {
            name: string_of(&c[0]),
            mtu,
            ip: string_of(&ip),
            pkts_in: num_or_exec(&c[4], 0),
            bytes_in: num_or_exec(&c[6], 0),
            errs_in: num_or_exec(&c[5], 0),
            pkts_out: num_or_exec(&c[7], 0),
            bytes_out: num_or_exec(&c[9], 0),
            errs_out: num_or_exec(&c[8], 0),
            status: string_of(&status),
        },
    )
}

/// Network interfaces from `netstat -ib`, each with the address and status
/// that `ifconfig` gives for it, in the order of the rows.
pub fn parse_netstat(netstat_text: &str, ifconfig_text: &str) -> (r: Vec<NetInterface>)
    ensures
        r@.map_values(|n: NetInterface| n@) == filter_map(
            body_lines(netstat_text@),
            |l: Seq<char>| net_row(l, lines(ifconfig_text@)),
        ),
{
    let rows = body_lines_exec(netstat_text);
    let ifc = lines_exec(&chars_of(ifconfig_text));
    let ghost bl = body_lines(netstat_text@);
    let ghost f = |l: Seq<char>| net_row(l, lines(ifconfig_text@));
    let mut out: Vec<NetInterface> = Vec::new();
    assert(bl.take(0) =~= Seq::<Seq<char>>::empty());
    assert(out@.map_values(|n: NetInterface| n@) =~= Seq::<NetInterfaceV>::empty());
    let mut i: usize = 0;
    while i < rows.len()
        invariant
            i <= rows@.len(),
            views(rows@) == bl,
            views(ifc@) == lines(ifconfig_text@),
            f == (|l: Seq<char>| net_row(l, lines(ifconfig_text@))),
            out@.map_values(|n: NetInterface| n@) == filter_map(bl.take(i as int), f),
        decreases rows@.len() - i,
    {
        assert(rows@[i as int]@ == bl[i as int]);
        let ghost old_out = out@;
        proof {
            lemma_filter_map_step(bl, f, i as int);
        }
        if let Some(n) = net_row_exec(&rows[i], &ifc) {
            out.push(n);
            assert(out@.map_values(|n: NetInterface| n@) =~= old_out.map_values(|n: NetInterface| n@).push(n@));
        }
        i += 1;
    }
    proof {
        lemma_take_all(bl);
    }
    out
}

} // verus!

verus! {

/// The connection that a line of `lsof -i -P -n` describes: a row of at least
/// nine columns. The name column (the ninth and all after it, joined with
/// spaces) is `local->remote (STATE)` or `local (STATE)`.
pub open spec fn lsof_row(l: Seq<char>) -> Option<NetConnectionV> {
    let c = words(l);
    if c.len() < 9 {
        None
    } else {
        let name = join(c.skip(8), " "@);
        let parts = if contains(name, "->"@) {
            split2(name, "->"@)
        } else {
            split2(name, " "@)
        };
        let rs = split2(nth_or_empty(parts, 1), " "@);
        Some(
            NetConnectionV {
                pid: num32_or(c[1], 0) as u32,
                process: c[0],
                fd: c[3],
                proto: c[7],
                local_addr: parts[0],
                remote_addr: if contains(name, "->"@) {
                    rs[0]
                } else {
                    seq![]
                },
                state: if contains(name, "->"@) {
                    strip_both(nth_or_empty(rs, 1), CharClass::Paren)
                } else {
                    strip_both(nth_or_empty(parts, 1), CharClass::Paren)
                },
            },
        )
    }
}

fn lsof_row_exec(l: &Vec<char>) -> (r: Option<NetConnection>)
    ensures
        match r {
            Some(n) => lsof_row(l@) == Some(n@),
            None => lsof_row(l@) is None,
        },
{
    let c = words_exec(l);
    let ghost cv = views(c@);
    assert(forall|k: int| 0 <= k < c@.len() ==> cv[k] == c@[k]@);
    if c.len() < 9 {
        return None;
    }
    let space = chars_of(" ");
    let arrow = chars_of("->");
    let name = join_from(&c, 8, &space);
    let is_conn = contains_exec(&name, &arrow);
    let parts = if is_conn {
        split2_exec(&name, &arrow)
    } else {
        split2_exec(&name, &space)
    };
    assert(views(parts@)[0] == parts@[0]@);
    let rs = split2_exec(&nth_or_empty_exec(&parts, 1), &space);
    assert(views(rs@)[0] == rs@[0]@);
    let remote = if is_conn {
        string_of(&rs[0])
    } else {
        String::new()
    };
    let state = if is_conn {
        strip_both_exec(&nth_or_empty_exec(&rs, 1), CharClass::Paren)
    } else {
        strip_both_exec(&nth_or_empty_exec(&parts, 1), CharClass::Paren)
    };
    Some(
        NetConnection {
            pid: num32_or_exec(&c[1], 0),
            process: string_of(&c[0]),
            fd: string_of(&c[3]),
            proto: string_of(&c[7]),
            local_addr: string_of(&parts[0]),
            remote_addr: remote,
            state: string_of(&state),
        },
    )
}

/// Open network connections from `lsof -i -P -n`, in the order of the rows.
pub fn parse_lsof(text: &str) -> (r: Vec<NetConnection>)
    ensures
        r@.map_values(|n: NetConnection| n@) == filter_map(body_lines(text@), |l: Seq<char>| lsof_row(l)),
{
    let rows = body_lines_exec(text);
    let ghost bl = body_lines(text@);
    let ghost f = |l: Seq<char>| lsof_row(l);
    let mut out: Vec<NetConnection> = Vec::new();
    assert(bl.take(0) =~= Seq::<Seq<char>>::empty());
    assert(out@.map_values(|n: NetConnection| n@) =~= Seq::<NetConnectionV>::empty());
    let mut i: usize = 0;
    while i < rows.len()
        invariant
            i <= rows@.len(),
            views(rows@) == bl,
            f == (|l: Seq<char>| lsof_row(l)),
            out@.map_values(|n: NetConnection| n@) == filter_map(bl.take(i as int), f),
        decreases rows@.len() - i,
    {
        assert(rows@[i as int]@ == bl[i as int]);
        let ghost old_out = out@;
        proof {
            lemma_filter_map_step(bl, f, i as int);
        }
        if let Some(n) = lsof_row_exec(&rows[i]) {
            out.push(n);
            assert(out@.map_values(|n: NetConnection| n@) =~= old_out.map_values(|n: NetConnection| n@).push(n@));
        }
        i += 1;
    }
    proof {
        lemma_take_all(bl);
    }
    out
}

} // verus!
