//! What the tabs show, computed from the collected records: visible windows
//! of lists, summaries and ratings.
use vstd::prelude::*;
use crate::input::{last_index, sat_sub};
use crate::num::{parse_i32, parse_i32_exec, parse_u16, parse_unsigned};
use crate::text::{chars_of, strip_end, strip_end_exec, strip_suffixes, strip_suffixes_exec, CharClass};
use crate::num::{dec_chars, dec_str};
use crate::sort::{insert_from, lemma_stable_sort_perm, lemma_stable_sort_push, lemma_stable_sort_sorted, sorted_insert, stable_sort, strict_order};
use crate::text::{last_or_empty, last_or_empty_exec, split, split_exec, concat, eq_exec, join, join_from, string_of, views};
use crate::types::{FileEntry, FileEntryV, NetConnection, SecurityInfo, ServiceInfo, SortMode};

verus! {

/// The selected row of a list of `len` rows whose scroll position is
/// `scroll`: the position, but no further than the last row.
pub open spec fn list_cursor(scroll: usize, len: usize) -> usize {
    if scroll < last_index(len) { scroll } else { last_index(len) }
}

/// The first row shown of a list in a window `height` rows high, so that
/// the selected row `cursor` is the bottom row once it is past the first
/// screen.
pub open spec fn first_row(cursor: usize, height: usize) -> usize {
    if cursor >= height { (cursor - height + 1) as usize } else { 0 }
}

/// The selected row and the first row shown of a list of `len` rows with
/// scroll position `scroll`, in a window `height` rows high.
pub fn list_window(scroll: usize, len: usize, height: usize) -> (r: (usize, usize))
    ensures
        r.0 == list_cursor(scroll, len),
        r.1 == first_row(r.0, height),
        height > 0 ==> r.1 <= r.0 < r.1 + height,
{
    let last = len.saturating_sub(1);
    let cursor = if scroll < last { scroll } else { last };
    let top = if cursor >= height { cursor - height + 1 } else { 0 };
    (cursor, top)
}

/// The first line shown of a text of `total` lines in a window `height`
/// lines high, scrolled to `scroll`: no further than where the last line
/// reaches the bottom.
pub fn page_scroll(scroll: usize, total: usize, height: usize) -> (r: usize)
    ensures
        r == (if scroll < sat_sub(total, height) { scroll } else { sat_sub(total, height) }),
{
    let most = total.saturating_sub(height);
    if scroll < most { scroll } else { most }
}

/// The name of a listing order, as the file browser shows it.
pub open spec fn sort_text(s: SortMode) -> Seq<char> {
    match s {
        SortMode::SizeDsc => "Size ↓"@,
        SortMode::SizeAsc => "Size ↑"@,
        SortMode::NameAsc => "Name A→Z"@,
        SortMode::NameDsc => "Name Z→A"@,
    }
}

/// The name of a listing order, as the file browser shows it.
pub fn sort_label(s: SortMode) -> (r: &'static str)
    ensures
        r@ == sort_text(s),
{
    match s {
        SortMode::SizeDsc => "Size ↓",
        SortMode::SizeAsc => "Size ↑",
        SortMode::NameAsc => "Name A→Z",
        SortMode::NameDsc => "Name Z→A",
    }
}

/// The type shown for an entry of the file browser: `DIR` for a directory,
/// otherwise what follows the last `.` of its name (the whole name when it has
/// none).
pub open spec fn type_text(e: FileEntryV) -> Seq<char> {
    if e.is_dir {
        "DIR"@
    } else {
        last_or_empty(split(e.name, "."@))
    }
}

/// The type shown for an entry of the file browser.
pub fn type_label(e: &FileEntry) -> (r: String)
    ensures
        r@ == type_text(e@),
{
    if e.is_dir {
        string_of(&chars_of("DIR"))
    } else {
        let ps = split_exec(&chars_of(e.name.as_str()), &chars_of("."));
        string_of(&last_or_empty_exec(&ps))
    }
}

/// How strong a Wi-Fi signal is.
#[derive(Debug, Clone, Copy, PartialEq, Eq, Structural)]
pub enum SignalQuality {
    Excellent,
    Good,
    Fair,
    Weak,
}

/// The rating of a received signal strength in dBm: from -50 up excellent,
/// from -60 good, from -70 fair, below weak.
pub open spec fn quality_of(dbm: int) -> SignalQuality {
    if dbm >= -50 {
        SignalQuality::Excellent
    } else if dbm >= -60 {
        SignalQuality::Good
    } else if dbm >= -70 {
        SignalQuality::Fair
    } else {
        SignalQuality::Weak
    }
}

/// The signal strength that an RSSI text such as `-55 dBm` gives: the number
/// before the ` dBm` units, or 0 where there is none.
pub open spec fn rssi_dbm(rssi: Seq<char>) -> int {
    match parse_i32(strip_suffixes(rssi, " dBm"@)) {
        Some(v) => v,
        None => 0,
    }
}

/// The rating of the signal strength that the text `rssi` reports (an
/// unreadable text counts as 0 dBm).
pub fn signal_quality(rssi: &str) -> (r: SignalQuality)
    ensures
        r == quality_of(rssi_dbm(rssi@)),
{
    let num = strip_suffixes_exec(&chars_of(rssi), &chars_of(" dBm"));
    let v: i32 = match parse_i32_exec(&num) {
        Some(v) => v,
        None => 0,
    };
    if v >= -50 {
        SignalQuality::Excellent
    } else if v >= -60 {
        SignalQuality::Good
    } else if v >= -70 {
        SignalQuality::Fair
    } else {
        SignalQuality::Weak
    }
}

/// The charge that a battery level text such as `87%` gives: the number
/// before the percent signs, or 0 where it is not a `u16`.
pub open spec fn level_percent(level: Seq<char>) -> int {
    match parse_unsigned(strip_end(level, CharClass::Exact('%')), u16::MAX as int) {
        Some(v) => v,
        None => 0,
    }
}

/// The charge in percent that a battery level text reports.
pub fn battery_percent(level: &str) -> (r: u16)
    ensures
        r == level_percent(level@),
{
    let num = strip_end_exec(&chars_of(level), CharClass::Exact('%'));
    match parse_u16(&num) {
        Some(v) => v,
        None => 0,
    }
}

/// How well the system is protected.
#[derive(Debug, Clone, Copy, PartialEq, Eq, Structural)]
pub enum Protection {
    /// Every protection is on.
    Excellent,
    /// System integrity protection and Gatekeeper are on, something else
    /// is off.
    Good,
    /// System integrity protection or Gatekeeper is off.
    Warning,
}

/// The overall rating of the protection settings.
pub fn protection_level(s: &SecurityInfo) -> (r: Protection)
    ensures
        r == (if s.sip_enabled && s.gatekeeper_enabled && s.filevault_enabled && s.firewall_enabled {
            Protection::Excellent
        } else if s.sip_enabled && s.gatekeeper_enabled {
            Protection::Good
        } else {
            Protection::Warning
        }),
{
    if s.sip_enabled && s.gatekeeper_enabled && s.filevault_enabled && s.firewall_enabled {
        Protection::Excellent
    } else if s.sip_enabled && s.gatekeeper_enabled {
        Protection::Good
    } else {
        Protection::Warning
    }
}

/// The number of services with a process.
pub open spec fn running_count(s: Seq<ServiceInfo>) -> int
    decreases s.len(),
{
    if s.len() == 0 {
        0
    } else {
        running_count(s.drop_last()) + if s.last().pid > 0 { 1int } else { 0 }
    }
}

/// The number of services without a process whose last exit status was not
/// zero.
pub open spec fn failed_count(s: Seq<ServiceInfo>) -> int
    decreases s.len(),
{
    if s.len() == 0 {
        0
    } else {
        failed_count(s.drop_last()) + if s.last().last_exit != 0 && s.last().pid <= 0 { 1int } else { 0 }
    }
}

/// The counts shown above the service list.
#[derive(Debug, Clone, Copy, PartialEq, Eq, Structural)]
pub struct ServiceSummary {
    pub total: usize,
    pub running: usize,
    pub stopped: usize,
    pub failed: usize,
}

proof fn lemma_service_counts(s: Seq<ServiceInfo>)
    ensures
        0 <= failed_count(s) <= s.len() - running_count(s),
        0 <= running_count(s) <= s.len(),
    decreases s.len(),
{
    if s.len() > 0 {
        lemma_service_counts(s.drop_last());
    }
}

/// How many services there are, how many run, how many do not, and how many
/// of those failed.
pub fn summarize_services(services: &Vec<ServiceInfo>) -> (r: ServiceSummary)
    ensures
        r.total == services@.len(),
        r.running == running_count(services@),
        r.stopped == services@.len() - running_count(services@),
        r.failed == failed_count(services@),
{
    let mut running: usize = 0;
    let mut failed: usize = 0;
    let mut i: usize = 0;
    assert(services@.take(0) =~= Seq::<ServiceInfo>::empty());
    while i < services.len()
        invariant
            i <= services@.len(),
            running == running_count(services@.take(i as int)),
            failed == failed_count(services@.take(i as int)),
        decreases services@.len() - i,
    {
        let ghost t = services@.take(i + 1);
        assert(t.drop_last() =~= services@.take(i as int));
        proof {
            lemma_service_counts(t);
        }
        let s = &services[i];
        if s.pid > 0 {
            running += 1;
        } else if s.last_exit != 0 {
            failed += 1;
        }
        i += 1;
    }
    assert(services@.take(services@.len() as int) =~= services@);
    proof {
        lemma_service_counts(services@);
    }
    ServiceSummary { total: services.len(), running, stopped: services.len() - running, failed }
}

/// The number of connections of which `f` holds.
pub open spec fn count_where(s: Seq<NetConnection>, f: spec_fn(NetConnection) -> bool) -> int
    decreases s.len(),
{
    if s.len() == 0 {
        0
    } else {
        count_where(s.drop_last(), f) + if f(s.last()) { 1int } else { 0 }
    }
}

proof fn lemma_count_where_bound(s: Seq<NetConnection>, f: spec_fn(NetConnection) -> bool)
    ensures
        0 <= count_where(s, f) <= s.len(),
    decreases s.len(),
{
    if s.len() > 0 {
        lemma_count_where_bound(s.drop_last(), f);
    }
}

/// The connections of protocol `p`.
pub open spec fn with_proto(p: Seq<char>) -> spec_fn(NetConnection) -> bool {
    |c: NetConnection| c.proto@ == p
}

/// The connections in state `st`.
pub open spec fn in_state(st: Seq<char>) -> spec_fn(NetConnection) -> bool {
    |c: NetConnection| c.state@ == st
}

/// The position of the first entry of `t` named `name`, or -1.
pub open spec fn index_in(t: Seq<(Seq<char>, int)>, name: Seq<char>) -> int
    decreases t.len(),
{
    if t.len() == 0 {
        -1
    } else if t[0].0 == name {
        0
    } else {
        let j = index_in(t.drop_first(), name);
        if j < 0 { -1 } else { j + 1 }
    }
}

/// The names of `names` in the order in which they first occur, each with
/// how often it occurs.
pub open spec fn tally(names: Seq<Seq<char>>) -> Seq<(Seq<char>, int)>
    decreases names.len(),
{
    if names.len() == 0 {
        seq![]
    } else {
        let t = tally(names.drop_last());
        let i = index_in(t, names.last());
        if i >= 0 {
            t.update(i, (names.last(), t[i].1 + 1))
        } else {
            t.push((names.last(), 1int))
        }
    }
}

/// The process names of the connections.
pub open spec fn process_names(s: Seq<NetConnection>) -> Seq<Seq<char>> {
    s.map_values(|c: NetConnection| c.process@)
}

/// Larger counts first.
pub open spec fn more_used() -> spec_fn((Seq<char>, int), (Seq<char>, int)) -> bool {
    |a: (Seq<char>, int), b: (Seq<char>, int)| a.1 > b.1
}

/// The processes with the most connections, at most three, most first;
/// processes with equally many in the order in which they first occur.
pub open spec fn busiest(s: Seq<NetConnection>) -> Seq<(Seq<char>, int)> {
    let ranked = stable_sort(tally(process_names(s)), more_used());
    if ranked.len() <= 3 { ranked } else { ranked.take(3) }
}

/// The contents of a list of names with counts.
pub open spec fn count_views(v: Seq<(String, usize)>) -> Seq<(Seq<char>, int)> {
    v.map_values(|p: (String, usize)| (p.0@, p.1 as int))
}

proof fn lemma_index_in(t: Seq<(Seq<char>, int)>, name: Seq<char>, j: int)
    requires
        0 <= j <= t.len(),
        forall|k: int| 0 <= k < j ==> (#[trigger] t[k]).0 != name,
    ensures
        j < t.len() && t[j].0 == name ==> index_in(t, name) == j,
        j == t.len() ==> index_in(t, name) == -1,
    decreases t.len(),
{
    if t.len() > 0 && j > 0 {
        let u = t.drop_first();
        assert forall|k: int| 0 <= k < j - 1 implies (#[trigger] u[k]).0 != name by {
            assert(u[k] == t[k + 1]);
        }
        assert(t[0].0 != name);
        lemma_index_in(u, name, j - 1);
    }
}

proof fn lemma_index_in_range(t: Seq<(Seq<char>, int)>, name: Seq<char>)
    ensures
        -1 <= index_in(t, name) < t.len(),
        index_in(t, name) >= 0 ==> t[index_in(t, name)].0 == name,
    decreases t.len(),
{
    if t.len() > 0 && t[0].0 != name {
        lemma_index_in_range(t.drop_first(), name);
    }
}

proof fn lemma_tally_bounds(names: Seq<Seq<char>>)
    ensures
        tally(names).len() <= names.len(),
        forall|k: int| 0 <= k < tally(names).len() ==> 1 <= (#[trigger] tally(names)[k]).1 <= names.len(),
    decreases names.len(),
{
    if names.len() > 0 {
        lemma_tally_bounds(names.drop_last());
        lemma_index_in_range(tally(names.drop_last()), names.last());
    }
}

fn insert_count(v: &mut Vec<(String, usize)>, x: (String, usize))
    ensures
        count_views(final(v)@) == sorted_insert(count_views(old(v)@), (x.0@, x.1 as int), more_used()),
{
    let ghost vs = count_views(old(v)@);
    let ghost xv = (x.0@, x.1 as int);
    let mut j: usize = 0;
    while j < v.len() && !(x.1 > v[j].1)
        invariant
            j <= v@.len(),
            v@ == old(v)@,
            vs == count_views(v@),
            xv == (x.0@, x.1 as int),
            insert_from(vs, xv, more_used(), 0) == insert_from(vs, xv, more_used(), j as int),
        decreases v@.len() - j,
    {
        assert(vs[j as int] == (v@[j as int].0@, v@[j as int].1 as int));
        j += 1;
    }
    proof {
        if j < v@.len() {
            assert(vs[j as int] == (v@[j as int].0@, v@[j as int].1 as int));
        }
    }
    v.insert(j, x);
    assert(count_views(v@) =~= vs.insert(j as int, xv));
}

/// The counts shown above the connection list.
#[derive(Debug, Clone)]
pub struct ConnectionSummary {
    pub total: usize,
    pub tcp: usize,
    pub udp: usize,
    pub established: usize,
    pub listening: usize,
    /// The processes with the most connections, at most three, most first.
    pub busiest: Vec<(String, usize)>,
}

/// How many connections there are, how many use TCP and UDP, how many are
/// established and listening, and which processes hold the most.
pub fn summarize_connections(conns: &Vec<NetConnection>) -> (r: ConnectionSummary)
    ensures
        r.total == conns@.len(),
        r.tcp == count_where(conns@, with_proto("TCP"@)),
        r.udp == count_where(conns@, with_proto("UDP"@)),
        r.established == count_where(conns@, in_state("ESTABLISHED"@)),
        r.listening == count_where(conns@, in_state("LISTEN"@)),
        count_views(r.busiest@) == busiest(conns@),
{
    let tcp_s = chars_of("TCP");
    let udp_s = chars_of("UDP");
    let est_s = chars_of("ESTABLISHED");
    let lis_s = chars_of("LISTEN");
    let ghost names = process_names(conns@);
    let mut tcp: usize = 0;
    let mut udp: usize = 0;
    let mut est: usize = 0;
    let mut lis: usize = 0;
    let mut counts: Vec<(String, usize)> = Vec::new();
    let mut i: usize = 0;
    assert(conns@.take(0) =~= Seq::<NetConnection>::empty());
    assert(names.take(0) =~= Seq::<Seq<char>>::empty());
    while i < conns.len()
        invariant
            i <= conns@.len(),
            names == process_names(conns@),
            tcp_s@ == "TCP"@,
            udp_s@ == "UDP"@,
            est_s@ == "ESTABLISHED"@,
            lis_s@ == "LISTEN"@,
            tcp == count_where(conns@.take(i as int), with_proto("TCP"@)),
            udp == count_where(conns@.take(i as int), with_proto("UDP"@)),
            est == count_where(conns@.take(i as int), in_state("ESTABLISHED"@)),
            lis == count_where(conns@.take(i as int), in_state("LISTEN"@)),
            count_views(counts@) == tally(names.take(i as int)),
        decreases conns@.len() - i,
    {
        let ghost t = conns@.take(i + 1);
        assert(t.drop_last() =~= conns@.take(i as int));
        proof {
            lemma_count_where_bound(t, with_proto("TCP"@));
            lemma_count_where_bound(t, with_proto("UDP"@));
            lemma_count_where_bound(t, in_state("ESTABLISHED"@));
            lemma_count_where_bound(t, in_state("LISTEN"@));
        }
        let c = &conns[i];
        let proto = chars_of(c.proto.as_str());
        let state = chars_of(c.state.as_str());
        if eq_exec(&proto, &tcp_s) {
            tcp += 1;
        }
        if eq_exec(&proto, &udp_s) {
            udp += 1;
        }
        if eq_exec(&state, &est_s) {
            est += 1;
        }
        if eq_exec(&state, &lis_s) {
            lis += 1;
        }
        let ghost nt = names.take(i + 1);
        assert(nt.drop_last() =~= names.take(i as int));
        assert(nt.last() == c.process@);
        let ghost tv = count_views(counts@);
        proof {
            lemma_tally_bounds(nt);
            lemma_tally_bounds(names.take(i as int));
        }
        let mut j: usize = 0;
        while j < counts.len() && !str_eq(counts[j].0.as_str(), c.process.as_str())
            invariant
                j <= counts@.len(),
                tv == count_views(counts@),
                forall|k: int| 0 <= k < j ==> (#[trigger] tv[k]).0 != c.process@,
            decreases counts@.len() - j,
        {
            j += 1;
        }
        proof {
            lemma_index_in(tv, c.process@, j as int);
        }
        if j < counts.len() {
            let k = counts[j].1;
            assert(tv[j as int].1 == k);
            let name = c.process.clone();
            counts.set(j, (name, k + 1));
            assert(count_views(counts@) =~= tv.update(j as int, (c.process@, tv[j as int].1 + 1)));
        } else {
            counts.push((c.process.clone(), 1));
            assert(count_views(counts@) =~= tv.push((c.process@, 1int)));
        }
        i += 1;
    }
    assert(conns@.take(conns@.len() as int) =~= conns@);
    assert(names.take(conns@.len() as int) =~= names);
    let ghost tl = count_views(counts@);
    let mut ranked: Vec<(String, usize)> = Vec::new();
    let mut k: usize = 0;
    assert(tl.take(0) =~= Seq::<(Seq<char>, int)>::empty());
    while k < counts.len()
        invariant
            k <= counts@.len(),
            tl == count_views(counts@),
            count_views(ranked@) == stable_sort(tl.take(k as int), more_used()),
        decreases counts@.len() - k,
    {
        let ghost xv = (counts@[k as int].0@, counts@[k as int].1 as int);
        assert(tl[k as int] == xv);
        assert(tl.take(k + 1).drop_last() =~= tl.take(k as int));
        proof {
            lemma_stable_sort_push(tl.take(k as int), xv, more_used());
        }
        let item = (counts[k].0.clone(), counts[k].1);
        insert_count(&mut ranked, item);
        k += 1;
    }
    assert(tl.take(counts@.len() as int) =~= tl);
    let ghost rs = count_views(ranked@);
    while ranked.len() > 3
        invariant
            ranked@.len() >= 3 ==> count_views(ranked@) == rs.take(ranked@.len() as int),
            ranked@.len() < 3 ==> count_views(ranked@) == rs,
            rs.len() >= ranked@.len(),
        decreases ranked@.len(),
    {
        ranked.pop();
        assert(count_views(ranked@) =~= rs.take(ranked@.len() as int));
    }
    proof {
        if rs.len() <= 3 {
            assert(rs.take(rs.len() as int) =~= rs);
        }
    }
    ConnectionSummary {
        total: conns.len(),
        tcp,
        udp,
        established: est,
        listening: lis,
        busiest: ranked,
    }
}

/// Whether two texts are equal.
fn str_eq(a: &str, b: &str) -> (r: bool)
    ensures
        r == (a@ == b@),
{
    eq_exec(&chars_of(a), &chars_of(b))
}

/// A process with its count, as the connection summary writes it:
/// `name (count)`.
pub open spec fn count_text(e: (Seq<char>, int)) -> Seq<char> {
    e.0 + " ("@ + dec_str(e.1 as nat) + ")"@
}

/// Processes with their counts, written one after the other with `, `
/// between them.
pub fn counts_text(top: &Vec<(String, usize)>) -> (r: String)
    ensures
        r@ == join(count_views(top@).map_values(|e: (Seq<char>, int)| count_text(e)), ", "@),
{
    let ghost want = count_views(top@).map_values(|e: (Seq<char>, int)| count_text(e));
    let mut pieces: Vec<Vec<char>> = Vec::new();
    let mut i: usize = 0;
    while i < top.len()
        invariant
            i <= top@.len(),
            want == count_views(top@).map_values(|e: (Seq<char>, int)| count_text(e)),
            views(pieces@) == want.take(i as int),
        decreases top@.len() - i,
    {
        let e = &top[i];
        let p = concat(&concat(&concat(&chars_of(e.0.as_str()), &chars_of(" (")), &dec_chars(e.1 as u64)), &chars_of(")"));
        let ghost ev = (e.0@, e.1 as int);
        assert(count_views(top@)[i as int] == ev);
        assert(p@ == count_text(ev));
        assert(want[i as int] == count_text(ev));
        let ghost before = pieces@;
        pieces.push(p);
        assert(views(pieces@) =~= views(before).push(count_text(ev)));
        assert(want.take(i + 1) =~= want.take(i as int).push(want[i as int]));
        i += 1;
    }
    assert(want.take(top@.len() as int) =~= want);
    assert(views(pieces@).skip(0) =~= views(pieces@));
    string_of(&join_from(&pieces, 0, &chars_of(", ")))
}

/// How often `n` occurs in `names`.
pub open spec fn occurrences(names: Seq<Seq<char>>, n: Seq<char>) -> int
    decreases names.len(),
{
    if names.len() == 0 {
        0
    } else {
        occurrences(names.drop_last(), n) + if names.last() == n { 1int } else { 0 }
    }
}

proof fn lemma_occurrences_nonneg(names: Seq<Seq<char>>, n: Seq<char>)
    ensures
        occurrences(names, n) >= 0,
    decreases names.len(),
{
    if names.len() > 0 {
        lemma_occurrences_nonneg(names.drop_last(), n);
    }
}

proof fn lemma_index_in_none(t: Seq<(Seq<char>, int)>, name: Seq<char>)
    ensures
        index_in(t, name) < 0 ==> forall|k: int| 0 <= k < t.len() ==> (#[trigger] t[k]).0 != name,
    decreases t.len(),
{
    if t.len() > 0 && t[0].0 != name {
        let u = t.drop_first();
        lemma_index_in_none(u, name);
        if index_in(t, name) < 0 {
            assert forall|k: int| 0 <= k < t.len() implies (#[trigger] t[k]).0 != name by {
                if k > 0 {
                    assert(t[k] == u[k - 1]);
                }
            }
        }
    }
}

/// The tally counts each name as often as it occurs, names each name that
/// occurs, and names none twice.
proof fn lemma_tally(names: Seq<Seq<char>>)
    ensures
        forall|k: int| 0 <= k < tally(names).len() ==> (#[trigger] tally(names)[k]).1 == occurrences(
            names,
            tally(names)[k].0,
        ),
        forall|n: Seq<char>| #[trigger] occurrences(names, n) > 0 ==> exists|k: int|
            0 <= k < tally(names).len() && (#[trigger] tally(names)[k]).0 == n,
        forall|a: int, b: int| 0 <= a < b < tally(names).len() ==> (#[trigger] tally(names)[a]).0 != (
        #[trigger] tally(names)[b]).0,
    decreases names.len(),
{
    if names.len() > 0 {
        let prev = names.drop_last();
        let x = names.last();
        let t = tally(prev);
        let nt = tally(names);
        lemma_tally(prev);
        lemma_index_in_range(t, x);
        lemma_index_in_none(t, x);
        let i = index_in(t, x);
        assert forall|k: int| 0 <= k < nt.len() implies (#[trigger] nt[k]).1 == occurrences(names, nt[k].0) by {
            if i >= 0 {
                if k != i {
                    assert(nt[k] == t[k]);
                    assert(t[k].0 != t[i].0);
                }
            } else if k < t.len() {
                assert(nt[k] == t[k]);
            } else {
                lemma_occurrences_nonneg(prev, x);
                if occurrences(prev, x) > 0 {
                    let j = choose|j: int| 0 <= j < t.len() && (#[trigger] t[j]).0 == x;
                    assert(t[j].0 != x);
                }
            }
        }
        assert forall|n: Seq<char>| #[trigger] occurrences(names, n) > 0 implies exists|k: int|
            0 <= k < nt.len() && (#[trigger] nt[k]).0 == n by {
            if n == x {
                if i >= 0 {
                    assert(nt[i].0 == n);
                } else {
                    assert(nt[t.len() as int].0 == n);
                }
            } else {
                assert(occurrences(prev, n) > 0);
                let j = choose|j: int| 0 <= j < t.len() && (#[trigger] t[j]).0 == n;
                assert(nt[j].0 == n);
            }
        }
        assert forall|a: int, b: int| 0 <= a < b < nt.len() implies (#[trigger] nt[a]).0 != (#[trigger] nt[b]).0 by {
            if i >= 0 {
                assert(nt[a].0 == t[a].0 && nt[b].0 == t[b].0);
            } else if b < t.len() {
                assert(nt[a] == t[a] && nt[b] == t[b]);
            } else {
                assert(nt[a] == t[a]);
            }
        }
    }
}

/// The busiest processes of the connection summary: at most three, each
/// with the number of its connections, none twice, most first; and a
/// process that is left out has no more connections than the last one shown.
pub proof fn lemma_busiest(conns: Seq<NetConnection>)
    ensures
        ({
            let names = process_names(conns);
            let b = busiest(conns);
            &&& b.len() <= 3
            &&& forall|k: int| 0 <= k < b.len() ==> (#[trigger] b[k]).1 == occurrences(names, b[k].0) && b[k].1 >= 1
            &&& forall|i: int, j: int| 0 <= i < j < b.len() ==> (#[trigger] b[i]).1 >= (#[trigger] b[j]).1
            &&& forall|i: int, j: int| 0 <= i < j < b.len() ==> (#[trigger] b[i]).0 != (#[trigger] b[j]).0
            &&& forall|n: Seq<char>| #[trigger] occurrences(names, n) > 0 && (forall|k: int| 0 <= k < b.len() ==> (#[trigger] b[k]).0 != n)
                ==> b.len() == 3 && occurrences(names, n) <= b[2].1
        }),
{
    let names = process_names(conns);
    let t = tally(names);
    let ranked = stable_sort(t, more_used());
    let b = busiest(conns);
    lemma_tally(names);
    lemma_tally_bounds(names);
    assert(strict_order(more_used()));
    lemma_stable_sort_sorted(t, more_used());
    lemma_stable_sort_perm(t, more_used());
    t.to_multiset_ensures();
    ranked.to_multiset_ensures();
    assert(t.no_duplicates()) by {
        assert forall|a: int, c: int| 0 <= a < t.len() && 0 <= c < t.len() && a != c implies t[a] != t[c] by {
            if a < c {
                assert(t[a].0 != t[c].0);
            } else {
                assert(t[c].0 != t[a].0);
            }
        }
    }
    t.lemma_multiset_has_no_duplicates();
    ranked.lemma_multiset_has_no_duplicates_conv();
    assert(forall|k: int| 0 <= k < b.len() ==> b[k] == ranked[k]);
    assert forall|k: int| 0 <= k < ranked.len() implies exists|j: int| 0 <= j < t.len() && t[j] == #[trigger] ranked[k] by {
        assert(ranked.contains(ranked[k]));
        assert(t.to_multiset().count(ranked[k]) > 0);
    }
    assert forall|k: int| 0 <= k < b.len() implies (#[trigger] b[k]).1 == occurrences(names, b[k].0) && b[k].1 >= 1 by {
        assert(ranked[k] == b[k]);
        let j = choose|j: int| 0 <= j < t.len() && t[j] == ranked[k];
        assert(t[j].1 == occurrences(names, t[j].0));
    }
    assert forall|i: int, j: int| 0 <= i < j < b.len() implies (#[trigger] b[i]).1 >= (#[trigger] b[j]).1 by {
        assert(!more_used()(ranked[j], ranked[i]));
    }
    assert forall|i: int, j: int| 0 <= i < j < b.len() implies (#[trigger] b[i]).0 != (#[trigger] b[j]).0 by {
        let a = choose|a: int| 0 <= a < t.len() && t[a] == ranked[i];
        let c = choose|c: int| 0 <= c < t.len() && t[c] == ranked[j];
        assert(ranked[i] != ranked[j]);
        if a < c {
            assert(t[a].0 != t[c].0);
        } else if c < a {
            assert(t[c].0 != t[a].0);
        }
    }
    assert forall|n: Seq<char>| #[trigger] occurrences(names, n) > 0 && (forall|k: int| 0 <= k < b.len() ==> (#[trigger] b[k]).0 != n)
        implies b.len() == 3 && occurrences(names, n) <= b[2].1 by {
        let j = choose|j: int| 0 <= j < t.len() && (#[trigger] t[j]).0 == n;
        assert(t.contains(t[j]));
        assert(ranked.to_multiset().count(t[j]) > 0);
        assert(ranked.contains(t[j]));
        let p = choose|p: int| 0 <= p < ranked.len() && ranked[p] == t[j];
        if p < 3 {
            assert(b[p] == ranked[p]);
        } else {
            assert(!more_used()(ranked[p], ranked[2]));
        }
    }
}

} // verus!
