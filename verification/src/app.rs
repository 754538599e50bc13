//! State kept between refreshes: the refresh schedule and the bounded
//! histories behind the sparklines.
use vstd::prelude::*;
use crate::types::NetInterface;

verus! {

/// The number of tabs of the interface.
pub const TAB_COUNT: usize = 18;

/// The number of samples a history keeps.
pub const HISTORY_LEN: usize = 60;

/// What a refresh reads again besides memory, CPU, regions, disk activity and
/// network counters, which it reads every time.
#[derive(Debug, Clone, Copy, PartialEq, Eq, Structural)]
pub struct RefreshPlan {
    /// Open connections and the process list: every third refresh.
    pub connections: bool,
    /// Volumes, battery and thermal state: every fifth refresh.
    pub disks: bool,
    /// Launch services and Wi-Fi: every tenth refresh.
    pub services: bool,
    /// Cameras, graphics, disk hardware, Bluetooth, USB, Thunderbolt, audio
    /// and security settings: every thirtieth refresh.
    pub hardware: bool,
}

/// What the refresh numbered `tick` (counting from zero) reads again.
pub fn refresh_plan(tick: u64) -> (r: RefreshPlan)
    ensures
        r.connections == (tick % 3 == 0),
        r.disks == (tick % 5 == 0),
        r.services == (tick % 10 == 0),
        r.hardware == (tick % 30 == 0),
{
    RefreshPlan {
        connections: tick % 3 == 0,
        disks: tick % 5 == 0,
        services: tick % 10 == 0,
        hardware: tick % 30 == 0,
    }
}

/// `s` with `v` appended, and its oldest sample dropped when that makes it
/// longer than [`HISTORY_LEN`].
pub open spec fn pushed_capped<T>(s: Seq<T>, v: T) -> Seq<T> {
    let t = s.push(v);
    if t.len() > HISTORY_LEN { t.remove(0) } else { t }
}

/// Appends a sample to a history, dropping its oldest sample when it grows
/// longer than [`HISTORY_LEN`]. A history of at most [`HISTORY_LEN`]
/// samples stays so, and its last sample is the new one.
pub fn push_capped<T>(h: &mut Vec<T>, v: T)
    ensures
        final(h)@ == pushed_capped(old(h)@, v),
        old(h)@.len() <= HISTORY_LEN ==> final(h)@.len() <= HISTORY_LEN,
        final(h)@.len() > 0 && final(h)@.last() == v,
{
    h.push(v);
    if h.len() > HISTORY_LEN {
        h.remove(0);
    }
}

/// The sum of the received bytes of the interfaces.
pub open spec fn bytes_in_total(s: Seq<NetInterface>) -> int
    decreases s.len(),
{
    if s.len() == 0 { 0 } else { bytes_in_total(s.drop_last()) + s.last().bytes_in }
}

/// The sum of the sent bytes of the interfaces.
pub open spec fn bytes_out_total(s: Seq<NetInterface>) -> int
    decreases s.len(),
{
    if s.len() == 0 { 0 } else { bytes_out_total(s.drop_last()) + s.last().bytes_out }
}

proof fn lemma_totals_grow(s: Seq<NetInterface>, i: int)
    requires
        0 <= i <= s.len(),
    ensures
        bytes_in_total(s.take(i)) <= bytes_in_total(s),
        bytes_out_total(s.take(i)) <= bytes_out_total(s),
    decreases s.len() - i,
{
    if i < s.len() {
        lemma_totals_grow(s, i + 1);
        assert(s.take(i + 1).drop_last() =~= s.take(i));
    } else {
        assert(s.take(i) =~= s);
    }
}

/// The bytes received and sent over all interfaces, or `None` when either
/// sum does not fit in a `u64`.
pub fn traffic_totals(ifaces: &Vec<NetInterface>) -> (r: Option<(u64, u64)>)
    ensures
        r == (if bytes_in_total(ifaces@) <= u64::MAX && bytes_out_total(ifaces@) <= u64::MAX {
            Some((bytes_in_total(ifaces@) as u64, bytes_out_total(ifaces@) as u64))
        } else {
            None
        }),
{
    let mut tin: u64 = 0;
    let mut tout: u64 = 0;
    let mut i: usize = 0;
    assert(ifaces@.take(0) =~= Seq::<NetInterface>::empty());
    while i < ifaces.len()
        invariant
            i <= ifaces@.len(),
            tin == bytes_in_total(ifaces@.take(i as int)),
            tout == bytes_out_total(ifaces@.take(i as int)),
        decreases ifaces@.len() - i,
    {
        assert(ifaces@.take(i + 1).drop_last() =~= ifaces@.take(i as int));
        assert(ifaces@.take(i + 1).last() == ifaces@[i as int]);
        proof {
            lemma_totals_grow(ifaces@, i + 1);
        }
        match (tin.checked_add(ifaces[i].bytes_in), tout.checked_add(ifaces[i].bytes_out)) {
            (Some(a), Some(b)) => {
                tin = a;
                tout = b;
            },
            _ => {
                return None;
            },
        }
        i += 1;
    }
    assert(ifaces@.take(ifaces@.len() as int) =~= ifaces@);
    Some((tin, tout))
}

/// The traffic seen at the last refresh, and the bytes moved between
/// refreshes, received and sent, newest last.
#[derive(Debug, Clone)]
pub struct Bandwidth {
    pub prev_in: u64,
    pub prev_out: u64,
    pub in_history: Vec<u64>,
    pub out_history: Vec<u64>,
}

impl Bandwidth {
    /// No traffic seen yet, and empty histories.
    pub fn new() -> (r: Bandwidth)
        ensures
            r.wf(),
            r.prev_in == 0 && r.prev_out == 0,
            r.in_history@.len() == 0 && r.out_history@.len() == 0,
    {
        Bandwidth { prev_in: 0, prev_out: 0, in_history: Vec::new(), out_history: Vec::new() }
    }

    /// The two histories are equally long, and no longer than
    /// [`HISTORY_LEN`].
    pub open spec fn wf(&self) -> bool {
        &&& self.in_history@.len() == self.out_history@.len()
        &&& self.in_history@.len() <= HISTORY_LEN
    }

    /// Takes the totals of a refresh. Once traffic has been received, each
    /// history gets what the counter grew by since the last refresh (zero
    /// where it went back); the totals become the last seen.
    pub fn record(&mut self, total_in: u64, total_out: u64)
        ensures
            final(self).prev_in == total_in,
            final(self).prev_out == total_out,
            old(self).prev_in > 0 ==> {
                &&& final(self).in_history@ == pushed_capped(
                    old(self).in_history@,
                    (if total_in >= old(self).prev_in { total_in - old(self).prev_in } else { 0 }) as u64,
                )
                &&& final(self).out_history@ == pushed_capped(
                    old(self).out_history@,
                    (if total_out >= old(self).prev_out { total_out - old(self).prev_out } else { 0 }) as u64,
                )
            },
            old(self).prev_in == 0 ==> {
                &&& final(self).in_history@ == old(self).in_history@
                &&& final(self).out_history@ == old(self).out_history@
            },
            old(self).wf() ==> final(self).wf(),
    {
        if self.prev_in > 0 {
            push_capped(&mut self.in_history, total_in.saturating_sub(self.prev_in));
            push_capped(&mut self.out_history, total_out.saturating_sub(self.prev_out));
        }
        self.prev_in = total_in;
        self.prev_out = total_out;
    }
}

} // verus!
