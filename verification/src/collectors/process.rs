//! The process table.
use vstd::prelude::*;
use crate::scan::{body_lines, body_lines_exec, filter_map, lemma_filter_map_step, lemma_take_all, num32_or, num32_or_exec, num_or, num_or_exec};
use crate::text::{chars_of, join, join_from, string_of, views, words, words_exec};
use crate::types::{ProcessInfo, ProcessInfoV};
use crate::utils::{hs, hs_text};

verus! {

/// The byte count of `kb` kibibytes, wrapping around at 2^64.
pub open spec fn kib_bytes(kb: int) -> nat {
    ((kb * 1024) % 0x1_0000_0000_0000_0000) as nat
}

/// The process that a line of `ps axo pid,ppid,user,%cpu,%mem,rss,vsz,state,nlwp,comm,lstart`
/// describes: a row of at least ten columns. Numbers that do not parse count
/// as 0 (as 1 for the thread count); the sizes are shown in human-readable
/// form; the start time is the eleventh column and all after it, joined with
/// spaces.
pub open spec fn ps_row(l: Seq<char>) -> Option<ProcessInfoV> {
    let c = words(l);
    if c.len() < 10 {
        None
    } else {
        Some(
            ProcessInfoV {
                pid: num32_or(c[0], 0) as u32,
                ppid: num32_or(c[1], 0) as u32,
                user: c[2],
                cpu: c[3],
                mem: c[4],
                rss: hs_text(kib_bytes(num_or(c[5], 0))),
                vsize: hs_text(kib_bytes(num_or(c[6], 0))),
                state: c[7],
                threads: num32_or(c[8], 1) as u32,
                command: c[9],
                started: if c.len() > 10 {
                    join(c.skip(10), " "@)
                } else {
                    seq![]
                },
            },
        )
    }
}

fn ps_row_exec(l: &Vec<char>) -> (r: Option<ProcessInfo>)
    ensures
        match r {
            Some(p) => ps_row(l@) == Some(p@),
            None => ps_row(l@) is None,
        },
{
    let c = words_exec(l);
    let ghost cv = views(c@);
    assert(forall|k: int| 0 <= k < c@.len() ==> cv[k] == c@[k]@);
    if c.len() < 10 {
        return None;
    }
    let rss_kb = num_or_exec(&c[5], 0);
    let vsz_kb = num_or_exec(&c[6], 0);
    let started = if c.len() > 10 {
        string_of(&join_from(&c, 10, &chars_of(" ")))
    } else {
        String::new()
    };
    Some(
        ProcessInfo {
            pid: num32_or_exec(&c[0], 0),
            ppid: num32_or_exec(&c[1], 0),
            user: string_of(&c[2]),
            cpu: string_of(&c[3]),
            mem: string_of(&c[4]),
            rss: hs(rss_kb.wrapping_mul(1024)),
            vsize: hs(vsz_kb.wrapping_mul(1024)),
            state: string_of(&c[7]),
            threads: num32_or_exec(&c[8], 1),
            command: string_of(&c[9]),
            started,
        },
    )
}

/// The process table from `ps axo pid,ppid,user,%cpu,%mem,rss,vsz,state,nlwp,comm,lstart`,
/// in the order of the rows.
pub fn collect_processes(text: &str) -> (r: Vec<ProcessInfo>)
    ensures
        r@.map_values(|p: ProcessInfo| p@) == filter_map(body_lines(text@), |l: Seq<char>| ps_row(l)),
{
    let rows = body_lines_exec(text);
    let ghost bl = body_lines(text@);
    let ghost f = |l: Seq<char>| ps_row(l);
    let mut out: Vec<ProcessInfo> = Vec::new();
    assert(bl.take(0) =~= Seq::<Seq<char>>::empty());
    assert(out@.map_values(|p: ProcessInfo| p@) =~= Seq::<ProcessInfoV>::empty());
    let mut i: usize = 0;
    while i < rows.len()
        invariant
            i <= rows@.len(),
            views(rows@) == bl,
            f == (|l: Seq<char>| ps_row(l)),
            out@.map_values(|p: ProcessInfo| p@) == filter_map(bl.take(i as int), f),
        decreases rows@.len() - i,
    {
        assert(rows@[i as int]@ == bl[i as int]);
        let ghost old_out = out@;
        proof {
            lemma_filter_map_step(bl, f, i as int);
        }
        if let Some(p) = ps_row_exec(&rows[i]) {
            out.push(p);
            assert(out@.map_values(|p: ProcessInfo| p@) =~= old_out.map_values(|p: ProcessInfo| p@).push(p@));
        }
        i += 1;
    }
    proof {
        lemma_take_all(bl);
    }
    out
}

} // verus!
