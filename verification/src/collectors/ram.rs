//! Memory statistics: `vm_stat`, `top` and swap usage.
use vstd::prelude::*;
use crate::num::is_digit;
use crate::scan::{filter_map, lemma_filter_map_step, lits, num32_or, num32_or_exec, tlines, tlines_exec, last_hit, lemma_last_hit_step, colon_pair, colon_pair_exec, last_or, lemma_last_or_step, lemma_take_all, num_or, num_or_exec};
use crate::text::{lemma_find, last_word, last_word_exec, replace, replace_exec, words, words_exec, contains, contains_exec, nth_or_empty, nth_or_empty_exec, split, split_exec, string_of, trim, trim_exec, chars_of, eq_exec, find, find_exec, first_word, first_word_exec, lines, lines_exec, slice_of, starts_with, starts_with_exec, strip_end, strip_end_exec, views, CharClass};
use crate::types::{SwapInfo, TopStats, VmStatData};

verus! {

/// The banner line of `vm_stat`.
pub open spec fn vm_header(l: Seq<char>) -> bool {
    starts_with(l, "Mach Virtual Memory"@)
}

/// The page size that a banner line announces after `page size of `, or
/// 16384 when no number follows.
pub open spec fn page_size_rule() -> spec_fn(Seq<char>) -> Option<int> {
    |l: Seq<char>|
        if vm_header(l) && find(l, "page size of "@) >= 0 {
            Some(num_or(first_word(l.skip(find(l, "page size of "@) + "page size of "@.len())), 16384))
        } else {
            None
        }
}

/// A counter line of `vm_stat`: its key and its number (trailing periods
/// removed; 0 when it is not a number).
pub open spec fn vm_pair(l: Seq<char>) -> Option<(Seq<char>, int)> {
    if vm_header(l) {
        None
    } else {
        match colon_pair(l) {
            Some(kv) => Some((kv.0, num_or(strip_end(kv.1, CharClass::Exact('.')), 0))),
            None => None,
        }
    }
}

/// The rule "a counter line with this key gives its number".
pub open spec fn vm_rule(key: Seq<char>) -> spec_fn(Seq<char>) -> Option<int> {
    |l: Seq<char>|
        match vm_pair(l) {
            Some(p) => if p.0 == key {
                Some(p.1)
            } else {
                None
            },
            None => None,
        }
}

/// The page size that `vm_stat` reports: the last one announced, and 16384
/// when none is announced or it is 0.
pub open spec fn vm_page_size(ls: Seq<Seq<char>>) -> int {
    let v = last_or(ls, page_size_rule(), 0);
    if v == 0 {
        16384
    } else {
        v
    }
}

fn vm_pair_exec(l: &Vec<char>, header: &Vec<char>) -> (r: Option<(Vec<char>, u64)>)
    requires
        header@ == "Mach Virtual Memory"@,
    ensures
        match r {
            Some(p) => vm_pair(l@) == Some((p.0@, p.1 as int)),
            None => vm_pair(l@) is None,
        },
{
    if starts_with_exec(l, header) {
        return None;
    }
    match colon_pair_exec(l) {
        Some(kv) => {
            let v = strip_end_exec(&kv.1, CharClass::Exact('.'));
            Some((kv.0, num_or_exec(&v, 0)))
        },
        None => None,
    }
}

fn apply_vm(field: &mut u64, pair: &Option<(Vec<char>, u64)>, key: &Vec<char>)
    ensures
        match pair {
            Some(p) => if p.0@ == key@ {
                *final(field) == p.1
            } else {
                *final(field) == *old(field)
            },
            None => *final(field) == *old(field),
        },
{
    if let Some(p) = pair {
        if eq_exec(&p.0, key) {
            *field = p.1;
        }
    }
}

fn page_size_exec(l: &Vec<char>, header: &Vec<char>, marker: &Vec<char>) -> (r: Option<u64>)
    requires
        header@ == "Mach Virtual Memory"@,
        marker@ == "page size of "@,
    ensures
        match r {
            Some(v) => (page_size_rule())(l@) == Some(v as int),
            None => (page_size_rule())(l@) is None,
        },
{
    if !starts_with_exec(l, header) {
        return None;
    }
    match find_exec(l, marker, 0) {
        Some(p) => {
            proof {
                crate::text::lemma_find(l@, marker@);
            }
            let n = l.len();
            let rest = slice_of(l, p + marker.len(), n);
            assert(rest@ =~= l@.skip(p + marker@.len()));
            let w = first_word_exec(&rest);
            Some(num_or_exec(&w, 16384))
        },
        None => None,
    }
}

/// Page counters from `vm_stat`. Each counter is the number on the last line
/// whose key names it; the page size comes from the banner line.
pub fn parse_vm_stat(text: &str) -> (d: VmStatData)
    ensures
        d.page_size == vm_page_size(lines(text@)),
        d.free == last_or(lines(text@), vm_rule("Pages free"@), 0),
        d.active == last_or(lines(text@), vm_rule("Pages active"@), 0),
        d.inactive == last_or(lines(text@), vm_rule("Pages inactive"@), 0),
        d.speculative == last_or(lines(text@), vm_rule("Pages speculative"@), 0),
        d.wired == last_or(lines(text@), vm_rule("Pages wired down"@), 0),
        d.purgeable == last_or(lines(text@), vm_rule("Pages purgeable"@), 0),
        d.compressor == last_or(lines(text@), vm_rule("Pages stored in compressor"@), 0),
        d.pageins == last_or(lines(text@), vm_rule("Pageins"@), 0),
        d.pageouts == last_or(lines(text@), vm_rule("Pageouts"@), 0),
        d.faults == last_or(lines(text@), vm_rule("\"Translation faults\""@), 0),
        d.copy_on_write == last_or(lines(text@), vm_rule("Pages copy-on-write"@), 0),
        d.zero_fill == last_or(lines(text@), vm_rule("Pages zero filled"@), 0),
        d.compressions == last_or(lines(text@), vm_rule("Compressions"@), 0),
        d.decompressions == last_or(lines(text@), vm_rule("Decompressions"@), 0),
        d.swapins == last_or(lines(text@), vm_rule("Swapins"@), 0),
        d.swapouts == last_or(lines(text@), vm_rule("Swapouts"@), 0),
        d.throttled == last_or(lines(text@), vm_rule("Pages throttled"@), 0),
        d.reactivated == last_or(lines(text@), vm_rule("Pages reactivated"@), 0),
{
    let cs = chars_of(text);
    let ls = lines_exec(&cs);
    let ghost tl = lines(text@);
    let header = chars_of("Mach Virtual Memory");
    let marker = chars_of("page size of ");
    let k_free = chars_of("Pages free");
    let k_active = chars_of("Pages active");
    let k_inactive = chars_of("Pages inactive");
    let k_speculative = chars_of("Pages speculative");
    let k_wired = chars_of("Pages wired down");
    let k_purgeable = chars_of("Pages purgeable");
    let k_compressor = chars_of("Pages stored in compressor");
    let k_pageins = chars_of("Pageins");
    let k_pageouts = chars_of("Pageouts");
    let k_faults = chars_of("\"Translation faults\"");
    let k_copy_on_write = chars_of("Pages copy-on-write");
    let k_zero_fill = chars_of("Pages zero filled");
    let k_compressions = chars_of("Compressions");
    let k_decompressions = chars_of("Decompressions");
    let k_swapins = chars_of("Swapins");
    let k_swapouts = chars_of("Swapouts");
    let k_throttled = chars_of("Pages throttled");
    let k_reactivated = chars_of("Pages reactivated");
    let mut d = VmStatData {
        page_size: 0,
        free: 0,
        active: 0,
        inactive: 0,
        speculative: 0,
        wired: 0,
        purgeable: 0,
        compressor: 0,
        pageins: 0,
        pageouts: 0,
        faults: 0,
        copy_on_write: 0,
        zero_fill: 0,
        compressions: 0,
        decompressions: 0,
        swapins: 0,
        swapouts: 0,
        throttled: 0,
        reactivated: 0,
    };
    let mut i: usize = 0;
    while i < ls.len()
        invariant
            i <= ls@.len(),
            views(ls@) == tl,
            header@ == "Mach Virtual Memory"@,
            marker@ == "page size of "@,
            k_free@ == "Pages free"@,
            k_active@ == "Pages active"@,
            k_inactive@ == "Pages inactive"@,
            k_speculative@ == "Pages speculative"@,
            k_wired@ == "Pages wired down"@,
            k_purgeable@ == "Pages purgeable"@,
            k_compressor@ == "Pages stored in compressor"@,
            k_pageins@ == "Pageins"@,
            k_pageouts@ == "Pageouts"@,
            k_faults@ == "\"Translation faults\""@,
            k_copy_on_write@ == "Pages copy-on-write"@,
            k_zero_fill@ == "Pages zero filled"@,
            k_compressions@ == "Compressions"@,
            k_decompressions@ == "Decompressions"@,
            k_swapins@ == "Swapins"@,
            k_swapouts@ == "Swapouts"@,
            k_throttled@ == "Pages throttled"@,
            k_reactivated@ == "Pages reactivated"@,
            d.page_size == last_or(tl.take(i as int), page_size_rule(), 0),
            d.free == last_or(tl.take(i as int), vm_rule("Pages free"@), 0),
            d.active == last_or(tl.take(i as int), vm_rule("Pages active"@), 0),
            d.inactive == last_or(tl.take(i as int), vm_rule("Pages inactive"@), 0),
            d.speculative == last_or(tl.take(i as int), vm_rule("Pages speculative"@), 0),
            d.wired == last_or(tl.take(i as int), vm_rule("Pages wired down"@), 0),
            d.purgeable == last_or(tl.take(i as int), vm_rule("Pages purgeable"@), 0),
            d.compressor == last_or(tl.take(i as int), vm_rule("Pages stored in compressor"@), 0),
            d.pageins == last_or(tl.take(i as int), vm_rule("Pageins"@), 0),
            d.pageouts == last_or(tl.take(i as int), vm_rule("Pageouts"@), 0),
            d.faults == last_or(tl.take(i as int), vm_rule("\"Translation faults\""@), 0),
            d.copy_on_write == last_or(tl.take(i as int), vm_rule("Pages copy-on-write"@), 0),
            d.zero_fill == last_or(tl.take(i as int), vm_rule("Pages zero filled"@), 0),
            d.compressions == last_or(tl.take(i as int), vm_rule("Compressions"@), 0),
            d.decompressions == last_or(tl.take(i as int), vm_rule("Decompressions"@), 0),
            d.swapins == last_or(tl.take(i as int), vm_rule("Swapins"@), 0),
            d.swapouts == last_or(tl.take(i as int), vm_rule("Swapouts"@), 0),
            d.throttled == last_or(tl.take(i as int), vm_rule("Pages throttled"@), 0),
            d.reactivated == last_or(tl.take(i as int), vm_rule("Pages reactivated"@), 0),
        decreases ls@.len() - i,
    {
        assert(ls@[i as int]@ == tl[i as int]);
        if let Some(v) = page_size_exec(&ls[i], &header, &marker) {
            d.page_size = v;
        }
        let pair = vm_pair_exec(&ls[i], &header);
        apply_vm(&mut d.free, &pair, &k_free);
        apply_vm(&mut d.active, &pair, &k_active);
        apply_vm(&mut d.inactive, &pair, &k_inactive);
        apply_vm(&mut d.speculative, &pair, &k_speculative);
        apply_vm(&mut d.wired, &pair, &k_wired);
        apply_vm(&mut d.purgeable, &pair, &k_purgeable);
        apply_vm(&mut d.compressor, &pair, &k_compressor);
        apply_vm(&mut d.pageins, &pair, &k_pageins);
        apply_vm(&mut d.pageouts, &pair, &k_pageouts);
        apply_vm(&mut d.faults, &pair, &k_faults);
        apply_vm(&mut d.copy_on_write, &pair, &k_copy_on_write);
        apply_vm(&mut d.zero_fill, &pair, &k_zero_fill);
        apply_vm(&mut d.compressions, &pair, &k_compressions);
        apply_vm(&mut d.decompressions, &pair, &k_decompressions);
        apply_vm(&mut d.swapins, &pair, &k_swapins);
        apply_vm(&mut d.swapouts, &pair, &k_swapouts);
        apply_vm(&mut d.throttled, &pair, &k_throttled);
        apply_vm(&mut d.reactivated, &pair, &k_reactivated);
        proof {
            lemma_last_or_step(tl, page_size_rule(), 0, i as int);
            lemma_last_or_step(tl, vm_rule("Pages free"@), 0, i as int);
            lemma_last_or_step(tl, vm_rule("Pages active"@), 0, i as int);
            lemma_last_or_step(tl, vm_rule("Pages inactive"@), 0, i as int);
            lemma_last_or_step(tl, vm_rule("Pages speculative"@), 0, i as int);
            lemma_last_or_step(tl, vm_rule("Pages wired down"@), 0, i as int);
            lemma_last_or_step(tl, vm_rule("Pages purgeable"@), 0, i as int);
            lemma_last_or_step(tl, vm_rule("Pages stored in compressor"@), 0, i as int);
            lemma_last_or_step(tl, vm_rule("Pageins"@), 0, i as int);
            lemma_last_or_step(tl, vm_rule("Pageouts"@), 0, i as int);
            lemma_last_or_step(tl, vm_rule("\"Translation faults\""@), 0, i as int);
            lemma_last_or_step(tl, vm_rule("Pages copy-on-write"@), 0, i as int);
            lemma_last_or_step(tl, vm_rule("Pages zero filled"@), 0, i as int);
            lemma_last_or_step(tl, vm_rule("Compressions"@), 0, i as int);
            lemma_last_or_step(tl, vm_rule("Decompressions"@), 0, i as int);
            lemma_last_or_step(tl, vm_rule("Swapins"@), 0, i as int);
            lemma_last_or_step(tl, vm_rule("Swapouts"@), 0, i as int);
            lemma_last_or_step(tl, vm_rule("Pages throttled"@), 0, i as int);
            lemma_last_or_step(tl, vm_rule("Pages reactivated"@), 0, i as int);
        }
        i += 1;
    }
    proof {
        lemma_take_all(tl);
    }
    if d.page_size == 0 {
        d.page_size = 16384;
    }
    d
}

} // verus!

verus! {

/// The rule "a part starting with `key` gives the trimmed text after its first
/// `=`".
pub open spec fn swap_rule(key: Seq<char>) -> spec_fn(Seq<char>) -> Option<Seq<char>> {
    |p: Seq<char>|
        if starts_with(p, key) {
            Some(trim(nth_or_empty(split(p, "="@), 1)))
        } else {
            None
        }
}

/// The trimmed pieces of `text` between runs of two spaces.
pub open spec fn swap_parts(text: Seq<char>) -> Seq<Seq<char>> {
    split(text, "  "@).map_values(|p: Seq<char>| trim(p))
}

fn apply_swap(field: &mut String, p: &Vec<char>, key: &Vec<char>, eq: &Vec<char>)
    requires
        eq@ == "="@,
    ensures
        match (swap_rule(key@))(p@) {
            Some(v) => final(field)@ == v,
            None => final(field)@ == old(field)@,
        },
{
    if starts_with_exec(p, key) {
        let ps = split_exec(p, eq);
        let v = nth_or_empty_exec(&ps, 1);
        *field = string_of(&trim_exec(&v));
    }
}

/// Swap usage from the value of `sysctl vm.swapusage`, e.g.
/// `total = 2048.00M  used = 1024.00M  free = 1024.00M  (encrypted)`.
pub fn parse_swap(text: &str) -> (s: SwapInfo)
    ensures
        s.total@ == last_hit(swap_parts(text@), swap_rule("total"@)),
        s.used@ == last_hit(swap_parts(text@), swap_rule("used"@)),
        s.free@ == last_hit(swap_parts(text@), swap_rule("free"@)),
        s.encrypted == contains(text@, "encrypted"@),
{
    let cs = chars_of(text);
    let sep = chars_of("  ");
    let eq = chars_of("=");
    let k_total = chars_of("total");
    let k_used = chars_of("used");
    let k_free = chars_of("free");
    let ps = split_exec(&cs, &sep);
    let ghost tp = swap_parts(text@);
    let mut s = SwapInfo { total: String::new(), used: String::new(), free: String::new(), encrypted: false };
    let mut i: usize = 0;
    while i < ps.len()
        invariant
            i <= ps@.len(),
            views(ps@) == split(text@, "  "@),
            tp == swap_parts(text@),
            eq@ == "="@,
            k_total@ == "total"@,
            k_used@ == "used"@,
            k_free@ == "free"@,
            s.total@ == last_hit(tp.take(i as int), swap_rule("total"@)),
            s.used@ == last_hit(tp.take(i as int), swap_rule("used"@)),
            s.free@ == last_hit(tp.take(i as int), swap_rule("free"@)),
        decreases ps@.len() - i,
    {
        let p = trim_exec(&ps[i]);
        assert(p@ == tp[i as int]) by {
            assert(views(ps@)[i as int] == ps@[i as int]@);
        }
        apply_swap(&mut s.total, &p, &k_total, &eq);
        apply_swap(&mut s.used, &p, &k_used, &eq);
        apply_swap(&mut s.free, &p, &k_free, &eq);
        proof {
            lemma_last_hit_step(tp, swap_rule("total"@), i as int);
            lemma_last_hit_step(tp, swap_rule("used"@), i as int);
            lemma_last_hit_step(tp, swap_rule("free"@), i as int);
        }
        i += 1;
    }
    proof {
        lemma_take_all(tp);
    }
    let enc = chars_of("encrypted");
    s.encrypted = contains_exec(&cs, &enc);
    s
}

} // verus!

verus! {

/// The section of `top` output that a trimmed line belongs to: 1 for
/// `Processes:`, 2 for `CPU usage:`, 3 for `PhysMem:`, 4 for `MemRegions:`,
/// 5 for `SharedLibs:`, 6 for `Networks:`, 7 for `Disks:`, 8 for a process
/// row (a line starting with a digit), 0 for any other line.
pub open spec fn top_section(l: Seq<char>) -> int {
    if starts_with(l, "Processes:"@) {
        1
    } else if starts_with(l, "CPU usage:"@) {
        2
    } else if starts_with(l, "PhysMem:"@) {
        3
    } else if starts_with(l, "MemRegions:"@) {
        4
    } else if starts_with(l, "SharedLibs:"@) {
        5
    } else if starts_with(l, "Networks:"@) {
        6
    } else if starts_with(l, "Disks:"@) {
        7
    } else if l.len() > 0 && is_digit(l[0]) {
        8
    } else {
        0
    }
}

/// The length of the heading of a section.
pub open spec fn top_heading_len(sec: int) -> int {
    if sec == 1 {
        "Processes:"@.len() as int
    } else if sec == 2 {
        "CPU usage:"@.len() as int
    } else if sec == 3 {
        "PhysMem:"@.len() as int
    } else if sec == 4 || sec == 5 {
        "MemRegions:"@.len() as int
    } else if sec == 6 {
        "Networks:"@.len() as int
    } else if sec == 7 {
        "Disks:"@.len() as int
    } else {
        0
    }
}

/// The comma-separated parts of a section line after its heading, trimmed.
pub open spec fn top_parts(l: Seq<char>) -> Seq<Seq<char>> {
    split(l.skip(top_heading_len(top_section(l))), ","@).map_values(|p: Seq<char>| trim(p))
}

/// What the last of the parts `ps` for which `f` gives a value says.
pub open spec fn last_opt<A>(ps: Seq<Seq<char>>, f: spec_fn(Seq<char>) -> Option<A>) -> Option<A>
    decreases ps.len(),
{
    if ps.len() == 0 {
        None
    } else {
        match f(ps.last()) {
            Some(v) => Some(v),
            None => last_opt(ps.drop_last(), f),
        }
    }
}

/// The rule "a line of section `sec` gives what the last of its parts says
/// under `f`".
pub open spec fn top_rule<A>(sec: int, f: spec_fn(Seq<char>) -> Option<A>) -> spec_fn(Seq<char>) -> Option<A> {
    |l: Seq<char>|
        if top_section(l) == sec {
            last_opt(top_parts(l), f)
        } else {
            None
        }
}

/// A part holding `key` gives its first word.
pub open spec fn word_if(key: Seq<char>) -> spec_fn(Seq<char>) -> Option<Seq<char>> {
    |p: Seq<char>|
        if contains(p, key) {
            Some(first_word(p))
        } else {
            None
        }
}

/// A part holding `key` gives its first word without `%` signs.
pub open spec fn pct_if(key: Seq<char>) -> spec_fn(Seq<char>) -> Option<Seq<char>> {
    |p: Seq<char>|
        if contains(p, key) {
            Some(first_word(replace(p, "%"@, seq![])))
        } else {
            None
        }
}

/// A part whose second word is `used` gives its first word.
pub open spec fn used_if() -> spec_fn(Seq<char>) -> Option<Seq<char>> {
    |p: Seq<char>|
        if words(p).len() >= 2 && words(p)[1] == "used"@ {
            Some(first_word(p))
        } else {
            None
        }
}

/// What follows the first `(` of `p`, or all of `p` when it has none.
pub open spec fn after_paren(p: Seq<char>) -> Seq<char> {
    if find(p, "("@) < 0 {
        p
    } else {
        p.skip(find(p, "("@) + 1)
    }
}

/// A part holding `wired` gives the first word after its opening bracket
/// (its first word when it has none).
pub open spec fn wired_if() -> spec_fn(Seq<char>) -> Option<Seq<char>> {
    |p: Seq<char>|
        if contains(p, "wired"@) {
            Some(first_word(after_paren(p)))
        } else {
            None
        }
}

/// A part holding `key` gives the number of its first word (0 when it is not
/// a `u32`).
pub open spec fn num32_if(key: Seq<char>) -> spec_fn(Seq<char>) -> Option<int> {
    |p: Seq<char>|
        if contains(p, key) {
            Some(num32_or(first_word(p), 0))
        } else {
            None
        }
}

/// A part holding `key` gives the number of its first word (0 when it is not
/// a `u64`).
pub open spec fn num_if(key: Seq<char>) -> spec_fn(Seq<char>) -> Option<int> {
    |p: Seq<char>|
        if contains(p, key) {
            Some(num_or(first_word(p), 0))
        } else {
            None
        }
}

/// A part `count/size ...` holding `key` gives the last word before the slash
/// (or, with `second`, the first word after it).
pub open spec fn slash_if(key: Seq<char>, second: bool) -> spec_fn(Seq<char>) -> Option<Seq<char>> {
    |p: Seq<char>|
        if contains(p, key) && split(p, "/"@).len() >= 2 {
            if second {
                Some(first_word(split(p, "/"@)[1]))
            } else {
                Some(last_word(split(p, "/"@)[0]))
            }
        } else {
            None
        }
}

/// A process row with at least four columns gives its second, third and
/// fourth columns.
pub open spec fn top_proc_row(l: Seq<char>) -> Option<(Seq<char>, Seq<char>, Seq<char>)> {
    if top_section(l) == 8 && words(l).len() >= 4 {
        Some((words(l)[1], words(l)[2], words(l)[3]))
    } else {
        None
    }
}

pub proof fn lemma_last_opt_step<A>(ps: Seq<Seq<char>>, f: spec_fn(Seq<char>) -> Option<A>, j: int)
    requires
        0 <= j < ps.len(),
    ensures
        last_opt(ps.take(j + 1), f) == match f(ps[j]) {
            Some(v) => Some(v),
            None => last_opt(ps.take(j), f),
        },
{
    assert(ps.take(j + 1).drop_last() =~= ps.take(j));
    assert(ps.take(j + 1).last() == ps[j]);
}

fn word_if_exec(parts: &Vec<Vec<char>>, key: &Vec<char>, field: &mut String)
    ensures
        final(field)@ == match last_opt(views(parts@), word_if(key@)) {
            Some(v) => v,
            None => old(field)@,
        },
{
    let ghost pv = views(parts@);
    let ghost start = field@;
    assert(pv.take(0) =~= Seq::<Seq<char>>::empty());
    let mut j: usize = 0;
    while j < parts.len()
        invariant
            j <= parts@.len(),
            pv == views(parts@),
            field@ == match last_opt(pv.take(j as int), word_if(key@)) {
                Some(v) => v,
                None => start,
            },
        decreases parts@.len() - j,
    {
        assert(pv[j as int] == parts@[j as int]@);
        proof {
            lemma_last_opt_step(pv, word_if(key@), j as int);
        }
        if contains_exec(&parts[j], key) {
            *field = string_of(&first_word_exec(&parts[j]));
        }
        j += 1;
    }
    proof {
        lemma_take_all(pv);
    }
}

fn pct_if_exec(parts: &Vec<Vec<char>>, key: &Vec<char>, field: &mut String)
    ensures
        final(field)@ == match last_opt(views(parts@), pct_if(key@)) {
            Some(v) => v,
            None => old(field)@,
        },
{
    let ghost pv = views(parts@);
    let ghost start = field@;
    let pct = chars_of("%");
    let empty: Vec<char> = Vec::new();
    assert(empty@ =~= Seq::<char>::empty());
    assert(pv.take(0) =~= Seq::<Seq<char>>::empty());
    let mut j: usize = 0;
    while j < parts.len()
        invariant
            j <= parts@.len(),
            pv == views(parts@),
            pct@ == "%"@,
            empty@ == Seq::<char>::empty(),
            field@ == match last_opt(pv.take(j as int), pct_if(key@)) {
                Some(v) => v,
                None => start,
            },
        decreases parts@.len() - j,
    {
        assert(pv[j as int] == parts@[j as int]@);
        proof {
            lemma_last_opt_step(pv, pct_if(key@), j as int);
        }
        if contains_exec(&parts[j], key) {
            *field = string_of(&first_word_exec(&replace_exec(&parts[j], &pct, &empty)));
        }
        j += 1;
    }
    proof {
        lemma_take_all(pv);
    }
}

fn wired_if_exec(parts: &Vec<Vec<char>>, field: &mut String)
    ensures
        final(field)@ == match last_opt(views(parts@), wired_if()) {
            Some(v) => v,
            None => old(field)@,
        },
{
    let ghost pv = views(parts@);
    let ghost start = field@;
    let key = chars_of("wired");
    let paren = chars_of("(");
    assert(pv.take(0) =~= Seq::<Seq<char>>::empty());
    let mut j: usize = 0;
    while j < parts.len()
        invariant
            j <= parts@.len(),
            pv == views(parts@),
            key@ == "wired"@,
            paren@ == "("@,
            field@ == match last_opt(pv.take(j as int), wired_if()) {
                Some(v) => v,
                None => start,
            },
        decreases parts@.len() - j,
    {
        assert(pv[j as int] == parts@[j as int]@);
        proof {
            lemma_last_opt_step(pv, wired_if(), j as int);
        }
        if contains_exec(&parts[j], &key) {
            let found = find_exec(&parts[j], &paren, 0);
            proof {
                reveal_strlit("(");
                lemma_find(pv[j as int], "("@);
            }
            let rest = match found {
                Some(k) => {
                    let n = parts[j].len();
                    assert(k + 1 <= n);
                    slice_of(&parts[j], k + 1, n)
                },
                None => slice_of(&parts[j], 0, parts[j].len()),
            };
            proof {
                lemma_find(pv[j as int], "("@);
                assert(parts@[j as int]@.skip(0) =~= parts@[j as int]@);
                if find(pv[j as int], "("@) >= 0 {
                    assert(rest@ =~= pv[j as int].skip(find(pv[j as int], "("@) + 1));
                } else {
                    assert(rest@ =~= pv[j as int]);
                }
            }
            *field = string_of(&first_word_exec(&rest));
        }
        j += 1;
    }
    proof {
        lemma_take_all(pv);
    }
}

fn used_if_exec(parts: &Vec<Vec<char>>, field: &mut String)
    ensures
        final(field)@ == match last_opt(views(parts@), used_if()) {
            Some(v) => v,
            None => old(field)@,
        },
{
    let ghost pv = views(parts@);
    let ghost start = field@;
    let used = chars_of("used");
    assert(pv.take(0) =~= Seq::<Seq<char>>::empty());
    let mut j: usize = 0;
    while j < parts.len()
        invariant
            j <= parts@.len(),
            pv == views(parts@),
            used@ == "used"@,
            field@ == match last_opt(pv.take(j as int), used_if()) {
                Some(v) => v,
                None => start,
            },
        decreases parts@.len() - j,
    {
        assert(pv[j as int] == parts@[j as int]@);
        proof {
            lemma_last_opt_step(pv, used_if(), j as int);
        }
        let ws = words_exec(&parts[j]);
        if ws.len() >= 2 && eq_exec(&ws[1], &used) {
            assert(views(ws@)[1] == ws@[1]@);
            *field = string_of(&nth_or_empty_exec(&ws, 0));
        } else {
            proof {
                if ws@.len() >= 2 {
                    assert(views(ws@)[1] == ws@[1]@);
                }
            }
        }
        j += 1;
    }
    proof {
        lemma_take_all(pv);
    }
}

fn num32_if_exec(parts: &Vec<Vec<char>>, key: &Vec<char>, field: &mut u32)
    ensures
        *final(field) == match last_opt(views(parts@), num32_if(key@)) {
            Some(v) => v,
            None => *old(field) as int,
        },
{
    let ghost pv = views(parts@);
    let ghost start = *field as int;
    assert(pv.take(0) =~= Seq::<Seq<char>>::empty());
    let mut j: usize = 0;
    while j < parts.len()
        invariant
            j <= parts@.len(),
            pv == views(parts@),
            *field == match last_opt(pv.take(j as int), num32_if(key@)) {
                Some(v) => v,
                None => start,
            },
        decreases parts@.len() - j,
    {
        assert(pv[j as int] == parts@[j as int]@);
        proof {
            lemma_last_opt_step(pv, num32_if(key@), j as int);
        }
        if contains_exec(&parts[j], key) {
            *field = num32_or_exec(&first_word_exec(&parts[j]), 0);
        }
        j += 1;
    }
    proof {
        lemma_take_all(pv);
    }
}

fn num_if_exec(parts: &Vec<Vec<char>>, key: &Vec<char>, field: &mut u64)
    ensures
        *final(field) == match last_opt(views(parts@), num_if(key@)) {
            Some(v) => v,
            None => *old(field) as int,
        },
{
    let ghost pv = views(parts@);
    let ghost start = *field as int;
    assert(pv.take(0) =~= Seq::<Seq<char>>::empty());
    let mut j: usize = 0;
    while j < parts.len()
        invariant
            j <= parts@.len(),
            pv == views(parts@),
            *field == match last_opt(pv.take(j as int), num_if(key@)) {
                Some(v) => v,
                None => start,
            },
        decreases parts@.len() - j,
    {
        assert(pv[j as int] == parts@[j as int]@);
        proof {
            lemma_last_opt_step(pv, num_if(key@), j as int);
        }
        if contains_exec(&parts[j], key) {
            *field = num_or_exec(&first_word_exec(&parts[j]), 0);
        }
        j += 1;
    }
    proof {
        lemma_take_all(pv);
    }
}

fn slash_if_exec(parts: &Vec<Vec<char>>, key: &Vec<char>, second: bool, field: &mut String)
    ensures
        final(field)@ == match last_opt(views(parts@), slash_if(key@, second)) {
            Some(v) => v,
            None => old(field)@,
        },
{
    let ghost pv = views(parts@);
    let ghost start = field@;
    let slash = chars_of("/");
    assert(pv.take(0) =~= Seq::<Seq<char>>::empty());
    let mut j: usize = 0;
    while j < parts.len()
        invariant
            j <= parts@.len(),
            pv == views(parts@),
            slash@ == "/"@,
            field@ == match last_opt(pv.take(j as int), slash_if(key@, second)) {
                Some(v) => v,
                None => start,
            },
        decreases parts@.len() - j,
    {
        assert(pv[j as int] == parts@[j as int]@);
        proof {
            lemma_last_opt_step(pv, slash_if(key@, second), j as int);
        }
        if contains_exec(&parts[j], key) {
            let w = split_exec(&parts[j], &slash);
            if w.len() >= 2 {
                assert(views(w@)[0] == w@[0]@ && views(w@)[1] == w@[1]@);
                if second {
                    *field = string_of(&first_word_exec(&w[1]));
                } else {
                    *field = string_of(&last_word_exec(&w[0]));
                }
            }
        }
        j += 1;
    }
    proof {
        lemma_take_all(pv);
    }
}

fn top_section_exec(l: &Vec<char>, heads: &Vec<Vec<char>>) -> (r: u8)
    requires
        heads@.len() == 7,
        heads@[0]@ == "Processes:"@,
        heads@[1]@ == "CPU usage:"@,
        heads@[2]@ == "PhysMem:"@,
        heads@[3]@ == "MemRegions:"@,
        heads@[4]@ == "SharedLibs:"@,
        heads@[5]@ == "Networks:"@,
        heads@[6]@ == "Disks:"@,
    ensures
        r as int == top_section(l@),
{
    if starts_with_exec(l, &heads[0]) {
        1
    } else if starts_with_exec(l, &heads[1]) {
        2
    } else if starts_with_exec(l, &heads[2]) {
        3
    } else if starts_with_exec(l, &heads[3]) {
        4
    } else if starts_with_exec(l, &heads[4]) {
        5
    } else if starts_with_exec(l, &heads[5]) {
        6
    } else if starts_with_exec(l, &heads[6]) {
        7
    } else if l.len() > 0 && '0' <= l[0] && l[0] <= '9' {
        8
    } else {
        0
    }
}

fn top_parts_exec(l: &Vec<char>, sec: u8, heads: &Vec<Vec<char>>) -> (r: Vec<Vec<char>>)
    requires
        heads@.len() == 7,
        heads@[0]@ == "Processes:"@,
        heads@[1]@ == "CPU usage:"@,
        heads@[2]@ == "PhysMem:"@,
        heads@[3]@ == "MemRegions:"@,
        heads@[4]@ == "SharedLibs:"@,
        heads@[5]@ == "Networks:"@,
        heads@[6]@ == "Disks:"@,
        sec as int == top_section(l@),
        1 <= sec <= 7,
    ensures
        views(r@) == top_parts(l@),
{
    let skip: usize = if sec == 1 {
        heads[0].len()
    } else if sec == 2 {
        heads[1].len()
    } else if sec == 3 {
        heads[2].len()
    } else if sec == 4 || sec == 5 {
        heads[3].len()
    } else if sec == 6 {
        heads[5].len()
    } else if sec == 7 {
        heads[6].len()
    } else {
        0
    };
    proof {
        if sec >= 1 {
            assert(starts_with(l@, heads@[(sec - 1) as int]@));
        }
        if sec == 5 {
            reveal_strlit("MemRegions:");
            reveal_strlit("SharedLibs:");
        }
    }
    let rest = slice_of(l, skip, l.len());
    assert(rest@ =~= l@.skip(top_heading_len(top_section(l@))));
    let ps = split_exec(&rest, &chars_of(","));
    let ghost want = top_parts(l@);
    let mut out: Vec<Vec<char>> = Vec::new();
    let mut j: usize = 0;
    while j < ps.len()
        invariant
            j <= ps@.len(),
            views(ps@) == split(l@.skip(top_heading_len(top_section(l@))), ","@),
            want == top_parts(l@),
            views(out@) == want.take(j as int),
        decreases ps@.len() - j,
    {
        let ghost old_out = out@;
        out.push(trim_exec(&ps[j]));
        assert(views(out@) =~= want.take(j + 1)) by {
            assert(views(ps@)[j as int] == ps@[j as int]@);
            assert(views(out@) =~= views(old_out).push(trim(ps@[j as int]@)));
        }
        j += 1;
    }
    proof {
        lemma_take_all(want);
    }
    out
}

/// The summary that `top -l 1 -n 10 -stats pid,command,rsize,cpu` prints.
/// Each field comes from the last part (of the last line of its section, after
/// its heading) that mentions it; used memory from the part whose second word
/// is `used`, wired memory from the first word after the bracket of the part
/// that mentions `wired`. The process rows are listed in order.
pub fn parse_top(text: &str) -> (s: TopStats)
    ensures
        s.processes == last_or(tlines(text@), top_rule(1, num32_if("total"@)), 0),
        s.running == last_or(tlines(text@), top_rule(1, num32_if("running"@)), 0),
        s.sleeping == last_or(tlines(text@), top_rule(1, num32_if("sleeping"@)), 0),
        s.threads == last_or(tlines(text@), top_rule(1, num32_if("threads"@)), 0),
        s.cpu_user@ == last_or(tlines(text@), top_rule(2, pct_if("user"@)), seq![]),
        s.cpu_sys@ == last_or(tlines(text@), top_rule(2, pct_if("sys"@)), seq![]),
        s.cpu_idle@ == last_or(tlines(text@), top_rule(2, pct_if("idle"@)), seq![]),
        s.phys_used@ == last_or(tlines(text@), top_rule(3, used_if()), seq![]),
        s.phys_wired@ == last_or(tlines(text@), top_rule(3, wired_if()), seq![]),
        s.phys_compressor@ == last_or(tlines(text@), top_rule(3, word_if("compressor"@)), seq![]),
        s.phys_unused@ == last_or(tlines(text@), top_rule(3, word_if("unused"@)), seq![]),
        s.mem_regions_total == last_or(tlines(text@), top_rule(4, num_if("total"@)), 0),
        s.mem_regions_resident@ == last_or(tlines(text@), top_rule(4, word_if("resident"@)), seq![]),
        s.mem_regions_private@ == last_or(tlines(text@), top_rule(4, word_if("private"@)), seq![]),
        s.mem_regions_shared@ == last_or(tlines(text@), top_rule(4, word_if("shared"@)), seq![]),
        s.sharedlibs_resident@ == last_or(tlines(text@), top_rule(5, word_if("resident"@)), seq![]),
        s.sharedlibs_data@ == last_or(tlines(text@), top_rule(5, word_if("data"@)), seq![]),
        s.net_packets_in@ == last_or(tlines(text@), top_rule(6, slash_if("in"@, false)), seq![]),
        s.net_bytes_in@ == last_or(tlines(text@), top_rule(6, slash_if("in"@, true)), seq![]),
        s.net_packets_out@ == last_or(tlines(text@), top_rule(6, slash_if("out"@, false)), seq![]),
        s.net_bytes_out@ == last_or(tlines(text@), top_rule(6, slash_if("out"@, true)), seq![]),
        s.disk_reads@ == last_or(tlines(text@), top_rule(7, slash_if("read"@, false)), seq![]),
        s.disk_read_bytes@ == last_or(tlines(text@), top_rule(7, slash_if("read"@, true)), seq![]),
        s.disk_writes@ == last_or(tlines(text@), top_rule(7, slash_if("written"@, false)), seq![]),
        s.disk_write_bytes@ == last_or(tlines(text@), top_rule(7, slash_if("written"@, true)), seq![]),
        s.vm_vsize@ == Seq::<char>::empty(),
        s.top_procs@.map_values(|t: (String, String, String)| (t.0@, t.1@, t.2@)) == filter_map(
            tlines(text@),
            |l: Seq<char>| top_proc_row(l),
        ),
{
    let ls = tlines_exec(text);
    let ghost tl = tlines(text@);
    let heads = lits(&["Processes:", "CPU usage:", "PhysMem:", "MemRegions:", "SharedLibs:", "Networks:", "Disks:"]);
    let mut s = TopStats {
        processes: 0,
        running: 0,
        sleeping: 0,
        threads: 0,
        cpu_user: String::new(),
        cpu_sys: String::new(),
        cpu_idle: String::new(),
        phys_used: String::new(),
        phys_wired: String::new(),
        phys_compressor: String::new(),
        phys_unused: String::new(),
        mem_regions_total: 0,
        mem_regions_resident: String::new(),
        mem_regions_private: String::new(),
        mem_regions_shared: String::new(),
        sharedlibs_resident: String::new(),
        sharedlibs_data: String::new(),
        net_packets_in: String::new(),
        net_bytes_in: String::new(),
        net_packets_out: String::new(),
        net_bytes_out: String::new(),
        disk_reads: String::new(),
        disk_read_bytes: String::new(),
        disk_writes: String::new(),
        disk_write_bytes: String::new(),
        vm_vsize: String::new(),
        top_procs: Vec::new(),
    };
    let ghost fp = |l: Seq<char>| top_proc_row(l);
    assert(tl.take(0) =~= Seq::<Seq<char>>::empty());
    assert(s.top_procs@.map_values(|t: (String, String, String)| (t.0@, t.1@, t.2@)) =~= Seq::<(Seq<char>, Seq<char>, Seq<char>)>::empty());
    let mut i: usize = 0;
    while i < ls.len()
        invariant
            i <= ls@.len(),
            views(ls@) == tl,
            heads@.len() == 7,
            heads@[0]@ == "Processes:"@,
            heads@[1]@ == "CPU usage:"@,
            heads@[2]@ == "PhysMem:"@,
            heads@[3]@ == "MemRegions:"@,
            heads@[4]@ == "SharedLibs:"@,
            heads@[5]@ == "Networks:"@,
            heads@[6]@ == "Disks:"@,
            fp == (|l: Seq<char>| top_proc_row(l)),
            s.vm_vsize@ == Seq::<char>::empty(),
            s.processes == last_or(tl.take(i as int), top_rule(1, num32_if("total"@)), 0),
            s.running == last_or(tl.take(i as int), top_rule(1, num32_if("running"@)), 0),
            s.sleeping == last_or(tl.take(i as int), top_rule(1, num32_if("sleeping"@)), 0),
            s.threads == last_or(tl.take(i as int), top_rule(1, num32_if("threads"@)), 0),
            s.cpu_user@ == last_or(tl.take(i as int), top_rule(2, pct_if("user"@)), seq![]),
            s.cpu_sys@ == last_or(tl.take(i as int), top_rule(2, pct_if("sys"@)), seq![]),
            s.cpu_idle@ == last_or(tl.take(i as int), top_rule(2, pct_if("idle"@)), seq![]),
            s.phys_used@ == last_or(tl.take(i as int), top_rule(3, used_if()), seq![]),
            s.phys_wired@ == last_or(tl.take(i as int), top_rule(3, wired_if()), seq![]),
            s.phys_compressor@ == last_or(tl.take(i as int), top_rule(3, word_if("compressor"@)), seq![]),
            s.phys_unused@ == last_or(tl.take(i as int), top_rule(3, word_if("unused"@)), seq![]),
            s.mem_regions_total == last_or(tl.take(i as int), top_rule(4, num_if("total"@)), 0),
            s.mem_regions_resident@ == last_or(tl.take(i as int), top_rule(4, word_if("resident"@)), seq![]),
            s.mem_regions_private@ == last_or(tl.take(i as int), top_rule(4, word_if("private"@)), seq![]),
            s.mem_regions_shared@ == last_or(tl.take(i as int), top_rule(4, word_if("shared"@)), seq![]),
            s.sharedlibs_resident@ == last_or(tl.take(i as int), top_rule(5, word_if("resident"@)), seq![]),
            s.sharedlibs_data@ == last_or(tl.take(i as int), top_rule(5, word_if("data"@)), seq![]),
            s.net_packets_in@ == last_or(tl.take(i as int), top_rule(6, slash_if("in"@, false)), seq![]),
            s.net_bytes_in@ == last_or(tl.take(i as int), top_rule(6, slash_if("in"@, true)), seq![]),
            s.net_packets_out@ == last_or(tl.take(i as int), top_rule(6, slash_if("out"@, false)), seq![]),
            s.net_bytes_out@ == last_or(tl.take(i as int), top_rule(6, slash_if("out"@, true)), seq![]),
            s.disk_reads@ == last_or(tl.take(i as int), top_rule(7, slash_if("read"@, false)), seq![]),
            s.disk_read_bytes@ == last_or(tl.take(i as int), top_rule(7, slash_if("read"@, true)), seq![]),
            s.disk_writes@ == last_or(tl.take(i as int), top_rule(7, slash_if("written"@, false)), seq![]),
            s.disk_write_bytes@ == last_or(tl.take(i as int), top_rule(7, slash_if("written"@, true)), seq![]),
            s.top_procs@.map_values(|t: (String, String, String)| (t.0@, t.1@, t.2@)) == filter_map(tl.take(i as int), fp),
        decreases ls@.len() - i,
    {
        let l = &ls[i];
        assert(l@ == tl[i as int]);
        proof {
            lemma_last_or_step(tl, top_rule(1, num32_if("total"@)), 0, i as int);
            lemma_last_or_step(tl, top_rule(1, num32_if("running"@)), 0, i as int);
            lemma_last_or_step(tl, top_rule(1, num32_if("sleeping"@)), 0, i as int);
            lemma_last_or_step(tl, top_rule(1, num32_if("threads"@)), 0, i as int);
            lemma_last_or_step(tl, top_rule(2, pct_if("user"@)), seq![], i as int);
            lemma_last_or_step(tl, top_rule(2, pct_if("sys"@)), seq![], i as int);
            lemma_last_or_step(tl, top_rule(2, pct_if("idle"@)), seq![], i as int);
            lemma_last_or_step(tl, top_rule(3, used_if()), seq![], i as int);
            lemma_last_or_step(tl, top_rule(3, wired_if()), seq![], i as int);
            lemma_last_or_step(tl, top_rule(3, word_if("compressor"@)), seq![], i as int);
            lemma_last_or_step(tl, top_rule(3, word_if("unused"@)), seq![], i as int);
            lemma_last_or_step(tl, top_rule(4, num_if("total"@)), 0, i as int);
            lemma_last_or_step(tl, top_rule(4, word_if("resident"@)), seq![], i as int);
            lemma_last_or_step(tl, top_rule(4, word_if("private"@)), seq![], i as int);
            lemma_last_or_step(tl, top_rule(4, word_if("shared"@)), seq![], i as int);
            lemma_last_or_step(tl, top_rule(5, word_if("resident"@)), seq![], i as int);
            lemma_last_or_step(tl, top_rule(5, word_if("data"@)), seq![], i as int);
            lemma_last_or_step(tl, top_rule(6, slash_if("in"@, false)), seq![], i as int);
            lemma_last_or_step(tl, top_rule(6, slash_if("in"@, true)), seq![], i as int);
            lemma_last_or_step(tl, top_rule(6, slash_if("out"@, false)), seq![], i as int);
            lemma_last_or_step(tl, top_rule(6, slash_if("out"@, true)), seq![], i as int);
            lemma_last_or_step(tl, top_rule(7, slash_if("read"@, false)), seq![], i as int);
            lemma_last_or_step(tl, top_rule(7, slash_if("read"@, true)), seq![], i as int);
            lemma_last_or_step(tl, top_rule(7, slash_if("written"@, false)), seq![], i as int);
            lemma_last_or_step(tl, top_rule(7, slash_if("written"@, true)), seq![], i as int);
            lemma_filter_map_step(tl, fp, i as int);
        }
        let sec = top_section_exec(l, &heads);
        if 1 <= sec && sec <= 7 {
            let parts = top_parts_exec(l, sec, &heads);
        if sec == 1 {
            num32_if_exec(&parts, &chars_of("total"), &mut s.processes);
            num32_if_exec(&parts, &chars_of("running"), &mut s.running);
            num32_if_exec(&parts, &chars_of("sleeping"), &mut s.sleeping);
            num32_if_exec(&parts, &chars_of("threads"), &mut s.threads);
        }
        if sec == 2 {
            pct_if_exec(&parts, &chars_of("user"), &mut s.cpu_user);
            pct_if_exec(&parts, &chars_of("sys"), &mut s.cpu_sys);
            pct_if_exec(&parts, &chars_of("idle"), &mut s.cpu_idle);
        }
        if sec == 3 {
            used_if_exec(&parts, &mut s.phys_used);
            wired_if_exec(&parts, &mut s.phys_wired);
            word_if_exec(&parts, &chars_of("compressor"), &mut s.phys_compressor);
            word_if_exec(&parts, &chars_of("unused"), &mut s.phys_unused);
        }
        if sec == 4 {
            num_if_exec(&parts, &chars_of("total"), &mut s.mem_regions_total);
            word_if_exec(&parts, &chars_of("resident"), &mut s.mem_regions_resident);
            word_if_exec(&parts, &chars_of("private"), &mut s.mem_regions_private);
            word_if_exec(&parts, &chars_of("shared"), &mut s.mem_regions_shared);
        }
        if sec == 5 {
            word_if_exec(&parts, &chars_of("resident"), &mut s.sharedlibs_resident);
            word_if_exec(&parts, &chars_of("data"), &mut s.sharedlibs_data);
        }
        if sec == 6 {
            slash_if_exec(&parts, &chars_of("in"), false, &mut s.net_packets_in);
            slash_if_exec(&parts, &chars_of("in"), true, &mut s.net_bytes_in);
            slash_if_exec(&parts, &chars_of("out"), false, &mut s.net_packets_out);
            slash_if_exec(&parts, &chars_of("out"), true, &mut s.net_bytes_out);
        }
        if sec == 7 {
            slash_if_exec(&parts, &chars_of("read"), false, &mut s.disk_reads);
            slash_if_exec(&parts, &chars_of("read"), true, &mut s.disk_read_bytes);
            slash_if_exec(&parts, &chars_of("written"), false, &mut s.disk_writes);
            slash_if_exec(&parts, &chars_of("written"), true, &mut s.disk_write_bytes);
        }
        } else if sec == 8 {
            let cols = words_exec(l);
            if cols.len() >= 4 {
                assert(views(cols@)[1] == cols@[1]@ && views(cols@)[2] == cols@[2]@ && views(cols@)[3] == cols@[3]@);
                let ghost old_v = s.top_procs@;
                let t = (string_of(&cols[1]), string_of(&cols[2]), string_of(&cols[3]));
                s.top_procs.push(t);
                assert(s.top_procs@.map_values(|t: (String, String, String)| (t.0@, t.1@, t.2@)) =~= old_v.map_values(
                    |t: (String, String, String)| (t.0@, t.1@, t.2@),
                ).push((t.0@, t.1@, t.2@)));
            }
        }
        i += 1;
    }
    proof {
        lemma_take_all(tl);
    }
    s
}

} // verus!
