//! Processor details.
use vstd::prelude::*;
use crate::scan::{apply_ck, ck, cn, apply_cn, colon_pair_exec, filter_map, last_hit, last_or, lemma_filter_map_step, lemma_last_hit_step, lemma_last_or_step, lemma_take_all, lits};
use crate::text::{chars_of, eq_exec, last_or_empty, last_or_empty_exec, lines, lines_exec, split, split2, split2_exec, split_exec, string_of, trim, trim_exec, views};
use crate::types::CpuDetailedInfo;

verus! {

/// The name of a `hw.optional` feature whose value is `1`: the last
/// dot-separated part of its key.
pub open spec fn feature_rule(l: Seq<char>) -> Option<Seq<char>> {
    let p = split2(l, ":"@);
    if p.len() == 2 && trim(p[1]) == "1"@ {
        Some(last_or_empty(split(p[0], "."@)))
    } else {
        None
    }
}

/// The brand string, or `Unknown` when `sysctl` gave none.
pub open spec fn brand_of(text: Seq<char>) -> Seq<char> {
    let b = last_hit(lines(text), ck("machdep.cpu.brand_string"@));
    if b.len() == 0 {
        "Unknown"@
    } else {
        b
    }
}

fn feature_exec(l: &Vec<char>, colon: &Vec<char>, dot: &Vec<char>, one: &Vec<char>) -> (r: Option<String>)
    requires
        colon@ == ":"@,
        dot@ == "."@,
        one@ == "1"@,
    ensures
        match r {
            Some(v) => feature_rule(l@) == Some(v@),
            None => feature_rule(l@) is None,
        },
{
    let p = split2_exec(l, colon);
    if p.len() == 2 {
        assert(views(p@)[0] == p@[0]@ && views(p@)[1] == p@[1]@);
        if eq_exec(&trim_exec(&p[1]), one) {
            let ps = split_exec(&p[0], dot);
            return Some(string_of(&last_or_empty_exec(&ps)));
        }
    }
    None
}

/// Processor details. `sysctl_text` is the output of `sysctl` for the
/// processor keys (one `key: value` line each), `arch` the architecture name,
/// and `features_text` the output of `sysctl hw.optional`. Each number comes
/// from the last line with its key (0 when it is not a number).
pub fn collect_cpu_details(sysctl_text: &str, arch: &str, features_text: &str) -> (i: CpuDetailedInfo)
    ensures
        i.brand@ == brand_of(sysctl_text@),
        i.arch@ == arch@,
        i.core_count == last_or(lines(sysctl_text@), cn("machdep.cpu.core_count"@), 0),
        i.thread_count == last_or(lines(sysctl_text@), cn("machdep.cpu.thread_count"@), 0),
        i.cores_per_package == last_or(lines(sysctl_text@), cn("machdep.cpu.cores_per_package"@), 0),
        i.cache_line_size == last_or(lines(sysctl_text@), cn("hw.cachelinesize"@), 0),
        i.l1i_cache == last_or(lines(sysctl_text@), cn("hw.l1icachesize"@), 0),
        i.l1d_cache == last_or(lines(sysctl_text@), cn("hw.l1dcachesize"@), 0),
        i.l2_cache == last_or(lines(sysctl_text@), cn("hw.l2cachesize"@), 0),
        i.l3_cache == last_or(lines(sysctl_text@), cn("hw.l3cachesize"@), 0),
        i.num_perf_levels == last_or(lines(sysctl_text@), cn("hw.nperflevels"@), 0),
        i.perf_cores == last_or(lines(sysctl_text@), cn("hw.perflevel0.physicalcpu"@), 0),
        i.efficiency_cores == last_or(lines(sysctl_text@), cn("hw.perflevel1.physicalcpu"@), 0),
        i.perf_l1i == last_or(lines(sysctl_text@), cn("hw.perflevel0.l1icachesize"@), 0),
        i.perf_l1d == last_or(lines(sysctl_text@), cn("hw.perflevel0.l1dcachesize"@), 0),
        i.perf_l2 == last_or(lines(sysctl_text@), cn("hw.perflevel0.l2cachesize"@), 0),
        i.eff_l1i == last_or(lines(sysctl_text@), cn("hw.perflevel1.l1icachesize"@), 0),
        i.eff_l1d == last_or(lines(sysctl_text@), cn("hw.perflevel1.l1dcachesize"@), 0),
        i.eff_l2 == last_or(lines(sysctl_text@), cn("hw.perflevel1.l2cachesize"@), 0),
        i.page_size == last_or(lines(sysctl_text@), cn("hw.pagesize"@), 0),
        i.phys_mem == last_or(lines(sysctl_text@), cn("hw.memsize"@), 0),
        i.features@.map_values(|f: String| f@) == filter_map(lines(features_text@), |l: Seq<char>| feature_rule(l)),
{
    let ls = lines_exec(&chars_of(sysctl_text));
    let ghost tl = lines(sysctl_text@);
    let keys = lits(&["machdep.cpu.core_count", "machdep.cpu.thread_count", "machdep.cpu.cores_per_package", "hw.cachelinesize", "hw.l1icachesize", "hw.l1dcachesize", "hw.l2cachesize", "hw.l3cachesize", "hw.nperflevels", "hw.perflevel0.physicalcpu", "hw.perflevel1.physicalcpu", "hw.perflevel0.l1icachesize", "hw.perflevel0.l1dcachesize", "hw.perflevel0.l2cachesize", "hw.perflevel1.l1icachesize", "hw.perflevel1.l1dcachesize", "hw.perflevel1.l2cachesize", "hw.pagesize", "hw.memsize"]);
    let k_brand = chars_of("machdep.cpu.brand_string");
    let mut brand = String::new();
    let mut i = CpuDetailedInfo {
        brand: String::new(),
        arch: string_of(&chars_of(arch)),
        core_count: 0,
        thread_count: 0,
        cores_per_package: 0,
        cache_line_size: 0,
        l1i_cache: 0,
        l1d_cache: 0,
        l2_cache: 0,
        l3_cache: 0,
        num_perf_levels: 0,
        perf_cores: 0,
        efficiency_cores: 0,
        perf_l1i: 0,
        perf_l1d: 0,
        perf_l2: 0,
        eff_l1i: 0,
        eff_l1d: 0,
        eff_l2: 0,
        page_size: 0,
        phys_mem: 0,
        features: Vec::new(),
    };
    let mut j: usize = 0;
    while j < ls.len()
        invariant
            j <= ls@.len(),
            views(ls@) == tl,
            tl == lines(sysctl_text@),
            i.arch@ == arch@,
            i.features@.len() == 0,
            keys@.len() == 19,
            k_brand@ == "machdep.cpu.brand_string"@,
            keys@[0]@ == "machdep.cpu.core_count"@,
            keys@[1]@ == "machdep.cpu.thread_count"@,
            keys@[2]@ == "machdep.cpu.cores_per_package"@,
            keys@[3]@ == "hw.cachelinesize"@,
            keys@[4]@ == "hw.l1icachesize"@,
            keys@[5]@ == "hw.l1dcachesize"@,
            keys@[6]@ == "hw.l2cachesize"@,
            keys@[7]@ == "hw.l3cachesize"@,
            keys@[8]@ == "hw.nperflevels"@,
            keys@[9]@ == "hw.perflevel0.physicalcpu"@,
            keys@[10]@ == "hw.perflevel1.physicalcpu"@,
            keys@[11]@ == "hw.perflevel0.l1icachesize"@,
            keys@[12]@ == "hw.perflevel0.l1dcachesize"@,
            keys@[13]@ == "hw.perflevel0.l2cachesize"@,
            keys@[14]@ == "hw.perflevel1.l1icachesize"@,
            keys@[15]@ == "hw.perflevel1.l1dcachesize"@,
            keys@[16]@ == "hw.perflevel1.l2cachesize"@,
            keys@[17]@ == "hw.pagesize"@,
            keys@[18]@ == "hw.memsize"@,
            brand@ == last_hit(tl.take(j as int), ck("machdep.cpu.brand_string"@)),
            i.core_count == last_or(tl.take(j as int), cn("machdep.cpu.core_count"@), 0),
            i.thread_count == last_or(tl.take(j as int), cn("machdep.cpu.thread_count"@), 0),
            i.cores_per_package == last_or(tl.take(j as int), cn("machdep.cpu.cores_per_package"@), 0),
            i.cache_line_size == last_or(tl.take(j as int), cn("hw.cachelinesize"@), 0),
            i.l1i_cache == last_or(tl.take(j as int), cn("hw.l1icachesize"@), 0),
            i.l1d_cache == last_or(tl.take(j as int), cn("hw.l1dcachesize"@), 0),
            i.l2_cache == last_or(tl.take(j as int), cn("hw.l2cachesize"@), 0),
            i.l3_cache == last_or(tl.take(j as int), cn("hw.l3cachesize"@), 0),
            i.num_perf_levels == last_or(tl.take(j as int), cn("hw.nperflevels"@), 0),
            i.perf_cores == last_or(tl.take(j as int), cn("hw.perflevel0.physicalcpu"@), 0),
            i.efficiency_cores == last_or(tl.take(j as int), cn("hw.perflevel1.physicalcpu"@), 0),
            i.perf_l1i == last_or(tl.take(j as int), cn("hw.perflevel0.l1icachesize"@), 0),
            i.perf_l1d == last_or(tl.take(j as int), cn("hw.perflevel0.l1dcachesize"@), 0),
            i.perf_l2 == last_or(tl.take(j as int), cn("hw.perflevel0.l2cachesize"@), 0),
            i.eff_l1i == last_or(tl.take(j as int), cn("hw.perflevel1.l1icachesize"@), 0),
            i.eff_l1d == last_or(tl.take(j as int), cn("hw.perflevel1.l1dcachesize"@), 0),
            i.eff_l2 == last_or(tl.take(j as int), cn("hw.perflevel1.l2cachesize"@), 0),
            i.page_size == last_or(tl.take(j as int), cn("hw.pagesize"@), 0),
            i.phys_mem == last_or(tl.take(j as int), cn("hw.memsize"@), 0),
        decreases ls@.len() - j,
    {
        assert(ls@[j as int]@ == tl[j as int]);
        let pair = colon_pair_exec(&ls[j]);
        apply_ck(&mut brand, &pair, &k_brand);
        apply_cn(&mut i.core_count, &pair, &keys[0]);
        apply_cn(&mut i.thread_count, &pair, &keys[1]);
        apply_cn(&mut i.cores_per_package, &pair, &keys[2]);
        apply_cn(&mut i.cache_line_size, &pair, &keys[3]);
        apply_cn(&mut i.l1i_cache, &pair, &keys[4]);
        apply_cn(&mut i.l1d_cache, &pair, &keys[5]);
        apply_cn(&mut i.l2_cache, &pair, &keys[6]);
        apply_cn(&mut i.l3_cache, &pair, &keys[7]);
        apply_cn(&mut i.num_perf_levels, &pair, &keys[8]);
        apply_cn(&mut i.perf_cores, &pair, &keys[9]);
        apply_cn(&mut i.efficiency_cores, &pair, &keys[10]);
        apply_cn(&mut i.perf_l1i, &pair, &keys[11]);
        apply_cn(&mut i.perf_l1d, &pair, &keys[12]);
        apply_cn(&mut i.perf_l2, &pair, &keys[13]);
        apply_cn(&mut i.eff_l1i, &pair, &keys[14]);
        apply_cn(&mut i.eff_l1d, &pair, &keys[15]);
        apply_cn(&mut i.eff_l2, &pair, &keys[16]);
        apply_cn(&mut i.page_size, &pair, &keys[17]);
        apply_cn(&mut i.phys_mem, &pair, &keys[18]);
        proof {
            lemma_last_hit_step(tl, ck("machdep.cpu.brand_string"@), j as int);
            lemma_last_or_step(tl, cn("machdep.cpu.core_count"@), 0, j as int);
            lemma_last_or_step(tl, cn("machdep.cpu.thread_count"@), 0, j as int);
            lemma_last_or_step(tl, cn("machdep.cpu.cores_per_package"@), 0, j as int);
            lemma_last_or_step(tl, cn("hw.cachelinesize"@), 0, j as int);
            lemma_last_or_step(tl, cn("hw.l1icachesize"@), 0, j as int);
            lemma_last_or_step(tl, cn("hw.l1dcachesize"@), 0, j as int);
            lemma_last_or_step(tl, cn("hw.l2cachesize"@), 0, j as int);
            lemma_last_or_step(tl, cn("hw.l3cachesize"@), 0, j as int);
            lemma_last_or_step(tl, cn("hw.nperflevels"@), 0, j as int);
            lemma_last_or_step(tl, cn("hw.perflevel0.physicalcpu"@), 0, j as int);
            lemma_last_or_step(tl, cn("hw.perflevel1.physicalcpu"@), 0, j as int);
            lemma_last_or_step(tl, cn("hw.perflevel0.l1icachesize"@), 0, j as int);
            lemma_last_or_step(tl, cn("hw.perflevel0.l1dcachesize"@), 0, j as int);
            lemma_last_or_step(tl, cn("hw.perflevel0.l2cachesize"@), 0, j as int);
            lemma_last_or_step(tl, cn("hw.perflevel1.l1icachesize"@), 0, j as int);
            lemma_last_or_step(tl, cn("hw.perflevel1.l1dcachesize"@), 0, j as int);
            lemma_last_or_step(tl, cn("hw.perflevel1.l2cachesize"@), 0, j as int);
            lemma_last_or_step(tl, cn("hw.pagesize"@), 0, j as int);
            lemma_last_or_step(tl, cn("hw.memsize"@), 0, j as int);
        }
        j += 1;
    }
    proof {
        lemma_take_all(tl);
    }
    if brand.as_str().is_empty() {
        i.brand = string_of(&chars_of("Unknown"));
    } else {
        i.brand = brand;
    }
    let fs = lines_exec(&chars_of(features_text));
    let ghost fl = lines(features_text@);
    let ghost f = |l: Seq<char>| feature_rule(l);
    let colon = chars_of(":");
    let dot = chars_of(".");
    let one = chars_of("1");
    let mut feats: Vec<String> = Vec::new();
    assert(fl.take(0) =~= Seq::<Seq<char>>::empty());
    assert(feats@.map_values(|f: String| f@) =~= Seq::<Seq<char>>::empty());
    let mut k: usize = 0;
    while k < fs.len()
        invariant
            k <= fs@.len(),
            views(fs@) == fl,
            colon@ == ":"@,
            dot@ == "."@,
            one@ == "1"@,
            f == (|l: Seq<char>| feature_rule(l)),
            feats@.map_values(|f: String| f@) == filter_map(fl.take(k as int), f),
        decreases fs@.len() - k,
    {
        assert(fs@[k as int]@ == fl[k as int]);
        let ghost old_v = feats@;
        proof {
            lemma_filter_map_step(fl, f, k as int);
        }
        if let Some(name) = feature_exec(&fs[k], &colon, &dot, &one) {
            feats.push(name);
            assert(feats@.map_values(|f: String| f@) =~= old_v.map_values(|f: String| f@).push(name@));
        }
        k += 1;
    }
    proof {
        lemma_take_all(fl);
    }
    i.features = feats;
    i
}

} // verus!
