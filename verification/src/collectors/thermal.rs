//! Thermal readings and memory pressure.
use vstd::prelude::*;
use crate::collectors::system::{ioreg_lines, ioreg_lines_exec};
use crate::num::{signed_chars, signed_str};
use crate::scan::{filter_map, int_or, int_or_exec, last_hit, lemma_filter_map_step, lemma_last_hit_step, lemma_take_all};
use crate::text::{chars_of, concat, contains, contains_exec, last_or_empty, last_or_empty_exec, lines, lines_exec, slice_of, split, split2, split2_exec, split_exec, string_of, trim, trim_exec, views};
use crate::types::{ThermalEntry, ThermalEntryV, ThermalInfo};

verus! {

/// How a memory-pressure level is described.
pub open spec fn pressure_label(v: int) -> Seq<char> {
    if v == 0 {
        "Normal"@
    } else if v == 1 {
        "Warning"@
    } else if v == 2 {
        "Urgent"@
    } else if v == 4 {
        "Critical"@
    } else {
        "Level "@ + signed_str(v)
    }
}

/// The text after the first colon of `l`, or `0` when it has none.
pub open spec fn second_or_zero(l: Seq<char>) -> Seq<char> {
    let ps = split(l, ":"@);
    if ps.len() > 1 {
        ps[1]
    } else {
        "0"@
    }
}

/// The rule for the pressure level: a `kern.memorystatus_vm_pressure_level`
/// line gives the label of its number (0 when it is not a number).
pub open spec fn pressure_rule() -> spec_fn(Seq<char>) -> Option<Seq<char>> {
    |l: Seq<char>|
        if contains(l, "kern.memorystatus_vm_pressure_level"@) {
            Some(pressure_label(int_or(trim(second_or_zero(l)), 0)))
        } else {
            None
        }
}

/// The memory-pressure label from `sysctl -a`: that of the last pressure line,
/// or `Normal` when there is none.
pub open spec fn pressure_of(text: Seq<char>) -> Seq<char> {
    let p = last_hit(lines(text), pressure_rule());
    if p.len() == 0 {
        "Normal"@
    } else {
        p
    }
}

/// The battery temperature reading of a normalized `ioreg` line, in
/// hundredths of a degree.
pub open spec fn battery_temp_row(l: Seq<char>) -> Option<ThermalEntryV> {
    if contains(l, "Temperature="@) {
        Some(
            ThermalEntryV {
                name: "Battery"@,
                reading: trim(last_or_empty(split(l, "="@))),
                scale: 100,
                category: "Battery"@,
            },
        )
    } else {
        None
    }
}

/// The thermal level of a `key: value` line of `sysctl
/// machdep.xcpm.{cpu,gpu,io}_thermal_level`.
pub open spec fn level_row(l: Seq<char>) -> Option<ThermalEntryV> {
    let p = split2(l, ":"@);
    if p.len() != 2 {
        None
    } else {
        let key = trim(p[0]);
        Some(
            ThermalEntryV {
                name: if contains(key, "cpu_thermal"@) {
                    "CPU Thermal Level"@
                } else if contains(key, "gpu_thermal"@) {
                    "GPU Thermal Level"@
                } else {
                    "I/O Thermal Level"@
                },
                reading: trim(p[1]),
                scale: 1,
                category: if contains(key, "cpu_thermal"@) {
                    "CPU"@
                } else if contains(key, "gpu_thermal"@) {
                    "GPU"@
                } else {
                    "I/O"@
                },
            },
        )
    }
}

fn pressure_exec(l: &Vec<char>, key: &Vec<char>, colon: &Vec<char>) -> (r: Option<Vec<char>>)
    requires
        key@ == "kern.memorystatus_vm_pressure_level"@,
        colon@ == ":"@,
    ensures
        match r {
            Some(v) => (pressure_rule())(l@) == Some(v@),
            None => (pressure_rule())(l@) is None,
        },
{
    if !contains_exec(l, key) {
        return None;
    }
    let ps = split_exec(l, colon);
    let s = if ps.len() > 1 {
        let p = &ps[1];
        slice_of(p, 0, p.len())
    } else {
        chars_of("0")
    };
    assert(ps@.len() > 1 ==> s@ == views(ps@)[1]);
    let v = int_or_exec(&trim_exec(&s), 0);
    let label = if v == 0 {
        chars_of("Normal")
    } else if v == 1 {
        chars_of("Warning")
    } else if v == 2 {
        chars_of("Urgent")
    } else if v == 4 {
        chars_of("Critical")
    } else {
        concat(&chars_of("Level "), &signed_chars(v as i64))
    };
    Some(label)
}

fn level_row_exec(l: &Vec<char>, k: &Vec<Vec<char>>) -> (r: Option<ThermalEntry>)
    requires
        k@.len() == 3,
        k@[0]@ == ":"@,
        k@[1]@ == "cpu_thermal"@,
        k@[2]@ == "gpu_thermal"@,
    ensures
        match r {
            Some(e) => level_row(l@) == Some(e@),
            None => level_row(l@) is None,
        },
{
    let p = split2_exec(l, &k[0]);
    if p.len() != 2 {
        return None;
    }
    assert(views(p@)[0] == p@[0]@ && views(p@)[1] == p@[1]@);
    let key = trim_exec(&p[0]);
    let (name, cat) = if contains_exec(&key, &k[1]) {
        ("CPU Thermal Level", "CPU")
    } else if contains_exec(&key, &k[2]) {
        ("GPU Thermal Level", "GPU")
    } else {
        ("I/O Thermal Level", "I/O")
    };
    Some(
        ThermalEntry {
            name: string_of(&chars_of(name)),
            reading: string_of(&trim_exec(&p[1])),
            scale: 1,
            category: string_of(&chars_of(cat)),
        },
    )
}

/// Thermal readings. `sysctl_all` is the output of `sysctl -a`, `ioreg_text`
/// that of `ioreg -r -c AppleSmartBattery -d 1`, and `levels_text` that of
/// `sysctl machdep.xcpm.cpu_thermal_level machdep.xcpm.gpu_thermal_level
/// machdep.xcpm.io_thermal_level`. The entries are the battery temperatures
/// followed by the thermal levels.
pub fn collect_thermal_info(sysctl_all: &str, ioreg_text: &str, levels_text: &str) -> (info: ThermalInfo)
    ensures
        info.thermal_pressure@ == pressure_of(sysctl_all@),
        info.entries@.map_values(|e: ThermalEntry| e@) == filter_map(
            ioreg_lines(ioreg_text@),
            |l: Seq<char>| battery_temp_row(l),
        ) + filter_map(lines(levels_text@), |l: Seq<char>| level_row(l)),
{
    let ls = lines_exec(&chars_of(sysctl_all));
    let ghost tl = lines(sysctl_all@);
    let key = chars_of("kern.memorystatus_vm_pressure_level");
    let colon = chars_of(":");
    let mut pressure: Vec<char> = Vec::new();
    let mut i: usize = 0;
    while i < ls.len()
        invariant
            i <= ls@.len(),
            views(ls@) == tl,
            key@ == "kern.memorystatus_vm_pressure_level"@,
            colon@ == ":"@,
            pressure@ == last_hit(tl.take(i as int), pressure_rule()),
        decreases ls@.len() - i,
    {
        assert(ls@[i as int]@ == tl[i as int]);
        if let Some(v) = pressure_exec(&ls[i], &key, &colon) {
            pressure = v;
        }
        proof {
            lemma_last_hit_step(tl, pressure_rule(), i as int);
        }
        i += 1;
    }
    proof {
        lemma_take_all(tl);
    }
    if pressure.len() == 0 {
        pressure = chars_of("Normal");
    }
    let rs = ioreg_lines_exec(ioreg_text);
    let ghost il = ioreg_lines(ioreg_text@);
    let ghost fb = |l: Seq<char>| battery_temp_row(l);
    let temp = chars_of("Temperature=");
    let eq = chars_of("=");
    let mut entries: Vec<ThermalEntry> = Vec::new();
    assert(il.take(0) =~= Seq::<Seq<char>>::empty());
    assert(entries@.map_values(|e: ThermalEntry| e@) =~= Seq::<ThermalEntryV>::empty());
    let mut j: usize = 0;
    while j < rs.len()
        invariant
            j <= rs@.len(),
            views(rs@) == il,
            temp@ == "Temperature="@,
            eq@ == "="@,
            fb == (|l: Seq<char>| battery_temp_row(l)),
            entries@.map_values(|e: ThermalEntry| e@) == filter_map(il.take(j as int), fb),
        decreases rs@.len() - j,
    {
        let l = &rs[j];
        assert(l@ == il[j as int]);
        let ghost old_v = entries@;
        proof {
            lemma_filter_map_step(il, fb, j as int);
        }
        if contains_exec(l, &temp) {
            let ps = split_exec(l, &eq);
            let e = ThermalEntry {
                name: string_of(&chars_of("Battery")),
                reading: string_of(&trim_exec(&last_or_empty_exec(&ps))),
                scale: 100,
                category: string_of(&chars_of("Battery")),
            };
            entries.push(e);
            assert(entries@.map_values(|e: ThermalEntry| e@) =~= old_v.map_values(|e: ThermalEntry| e@).push(e@));
        }
        j += 1;
    }
    proof {
        lemma_take_all(il);
    }
    let ghost first = entries@.map_values(|e: ThermalEntry| e@);
    let vs = lines_exec(&chars_of(levels_text));
    let ghost vl = lines(levels_text@);
    let ghost fl = |l: Seq<char>| level_row(l);
    let k = crate::scan::lits(&[":", "cpu_thermal", "gpu_thermal"]);
    assert(vl.take(0) =~= Seq::<Seq<char>>::empty());
    assert(first + filter_map(vl.take(0), fl) =~= first);
    let mut m: usize = 0;
    while m < vs.len()
        invariant
            m <= vs@.len(),
            views(vs@) == vl,
            k@.len() == 3,
            k@[0]@ == ":"@,
            k@[1]@ == "cpu_thermal"@,
            k@[2]@ == "gpu_thermal"@,
            fl == (|l: Seq<char>| level_row(l)),
            entries@.map_values(|e: ThermalEntry| e@) == first + filter_map(vl.take(m as int), fl),
        decreases vs@.len() - m,
    {
        assert(vs@[m as int]@ == vl[m as int]);
        let ghost old_v = entries@;
        proof {
            lemma_filter_map_step(vl, fl, m as int);
        }
        if let Some(e) = level_row_exec(&vs[m], &k) {
            entries.push(e);
            assert(entries@.map_values(|e: ThermalEntry| e@) =~= old_v.map_values(|e: ThermalEntry| e@).push(e@));
            assert(first + filter_map(vl.take(m as int), fl).push(e@) =~= (first + filter_map(vl.take(m as int), fl)).push(e@));
        }
        m += 1;
    }
    proof {
        lemma_take_all(vl);
    }
    ThermalInfo { entries, thermal_pressure: string_of(&pressure) }
}

} // verus!
