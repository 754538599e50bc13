//! Host identification, graphics, battery and cameras.
use vstd::prelude::*;
use crate::scan::{apply_kv, key_value, kv, last_hit, lemma_last_hit_step, lemma_take_all, tlines, tlines_exec};
use crate::num::{dec_chars, dec_str};
use crate::scan::{any_line, num_or, num_or_exec};
use crate::utils::sysctl_val;
use crate::text::{lines, lines_exec, replace, replace_exec, strip_start, strip_start_exec, concat, last_or_empty, last_or_empty_exec, slice_of, split, split_exec, trim, trim_exec, chars_of, contains, contains_exec, starts_with, starts_with_exec, string_of, strip_end, strip_end_exec, views, CharClass};
use crate::types::{BatteryInfo, CameraInfo, CameraInfoV, GpuInfo, SysInfo};
use crate::utils::{json_value, json_value_exec};

verus! {

/// The rule for the display name: a line naming a built-in panel, an LG
/// monitor, or any line holding `Display:`, without its trailing colons.
pub open spec fn display_rule() -> spec_fn(Seq<char>) -> Option<Seq<char>> {
    |l: Seq<char>|
        if starts_with(l, "Color LCD:"@) || starts_with(l, "LG"@) || contains(l, "Display:"@) {
            Some(strip_end(l, CharClass::Exact(':')))
        } else {
            None
        }
}

/// Graphics details from `system_profiler SPDisplaysDataType`. Each field is
/// taken from the last (trimmed) line that carries it.
pub fn parse_gpu(text: &str) -> (g: GpuInfo)
    ensures
        g.chipset@ == last_hit(tlines(text@), kv("Chipset Model:"@)),
        g.gpu_type@ == last_hit(tlines(text@), kv("Type:"@)),
        g.bus@ == last_hit(tlines(text@), kv("Bus:"@)),
        g.cores@ == last_hit(tlines(text@), kv("Total Number of Cores:"@)),
        g.vendor@ == last_hit(tlines(text@), kv("Vendor:"@)),
        g.metal@ == last_hit(tlines(text@), kv("Metal Support:"@)),
        g.display_type@ == last_hit(tlines(text@), kv("Display Type:"@)),
        g.resolution@ == last_hit(tlines(text@), kv("Resolution:"@)),
        g.display_name@ == last_hit(tlines(text@), display_rule()),
{
    let ls = tlines_exec(text);
    let ghost tl = tlines(text@);
    let k_chip = chars_of("Chipset Model:");
    let k_type = chars_of("Type:");
    let k_bus = chars_of("Bus:");
    let k_cores = chars_of("Total Number of Cores:");
    let k_vendor = chars_of("Vendor:");
    let k_metal = chars_of("Metal Support:");
    let k_dtype = chars_of("Display Type:");
    let k_res = chars_of("Resolution:");
    let k_lcd = chars_of("Color LCD:");
    let k_lg = chars_of("LG");
    let k_disp = chars_of("Display:");
    let mut g = GpuInfo {
        chipset: String::new(),
        gpu_type: String::new(),
        bus: String::new(),
        cores: String::new(),
        vendor: String::new(),
        metal: String::new(),
        display_type: String::new(),
        resolution: String::new(),
        display_name: String::new(),
    };
    let mut i: usize = 0;
    while i < ls.len()
        invariant
            i <= ls@.len(),
            views(ls@) == tl,
            k_chip@ == "Chipset Model:"@,
            k_type@ == "Type:"@,
            k_bus@ == "Bus:"@,
            k_cores@ == "Total Number of Cores:"@,
            k_vendor@ == "Vendor:"@,
            k_metal@ == "Metal Support:"@,
            k_dtype@ == "Display Type:"@,
            k_res@ == "Resolution:"@,
            k_lcd@ == "Color LCD:"@,
            k_lg@ == "LG"@,
            k_disp@ == "Display:"@,
            g.chipset@ == last_hit(tl.take(i as int), kv("Chipset Model:"@)),
            g.gpu_type@ == last_hit(tl.take(i as int), kv("Type:"@)),
            g.bus@ == last_hit(tl.take(i as int), kv("Bus:"@)),
            g.cores@ == last_hit(tl.take(i as int), kv("Total Number of Cores:"@)),
            g.vendor@ == last_hit(tl.take(i as int), kv("Vendor:"@)),
            g.metal@ == last_hit(tl.take(i as int), kv("Metal Support:"@)),
            g.display_type@ == last_hit(tl.take(i as int), kv("Display Type:"@)),
            g.resolution@ == last_hit(tl.take(i as int), kv("Resolution:"@)),
            g.display_name@ == last_hit(tl.take(i as int), display_rule()),
        decreases ls@.len() - i,
    {
        let l = &ls[i];
        assert(l@ == tl[i as int]);
        apply_kv(&mut g.chipset, l, &k_chip);
        apply_kv(&mut g.gpu_type, l, &k_type);
        apply_kv(&mut g.bus, l, &k_bus);
        apply_kv(&mut g.cores, l, &k_cores);
        apply_kv(&mut g.vendor, l, &k_vendor);
        apply_kv(&mut g.metal, l, &k_metal);
        apply_kv(&mut g.display_type, l, &k_dtype);
        apply_kv(&mut g.resolution, l, &k_res);
        if starts_with_exec(l, &k_lcd) || starts_with_exec(l, &k_lg) || contains_exec(l, &k_disp) {
            g.display_name = string_of(&strip_end_exec(l, CharClass::Exact(':')));
        }
        proof {
            lemma_last_hit_step(tl, kv("Chipset Model:"@), i as int);
            lemma_last_hit_step(tl, kv("Type:"@), i as int);
            lemma_last_hit_step(tl, kv("Bus:"@), i as int);
            lemma_last_hit_step(tl, kv("Total Number of Cores:"@), i as int);
            lemma_last_hit_step(tl, kv("Vendor:"@), i as int);
            lemma_last_hit_step(tl, kv("Metal Support:"@), i as int);
            lemma_last_hit_step(tl, kv("Display Type:"@), i as int);
            lemma_last_hit_step(tl, kv("Resolution:"@), i as int);
            lemma_last_hit_step(tl, display_rule(), i as int);
        }
        i += 1;
    }
    proof {
        lemma_take_all(tl);
    }
    g
}

} // verus!

verus! {

/// How long the machine has been up, as `"{d}d {h}h {m}m"`, or `"{h}h {m}m"`
/// when it has been up for less than a day.
pub open spec fn uptime_text(up: nat) -> Seq<char> {
    let days = up / 86400;
    let hrs = (up % 86400) / 3600;
    let mins = (up % 3600) / 60;
    if days > 0 {
        dec_str(days) + "d "@ + dec_str(hrs) + "h "@ + dec_str(mins) + "m"@
    } else {
        dec_str(hrs) + "h "@ + dec_str(mins) + "m"@
    }
}

/// The boot time as `kern.boottime` prints it after its closing brace.
pub open spec fn boot_time_text(raw: Seq<char>) -> Seq<char> {
    trim(last_or_empty(split(raw, "}"@)))
}

/// The seconds field of `kern.boottime` (`{ sec = N, usec = ... }`), or 0.
pub open spec fn boot_secs(raw: Seq<char>) -> int {
    let ps = split(raw, "sec = "@);
    let after = if ps.len() > 1 {
        ps[1]
    } else {
        "0"@
    };
    num_or(trim(split(after, ","@)[0]), 0)
}

/// The uptime text for a boot time given as `kern.boottime` prints it and the
/// current time in seconds since the epoch.
pub fn uptime_from(boot_raw: &Vec<char>, now_secs: u64) -> (r: Vec<char>)
    ensures
        r@ == uptime_text((if now_secs >= boot_secs(boot_raw@) {
            now_secs - boot_secs(boot_raw@)
        } else {
            0
        }) as nat),
{
    let sep = chars_of("sec = ");
    let comma = chars_of(",");
    let ps = split_exec(boot_raw, &sep);
    let after = if ps.len() > 1 {
        let p = &ps[1];
        slice_of(p, 0, p.len())
    } else {
        chars_of("0")
    };
    assert(ps.len() > 1 ==> after@ == views(ps@)[1]);
    let qs = split_exec(&after, &comma);
    proof {
        crate::text::lemma_split_nonempty(after@, comma@);
    }
    assert(views(qs@)[0] == qs@[0]@);
    let secs = num_or_exec(&trim_exec(&qs[0]), 0);
    let up = now_secs.saturating_sub(secs);
    let days = up / 86400;
    let hrs = (up % 86400) / 3600;
    let mins = (up % 3600) / 60;
    let mut r: Vec<char> = Vec::new();
    if days > 0 {
        r = concat(&r, &dec_chars(days));
        r = concat(&r, &chars_of("d "));
    }
    r = concat(&r, &dec_chars(hrs));
    r = concat(&r, &chars_of("h "));
    r = concat(&r, &dec_chars(mins));
    r = concat(&r, &chars_of("m"));
    proof {
        let e: Seq<char> = seq![];
        if days > 0 {
            assert(r@ =~= e + dec_str(days as nat) + "d "@ + dec_str(hrs as nat) + "h "@ + dec_str(mins as nat) + "m"@);
            assert(r@ =~= dec_str(days as nat) + "d "@ + dec_str(hrs as nat) + "h "@ + dec_str(mins as nat) + "m"@);
        } else {
            assert(r@ =~= dec_str(hrs as nat) + "h "@ + dec_str(mins as nat) + "m"@);
        }
    }
    r
}

/// Host identification. The arguments are the outputs of `sysctl -n` for
/// `kern.boottime`, `kern.hostname`, `kern.ostype`, `kern.osrelease`,
/// `kern.osversion` and `hw.targettype`, and the current time in seconds
/// since the epoch.
pub fn parse_sysinfo(
    boottime_out: &str,
    now_secs: u64,
    hostname_out: &str,
    ostype_out: &str,
    osrelease_out: &str,
    osversion_out: &str,
    model_out: &str,
) -> (s: SysInfo)
    ensures
        s.hostname@ == trim(hostname_out@),
        s.os_type@ == trim(ostype_out@),
        s.os_release@ == trim(osrelease_out@),
        s.os_build@ == trim(osversion_out@),
        s.hw_model@ == trim(model_out@),
        s.boot_time@ == boot_time_text(trim(boottime_out@)),
        s.uptime@ == uptime_text((if now_secs >= boot_secs(trim(boottime_out@)) {
            now_secs - boot_secs(trim(boottime_out@))
        } else {
            0
        }) as nat),
{
    let raw = trim_exec(&chars_of(boottime_out));
    let brace = chars_of("}");
    let ps = split_exec(&raw, &brace);
    let boot_time = string_of(&trim_exec(&last_or_empty_exec(&ps)));
    let uptime = string_of(&uptime_from(&raw, now_secs));
    SysInfo {
        hostname: sysctl_val(hostname_out),
        os_type: sysctl_val(ostype_out),
        os_release: sysctl_val(osrelease_out),
        os_build: sysctl_val(osversion_out),
        boot_time,
        uptime,
        hw_model: sysctl_val(model_out),
    }
}

} // verus!

verus! {

/// The percentage field of a `pmset -g batt` line about the internal battery:
/// the text after its first tab, when there is one.
pub open spec fn batt_field(l: Seq<char>) -> Option<Seq<char>> {
    if contains(l, "InternalBattery"@) && split(l, "\t"@).len() > 1 {
        Some(split(l, "\t"@)[1])
    } else {
        None
    }
}

/// The rule "the `n`-th `;`-separated part of the battery field, trimmed,
/// when the field has that many parts".
pub open spec fn batt_part(n: int) -> spec_fn(Seq<char>) -> Option<Seq<char>> {
    |l: Seq<char>|
        match batt_field(l) {
            Some(pct) => if split(pct, ";"@).len() > n {
                Some(trim(split(pct, ";"@)[n]))
            } else {
                None
            },
            None => None,
        }
}

/// A line of `ioreg` output in `key=value` form: trimmed, without its leading
/// quotes, and with `" = ` turned into `=`.
pub open spec fn ioreg_line(l: Seq<char>) -> Seq<char> {
    replace(strip_start(trim(l), CharClass::Exact('"')), "\" = "@, "="@)
}

/// The normalized lines of `ioreg` output.
pub open spec fn ioreg_lines(text: Seq<char>) -> Seq<Seq<char>> {
    lines(text).map_values(|l: Seq<char>| ioreg_line(l))
}

/// The rule "a line holding `key` (and not `avoid`, when it is not empty)
/// gives the trimmed text after its last `=`".
pub open spec fn ioreg_rule(key: Seq<char>, avoid: Seq<char>) -> spec_fn(Seq<char>) -> Option<Seq<char>> {
    |l: Seq<char>|
        if contains(l, key) && (avoid.len() == 0 || !contains(l, avoid)) {
            Some(trim(last_or_empty(split(l, "="@))))
        } else {
            None
        }
}

/// Executable form of [`ioreg_line`].
pub fn ioreg_line_exec(l: &Vec<char>, from: &Vec<char>, to: &Vec<char>) -> (r: Vec<char>)
    requires
        from@ == "\" = "@,
        to@ == "="@,
    ensures
        r@ == ioreg_line(l@),
{
    let t = strip_start_exec(&trim_exec(l), CharClass::Exact('"'));
    replace_exec(&t, from, to)
}

/// The normalized lines of `ioreg` output.
pub fn ioreg_lines_exec(text: &str) -> (r: Vec<Vec<char>>)
    ensures
        views(r@) == ioreg_lines(text@),
{
    let from = chars_of("\" = ");
    let to = chars_of("=");
    let ls = lines_exec(&chars_of(text));
    let mut out: Vec<Vec<char>> = Vec::new();
    let mut i: usize = 0;
    while i < ls.len()
        invariant
            i <= ls@.len(),
            views(ls@) == lines(text@),
            from@ == "\" = "@,
            to@ == "="@,
            views(out@) == ioreg_lines(text@).take(i as int),
        decreases ls@.len() - i,
    {
        let t = ioreg_line_exec(&ls[i], &from, &to);
        let ghost old_out = out@;
        out.push(t);
        assert(views(out@) =~= ioreg_lines(text@).take(i + 1)) by {
            assert(views(ls@)[i as int] == ls@[i as int]@);
            assert(views(out@) =~= views(old_out).push(t@));
        }
        i += 1;
    }
    proof {
        lemma_take_all(ioreg_lines(text@));
    }
    out
}

fn apply_ioreg(field: &mut String, l: &Vec<char>, key: &Vec<char>, avoid: &Vec<char>, eq: &Vec<char>)
    requires
        eq@ == "="@,
    ensures
        match (ioreg_rule(key@, avoid@))(l@) {
            Some(v) => final(field)@ == v,
            None => final(field)@ == old(field)@,
        },
{
    if contains_exec(l, key) && (avoid.len() == 0 || !contains_exec(l, avoid)) {
        let ps = split_exec(l, eq);
        *field = string_of(&trim_exec(&last_or_empty_exec(&ps)));
    }
}

/// Battery details. `pmset_text` is the output of `pmset -g batt` and
/// `ioreg_text` that of `ioreg -r -c AppleSmartBattery -d 1`.
pub fn parse_battery(pmset_text: &str, ioreg_text: &str) -> (b: BatteryInfo)
    ensures
        b.present == any_line(lines(pmset_text@), |l: Seq<char>| contains(l, "InternalBattery"@)),
        b.level@ == last_hit(lines(pmset_text@), batt_part(0)),
        b.state@ == last_hit(lines(pmset_text@), batt_part(1)),
        b.remaining@ == last_hit(lines(pmset_text@), batt_part(2)),
        b.cycle_count@ == last_hit(ioreg_lines(ioreg_text@), ioreg_rule("CycleCount="@, "Designed"@)),
        b.max_capacity@ == last_hit(ioreg_lines(ioreg_text@), ioreg_rule("MaxCapacity="@, "Design"@)),
        b.design_capacity@ == last_hit(ioreg_lines(ioreg_text@), ioreg_rule("DesignCapacity="@, seq![])),
        b.temperature@ == last_hit(ioreg_lines(ioreg_text@), ioreg_rule("Temperature="@, seq![])),
        b.voltage@ == last_hit(ioreg_lines(ioreg_text@), ioreg_rule("Voltage="@, seq![])),
        b.amperage@ == last_hit(ioreg_lines(ioreg_text@), ioreg_rule("InstantAmperage="@, seq![])),
        b.condition@ == last_hit(ioreg_lines(ioreg_text@), ioreg_rule("BatteryHealth="@, seq![])),
{
    let mut present = false;
    let mut level = String::new();
    let mut state = String::new();
    let mut remaining = String::new();
    let ib = chars_of("InternalBattery");
    let tab = chars_of("\t");
    let semi = chars_of(";");
    let ls = lines_exec(&chars_of(pmset_text));
    let ghost pl = lines(pmset_text@);
    let ghost has_ib = |l: Seq<char>| contains(l, "InternalBattery"@);
    let mut i: usize = 0;
    while i < ls.len()
        invariant
            i <= ls@.len(),
            views(ls@) == pl,
            ib@ == "InternalBattery"@,
            tab@ == "\t"@,
            semi@ == ";"@,
            has_ib == (|l: Seq<char>| contains(l, "InternalBattery"@)),
            present == any_line(pl.take(i as int), has_ib),
            level@ == last_hit(pl.take(i as int), batt_part(0)),
            state@ == last_hit(pl.take(i as int), batt_part(1)),
            remaining@ == last_hit(pl.take(i as int), batt_part(2)),
        decreases ls@.len() - i,
    {
        let l = &ls[i];
        assert(l@ == pl[i as int]);
        let ghost before = pl.take(i as int);
        let ghost after = pl.take(i + 1);
        if contains_exec(l, &ib) {
            present = true;
            let tps = split_exec(l, &tab);
            if tps.len() > 1 {
                let pct = &tps[1];
                assert(pct@ == views(tps@)[1]);
                let parts = split_exec(pct, &semi);
                assert(forall|k: int| 0 <= k < parts@.len() ==> views(parts@)[k] == parts@[k]@);
                proof {
                    crate::text::lemma_split_nonempty(pct@, semi@);
                }
                level = string_of(&trim_exec(&parts[0]));
                if parts.len() > 1 {
                    state = string_of(&trim_exec(&parts[1]));
                }
                if parts.len() > 2 {
                    remaining = string_of(&trim_exec(&parts[2]));
                }
            }
        }
        proof {
            lemma_last_hit_step(pl, batt_part(0), i as int);
            lemma_last_hit_step(pl, batt_part(1), i as int);
            lemma_last_hit_step(pl, batt_part(2), i as int);
            assert(after.drop_last() =~= before);
            if has_ib(pl[i as int]) {
                assert(after[i as int] == pl[i as int]);
            }
            if any_line(before, has_ib) {
                let j = choose|j: int| 0 <= j < before.len() && has_ib(#[trigger] before[j]);
                assert(after[j] == before[j]);
            }
            if any_line(after, has_ib) && !has_ib(pl[i as int]) {
                let j = choose|j: int| 0 <= j < after.len() && has_ib(#[trigger] after[j]);
                assert(j < i);
                assert(before[j] == after[j]);
            }
        }
        i += 1;
    }
    proof {
        lemma_take_all(pl);
    }
    let eq = chars_of("=");
    let empty: Vec<char> = Vec::new();
    let k_cycle = chars_of("CycleCount=");
    let a_cycle = chars_of("Designed");
    let k_max = chars_of("MaxCapacity=");
    let a_max = chars_of("Design");
    let k_design = chars_of("DesignCapacity=");
    let k_temp = chars_of("Temperature=");
    let k_volt = chars_of("Voltage=");
    let k_amp = chars_of("InstantAmperage=");
    let k_health = chars_of("BatteryHealth=");
    let rs = ioreg_lines_exec(ioreg_text);
    let ghost il = ioreg_lines(ioreg_text@);
    let mut b = BatteryInfo {
        level,
        state,
        remaining,
        cycle_count: String::new(),
        condition: String::new(),
        voltage: String::new(),
        amperage: String::new(),
        temperature: String::new(),
        max_capacity: String::new(),
        design_capacity: String::new(),
        present,
    };
    let ghost e: Seq<char> = seq![];
    assert(empty@ =~= e);
    assert(il.take(0) =~= Seq::<Seq<char>>::empty());
    let mut j: usize = 0;
    while j < rs.len()
        invariant
            j <= rs@.len(),
            views(rs@) == il,
            eq@ == "="@,
            empty@ == e,
            e == Seq::<char>::empty(),
            k_cycle@ == "CycleCount="@,
            a_cycle@ == "Designed"@,
            k_max@ == "MaxCapacity="@,
            a_max@ == "Design"@,
            k_design@ == "DesignCapacity="@,
            k_temp@ == "Temperature="@,
            k_volt@ == "Voltage="@,
            k_amp@ == "InstantAmperage="@,
            k_health@ == "BatteryHealth="@,
            b.present == any_line(pl, has_ib),
            has_ib == (|l: Seq<char>| contains(l, "InternalBattery"@)),
            b.level@ == last_hit(pl, batt_part(0)),
            b.state@ == last_hit(pl, batt_part(1)),
            b.remaining@ == last_hit(pl, batt_part(2)),
            b.cycle_count@ == last_hit(il.take(j as int), ioreg_rule("CycleCount="@, "Designed"@)),
            b.max_capacity@ == last_hit(il.take(j as int), ioreg_rule("MaxCapacity="@, "Design"@)),
            b.design_capacity@ == last_hit(il.take(j as int), ioreg_rule("DesignCapacity="@, e)),
            b.temperature@ == last_hit(il.take(j as int), ioreg_rule("Temperature="@, e)),
            b.voltage@ == last_hit(il.take(j as int), ioreg_rule("Voltage="@, e)),
            b.amperage@ == last_hit(il.take(j as int), ioreg_rule("InstantAmperage="@, e)),
            b.condition@ == last_hit(il.take(j as int), ioreg_rule("BatteryHealth="@, e)),
        decreases rs@.len() - j,
    {
        let l = &rs[j];
        assert(l@ == il[j as int]);
        apply_ioreg(&mut b.cycle_count, l, &k_cycle, &a_cycle, &eq);
        apply_ioreg(&mut b.max_capacity, l, &k_max, &a_max, &eq);
        apply_ioreg(&mut b.design_capacity, l, &k_design, &empty, &eq);
        apply_ioreg(&mut b.temperature, l, &k_temp, &empty, &eq);
        apply_ioreg(&mut b.voltage, l, &k_volt, &empty, &eq);
        apply_ioreg(&mut b.amperage, l, &k_amp, &empty, &eq);
        apply_ioreg(&mut b.condition, l, &k_health, &empty, &eq);
        proof {
            lemma_last_hit_step(il, ioreg_rule("CycleCount="@, "Designed"@), j as int);
            lemma_last_hit_step(il, ioreg_rule("MaxCapacity="@, "Design"@), j as int);
            lemma_last_hit_step(il, ioreg_rule("DesignCapacity="@, e), j as int);
            lemma_last_hit_step(il, ioreg_rule("Temperature="@, e), j as int);
            lemma_last_hit_step(il, ioreg_rule("Voltage="@, e), j as int);
            lemma_last_hit_step(il, ioreg_rule("InstantAmperage="@, e), j as int);
            lemma_last_hit_step(il, ioreg_rule("BatteryHealth="@, e), j as int);
        }
        j += 1;
    }
    proof {
        lemma_take_all(il);
    }
    b
}

} // verus!

verus! {

/// The state of the camera scan: the cameras completed so far and the fields
/// of the camera being read.
pub struct CamScan {
    pub cams: Seq<CameraInfoV>,
    pub name: Seq<char>,
    pub model: Seq<char>,
    pub uid: Seq<char>,
}

/// The camera record the scan is reading.
pub open spec fn cam_current(st: CamScan) -> CameraInfoV {
    CameraInfoV { name: st.name, model_id: st.model, unique_id: st.uid }
}

/// One line of the camera report: a `_name` member starts a new camera (the
/// one being read is kept when it has a name); the model and unique id
/// members fill the camera being read.
pub open spec fn cam_step(st: CamScan, t: Seq<char>) -> CamScan {
    match json_value(t, "\"_name\""@) {
        Some(v) => CamScan {
            cams: if st.name.len() > 0 {
                st.cams.push(cam_current(st))
            } else {
                st.cams
            },
            name: v,
            model: seq![],
            uid: seq![],
        },
        None => match json_value(t, "\"spcamera_model-id\""@) {
            Some(v) => CamScan { model: v, ..st },
            None => match json_value(t, "\"spcamera_unique-id\""@) {
                Some(v) => CamScan { uid: v, ..st },
                None => st,
            },
        },
    }
}

/// The camera scan after the lines `ls`.
pub open spec fn cam_scan(ls: Seq<Seq<char>>) -> CamScan
    decreases ls.len(),
{
    if ls.len() == 0 {
        CamScan { cams: seq![], name: seq![], model: seq![], uid: seq![] }
    } else {
        cam_step(cam_scan(ls.drop_last()), ls.last())
    }
}

/// The cameras of a finished scan: those completed, and the last one when it
/// has a name.
pub open spec fn cam_result(st: CamScan) -> Seq<CameraInfoV> {
    if st.name.len() > 0 {
        st.cams.push(cam_current(st))
    } else {
        st.cams
    }
}

fn make_camera(name: &Vec<char>, model: &Vec<char>, uid: &Vec<char>) -> (c: CameraInfo)
    ensures
        c@ == (CameraInfoV { name: name@, model_id: model@, unique_id: uid@ }),
{
    CameraInfo { name: string_of(name), model_id: string_of(model), unique_id: string_of(uid) }
}

/// Cameras from `system_profiler SPCameraDataType -json`.
pub fn collect_cameras(text: &str) -> (r: Vec<CameraInfo>)
    ensures
        r@.map_values(|c: CameraInfo| c@) == cam_result(cam_scan(tlines(text@))),
{
    let ls = tlines_exec(text);
    let ghost tl = tlines(text@);
    let k_name = chars_of("\"_name\"");
    let k_model = chars_of("\"spcamera_model-id\"");
    let k_uid = chars_of("\"spcamera_unique-id\"");
    let mut cams: Vec<CameraInfo> = Vec::new();
    let mut name: Vec<char> = Vec::new();
    let mut model: Vec<char> = Vec::new();
    let mut uid: Vec<char> = Vec::new();
    assert(tl.take(0) =~= Seq::<Seq<char>>::empty());
    assert(cams@.map_values(|c: CameraInfo| c@) =~= Seq::<CameraInfoV>::empty());
    let mut i: usize = 0;
    while i < ls.len()
        invariant
            i <= ls@.len(),
            views(ls@) == tl,
            k_name@ == "\"_name\""@,
            k_model@ == "\"spcamera_model-id\""@,
            k_uid@ == "\"spcamera_unique-id\""@,
            (CamScan { cams: cams@.map_values(|c: CameraInfo| c@), name: name@, model: model@, uid: uid@ })
                == cam_scan(tl.take(i as int)),
        decreases ls@.len() - i,
    {
        let t = &ls[i];
        assert(t@ == tl[i as int]);
        assert(tl.take(i + 1).drop_last() =~= tl.take(i as int));
        let ghost old_cams = cams@;
        if let Some(v) = json_value_exec(t, &k_name) {
            if name.len() > 0 {
                cams.push(make_camera(&name, &model, &uid));
                assert(cams@.map_values(|c: CameraInfo| c@) =~= old_cams.map_values(|c: CameraInfo| c@).push(
                    CameraInfoV { name: name@, model_id: model@, unique_id: uid@ },
                ));
            }
            name = v;
            model = Vec::new();
            uid = Vec::new();
        } else if let Some(v) = json_value_exec(t, &k_model) {
            model = v;
        } else if let Some(v) = json_value_exec(t, &k_uid) {
            uid = v;
        }
        i += 1;
    }
    proof {
        lemma_take_all(tl);
    }
    let ghost old_cams = cams@;
    if name.len() > 0 {
        cams.push(make_camera(&name, &model, &uid));
        assert(cams@.map_values(|c: CameraInfo| c@) =~= old_cams.map_values(|c: CameraInfo| c@).push(
            CameraInfoV { name: name@, model_id: model@, unique_id: uid@ },
        ));
    }
    cams
}

} // verus!
