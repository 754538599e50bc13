//! The Wi-Fi interface and its network.
use vstd::prelude::*;
use crate::scan::{apply_kv, kv, last_hit, lemma_last_hit_step, lemma_take_all, lits, tlines, tlines_exec};
use crate::text::{chars_of, contains, contains_exec, lines, lines_exec, nth_or_empty, nth_or_empty_exec, slice_of, split, split_exec, starts_with, starts_with_exec, string_of, trim, trim_exec, views};
use crate::types::WifiInfo;

verus! {

/// The device named by the first `Device:` line at or after a line that
/// mentions `Wi-Fi` (from position `i` on, `found` telling whether such a line
/// came before), or `None`.
pub open spec fn wifi_device_from(ls: Seq<Seq<char>>, i: int, found: bool) -> Option<Seq<char>>
    decreases ls.len() - i,
{
    if i < 0 || i >= ls.len() {
        None
    } else {
        let f = found || contains(ls[i], "Wi-Fi"@);
        if f && starts_with(ls[i], "Device:"@) {
            Some(trim(ls[i].skip("Device:"@.len() as int)))
        } else {
            wifi_device_from(ls, i + 1, f)
        }
    }
}

/// The Wi-Fi interface named in `networksetup -listallhardwareports`, or
/// `en0` when none is named.
pub open spec fn wifi_interface_of(ports: Seq<char>) -> Seq<char> {
    match wifi_device_from(lines(ports), 0, false) {
        Some(d) => if d.len() > 0 {
            d
        } else {
            "en0"@
        },
        None => "en0"@,
    }
}

/// The Wi-Fi interface named in `networksetup -listallhardwareports`, or
/// `en0` when none is named.
pub fn wifi_interface(ports: &str) -> (r: String)
    ensures
        r@ == wifi_interface_of(ports@),
{
    let ls = lines_exec(&chars_of(ports));
    let ghost lv = lines(ports@);
    let wf = chars_of("Wi-Fi");
    let dev = chars_of("Device:");
    let mut found = false;
    let mut i: usize = 0;
    while i < ls.len()
        invariant
            i <= ls@.len(),
            views(ls@) == lv,
            lv == lines(ports@),
            wf@ == "Wi-Fi"@,
            dev@ == "Device:"@,
            wifi_device_from(lv, 0, false) == wifi_device_from(lv, i as int, found),
        decreases ls@.len() - i,
    {
        let l = &ls[i];
        assert(l@ == lv[i as int]);
        let ghost before = found;
        if contains_exec(l, &wf) {
            found = true;
        }
        assert(found == (before || contains(lv[i as int], "Wi-Fi"@)));
        if found && starts_with_exec(l, &dev) {
            let rest = slice_of(l, dev.len(), l.len());
            assert(rest@ =~= l@.skip(dev@.len() as int));
            let res = trim_exec(&rest);
            assert(wifi_device_from(lv, i as int, before) == Some(res@));
            if res.len() == 0 {
                return string_of(&chars_of("en0"));
            } else {
                return string_of(&res);
            }
        }
        i += 1;
    }
    string_of(&chars_of("en0"))
}

/// The rule for the transmit rate: a `Transmit Rate:`, `MCS Index:` or
/// `PHY Rate:` line gives the trimmed text after its first colon.
pub open spec fn tx_rule() -> spec_fn(Seq<char>) -> Option<Seq<char>> {
    |l: Seq<char>|
        if starts_with(l, "Transmit Rate:"@) || starts_with(l, "MCS Index:"@) || starts_with(l, "PHY Rate:"@) {
            Some(trim(nth_or_empty(split(l, ":"@), 1)))
        } else {
            None
        }
}

/// The signal and noise of a `Signal / Noise:` line with a `/` in its value.
pub open spec fn sn_pair(l: Seq<char>) -> Option<(Seq<char>, Seq<char>)> {
    if starts_with(l, "Signal / Noise:"@) {
        let ps = split(trim(l.skip("Signal / Noise:"@.len() as int)), "/"@);
        if ps.len() >= 2 {
            Some((trim(ps[0]), trim(ps[1])))
        } else {
            None
        }
    } else {
        None
    }
}

/// The rule "a signal/noise line gives its first (signal) or second (noise)
/// value".
pub open spec fn sn_rule(second: bool) -> spec_fn(Seq<char>) -> Option<Seq<char>> {
    |l: Seq<char>|
        match sn_pair(l) {
            Some(p) => if second {
                Some(p.1)
            } else {
                Some(p.0)
            },
            None => None,
        }
}

/// The Wi-Fi interface and network. `ports` is the output of `networksetup
/// -listallhardwareports`, `airport` that of `system_profiler
/// SPAirPortDataType`. Each network field comes from the last trimmed line
/// that carries it; the SSID may be left empty (see [`apply_ssid_fallback`]).
pub fn collect_wifi_info(ports: &str, airport: &str) -> (info: WifiInfo)
    ensures
        info.interface@ == wifi_interface_of(ports@),
        info.ssid@ == last_hit(tlines(airport@), kv("SSID:"@)),
        info.bssid@ == last_hit(tlines(airport@), kv("BSSID:"@)),
        info.channel@ == last_hit(tlines(airport@), kv("Channel:"@)),
        info.rssi@ == last_hit(tlines(airport@), sn_rule(false)),
        info.noise@ == last_hit(tlines(airport@), sn_rule(true)),
        info.tx_rate@ == last_hit(tlines(airport@), tx_rule()),
        info.security_type@ == last_hit(tlines(airport@), kv("Security:"@)),
        info.phy_mode@ == last_hit(tlines(airport@), kv("PHY Mode:"@)),
        info.country_code@ == last_hit(tlines(airport@), kv("Country Code:"@)),
        info.hardware@ == last_hit(tlines(airport@), kv("Card Type:"@)),
{
    let mut info = WifiInfo {
        interface: wifi_interface(ports),
        ssid: String::new(),
        bssid: String::new(),
        channel: String::new(),
        rssi: String::new(),
        noise: String::new(),
        tx_rate: String::new(),
        security_type: String::new(),
        phy_mode: String::new(),
        country_code: String::new(),
        hardware: String::new(),
    };
    let ls = tlines_exec(airport);
    let ghost tl = tlines(airport@);
    let k = lits(&["SSID:", "BSSID:", "Channel:", "Signal / Noise:", "/", "Transmit Rate:", "MCS Index:", "PHY Rate:", ":", "Security:", "PHY Mode:", "Country Code:", "Card Type:"]);
    let mut i: usize = 0;
    while i < ls.len()
        invariant
            i <= ls@.len(),
            views(ls@) == tl,
            info.interface@ == wifi_interface_of(ports@),
            k@.len() == 13,
            k@[0]@ == "SSID:"@,
            k@[1]@ == "BSSID:"@,
            k@[2]@ == "Channel:"@,
            k@[3]@ == "Signal / Noise:"@,
            k@[4]@ == "/"@,
            k@[5]@ == "Transmit Rate:"@,
            k@[6]@ == "MCS Index:"@,
            k@[7]@ == "PHY Rate:"@,
            k@[8]@ == ":"@,
            k@[9]@ == "Security:"@,
            k@[10]@ == "PHY Mode:"@,
            k@[11]@ == "Country Code:"@,
            k@[12]@ == "Card Type:"@,
            info.ssid@ == last_hit(tl.take(i as int), kv("SSID:"@)),
            info.bssid@ == last_hit(tl.take(i as int), kv("BSSID:"@)),
            info.channel@ == last_hit(tl.take(i as int), kv("Channel:"@)),
            info.rssi@ == last_hit(tl.take(i as int), sn_rule(false)),
            info.noise@ == last_hit(tl.take(i as int), sn_rule(true)),
            info.tx_rate@ == last_hit(tl.take(i as int), tx_rule()),
            info.security_type@ == last_hit(tl.take(i as int), kv("Security:"@)),
            info.phy_mode@ == last_hit(tl.take(i as int), kv("PHY Mode:"@)),
            info.country_code@ == last_hit(tl.take(i as int), kv("Country Code:"@)),
            info.hardware@ == last_hit(tl.take(i as int), kv("Card Type:"@)),
        decreases ls@.len() - i,
    {
        let l = &ls[i];
        assert(l@ == tl[i as int]);
        apply_kv(&mut info.ssid, l, &k[0]);
        apply_kv(&mut info.bssid, l, &k[1]);
        apply_kv(&mut info.channel, l, &k[2]);
        if starts_with_exec(l, &k[3]) {
            let rest = slice_of(l, k[3].len(), l.len());
            assert(rest@ =~= l@.skip("Signal / Noise:"@.len() as int));
            let ps = split_exec(&trim_exec(&rest), &k[4]);
            if ps.len() >= 2 {
                assert(views(ps@)[0] == ps@[0]@ && views(ps@)[1] == ps@[1]@);
                info.rssi = string_of(&trim_exec(&ps[0]));
                info.noise = string_of(&trim_exec(&ps[1]));
            }
        }
        if starts_with_exec(l, &k[5]) || starts_with_exec(l, &k[6]) || starts_with_exec(l, &k[7]) {
            let ps = split_exec(l, &k[8]);
            info.tx_rate = string_of(&trim_exec(&nth_or_empty_exec(&ps, 1)));
        }
        apply_kv(&mut info.security_type, l, &k[9]);
        apply_kv(&mut info.phy_mode, l, &k[10]);
        apply_kv(&mut info.country_code, l, &k[11]);
        apply_kv(&mut info.hardware, l, &k[12]);
        proof {
            lemma_last_hit_step(tl, kv("SSID:"@), i as int);
            lemma_last_hit_step(tl, kv("BSSID:"@), i as int);
            lemma_last_hit_step(tl, kv("Channel:"@), i as int);
            lemma_last_hit_step(tl, sn_rule(false), i as int);
            lemma_last_hit_step(tl, sn_rule(true), i as int);
            lemma_last_hit_step(tl, tx_rule(), i as int);
            lemma_last_hit_step(tl, kv("Security:"@), i as int);
            lemma_last_hit_step(tl, kv("PHY Mode:"@), i as int);
            lemma_last_hit_step(tl, kv("Country Code:"@), i as int);
            lemma_last_hit_step(tl, kv("Card Type:"@), i as int);
        }
        i += 1;
    }
    proof {
        lemma_take_all(tl);
    }
    info
}

/// Whether the SSID must be asked for separately (it was not in the report).
pub fn needs_ssid_fallback(info: &WifiInfo) -> (b: bool)
    ensures
        b == (info.ssid@.len() == 0),
{
    info.ssid.as_str().is_empty()
}

/// Fills an empty SSID from the output of `networksetup -getairportnetwork
/// <interface>`: the trimmed text between its first and second colon, when it
/// has a colon. A known SSID is kept.
pub fn apply_ssid_fallback(info: &mut WifiInfo, text: &str)
    ensures
        final(info).interface == old(info).interface,
        final(info).bssid == old(info).bssid,
        final(info).channel == old(info).channel,
        final(info).rssi == old(info).rssi,
        final(info).noise == old(info).noise,
        final(info).tx_rate == old(info).tx_rate,
        final(info).security_type == old(info).security_type,
        final(info).phy_mode == old(info).phy_mode,
        final(info).country_code == old(info).country_code,
        final(info).hardware == old(info).hardware,
        final(info).ssid@ == if old(info).ssid@.len() == 0 && split(text@, ":"@).len() > 1 {
            trim(split(text@, ":"@)[1])
        } else {
            old(info).ssid@
        },
{
    if info.ssid.as_str().is_empty() {
        let ps = split_exec(&chars_of(text), &chars_of(":"));
        if ps.len() > 1 {
            assert(views(ps@)[1] == ps@[1]@);
            info.ssid = string_of(&trim_exec(&ps[1]));
        }
    }
}

} // verus!
