//! The Bluetooth controller and its devices.
use vstd::prelude::*;
use crate::scan::{is_heading, is_heading_exec, key_value, key_value_exec, kv, last_hit, last_or, lemma_last_hit_step, lemma_last_or_step, lemma_take_all, lits, set_kv, tlines, tlines_exec};
use crate::text::{chars_of, contains, contains_exec, nth_or_empty, nth_or_empty_exec, split, split_exec, starts_with, starts_with_exec, string_of, strip_end, strip_end_exec, trim, trim_exec, views, CharClass};
use crate::types::{BluetoothInfo, BtDevice, BtDeviceV};

verus! {

/// `s` reads `yes` in any letter case (`s.to_lowercase() == "yes"`; no other
/// character lowercases to these letters).
pub open spec fn is_yes(s: Seq<char>) -> bool {
    s.len() == 3 && (s[0] == 'y' || s[0] == 'Y') && (s[1] == 'e' || s[1] == 'E') && (s[2] == 's' || s[2] == 'S')
}

fn is_yes_exec(s: &Vec<char>) -> (b: bool)
    ensures
        b == is_yes(s@),
{
    s.len() == 3 && (s[0] == 'y' || s[0] == 'Y') && (s[1] == 'e' || s[1] == 'E') && (s[2] == 's' || s[2] == 'S')
}

/// The rule "a line starting with `key` says yes or no in the rest of it".
pub open spec fn yes_rule(key: Seq<char>) -> spec_fn(Seq<char>) -> Option<bool> {
    |l: Seq<char>|
        match key_value(l, key) {
            Some(v) => Some(is_yes(v)),
            None => None,
        }
}

/// The rule for the controller state: a `State:` or `Bluetooth Power:` line
/// gives the trimmed text after its first colon.
pub open spec fn bt_state_rule() -> spec_fn(Seq<char>) -> Option<Seq<char>> {
    |l: Seq<char>|
        if starts_with(l, "State:"@) || starts_with(l, "Bluetooth Power:"@) {
            Some(trim(nth_or_empty(split(l, ":"@), 1)))
        } else {
            None
        }
}

/// The field names that do not open a device section.
pub open spec fn bt_fields() -> Seq<Seq<char>> {
    seq!["Address"@, "Firmware"@, "Vendor"@, "Major"@, "Minor"@, "Connected"@, "Paired"@, "Not"@]
}

/// What a line says about the device being read.
pub open spec fn bt_update(d: BtDeviceV, l: Seq<char>) -> BtDeviceV {
    BtDeviceV {
        address: set_kv(d.address, l, "Address:"@),
        device_type: set_kv(d.device_type, l, "Minor Type:"@),
        firmware: set_kv(d.firmware, l, "Firmware Version:"@),
        connected: match key_value(l, "Connected:"@) {
            Some(v) => is_yes(v),
            None => d.connected,
        },
        ..d
    }
}

/// Where the device scan stands: whether the report is still describing the
/// controller, the devices completed and the one being read.
pub struct BtScan {
    pub in_controller: bool,
    pub devs: Seq<BtDeviceV>,
    pub cur: Option<BtDeviceV>,
}

/// The devices completed so far, with the one being read added.
pub open spec fn bt_keep(devs: Seq<BtDeviceV>, cur: Option<BtDeviceV>) -> Seq<BtDeviceV> {
    match cur {
        Some(d) => devs.push(d),
        None => devs,
    }
}

/// One trimmed line of `system_profiler SPBluetoothDataType`: the first
/// `Connected:`, `Paired:` or `Not Connected:` line ends the controller part;
/// after it a heading starts a new device, and every line fills the device
/// being read.
pub open spec fn bt_step(st: BtScan, l: Seq<char>) -> BtScan {
    if l.len() == 0 {
        st
    } else {
        let inc = st.in_controller && !(contains(l, "Connected:"@) || contains(l, "Paired:"@) || contains(
            l,
            "Not Connected:"@,
        ));
        if inc {
            BtScan { in_controller: true, ..st }
        } else {
            let st1 = if is_heading(l, bt_fields()) {
                BtScan {
                    in_controller: false,
                    devs: bt_keep(st.devs, st.cur),
                    cur: Some(
                        BtDeviceV {
                            name: strip_end(l, CharClass::Exact(':')),
                            address: seq![],
                            device_type: seq![],
                            firmware: seq![],
                            connected: false,
                        },
                    ),
                }
            } else {
                BtScan { in_controller: false, ..st }
            };
            BtScan {
                cur: match st1.cur {
                    Some(d) => Some(bt_update(d, l)),
                    None => None,
                },
                ..st1
            }
        }
    }
}

/// The device scan after the lines `ls`.
pub open spec fn bt_scan(ls: Seq<Seq<char>>) -> BtScan
    decreases ls.len(),
{
    if ls.len() == 0 {
        BtScan { in_controller: true, devs: seq![], cur: None }
    } else {
        bt_step(bt_scan(ls.drop_last()), ls.last())
    }
}

/// The view of an optional device.
pub open spec fn opt_bt(d: Option<BtDevice>) -> Option<BtDeviceV> {
    match d {
        Some(x) => Some(x@),
        None => None,
    }
}

fn set_kv_exec(field: &mut String, l: &Vec<char>, key: &Vec<char>)
    ensures
        final(field)@ == set_kv(old(field)@, l@, key@),
{
    if let Some(v) = key_value_exec(l, key) {
        *field = string_of(&v);
    }
}

fn bt_update_exec(d: &mut BtDevice, l: &Vec<char>, keys: &Vec<Vec<char>>)
    requires
        keys@.len() == 4,
        keys@[0]@ == "Address:"@,
        keys@[1]@ == "Minor Type:"@,
        keys@[2]@ == "Firmware Version:"@,
        keys@[3]@ == "Connected:"@,
    ensures
        final(d)@ == bt_update(old(d)@, l@),
{
    set_kv_exec(&mut d.address, l, &keys[0]);
    set_kv_exec(&mut d.device_type, l, &keys[1]);
    set_kv_exec(&mut d.firmware, l, &keys[2]);
    if let Some(v) = key_value_exec(l, &keys[3]) {
        d.connected = is_yes_exec(&v);
    }
}

fn apply_kv_local(field: &mut String, l: &Vec<char>, key: &Vec<char>)
    ensures
        match key_value(l@, key@) {
            Some(v) => final(field)@ == v,
            None => final(field)@ == old(field)@,
        },
{
    if let Some(v) = key_value_exec(l, key) {
        *field = string_of(&v);
    }
}

/// The Bluetooth controller and its devices, from `system_profiler
/// SPBluetoothDataType`. The controller fields come from the last line that
/// carries each of them; the devices are those after the controller part, in
/// the order of their headings.
pub fn collect_bluetooth(text: &str) -> (info: BluetoothInfo)
    ensures
        info.address@ == last_hit(tlines(text@), kv("Address:"@)),
        info.chipset@ == last_hit(tlines(text@), kv("Chipset:"@)),
        info.firmware@ == last_hit(tlines(text@), kv("Firmware Version:"@)),
        info.transport@ == last_hit(tlines(text@), kv("Transport:"@)),
        info.vendor@ == last_hit(tlines(text@), kv("Vendor ID:"@)),
        info.discoverable == last_or(tlines(text@), yes_rule("Discoverable:"@), false),
        info.state@ == last_hit(tlines(text@), bt_state_rule()),
        info.services@ == Seq::<char>::empty(),
        info.devices@.map_values(|d: BtDevice| d@) == bt_keep(bt_scan(tlines(text@)).devs, bt_scan(tlines(text@)).cur),
{
    let ls = tlines_exec(text);
    let ghost tl = tlines(text@);
    let heads = lits(&["Address", "Firmware", "Vendor", "Major", "Minor", "Connected", "Paired", "Not"]);
    assert(views(heads@) =~= bt_fields());
    let keys = lits(&["Address:", "Minor Type:", "Firmware Version:", "Connected:"]);
    let ck = lits(&["Chipset:", "Transport:", "Vendor ID:", "Discoverable:", "State:", "Bluetooth Power:", ":", "Paired:", "Not Connected:"]);
    let mut address = String::new();
    let mut chipset = String::new();
    let mut firmware = String::new();
    let mut transport = String::new();
    let mut vendor = String::new();
    let mut discoverable = false;
    let mut state = String::new();
    let mut in_controller = true;
    let mut devs: Vec<BtDevice> = Vec::new();
    let mut cur: Option<BtDevice> = None;
    assert(tl.take(0) =~= Seq::<Seq<char>>::empty());
    assert(devs@.map_values(|d: BtDevice| d@) =~= Seq::<BtDeviceV>::empty());
    let mut i: usize = 0;
    while i < ls.len()
        invariant
            i <= ls@.len(),
            views(ls@) == tl,
            views(heads@) == bt_fields(),
            keys@.len() == 4,
            keys@[0]@ == "Address:"@,
            keys@[1]@ == "Minor Type:"@,
            keys@[2]@ == "Firmware Version:"@,
            keys@[3]@ == "Connected:"@,
            ck@.len() == 9,
            ck@[0]@ == "Chipset:"@,
            ck@[1]@ == "Transport:"@,
            ck@[2]@ == "Vendor ID:"@,
            ck@[3]@ == "Discoverable:"@,
            ck@[4]@ == "State:"@,
            ck@[5]@ == "Bluetooth Power:"@,
            ck@[6]@ == ":"@,
            ck@[7]@ == "Paired:"@,
            ck@[8]@ == "Not Connected:"@,
            address@ == last_hit(tl.take(i as int), kv("Address:"@)),
            chipset@ == last_hit(tl.take(i as int), kv("Chipset:"@)),
            firmware@ == last_hit(tl.take(i as int), kv("Firmware Version:"@)),
            transport@ == last_hit(tl.take(i as int), kv("Transport:"@)),
            vendor@ == last_hit(tl.take(i as int), kv("Vendor ID:"@)),
            discoverable == last_or(tl.take(i as int), yes_rule("Discoverable:"@), false),
            state@ == last_hit(tl.take(i as int), bt_state_rule()),
            (BtScan { in_controller, devs: devs@.map_values(|d: BtDevice| d@), cur: opt_bt(cur) }) == bt_scan(
                tl.take(i as int),
            ),
        decreases ls@.len() - i,
    {
        let l = &ls[i];
        assert(l@ == tl[i as int]);
        assert(tl.take(i + 1).drop_last() =~= tl.take(i as int));
        apply_kv_local(&mut address, l, &keys[0]);
        apply_kv_local(&mut chipset, l, &ck[0]);
        apply_kv_local(&mut firmware, l, &keys[2]);
        apply_kv_local(&mut transport, l, &ck[1]);
        apply_kv_local(&mut vendor, l, &ck[2]);
        if let Some(v) = key_value_exec(l, &ck[3]) {
            discoverable = is_yes_exec(&v);
        }
        if starts_with_exec(l, &ck[4]) || starts_with_exec(l, &ck[5]) {
            let ps = split_exec(l, &ck[6]);
            state = string_of(&trim_exec(&nth_or_empty_exec(&ps, 1)));
        }
        proof {
            lemma_last_hit_step(tl, kv("Address:"@), i as int);
            lemma_last_hit_step(tl, kv("Chipset:"@), i as int);
            lemma_last_hit_step(tl, kv("Firmware Version:"@), i as int);
            lemma_last_hit_step(tl, kv("Transport:"@), i as int);
            lemma_last_hit_step(tl, kv("Vendor ID:"@), i as int);
            lemma_last_or_step(tl, yes_rule("Discoverable:"@), false, i as int);
            lemma_last_hit_step(tl, bt_state_rule(), i as int);
        }
        if l.len() > 0 {
            if contains_exec(l, &keys[3]) || contains_exec(l, &ck[7]) || contains_exec(l, &ck[8]) {
                in_controller = false;
            }
            if !in_controller {
                if is_heading_exec(l, &heads) {
                    let ghost old_v = devs@.map_values(|d: BtDevice| d@);
                    if let Some(d) = cur {
                        devs.push(d);
                        assert(devs@.map_values(|d: BtDevice| d@) =~= old_v.push(d@));
                    }
                    cur = Some(
                        BtDevice {
                            name: string_of(&strip_end_exec(l, CharClass::Exact(':'))),
                            address: String::new(),
                            device_type: String::new(),
                            firmware: String::new(),
                            connected: false,
                        },
                    );
                }
                match cur {
                    Some(mut d) => {
                        bt_update_exec(&mut d, l, &keys);
                        cur = Some(d);
                    },
                    None => {},
                }
            }
        }
        i += 1;
    }
    proof {
        lemma_take_all(tl);
    }
    let ghost old_v = devs@.map_values(|d: BtDevice| d@);
    if let Some(d) = cur {
        devs.push(d);
        assert(devs@.map_values(|d: BtDevice| d@) =~= old_v.push(d@));
    }
    BluetoothInfo {
        address,
        chipset,
        firmware,
        transport,
        discoverable,
        state,
        vendor,
        services: String::new(),
        devices: devs,
    }
}

} // verus!
