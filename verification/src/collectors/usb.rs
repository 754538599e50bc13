//! USB and Thunderbolt devices.
use vstd::prelude::*;
use crate::scan::{is_heading, is_heading_exec, key_value, key_value_exec, lemma_take_all, lits, set_kv, tlines, tlines_exec};
use crate::text::{chars_of, nth_or_empty, nth_or_empty_exec, split, split_exec, starts_with, starts_with_exec, string_of, strip_end, strip_end_exec, trim, trim_exec, views, CharClass};
use crate::types::{ThunderboltInfo, UsbDevice, UsbDeviceV};

verus! {

/// The field names that do not open a USB device section.
pub open spec fn usb_fields() -> Seq<Seq<char>> {
    seq!["Product ID"@, "Vendor ID"@, "Speed"@, "Location"@, "Serial"@, "Bus Power"@, "USB"@]
}

/// A new USB device named by a heading line.
pub open spec fn usb_new(l: Seq<char>) -> UsbDeviceV {
    UsbDeviceV {
        name: strip_end(l, CharClass::Exact(':')),
        vendor: seq![],
        product_id: seq![],
        vendor_id: seq![],
        speed: seq![],
        bus_power: seq![],
        serial: seq![],
        location: seq![],
    }
}

/// What a line says about the USB device being read.
pub open spec fn usb_update(d: UsbDeviceV, l: Seq<char>) -> UsbDeviceV {
    UsbDeviceV {
        product_id: set_kv(d.product_id, l, "Product ID:"@),
        vendor_id: set_kv(d.vendor_id, l, "Vendor ID:"@),
        vendor: if starts_with(l, "Vendor ID:"@) {
            d.vendor
        } else {
            set_kv(d.vendor, l, "Vendor:"@)
        },
        speed: set_kv(d.speed, l, "Speed:"@),
        bus_power: if starts_with(l, "Bus Power"@) {
            trim(nth_or_empty(split(l, ":"@), 1))
        } else {
            d.bus_power
        },
        serial: set_kv(d.serial, l, "Serial Number:"@),
        location: set_kv(d.location, l, "Location ID:"@),
        ..d
    }
}

/// Where the USB scan stands: the devices completed and the one being read.
pub struct UsbScan {
    pub devs: Seq<UsbDeviceV>,
    pub cur: Option<UsbDeviceV>,
}

/// The devices completed so far, with `d` added when it has a name.
pub open spec fn usb_keep(devs: Seq<UsbDeviceV>, cur: Option<UsbDeviceV>) -> Seq<UsbDeviceV> {
    match cur {
        Some(d) => if d.name.len() > 0 {
            devs.push(d)
        } else {
            devs
        },
        None => devs,
    }
}

/// One trimmed line of `system_profiler SPUSBDataType`: empty lines are
/// skipped, a heading starts a new device, and every line fills the device
/// being read.
pub open spec fn usb_step(st: UsbScan, l: Seq<char>) -> UsbScan {
    if l.len() == 0 {
        st
    } else {
        let st1 = if is_heading(l, usb_fields()) {
            UsbScan { devs: usb_keep(st.devs, st.cur), cur: Some(usb_new(l)) }
        } else {
            st
        };
        UsbScan {
            devs: st1.devs,
            cur: match st1.cur {
                Some(d) => Some(usb_update(d, l)),
                None => None,
            },
        }
    }
}

/// The USB scan after the lines `ls`.
pub open spec fn usb_scan(ls: Seq<Seq<char>>) -> UsbScan
    decreases ls.len(),
{
    if ls.len() == 0 {
        UsbScan { devs: seq![], cur: None }
    } else {
        usb_step(usb_scan(ls.drop_last()), ls.last())
    }
}

fn set_kv_exec(field: &mut String, l: &Vec<char>, key: &Vec<char>)
    ensures
        final(field)@ == set_kv(old(field)@, l@, key@),
{
    if let Some(v) = key_value_exec(l, key) {
        *field = string_of(&v);
    }
}

fn usb_update_exec(d: &mut UsbDevice, l: &Vec<char>, keys: &Vec<Vec<char>>)
    requires
        keys@.len() == 8,
        keys@[0]@ == "Product ID:"@,
        keys@[1]@ == "Vendor ID:"@,
        keys@[2]@ == "Vendor:"@,
        keys@[3]@ == "Speed:"@,
        keys@[4]@ == "Bus Power"@,
        keys@[5]@ == "Serial Number:"@,
        keys@[6]@ == "Location ID:"@,
        keys@[7]@ == ":"@,
    ensures
        final(d)@ == usb_update(old(d)@, l@),
{
    set_kv_exec(&mut d.product_id, l, &keys[0]);
    if starts_with_exec(l, &keys[1]) {
        set_kv_exec(&mut d.vendor_id, l, &keys[1]);
    } else {
        set_kv_exec(&mut d.vendor, l, &keys[2]);
    }
    set_kv_exec(&mut d.speed, l, &keys[3]);
    if starts_with_exec(l, &keys[4]) {
        let ps = split_exec(l, &keys[7]);
        d.bus_power = string_of(&trim_exec(&nth_or_empty_exec(&ps, 1)));
    }
    set_kv_exec(&mut d.serial, l, &keys[5]);
    set_kv_exec(&mut d.location, l, &keys[6]);
}

fn usb_new_exec(l: &Vec<char>) -> (d: UsbDevice)
    ensures
        d@ == usb_new(l@),
{
    UsbDevice {
        name: string_of(&strip_end_exec(l, CharClass::Exact(':'))),
        vendor: String::new(),
        product_id: String::new(),
        vendor_id: String::new(),
        speed: String::new(),
        bus_power: String::new(),
        serial: String::new(),
        location: String::new(),
    }
}

/// The view of an optional device.
pub open spec fn opt_usb(d: Option<UsbDevice>) -> Option<UsbDeviceV> {
    match d {
        Some(x) => Some(x@),
        None => None,
    }
}

fn usb_keep_exec(devs: &mut Vec<UsbDevice>, cur: Option<UsbDevice>)
    ensures
        final(devs)@.map_values(|d: UsbDevice| d@) == usb_keep(old(devs)@.map_values(|d: UsbDevice| d@), opt_usb(cur)),
{
    let ghost old_v = devs@.map_values(|d: UsbDevice| d@);
    if let Some(d) = cur {
        if !d.name.as_str().is_empty() {
            devs.push(d);
            assert(devs@.map_values(|d: UsbDevice| d@) =~= old_v.push(d@));
        }
    }
}

/// USB devices from `system_profiler SPUSBDataType`, in the order of their
/// headings; devices without a name are left out.
pub fn collect_usb_devices(text: &str) -> (r: Vec<UsbDevice>)
    ensures
        r@.map_values(|d: UsbDevice| d@) == usb_keep(usb_scan(tlines(text@)).devs, usb_scan(tlines(text@)).cur),
{
    let ls = tlines_exec(text);
    let ghost tl = tlines(text@);
    let heads = lits(&["Product ID", "Vendor ID", "Speed", "Location", "Serial", "Bus Power", "USB"]);
    assert(views(heads@) =~= usb_fields());
    let keys = lits(&["Product ID:", "Vendor ID:", "Vendor:", "Speed:", "Bus Power", "Serial Number:", "Location ID:", ":"]);
    let mut devs: Vec<UsbDevice> = Vec::new();
    let mut cur: Option<UsbDevice> = None;
    assert(tl.take(0) =~= Seq::<Seq<char>>::empty());
    assert(devs@.map_values(|d: UsbDevice| d@) =~= Seq::<UsbDeviceV>::empty());
    let mut i: usize = 0;
    while i < ls.len()
        invariant
            i <= ls@.len(),
            views(ls@) == tl,
            views(heads@) == usb_fields(),
            keys@.len() == 8,
            keys@[0]@ == "Product ID:"@,
            keys@[1]@ == "Vendor ID:"@,
            keys@[2]@ == "Vendor:"@,
            keys@[3]@ == "Speed:"@,
            keys@[4]@ == "Bus Power"@,
            keys@[5]@ == "Serial Number:"@,
            keys@[6]@ == "Location ID:"@,
            keys@[7]@ == ":"@,
            (UsbScan { devs: devs@.map_values(|d: UsbDevice| d@), cur: opt_usb(cur) }) == usb_scan(tl.take(i as int)),
        decreases ls@.len() - i,
    {
        let l = &ls[i];
        assert(l@ == tl[i as int]);
        assert(tl.take(i + 1).drop_last() =~= tl.take(i as int));
        if l.len() > 0 {
            if is_heading_exec(l, &heads) {
                let prev = cur;
                usb_keep_exec(&mut devs, prev);
                cur = Some(usb_new_exec(l));
            }
            match cur {
                Some(mut d) => {
                    usb_update_exec(&mut d, l, &keys);
                    cur = Some(d);
                },
                None => {},
            }
        }
        i += 1;
    }
    proof {
        lemma_take_all(tl);
    }
    usb_keep_exec(&mut devs, cur);
    devs
}

} // verus!

verus! {

/// Where the Thunderbolt scan stands: the ports completed and the fields of
/// the one being read.
pub struct TbScan {
    pub devs: Seq<crate::types::ThunderboltInfoV>,
    pub name: Seq<char>,
    pub speed: Seq<char>,
    pub uuid: Seq<char>,
    pub link: Seq<char>,
}

/// The port being read.
pub open spec fn tb_current(st: TbScan) -> crate::types::ThunderboltInfoV {
    crate::types::ThunderboltInfoV { device_name: st.name, speed: st.speed, uuid: st.uuid, link_status: st.link }
}

/// The field names that do not open a Thunderbolt section.
pub open spec fn tb_fields() -> Seq<Seq<char>> {
    seq!["Speed"@, "UUID"@, "Link"@]
}

/// One trimmed line of `system_profiler SPThunderboltDataType`: empty lines
/// are skipped; a heading completes the port being read (when it has a name)
/// and starts a new one; `Speed:`, `UUID:` and `Link Status:` lines fill it.
pub open spec fn tb_step(st: TbScan, l: Seq<char>) -> TbScan {
    if l.len() == 0 {
        st
    } else {
        let st1 = if is_heading(l, tb_fields()) {
            TbScan {
                devs: if st.name.len() > 0 {
                    st.devs.push(tb_current(st))
                } else {
                    st.devs
                },
                name: strip_end(l, CharClass::Exact(':')),
                speed: seq![],
                uuid: seq![],
                link: seq![],
            }
        } else {
            st
        };
        TbScan {
            speed: set_kv(st1.speed, l, "Speed:"@),
            uuid: set_kv(st1.uuid, l, "UUID:"@),
            link: set_kv(st1.link, l, "Link Status:"@),
            ..st1
        }
    }
}

/// The Thunderbolt scan after the lines `ls`.
pub open spec fn tb_scan(ls: Seq<Seq<char>>) -> TbScan
    decreases ls.len(),
{
    if ls.len() == 0 {
        TbScan { devs: seq![], name: seq![], speed: seq![], uuid: seq![], link: seq![] }
    } else {
        tb_step(tb_scan(ls.drop_last()), ls.last())
    }
}

/// The ports of a finished scan: those completed, and the last one when it
/// has a name.
pub open spec fn tb_result(st: TbScan) -> Seq<crate::types::ThunderboltInfoV> {
    if st.name.len() > 0 {
        st.devs.push(tb_current(st))
    } else {
        st.devs
    }
}

fn tb_make(name: &Vec<char>, speed: &Vec<char>, uuid: &Vec<char>, link: &Vec<char>) -> (t: ThunderboltInfo)
    ensures
        t@ == (crate::types::ThunderboltInfoV { device_name: name@, speed: speed@, uuid: uuid@, link_status: link@ }),
{
    ThunderboltInfo {
        device_name: string_of(name),
        speed: string_of(speed),
        uuid: string_of(uuid),
        link_status: string_of(link),
    }
}

fn set_kv_chars(field: &mut Vec<char>, l: &Vec<char>, key: &Vec<char>)
    ensures
        final(field)@ == set_kv(old(field)@, l@, key@),
{
    if let Some(v) = key_value_exec(l, key) {
        *field = v;
    }
}

/// Thunderbolt ports from `system_profiler SPThunderboltDataType`, in the
/// order of their headings.
pub fn collect_thunderbolt(text: &str) -> (r: Vec<ThunderboltInfo>)
    ensures
        r@.map_values(|t: ThunderboltInfo| t@) == tb_result(tb_scan(tlines(text@))),
{
    let ls = tlines_exec(text);
    let ghost tl = tlines(text@);
    let heads = lits(&["Speed", "UUID", "Link"]);
    assert(views(heads@) =~= tb_fields());
    let k_speed = chars_of("Speed:");
    let k_uuid = chars_of("UUID:");
    let k_link = chars_of("Link Status:");
    let mut devs: Vec<ThunderboltInfo> = Vec::new();
    let mut name: Vec<char> = Vec::new();
    let mut speed: Vec<char> = Vec::new();
    let mut uuid: Vec<char> = Vec::new();
    let mut link: Vec<char> = Vec::new();
    assert(tl.take(0) =~= Seq::<Seq<char>>::empty());
    assert(devs@.map_values(|t: ThunderboltInfo| t@) =~= Seq::<crate::types::ThunderboltInfoV>::empty());
    let mut i: usize = 0;
    while i < ls.len()
        invariant
            i <= ls@.len(),
            views(ls@) == tl,
            views(heads@) == tb_fields(),
            k_speed@ == "Speed:"@,
            k_uuid@ == "UUID:"@,
            k_link@ == "Link Status:"@,
            (TbScan {
                devs: devs@.map_values(|t: ThunderboltInfo| t@),
                name: name@,
                speed: speed@,
                uuid: uuid@,
                link: link@,
            }) == tb_scan(tl.take(i as int)),
        decreases ls@.len() - i,
    {
        let l = &ls[i];
        assert(l@ == tl[i as int]);
        assert(tl.take(i + 1).drop_last() =~= tl.take(i as int));
        if l.len() > 0 {
            if is_heading_exec(l, &heads) {
                if name.len() > 0 {
                    let ghost old_v = devs@.map_values(|t: ThunderboltInfo| t@);
                    let t = tb_make(&name, &speed, &uuid, &link);
                    devs.push(t);
                    assert(devs@.map_values(|t: ThunderboltInfo| t@) =~= old_v.push(t@));
                }
                name = strip_end_exec(l, CharClass::Exact(':'));
                speed = Vec::new();
                uuid = Vec::new();
                link = Vec::new();
            }
            set_kv_chars(&mut speed, l, &k_speed);
            set_kv_chars(&mut uuid, l, &k_uuid);
            set_kv_chars(&mut link, l, &k_link);
        }
        i += 1;
    }
    proof {
        lemma_take_all(tl);
    }
    if name.len() > 0 {
        let ghost old_v = devs@.map_values(|t: ThunderboltInfo| t@);
        let t = tb_make(&name, &speed, &uuid, &link);
        devs.push(t);
        assert(devs@.map_values(|t: ThunderboltInfo| t@) =~= old_v.push(t@));
    }
    devs
}

} // verus!
