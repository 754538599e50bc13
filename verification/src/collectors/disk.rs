//! Disk hardware details.
use vstd::prelude::*;
use crate::scan::{apply_ck, ck, colon_pair, colon_pair_exec, last_hit, lemma_last_hit_step, lemma_take_all};
use crate::text::{chars_of, lines, lines_exec, views};
use crate::types::DiskHwInfo;

verus! {

/// Boot-disk details from `diskutil info disk0`: each field is the value of
/// the last `key: value` line whose key names it.
pub fn parse_diskutil(text: &str) -> (d: DiskHwInfo)
    ensures
        d.media_name@ == last_hit(lines(text@), ck("Device / Media Name"@)),
        d.protocol@ == last_hit(lines(text@), ck("Protocol"@)),
        d.smart_status@ == last_hit(lines(text@), ck("SMART Status"@)),
        d.disk_size@ == last_hit(lines(text@), ck("Disk Size"@)),
        d.block_size@ == last_hit(lines(text@), ck("Device Block Size"@)),
        d.content@ == last_hit(lines(text@), ck("Content (IOContent)"@)),
        d.device_name@ == last_hit(lines(text@), ck("Device Identifier"@)),
{
    let cs = chars_of(text);
    let ls = lines_exec(&cs);
    let ghost tl = lines(text@);
    let k_media = chars_of("Device / Media Name");
    let k_proto = chars_of("Protocol");
    let k_smart = chars_of("SMART Status");
    let k_size = chars_of("Disk Size");
    let k_block = chars_of("Device Block Size");
    let k_content = chars_of("Content (IOContent)");
    let k_dev = chars_of("Device Identifier");
    let mut d = DiskHwInfo {
        device_name: String::new(),
        media_name: String::new(),
        protocol: String::new(),
        smart_status: String::new(),
        disk_size: String::new(),
        block_size: String::new(),
        content: String::new(),
    };
    let mut i: usize = 0;
    while i < ls.len()
        invariant
            i <= ls@.len(),
            views(ls@) == tl,
            k_media@ == "Device / Media Name"@,
            k_proto@ == "Protocol"@,
            k_smart@ == "SMART Status"@,
            k_size@ == "Disk Size"@,
            k_block@ == "Device Block Size"@,
            k_content@ == "Content (IOContent)"@,
            k_dev@ == "Device Identifier"@,
            d.media_name@ == last_hit(tl.take(i as int), ck("Device / Media Name"@)),
            d.protocol@ == last_hit(tl.take(i as int), ck("Protocol"@)),
            d.smart_status@ == last_hit(tl.take(i as int), ck("SMART Status"@)),
            d.disk_size@ == last_hit(tl.take(i as int), ck("Disk Size"@)),
            d.block_size@ == last_hit(tl.take(i as int), ck("Device Block Size"@)),
            d.content@ == last_hit(tl.take(i as int), ck("Content (IOContent)"@)),
            d.device_name@ == last_hit(tl.take(i as int), ck("Device Identifier"@)),
        decreases ls@.len() - i,
    {
        assert(ls@[i as int]@ == tl[i as int]);
        let pair = colon_pair_exec(&ls[i]);
        apply_ck(&mut d.media_name, &pair, &k_media);
        apply_ck(&mut d.protocol, &pair, &k_proto);
        apply_ck(&mut d.smart_status, &pair, &k_smart);
        apply_ck(&mut d.disk_size, &pair, &k_size);
        apply_ck(&mut d.block_size, &pair, &k_block);
        apply_ck(&mut d.content, &pair, &k_content);
        apply_ck(&mut d.device_name, &pair, &k_dev);
        proof {
            lemma_last_hit_step(tl, ck("Device / Media Name"@), i as int);
            lemma_last_hit_step(tl, ck("Protocol"@), i as int);
            lemma_last_hit_step(tl, ck("SMART Status"@), i as int);
            lemma_last_hit_step(tl, ck("Disk Size"@), i as int);
            lemma_last_hit_step(tl, ck("Device Block Size"@), i as int);
            lemma_last_hit_step(tl, ck("Content (IOContent)"@), i as int);
            lemma_last_hit_step(tl, ck("Device Identifier"@), i as int);
        }
        i += 1;
    }
    proof {
        lemma_take_all(tl);
    }
    d
}

} // verus!
