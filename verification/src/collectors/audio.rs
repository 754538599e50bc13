//! Audio devices.
use vstd::prelude::*;
use crate::scan::{is_heading, is_heading_exec, key_value_exec, lemma_take_all, lits, num32_or, num32_or_exec, set_kv, tlines, tlines_exec};
use crate::text::{chars_of, contains, contains_exec, first_word, first_word_exec, split, split_exec, starts_with, starts_with_exec, string_of, strip_end, strip_end_exec, trim, trim_exec, views, CharClass};
use crate::types::{AudioDevice, AudioDeviceV};

verus! {

/// The field names that do not open an audio device section.
pub open spec fn audio_fields() -> Seq<Seq<char>> {
    seq![
        "Manufacturer"@,
        "Sample Rate"@,
        "Source"@,
        "Transport"@,
        "Input"@,
        "Output"@,
        "Channel"@,
        "Default"@,
    ]
}

/// The text after the first colon of `l`, or `0` when it has none.
pub open spec fn after_colon_or_zero(l: Seq<char>) -> Seq<char> {
    let ps = split(l, ":"@);
    if ps.len() > 1 {
        ps[1]
    } else {
        "0"@
    }
}

/// What a line says about the audio device being read.
pub open spec fn audio_update(d: AudioDeviceV, l: Seq<char>) -> AudioDeviceV {
    AudioDeviceV {
        manufacturer: set_kv(d.manufacturer, l, "Manufacturer:"@),
        sample_rate: if starts_with(l, "Current SampleRate:"@) || starts_with(l, "Sample Rate:"@) {
            num32_or(first_word(trim(after_colon_or_zero(l))), 0) as u32
        } else {
            d.sample_rate
        },
        transport: set_kv(d.transport, l, "Transport:"@),
        is_default: if starts_with(l, "Default "@) && contains(l, "Device: Yes"@) {
            true
        } else {
            d.is_default
        },
        ..d
    }
}

/// Where the audio scan stands: the devices completed, the one being read,
/// and whether the report is in an input section.
pub struct AudioScan {
    pub devs: Seq<AudioDeviceV>,
    pub cur: Option<AudioDeviceV>,
    pub input: bool,
}

/// The devices completed so far, with the one being read added.
pub open spec fn audio_keep(devs: Seq<AudioDeviceV>, cur: Option<AudioDeviceV>) -> Seq<AudioDeviceV> {
    match cur {
        Some(d) => devs.push(d),
        None => devs,
    }
}

/// Whether the report is in an input section after line `l`.
pub open spec fn audio_input(input: bool, l: Seq<char>) -> bool {
    if contains(l, "Output:"@) || contains(l, "Output Source:"@) {
        false
    } else if contains(l, "Input:"@) || contains(l, "Input Source:"@) {
        true
    } else {
        input
    }
}

/// One trimmed line of `system_profiler SPAudioDataType`: empty lines are
/// skipped; `Input`/`Output` lines switch the section; a heading starts a new
/// device of the current section; every line fills the device being read.
pub open spec fn audio_step(st: AudioScan, l: Seq<char>) -> AudioScan {
    if l.len() == 0 {
        st
    } else {
        let input = audio_input(st.input, l);
        let st1 = if is_heading(l, audio_fields()) {
            AudioScan {
                devs: audio_keep(st.devs, st.cur),
                cur: Some(
                    AudioDeviceV {
                        name: strip_end(l, CharClass::Exact(':')),
                        manufacturer: seq![],
                        sample_rate: 0,
                        channels: 0,
                        transport: seq![],
                        is_input: input,
                        is_default: false,
                    },
                ),
                input,
            }
        } else {
            AudioScan { input, ..st }
        };
        AudioScan {
            cur: match st1.cur {
                Some(d) => Some(audio_update(d, l)),
                None => None,
            },
            ..st1
        }
    }
}

/// The audio scan after the lines `ls`.
pub open spec fn audio_scan(ls: Seq<Seq<char>>) -> AudioScan
    decreases ls.len(),
{
    if ls.len() == 0 {
        AudioScan { devs: seq![], cur: None, input: false }
    } else {
        audio_step(audio_scan(ls.drop_last()), ls.last())
    }
}

/// The view of an optional device.
pub open spec fn opt_audio(d: Option<AudioDevice>) -> Option<AudioDeviceV> {
    match d {
        Some(x) => Some(x@),
        None => None,
    }
}

fn set_kv_exec(field: &mut String, l: &Vec<char>, key: &Vec<char>)
    ensures
        final(field)@ == set_kv(old(field)@, l@, key@),
{
    if let Some(v) = key_value_exec(l, key) {
        *field = string_of(&v);
    }
}

fn audio_update_exec(d: &mut AudioDevice, l: &Vec<char>, keys: &Vec<Vec<char>>)
    requires
        keys@.len() == 7,
        keys@[0]@ == "Manufacturer:"@,
        keys@[1]@ == "Current SampleRate:"@,
        keys@[2]@ == "Sample Rate:"@,
        keys@[3]@ == "Transport:"@,
        keys@[4]@ == "Default "@,
        keys@[5]@ == "Device: Yes"@,
        keys@[6]@ == ":"@,
    ensures
        final(d)@ == audio_update(old(d)@, l@),
{
    set_kv_exec(&mut d.manufacturer, l, &keys[0]);
    if starts_with_exec(l, &keys[1]) || starts_with_exec(l, &keys[2]) {
        let ps = split_exec(l, &keys[6]);
        let after = if ps.len() > 1 {
            let p = &ps[1];
            crate::text::slice_of(p, 0, p.len())
        } else {
            chars_of("0")
        };
        assert(ps@.len() > 1 ==> after@ == views(ps@)[1]);
        d.sample_rate = num32_or_exec(&first_word_exec(&trim_exec(&after)), 0);
    }
    set_kv_exec(&mut d.transport, l, &keys[3]);
    if starts_with_exec(l, &keys[4]) && contains_exec(l, &keys[5]) {
        d.is_default = true;
    }
}

/// Audio devices from `system_profiler SPAudioDataType`, in the order of
/// their headings, each marked as input or output by the section it is in.
pub fn collect_audio_devices(text: &str) -> (r: Vec<AudioDevice>)
    ensures
        r@.map_values(|d: AudioDevice| d@) == audio_keep(audio_scan(tlines(text@)).devs, audio_scan(tlines(text@)).cur),
{
    let ls = tlines_exec(text);
    let ghost tl = tlines(text@);
    let heads = lits(&["Manufacturer", "Sample Rate", "Source", "Transport", "Input", "Output", "Channel", "Default"]);
    assert(views(heads@) =~= audio_fields());
    let keys = lits(&["Manufacturer:", "Current SampleRate:", "Sample Rate:", "Transport:", "Default ", "Device: Yes", ":"]);
    let sw = lits(&["Input:", "Input Source:", "Output:", "Output Source:"]);
    let mut devs: Vec<AudioDevice> = Vec::new();
    let mut cur: Option<AudioDevice> = None;
    let mut input = false;
    assert(tl.take(0) =~= Seq::<Seq<char>>::empty());
    assert(devs@.map_values(|d: AudioDevice| d@) =~= Seq::<AudioDeviceV>::empty());
    let mut i: usize = 0;
    while i < ls.len()
        invariant
            i <= ls@.len(),
            views(ls@) == tl,
            views(heads@) == audio_fields(),
            keys@.len() == 7,
            keys@[0]@ == "Manufacturer:"@,
            keys@[1]@ == "Current SampleRate:"@,
            keys@[2]@ == "Sample Rate:"@,
            keys@[3]@ == "Transport:"@,
            keys@[4]@ == "Default "@,
            keys@[5]@ == "Device: Yes"@,
            keys@[6]@ == ":"@,
            sw@.len() == 4,
            sw@[0]@ == "Input:"@,
            sw@[1]@ == "Input Source:"@,
            sw@[2]@ == "Output:"@,
            sw@[3]@ == "Output Source:"@,
            (AudioScan { devs: devs@.map_values(|d: AudioDevice| d@), cur: opt_audio(cur), input }) == audio_scan(
                tl.take(i as int),
            ),
        decreases ls@.len() - i,
    {
        let l = &ls[i];
        assert(l@ == tl[i as int]);
        assert(tl.take(i + 1).drop_last() =~= tl.take(i as int));
        if l.len() > 0 {
            if contains_exec(l, &sw[0]) || contains_exec(l, &sw[1]) {
                input = true;
            }
            if contains_exec(l, &sw[2]) || contains_exec(l, &sw[3]) {
                input = false;
            }
            if is_heading_exec(l, &heads) {
                let ghost old_v = devs@.map_values(|d: AudioDevice| d@);
                if let Some(d) = cur {
                    devs.push(d);
                    assert(devs@.map_values(|d: AudioDevice| d@) =~= old_v.push(d@));
                }
                cur = Some(
                    AudioDevice {
                        name: string_of(&strip_end_exec(l, CharClass::Exact(':'))),
                        manufacturer: String::new(),
                        sample_rate: 0,
                        channels: 0,
                        transport: String::new(),
                        is_input: input,
                        is_default: false,
                    },
                );
            }
            match cur {
                Some(mut d) => {
                    audio_update_exec(&mut d, l, &keys);
                    cur = Some(d);
                },
                None => {},
            }
        }
        i += 1;
    }
    proof {
        lemma_take_all(tl);
    }
    let ghost old_v = devs@.map_values(|d: AudioDevice| d@);
    if let Some(d) = cur {
        devs.push(d);
        assert(devs@.map_values(|d: AudioDevice| d@) =~= old_v.push(d@));
    }
    devs
}

} // verus!
