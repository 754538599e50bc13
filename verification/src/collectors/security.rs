//! System protection settings.
use vstd::prelude::*;
use crate::num::{signed_chars, signed_str};
use crate::scan::{int_or, int_or_exec};
use crate::text::{chars_of, concat, contains, contains_exec, string_of, trim, trim_exec};
use crate::types::SecurityInfo;

verus! {

/// How the firewall's `globalstate` value is described.
pub open spec fn firewall_text(v: int) -> Seq<char> {
    if v == 0 {
        "Off"@
    } else if v == 1 {
        "On (specific services)"@
    } else if v == 2 {
        "On (essential services only)"@
    } else {
        "Unknown ("@ + signed_str(v) + ")"@
    }
}

/// Protection settings. The arguments are the outputs of `csrutil status`,
/// `spctl --status`, `fdesetup status`, and of `defaults read
/// /Library/Preferences/com.apple.alf` for `globalstate`, `stealthenabled`
/// and `allowsignedenabled`.
pub fn collect_security_info(
    sip: &str,
    gatekeeper: &str,
    filevault: &str,
    firewall: &str,
    stealth: &str,
    allow_signed: &str,
) -> (info: SecurityInfo)
    ensures
        info.sip_status@ == trim(sip@),
        info.sip_enabled == contains(sip@, "enabled"@),
        info.gatekeeper_status@ == trim(gatekeeper@),
        info.gatekeeper_enabled == (contains(gatekeeper@, "enabled"@) || contains(gatekeeper@, "assessments enabled"@)),
        info.filevault_status@ == trim(filevault@),
        info.filevault_enabled == contains(filevault@, "On"@),
        info.firewall_enabled == (int_or(trim(firewall@), 0) > 0),
        info.firewall_status@ == firewall_text(int_or(trim(firewall@), 0)),
        info.firewall_stealth == (trim(stealth@) == "1"@),
        info.firewall_block_all == (trim(allow_signed@) == "0"@),
{
    let sip_c = chars_of(sip);
    let gk_c = chars_of(gatekeeper);
    let fv_c = chars_of(filevault);
    let enabled = chars_of("enabled");
    let fw_val = int_or_exec(&trim_exec(&chars_of(firewall)), 0);
    let fw_text = if fw_val == 0 {
        chars_of("Off")
    } else if fw_val == 1 {
        chars_of("On (specific services)")
    } else if fw_val == 2 {
        chars_of("On (essential services only)")
    } else {
        concat(&concat(&chars_of("Unknown ("), &signed_chars(fw_val as i64)), &chars_of(")"))
    };
    let st = trim_exec(&chars_of(stealth));
    let bl = trim_exec(&chars_of(allow_signed));
    SecurityInfo {
        sip_enabled: contains_exec(&sip_c, &enabled),
        gatekeeper_enabled: contains_exec(&gk_c, &enabled) || contains_exec(&gk_c, &chars_of("assessments enabled")),
        filevault_enabled: contains_exec(&fv_c, &chars_of("On")),
        firewall_enabled: fw_val > 0,
        firewall_stealth: crate::text::eq_exec(&st, &chars_of("1")),
        firewall_block_all: crate::text::eq_exec(&bl, &chars_of("0")),
        sip_status: string_of(&trim_exec(&sip_c)),
        gatekeeper_status: string_of(&trim_exec(&gk_c)),
        filevault_status: string_of(&trim_exec(&fv_c)),
        firewall_status: string_of(&fw_text),
    }
}

} // verus!
