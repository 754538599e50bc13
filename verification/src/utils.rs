//! Small helpers shared by the collectors and the interface.
use vstd::prelude::*;
use crate::collectors::memory::{lowercase, lowercase_of};
use crate::num::{dec_chars, digit_char_exec};
use crate::sort::{equivalent, insert_from, lemma_lex_equivalent, lemma_stable_sort_stable, peers, weak_order, lemma_insert_from_range, lemma_stable_sort_len, lemma_lex_lt_strict, lemma_stable_sort_perm, lemma_stable_sort_push, lemma_stable_sort_sorted, lex_lt, lex_lt_exec, sorted_by, sorted_insert, stable_sort, strict_order};
use crate::types::{FileEntry, FileEntryV, SortMode};
use vstd::utf8::{decode_utf8, is_char_boundary};
use vstd::string::StringSliceAdditionalSpecFns;
use crate::text::{starts_with, starts_with_exec, concat, chars_of, contains, contains_exec, find, find_exec, lemma_find, slice_of, string_of, strip_both, strip_both_exec, strip_end, strip_end_exec, trim, trim_exec, CharClass};

verus! {

/// The value printed by `sysctl -n key`: the command's output without
/// surrounding white space.
pub fn sysctl_val(output: &str) -> (r: String)
    ensures
        r@ == trim(output@),
{
    let cs = chars_of(output);
    string_of(&trim_exec(&cs))
}

} // verus!

verus! {

/// What follows the first colon of `l`, or the empty text when there is none
/// (the pieces after the first of `l.split(':')`, joined again with `:`).
pub open spec fn after_colon(l: Seq<char>) -> Seq<char> {
    let i = find(l, ":"@);
    if i < 0 {
        seq![]
    } else {
        l.skip(i + 1)
    }
}

/// The value of a JSON member on a single line: `None` when the line does not
/// hold `key`; otherwise what follows the first colon, trimmed, stripped of
/// quotes and a trailing comma, or `None` when nothing is left.
pub open spec fn json_value(line: Seq<char>, key: Seq<char>) -> Option<Seq<char>> {
    if !contains(line, key) {
        None
    } else {
        let t = strip_both(
            strip_end(strip_both(trim(after_colon(line)), CharClass::Exact('"')), CharClass::Exact(',')),
            CharClass::Exact('"'),
        );
        if t.len() == 0 {
            None
        } else {
            Some(t)
        }
    }
}

/// Executable form of [`json_value`] on character vectors.
pub fn json_value_exec(line: &Vec<char>, key: &Vec<char>) -> (r: Option<Vec<char>>)
    ensures
        match r {
            Some(v) => json_value(line@, key@) == Some(v@),
            None => json_value(line@, key@) is None,
        },
{
    if !contains_exec(line, key) {
        return None;
    }
    let colon = chars_of(":");
    proof {
        reveal_strlit(":");
        lemma_find(line@, colon@);
    }
    let n = line.len();
    let v = match find_exec(line, &colon, 0) {
        Some(i) => slice_of(line, i + 1, n),
        None => Vec::new(),
    };
    assert(v@ =~= after_colon(line@));
    let t1 = strip_both_exec(&trim_exec(&v), CharClass::Exact('"'));
    let t2 = strip_end_exec(&t1, CharClass::Exact(','));
    let t = strip_both_exec(&t2, CharClass::Exact('"'));
    if t.len() == 0 {
        None
    } else {
        Some(t)
    }
}

/// Extracts the value of the JSON member `key` from a single line of JSON text.
pub fn extract_json(line: &str, key: &str) -> (r: Option<String>)
    ensures
        match r {
            Some(v) => json_value(line@, key@) == Some(v@),
            None => json_value(line@, key@) is None,
        },
{
    match json_value_exec(&chars_of(line), &chars_of(key)) {
        Some(v) => Some(string_of(&v)),
        None => None,
    }
}

} // verus!

verus! {

/// Two to the power `e`.
pub open spec fn p2(e: nat) -> nat
    decreases e,
{
    if e == 0 {
        1
    } else {
        2 * p2((e - 1) as nat)
    }
}

/// `a / b` rounded to the nearest integer, ties to the even one.
pub open spec fn div_round_even(a: nat, b: nat) -> nat {
    let q = a / b;
    let r = a % b;
    if 2 * r < b {
        q
    } else if 2 * r > b {
        q + 1
    } else if q % 2 == 0 {
        q
    } else {
        q + 1
    }
}

/// The number of low bits that `n` loses when it is stored in a binary64
/// float: the least `e` from which on `n / 2^e` fits in 53 bits.
pub open spec fn f64_exp_from(n: nat, e: nat) -> nat
    decreases n / p2(e),
{
    if n / p2(e) < 0x20_0000_0000_0000 {
        e
    } else {
        proof {
            lemma_half_step(n, e);
        }
        f64_exp_from(n, e + 1)
    }
}

/// The value of `n as f64`: `n` rounded to 53 significant bits, ties to even.
pub open spec fn f64_of(n: nat) -> nat {
    let u = p2(f64_exp_from(n, 0));
    div_round_even(n, u) * u
}

pub proof fn lemma_p2_pos(e: nat)
    ensures
        p2(e) >= 1,
    decreases e,
{
    if e > 0 {
        lemma_p2_pos((e - 1) as nat);
    }
}

pub proof fn lemma_half_step(n: nat, e: nat)
    ensures
        n / p2(e + 1) == (n / p2(e)) / 2,
        n / p2(e) >= 1 ==> n / p2(e + 1) < n / p2(e),
{
    lemma_p2_pos(e);
    let a = p2(e);
    assert(p2(e + 1) == 2 * a);
    vstd::arithmetic::div_mod::lemma_div_denominator(n as int, a as int, 2);
}

/// Writes `n / 10^d` with `d` decimals: the integer part, a point, and the
/// last `d` digits of `n` (here `d` is 1 or 2).
pub open spec fn fixed_str(n: nat, d: nat) -> Seq<char> {
    if d == 1 {
        crate::num::dec_str(n / 10) + "."@ + seq![crate::num::digit_char((n % 10) as int)]
    } else {
        crate::num::dec_str(n / 100) + "."@ + seq![
            crate::num::digit_char(((n % 100) / 10) as int),
            crate::num::digit_char((n % 10) as int),
        ]
    }
}

/// A byte count in human-readable form: gigabytes with two decimals from
/// 2^30 bytes on, megabytes with one decimal from 2^20 on, kilobytes with one
/// decimal from 1024 on, and plain bytes below. The decimals are those of the
/// count converted to a binary64 float and divided by the unit, rounded to the
/// nearest with ties to even.
pub open spec fn hs_text(bytes: nat) -> Seq<char> {
    if bytes >= 0x4000_0000 {
        fixed_str(div_round_even(f64_of(bytes) * 100, 0x4000_0000), 2) + " GB"@
    } else if bytes >= 0x10_0000 {
        fixed_str(div_round_even(bytes * 10, 0x10_0000), 1) + " MB"@
    } else if bytes >= 1024 {
        fixed_str(div_round_even(bytes * 10, 1024), 1) + " KB"@
    } else {
        crate::num::dec_str(bytes) + " B"@
    }
}

fn div_round_even_exec(a: u128, b: u128) -> (r: u128)
    requires
        b > 0,
        a / b < u128::MAX,
    ensures
        r == div_round_even(a as nat, b as nat),
{
    let q = a / b;
    let r = a % b;
    if r < b - r {
        q
    } else if r > b - r {
        q + 1
    } else if q % 2 == 0 {
        q
    } else {
        q + 1
    }
}

/// The value of `n as f64`, as an integer.
fn f64_value(n: u64) -> (v: u128)
    ensures
        v == f64_of(n as nat),
        v < 0x1_0000_0000_0001_0000,
{
    let mut m: u64 = n;
    let mut u: u128 = 1;
    let ghost mut e: nat = 0;
    proof {
        assert(p2(0) == 1);
    }
    while m >= 0x20_0000_0000_0000
        invariant
            u == p2(e),
            m == (n as nat) / p2(e),
            f64_exp_from(n as nat, 0) == f64_exp_from(n as nat, e),
            u == 1 || u * 0x10_0000_0000_0000 <= n as nat,
        decreases m,
    {
        proof {
            lemma_half_step(n as nat, e);
            lemma_p2_pos(e);
            vstd::arithmetic::div_mod::lemma_fundamental_div_mod(n as int, u as int);
            assert(u * 0x20_0000_0000_0000 <= n) by (nonlinear_arith)
                requires
                    m == (n as nat) / (u as nat),
                    m >= 0x20_0000_0000_0000,
                    u >= 1,
                    n == u * m + (n as nat) % (u as nat),
                    (n as nat) % (u as nat) >= 0,
            ;
        }
        m = m / 2;
        u = u * 2;
        proof {
            e = e + 1;
        }
    }
    proof {
        lemma_p2_pos(e);
        vstd::arithmetic::div_mod::lemma_fundamental_div_mod(n as int, u as int);
    }
    let nn = n as u128;
    let q = div_round_even_exec(nn, u);
    proof {
        assert(q <= (m as nat) + 1);
        assert(q * u < 0x1_0000_0000_0001_0000) by (nonlinear_arith)
            requires
                q <= m + 1,
                u >= 1,
                (n as nat) < 0x1_0000_0000_0000_0000,
                u as nat * (m as nat) <= n as nat,
                u == 1 || u * 0x10_0000_0000_0000 <= n as nat,
        {
            assert(q * u <= m * u + u);
        }
    }
    q * u
}

} // verus!

verus! {

fn fixed_chars(n: u128, d: u8) -> (r: Vec<char>)
    requires
        d == 1 || d == 2,
        n < 0x1_0000_0000_0000_0000 * 10,
    ensures
        r@ == fixed_str(n as nat, d as nat),
{
    let point = chars_of(".");
    if d == 1 {
        let int_part = (n / 10) as u64;
        let mut r = concat(&dec_chars(int_part), &point);
        r.push(digit_char_exec((n % 10) as u64));
        r
    } else {
        let int_part = (n / 100) as u64;
        let mut r = concat(&dec_chars(int_part), &point);
        r.push(digit_char_exec(((n % 100) / 10) as u64));
        r.push(digit_char_exec((n % 10) as u64));
        r
    }
}

/// Human-readable size of a byte count (see [`hs_text`]).
pub fn hs(bytes: u64) -> (r: String)
    ensures
        r@ == hs_text(bytes as nat),
{
    let b = bytes as u128;
    let r = if bytes >= 0x4000_0000 {
        let v = f64_value(bytes);
        let n = div_round_even_exec(v * 100, 0x4000_0000);
        concat(&fixed_chars(n, 2), &chars_of(" GB"))
    } else if bytes >= 0x10_0000 {
        let n = div_round_even_exec(b * 10, 0x10_0000);
        concat(&fixed_chars(n, 1), &chars_of(" MB"))
    } else if bytes >= 1024 {
        let n = div_round_even_exec(b * 10, 1024);
        concat(&fixed_chars(n, 1), &chars_of(" KB"))
    } else {
        concat(&dec_chars(bytes), &chars_of(" B"))
    };
    string_of(&r)
}

/// Human-readable size of a byte count held in a `usize` (see [`hs_text`]).
pub fn hsu(b: usize) -> (r: String)
    ensures
        r@ == hs_text(b as nat),
{
    hs(b as u64)
}

} // verus!

verus! {

/// The text `trunc` shows: `s` itself when its UTF-8 encoding is at most `m`
/// bytes long, otherwise `…` followed by the text of its last `m - 1` bytes.
pub open spec fn trunc_text(s: &str, m: nat) -> Seq<char> {
    let b = s.spec_bytes();
    if b.len() <= m {
        s@
    } else {
        seq!['…'] + decode_utf8(b.subrange(b.len() - m + 1, b.len() as int))
    }
}

/// Shortens a text: one of more than `m` bytes keeps only its last `m - 1`
/// bytes, after a `…`. For such a text `m` must be at least 1 and the cut
/// must fall on a character boundary.
pub fn trunc(s: &str, m: usize) -> (r: String)
    requires
        s.spec_bytes().len() <= m || (m >= 1 && is_char_boundary(
            s.spec_bytes(),
            s.spec_bytes().len() - m + 1,
        )),
    ensures
        r@ == trunc_text(s, m as nat),
{
    let n: usize = s.as_bytes().len();
    assert(n == s.spec_bytes().len());
    proof {
        vstd::utf8::encode_utf8_valid_utf8(s@);
    }
    if s.len() <= m {
        s.to_owned()
    } else {
        let (_, t) = s.split_at(s.len() - m + 1);
        proof {
            vstd::utf8::encode_utf8_decode_utf8(t@);
        }
        let mark = vec!['…'];
        string_of(&concat(&mark, &chars_of(t)))
    }
}

/// Whether `p` lies under one of the macOS system locations or a hidden
/// top-level directory.
pub open spec fn system_path(p: Seq<char>) -> bool {
    ||| starts_with(p, "/System"@)
    ||| starts_with(p, "/Library"@)
    ||| starts_with(p, "/usr"@)
    ||| starts_with(p, "/bin"@)
    ||| starts_with(p, "/sbin"@)
    ||| starts_with(p, "/var"@)
    ||| starts_with(p, "/private"@)
    ||| starts_with(p, "/etc"@)
    ||| starts_with(p, "/dev"@)
    ||| starts_with(p, "/tmp"@)
    ||| starts_with(p, "/cores"@)
    ||| starts_with(p, "/.fseventsd"@)
    ||| starts_with(p, "/.Spotlight"@)
    ||| starts_with(p, "/."@)
}

/// Whether `p` is a macOS system path (see [`system_path`]).
pub fn is_system_path(p: &str) -> (b: bool)
    ensures
        b == system_path(p@),
{
    let cs = chars_of(p);
    starts_with_exec(&cs, &chars_of("/System")) || starts_with_exec(&cs, &chars_of("/Library"))
        || starts_with_exec(&cs, &chars_of("/usr")) || starts_with_exec(&cs, &chars_of("/bin"))
        || starts_with_exec(&cs, &chars_of("/sbin")) || starts_with_exec(&cs, &chars_of("/var"))
        || starts_with_exec(&cs, &chars_of("/private")) || starts_with_exec(&cs, &chars_of("/etc"))
        || starts_with_exec(&cs, &chars_of("/dev")) || starts_with_exec(&cs, &chars_of("/tmp"))
        || starts_with_exec(&cs, &chars_of("/cores")) || starts_with_exec(&cs, &chars_of("/.fseventsd"))
        || starts_with_exec(&cs, &chars_of("/.Spotlight")) || starts_with_exec(&cs, &chars_of("/."))
}

} // verus!

verus! {

/// The entries that a listing keeps: all of them, or, when system entries are
/// filtered out, those that are not system entries, in their order.
pub open spec fn kept_entries(es: Seq<FileEntryV>, filter_system: bool) -> Seq<FileEntryV>
    decreases es.len(),
{
    if es.len() == 0 {
        es
    } else if filter_system && es.last().is_system {
        kept_entries(es.drop_last(), filter_system)
    } else {
        kept_entries(es.drop_last(), filter_system).push(es.last())
    }
}

/// The order of a listing: `a` comes strictly before `b` (sizes compared as
/// numbers, names compared after lowercasing, in code-point order).
pub open spec fn entry_lt(sort: SortMode, a: FileEntryV, b: FileEntryV) -> bool {
    match sort {
        SortMode::SizeDsc => a.size > b.size,
        SortMode::SizeAsc => a.size < b.size,
        SortMode::NameAsc => lex_lt(lowercase(a.name), lowercase(b.name)),
        SortMode::NameDsc => lex_lt(lowercase(b.name), lowercase(a.name)),
    }
}

/// The order of a listing as a relation.
pub open spec fn entry_order(sort: SortMode) -> spec_fn(FileEntryV, FileEntryV) -> bool {
    |a: FileEntryV, b: FileEntryV| entry_lt(sort, a, b)
}

/// The views of a list of entries.
pub open spec fn entry_views(es: Seq<FileEntry>) -> Seq<FileEntryV> {
    es.map_values(|e: FileEntry| e@)
}

/// An entry of a listing with its sort key (its name lowercased) comes
/// strictly before another: sizes compared as numbers, keys in code-point
/// order.
pub open spec fn keyed_lt(sort: SortMode, a: (FileEntryV, Seq<char>), b: (FileEntryV, Seq<char>)) -> bool {
    match sort {
        SortMode::SizeDsc => a.0.size > b.0.size,
        SortMode::SizeAsc => a.0.size < b.0.size,
        SortMode::NameAsc => lex_lt(a.1, b.1),
        SortMode::NameDsc => lex_lt(b.1, a.1),
    }
}

/// The order of [`keyed_lt`] as a relation.
pub open spec fn keyed_order(sort: SortMode) -> spec_fn((FileEntryV, Seq<char>), (FileEntryV, Seq<char>)) -> bool {
    |a: (FileEntryV, Seq<char>), b: (FileEntryV, Seq<char>)| keyed_lt(sort, a, b)
}

/// Each entry with the key at the same position.
pub open spec fn pair_up(es: Seq<FileEntryV>, ks: Seq<Seq<char>>) -> Seq<(FileEntryV, Seq<char>)> {
    Seq::new(es.len(), |i: int| (es[i], ks[i]))
}

/// The contents of a list of texts.
pub open spec fn key_views(ks: Seq<String>) -> Seq<Seq<char>> {
    ks.map_values(|k: String| k@)
}

/// The entries with their keys that a listing keeps (see [`kept_entries`]).
pub open spec fn kept_pairs(ps: Seq<(FileEntryV, Seq<char>)>, filter_system: bool) -> Seq<(FileEntryV, Seq<char>)>
    decreases ps.len(),
{
    if ps.len() == 0 {
        ps
    } else if filter_system && ps.last().0.is_system {
        kept_pairs(ps.drop_last(), filter_system)
    } else {
        kept_pairs(ps.drop_last(), filter_system).push(ps.last())
    }
}

/// The entries of entries with keys.
pub open spec fn firsts(ps: Seq<(FileEntryV, Seq<char>)>) -> Seq<FileEntryV> {
    ps.map_values(|p: (FileEntryV, Seq<char>)| p.0)
}

/// Every key is the lowercased name of its entry.
pub open spec fn keys_are_names(ps: Seq<(FileEntryV, Seq<char>)>) -> bool {
    forall|i: int| 0 <= i < ps.len() ==> (#[trigger] ps[i]).1 == lowercase(ps[i].0.name)
}

fn keyed_lt_exec(sort: SortMode, a: &FileEntry, ka: &String, b: &FileEntry, kb: &String) -> (r: bool)
    ensures
        r == keyed_lt(sort, (a@, ka@), (b@, kb@)),
{
    match sort {
        SortMode::SizeDsc => a.size > b.size,
        SortMode::SizeAsc => a.size < b.size,
        SortMode::NameAsc => lex_lt_exec(&chars_of(ka.as_str()), &chars_of(kb.as_str())),
        SortMode::NameDsc => lex_lt_exec(&chars_of(kb.as_str()), &chars_of(ka.as_str())),
    }
}

fn copy_entry(e: &FileEntry) -> (r: FileEntry)
    ensures
        r@ == e@,
{
    FileEntry { name: e.name.clone(), path: e.path.clone(), size: e.size, is_dir: e.is_dir, is_system: e.is_system }
}

fn insert_keyed(v: &mut Vec<FileEntry>, vk: &mut Vec<String>, x: FileEntry, kx: String, sort: SortMode)
    requires
        old(v)@.len() == old(vk)@.len(),
    ensures
        final(v)@.len() == final(vk)@.len(),
        pair_up(entry_views(final(v)@), key_views(final(vk)@)) == sorted_insert(
            pair_up(entry_views(old(v)@), key_views(old(vk)@)),
            (x@, kx@),
            keyed_order(sort),
        ),
{
    let ghost ps = pair_up(entry_views(old(v)@), key_views(old(vk)@));
    let ghost xv = (x@, kx@);
    let mut j: usize = 0;
    while j < v.len() && !keyed_lt_exec(sort, &x, &kx, &v[j], &vk[j])
        invariant
            j <= v@.len(),
            v@ == old(v)@,
            vk@ == old(vk)@,
            v@.len() == vk@.len(),
            ps == pair_up(entry_views(v@), key_views(vk@)),
            xv == (x@, kx@),
            insert_from(ps, xv, keyed_order(sort), 0) == insert_from(ps, xv, keyed_order(sort), j as int),
        decreases v@.len() - j,
    {
        assert(ps[j as int] == (v@[j as int]@, vk@[j as int]@));
        j += 1;
    }
    proof {
        if j < v@.len() {
            assert(ps[j as int] == (v@[j as int]@, vk@[j as int]@));
        }
    }
    v.insert(j, x);
    vk.insert(j, kx);
    assert(pair_up(entry_views(v@), key_views(vk@)) =~= ps.insert(j as int, xv));
}

/// A directory listing arranged by given sort keys (`keys[i]` for
/// `entries[i]`): system entries left out when `filter_system` is set, then
/// ordered by `sort`; entries that compare equal keep their order.
pub fn arrange_by_keys(entries: &Vec<FileEntry>, keys: &Vec<String>, sort: SortMode, filter_system: bool) -> (r: Vec<FileEntry>)
    requires
        keys@.len() == entries@.len(),
    ensures
        entry_views(r@) == firsts(
            stable_sort(kept_pairs(pair_up(entry_views(entries@), key_views(keys@)), filter_system), keyed_order(sort)),
        ),
        sort == SortMode::SizeDsc ==> forall|i: int, j: int|
            0 <= i < j < r@.len() ==> (#[trigger] r@[i]).size >= (#[trigger] r@[j]).size,
        sort == SortMode::SizeAsc ==> forall|i: int, j: int|
            0 <= i < j < r@.len() ==> (#[trigger] r@[i]).size <= (#[trigger] r@[j]).size,
{
    let ghost ps = pair_up(entry_views(entries@), key_views(keys@));
    let mut out: Vec<FileEntry> = Vec::new();
    let mut outk: Vec<String> = Vec::new();
    assert(ps.take(0) =~= Seq::<(FileEntryV, Seq<char>)>::empty());
    assert(pair_up(entry_views(out@), key_views(outk@)) =~= Seq::<(FileEntryV, Seq<char>)>::empty());
    let mut i: usize = 0;
    while i < entries.len()
        invariant
            i <= entries@.len(),
            keys@.len() == entries@.len(),
            out@.len() == outk@.len(),
            ps == pair_up(entry_views(entries@), key_views(keys@)),
            pair_up(entry_views(out@), key_views(outk@)) == stable_sort(
                kept_pairs(ps.take(i as int), filter_system),
                keyed_order(sort),
            ),
        decreases entries@.len() - i,
    {
        let e = &entries[i];
        assert(ps[i as int] == (e@, keys@[i as int]@));
        assert(ps.take(i + 1).drop_last() =~= ps.take(i as int));
        if !(filter_system && e.is_system) {
            proof {
                lemma_stable_sort_push(kept_pairs(ps.take(i as int), filter_system), ps[i as int], keyed_order(sort));
            }
            insert_keyed(&mut out, &mut outk, copy_entry(e), keys[i].clone(), sort);
        }
        i += 1;
    }
    assert(ps.take(entries@.len() as int) =~= ps);
    let ghost res = stable_sort(kept_pairs(ps, filter_system), keyed_order(sort));
    assert(entry_views(out@) =~= firsts(res));
    proof {
        lemma_keyed_order_strict(sort);
        lemma_stable_sort_sorted(kept_pairs(ps, filter_system), keyed_order(sort));
        lemma_stable_sort_len(kept_pairs(ps, filter_system), keyed_order(sort));
        assert forall|i: int, j: int| 0 <= i < j < out@.len() implies (sort == SortMode::SizeDsc ==> (#[trigger] out@[i]).size >= (#[trigger] out@[j]).size) && (sort == SortMode::SizeAsc ==> out@[i].size <= out@[j].size) by {
            assert(!keyed_order(sort)(res[j], res[i]));
            assert(entry_views(out@)[i] == out@[i]@ && entry_views(out@)[j] == out@[j]@);
            assert(firsts(res)[i] == res[i].0 && firsts(res)[j] == res[j].0);
        }
    }
    out
}

/// The orders on entries with keys are strict orders.
pub proof fn lemma_keyed_order_strict(sort: SortMode)
    ensures
        strict_order(keyed_order(sort)),
{
    lemma_lex_lt_strict();
    let lt = keyed_order(sort);
    assert forall|a: (FileEntryV, Seq<char>), b: (FileEntryV, Seq<char>), c: (FileEntryV, Seq<char>)| #[trigger] lt(a, b) && #[trigger] lt(b, c) implies lt(a, c) by {
        match sort {
            SortMode::NameAsc => {
                assert(lex_lt(a.1, b.1) && lex_lt(b.1, c.1));
            },
            SortMode::NameDsc => {
                assert(lex_lt(c.1, b.1) && lex_lt(b.1, a.1));
            },
            _ => {},
        }
    }
}

proof fn lemma_kept_pairs(ps: Seq<(FileEntryV, Seq<char>)>, filter_system: bool)
    requires
        keys_are_names(ps),
    ensures
        keys_are_names(kept_pairs(ps, filter_system)),
        firsts(kept_pairs(ps, filter_system)) == kept_entries(firsts(ps), filter_system),
    decreases ps.len(),
{
    if ps.len() > 0 {
        let prev = ps.drop_last();
        assert forall|i: int| 0 <= i < prev.len() implies (#[trigger] prev[i]).1 == lowercase(prev[i].0.name) by {
            assert(prev[i] == ps[i]);
        }
        lemma_kept_pairs(prev, filter_system);
        assert(firsts(ps).drop_last() =~= firsts(prev));
        assert(firsts(ps).last() == ps.last().0);
        let k = kept_pairs(ps, filter_system);
        let kp = kept_pairs(prev, filter_system);
        if !(filter_system && ps.last().0.is_system) {
            assert(firsts(k) =~= firsts(kp).push(ps.last().0));
            assert forall|i: int| 0 <= i < k.len() implies (#[trigger] k[i]).1 == lowercase(k[i].0.name) by {
                if i < kp.len() {
                    assert(k[i] == kp[i]);
                }
            }
        }
    } else {
        assert(firsts(ps) =~= Seq::<FileEntryV>::empty());
    }
}

proof fn lemma_insert_from_keyed(s: Seq<(FileEntryV, Seq<char>)>, x: (FileEntryV, Seq<char>), sort: SortMode, i: int)
    requires
        keys_are_names(s),
        x.1 == lowercase(x.0.name),
        0 <= i <= s.len(),
    ensures
        insert_from(s, x, keyed_order(sort), i) == insert_from(firsts(s), x.0, entry_order(sort), i),
    decreases s.len() - i,
{
    if i < s.len() {
        assert(s[i].1 == lowercase(s[i].0.name));
        assert(firsts(s)[i] == s[i].0);
        lemma_insert_from_keyed(s, x, sort, i + 1);
    }
}

proof fn lemma_sort_keyed(ps: Seq<(FileEntryV, Seq<char>)>, sort: SortMode)
    requires
        keys_are_names(ps),
    ensures
        keys_are_names(stable_sort(ps, keyed_order(sort))),
        firsts(stable_sort(ps, keyed_order(sort))) == stable_sort(firsts(ps), entry_order(sort)),
    decreases ps.len(),
{
    if ps.len() > 0 {
        let prev = ps.drop_last();
        let x = ps.last();
        assert forall|i: int| 0 <= i < prev.len() implies (#[trigger] prev[i]).1 == lowercase(prev[i].0.name) by {
            assert(prev[i] == ps[i]);
        }
        assert(x == ps[ps.len() - 1]);
        lemma_sort_keyed(prev, sort);
        let s = stable_sort(prev, keyed_order(sort));
        lemma_stable_sort_len(prev, keyed_order(sort));
        assert(firsts(ps).drop_last() =~= firsts(prev));
        assert(firsts(ps).last() == x.0);
        lemma_insert_from_keyed(s, x, sort, 0);
        lemma_insert_from_range(s, x, keyed_order(sort), 0);
        let p = insert_from(s, x, keyed_order(sort), 0);
        let r = s.insert(p, x);
        assert(firsts(r) =~= firsts(s).insert(p, x.0));
        assert forall|i: int| 0 <= i < r.len() implies (#[trigger] r[i]).1 == lowercase(r[i].0.name) by {
            if i < p {
                assert(r[i] == s[i]);
            } else if i > p {
                assert(r[i] == s[i - 1]);
            }
        }
    }
}

/// A directory listing as the disk tab shows it: system entries left out
/// when `filter_system` is set, then ordered by `sort` (names compared
/// lowercased); entries that compare equal keep their order.
pub fn arrange_listing(entries: &Vec<FileEntry>, sort: SortMode, filter_system: bool) -> (r: Vec<FileEntry>)
    ensures
        entry_views(r@) == stable_sort(kept_entries(entry_views(entries@), filter_system), entry_order(sort)),
        sort == SortMode::SizeDsc ==> forall|i: int, j: int|
            0 <= i < j < r@.len() ==> (#[trigger] r@[i]).size >= (#[trigger] r@[j]).size,
        sort == SortMode::SizeAsc ==> forall|i: int, j: int|
            0 <= i < j < r@.len() ==> (#[trigger] r@[i]).size <= (#[trigger] r@[j]).size,
        sort == SortMode::NameAsc ==> forall|i: int, j: int|
            0 <= i < j < r@.len() ==> !lex_lt(lowercase((#[trigger] r@[j]).name@), lowercase((#[trigger] r@[i]).name@)),
        sort == SortMode::NameDsc ==> forall|i: int, j: int|
            0 <= i < j < r@.len() ==> !lex_lt(lowercase((#[trigger] r@[i]).name@), lowercase((#[trigger] r@[j]).name@)),
        filter_system ==> forall|i: int| 0 <= i < r@.len() ==> !(#[trigger] r@[i]).is_system,
{
    let mut keys: Vec<String> = Vec::new();
    let mut i: usize = 0;
    while i < entries.len()
        invariant
            i <= entries@.len(),
            keys@.len() == i,
            forall|k: int| 0 <= k < i ==> (#[trigger] keys@[k])@ == lowercase(entries@[k].name@),
        decreases entries@.len() - i,
    {
        keys.push(lowercase_of(entries[i].name.as_str()));
        i += 1;
    }
    let ghost es = entry_views(entries@);
    let ghost ps = pair_up(es, key_views(keys@));
    assert(keys_are_names(ps)) by {
        assert forall|k: int| 0 <= k < ps.len() implies (#[trigger] ps[k]).1 == lowercase(ps[k].0.name) by {
            assert(ps[k].1 == keys@[k]@);
        }
    }
    assert(firsts(ps) =~= es);
    let r = arrange_by_keys(entries, &keys, sort, filter_system);
    proof {
        lemma_kept_pairs(ps, filter_system);
        lemma_sort_keyed(kept_pairs(ps, filter_system), sort);
        let v = entry_views(r@);
        lemma_listing_ordered(es, sort, filter_system);
        assert forall|i: int, j: int| 0 <= i < j < r@.len() implies !entry_lt(sort, (#[trigger] r@[j])@, (#[trigger] r@[i])@) by {
            assert(v[i] == r@[i]@ && v[j] == r@[j]@);
            assert(!entry_order(sort)(v[j], v[i]));
        }
        if filter_system {
            assert forall|i: int| 0 <= i < r@.len() implies !(#[trigger] r@[i]).is_system by {
                assert(v[i] == r@[i]@);
            }
        }
    }
    r
}

} // verus!

verus! {

/// Each order of a listing is a strict order.
pub proof fn lemma_entry_order_strict(sort: SortMode)
    ensures
        strict_order(entry_order(sort)),
{
    lemma_lex_lt_strict();
    let lt = entry_order(sort);
    assert forall|a: FileEntryV, b: FileEntryV, c: FileEntryV| #[trigger] lt(a, b) && #[trigger] lt(b, c) implies lt(a, c) by {
        match sort {
            SortMode::NameAsc => {
                assert(lex_lt(lowercase(a.name), lowercase(b.name)) && lex_lt(lowercase(b.name), lowercase(c.name)));
            },
            SortMode::NameDsc => {
                assert(lex_lt(lowercase(c.name), lowercase(b.name)) && lex_lt(lowercase(b.name), lowercase(a.name)));
            },
            _ => {},
        }
    }
}

/// Each order of a listing is a strict weak order: entries are equivalent
/// when their sizes (for the size orders) or their lowercased names (for the
/// name orders) are equal.
pub proof fn lemma_entry_order_weak(sort: SortMode)
    ensures
        weak_order(entry_order(sort)),
{
    lemma_entry_order_strict(sort);
    let lt = entry_order(sort);
    assert forall|a: FileEntryV, b: FileEntryV, c: FileEntryV| #[trigger] equivalent(lt, a, b) && #[trigger] equivalent(lt, b, c) implies equivalent(lt, a, c) by {
        match sort {
            SortMode::NameAsc | SortMode::NameDsc => {
                lemma_lex_lt_strict();
                lemma_lex_equivalent(lowercase(a.name), lowercase(b.name));
                lemma_lex_equivalent(lowercase(b.name), lowercase(c.name));
            },
            _ => {},
        }
    }
}

/// When system entries are filtered out, none is kept; otherwise every
/// entry is kept.
pub proof fn lemma_kept_entries(es: Seq<FileEntryV>, filter_system: bool)
    ensures
        filter_system ==> forall|i: int| 0 <= i < kept_entries(es, filter_system).len() ==> !(
        #[trigger] kept_entries(es, filter_system)[i]).is_system,
        !filter_system ==> kept_entries(es, filter_system) == es,
    decreases es.len(),
{
    if es.len() > 0 {
        lemma_kept_entries(es.drop_last(), filter_system);
        if !filter_system {
            assert(es.drop_last().push(es.last()) =~= es);
        } else {
            let prev = kept_entries(es.drop_last(), filter_system);
            let k = kept_entries(es, filter_system);
            assert forall|i: int| 0 <= i < k.len() implies !(#[trigger] k[i]).is_system by {
                if i < prev.len() {
                    assert(k[i] == prev[i]);
                }
            }
        }
    }
}

/// A listing that [`arrange_listing`] gives holds the kept entries, each as
/// often as it occurs, in the chosen order, entries equivalent in that order
/// (see [`lemma_entry_order_weak`]) in the order in which they came, and no
/// system entry when those are filtered out.
pub proof fn lemma_listing_ordered(es: Seq<FileEntryV>, sort: SortMode, filter_system: bool)
    ensures
        ({
            let kept = kept_entries(es, filter_system);
            let listed = stable_sort(kept, entry_order(sort));
            &&& sorted_by(listed, entry_order(sort))
            &&& listed.to_multiset() == kept.to_multiset()
            &&& forall|x: FileEntryV| #[trigger] peers(listed, entry_order(sort), x) == peers(kept, entry_order(sort), x)
            &&& filter_system ==> forall|i: int| 0 <= i < listed.len() ==> !(#[trigger] listed[i]).is_system
        }),
{
    let kept = kept_entries(es, filter_system);
    let listed = stable_sort(kept, entry_order(sort));
    lemma_entry_order_weak(sort);
    lemma_stable_sort_sorted(kept, entry_order(sort));
    assert forall|x: FileEntryV| #[trigger] peers(listed, entry_order(sort), x) == peers(kept, entry_order(sort), x) by {
        lemma_stable_sort_stable(kept, entry_order(sort), x);
    }
    lemma_stable_sort_perm(kept, entry_order(sort));
    lemma_kept_entries(es, filter_system);
    if filter_system {
        listed.to_multiset_ensures();
        kept.to_multiset_ensures();
        assert forall|i: int| 0 <= i < listed.len() implies !(#[trigger] listed[i]).is_system by {
            assert(listed.contains(listed[i]));
            assert(kept.to_multiset().count(listed[i]) > 0);
            let j = choose|j: int| 0 <= j < kept.len() && kept[j] == listed[i];
            assert(!kept[j].is_system);
        }
    }
}

} // verus!
