//! Line-oriented scanning of `key: value` reports.
use vstd::prelude::*;
use crate::num::{parse_i32, parse_i32_exec, parse_u32, parse_u64, parse_unsigned};
use crate::text::{ends_with, ends_with_exec, eq_exec, split2, split2_exec, string_of, chars_of, lines, lines_exec, slice_of, starts_with, starts_with_exec, trim, trim_exec, views};

verus! {

/// The lines of `s`, each trimmed of surrounding white space.
pub open spec fn tlines(s: Seq<char>) -> Seq<Seq<char>> {
    lines(s).map_values(|l: Seq<char>| trim(l))
}

/// What a line starting with `key` says: the rest of the line, trimmed.
pub open spec fn key_value(l: Seq<char>, key: Seq<char>) -> Option<Seq<char>> {
    if starts_with(l, key) {
        Some(trim(l.skip(key.len() as int)))
    } else {
        None
    }
}

/// What the last line for which `f` gives a value says, or the empty text
/// when no line does.
pub open spec fn last_hit(ls: Seq<Seq<char>>, f: spec_fn(Seq<char>) -> Option<Seq<char>>) -> Seq<char>
    decreases ls.len(),
{
    if ls.len() == 0 {
        seq![]
    } else {
        match f(ls.last()) {
            Some(v) => v,
            None => last_hit(ls.drop_last(), f),
        }
    }
}

/// Whether some line satisfies `f`.
pub open spec fn any_line(ls: Seq<Seq<char>>, f: spec_fn(Seq<char>) -> bool) -> bool {
    exists|i: int| 0 <= i < ls.len() && f(#[trigger] ls[i])
}

pub proof fn lemma_last_hit_step(
    ls: Seq<Seq<char>>,
    f: spec_fn(Seq<char>) -> Option<Seq<char>>,
    i: int,
)
    requires
        0 <= i < ls.len(),
    ensures
        last_hit(ls.take(i + 1), f) == match f(ls[i]) {
            Some(v) => v,
            None => last_hit(ls.take(i), f),
        },
{
    assert(ls.take(i + 1).drop_last() =~= ls.take(i));
    assert(ls.take(i + 1).last() == ls[i]);
}

pub proof fn lemma_take_all<A>(s: Seq<A>)
    ensures
        s.take(s.len() as int) == s,
{
    assert(s.take(s.len() as int) =~= s);
}

/// The trimmed lines of `text`.
pub fn tlines_exec(text: &str) -> (r: Vec<Vec<char>>)
    ensures
        views(r@) == tlines(text@),
{
    let cs = chars_of(text);
    let ls = lines_exec(&cs);
    let mut out: Vec<Vec<char>> = Vec::new();
    let mut i: usize = 0;
    while i < ls.len()
        invariant
            i <= ls@.len(),
            views(ls@) == lines(text@),
            views(out@) == tlines(text@).take(i as int),
        decreases ls@.len() - i,
    {
        let t = trim_exec(&ls[i]);
        let ghost old_out = out@;
        out.push(t);
        assert(views(out@) =~= tlines(text@).take(i + 1)) by {
            assert(views(ls@)[i as int] == ls@[i as int]@);
            assert(views(out@) =~= views(old_out).push(t@));
        }
        i += 1;
    }
    proof {
        lemma_take_all(tlines(text@));
    }
    out
}

/// What a line starting with `key` says: the rest of the line, trimmed.
pub fn key_value_exec(l: &Vec<char>, key: &Vec<char>) -> (r: Option<Vec<char>>)
    ensures
        match r {
            Some(v) => key_value(l@, key@) == Some(v@),
            None => key_value(l@, key@) is None,
        },
{
    if starts_with_exec(l, key) {
        let rest = slice_of(l, key.len(), l.len());
        assert(rest@ =~= l@.skip(key@.len() as int));
        Some(trim_exec(&rest))
    } else {
        None
    }
}

} // verus!

verus! {

/// The rule "a line starting with `key` gives the trimmed rest of the line".
pub open spec fn kv(key: Seq<char>) -> spec_fn(Seq<char>) -> Option<Seq<char>> {
    |l: Seq<char>| key_value(l, key)
}

/// Sets `field` to what `l` says after `key`, when `l` starts with `key`.
pub fn apply_kv(field: &mut String, l: &Vec<char>, key: &Vec<char>)
    ensures
        match key_value(l@, key@) {
            Some(v) => final(field)@ == v,
            None => final(field)@ == old(field)@,
        },
{
    if let Some(v) = key_value_exec(l, key) {
        *field = string_of(&v);
    }
}

} // verus!

verus! {

/// What the last line for which `f` gives a value says, or `d` when no line
/// does.
pub open spec fn last_or<A>(ls: Seq<Seq<char>>, f: spec_fn(Seq<char>) -> Option<A>, d: A) -> A
    decreases ls.len(),
{
    if ls.len() == 0 {
        d
    } else {
        match f(ls.last()) {
            Some(v) => v,
            None => last_or(ls.drop_last(), f, d),
        }
    }
}

pub proof fn lemma_last_or_step<A>(ls: Seq<Seq<char>>, f: spec_fn(Seq<char>) -> Option<A>, d: A, i: int)
    requires
        0 <= i < ls.len(),
    ensures
        last_or(ls.take(i + 1), f, d) == match f(ls[i]) {
            Some(v) => v,
            None => last_or(ls.take(i), f, d),
        },
{
    assert(ls.take(i + 1).drop_last() =~= ls.take(i));
    assert(ls.take(i + 1).last() == ls[i]);
}

/// A line cut at its first colon, both sides trimmed; `None` when the line
/// has no colon (`line.splitn(2, ':')` yielding two pieces).
pub open spec fn colon_pair(l: Seq<char>) -> Option<(Seq<char>, Seq<char>)> {
    let ps = split2(l, ":"@);
    if ps.len() == 2 {
        Some((trim(ps[0]), trim(ps[1])))
    } else {
        None
    }
}

/// The rule "a line whose trimmed text before the first colon is `key` gives
/// the trimmed text after it".
pub open spec fn ck(key: Seq<char>) -> spec_fn(Seq<char>) -> Option<Seq<char>> {
    |l: Seq<char>|
        match colon_pair(l) {
            Some(kv) => if kv.0 == key {
                Some(kv.1)
            } else {
                None
            },
            None => None,
        }
}

/// Executable form of [`colon_pair`].
pub fn colon_pair_exec(l: &Vec<char>) -> (r: Option<(Vec<char>, Vec<char>)>)
    ensures
        match r {
            Some(kv) => colon_pair(l@) == Some((kv.0@, kv.1@)),
            None => colon_pair(l@) is None,
        },
{
    let colon = chars_of(":");
    let ps = split2_exec(l, &colon);
    if ps.len() == 2 {
        assert(views(ps@)[0] == ps@[0]@ && views(ps@)[1] == ps@[1]@);
        Some((trim_exec(&ps[0]), trim_exec(&ps[1])))
    } else {
        None
    }
}

/// Sets `field` to the value that the rule [`ck`] with `key` reads from the
/// colon pair of a line, when the key matches.
pub fn apply_ck(field: &mut String, pair: &Option<(Vec<char>, Vec<char>)>, key: &Vec<char>)
    ensures
        match pair {
            Some(kv) => if kv.0@ == key@ {
                final(field)@ == kv.1@
            } else {
                final(field)@ == old(field)@
            },
            None => final(field)@ == old(field)@,
        },
{
    if let Some(kv) = pair {
        if eq_exec(&kv.0, key) {
            *field = string_of(&kv.1);
        }
    }
}

/// The number that `s` holds, or `d` when it is not a number (`s.parse().unwrap_or(d)`).
pub open spec fn num_or(s: Seq<char>, d: int) -> int {
    match parse_unsigned(s, u64::MAX as int) {
        Some(v) => v,
        None => d,
    }
}

/// The `u32` that `s` holds, or `d` when it holds none.
pub open spec fn num32_or(s: Seq<char>, d: int) -> int {
    match parse_unsigned(s, u32::MAX as int) {
        Some(v) => v,
        None => d,
    }
}

/// The `i32` that `s` holds, or `d` when it holds none.
pub open spec fn int_or(s: Seq<char>, d: int) -> int {
    match parse_i32(s) {
        Some(v) => v,
        None => d,
    }
}

/// Executable form of [`num_or`].
pub fn num_or_exec(s: &Vec<char>, d: u64) -> (r: u64)
    ensures
        r == num_or(s@, d as int),
{
    match parse_u64(s) {
        Some(v) => v,
        None => d,
    }
}

/// Executable form of [`num32_or`].
pub fn num32_or_exec(s: &Vec<char>, d: u32) -> (r: u32)
    ensures
        r == num32_or(s@, d as int),
{
    match parse_u32(s) {
        Some(v) => v,
        None => d,
    }
}

/// Executable form of [`int_or`].
pub fn int_or_exec(s: &Vec<char>, d: i32) -> (r: i32)
    ensures
        r == int_or(s@, d as int),
{
    match parse_i32_exec(s) {
        Some(v) => v,
        None => d,
    }
}

} // verus!

verus! {

/// The values that `f` gives for the lines `ls`, in order, skipping the lines
/// for which it gives none.
pub open spec fn filter_map<A>(ls: Seq<Seq<char>>, f: spec_fn(Seq<char>) -> Option<A>) -> Seq<A>
    decreases ls.len(),
{
    if ls.len() == 0 {
        seq![]
    } else {
        match f(ls.last()) {
            Some(v) => filter_map(ls.drop_last(), f).push(v),
            None => filter_map(ls.drop_last(), f),
        }
    }
}

pub proof fn lemma_filter_map_step<A>(ls: Seq<Seq<char>>, f: spec_fn(Seq<char>) -> Option<A>, i: int)
    requires
        0 <= i < ls.len(),
    ensures
        filter_map(ls.take(i + 1), f) == match f(ls[i]) {
            Some(v) => filter_map(ls.take(i), f).push(v),
            None => filter_map(ls.take(i), f),
        },
{
    assert(ls.take(i + 1).drop_last() =~= ls.take(i));
    assert(ls.take(i + 1).last() == ls[i]);
}

/// The lines of `text` after the first (`text.lines().skip(1)`).
pub open spec fn body_lines(text: Seq<char>) -> Seq<Seq<char>> {
    let ls = lines(text);
    if ls.len() == 0 {
        ls
    } else {
        ls.skip(1)
    }
}

/// Executable form of [`body_lines`].
pub fn body_lines_exec(text: &str) -> (r: Vec<Vec<char>>)
    ensures
        views(r@) == body_lines(text@),
{
    let ls = lines_exec(&chars_of(text));
    let mut out: Vec<Vec<char>> = Vec::new();
    if ls.len() == 0 {
        assert(views(out@) =~= views(ls@));
        return out;
    }
    let mut i: usize = 1;
    while i < ls.len()
        invariant
            1 <= i <= ls@.len(),
            views(ls@) == lines(text@),
            views(out@) == lines(text@).subrange(1, i as int),
        decreases ls@.len() - i,
    {
        let ghost old_out = out@;
        let l = &ls[i];
        out.push(slice_of(l, 0, l.len()));
        assert(views(out@) =~= lines(text@).subrange(1, i + 1)) by {
            assert(views(ls@)[i as int] == ls@[i as int]@);
            assert(l@.subrange(0, l@.len() as int) =~= l@);
            assert(views(out@) =~= views(old_out).push(l@));
        }
        i += 1;
    }
    assert(lines(text@).subrange(1, ls@.len() as int) =~= lines(text@).skip(1));
    out
}

} // verus!

verus! {

/// The trimmed rest of a line after `key` when it starts with `key`,
/// otherwise `old`.
pub open spec fn set_kv(old: Seq<char>, l: Seq<char>, key: Seq<char>) -> Seq<char> {
    match key_value(l, key) {
        Some(v) => v,
        None => old,
    }
}

/// A line that opens a new section: it ends with a colon and starts with none
/// of the field names `keys`.
pub open spec fn is_heading(l: Seq<char>, keys: Seq<Seq<char>>) -> bool {
    ends_with(l, ":"@) && forall|k: int| 0 <= k < keys.len() ==> !starts_with(l, #[trigger] keys[k])
}

/// Whether `l` is a heading for the field names `keys`.
pub fn is_heading_exec(l: &Vec<char>, keys: &Vec<Vec<char>>) -> (b: bool)
    ensures
        b == is_heading(l@, views(keys@)),
{
    if !ends_with_exec(l, &chars_of(":")) {
        return false;
    }
    let mut k: usize = 0;
    while k < keys.len()
        invariant
            k <= keys@.len(),
            forall|m: int| 0 <= m < k ==> !starts_with(l@, #[trigger] views(keys@)[m]),
        decreases keys@.len() - k,
    {
        assert(views(keys@)[k as int] == keys@[k as int]@);
        if starts_with_exec(l, &keys[k]) {
            return false;
        }
        k += 1;
    }
    true
}

/// A list of literal texts as character vectors.
pub fn lits(ss: &[&str]) -> (r: Vec<Vec<char>>)
    ensures
        r@.len() == ss@.len(),
        forall|k: int| 0 <= k < ss@.len() ==> #[trigger] r@[k]@ == ss@[k]@,
{
    let mut r: Vec<Vec<char>> = Vec::new();
    let mut i: usize = 0;
    while i < ss.len()
        invariant
            i <= ss@.len(),
            r@.len() == i,
            forall|k: int| 0 <= k < i ==> #[trigger] r@[k]@ == ss@[k]@,
        decreases ss@.len() - i,
    {
        r.push(chars_of(ss[i]));
        i += 1;
    }
    r
}

} // verus!

verus! {

/// The rule "a line whose trimmed text before the first colon is `key` gives
/// the number after it, or 0 when that is not a number".
pub open spec fn cn(key: Seq<char>) -> spec_fn(Seq<char>) -> Option<int> {
    |l: Seq<char>|
        match colon_pair(l) {
            Some(kv) => if kv.0 == key {
                Some(num_or(kv.1, 0))
            } else {
                None
            },
            None => None,
        }
}

/// Sets `field` to the number that the rule [`cn`] with `key` reads from the
/// colon pair of a line, when the key matches.
pub fn apply_cn(field: &mut u64, pair: &Option<(Vec<char>, Vec<char>)>, key: &Vec<char>)
    ensures
        match pair {
            Some(kv) => if kv.0@ == key@ {
                *final(field) == num_or(kv.1@, 0)
            } else {
                *final(field) == *old(field)
            },
            None => *final(field) == *old(field),
        },
{
    if let Some(kv) = pair {
        if eq_exec(&kv.0, key) {
            *field = num_or_exec(&kv.1, 0);
        }
    }
}

} // verus!
