//! Classification of a process's memory regions.
use vstd::prelude::*;
use crate::text::{chars_of, contains, contains_exec, ends_with, ends_with_exec, string_of};
use crate::types::{ProcessRegion, RegionType};

verus! {

/// The text that `str::to_lowercase` gives for `s` (full Unicode lowercase
/// mapping).
pub uninterp spec fn lowercase(s: Seq<char>) -> Seq<char>;

/// `str::to_lowercase`. Its result depends on the text alone: it is stated as
/// [`lowercase`] of the argument, and nothing more is claimed of it.
#[verifier::external_body]
pub(crate) fn lowercase_of(s: &str) -> (r: String)
    ensures
        r@ == lowercase(s@),
{
    s.to_lowercase()
}

/// The kind and display name of a mapped region with file name `name` (empty
/// for anonymous memory), whose lowercase form is `lower`: stack and heap by
/// name, libraries and code by file name, other files as mapped files;
/// anonymous regions by protection and size.
pub open spec fn class_of(name: Seq<char>, lower: Seq<char>, is_exec: bool, is_write: bool, size: int) -> (RegionType, Seq<char>) {
    if contains(name, "[stack]"@) || contains(lower, "stack"@) {
        (RegionType::Stack, name)
    } else if contains(name, "[heap]"@) || contains(lower, "heap"@) {
        (RegionType::Heap, name)
    } else if name.len() > 0 {
        if contains(name, ".dylib"@) {
            (RegionType::Dylib, name)
        } else if ends_with(name, ".so"@) || contains(name, "__TEXT"@) {
            (RegionType::Code, name)
        } else {
            (RegionType::MappedFile, name)
        }
    } else if is_exec {
        (RegionType::Code, "[anon exec]"@)
    } else if is_write && size > 1024 * 1024 {
        (RegionType::Heap, "[anon heap]"@)
    } else {
        (RegionType::Anonymous, "[anon]"@)
    }
}

/// The kind and display name of a mapped region with file name `name` (see
/// [`class_of`]), the name lowercased as `str::to_lowercase` does.
pub open spec fn region_class(name: Seq<char>, is_exec: bool, is_write: bool, size: int) -> (RegionType, Seq<char>) {
    class_of(name, lowercase(name), is_exec, is_write, size)
}

/// Classifies a mapped region given its file name (empty when it maps no
/// file), that name lowercased, whether it is executable and writable, and
/// its size.
pub fn classify_with(name: &str, lower: &str, is_exec: bool, is_write: bool, size: usize) -> (r: (RegionType, String))
    ensures
        r.0 == class_of(name@, lower@, is_exec, is_write, size as int).0,
        r.1@ == class_of(name@, lower@, is_exec, is_write, size as int).1,
{
    let n = chars_of(name);
    let lc = chars_of(lower);
    if contains_exec(&n, &chars_of("[stack]")) || contains_exec(&lc, &chars_of("stack")) {
        return (RegionType::Stack, string_of(&n));
    }
    if contains_exec(&n, &chars_of("[heap]")) || contains_exec(&lc, &chars_of("heap")) {
        return (RegionType::Heap, string_of(&n));
    }
    if n.len() > 0 {
        if contains_exec(&n, &chars_of(".dylib")) {
            return (RegionType::Dylib, string_of(&n));
        }
        if ends_with_exec(&n, &chars_of(".so")) || contains_exec(&n, &chars_of("__TEXT")) {
            return (RegionType::Code, string_of(&n));
        }
        return (RegionType::MappedFile, string_of(&n));
    }
    if is_exec {
        return (RegionType::Code, string_of(&chars_of("[anon exec]")));
    }
    if is_write && size > 1024 * 1024 {
        return (RegionType::Heap, string_of(&chars_of("[anon heap]")));
    }
    (RegionType::Anonymous, string_of(&chars_of("[anon]")))
}

/// Classifies a mapped region given its file name (empty when it maps no
/// file), whether it is executable and writable, and its size.
pub fn classify_region(name: &str, is_exec: bool, is_write: bool, size: usize) -> (r: (RegionType, String))
    ensures
        r.0 == region_class(name@, is_exec, is_write, size as int).0,
        r.1@ == region_class(name@, is_exec, is_write, size as int).1,
{
    let low = lowercase_of(name);
    classify_with(name, low.as_str(), is_exec, is_write, size)
}

/// The protection flags as `RWX`, with `-` for each that is missing.
pub open spec fn perms_text(r: bool, w: bool, x: bool) -> Seq<char> {
    seq![if r { 'R' } else { '-' }, if w { 'W' } else { '-' }, if x { 'X' } else { '-' }]
}

/// The record of one mapped region: its bounds, protection and
/// classification.
pub fn process_region(start: usize, size: usize, is_read: bool, is_write: bool, is_exec: bool, filename: &str) -> (r: ProcessRegion)
    requires
        start + size <= usize::MAX,
    ensures
        r.start == start,
        r.end == start + size,
        r.size == size,
        r.perms@ == perms_text(is_read, is_write, is_exec),
        r.region_type == region_class(filename@, is_exec, is_write, size as int).0,
        r.name@ == region_class(filename@, is_exec, is_write, size as int).1,
{
    let (rt, name) = classify_region(filename, is_exec, is_write, size);
    let mut p: Vec<char> = Vec::new();
    p.push(if is_read { 'R' } else { '-' });
    p.push(if is_write { 'W' } else { '-' });
    p.push(if is_exec { 'X' } else { '-' });
    assert(p@ =~= perms_text(is_read, is_write, is_exec));
    ProcessRegion { start, end: start + size, size, perms: string_of(&p), region_type: rt, name }
}

} // verus!
