//! launchd jobs.
use vstd::prelude::*;
use crate::scan::{body_lines, body_lines_exec, filter_map, int_or, int_or_exec, lemma_filter_map_step, lemma_take_all};
use crate::sort::{equivalent, lemma_insert_from_range, lemma_lex_equivalent, lemma_lex_lt_strict, lemma_stable_sort_stable, peers, weak_order, lemma_stable_sort_perm, lemma_stable_sort_push, lemma_stable_sort_sorted, lex_lt, lex_lt_exec, sorted_by, sorted_insert, stable_sort, strict_order};
use crate::text::{chars_of, split, split_exec, string_of, trim, trim_exec, views};
use crate::types::{ServiceInfo, ServiceInfoV};

verus! {

/// The job that a line of `launchctl list` describes: a row of at least three
/// tab-separated columns (PID, last exit status, label). A PID that is not a
/// number counts as -1, an exit status that is not a number as 0.
pub open spec fn launchctl_row(l: Seq<char>) -> Option<ServiceInfoV> {
    let c = split(l, "\t"@);
    if c.len() < 3 {
        None
    } else {
        Some(
            ServiceInfoV {
                pid: int_or(trim(c[0]), -1) as i32,
                label: trim(c[2]),
                last_exit: int_or(trim(c[1]), 0) as i32,
            },
        )
    }
}

/// The listing order of jobs: running jobs (PID above 0) first, and by label
/// within each group.
pub open spec fn service_lt(a: ServiceInfoV, b: ServiceInfoV) -> bool {
    (a.pid > 0 && !(b.pid > 0)) || ((a.pid > 0) == (b.pid > 0) && lex_lt(a.label, b.label))
}

/// The order of [`service_lt`] as a relation.
pub open spec fn service_order() -> spec_fn(ServiceInfoV, ServiceInfoV) -> bool {
    |a: ServiceInfoV, b: ServiceInfoV| service_lt(a, b)
}

fn service_lt_exec(a: &ServiceInfo, b: &ServiceInfo) -> (r: bool)
    ensures
        r == service_lt(a@, b@),
{
    let la = chars_of(a.label.as_str());
    let lb = chars_of(b.label.as_str());
    (a.pid > 0 && !(b.pid > 0)) || ((a.pid > 0) == (b.pid > 0) && lex_lt_exec(&la, &lb))
}

fn launchctl_row_exec(l: &Vec<char>) -> (r: Option<ServiceInfo>)
    ensures
        match r {
            Some(s) => launchctl_row(l@) == Some(s@),
            None => launchctl_row(l@) is None,
        },
{
    let c = split_exec(l, &chars_of("\t"));
    let ghost cv = views(c@);
    assert(forall|k: int| 0 <= k < c@.len() ==> cv[k] == c@[k]@);
    if c.len() < 3 {
        return None;
    }
    Some(
        ServiceInfo {
            pid: int_or_exec(&trim_exec(&c[0]), -1),
            label: string_of(&trim_exec(&c[2])),
            last_exit: int_or_exec(&trim_exec(&c[1]), 0),
        },
    )
}

/// Places `x` into `v`, which is ordered by [`service_lt`], after every job it
/// does not come before.
fn insert_service(v: &mut Vec<ServiceInfo>, x: ServiceInfo)
    ensures
        final(v)@.map_values(|s: ServiceInfo| s@) == sorted_insert(
            old(v)@.map_values(|s: ServiceInfo| s@),
            x@,
            service_order(),
        ),
{
    let ghost vs = old(v)@.map_values(|s: ServiceInfo| s@);
    let mut j: usize = 0;
    while j < v.len() && !service_lt_exec(&x, &v[j])
        invariant
            j <= v@.len(),
            v@ == old(v)@,
            vs == v@.map_values(|s: ServiceInfo| s@),
            crate::sort::insert_from(vs, x@, service_order(), 0) == crate::sort::insert_from(
                vs,
                x@,
                service_order(),
                j as int,
            ),
        decreases v@.len() - j,
    {
        assert(vs[j as int] == v@[j as int]@);
        j += 1;
    }
    proof {
        if j < v@.len() {
            assert(vs[j as int] == v@[j as int]@);
        }
    }
    let ghost xv = x@;
    v.insert(j, x);
    assert(v@.map_values(|s: ServiceInfo| s@) =~= vs.insert(j as int, xv));
}

/// The jobs from `launchctl list`, running ones first and ordered by label
/// within each group; jobs that compare equal keep the order of the rows.
pub fn collect_services(text: &str) -> (r: Vec<ServiceInfo>)
    ensures
        r@.map_values(|s: ServiceInfo| s@) == stable_sort(
            filter_map(body_lines(text@), |l: Seq<char>| launchctl_row(l)),
            service_order(),
        ),
        forall|i: int, j: int| 0 <= i < j < r@.len() && (#[trigger] r@[j]).pid > 0 ==> (#[trigger] r@[i]).pid > 0,
        forall|i: int, j: int|
            0 <= i < j < r@.len() && ((#[trigger] r@[i]).pid > 0) == ((#[trigger] r@[j]).pid > 0) ==> !lex_lt(
                r@[j].label@,
                r@[i].label@,
            ),
{
    let rows = body_lines_exec(text);
    let ghost bl = body_lines(text@);
    let ghost f = |l: Seq<char>| launchctl_row(l);
    let mut out: Vec<ServiceInfo> = Vec::new();
    assert(bl.take(0) =~= Seq::<Seq<char>>::empty());
    assert(out@.map_values(|s: ServiceInfo| s@) =~= Seq::<ServiceInfoV>::empty());
    let mut i: usize = 0;
    while i < rows.len()
        invariant
            i <= rows@.len(),
            views(rows@) == bl,
            f == (|l: Seq<char>| launchctl_row(l)),
            out@.map_values(|s: ServiceInfo| s@) == stable_sort(filter_map(bl.take(i as int), f), service_order()),
        decreases rows@.len() - i,
    {
        assert(rows@[i as int]@ == bl[i as int]);
        proof {
            lemma_filter_map_step(bl, f, i as int);
        }
        if let Some(s) = launchctl_row_exec(&rows[i]) {
            proof {
                lemma_stable_sort_push(filter_map(bl.take(i as int), f), s@, service_order());
            }
            insert_service(&mut out, s);
        }
        i += 1;
    }
    proof {
        lemma_take_all(bl);
        lemma_service_listing(filter_map(bl, f));
        let v = out@.map_values(|s: ServiceInfo| s@);
        assert(v == stable_sort(filter_map(bl, f), service_order()));
        assert forall|i: int, j: int| 0 <= i < j < out@.len() implies ((#[trigger] out@[j]).pid > 0 ==> (#[trigger] out@[i]).pid > 0) && ((out@[i].pid > 0) == (out@[j].pid > 0) ==> !lex_lt(out@[j].label@, out@[i].label@)) by {
            assert(v[i] == out@[i]@ && v[j] == out@[j]@);
            assert(v[j].pid > 0 ==> v[i].pid > 0);
            assert((v[i].pid > 0) == (v[j].pid > 0) ==> !lex_lt(v[j].label, v[i].label));
        }
    }
    out
}

/// A listing of jobs puts every running job (PID above 0) before every
/// job that does not run, and orders the jobs of each group by label.
pub proof fn lemma_service_listing(rows: Seq<ServiceInfoV>)
    ensures
        ({
            let v = stable_sort(rows, service_order());
            &&& forall|i: int, j: int| 0 <= i < j < v.len() && (#[trigger] v[j]).pid > 0 ==> (#[trigger] v[i]).pid > 0
            &&& forall|i: int, j: int|
                0 <= i < j < v.len() && ((#[trigger] v[i]).pid > 0) == ((#[trigger] v[j]).pid > 0) ==> !lex_lt(v[j].label, v[i].label)
        }),
{
    let v = stable_sort(rows, service_order());
    lemma_service_order_strict();
    lemma_stable_sort_sorted(rows, service_order());
    assert forall|i: int, j: int| 0 <= i < j < v.len() implies ((#[trigger] v[j]).pid > 0 ==> (#[trigger] v[i]).pid > 0) && ((v[i].pid > 0) == (v[j].pid > 0) ==> !lex_lt(v[j].label, v[i].label)) by {
        assert(!service_order()(v[j], v[i]));
    }
}

/// The listing order of jobs is a strict order.
pub proof fn lemma_service_order_strict()
    ensures
        strict_order(service_order()),
{
    lemma_lex_lt_strict();
    let lt = service_order();
    assert forall|a: ServiceInfoV, b: ServiceInfoV, c: ServiceInfoV| #[trigger] lt(a, b) && #[trigger] lt(b, c) implies lt(a, c) by {
        if (a.pid > 0) == (b.pid > 0) && (b.pid > 0) == (c.pid > 0) {
            assert(lex_lt(a.label, b.label) && lex_lt(b.label, c.label));
        }
    }
}

/// The listing order of jobs is a strict weak order: jobs are equivalent
/// when both or neither run and their labels are equal.
pub proof fn lemma_service_order_weak()
    ensures
        weak_order(service_order()),
{
    lemma_service_order_strict();
    let lt = service_order();
    assert forall|a: ServiceInfoV, b: ServiceInfoV, c: ServiceInfoV| #[trigger] equivalent(lt, a, b) && #[trigger] equivalent(lt, b, c) implies equivalent(lt, a, c) by {
        lemma_lex_lt_strict();
        lemma_lex_equivalent(a.label, b.label);
        lemma_lex_equivalent(b.label, c.label);
    }
}

/// The jobs that [`collect_services`] lists are exactly the rows of the
/// listing, each as often as it occurs, running jobs first and by label
/// within each group, and jobs that are equivalent in that order (see
/// [`lemma_service_order_weak`]) in the order of their rows.
pub proof fn lemma_services_ordered(text: Seq<char>)
    ensures
        ({
            let rows = filter_map(body_lines(text), |l: Seq<char>| launchctl_row(l));
            let listed = stable_sort(rows, service_order());
            &&& sorted_by(listed, service_order())
            &&& listed.to_multiset() == rows.to_multiset()
            &&& forall|x: ServiceInfoV| #[trigger] peers(listed, service_order(), x) == peers(rows, service_order(), x)
        }),
{
    let rows = filter_map(body_lines(text), |l: Seq<char>| launchctl_row(l));
    lemma_service_order_weak();
    lemma_stable_sort_sorted(rows, service_order());
    lemma_stable_sort_perm(rows, service_order());
    assert forall|x: ServiceInfoV| #[trigger] peers(stable_sort(rows, service_order()), service_order(), x) == peers(
        rows,
        service_order(),
        x,
    ) by {
        lemma_stable_sort_stable(rows, service_order(), x);
    }
}

} // verus!
