//! Stable ordering of records.
use vstd::prelude::*;

verus! {

/// The first position at or after `i` holding an element that `x` must come
/// before, or the length of `s`.
pub open spec fn insert_from<T>(s: Seq<T>, x: T, lt: spec_fn(T, T) -> bool, i: int) -> int
    decreases s.len() - i,
{
    if i < 0 || i >= s.len() {
        s.len() as int
    } else if lt(x, s[i]) {
        i
    } else {
        insert_from(s, x, lt, i + 1)
    }
}

/// `s` with `x` placed before the first element that it must come before.
pub open spec fn sorted_insert<T>(s: Seq<T>, x: T, lt: spec_fn(T, T) -> bool) -> Seq<T> {
    s.insert(insert_from(s, x, lt, 0), x)
}

/// `s` sorted by `lt` with equal elements kept in their order (the result of
/// a stable sort such as `slice::sort_by`).
pub open spec fn stable_sort<T>(s: Seq<T>, lt: spec_fn(T, T) -> bool) -> Seq<T>
    decreases s.len(),
{
    if s.len() == 0 {
        s
    } else {
        sorted_insert(stable_sort(s.drop_last(), lt), s.last(), lt)
    }
}

pub proof fn lemma_insert_from_range<T>(s: Seq<T>, x: T, lt: spec_fn(T, T) -> bool, i: int)
    requires
        0 <= i <= s.len(),
    ensures
        i <= insert_from(s, x, lt, i) <= s.len(),
        forall|j: int| i <= j < insert_from(s, x, lt, i) ==> !lt(x, #[trigger] s[j]),
        insert_from(s, x, lt, i) < s.len() ==> lt(x, s[insert_from(s, x, lt, i)]),
    decreases s.len() - i,
{
    if i < s.len() && !lt(x, s[i]) {
        lemma_insert_from_range(s, x, lt, i + 1);
    }
}

pub proof fn lemma_stable_sort_push<T>(s: Seq<T>, x: T, lt: spec_fn(T, T) -> bool)
    ensures
        stable_sort(s.push(x), lt) == sorted_insert(stable_sort(s, lt), x, lt),
{
    assert(s.push(x).drop_last() =~= s);
}

pub proof fn lemma_stable_sort_len<T>(s: Seq<T>, lt: spec_fn(T, T) -> bool)
    ensures
        stable_sort(s, lt).len() == s.len(),
    decreases s.len(),
{
    if s.len() > 0 {
        lemma_stable_sort_len(s.drop_last(), lt);
        lemma_insert_from_range(stable_sort(s.drop_last(), lt), s.last(), lt, 0);
    }
}

/// `a` comes strictly before `b` in lexicographic order of code points (the
/// order of `str` and `String`, which compare their UTF-8 bytes), from
/// position `i` on.
pub open spec fn lex_lt_from(a: Seq<char>, b: Seq<char>, i: int) -> bool
    decreases a.len() - i,
{
    if i < 0 {
        false
    } else if i >= a.len() {
        i < b.len()
    } else if i >= b.len() {
        false
    } else if a[i] < b[i] {
        true
    } else if a[i] > b[i] {
        false
    } else {
        lex_lt_from(a, b, i + 1)
    }
}

/// `a` comes strictly before `b` in lexicographic order of code points.
pub open spec fn lex_lt(a: Seq<char>, b: Seq<char>) -> bool {
    lex_lt_from(a, b, 0)
}

/// Whether `a` comes strictly before `b` in lexicographic order of code points.
pub fn lex_lt_exec(a: &Vec<char>, b: &Vec<char>) -> (r: bool)
    ensures
        r == lex_lt(a@, b@),
{
    let mut i: usize = 0;
    while i < a.len() && i < b.len() && a[i] == b[i]
        invariant
            lex_lt(a@, b@) == lex_lt_from(a@, b@, i as int),
            i <= a@.len(),
            i <= b@.len(),
        decreases a@.len() - i,
    {
        i += 1;
    }
    if i >= a.len() {
        i < b.len()
    } else if i >= b.len() {
        false
    } else {
        a[i] < b[i]
    }
}

/// `lt` is a strict order: no element comes before itself, and coming
/// before is transitive.
pub open spec fn strict_order<T>(lt: spec_fn(T, T) -> bool) -> bool {
    &&& forall|a: T| !#[trigger] lt(a, a)
    &&& forall|a: T, b: T, c: T| #[trigger] lt(a, b) && #[trigger] lt(b, c) ==> lt(a, c)
}

/// No element of `s` comes, by `lt`, strictly before an element ahead of it.
pub open spec fn sorted_by<T>(s: Seq<T>, lt: spec_fn(T, T) -> bool) -> bool {
    forall|i: int, j: int| 0 <= i < j < s.len() ==> !lt(#[trigger] s[j], #[trigger] s[i])
}

proof fn lemma_sorted_insert<T>(s: Seq<T>, x: T, lt: spec_fn(T, T) -> bool)
    requires
        strict_order(lt),
        sorted_by(s, lt),
    ensures
        sorted_by(sorted_insert(s, x, lt), lt),
{
    let p = insert_from(s, x, lt, 0);
    lemma_insert_from_range(s, x, lt, 0);
    let r = s.insert(p, x);
    assert forall|i: int, j: int| 0 <= i < j < r.len() implies !lt(#[trigger] r[j], #[trigger] r[i]) by {
        if j < p {
            assert(r[i] == s[i] && r[j] == s[j]);
        } else if j == p {
            assert(r[i] == s[i]);
        } else if i == p {
            assert(r[j] == s[j - 1]);
            if lt(s[j - 1], x) {
                assert(lt(x, s[p]));
                assert(lt(s[j - 1], s[p]));
            }
        } else if i < p {
            assert(r[i] == s[i] && r[j] == s[j - 1]);
        } else {
            assert(r[i] == s[i - 1] && r[j] == s[j - 1]);
        }
    }
}

/// A stable sort by a strict order leaves no element ahead of one that
/// comes before it.
pub proof fn lemma_stable_sort_sorted<T>(s: Seq<T>, lt: spec_fn(T, T) -> bool)
    requires
        strict_order(lt),
    ensures
        sorted_by(stable_sort(s, lt), lt),
    decreases s.len(),
{
    if s.len() > 0 {
        lemma_stable_sort_sorted(s.drop_last(), lt);
        lemma_sorted_insert(stable_sort(s.drop_last(), lt), s.last(), lt);
    }
}

/// A stable sort keeps every element, as often as it occurs.
pub proof fn lemma_stable_sort_perm<T>(s: Seq<T>, lt: spec_fn(T, T) -> bool)
    ensures
        stable_sort(s, lt).to_multiset() == s.to_multiset(),
    decreases s.len(),
{
    if s.len() > 0 {
        let rest = stable_sort(s.drop_last(), lt);
        lemma_stable_sort_perm(s.drop_last(), lt);
        lemma_stable_sort_len(s.drop_last(), lt);
        lemma_insert_from_range(rest, s.last(), lt, 0);
        vstd::seq_lib::to_multiset_insert(rest, insert_from(rest, s.last(), lt, 0), s.last());
        vstd::seq_lib::to_multiset_build(s.drop_last(), s.last());
        assert(s.drop_last().push(s.last()) =~= s);
    }
}

proof fn lemma_lex_from_irreflexive(a: Seq<char>, i: int)
    ensures
        !lex_lt_from(a, a, i),
    decreases a.len() - i,
{
    if 0 <= i < a.len() {
        lemma_lex_from_irreflexive(a, i + 1);
    }
}

proof fn lemma_lex_from_transitive(a: Seq<char>, b: Seq<char>, c: Seq<char>, i: int)
    requires
        lex_lt_from(a, b, i),
        lex_lt_from(b, c, i),
    ensures
        lex_lt_from(a, c, i),
    decreases a.len() - i,
{
    if i < a.len() && i < b.len() && i < c.len() && a[i] == b[i] && b[i] == c[i] {
        lemma_lex_from_transitive(a, b, c, i + 1);
    }
}

/// Lexicographic order of code points is a strict order.
pub proof fn lemma_lex_lt_strict()
    ensures
        forall|a: Seq<char>| !#[trigger] lex_lt(a, a),
        forall|a: Seq<char>, b: Seq<char>, c: Seq<char>| #[trigger] lex_lt(a, b) && #[trigger] lex_lt(b, c) ==> lex_lt(a, c),
{
    assert forall|a: Seq<char>| !#[trigger] lex_lt(a, a) by {
        lemma_lex_from_irreflexive(a, 0);
    }
    assert forall|a: Seq<char>, b: Seq<char>, c: Seq<char>| #[trigger] lex_lt(a, b) && #[trigger] lex_lt(b, c) implies lex_lt(a, c) by {
        lemma_lex_from_transitive(a, b, c, 0);
    }
}

/// Neither of `a` and `b` comes before the other.
pub open spec fn equivalent<T>(lt: spec_fn(T, T) -> bool, a: T, b: T) -> bool {
    !lt(a, b) && !lt(b, a)
}

/// `lt` is a strict weak order: a strict order under which being
/// equivalent is transitive.
pub open spec fn weak_order<T>(lt: spec_fn(T, T) -> bool) -> bool {
    &&& strict_order(lt)
    &&& forall|a: T, b: T, c: T| #[trigger] equivalent(lt, a, b) && #[trigger] equivalent(lt, b, c) ==> equivalent(lt, a, c)
}

/// The elements of `s` equivalent to `x`, in their order.
pub open spec fn peers<T>(s: Seq<T>, lt: spec_fn(T, T) -> bool, x: T) -> Seq<T>
    decreases s.len(),
{
    if s.len() == 0 {
        s
    } else if equivalent(lt, x, s.last()) {
        peers(s.drop_last(), lt, x).push(s.last())
    } else {
        peers(s.drop_last(), lt, x)
    }
}

proof fn lemma_peers_append<T>(a: Seq<T>, b: Seq<T>, lt: spec_fn(T, T) -> bool, x: T)
    ensures
        peers(a + b, lt, x) == peers(a, lt, x) + peers(b, lt, x),
    decreases b.len(),
{
    if b.len() == 0 {
        assert(a + b =~= a);
        assert(peers(a, lt, x) + peers(b, lt, x) =~= peers(a, lt, x));
    } else {
        lemma_peers_append(a, b.drop_last(), lt, x);
        assert((a + b).drop_last() =~= a + b.drop_last());
        assert((a + b).last() == b.last());
        if equivalent(lt, x, b.last()) {
            assert(peers(a, lt, x) + peers(b, lt, x) =~= (peers(a, lt, x) + peers(b.drop_last(), lt, x)).push(b.last()));
        }
    }
}

proof fn lemma_peers_none<T>(s: Seq<T>, lt: spec_fn(T, T) -> bool, x: T)
    requires
        forall|k: int| 0 <= k < s.len() ==> !equivalent(lt, x, #[trigger] s[k]),
    ensures
        peers(s, lt, x) == Seq::<T>::empty(),
    decreases s.len(),
{
    if s.len() > 0 {
        let t = s.drop_last();
        assert forall|k: int| 0 <= k < t.len() implies !equivalent(lt, x, #[trigger] t[k]) by {
            assert(t[k] == s[k]);
        }
        assert(s.last() == s[s.len() - 1]);
        lemma_peers_none(t, lt, x);
    }
}

proof fn lemma_peers_insert<T>(s: Seq<T>, y: T, lt: spec_fn(T, T) -> bool, x: T)
    requires
        weak_order(lt),
        sorted_by(s, lt),
    ensures
        peers(sorted_insert(s, y, lt), lt, x) == if equivalent(lt, x, y) {
            peers(s, lt, x).push(y)
        } else {
            peers(s, lt, x)
        },
{
    let p = insert_from(s, y, lt, 0);
    lemma_insert_from_range(s, y, lt, 0);
    let front = s.take(p);
    let back = s.skip(p);
    assert(s =~= front + back);
    assert(s.insert(p, y) =~= front + seq![y] + back);
    lemma_peers_append(front, back, lt, x);
    lemma_peers_append(front + seq![y], back, lt, x);
    lemma_peers_append(front, seq![y], lt, x);
    assert(seq![y].drop_last() =~= Seq::<T>::empty());
    assert(seq![y].last() == y);
    assert(peers(Seq::<T>::empty(), lt, x) == Seq::<T>::empty());
    let py = peers(seq![y], lt, x);
    assert(py == if equivalent(lt, x, y) { Seq::<T>::empty().push(y) } else { Seq::<T>::empty() });
    assert(sorted_insert(s, y, lt) == front + seq![y] + back);
    if equivalent(lt, x, y) {
        assert forall|k: int| 0 <= k < back.len() implies !equivalent(lt, x, #[trigger] back[k]) by {
            let z = back[k];
            assert(z == s[p + k]);
            if equivalent(lt, x, z) {
                assert(equivalent(lt, z, x));
                assert(equivalent(lt, z, y));
                assert(lt(y, s[p]));
                if lt(z, s[p]) {
                    if k == 0 {
                        assert(!lt(s[p], s[p]));
                    } else {
                        assert(!lt(s[p + k], s[p]));
                    }
                } else if lt(s[p], z) {
                    assert(lt(y, z));
                } else {
                    assert(equivalent(lt, y, z));
                    assert(equivalent(lt, z, s[p]));
                    assert(equivalent(lt, y, s[p]));
                }
            }
        }
        lemma_peers_none(back, lt, x);
        assert(peers(front, lt, x) + Seq::<T>::empty().push(y) + Seq::<T>::empty() =~= peers(front, lt, x).push(y));
    } else {
        assert(peers(front, lt, x) + Seq::<T>::empty() =~= peers(front, lt, x));
    }
}

/// A stable sort by a strict weak order keeps the elements equivalent to any
/// `x` in the order in which they came.
pub proof fn lemma_stable_sort_stable<T>(s: Seq<T>, lt: spec_fn(T, T) -> bool, x: T)
    requires
        weak_order(lt),
    ensures
        peers(stable_sort(s, lt), lt, x) == peers(s, lt, x),
    decreases s.len(),
{
    if s.len() > 0 {
        lemma_stable_sort_stable(s.drop_last(), lt, x);
        lemma_stable_sort_sorted(s.drop_last(), lt);
        lemma_peers_insert(stable_sort(s.drop_last(), lt), s.last(), lt, x);
    }
}

proof fn lemma_lex_from_equal(a: Seq<char>, b: Seq<char>, i: int)
    requires
        0 <= i <= a.len(),
        i <= b.len(),
        !lex_lt_from(a, b, i),
        !lex_lt_from(b, a, i),
    ensures
        a.len() == b.len(),
        forall|k: int| i <= k < a.len() ==> a[k] == b[k],
    decreases a.len() - i,
{
    if i < a.len() && i < b.len() {
        lemma_lex_from_equal(a, b, i + 1);
    }
}

/// Texts neither of which comes before the other in lexicographic order are
/// equal.
pub proof fn lemma_lex_equivalent(a: Seq<char>, b: Seq<char>)
    requires
        !lex_lt(a, b),
        !lex_lt(b, a),
    ensures
        a == b,
{
    lemma_lex_from_equal(a, b, 0);
    assert(a =~= b);
}

} // verus!
