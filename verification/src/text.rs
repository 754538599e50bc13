//! Character-level text primitives with their specifications.
//!
//! Every function here works on sequences of Unicode scalar values, the view
//! that Verus gives to `str` and `String`.
use vstd::prelude::*;

verus! {

/// The Unicode `White_Space` property, as `char::is_whitespace` reports it.
pub open spec fn is_ws(c: char) -> bool {
    ||| c == ' ' || c == '\t' || c == '\n' || c == '\x0B' || c == '\x0C' || c == '\r'
    ||| c == '\u{85}' || c == '\u{A0}' || c == '\u{1680}'
    ||| ('\u{2000}' <= c && c <= '\u{200A}')
    ||| c == '\u{2028}' || c == '\u{2029}' || c == '\u{202F}' || c == '\u{205F}'
    ||| c == '\u{3000}'
}

/// Executable form of [`is_ws`].
pub fn is_ws_char(c: char) -> (b: bool)
    ensures
        b == is_ws(c),
{
    c == ' ' || c == '\t' || c == '\n' || c == '\x0B' || c == '\x0C' || c == '\r' || c == '\u{85}'
        || c == '\u{A0}' || c == '\u{1680}' || ('\u{2000}' <= c && c <= '\u{200A}') || c
        == '\u{2028}' || c == '\u{2029}' || c == '\u{202F}' || c == '\u{205F}' || c == '\u{3000}'
}

/// The characters of a string slice.
pub fn chars_of(s: &str) -> (v: Vec<char>)
    ensures
        v@ == s@,
{
    broadcast use vstd::string::axiom_spec_iter;

    let mut v: Vec<char> = Vec::new();
    for c in it: s.chars()
        invariant
            it.seq() == s@,
            v@ == it.seq().take(it.index() as int),
    {
        v.push(c);
    }
    assert(v@ =~= s@);
    v
}

} // verus!

verus! {

/// A string built from a sequence of characters, by `Iterator::collect`
/// into `String` (std's `FromIterator<&char>` for `String`). Claims that the
/// string holds exactly these characters, in this order.
#[verifier::external_body]
pub(crate) fn string_of(v: &Vec<char>) -> (s: String)
    ensures
        s@ == v@,
{
    v.iter().collect()
}

/// The characters of `s` from position `i` (inclusive) to `j` (exclusive).
pub fn slice_of(s: &Vec<char>, i: usize, j: usize) -> (r: Vec<char>)
    requires
        i <= j <= s@.len(),
    ensures
        r@ == s@.subrange(i as int, j as int),
{
    let mut r: Vec<char> = Vec::new();
    let mut k = i;
    while k < j
        invariant
            i <= k <= j <= s@.len(),
            r@ == s@.subrange(i as int, k as int),
        decreases j - k,
    {
        r.push(s[k]);
        k += 1;
        assert(r@ =~= s@.subrange(i as int, k as int));
    }
    r
}

/// The views of a sequence of character vectors.
pub open spec fn views(v: Seq<Vec<char>>) -> Seq<Seq<char>> {
    v.map_values(|x: Vec<char>| x@)
}

/// A class of characters that trimming removes.
#[derive(Clone, Copy)]
pub enum CharClass {
    /// White space, as `char::is_whitespace` defines it.
    Space,
    /// One given character.
    Exact(char),
    /// An opening or closing round bracket.
    Paren,
}

/// Whether `c` belongs to the class `k`.
pub open spec fn in_class(k: CharClass, c: char) -> bool {
    match k {
        CharClass::Space => is_ws(c),
        CharClass::Exact(x) => c == x,
        CharClass::Paren => c == '(' || c == ')',
    }
}

/// Executable form of [`in_class`].
pub fn class_has(k: CharClass, c: char) -> (b: bool)
    ensures
        b == in_class(k, c),
{
    match k {
        CharClass::Space => is_ws_char(c),
        CharClass::Exact(x) => c == x,
        CharClass::Paren => c == '(' || c == ')',
    }
}

/// `s` without its leading characters of class `k`.
pub open spec fn strip_start(s: Seq<char>, k: CharClass) -> Seq<char>
    decreases s.len(),
{
    if s.len() > 0 && in_class(k, s[0]) {
        strip_start(s.drop_first(), k)
    } else {
        s
    }
}

/// `s` without its trailing characters of class `k`.
pub open spec fn strip_end(s: Seq<char>, k: CharClass) -> Seq<char>
    decreases s.len(),
{
    if s.len() > 0 && in_class(k, s.last()) {
        strip_end(s.drop_last(), k)
    } else {
        s
    }
}

/// `s` without leading and trailing characters of class `k` (`str::trim_matches`).
pub open spec fn strip_both(s: Seq<char>, k: CharClass) -> Seq<char> {
    strip_end(strip_start(s, k), k)
}

/// `s` without leading and trailing white space (`str::trim`).
pub open spec fn trim(s: Seq<char>) -> Seq<char> {
    strip_both(s, CharClass::Space)
}

pub proof fn lemma_strip_start_at(s: Seq<char>, k: CharClass, i: int)
    requires
        0 <= i <= s.len(),
        forall|j: int| 0 <= j < i ==> in_class(k, #[trigger] s[j]),
        i == s.len() || !in_class(k, s[i]),
    ensures
        strip_start(s, k) == s.subrange(i, s.len() as int),
    decreases i,
{
    if i > 0 {
        assert forall|j: int| 0 <= j < i - 1 implies in_class(k, #[trigger] s.drop_first()[j]) by {
            assert(s.drop_first()[j] == s[j + 1]);
        }
        lemma_strip_start_at(s.drop_first(), k, i - 1);
        assert(s.drop_first().subrange(i - 1, s.len() - 1) =~= s.subrange(i, s.len() as int));
    } else {
        assert(s.subrange(0, s.len() as int) =~= s);
    }
}

pub proof fn lemma_strip_end_at(s: Seq<char>, k: CharClass, j: int)
    requires
        0 <= j <= s.len(),
        forall|m: int| j <= m < s.len() ==> in_class(k, #[trigger] s[m]),
        j == 0 || !in_class(k, s[j - 1]),
    ensures
        strip_end(s, k) == s.subrange(0, j),
    decreases s.len() - j,
{
    if j < s.len() {
        assert forall|m: int| j <= m < s.len() - 1 implies in_class(k, #[trigger] s.drop_last()[m]) by {
            assert(s.drop_last()[m] == s[m]);
        }
        lemma_strip_end_at(s.drop_last(), k, j);
        assert(s.drop_last().subrange(0, j) =~= s.subrange(0, j));
    } else {
        assert(s.subrange(0, s.len() as int) =~= s);
    }
}

/// `str::trim_start_matches` for a character class.
pub fn strip_start_exec(s: &Vec<char>, k: CharClass) -> (r: Vec<char>)
    ensures
        r@ == strip_start(s@, k),
{
    let mut i: usize = 0;
    while i < s.len() && class_has(k, s[i])
        invariant
            i <= s@.len(),
            forall|j: int| 0 <= j < i ==> in_class(k, #[trigger] s@[j]),
        decreases s@.len() - i,
    {
        i += 1;
    }
    proof {
        lemma_strip_start_at(s@, k, i as int);
    }
    slice_of(s, i, s.len())
}

/// `str::trim_end_matches` for a character class.
pub fn strip_end_exec(s: &Vec<char>, k: CharClass) -> (r: Vec<char>)
    ensures
        r@ == strip_end(s@, k),
{
    let mut j: usize = s.len();
    while j > 0 && class_has(k, s[j - 1])
        invariant
            j <= s@.len(),
            forall|m: int| j <= m < s@.len() ==> in_class(k, #[trigger] s@[m]),
        decreases j,
    {
        j -= 1;
    }
    proof {
        lemma_strip_end_at(s@, k, j as int);
    }
    slice_of(s, 0, j)
}

/// `str::trim_matches` for a character class.
pub fn strip_both_exec(s: &Vec<char>, k: CharClass) -> (r: Vec<char>)
    ensures
        r@ == strip_both(s@, k),
{
    let t = strip_start_exec(s, k);
    strip_end_exec(&t, k)
}

/// `str::trim`.
pub fn trim_exec(s: &Vec<char>) -> (r: Vec<char>)
    ensures
        r@ == trim(s@),
{
    strip_both_exec(s, CharClass::Space)
}

} // verus!

verus! {

/// `p` occurs in `s` at position `i`.
pub open spec fn match_at(s: Seq<char>, p: Seq<char>, i: int) -> bool {
    0 <= i && i + p.len() <= s.len() && s.subrange(i, i + p.len()) == p
}

/// The first position at or after `i` where `p` occurs in `s`, or -1.
pub open spec fn find_from(s: Seq<char>, p: Seq<char>, i: int) -> int
    decreases s.len() + 1 - i,
{
    if i < 0 || i + p.len() > s.len() {
        -1
    } else if match_at(s, p, i) {
        i
    } else {
        find_from(s, p, i + 1)
    }
}

/// The first position where `p` occurs in `s`, or -1 (`str::find`).
pub open spec fn find(s: Seq<char>, p: Seq<char>) -> int {
    find_from(s, p, 0)
}

/// `s` holds `p` somewhere (`str::contains`).
pub open spec fn contains(s: Seq<char>, p: Seq<char>) -> bool {
    exists|i: int| match_at(s, p, i)
}

/// `s` begins with `p` (`str::starts_with`).
pub open spec fn starts_with(s: Seq<char>, p: Seq<char>) -> bool {
    match_at(s, p, 0)
}

/// `s` ends with `p` (`str::ends_with`).
pub open spec fn ends_with(s: Seq<char>, p: Seq<char>) -> bool {
    p.len() <= s.len() && match_at(s, p, s.len() - p.len())
}

pub proof fn lemma_find_from(s: Seq<char>, p: Seq<char>, i: int)
    requires
        0 <= i,
    ensures
        ({
            let r = find_from(s, p, i);
            &&& r == -1 || (i <= r && match_at(s, p, r))
            &&& forall|j: int| i <= j && (r == -1 || j < r) ==> !match_at(s, p, j)
        }),
    decreases s.len() + 1 - i,
{
    if i + p.len() > s.len() {
    } else if match_at(s, p, i) {
    } else {
        lemma_find_from(s, p, i + 1);
    }
}

pub proof fn lemma_find(s: Seq<char>, p: Seq<char>)
    ensures
        find(s, p) == -1 || (0 <= find(s, p) && find(s, p) + p.len() <= s.len() && match_at(s, p, find(s, p))),
        forall|j: int| 0 <= j && (find(s, p) == -1 || j < find(s, p)) ==> !match_at(s, p, j),
        contains(s, p) <==> find(s, p) >= 0,
{
    lemma_find_from(s, p, 0);
}

/// Whether `p` occurs in `s` at position `i`.
pub fn match_at_exec(s: &Vec<char>, p: &Vec<char>, i: usize) -> (b: bool)
    ensures
        b == match_at(s@, p@, i as int),
{
    if i > s.len() || p.len() > s.len() - i {
        return false;
    }
    let mut k: usize = 0;
    while k < p.len()
        invariant
            s@.len() <= usize::MAX,
            i + p@.len() <= s@.len(),
            k <= p@.len(),
            forall|m: int| 0 <= m < k ==> s@[i + m] == p@[m],
        decreases p@.len() - k,
    {
        if s[i + k] != p[k] {
            assert(s@.subrange(i as int, i + p@.len())[k as int] != p@[k as int]);
            return false;
        }
        k += 1;
    }
    assert(s@.subrange(i as int, i + p@.len()) =~= p@);
    true
}

/// The first position at or after `from` where `p` occurs in `s`.
pub fn find_exec(s: &Vec<char>, p: &Vec<char>, from: usize) -> (r: Option<usize>)
    ensures
        match r {
            Some(x) => find_from(s@, p@, from as int) == x,
            None => find_from(s@, p@, from as int) == -1,
        },
{
    let mut i = from;
    while i < s.len()
        invariant
            from <= i,
            find_from(s@, p@, from as int) == find_from(s@, p@, i as int),
        decreases s@.len() - i,
    {
        if p.len() > s.len() - i {
            return None;
        }
        if match_at_exec(s, p, i) {
            return Some(i);
        }
        i += 1;
    }
    if i == s.len() && p.len() == 0 {
        assert(s@.subrange(i as int, i as int) =~= p@);
        Some(i)
    } else {
        None
    }
}

/// Whether `s` holds `p` (`str::contains`).
pub fn contains_exec(s: &Vec<char>, p: &Vec<char>) -> (b: bool)
    ensures
        b == contains(s@, p@),
{
    proof {
        lemma_find(s@, p@);
    }
    find_exec(s, p, 0).is_some()
}

/// Whether `s` begins with `p` (`str::starts_with`).
pub fn starts_with_exec(s: &Vec<char>, p: &Vec<char>) -> (b: bool)
    ensures
        b == starts_with(s@, p@),
{
    match_at_exec(s, p, 0)
}

/// Whether `s` ends with `p` (`str::ends_with`).
pub fn ends_with_exec(s: &Vec<char>, p: &Vec<char>) -> (b: bool)
    ensures
        b == ends_with(s@, p@),
{
    if p.len() > s.len() {
        false
    } else {
        match_at_exec(s, p, s.len() - p.len())
    }
}

/// Whether `s` equals `p`.
pub fn eq_exec(s: &Vec<char>, p: &Vec<char>) -> (b: bool)
    ensures
        b == (s@ == p@),
{
    if s.len() != p.len() {
        return false;
    }
    let b = match_at_exec(s, p, 0);
    proof {
        assert(s@.subrange(0, s@.len() as int) =~= s@);
    }
    b
}

/// The pieces of `s` between the occurrences of `p` (`str::split`).
pub open spec fn split(s: Seq<char>, p: Seq<char>) -> Seq<Seq<char>>
    decreases s.len(),
{
    if p.len() == 0 {
        seq![s]
    } else {
        let i = find(s, p);
        if i < 0 {
            seq![s]
        } else {
            proof {
                lemma_find(s, p);
            }
            seq![s.subrange(0, i)] + split(s.subrange(i + p.len(), s.len() as int), p)
        }
    }
}

/// `s` cut at the first occurrence of `p` (`str::splitn(2, p)`).
pub open spec fn split2(s: Seq<char>, p: Seq<char>) -> Seq<Seq<char>> {
    let i = find(s, p);
    if i < 0 {
        seq![s]
    } else {
        seq![s.subrange(0, i), s.subrange(i + p.len(), s.len() as int)]
    }
}

/// The pieces of `s` between the occurrences of `p` (`str::split`).
pub fn split_exec(s: &Vec<char>, p: &Vec<char>) -> (r: Vec<Vec<char>>)
    ensures
        views(r@) == split(s@, p@),
{
    let mut out: Vec<Vec<char>> = Vec::new();
    if p.len() == 0 {
        out.push(slice_of(s, 0, s.len()));
        assert(views(out@) =~= seq![s@.subrange(0, s@.len() as int)]);
        assert(s@.subrange(0, s@.len() as int) =~= s@);
        return out;
    }
    let mut rest = slice_of(s, 0, s.len());
    assert(rest@ =~= s@);
    loop
        invariant
            p@.len() > 0,
            views(out@) + split(rest@, p@) == split(s@, p@),
        decreases rest@.len(),
    {
        proof {
            lemma_find(rest@, p@);
        }
        match find_exec(&rest, p, 0) {
            None => {
                let ghost old_out = out@;
                out.push(rest);
                assert(views(out@) =~= views(old_out) + split(rest@, p@));
                return out;
            },
            Some(i) => {
                let n = rest.len();
                let piece = slice_of(&rest, 0, i);
                let next = slice_of(&rest, i + p.len(), n);
                let ghost old_out = out@;
                let ghost old_rest = rest@;
                out.push(piece);
                assert(views(out@) =~= views(old_out) + seq![old_rest.subrange(0, i as int)]);
                assert(split(old_rest, p@) == seq![old_rest.subrange(0, i as int)] + split(next@, p@));
                assert(views(out@) + split(next@, p@) =~= views(old_out) + split(old_rest, p@));
                rest = next;
            },
        }
    }
}

/// `s` cut at the first occurrence of `p` (`str::splitn(2, p)`).
pub fn split2_exec(s: &Vec<char>, p: &Vec<char>) -> (r: Vec<Vec<char>>)
    ensures
        views(r@) == split2(s@, p@),
{
    proof {
        lemma_find(s@, p@);
    }
    let mut out: Vec<Vec<char>> = Vec::new();
    match find_exec(s, p, 0) {
        None => {
            out.push(slice_of(s, 0, s.len()));
            assert(s@.subrange(0, s@.len() as int) =~= s@);
        },
        Some(i) => {
            let n = s.len();
            out.push(slice_of(s, 0, i));
            out.push(slice_of(s, i + p.len(), n));
        },
    }
    assert(views(out@) =~= split2(s@, p@));
    out
}

} // verus!

verus! {

/// `t` without one trailing carriage return.
pub open spec fn strip_cr(t: Seq<char>) -> Seq<char> {
    if t.len() > 0 && t.last() == '\r' {
        t.drop_last()
    } else {
        t
    }
}

/// The lines of `s` (`str::lines`): pieces ended by `\n` or `\r\n`, where the
/// final line ending is optional.
pub open spec fn lines(s: Seq<char>) -> Seq<Seq<char>>
    decreases s.len(),
{
    if s.len() == 0 {
        seq![]
    } else {
        let i = find(s, seq!['\n']);
        if i < 0 {
            seq![s]
        } else {
            proof {
                lemma_find(s, seq!['\n']);
            }
            seq![strip_cr(s.subrange(0, i))] + lines(s.subrange(i + 1, s.len() as int))
        }
    }
}

/// The lines of `s` (`str::lines`).
pub fn lines_exec(s: &Vec<char>) -> (r: Vec<Vec<char>>)
    ensures
        views(r@) == lines(s@),
{
    let nl = vec!['\n'];
    let mut out: Vec<Vec<char>> = Vec::new();
    let mut rest = slice_of(s, 0, s.len());
    assert(rest@ =~= s@);
    assert(nl@ =~= seq!['\n']);
    loop
        invariant
            nl@ == seq!['\n'],
            views(out@) + lines(rest@) == lines(s@),
        decreases rest@.len(),
    {
        if rest.len() == 0 {
            assert(views(out@) + lines(rest@) =~= views(out@));
            return out;
        }
        proof {
            lemma_find(rest@, nl@);
        }
        match find_exec(&rest, &nl, 0) {
            None => {
                let ghost old_out = out@;
                out.push(rest);
                assert(views(out@) =~= views(old_out) + lines(rest@));
                return out;
            },
            Some(i) => {
                let n = rest.len();
                let mut piece = slice_of(&rest, 0, i);
                if piece.len() > 0 && piece[piece.len() - 1] == '\r' {
                    let m = piece.len() - 1;
                    piece = slice_of(&piece, 0, m);
                }
                let next = slice_of(&rest, i + 1, n);
                let ghost old_out = out@;
                let ghost old_rest = rest@;
                assert(piece@ =~= strip_cr(old_rest.subrange(0, i as int)));
                out.push(piece);
                assert(views(out@) =~= views(old_out) + seq![piece@]);
                assert(lines(old_rest) == seq![piece@] + lines(next@));
                assert(views(out@) + lines(next@) =~= views(old_out) + lines(old_rest));
                rest = next;
            },
        }
    }
}

/// The first position at or after `i` holding white space, or the length of `s`.
pub open spec fn ws_from(s: Seq<char>, i: int) -> int
    decreases s.len() - i,
{
    if i < 0 || i >= s.len() {
        s.len() as int
    } else if is_ws(s[i]) {
        i
    } else {
        ws_from(s, i + 1)
    }
}

pub proof fn lemma_ws_from(s: Seq<char>, i: int)
    requires
        0 <= i <= s.len(),
    ensures
        i <= ws_from(s, i) <= s.len(),
        ws_from(s, i) == s.len() || is_ws(s[ws_from(s, i)]),
        forall|j: int| i <= j < ws_from(s, i) ==> !is_ws(#[trigger] s[j]),
    decreases s.len() - i,
{
    if i < s.len() && !is_ws(s[i]) {
        lemma_ws_from(s, i + 1);
    }
}

pub proof fn lemma_strip_start_len(s: Seq<char>, k: CharClass)
    ensures
        strip_start(s, k).len() <= s.len(),
        strip_start(s, k).len() > 0 ==> !in_class(k, strip_start(s, k)[0]),
    decreases s.len(),
{
    if s.len() > 0 && in_class(k, s[0]) {
        lemma_strip_start_len(s.drop_first(), k);
    }
}

/// The words of `s`, separated by white space (`str::split_whitespace`).
pub open spec fn words(s: Seq<char>) -> Seq<Seq<char>>
    decreases s.len(),
{
    let t = strip_start(s, CharClass::Space);
    if t.len() == 0 {
        seq![]
    } else {
        let k = ws_from(t, 0);
        proof {
            lemma_strip_start_len(s, CharClass::Space);
            lemma_ws_from(t, 0);
        }
        seq![t.subrange(0, k)] + words(t.subrange(k, t.len() as int))
    }
}

/// The words of `s` (`str::split_whitespace`).
pub fn words_exec(s: &Vec<char>) -> (r: Vec<Vec<char>>)
    ensures
        views(r@) == words(s@),
{
    let mut out: Vec<Vec<char>> = Vec::new();
    let mut rest = slice_of(s, 0, s.len());
    assert(rest@ =~= s@);
    loop
        invariant
            views(out@) + words(rest@) == words(s@),
        decreases rest@.len(),
    {
        let t = strip_start_exec(&rest, CharClass::Space);
        proof {
            lemma_strip_start_len(rest@, CharClass::Space);
        }
        if t.len() == 0 {
            assert(views(out@) + words(rest@) =~= views(out@));
            return out;
        }
        let mut k: usize = 0;
        while k < t.len() && !is_ws_char(t[k])
            invariant
                k <= t@.len(),
                ws_from(t@, 0) == ws_from(t@, k as int),
            decreases t@.len() - k,
        {
            k += 1;
        }
        proof {
            lemma_ws_from(t@, 0);
        }
        let n = t.len();
        let piece = slice_of(&t, 0, k);
        let next = slice_of(&t, k, n);
        let ghost old_out = out@;
        let ghost old_rest = rest@;
        out.push(piece);
        assert(views(out@) =~= views(old_out) + seq![piece@]);
        assert(words(old_rest) == seq![piece@] + words(next@));
        assert(views(out@) + words(next@) =~= views(old_out) + words(old_rest));
        rest = next;
    }
}

} // verus!

verus! {

/// `a` followed by `b`.
pub fn concat(a: &Vec<char>, b: &Vec<char>) -> (r: Vec<char>)
    ensures
        r@ == a@ + b@,
{
    let mut r = slice_of(a, 0, a.len());
    let mut i: usize = 0;
    while i < b.len()
        invariant
            i <= b@.len(),
            r@ == a@ + b@.take(i as int),
        decreases b@.len() - i,
    {
        r.push(b[i]);
        i += 1;
        assert(r@ =~= a@ + b@.take(i as int));
    }
    assert(b@.take(b@.len() as int) =~= b@);
    r
}

/// The `n`-th piece, or the empty text when there are fewer pieces
/// (`iter.nth(n).unwrap_or("")`).
pub open spec fn nth_or_empty(ps: Seq<Seq<char>>, n: int) -> Seq<char> {
    if 0 <= n < ps.len() {
        ps[n]
    } else {
        seq![]
    }
}

/// Executable form of [`nth_or_empty`].
pub fn nth_or_empty_exec(ps: &Vec<Vec<char>>, n: usize) -> (r: Vec<char>)
    ensures
        r@ == nth_or_empty(views(ps@), n as int),
{
    if n < ps.len() {
        let p = &ps[n];
        slice_of(p, 0, p.len())
    } else {
        Vec::new()
    }
}

/// The last piece, or the empty text when there is none.
pub open spec fn last_or_empty(ps: Seq<Seq<char>>) -> Seq<char> {
    if ps.len() > 0 {
        ps.last()
    } else {
        seq![]
    }
}

/// Executable form of [`last_or_empty`].
pub fn last_or_empty_exec(ps: &Vec<Vec<char>>) -> (r: Vec<char>)
    ensures
        r@ == last_or_empty(views(ps@)),
{
    if ps.len() > 0 {
        let p = &ps[ps.len() - 1];
        slice_of(p, 0, p.len())
    } else {
        Vec::new()
    }
}

/// The pieces joined with `sep` between them (`slice::join`).
pub open spec fn join(ps: Seq<Seq<char>>, sep: Seq<char>) -> Seq<char>
    decreases ps.len(),
{
    if ps.len() == 0 {
        seq![]
    } else if ps.len() == 1 {
        ps[0]
    } else {
        join(ps.drop_last(), sep) + sep + ps.last()
    }
}

/// The pieces from `from` on, joined with `sep` between them.
pub fn join_from(ps: &Vec<Vec<char>>, from: usize, sep: &Vec<char>) -> (r: Vec<char>)
    requires
        from <= ps@.len(),
    ensures
        r@ == join(views(ps@).skip(from as int), sep@),
{
    let ghost vs = views(ps@);
    let mut r: Vec<char> = Vec::new();
    if from == ps.len() {
        assert(vs.skip(from as int) =~= Seq::<Seq<char>>::empty());
        return r;
    }
    let mut i = from;
    while i < ps.len()
        invariant
            from <= i <= ps@.len(),
            from < ps@.len(),
            vs == views(ps@),
            i == from ==> r@ == Seq::<char>::empty(),
            r@ == join(vs.subrange(from as int, i as int), sep@),
        decreases ps@.len() - i,
    {
        let ghost old_r = r@;
        assert(vs[i as int] == ps@[i as int]@);
        if i > from {
            r = concat(&r, sep);
        }
        r = concat(&r, &ps[i]);
        let ghost part = vs.subrange(from as int, i + 1);
        assert(part.drop_last() =~= vs.subrange(from as int, i as int));
        assert(part.last() == vs[i as int]);
        if i == from {
            assert(part.len() == 1);
            assert(r@ =~= part[0]);
        }
        i += 1;
    }
    assert(vs.subrange(from as int, ps@.len() as int) =~= vs.skip(from as int));
    r
}

/// `s` with every occurrence of `from` replaced by `to` (`str::replace`).
pub open spec fn replace(s: Seq<char>, from: Seq<char>, to: Seq<char>) -> Seq<char> {
    join(split(s, from), to)
}

/// Executable form of [`replace`].
pub fn replace_exec(s: &Vec<char>, from: &Vec<char>, to: &Vec<char>) -> (r: Vec<char>)
    ensures
        r@ == replace(s@, from@, to@),
{
    let ps = split_exec(s, from);
    assert(views(ps@).skip(0) =~= views(ps@));
    join_from(&ps, 0, to)
}

/// The first word of `s`, or the empty text.
pub open spec fn first_word(s: Seq<char>) -> Seq<char> {
    nth_or_empty(words(s), 0)
}

/// The last word of `s`, or the empty text.
pub open spec fn last_word(s: Seq<char>) -> Seq<char> {
    last_or_empty(words(s))
}

/// Executable form of [`first_word`].
pub fn first_word_exec(s: &Vec<char>) -> (r: Vec<char>)
    ensures
        r@ == first_word(s@),
{
    let ws = words_exec(s);
    nth_or_empty_exec(&ws, 0)
}

/// Executable form of [`last_word`].
pub fn last_word_exec(s: &Vec<char>) -> (r: Vec<char>)
    ensures
        r@ == last_word(s@),
{
    let ws = words_exec(s);
    last_or_empty_exec(&ws)
}

} // verus!

verus! {

pub proof fn lemma_split_nonempty(s: Seq<char>, p: Seq<char>)
    ensures
        split(s, p).len() >= 1,
{
    if p.len() > 0 {
        let i = find(s, p);
        if i >= 0 {
            lemma_find(s, p);
        }
    }
}

/// `s` without every trailing repetition of the non-empty `p`
/// (`str::trim_end_matches` with a string pattern).
pub open spec fn strip_suffixes(s: Seq<char>, p: Seq<char>) -> Seq<char>
    decreases s.len(),
{
    if p.len() > 0 && ends_with(s, p) {
        strip_suffixes(s.take(s.len() - p.len()), p)
    } else {
        s
    }
}

/// `s` without every trailing repetition of `p`.
pub fn strip_suffixes_exec(s: &Vec<char>, p: &Vec<char>) -> (r: Vec<char>)
    ensures
        r@ == strip_suffixes(s@, p@),
{
    let mut n: usize = s.len();
    assert(s@.take(n as int) =~= s@);
    while p.len() > 0 && p.len() <= n && match_at_exec(s, p, n - p.len())
        invariant
            n <= s@.len(),
            strip_suffixes(s@.take(n as int), p@) == strip_suffixes(s@, p@),
        decreases n,
    {
        proof {
            let t = s@.take(n as int);
            assert(t.subrange(n - p@.len(), n as int) =~= s@.subrange(n - p@.len(), n as int));
            assert(t.take(t.len() - p@.len()) =~= s@.take(n - p@.len()));
        }
        n = n - p.len();
    }
    proof {
        let t = s@.take(n as int);
        if p@.len() > 0 && p@.len() <= n {
            assert(t.subrange(n - p@.len(), n as int) =~= s@.subrange(n - p@.len(), n as int));
        }
        assert(s@.subrange(0, n as int) =~= t);
    }
    slice_of(s, 0, n)
}

} // verus!
