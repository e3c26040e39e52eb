//! Character-sequence toolkit: the mathematical model of the string operations the
//! protocol code relies on (search, trimming, line and token splitting, decimal
//! numbers), with executable versions proved against it.
use vstd::prelude::*;

verus! {

// ---------------------------------------------------------------------------
// Character classes and the std string functions whose behaviour rests on
// Unicode tables.
// ---------------------------------------------------------------------------

/// Whether a character has the Unicode `White_Space` property, as
/// `char::is_whitespace` tests: tab to carriage return, space, next line,
/// no-break space, ogham space mark, the spaces U+2000 to U+200A, the line and
/// paragraph separators, narrow no-break space, medium mathematical space and
/// ideographic space.
pub open spec fn spec_is_whitespace(c: char) -> bool {
    ||| ('\t' <= c && c <= '\r')
    ||| c == ' '
    ||| c == '\u{85}'
    ||| c == '\u{a0}'
    ||| c == '\u{1680}'
    ||| ('\u{2000}' <= c && c <= '\u{200a}')
    ||| c == '\u{2028}'
    ||| c == '\u{2029}'
    ||| c == '\u{202f}'
    ||| c == '\u{205f}'
    ||| c == '\u{3000}'
}

/// Whether `char::is_alphanumeric` holds of a character.
pub uninterp spec fn spec_is_alphanumeric(c: char) -> bool;

/// What `str::to_lowercase` returns for a string (Unicode lowercase mapping).
pub uninterp spec fn spec_to_lowercase(s: Seq<char>) -> Seq<char>;

/// Whether a character is whitespace (`char::is_whitespace`).
pub(crate) fn is_whitespace(c: char) -> (r: bool)
    ensures
        r == spec_is_whitespace(c),
{
    ('\t' <= c && c <= '\r') || c == ' ' || c == '\u{85}' || c == '\u{a0}' || c == '\u{1680}'
        || ('\u{2000}' <= c && c <= '\u{200a}') || c == '\u{2028}' || c == '\u{2029}'
        || c == '\u{202f}' || c == '\u{205f}' || c == '\u{3000}'
}

/// Calls `char::is_alphanumeric`; the contract only names its result.
#[verifier::external_body]
pub(crate) fn is_alphanumeric(c: char) -> (r: bool)
    ensures
        r == spec_is_alphanumeric(c),
{
    c.is_alphanumeric()
}

/// Calls `str::to_lowercase`; the contract only names its result.
#[verifier::external_body]
pub(crate) fn to_lowercase(s: &str) -> (r: String)
    ensures
        r@ == spec_to_lowercase(s@),
{
    s.to_lowercase()
}

/// Calls `String::push`: the character is appended at the end.
#[verifier::external_body]
pub(crate) fn push_char(s: &mut String, c: char)
    ensures
        final(s)@ == old(s)@.push(c),
{
    s.push(c);
}

// ---------------------------------------------------------------------------
// Conversions between `str`/`String` and vectors of characters.
// ---------------------------------------------------------------------------

/// The characters of a string, in order.
pub fn chars_of(s: &str) -> (r: Vec<char>)
    ensures
        r@ == s@,
{
    let mut r: Vec<char> = Vec::new();
    for c in it: s.chars()
        invariant
            r@ == it.seq().take(it.index() as int),
    {
        r.push(c);
    }
    r
}

/// Appends every character of `v` to `out`.
pub fn push_chars(out: &mut String, v: &Vec<char>)
    ensures
        final(out)@ == old(out)@ + v@,
{
    let mut i: usize = 0;
    while i < v.len()
        invariant
            i <= v.len(),
            out@ == old(out)@ + v@.take(i as int),
        decreases v.len() - i,
    {
        push_char(out, v[i]);
        proof {
            assert(v@.take(i + 1) =~= v@.take(i as int).push(v@[i as int]));
        }
        i = i + 1;
    }
    proof {
        assert(v@.take(v.len() as int) =~= v@);
    }
}

/// A string holding exactly the characters of `v`.
pub fn string_of(v: &Vec<char>) -> (r: String)
    ensures
        r@ == v@,
{
    let mut s = String::new();
    push_chars(&mut s, v);
    s
}

/// The characters `s[lo..hi]`.
pub fn slice_chars(s: &Vec<char>, lo: usize, hi: usize) -> (r: Vec<char>)
    requires
        lo <= hi <= s.len(),
    ensures
        r@ == s@.subrange(lo as int, hi as int),
{
    let mut r: Vec<char> = Vec::new();
    let mut i = lo;
    while i < hi
        invariant
            lo <= i <= hi <= s.len(),
            r@ == s@.subrange(lo as int, i as int),
        decreases hi - i,
    {
        r.push(s[i]);
        proof {
            assert(s@.subrange(lo as int, i + 1) =~= s@.subrange(lo as int, i as int).push(s@[i as int]));
        }
        i = i + 1;
    }
    r
}

/// Lowercases a vector of characters through `str::to_lowercase`.
pub fn lowercase_chars(v: &Vec<char>) -> (r: Vec<char>)
    ensures
        r@ == spec_to_lowercase(v@),
{
    let s = string_of(v);
    let l = to_lowercase(s.as_str());
    chars_of(l.as_str())
}

// ---------------------------------------------------------------------------
// Search.
// ---------------------------------------------------------------------------

/// `p` occurs in `s` starting at index `i`.
pub open spec fn matches_at<A>(s: Seq<A>, p: Seq<A>, i: int) -> bool {
    &&& 0 <= i
    &&& i + p.len() <= s.len()
    &&& forall|k: int| 0 <= k < p.len() ==> #[trigger] s[i + k] == p[k]
}

/// `p` is a prefix of `s`.
pub open spec fn starts_with<A>(s: Seq<A>, p: Seq<A>) -> bool {
    matches_at(s, p, 0)
}

/// `p` occurs somewhere in `s`.
pub open spec fn contains_seq<A>(s: Seq<A>, p: Seq<A>) -> bool {
    exists|i: int| matches_at(s, p, i)
}

/// An occurrence inside `s` is an occurrence inside any text around `s`.
pub proof fn lemma_contains_within<A>(a: Seq<A>, s: Seq<A>, b: Seq<A>, t: Seq<A>)
    requires
        contains_seq(s, t),
    ensures
        contains_seq(a + s + b, t),
{
    let i = choose|i: int| matches_at(s, t, i);
    let w = a + s + b;
    assert forall|k: int| 0 <= k < t.len() implies #[trigger] w[(a.len() + i) + k] == t[k] by {
        assert(s[i + k] == t[k]);
    }
    assert(matches_at(w, t, a.len() + i));
}

/// `t` occurs in `a + t + b`.
pub proof fn lemma_contains_middle<A>(a: Seq<A>, t: Seq<A>, b: Seq<A>)
    ensures
        contains_seq(a + t + b, t),
{
    let w = a + t + b;
    assert forall|k: int| 0 <= k < t.len() implies #[trigger] w[a.len() + k] == t[k] by {}
    assert(matches_at(w, t, a.len() as int));
}

/// Occurrence is transitive: a part of a part of `x` is a part of `x`.
pub proof fn lemma_contains_trans<A>(x: Seq<A>, y: Seq<A>, z: Seq<A>)
    requires
        contains_seq(x, y),
        contains_seq(y, z),
    ensures
        contains_seq(x, z),
{
    let i = choose|i: int| matches_at(x, y, i);
    let j = choose|j: int| matches_at(y, z, j);
    assert forall|k: int| 0 <= k < z.len() implies #[trigger] x[(i + j) + k] == z[k] by {
        assert(y[j + k] == z[k]);
        assert(x[i + (j + k)] == y[j + k]);
    }
    assert(matches_at(x, z, i + j));
}

/// A contiguous piece of `x` occurs in `x`.
pub proof fn lemma_contains_subrange<A>(x: Seq<A>, a: int, b: int)
    requires
        0 <= a <= b <= x.len(),
    ensures
        contains_seq(x, x.subrange(a, b)),
{
    assert(x =~= x.take(a) + x.subrange(a, b) + x.skip(b));
    lemma_contains_middle(x.take(a), x.subrange(a, b), x.skip(b));
}

/// The first index `>= i` at which `p` occurs in `s`.
pub open spec fn find_from<A>(s: Seq<A>, p: Seq<A>, i: int) -> Option<int>
    decreases s.len() + 1 - i,
{
    if i < 0 || i + p.len() > s.len() {
        None
    } else if matches_at(s, p, i) {
        Some(i)
    } else {
        find_from(s, p, i + 1)
    }
}

/// The first index at which `p` occurs in `s`.
pub open spec fn find<A>(s: Seq<A>, p: Seq<A>) -> Option<int> {
    find_from(s, p, 0)
}

/// An optional machine index read as an optional integer.
pub open spec fn opt_int(o: Option<usize>) -> Option<int> {
    match o {
        Some(k) => Some(k as int),
        None => None,
    }
}

/// What `find_from` returns: the least matching index not below `i`.
pub proof fn lemma_find_from<A>(s: Seq<A>, p: Seq<A>, i: int)
    requires
        0 <= i,
    ensures
        match find_from(s, p, i) {
            Some(k) => i <= k && matches_at(s, p, k) && forall|j: int|
                i <= j < k ==> !#[trigger] matches_at(s, p, j),
            None => forall|j: int| i <= j ==> !#[trigger] matches_at(s, p, j),
        },
    decreases s.len() + 1 - i,
{
    if i + p.len() > s.len() {
    } else if matches_at(s, p, i) {
    } else {
        lemma_find_from(s, p, i + 1);
    }
}

/// The first occurrence found from any start is the same as the one found from
/// an earlier start, when there is no occurrence in between.
pub proof fn lemma_find_skip<A>(s: Seq<A>, p: Seq<A>, i: int, j: int)
    requires
        0 <= i <= j,
        forall|k: int| i <= k < j ==> !#[trigger] matches_at(s, p, k),
    ensures
        find_from(s, p, i) == find_from(s, p, j),
    decreases j - i,
{
    if i < j {
        lemma_find_skip(s, p, i + 1, j);
    }
}

/// Whether `p` occurs in `s` at `i` (characters).
pub fn matches_at_chars(s: &Vec<char>, p: &Vec<char>, i: usize) -> (r: bool)
    ensures
        r == matches_at(s@, p@, i as int),
{
    if i > s.len() || p.len() > s.len() - i {
        return false;
    }
    let mut k: usize = 0;
    while k < p.len()
        invariant
            i + p.len() <= s.len(),
            k <= p.len(),
            forall|m: int| 0 <= m < k ==> #[trigger] s@[i + m] == p@[m],
        decreases p.len() - k,
    {
        if s[i + k] != p[k] {
            assert(s@[i + k as int] != p@[k as int]);
            return false;
        }
        k = k + 1;
    }
    true
}

/// Whether `p` is a prefix of `s` (characters).
pub fn starts_with_chars(s: &Vec<char>, p: &Vec<char>) -> (r: bool)
    ensures
        r == starts_with(s@, p@),
{
    matches_at_chars(s, p, 0)
}

/// The first index `>= from` at which `p` occurs in `s` (characters).
pub fn find_chars(s: &Vec<char>, p: &Vec<char>, from: usize) -> (r: Option<usize>)
    ensures
        opt_int(r) == find_from(s@, p@, from as int),
{
    let mut i = from;
    while i <= s.len() && p.len() <= s.len() - i
        invariant
            from <= i,
            find_from(s@, p@, from as int) == find_from(s@, p@, i as int),
        decreases s.len() + 1 - i,
    {
        if matches_at_chars(s, p, i) {
            return Some(i);
        }
        i = i + 1;
    }
    None
}

/// Whether `p` occurs in `s` (characters).
pub fn contains_chars(s: &Vec<char>, p: &Vec<char>) -> (r: bool)
    ensures
        r == contains_seq(s@, p@),
{
    let f = find_chars(s, p, 0);
    proof {
        lemma_find_from(s@, p@, 0);
    }
    f.is_some()
}

/// Whether the literal `p` occurs in `s`.
pub fn contains_str(s: &Vec<char>, p: &str) -> (r: bool)
    ensures
        r == contains_seq(s@, p@),
{
    let pv = chars_of(p);
    contains_chars(s, &pv)
}

/// The first index at which byte pattern `p` occurs in `s`.
pub fn find_bytes(s: &[u8], p: &[u8]) -> (r: Option<usize>)
    ensures
        opt_int(r) == find(s@, p@),
{
    let mut i: usize = 0;
    while i <= s.len() && p.len() <= s.len() - i
        invariant
            find_from(s@, p@, 0) == find_from(s@, p@, i as int),
        decreases s.len() + 1 - i,
    {
        let mut k: usize = 0;
        let mut ok = true;
        while k < p.len()
            invariant
                i + p.len() <= s.len(),
                k <= p.len(),
                ok ==> forall|m: int| 0 <= m < k ==> #[trigger] s@[i + m] == p@[m],
                !ok ==> !matches_at(s@, p@, i as int),
            decreases p.len() - k,
        {
            if s[i + k] != p[k] {
                assert(s@[i + k as int] != p@[k as int]);
                ok = false;
            }
            k = k + 1;
        }
        if ok {
            return Some(i);
        }
        i = i + 1;
    }
    None
}

// ---------------------------------------------------------------------------
// Trimming.
// ---------------------------------------------------------------------------

/// `s` with leading whitespace removed.
pub open spec fn trim_start(s: Seq<char>) -> Seq<char>
    decreases s.len(),
{
    if s.len() > 0 && spec_is_whitespace(s[0]) {
        trim_start(s.drop_first())
    } else {
        s
    }
}

/// `s` with trailing whitespace removed.
pub open spec fn trim_end(s: Seq<char>) -> Seq<char>
    decreases s.len(),
{
    if s.len() > 0 && spec_is_whitespace(s.last()) {
        trim_end(s.drop_last())
    } else {
        s
    }
}

/// What trimming leading whitespace leaves occurs in the text.
pub proof fn lemma_trim_start_within(s: Seq<char>)
    ensures
        contains_seq(s, trim_start(s)),
    decreases s.len(),
{
    if s.len() > 0 && spec_is_whitespace(s[0]) {
        lemma_trim_start_within(s.drop_first());
        assert(s =~= s.take(1) + s.drop_first() + Seq::<char>::empty());
        lemma_contains_within(s.take(1), s.drop_first(), Seq::<char>::empty(), trim_start(s));
    } else {
        lemma_contains_subrange(s, 0, s.len() as int);
        assert(s.subrange(0, s.len() as int) =~= s);
    }
}

/// What trimming trailing whitespace leaves occurs in the text.
pub proof fn lemma_trim_end_within(s: Seq<char>)
    ensures
        contains_seq(s, trim_end(s)),
    decreases s.len(),
{
    if s.len() > 0 && spec_is_whitespace(s.last()) {
        lemma_trim_end_within(s.drop_last());
        assert(s =~= Seq::<char>::empty() + s.drop_last() + s.subrange(s.len() - 1, s.len() as int));
        lemma_contains_within(
            Seq::<char>::empty(),
            s.drop_last(),
            s.subrange(s.len() - 1, s.len() as int),
            trim_end(s),
        );
    } else {
        lemma_contains_subrange(s, 0, s.len() as int);
        assert(s.subrange(0, s.len() as int) =~= s);
    }
}

/// `s` with leading and trailing whitespace removed (`str::trim`).
pub open spec fn trim(s: Seq<char>) -> Seq<char> {
    trim_end(trim_start(s))
}

/// `s` with every leading and trailing `c` removed (`str::trim_matches` with a char).
pub open spec fn trim_char(s: Seq<char>, c: char) -> Seq<char> {
    trim_char_end(trim_char_start(s, c), c)
}

pub open spec fn trim_char_start(s: Seq<char>, c: char) -> Seq<char>
    decreases s.len(),
{
    if s.len() > 0 && s[0] == c {
        trim_char_start(s.drop_first(), c)
    } else {
        s
    }
}

pub open spec fn trim_char_end(s: Seq<char>, c: char) -> Seq<char>
    decreases s.len(),
{
    if s.len() > 0 && s.last() == c {
        trim_char_end(s.drop_last(), c)
    } else {
        s
    }
}

/// Leading whitespace removed (characters).
pub fn trim_start_chars(s: &Vec<char>) -> (r: Vec<char>)
    ensures
        r@ == trim_start(s@),
{
    let mut lo: usize = 0;
    assert(s@.subrange(0, s.len() as int) =~= s@);
    while lo < s.len() && is_whitespace(s[lo])
        invariant
            lo <= s.len(),
            trim_start(s@) == trim_start(s@.subrange(lo as int, s.len() as int)),
        decreases s.len() - lo,
    {
        proof {
            assert(s@.subrange(lo as int, s.len() as int).drop_first() =~= s@.subrange(
                lo + 1,
                s.len() as int,
            ));
        }
        lo = lo + 1;
    }
    slice_chars(s, lo, s.len())
}

/// Trailing whitespace removed (characters).
pub fn trim_end_chars(s: &Vec<char>) -> (r: Vec<char>)
    ensures
        r@ == trim_end(s@),
{
    let mut hi: usize = s.len();
    assert(s@.subrange(0, s.len() as int) =~= s@);
    while hi > 0 && is_whitespace(s[hi - 1])
        invariant
            hi <= s.len(),
            trim_end(s@) == trim_end(s@.subrange(0, hi as int)),
        decreases hi,
    {
        proof {
            assert(s@.subrange(0, hi as int).drop_last() =~= s@.subrange(0, hi - 1));
        }
        hi = hi - 1;
    }
    slice_chars(s, 0, hi)
}

/// Leading and trailing whitespace removed (characters).
pub fn trim_chars(s: &Vec<char>) -> (r: Vec<char>)
    ensures
        r@ == trim(s@),
{
    let a = trim_start_chars(s);
    trim_end_chars(&a)
}

/// Leading and trailing `c` removed (characters).
pub fn trim_char_chars(s: &Vec<char>, c: char) -> (r: Vec<char>)
    ensures
        r@ == trim_char(s@, c),
{
    let mut lo: usize = 0;
    assert(s@.subrange(0, s.len() as int) =~= s@);
    while lo < s.len() && s[lo] == c
        invariant
            lo <= s.len(),
            trim_char_start(s@, c) == trim_char_start(s@.subrange(lo as int, s.len() as int), c),
        decreases s.len() - lo,
    {
        proof {
            assert(s@.subrange(lo as int, s.len() as int).drop_first() =~= s@.subrange(
                lo + 1,
                s.len() as int,
            ));
        }
        lo = lo + 1;
    }
    let a = slice_chars(s, lo, s.len());
    let mut hi: usize = a.len();
    assert(a@.subrange(0, a.len() as int) =~= a@);
    while hi > 0 && a[hi - 1] == c
        invariant
            hi <= a.len(),
            trim_char_end(a@, c) == trim_char_end(a@.subrange(0, hi as int), c),
        decreases hi,
    {
        proof {
            assert(a@.subrange(0, hi as int).drop_last() =~= a@.subrange(0, hi - 1));
        }
        hi = hi - 1;
    }
    proof {
        assert(a@.subrange(0, a.len() as int) =~= a@);
    }
    slice_chars(&a, 0, hi)
}

// ---------------------------------------------------------------------------
// ASCII case-insensitive comparison.
// ---------------------------------------------------------------------------

/// The ASCII lowercase of a character (other characters unchanged).
pub open spec fn ascii_lower(c: char) -> char {
    if 'A' <= c <= 'Z' {
        ((c as u32) + 32) as char
    } else {
        c
    }
}

/// `str::eq_ignore_ascii_case`.
pub open spec fn eq_ignore_ascii_case(a: Seq<char>, b: Seq<char>) -> bool {
    &&& a.len() == b.len()
    &&& forall|i: int| 0 <= i < a.len() ==> #[trigger] ascii_lower(a[i]) == ascii_lower(b[i])
}

/// The ASCII lowercase of a character (`char::to_ascii_lowercase`).
pub fn ascii_lower_char(c: char) -> (r: char)
    ensures
        r == ascii_lower(c),
{
    if 'A' <= c && c <= 'Z' {
        let b: u8 = (c as u8) + 32;
        b as char
    } else {
        c
    }
}

/// Whether `a` equals `b` ignoring ASCII case (characters).
pub fn eq_ignore_ascii_case_chars(a: &Vec<char>, b: &Vec<char>) -> (r: bool)
    ensures
        r == eq_ignore_ascii_case(a@, b@),
{
    if a.len() != b.len() {
        return false;
    }
    let mut i: usize = 0;
    while i < a.len()
        invariant
            a.len() == b.len(),
            i <= a.len(),
            forall|k: int| 0 <= k < i ==> #[trigger] ascii_lower(a@[k]) == ascii_lower(b@[k]),
        decreases a.len() - i,
    {
        if ascii_lower_char(a[i]) != ascii_lower_char(b[i]) {
            return false;
        }
        i = i + 1;
    }
    true
}

/// Whether `a` equals the literal `b` ignoring ASCII case.
pub fn eq_ignore_ascii_case_str(a: &Vec<char>, b: &str) -> (r: bool)
    ensures
        r == eq_ignore_ascii_case(a@, b@),
{
    let bv = chars_of(b);
    eq_ignore_ascii_case_chars(a, &bv)
}

// ---------------------------------------------------------------------------
// Lines (`str::lines`) and whitespace-separated tokens (`str::split_whitespace`).
// ---------------------------------------------------------------------------

/// The views of a vector of character vectors.
pub open spec fn views(v: Seq<Vec<char>>) -> Seq<Seq<char>> {
    v.map_values(|x: Vec<char>| x@)
}

/// Number of characters before the first `'\n'` (all of `s` when there is none).
pub open spec fn line_len(s: Seq<char>) -> nat
    decreases s.len(),
{
    if s.len() == 0 || s[0] == '\n' {
        0
    } else {
        1 + line_len(s.drop_first())
    }
}

pub proof fn lemma_line_len(s: Seq<char>)
    ensures
        line_len(s) <= s.len(),
        line_len(s) < s.len() ==> s[line_len(s) as int] == '\n',
        forall|k: int| 0 <= k < line_len(s) ==> #[trigger] s[k] != '\n',
    decreases s.len(),
{
    if s.len() > 0 && s[0] != '\n' {
        lemma_line_len(s.drop_first());
        assert forall|k: int| 0 <= k < line_len(s) implies #[trigger] s[k] != '\n' by {
            if k > 0 {
                assert(s.drop_first()[k - 1] == s[k]);
            }
        }
    }
}

/// A line without its terminating `'\r'` (only removed before a `'\n'`).
pub open spec fn strip_cr(l: Seq<char>) -> Seq<char> {
    if l.len() > 0 && l.last() == '\r' {
        l.drop_last()
    } else {
        l
    }
}

/// The lines of `s` as `str::lines` yields them: split at `'\n'`, a `'\r'` just
/// before a `'\n'` removed, and no empty line after a final `'\n'`.
pub open spec fn lines(s: Seq<char>) -> Seq<Seq<char>>
    decreases s.len(),
{
    if s.len() == 0 {
        Seq::empty()
    } else {
        let n = line_len(s);
        proof {
            lemma_line_len(s);
        }
        if n < s.len() {
            seq![strip_cr(s.take(n as int))] + lines(s.skip((n + 1) as int))
        } else {
            seq![s]
        }
    }
}

/// Every line of a text occurs in the text.
pub proof fn lemma_lines_within(s: Seq<char>, i: int)
    requires
        0 <= i < lines(s).len(),
    ensures
        contains_seq(s, lines(s)[i]),
    decreases s.len(),
{
    let n = line_len(s);
    lemma_line_len(s);
    if n < s.len() {
        let rest = s.skip((n + 1) as int);
        assert(lines(s) == seq![strip_cr(s.take(n as int))] + lines(rest));
        if i == 0 {
            let l = s.take(n as int);
            assert(contains_seq(s, l)) by {
                lemma_contains_subrange(s, 0, n as int);
                assert(s.subrange(0, n as int) =~= l);
            }
            assert(contains_seq(l, strip_cr(l))) by {
                if l.len() > 0 && l.last() == '\r' {
                    lemma_contains_subrange(l, 0, l.len() - 1);
                    assert(l.subrange(0, l.len() - 1) =~= l.drop_last());
                } else {
                    lemma_contains_subrange(l, 0, l.len() as int);
                    assert(l.subrange(0, l.len() as int) =~= l);
                }
            }
            lemma_contains_trans(s, l, strip_cr(l));
        } else {
            lemma_lines_within(rest, i - 1);
            assert(lines(s)[i] == lines(rest)[i - 1]);
            assert(contains_seq(s, rest)) by {
                lemma_contains_subrange(s, (n + 1) as int, s.len() as int);
                assert(s.subrange((n + 1) as int, s.len() as int) =~= rest);
            }
            lemma_contains_trans(s, rest, lines(rest)[i - 1]);
        }
    } else {
        assert(lines(s) == seq![s]);
        lemma_contains_subrange(s, 0, s.len() as int);
        assert(s.subrange(0, s.len() as int) =~= s);
    }
}

/// The first line of `s`, or the empty sequence when `s` has none.
pub open spec fn first_line(s: Seq<char>) -> Seq<char> {
    if lines(s).len() > 0 {
        lines(s)[0]
    } else {
        Seq::empty()
    }
}

/// Number of leading characters that are not whitespace.
pub open spec fn word_len(s: Seq<char>) -> nat
    decreases s.len(),
{
    if s.len() == 0 || spec_is_whitespace(s[0]) {
        0
    } else {
        1 + word_len(s.drop_first())
    }
}

pub proof fn lemma_word_len(s: Seq<char>)
    ensures
        word_len(s) <= s.len(),
        s.len() > 0 && !spec_is_whitespace(s[0]) ==> word_len(s) >= 1,
    decreases s.len(),
{
    if s.len() > 0 && !spec_is_whitespace(s[0]) {
        lemma_word_len(s.drop_first());
    }
}

/// The whitespace-separated tokens of `s` (`str::split_whitespace`).
pub open spec fn tokens(s: Seq<char>) -> Seq<Seq<char>>
    decreases s.len(),
{
    if s.len() == 0 {
        Seq::empty()
    } else if spec_is_whitespace(s[0]) {
        tokens(s.drop_first())
    } else {
        let n = word_len(s);
        proof {
            lemma_word_len(s);
        }
        seq![s.take(n as int)] + tokens(s.skip(n as int))
    }
}

/// Token `i` of `s`, or `default` when there are fewer tokens.
pub open spec fn token_or(s: Seq<char>, i: int, default: Seq<char>) -> Seq<char> {
    if 0 <= i < tokens(s).len() {
        tokens(s)[i]
    } else {
        default
    }
}

/// Splits `s` into lines as `str::lines` does.
pub fn split_lines(s: &Vec<char>) -> (r: Vec<Vec<char>>)
    ensures
        views(r@) == lines(s@),
{
    let mut out: Vec<Vec<char>> = Vec::new();
    let mut pos: usize = 0;
    proof {
        assert(s@.skip(0) =~= s@);
    }
    while pos < s.len()
        invariant
            pos <= s.len(),
            views(out@) + lines(s@.skip(pos as int)) == lines(s@),
        decreases s.len() - pos,
    {
        let ghost rest = s@.skip(pos as int);
        let mut e = pos;
        while e < s.len() && s[e] != '\n'
            invariant
                pos <= e <= s.len(),
                rest == s@.skip(pos as int),
                line_len(rest) == (e - pos) + line_len(s@.skip(e as int)),
            decreases s.len() - e,
        {
            proof {
                assert(s@.skip(e as int).drop_first() =~= s@.skip(e + 1));
            }
            e = e + 1;
        }
        proof {
            lemma_line_len(rest);
            assert(line_len(s@.skip(e as int)) == 0);
        }
        let ghost old_out = views(out@);
        if e < s.len() {
            let mut hi = e;
            if hi > pos && s[hi - 1] == '\r' {
                hi = hi - 1;
            }
            let line = slice_chars(s, pos, hi);
            proof {
                assert(rest.take((e - pos) as int) =~= s@.subrange(pos as int, e as int));
                assert(strip_cr(rest.take((e - pos) as int)) =~= line@);
                assert(rest.skip((e - pos) + 1) =~= s@.skip(e + 1));
            }
            out.push(line);
            proof {
                assert(views(out@) =~= old_out.push(line@));
                assert(lines(rest) == seq![line@] + lines(s@.skip(e + 1)));
                assert(views(out@) + lines(s@.skip(e + 1)) =~= old_out + lines(rest));
            }
            pos = e + 1;
        } else {
            let line = slice_chars(s, pos, e);
            proof {
                assert(line@ =~= rest);
            }
            out.push(line);
            proof {
                assert(views(out@) =~= old_out.push(line@));
                assert(lines(rest) == seq![rest]);
                assert(s@.skip(s.len() as int) =~= Seq::<char>::empty());
                assert(views(out@) + lines(s@.skip(s.len() as int)) =~= old_out + lines(rest));
            }
            pos = e;
        }
    }
    proof {
        assert(s@.skip(pos as int) =~= Seq::<char>::empty());
        assert(views(out@) + Seq::<Seq<char>>::empty() =~= views(out@));
    }
    out
}

/// Splits `s` into whitespace-separated tokens as `str::split_whitespace` does.
pub fn split_whitespace(s: &Vec<char>) -> (r: Vec<Vec<char>>)
    ensures
        views(r@) == tokens(s@),
{
    let mut out: Vec<Vec<char>> = Vec::new();
    let mut pos: usize = 0;
    proof {
        assert(s@.skip(0) =~= s@);
    }
    while pos < s.len()
        invariant
            pos <= s.len(),
            views(out@) + tokens(s@.skip(pos as int)) == tokens(s@),
        decreases s.len() - pos,
    {
        let ghost rest = s@.skip(pos as int);
        if is_whitespace(s[pos]) {
            proof {
                assert(rest.drop_first() =~= s@.skip(pos + 1));
            }
            pos = pos + 1;
        } else {
            let mut e = pos;
            while e < s.len() && !is_whitespace(s[e])
                invariant
                    pos <= e <= s.len(),
                    rest == s@.skip(pos as int),
                    word_len(rest) == (e - pos) + word_len(s@.skip(e as int)),
                decreases s.len() - e,
            {
                proof {
                    assert(s@.skip(e as int).drop_first() =~= s@.skip(e + 1));
                }
                e = e + 1;
            }
            let word = slice_chars(s, pos, e);
            let ghost old_out = views(out@);
            proof {
                assert(word_len(s@.skip(e as int)) == 0);
                assert(rest.take((e - pos) as int) =~= word@);
                assert(rest.skip((e - pos) as int) =~= s@.skip(e as int));
            }
            out.push(word);
            proof {
                assert(views(out@) =~= old_out.push(word@));
                assert(views(out@) + tokens(s@.skip(e as int)) =~= old_out + tokens(rest));
            }
            pos = e;
        }
    }
    proof {
        assert(s@.skip(pos as int) =~= Seq::<char>::empty());
        assert(views(out@) + Seq::<Seq<char>>::empty() =~= views(out@));
    }
    out
}

/// Token `i` of a token list, or a copy of `default` when there are fewer.
pub fn nth_or(toks: &Vec<Vec<char>>, i: usize, default: &str) -> (r: Vec<char>)
    ensures
        r@ == (if i < toks@.len() { toks@[i as int]@ } else { default@ }),
{
    if i < toks.len() {
        slice_chars(&toks[i], 0, toks[i].len())
    } else {
        chars_of(default)
    }
}

// ---------------------------------------------------------------------------
// Decimal numbers.
// ---------------------------------------------------------------------------

/// The ASCII digit for `d` (`d < 10`).
pub open spec fn digit_char(d: nat) -> char {
    (d + 48) as char
}

/// `n` written in decimal, without leading zeros (`format!("{}", n)`).
pub open spec fn decimal(n: nat) -> Seq<char>
    decreases n,
{
    if n < 10 {
        seq![digit_char(n)]
    } else {
        decimal(n / 10).push(digit_char(n % 10))
    }
}

/// `n` written in decimal with at least two digits (`format!("{:02}", n)`).
pub open spec fn pad2(n: nat) -> Seq<char> {
    if n < 10 {
        seq!['0'] + decimal(n)
    } else {
        decimal(n)
    }
}

/// A signed integer written in decimal (`format!("{}", n)`).
pub open spec fn int_decimal(n: int) -> Seq<char> {
    if n < 0 {
        seq!['-'] + decimal((-n) as nat)
    } else {
        decimal(n as nat)
    }
}

/// Appends `n` in decimal.
pub fn push_decimal(out: &mut String, n: u64)
    ensures
        final(out)@ == old(out)@ + decimal(n as nat),
    decreases n,
{
    if n >= 10 {
        push_decimal(out, n / 10);
    }
    let d: u8 = (n % 10) as u8;
    let c: char = (48u8 + d) as char;
    push_char(out, c);
    proof {
        if n >= 10 {
            assert(decimal(n as nat) == decimal((n / 10) as nat).push(digit_char((n % 10) as nat)));
        }
    }
}

/// Appends `n` in decimal with at least two digits.
pub fn push_pad2(out: &mut String, n: u64)
    ensures
        final(out)@ == old(out)@ + pad2(n as nat),
{
    if n < 10 {
        push_char(out, '0');
    }
    push_decimal(out, n);
}

/// Appends a signed integer in decimal.
pub fn push_int(out: &mut String, n: i64)
    ensures
        final(out)@ == old(out)@ + int_decimal(n as int),
{
    if n < 0 {
        push_char(out, '-');
        let m: i128 = -(n as i128);
        push_decimal(out, m as u64);
    } else {
        push_decimal(out, n as u64);
    }
}

/// `n` in decimal as a new string.
pub fn decimal_string(n: u64) -> (r: String)
    ensures
        r@ == decimal(n as nat),
{
    let mut s = String::new();
    push_decimal(&mut s, n);
    s
}

/// An ASCII decimal digit.
pub open spec fn is_digit(c: char) -> bool {
    '0' <= c <= '9'
}

/// The value of a sequence of decimal digits.
pub open spec fn digits_value(s: Seq<char>) -> nat
    decreases s.len(),
{
    if s.len() == 0 {
        0
    } else {
        digits_value(s.drop_last()) * 10 + ((s.last() as int - 48) as nat)
    }
}

/// Every character is an ASCII decimal digit.
pub open spec fn all_digits(d: Seq<char>) -> bool {
    forall|i: int| 0 <= i < d.len() ==> #[trigger] is_digit(d[i])
}

/// The digits part of an unsigned number: `s` without one leading `+`.
pub open spec fn unsigned_digits(s: Seq<char>) -> Seq<char> {
    if s.len() > 0 && s[0] == '+' {
        s.drop_first()
    } else {
        s
    }
}

/// What `str::parse` gives for an unsigned integer type whose largest value is
/// `max`: an optional `+`, then one or more ASCII digits whose value fits.
pub open spec fn parse_unsigned(s: Seq<char>, max: nat) -> Option<nat> {
    let d = unsigned_digits(s);
    if d.len() > 0 && all_digits(d) && digits_value(d) <= max {
        Some(digits_value(d))
    } else {
        None
    }
}

proof fn lemma_digits_value_monotone(s: Seq<char>, i: int)
    requires
        0 <= i <= s.len(),
        all_digits(s),
    ensures
        digits_value(s.take(i)) <= digits_value(s),
    decreases s.len() - i,
{
    if i < s.len() {
        lemma_digits_value_monotone(s, i + 1);
        assert(s.take(i + 1).drop_last() =~= s.take(i));
    } else {
        assert(s.take(i) =~= s);
    }
}

/// Parses an unsigned decimal number not above `max`, as `str::parse` does.
pub fn parse_unsigned_chars(s: &Vec<char>, max: u64) -> (r: Option<u64>)
    ensures
        match r {
            Some(v) => parse_unsigned(s@, max as nat) == Some(v as nat),
            None => parse_unsigned(s@, max as nat) is None,
        },
{
    let start: usize = if s.len() > 0 && s[0] == '+' { 1 } else { 0 };
    let ghost d = unsigned_digits(s@);
    proof {
        assert(d =~= s@.skip(start as int));
    }
    if start >= s.len() {
        return None;
    }
    let mut i = start;
    while i < s.len()
        invariant
            start <= i <= s.len(),
            d =~= s@.skip(start as int),
            d == unsigned_digits(s@),
            forall|k: int| start <= k < i ==> #[trigger] is_digit(s@[k]),
        decreases s.len() - i,
    {
        if !(s[i] >= '0' && s[i] <= '9') {
            assert(d[i - start] == s@[i as int]);
            assert(!is_digit(d[i - start]));
            assert(!all_digits(d));
            return None;
        }
        i = i + 1;
    }
    assert(all_digits(d)) by {
        assert forall|k: int| 0 <= k < d.len() implies #[trigger] is_digit(d[k]) by {
            assert(d[k] == s@[start + k]);
        }
    }
    let mut v: u64 = 0;
    let mut j = start;
    while j < s.len()
        invariant
            start <= j <= s.len(),
            d =~= s@.skip(start as int),
            d == unsigned_digits(s@),
            all_digits(d),
            v as nat == digits_value(d.take(j - start)),
            v <= max,
        decreases s.len() - j,
    {
        proof {
            assert(d[j - start] == s@[j as int]);
            assert(is_digit(d[j - start]));
        }
        let dg: u64 = ((s[j] as u32) - 48) as u64;
        proof {
            assert(d.take(j - start + 1).drop_last() =~= d.take(j - start));
            assert(d.take(j - start + 1).last() == s@[j as int]);
        }
        if dg > max || v > (max - dg) / 10 {
            proof {
                if dg <= max {
                    assert(v * 10 + dg > max) by (nonlinear_arith)
                        requires
                            v > (max - dg) / 10,
                            dg <= max,
                    ;
                }
                lemma_digits_value_monotone(d, j - start + 1);
                assert(digits_value(d.take(j - start + 1)) == digits_value(d.take(j - start)) * 10
                    + ((s@[j as int] as int - 48) as nat));
                assert(digits_value(d) > max);
                assert(parse_unsigned(s@, max as nat) is None);
            }
            return None;
        }
        proof {
            assert(v * 10 + dg <= max) by (nonlinear_arith)
                requires
                    v <= (max - dg) / 10,
                    dg <= max,
            ;
        }
        v = v * 10 + dg;
        j = j + 1;
    }
    proof {
        assert(d.take(d.len() as int) =~= d);
    }
    Some(v)
}

/// A decimal rendering parses back to the number it renders.
pub proof fn lemma_decimal_parses(n: nat, max: nat)
    requires
        n <= max,
    ensures
        parse_unsigned(decimal(n), max) == Some(n),
{
    lemma_decimal_shape(n);
}

pub proof fn lemma_decimal_shape(n: nat)
    ensures
        decimal(n).len() > 0,
        decimal(n)[0] != '+',
        all_digits(decimal(n)),
        digits_value(decimal(n)) == n,
    decreases n,
{
    if n < 10 {
        assert(digit_char(n) as int == n + 48);
        assert(decimal(n).drop_last() =~= Seq::<char>::empty());
        assert(digits_value(decimal(n)) == digits_value(decimal(n).drop_last()) * 10 + ((
        decimal(n).last() as int - 48) as nat));
    }
    if n >= 10 {
        lemma_decimal_shape(n / 10);
        let s = decimal(n / 10).push(digit_char(n % 10));
        assert(s.drop_last() =~= decimal(n / 10));
        assert(digit_char(n % 10) as int == n % 10 + 48);
        assert((n / 10) * 10 + n % 10 == n);
        assert(s.last() == digit_char(n % 10));
        assert(digits_value(s) == digits_value(s.drop_last()) * 10 + ((s.last() as int - 48) as nat));
        assert(digits_value(s) == (n / 10) * 10 + n % 10);
        assert forall|i: int| 0 <= i < s.len() implies #[trigger] is_digit(s[i]) by {
            if i < s.len() - 1 {
                assert(s[i] == decimal(n / 10)[i]);
            }
        }
    }
}

// ---------------------------------------------------------------------------
// Replacement (`str::replace` with a non-empty pattern).
// ---------------------------------------------------------------------------

/// `s` with every non-overlapping occurrence of `p`, scanned left to right,
/// replaced by `r`.
pub open spec fn replace_all(s: Seq<char>, p: Seq<char>, r: Seq<char>) -> Seq<char>
    decreases s.len(),
{
    if s.len() == 0 {
        Seq::empty()
    } else if p.len() > 0 && starts_with(s, p) {
        r + replace_all(s.skip(p.len() as int), p, r)
    } else {
        seq![s[0]] + replace_all(s.drop_first(), p, r)
    }
}

/// Replaces every occurrence of the literal `p` by `r`.
pub fn replace_chars(s: &Vec<char>, p: &str, r: &str) -> (out: Vec<char>)
    requires
        p@.len() > 0,
    ensures
        out@ == replace_all(s@, p@, r@),
{
    let pv = chars_of(p);
    let rv = chars_of(r);
    let mut out: Vec<char> = Vec::new();
    let mut pos: usize = 0;
    proof {
        assert(s@.skip(0) =~= s@);
    }
    while pos < s.len()
        invariant
            pos <= s.len(),
            pv@ == p@,
            rv@ == r@,
            pv@.len() > 0,
            out@ + replace_all(s@.skip(pos as int), p@, r@) == replace_all(s@, p@, r@),
        decreases s.len() - pos,
    {
        let ghost rest = s@.skip(pos as int);
        let ghost old_out = out@;
        if matches_at_chars(s, &pv, pos) {
            proof {
                assert forall|k: int| 0 <= k < p@.len() implies #[trigger] rest[0 + k] == p@[k] by {
                    assert(rest[k] == s@[pos + k]);
                }
                assert(rest.skip(p@.len() as int) =~= s@.skip(pos + pv.len()));
            }
            let mut k: usize = 0;
            while k < rv.len()
                invariant
                    k <= rv.len(),
                    out@ == old_out + rv@.take(k as int),
                decreases rv.len() - k,
            {
                out.push(rv[k]);
                proof {
                    assert(rv@.take(k + 1) =~= rv@.take(k as int).push(rv@[k as int]));
                }
                k = k + 1;
            }
            proof {
                assert(rv@.take(rv.len() as int) =~= rv@);
                assert(out@ + replace_all(s@.skip(pos + pv.len()), p@, r@) =~= old_out
                    + replace_all(rest, p@, r@));
            }
            pos = pos + pv.len();
        } else {
            proof {
                assert(!starts_with(rest, p@)) by {
                    if starts_with(rest, p@) {
                        assert forall|k: int| 0 <= k < p@.len() implies #[trigger] s@[pos + k]
                            == p@[k] by {
                            assert(rest[0 + k] == s@[pos + k]);
                        }
                    }
                }
                assert(rest.drop_first() =~= s@.skip(pos + 1));
            }
            out.push(s[pos]);
            proof {
                assert(out@ + replace_all(s@.skip(pos + 1), p@, r@) =~= old_out + replace_all(
                    rest,
                    p@,
                    r@,
                ));
            }
            pos = pos + 1;
        }
    }
    proof {
        assert(s@.skip(pos as int) =~= Seq::<char>::empty());
        assert(out@ + Seq::<char>::empty() =~= out@);
    }
    out
}

// ---------------------------------------------------------------------------
// Equality.
// ---------------------------------------------------------------------------

/// Whether two character vectors hold the same characters.
pub fn eq_chars(a: &Vec<char>, b: &Vec<char>) -> (r: bool)
    ensures
        r == (a@ == b@),
{
    if a.len() != b.len() {
        return false;
    }
    let mut i: usize = 0;
    while i < a.len()
        invariant
            a.len() == b.len(),
            i <= a.len(),
            forall|k: int| 0 <= k < i ==> a@[k] == b@[k],
        decreases a.len() - i,
    {
        if a[i] != b[i] {
            return false;
        }
        i = i + 1;
    }
    assert(a@ =~= b@);
    true
}

/// Whether a character vector holds exactly the characters of `s`.
pub fn eq_str(a: &Vec<char>, s: &str) -> (r: bool)
    ensures
        r == (a@ == s@),
{
    let b = chars_of(s);
    eq_chars(a, &b)
}

/// Whether `p` (a literal) is a prefix of `s`.
pub fn starts_with_str(s: &Vec<char>, p: &str) -> (r: bool)
    ensures
        r == starts_with(s@, p@),
{
    let pv = chars_of(p);
    starts_with_chars(s, &pv)
}

/// The first index at which the literal `p` occurs in `s` from `from` on.
pub fn find_str(s: &Vec<char>, p: &str, from: usize) -> (r: Option<usize>)
    ensures
        opt_int(r) == find_from(s@, p@, from as int),
{
    let pv = chars_of(p);
    find_chars(s, &pv, from)
}

/// `s` with the first `n` characters removed (all of them when `n` is larger).
pub fn skip_chars(s: &Vec<char>, n: usize) -> (r: Vec<char>)
    ensures
        r@ == (if n <= s@.len() { s@.skip(n as int) } else { Seq::empty() }),
{
    if n <= s.len() {
        slice_chars(s, n, s.len())
    } else {
        Vec::new()
    }
}

} // verus!
