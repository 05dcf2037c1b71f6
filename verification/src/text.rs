//! Character-level text handling shared by the whole library: whitespace
//! trimming, UTF-8 byte budgets, substring search and replacement, and
//! decimal parsing, each specified over `Seq<char>`.
use vstd::prelude::*;
use vstd::utf8::*;

verus! {

// ---------------------------------------------------------------------------
// Trusted std calls
// ---------------------------------------------------------------------------

/// Name for what `str::to_lowercase` returns: the Unicode lowercase mapping of
/// the whole string. It depends on the characters alone.
pub uninterp spec fn lowercase_spec(s: Seq<char>) -> Seq<char>;

/// Calls `str::to_lowercase`. Claimed: the result's characters are
/// `lowercase_spec` of the argument's characters (the mapping is named, not
/// written out: it follows the Unicode tables).
#[verifier::external_body]
pub fn to_lowercase(s: &str) -> (r: String)
    ensures
        r@ == lowercase_spec(s@),
{
    s.to_lowercase()
}

/// Calls `String::push`. Claimed: the character is appended at the end.
#[verifier::external_body]
pub fn push_char(s: &mut String, c: char)
    ensures
        final(s)@ == old(s)@.push(c),
{
    s.push(c)
}

// ---------------------------------------------------------------------------
// Conversions between strings and character vectors
// ---------------------------------------------------------------------------

/// The characters of `s`, in order.
pub fn chars_of(s: &str) -> (v: Vec<char>)
    ensures
        v@ == s@,
{
    broadcast use vstd::string::group_string_axioms;

    let mut v: Vec<char> = Vec::new();
    for c in it: s.chars()
        invariant
            v@ == it.seq().take(it.index() as int),
    {
        v.push(c);
    }
    v
}

/// A `String` holding `v[lo..hi]`.
pub fn string_from_range(v: &Vec<char>, lo: usize, hi: usize) -> (r: String)
    requires
        lo <= hi <= v.len(),
    ensures
        r@ == v@.subrange(lo as int, hi as int),
{
    let mut r = String::new();
    let mut i = lo;
    while i < hi
        invariant
            lo <= i <= hi <= v.len(),
            r@ == v@.subrange(lo as int, i as int),
        decreases hi - i,
    {
        push_char(&mut r, v[i]);
        assert(v@.subrange(lo as int, i + 1) =~= v@.subrange(lo as int, i as int).push(v@[i as int]));
        i += 1;
    }
    r
}

/// A `String` holding all of `v`.
pub fn string_from_chars(v: &Vec<char>) -> (r: String)
    ensures
        r@ == v@,
{
    let r = string_from_range(v, 0, v.len());
    assert(v@.subrange(0, v.len() as int) =~= v@);
    r
}

/// A vector holding `v[lo..hi]`.
pub fn sub_chars(v: &Vec<char>, lo: usize, hi: usize) -> (r: Vec<char>)
    requires
        lo <= hi <= v.len(),
    ensures
        r@ == v@.subrange(lo as int, hi as int),
{
    let mut r: Vec<char> = Vec::new();
    let mut i = lo;
    while i < hi
        invariant
            lo <= i <= hi <= v.len(),
            r@ == v@.subrange(lo as int, i as int),
        decreases hi - i,
    {
        r.push(v[i]);
        assert(v@.subrange(lo as int, i + 1) =~= v@.subrange(lo as int, i as int).push(v@[i as int]));
        i += 1;
    }
    r
}

/// Whether two character vectors are equal.
pub fn chars_equal(a: &Vec<char>, b: &Vec<char>) -> (r: bool)
    ensures
        r == (a@ == b@),
{
    if a.len() != b.len() {
        return false;
    }
    let mut i: usize = 0;
    while i < a.len()
        invariant
            a.len() == b.len(),
            i <= a.len(),
            forall|j: int| 0 <= j < i ==> a@[j] == b@[j],
        decreases a.len() - i,
    {
        if a[i] != b[i] {
            return false;
        }
        i += 1;
    }
    assert(a@ =~= b@);
    true
}

/// Whether two strings hold the same characters.
pub fn same_text(a: &str, b: &str) -> (r: bool)
    ensures
        r == (a@ == b@),
{
    let va = chars_of(a);
    let vb = chars_of(b);
    chars_equal(&va, &vb)
}

// ---------------------------------------------------------------------------
// Whitespace and trimming
// ---------------------------------------------------------------------------

/// The Unicode `White_Space` property, which `char::is_whitespace` and
/// `str::trim` use.
pub open spec fn is_unicode_whitespace(c: char) -> bool {
    let u = c as u32;
    ||| 0x09 <= u <= 0x0D
    ||| u == 0x20
    ||| u == 0x85
    ||| u == 0xA0
    ||| u == 0x1680
    ||| 0x2000 <= u <= 0x200A
    ||| u == 0x2028
    ||| u == 0x2029
    ||| u == 0x202F
    ||| u == 0x205F
    ||| u == 0x3000
}

/// Whether `c` is Unicode whitespace.
pub fn is_whitespace(c: char) -> (r: bool)
    ensures
        r == is_unicode_whitespace(c),
{
    let u = c as u32;
    (0x09 <= u && u <= 0x0D) || u == 0x20 || u == 0x85 || u == 0xA0 || u == 0x1680 || (0x2000
        <= u && u <= 0x200A) || u == 0x2028 || u == 0x2029 || u == 0x202F || u == 0x205F || u
        == 0x3000
}

/// The whitespace predicate as a spec closure.
pub open spec fn whitespace_pred() -> spec_fn(char) -> bool {
    |c: char| is_unicode_whitespace(c)
}

/// The predicate "is the character `ch`" as a spec closure.
pub open spec fn char_pred(ch: char) -> spec_fn(char) -> bool {
    |c: char| c == ch
}

/// `s` without its longest prefix of characters satisfying `p`.
pub open spec fn skip_leading(s: Seq<char>, p: spec_fn(char) -> bool) -> Seq<char>
    decreases s.len(),
{
    if s.len() > 0 && p(s[0]) {
        skip_leading(s.drop_first(), p)
    } else {
        s
    }
}

/// `s` without its longest suffix of characters satisfying `p`.
pub open spec fn skip_trailing(s: Seq<char>, p: spec_fn(char) -> bool) -> Seq<char>
    decreases s.len(),
{
    if s.len() > 0 && p(s.last()) {
        skip_trailing(s.drop_last(), p)
    } else {
        s
    }
}

/// `str::trim`: leading and trailing Unicode whitespace removed.
pub open spec fn trim_spec(s: Seq<char>) -> Seq<char> {
    skip_trailing(skip_leading(s, whitespace_pred()), whitespace_pred())
}

/// Skipping a run of `i` leading characters that satisfy `p`, followed by one
/// that does not (or the end), leaves `s[i..]`.
pub proof fn lemma_skip_leading_at(s: Seq<char>, p: spec_fn(char) -> bool, i: int)
    requires
        0 <= i <= s.len(),
        forall|j: int| 0 <= j < i ==> p(#[trigger] s[j]),
        i < s.len() ==> !p(s[i]),
    ensures
        skip_leading(s, p) == s.subrange(i, s.len() as int),
    decreases i,
{
    if i == 0 {
        assert(s.subrange(0, s.len() as int) =~= s);
    } else {
        assert(p(s[0]));
        let t = s.drop_first();
        assert forall|j: int| 0 <= j < i - 1 implies p(#[trigger] t[j]) by {
            assert(t[j] == s[j + 1]);
        }
        lemma_skip_leading_at(t, p, i - 1);
        assert(t.subrange(i - 1, t.len() as int) =~= s.subrange(i, s.len() as int));
    }
}

/// Skipping a run of trailing characters that satisfy `p` from position `k`
/// on, preceded by one that does not (or the start), leaves `s[..k]`.
pub proof fn lemma_skip_trailing_at(s: Seq<char>, p: spec_fn(char) -> bool, k: int)
    requires
        0 <= k <= s.len(),
        forall|j: int| k <= j < s.len() ==> p(#[trigger] s[j]),
        k > 0 ==> !p(s[k - 1]),
    ensures
        skip_trailing(s, p) == s.subrange(0, k),
    decreases s.len() - k,
{
    if k == s.len() {
        assert(s.subrange(0, s.len() as int) =~= s);
    } else {
        assert(p(s.last()));
        let t = s.drop_last();
        assert forall|j: int| k <= j < t.len() implies p(#[trigger] t[j]) by {
            assert(t[j] == s[j]);
        }
        lemma_skip_trailing_at(t, p, k);
        assert(t.subrange(0, k) =~= s.subrange(0, k));
    }
}

/// The bounds `(lo, hi)` such that `v[lo..hi]` is `v` trimmed of whitespace.
pub fn trim_bounds(v: &Vec<char>) -> (r: (usize, usize))
    ensures
        r.0 <= r.1 <= v.len(),
        trim_spec(v@) == v@.subrange(r.0 as int, r.1 as int),
{
    let mut lo: usize = 0;
    while lo < v.len() && is_whitespace(v[lo])
        invariant
            lo <= v.len(),
            forall|j: int| 0 <= j < lo ==> is_unicode_whitespace(#[trigger] v@[j]),
        decreases v.len() - lo,
    {
        lo += 1;
    }
    let mut hi: usize = v.len();
    while hi > lo && is_whitespace(v[hi - 1])
        invariant
            lo <= hi <= v.len(),
            forall|j: int| hi <= j < v.len() ==> is_unicode_whitespace(#[trigger] v@[j]),
            lo < v.len() ==> !is_unicode_whitespace(v@[lo as int]),
        decreases hi,
    {
        hi -= 1;
    }
    proof {
        let p = whitespace_pred();
        assert forall|j: int| 0 <= j < lo implies p(#[trigger] v@[j]) by {}
        lemma_skip_leading_at(v@, p, lo as int);
        let t = v@.subrange(lo as int, v.len() as int);
        assert forall|j: int| hi - lo <= j < t.len() implies p(#[trigger] t[j]) by {
            assert(t[j] == v@[lo + j]);
        }
        if hi - lo > 0 {
            assert(t[hi - lo - 1] == v@[hi - 1]);
        }
        lemma_skip_trailing_at(t, p, hi - lo);
        assert(t.subrange(0, hi - lo) =~= v@.subrange(lo as int, hi as int));
    }
    (lo, hi)
}

/// `s` trimmed of leading and trailing whitespace, as characters.
pub fn trim_chars(s: &str) -> (r: Vec<char>)
    ensures
        r@ == trim_spec(s@),
{
    let v = chars_of(s);
    let (lo, hi) = trim_bounds(&v);
    sub_chars(&v, lo, hi)
}

/// `str::trim`, returned as an owned string.
pub fn trim_string(s: &str) -> (r: String)
    ensures
        r@ == trim_spec(s@),
{
    let v = chars_of(s);
    let (lo, hi) = trim_bounds(&v);
    string_from_range(&v, lo, hi)
}

/// The number of leading characters of `v` equal to `ch`.
pub fn leading_run(v: &Vec<char>, ch: char) -> (n: usize)
    ensures
        n <= v.len(),
        skip_leading(v@, char_pred(ch)) == v@.subrange(n as int, v.len() as int),
{
    let mut n: usize = 0;
    while n < v.len() && v[n] == ch
        invariant
            n <= v.len(),
            forall|j: int| 0 <= j < n ==> #[trigger] v@[j] == ch,
        decreases v.len() - n,
    {
        n += 1;
    }
    proof {
        let p = char_pred(ch);
        assert forall|j: int| 0 <= j < n implies p(#[trigger] v@[j]) by {}
        lemma_skip_leading_at(v@, p, n as int);
    }
    n
}

// ---------------------------------------------------------------------------
// UTF-8 byte lengths and truncation
// ---------------------------------------------------------------------------

/// Number of bytes in the UTF-8 encoding of `c`.
pub open spec fn char_width(c: char) -> nat {
    encode_scalar(c as u32).len()
}

/// Number of bytes in the UTF-8 encoding of `s` (what `str::len` returns).
pub open spec fn utf8_len(s: Seq<char>) -> nat {
    encode_utf8(s).len()
}

/// The UTF-8 width of `c`, in bytes.
pub fn utf8_width(c: char) -> (w: usize)
    ensures
        w == char_width(c),
        1 <= w <= 4,
{
    proof {
        char_is_scalar(c);
    }
    let u = c as u32;
    if u <= 0x7F {
        1
    } else if u <= 0x7FF {
        2
    } else if u <= 0xFFFF {
        3
    } else {
        4
    }
}

/// The UTF-8 length of `s` is the width of its first character plus that of
/// the rest.
pub proof fn lemma_utf8_len_first(s: Seq<char>)
    requires
        s.len() > 0,
    ensures
        utf8_len(s) == char_width(s[0]) + utf8_len(s.drop_first()),
{
}

/// Each character takes at most four bytes.
pub proof fn lemma_utf8_len_bound(s: Seq<char>)
    ensures
        utf8_len(s) <= 4 * s.len(),
    decreases s.len(),
{
    if s.len() > 0 {
        lemma_utf8_len_first(s);
        lemma_utf8_len_bound(s.drop_first());
    }
}

/// Encoding a concatenation encodes each part in turn.
pub proof fn lemma_encode_utf8_concat(a: Seq<char>, b: Seq<char>)
    ensures
        encode_utf8(a + b) == encode_utf8(a) + encode_utf8(b),
    decreases a.len(),
{
    if a.len() == 0 {
        assert(a + b =~= b);
        assert(encode_utf8(a) =~= Seq::<u8>::empty());
        assert(encode_utf8(a) + encode_utf8(b) =~= encode_utf8(b));
    } else {
        assert((a + b)[0] == a[0]);
        assert((a + b).drop_first() =~= a.drop_first() + b);
        lemma_encode_utf8_concat(a.drop_first(), b);
        assert(encode_utf8(a + b) =~= encode_scalar(a[0] as u32) + encode_utf8(a.drop_first() + b));
        assert(encode_utf8(a) + encode_utf8(b) =~= encode_scalar(a[0] as u32) + (encode_utf8(
            a.drop_first(),
        ) + encode_utf8(b)));
    }
}

/// The number of leading characters of `s` whose UTF-8 encoding fits in
/// `budget` bytes.
pub open spec fn fitting_prefix_len(s: Seq<char>, budget: int) -> nat
    decreases s.len(),
{
    if s.len() > 0 && char_width(s[0]) <= budget {
        1 + fitting_prefix_len(s.drop_first(), budget - char_width(s[0]))
    } else {
        0
    }
}

/// The longest prefix of `s` whose UTF-8 encoding has at most `max` bytes: a
/// byte truncation that stops at a character boundary.
pub open spec fn truncate_spec(s: Seq<char>, max: int) -> Seq<char> {
    s.take(fitting_prefix_len(s, max) as int)
}

/// The fitting prefix never exceeds the budget, is no longer than `s`, is all
/// of `s` when `s` fits, and cannot be extended by one character.
pub proof fn lemma_fitting_prefix(s: Seq<char>, budget: int)
    requires
        budget >= 0,
    ensures
        fitting_prefix_len(s, budget) <= s.len(),
        utf8_len(truncate_spec(s, budget)) <= budget,
        utf8_len(s) <= budget ==> fitting_prefix_len(s, budget) == s.len(),
        fitting_prefix_len(s, budget) < s.len() ==> utf8_len(
            s.take(fitting_prefix_len(s, budget) + 1int),
        ) > budget,
    decreases s.len(),
{
    let k = fitting_prefix_len(s, budget);
    if s.len() == 0 {
        assert(s.take(0) =~= Seq::<char>::empty());
    } else {
        let w = char_width(s[0]);
        let t = s.drop_first();
        lemma_utf8_len_first(s);
        if w <= budget {
            lemma_fitting_prefix(t, budget - w);
            let kt = fitting_prefix_len(t, budget - w);
            assert(k == kt + 1);
            let p = s.take(k as int);
            assert(p[0] == s[0]);
            assert(p.drop_first() =~= t.take(kt as int));
            lemma_utf8_len_first(p);
            if k < s.len() {
                let q = s.take(k + 1int);
                assert(q[0] == s[0]);
                assert(q.drop_first() =~= t.take(kt + 1int));
                lemma_utf8_len_first(q);
            }
        } else {
            assert(k == 0);
            assert(s.take(0) =~= Seq::<char>::empty());
            let q = s.take(1);
            assert(q[0] == s[0]);
            assert(q.drop_first() =~= Seq::<char>::empty());
            lemma_utf8_len_first(q);
        }
    }
}

/// The number of leading characters of `v` that fit in `max` UTF-8 bytes.
pub fn fitting_prefix(v: &Vec<char>, max: usize) -> (n: usize)
    ensures
        n == fitting_prefix_len(v@, max as int),
{
    let mut i: usize = 0;
    let mut rem: usize = max;
    assert(v@.skip(0) =~= v@);
    while i < v.len()
        invariant
            i <= v.len(),
            rem <= max,
            fitting_prefix_len(v@, max as int) == i + fitting_prefix_len(
                v@.skip(i as int),
                rem as int,
            ),
        decreases v.len() - i,
    {
        let w = utf8_width(v[i]);
        let ghost t = v@.skip(i as int);
        assert(t[0] == v@[i as int]);
        if w > rem {
            return i;
        }
        assert(t.drop_first() =~= v@.skip(i + 1));
        rem -= w;
        i += 1;
    }
    assert(v@.skip(i as int) =~= Seq::<char>::empty());
    i
}

/// Truncates `s` to at most `max_bytes` bytes of UTF-8 without splitting a
/// character.
pub fn truncate_chars_utf8(s: &Vec<char>, max_bytes: usize) -> (r: String)
    ensures
        r@ == truncate_spec(s@, max_bytes as int),
        utf8_len(r@) <= max_bytes,
        utf8_len(s@) <= max_bytes ==> r@ == s@,
{
    proof {
        lemma_fitting_prefix(s@, max_bytes as int);
    }
    let n = fitting_prefix(s, max_bytes);
    let r = string_from_range(s, 0, n);
    assert(s@.subrange(0, n as int) =~= s@.take(n as int));
    assert(utf8_len(s@) <= max_bytes ==> s@.take(n as int) =~= s@);
    r
}

// ---------------------------------------------------------------------------
// Substrings: matching, containment, replacement
// ---------------------------------------------------------------------------

/// Values compared one by one when searching for a pattern.
pub trait Symbol: Copy {
    /// Whether two symbols are equal.
    fn same(&self, other: &Self) -> (r: bool)
        ensures
            r == (*self == *other),
    ;
}

impl Symbol for char {
    fn same(&self, other: &Self) -> (r: bool) {
        *self == *other
    }
}

impl Symbol for u8 {
    fn same(&self, other: &Self) -> (r: bool) {
        *self == *other
    }
}

/// `pat` occurs in `s` starting at position `i`.
pub open spec fn occurs_at<A>(s: Seq<A>, pat: Seq<A>, i: int) -> bool {
    0 <= i && i + pat.len() <= s.len() && s.subrange(i, i + pat.len()) == pat
}

/// `pat` occurs somewhere in `s` (`str::contains`).
pub open spec fn contains_spec<A>(s: Seq<A>, pat: Seq<A>) -> bool {
    exists|i: int| #[trigger] occurs_at(s, pat, i)
}

/// `s` ends with `pat` (`str::ends_with`).
pub open spec fn ends_with_spec<A>(s: Seq<A>, pat: Seq<A>) -> bool {
    pat.len() <= s.len() && s.subrange(s.len() - pat.len(), s.len() as int) == pat
}

/// Whether `pat` occurs in `s` at position `i`.
pub fn matches_at<T: Symbol>(s: &[T], i: usize, pat: &[T]) -> (r: bool)
    requires
        i <= s@.len(),
    ensures
        r == occurs_at(s@, pat@, i as int),
{
    if s.len() - i < pat.len() {
        return false;
    }
    let mut j: usize = 0;
    while j < pat.len()
        invariant
            i + pat@.len() <= s@.len(),
            s@.len() == s.len(),
            pat@.len() == pat.len(),
            j <= pat.len(),
            forall|k: int| 0 <= k < j ==> s@[i + k] == pat@[k],
        decreases pat.len() - j,
    {
        if !s[i + j].same(&pat[j]) {
            assert(s@.subrange(i as int, i + pat@.len())[j as int] != pat@[j as int]);
            return false;
        }
        j += 1;
    }
    assert(s@.subrange(i as int, i + pat@.len()) =~= pat@);
    true
}

/// Whether `pat` occurs anywhere in `s`.
pub fn contains_seq<T: Symbol>(s: &[T], pat: &[T]) -> (r: bool)
    ensures
        r == contains_spec(s@, pat@),
{
    if pat.len() > s.len() {
        return false;
    }
    let last = s.len() - pat.len();
    let mut i: usize = 0;
    loop
        invariant
            s@.len() == s.len(),
            pat@.len() == pat.len(),
            last == s@.len() - pat@.len(),
            i <= last,
            forall|k: int| 0 <= k < i ==> !#[trigger] occurs_at(s@, pat@, k),
        ensures
            forall|k: int| 0 <= k <= last ==> !#[trigger] occurs_at(s@, pat@, k),
        decreases last - i,
    {
        if matches_at(s, i, pat) {
            return true;
        }
        if i == last {
            break;
        }
        i += 1;
    }
    assert forall|k: int| !#[trigger] occurs_at(s@, pat@, k) by {
        if 0 <= k && k <= last {
        }
    }
    false
}

/// Whether `s` ends with `pat`.
pub fn ends_with_seq<T: Symbol>(s: &[T], pat: &[T]) -> (r: bool)
    ensures
        r == ends_with_spec(s@, pat@),
{
    if pat.len() > s.len() {
        return false;
    }
    matches_at(s, s.len() - pat.len(), pat)
}

// ---------------------------------------------------------------------------
// First element satisfying a predicate
// ---------------------------------------------------------------------------

/// Index of the first element of `s` that satisfies `p`, if any.
pub open spec fn first_index<A>(s: Seq<A>, p: spec_fn(A) -> bool) -> Option<int> {
    if exists|i: int| 0 <= i < s.len() && #[trigger] p(s[i]) {
        Some(
            choose|i: int|
                0 <= i < s.len() && p(s[i]) && forall|j: int| 0 <= j < i ==> !#[trigger] p(s[j]),
        )
    } else {
        None
    }
}

/// The first element satisfying `p` is at `i` when `s[i]` does and none
/// before it does.
pub proof fn lemma_first_index_at<A>(s: Seq<A>, p: spec_fn(A) -> bool, i: int)
    requires
        0 <= i < s.len(),
        p(s[i]),
        forall|j: int| 0 <= j < i ==> !#[trigger] p(s[j]),
    ensures
        first_index(s, p) == Some(i),
{
    let q = |k: int| 0 <= k < s.len() && p(s[k]) && forall|j: int| 0 <= j < k ==> !#[trigger] p(s[j]);
    assert(q(i));
    let c = choose|k: int|
        0 <= k < s.len() && p(s[k]) && forall|j: int| 0 <= j < k ==> !#[trigger] p(s[j]);
    assert(q(c));
    if c > i {
        assert(!p(s[i]));
    } else if c < i {
        assert(!p(s[c]));
    }
}

/// `str::replace` for a non-empty pattern: every occurrence of `pat`, scanning
/// from the left without overlaps, is replaced by `rep`.
pub open spec fn replace_spec(s: Seq<char>, pat: Seq<char>, rep: Seq<char>) -> Seq<char>
    decreases s.len(),
{
    if pat.len() == 0 || s.len() < pat.len() {
        s
    } else if s.take(pat.len() as int) == pat {
        rep + replace_spec(s.skip(pat.len() as int), pat, rep)
    } else {
        seq![s[0]] + replace_spec(s.drop_first(), pat, rep)
    }
}

/// When no occurrence starts at the front, replacement keeps the first
/// character and continues with the rest.
proof fn lemma_replace_step_keep(s: Seq<char>, pat: Seq<char>, rep: Seq<char>)
    requires
        pat.len() > 0,
        s.len() > 0,
        !occurs_at(s, pat, 0),
    ensures
        replace_spec(s, pat, rep) == seq![s[0]] + replace_spec(s.drop_first(), pat, rep),
{
    if s.len() < pat.len() {
        assert(replace_spec(s.drop_first(), pat, rep) == s.drop_first());
        assert(seq![s[0]] + s.drop_first() =~= s);
    } else {
        assert(s.take(pat.len() as int) =~= s.subrange(0, pat.len() as int));
    }
}

/// Replaces every occurrence of `pat` in `s` by `rep`.
pub fn replace_chars(s: &Vec<char>, pat: &Vec<char>, rep: &Vec<char>) -> (r: Vec<char>)
    requires
        pat.len() > 0,
    ensures
        r@ == replace_spec(s@, pat@, rep@),
{
    let mut out: Vec<char> = Vec::new();
    let mut i: usize = 0;
    assert(s@.skip(0) =~= s@);
    assert(out@ + replace_spec(s@, pat@, rep@) =~= replace_spec(s@, pat@, rep@));
    while i < s.len()
        invariant
            pat.len() > 0,
            i <= s.len(),
            replace_spec(s@, pat@, rep@) == out@ + replace_spec(s@.skip(i as int), pat@, rep@),
        decreases s.len() - i,
    {
        let ghost t = s@.skip(i as int);
        let ghost before = out@;
        if matches_at(s.as_slice(), i, pat.as_slice()) {
            proof {
                assert(t.take(pat.len() as int) =~= s@.subrange(i as int, i + pat.len()));
                assert(t.skip(pat.len() as int) =~= s@.skip(i + pat.len()));
            }
            let mut j: usize = 0;
            while j < rep.len()
                invariant
                    j <= rep.len(),
                    out@ == before + rep@.take(j as int),
                decreases rep.len() - j,
            {
                out.push(rep[j]);
                assert(rep@.take(j + 1) =~= rep@.take(j as int).push(rep@[j as int]));
                j += 1;
            }
            assert(rep@.take(rep.len() as int) =~= rep@);
            assert(before + (rep@ + replace_spec(s@.skip(i + pat.len()), pat@, rep@)) =~= (before
                + rep@) + replace_spec(s@.skip(i + pat.len()), pat@, rep@));
            i += pat.len();
        } else {
            proof {
                assert(t[0] == s@[i as int]);
                if i + pat.len() <= s.len() {
                    assert(t.subrange(0, pat.len() as int) =~= s@.subrange(
                        i as int,
                        i + pat.len(),
                    ));
                }
                lemma_replace_step_keep(t, pat@, rep@);
                assert(t.drop_first() =~= s@.skip(i + 1));
            }
            out.push(s[i]);
            assert(before + (seq![s@[i as int]] + replace_spec(s@.skip(i + 1), pat@, rep@)) =~= (
            before.push(s@[i as int])) + replace_spec(s@.skip(i + 1), pat@, rep@));
            i += 1;
        }
    }
    assert(s@.skip(i as int) =~= Seq::<char>::empty());
    assert(out@ + Seq::<char>::empty() =~= out@);
    out
}

/// `str::replace` for a non-empty pattern.
pub fn replace_str(s: &str, pat: &str, rep: &str) -> (r: String)
    requires
        pat@.len() > 0,
    ensures
        r@ == replace_spec(s@, pat@, rep@),
{
    let vs = chars_of(s);
    let vp = chars_of(pat);
    let vr = chars_of(rep);
    let out = replace_chars(&vs, &vp, &vr);
    string_from_chars(&out)
}

// ---------------------------------------------------------------------------
// Splitting at a separator
// ---------------------------------------------------------------------------

/// Position of the first `sep` in `s`, or `s.len()` when there is none.
pub open spec fn sep_pos(s: Seq<char>, sep: char) -> nat
    decreases s.len(),
{
    if s.len() == 0 {
        0
    } else if s[0] == sep {
        0
    } else {
        1 + sep_pos(s.drop_first(), sep)
    }
}

/// The first piece of `s` split at `sep` (`s.split(sep).next()`).
pub open spec fn before_sep(s: Seq<char>, sep: char) -> Seq<char> {
    s.take(sep_pos(s, sep) as int)
}

/// What follows the first `sep` in `s`, if `s` holds one.
pub open spec fn after_sep(s: Seq<char>, sep: char) -> Option<Seq<char>> {
    if sep_pos(s, sep) < s.len() {
        Some(s.skip(sep_pos(s, sep) + 1int))
    } else {
        None
    }
}

/// The first `sep` is at `i` when none comes before and `s[i]` is one (or `i`
/// is the end).
proof fn lemma_sep_pos_at(s: Seq<char>, sep: char, i: int)
    requires
        0 <= i <= s.len(),
        forall|j: int| 0 <= j < i ==> #[trigger] s[j] != sep,
        i < s.len() ==> s[i] == sep,
    ensures
        sep_pos(s, sep) == i,
    decreases i,
{
    if i > 0 {
        let t = s.drop_first();
        assert forall|j: int| 0 <= j < i - 1 implies #[trigger] t[j] != sep by {
            assert(t[j] == s[j + 1]);
        }
        lemma_sep_pos_at(t, sep, i - 1);
    }
}

/// Position of the first `sep` in `v`, or its length.
pub fn find_sep(v: &Vec<char>, sep: char) -> (i: usize)
    ensures
        i == sep_pos(v@, sep),
        i <= v.len(),
{
    let mut i: usize = 0;
    while i < v.len() && v[i] != sep
        invariant
            i <= v.len(),
            forall|j: int| 0 <= j < i ==> #[trigger] v@[j] != sep,
        decreases v.len() - i,
    {
        i += 1;
    }
    proof {
        lemma_sep_pos_at(v@, sep, i as int);
    }
    i
}

// ---------------------------------------------------------------------------
// Decimal numbers
// ---------------------------------------------------------------------------

/// `c` is an ASCII decimal digit.
pub open spec fn is_digit(c: char) -> bool {
    '0' <= c <= '9'
}

/// The value of a string of decimal digits.
pub open spec fn digits_value(s: Seq<char>) -> nat
    decreases s.len(),
{
    if s.len() == 0 {
        0
    } else {
        digits_value(s.drop_last()) * 10 + ((s.last() as nat) - 48) as nat
    }
}

/// The digits of `s` after an optional leading `+`.
pub open spec fn unsigned_digits(s: Seq<char>) -> Seq<char> {
    if s.len() > 0 && s[0] == '+' {
        s.drop_first()
    } else {
        s
    }
}

/// `str::parse::<u64>`: an optional `+` followed by at least one decimal
/// digit, whose value fits in a `u64`.
pub open spec fn parse_u64_spec(s: Seq<char>) -> Option<u64> {
    let d = unsigned_digits(s);
    if d.len() > 0 && (forall|i: int| 0 <= i < d.len() ==> is_digit(#[trigger] d[i]))
        && digits_value(d) <= u64::MAX {
        Some(digits_value(d) as u64)
    } else {
        None
    }
}

/// A longer run of digits has at least the value of its prefix.
proof fn lemma_digits_value_mono(s: Seq<char>, i: int)
    requires
        0 <= i <= s.len(),
        forall|j: int| 0 <= j < s.len() ==> is_digit(#[trigger] s[j]),
    ensures
        digits_value(s.take(i)) <= digits_value(s),
    decreases s.len() - i,
{
    if i < s.len() {
        let t = s.drop_last();
        assert forall|j: int| 0 <= j < t.len() implies is_digit(#[trigger] t[j]) by {
            assert(t[j] == s[j]);
        }
        lemma_digits_value_mono(t, i);
        assert(t.take(i) =~= s.take(i));
        assert(is_digit(s.last()));
    } else {
        assert(s.take(i) =~= s);
    }
}

/// Parses `v` as `str::parse::<u64>` does.
pub fn parse_u64(v: &Vec<char>) -> (r: Option<u64>)
    ensures
        r == parse_u64_spec(v@),
{
    let start: usize = if v.len() > 0 && v[0] == '+' {
        1
    } else {
        0
    };
    let ghost d = unsigned_digits(v@);
    assert(d =~= v@.skip(start as int));
    if start >= v.len() {
        assert(d.len() == 0);
        return None;
    }
    let mut i = start;
    while i < v.len()
        invariant
            start <= i <= v.len(),
            d == unsigned_digits(v@),
            d =~= v@.skip(start as int),
            forall|j: int| 0 <= j < i - start ==> is_digit(#[trigger] d[j]),
        decreases v.len() - i,
    {
        let c = v[i];
        if !('0' <= c && c <= '9') {
            assert(d[i - start] == c);
            return None;
        }
        i += 1;
    }
    let mut value: u64 = 0;
    let mut k = start;
    while k < v.len()
        invariant
            start <= k <= v.len(),
            d == unsigned_digits(v@),
            d =~= v@.skip(start as int),
            forall|j: int| 0 <= j < d.len() ==> is_digit(#[trigger] d[j]),
            value == digits_value(d.take(k - start)),
        decreases v.len() - k,
    {
        let c = v[k];
        let ghost p = d.take(k + 1 - start);
        proof {
            assert(p.drop_last() =~= d.take(k - start));
            assert(p.last() == c);
            assert(d[k - start] == c);
            assert(is_digit(d[k - start]));
        }
        let digit: u64 = (c as u32 - '0' as u32) as u64;
        assert(digits_value(p) == value * 10 + digit);
        let m = value.checked_mul(10);
        if m.is_none() {
            proof {
                lemma_digits_value_mono(d, k + 1 - start);
            }
            return None;
        }
        let m = m.unwrap();
        let a = m.checked_add(digit);
        if a.is_none() {
            proof {
                lemma_digits_value_mono(d, k + 1 - start);
            }
            return None;
        }
        value = a.unwrap();
        k += 1;
    }
    assert(d.take(d.len() as int) =~= d);
    Some(value)
}

} // verus!
