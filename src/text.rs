//! Character-level helpers shared by the lexers and the view layout.

use vstd::prelude::*;
use vstd::string::*;

verus! {

/// The characters that `char::is_whitespace` accepts: the Unicode
/// `White_Space` property.
pub open spec fn is_ws(c: char) -> bool {
    ('\u{9}' <= c && c <= '\u{d}') || c == ' ' || c == '\u{85}' || c == '\u{a0}'
        || c == '\u{1680}' || ('\u{2000}' <= c && c <= '\u{200a}') || c == '\u{2028}'
        || c == '\u{2029}' || c == '\u{202f}' || c == '\u{205f}' || c == '\u{3000}'
}

/// Whether `c` is a whitespace character.
pub fn is_whitespace(c: char) -> (r: bool)
    ensures
        r == is_ws(c),
{
    ('\u{9}' <= c && c <= '\u{d}') || c == ' ' || c == '\u{85}' || c == '\u{a0}'
        || c == '\u{1680}' || ('\u{2000}' <= c && c <= '\u{200a}') || c == '\u{2028}'
        || c == '\u{2029}' || c == '\u{202f}' || c == '\u{205f}' || c == '\u{3000}'
}

/// Index of the first non-whitespace character of `s` at or after `i`,
/// not going past `hi`.
pub open spec fn skip_ws(s: Seq<char>, i: int, hi: int) -> int
    decreases hi - i,
{
    if i < hi && is_ws(s[i]) {
        skip_ws(s, i + 1, hi)
    } else {
        i
    }
}

/// Index just past the last non-whitespace character of `s` before `j`,
/// not going below `lo`.
pub open spec fn skip_ws_back(s: Seq<char>, lo: int, j: int) -> int
    decreases j - lo,
{
    if j > lo && is_ws(s[j - 1]) {
        skip_ws_back(s, lo, j - 1)
    } else {
        j
    }
}

/// Index of the first whitespace character of `s` at or after `i`, or `hi`.
pub open spec fn find_ws(s: Seq<char>, i: int, hi: int) -> int
    decreases hi - i,
{
    if i < hi && !is_ws(s[i]) {
        find_ws(s, i + 1, hi)
    } else {
        i
    }
}

pub proof fn lemma_skip_ws_bounds(s: Seq<char>, i: int, hi: int)
    requires
        i <= hi,
    ensures
        i <= skip_ws(s, i, hi) <= hi,
        skip_ws(s, i, hi) < hi ==> !is_ws(s[skip_ws(s, i, hi)]),
    decreases hi - i,
{
    if i < hi && is_ws(s[i]) {
        lemma_skip_ws_bounds(s, i + 1, hi);
    }
}

pub proof fn lemma_skip_ws_back_bounds(s: Seq<char>, lo: int, j: int)
    requires
        lo <= j,
    ensures
        lo <= skip_ws_back(s, lo, j) <= j,
        skip_ws_back(s, lo, j) > lo ==> !is_ws(s[skip_ws_back(s, lo, j) - 1]),
    decreases j - lo,
{
    if j > lo && is_ws(s[j - 1]) {
        lemma_skip_ws_back_bounds(s, lo, j - 1);
    }
}

pub proof fn lemma_find_ws_bounds(s: Seq<char>, i: int, hi: int)
    requires
        i <= hi,
    ensures
        i <= find_ws(s, i, hi) <= hi,
        find_ws(s, i, hi) < hi ==> is_ws(s[find_ws(s, i, hi)]),
    decreases hi - i,
{
    if i < hi && !is_ws(s[i]) {
        lemma_find_ws_bounds(s, i + 1, hi);
    }
}

/// Runs `skip_ws` on a string.
pub fn skip_whitespace(s: &str, i: usize, hi: usize) -> (r: usize)
    requires
        i <= hi <= s@.len(),
    ensures
        r as int == skip_ws(s@, i as int, hi as int),
        i <= r <= hi,
        r < hi ==> !is_ws(s@[r as int]),
{
    proof {
        lemma_skip_ws_bounds(s@, i as int, hi as int);
    }
    let mut k = i;
    while k < hi && is_whitespace(s.get_char(k))
        invariant
            i <= k <= hi <= s@.len(),
            skip_ws(s@, k as int, hi as int) == skip_ws(s@, i as int, hi as int),
        decreases hi - k,
    {
        k = k + 1;
    }
    k
}

/// Runs `skip_ws_back` on a string.
pub fn skip_whitespace_back(s: &str, lo: usize, j: usize) -> (r: usize)
    requires
        lo <= j <= s@.len(),
    ensures
        r as int == skip_ws_back(s@, lo as int, j as int),
        lo <= r <= j,
        r > lo ==> !is_ws(s@[r - 1]),
{
    proof {
        lemma_skip_ws_back_bounds(s@, lo as int, j as int);
    }
    let mut k = j;
    while k > lo && is_whitespace(s.get_char(k - 1))
        invariant
            lo <= k <= j <= s@.len(),
            skip_ws_back(s@, lo as int, k as int) == skip_ws_back(s@, lo as int, j as int),
        decreases k - lo,
    {
        k = k - 1;
    }
    k
}

/// Runs `find_ws` on a string.
pub fn find_whitespace(s: &str, i: usize, hi: usize) -> (r: usize)
    requires
        i <= hi <= s@.len(),
    ensures
        r as int == find_ws(s@, i as int, hi as int),
        i <= r <= hi,
        r < hi ==> is_ws(s@[r as int]),
{
    proof {
        lemma_find_ws_bounds(s@, i as int, hi as int);
    }
    let mut k = i;
    while k < hi && !is_whitespace(s.get_char(k))
        invariant
            i <= k <= hi <= s@.len(),
            find_ws(s@, k as int, hi as int) == find_ws(s@, i as int, hi as int),
        decreases hi - k,
    {
        k = k + 1;
    }
    k
}

/// Whether the characters `lo..hi` of `s` spell out `lit`.
pub fn slice_is(s: &str, lo: usize, hi: usize, lit: &str) -> (r: bool)
    requires
        lo <= hi <= s@.len(),
    ensures
        r == (s@.subrange(lo as int, hi as int) == lit@),
{
    let n = lit.unicode_len();
    if hi - lo != n {
        return false;
    }
    let mut k: usize = 0;
    while k < n
        invariant
            n == lit@.len(),
            hi - lo == n,
            lo <= hi <= s@.len(),
            k <= n,
            forall|m: int| 0 <= m < k ==> s@[lo + m] == lit@[m],
        decreases n - k,
    {
        if s.get_char(lo + k) != lit.get_char(k) {
            assert(s@.subrange(lo as int, hi as int)[k as int] != lit@[k as int]);
            return false;
        }
        k = k + 1;
    }
    assert(s@.subrange(lo as int, hi as int) =~= lit@);
    true
}

/// Copies the characters `lo..hi` of `s` into a new string.
pub fn substring(s: &str, lo: usize, hi: usize) -> (r: String)
    requires
        lo <= hi <= s@.len(),
    ensures
        r@ == s@.subrange(lo as int, hi as int),
{
    String::from_str(s.substring_char(lo, hi))
}


/// Relies on `String::push`: appends one character.
#[verifier::external_body]
pub(crate) fn push_char(s: &mut String, c: char)
    ensures
        final(s)@ == old(s)@.push(c),
{
    s.push(c)
}

/// The decimal digit of `d < 10`.
pub open spec fn digit(d: nat) -> char {
    if d == 0 { '0' } else if d == 1 { '1' } else if d == 2 { '2' } else if d == 3 { '3' }
    else if d == 4 { '4' } else if d == 5 { '5' } else if d == 6 { '6' } else if d == 7 { '7' }
    else if d == 8 { '8' } else { '9' }
}

/// The decimal form of `n`, without leading zeros.
pub open spec fn decimal(n: nat) -> Seq<char>
    decreases n,
{
    if n < 10 {
        seq![digit(n)]
    } else {
        decimal(n / 10).push(digit(n % 10))
    }
}

fn digit_char(d: u64) -> (r: char)
    requires
        d < 10,
    ensures
        r == digit(d as nat),
{
    if d == 0 { '0' } else if d == 1 { '1' } else if d == 2 { '2' } else if d == 3 { '3' }
    else if d == 4 { '4' } else if d == 5 { '5' } else if d == 6 { '6' } else if d == 7 { '7' }
    else if d == 8 { '8' } else { '9' }
}

/// Writes `n` in decimal.
pub fn decimal_string(n: u64) -> (r: String)
    ensures
        r@ == decimal(n as nat),
    decreases n,
{
    if n < 10 {
        let mut s = String::new();
        push_char(&mut s, digit_char(n));
        assert(s@ =~= seq![digit(n as nat)]);
        s
    } else {
        let mut s = decimal_string(n / 10);
        push_char(&mut s, digit_char(n % 10));
        s
    }
}

/// Appends the characters of `b` to `a`.
pub fn append_str(a: &mut String, b: &str)
    ensures
        final(a)@ == old(a)@ + b@,
{
    a.append(b);
}


/// `s` with `c` inserted before the character at `i`.
pub fn insert_char_at(s: &str, i: usize, c: char) -> (r: String)
    requires
        i <= s@.len(),
    ensures
        r@ == s@.insert(i as int, c),
{
    let n = s.unicode_len();
    let mut r = String::from_str(s.substring_char(0, i));
    push_char(&mut r, c);
    append_str(&mut r, s.substring_char(i, n));
    assert(r@ =~= s@.insert(i as int, c));
    r
}

/// `s` without the character at `i`.
pub fn remove_char_at(s: &str, i: usize) -> (r: String)
    requires
        i < s@.len(),
    ensures
        r@ == s@.remove(i as int),
{
    let n = s.unicode_len();
    let mut r = String::from_str(s.substring_char(0, i));
    append_str(&mut r, s.substring_char(i + 1, n));
    assert(r@ =~= s@.remove(i as int));
    r
}

/// Inserting into a sequence adds the element to its multiset.
pub proof fn lemma_insert_multiset<A>(s: Seq<A>, p: int, x: A)
    requires
        0 <= p <= s.len(),
    ensures
        s.insert(p, x).to_multiset() == s.to_multiset().insert(x),
{
    let t = s.insert(p, x);
    s.insert_ensures(p, x);
    assert(t.remove(p) =~= s);
    t.to_multiset_ensures();
    assert(t.contains(x)) by {
        assert(t[p] == x);
    }
    assert(t.to_multiset() =~= s.to_multiset().insert(x));
}

} // verus!
