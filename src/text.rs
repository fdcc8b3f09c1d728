//! Character-level helpers shared by the protocol: whitespace, tokens,
//! trimming, substring search, and the case folding and UTF-8 decoding
//! that std performs for us.
use vstd::prelude::*;
use vstd::string::StrSliceExecFns;

verus! {

/// The Unicode `White_Space` property, which is what `char::is_whitespace` tests.
pub open spec fn is_space(c: char) -> bool {
    let u = c as u32;
    (0x09 <= u && u <= 0x0d) || u == 0x20 || u == 0x85 || u == 0xa0 || u == 0x1680 || (0x2000
        <= u && u <= 0x200a) || u == 0x2028 || u == 0x2029 || u == 0x202f || u == 0x205f || u
        == 0x3000
}

/// First index at or after `i` that holds no whitespace (or the length).
pub open spec fn skip_space(s: Seq<char>, i: int) -> int
    decreases s.len() - i,
{
    if 0 <= i < s.len() && is_space(s[i]) {
        skip_space(s, i + 1)
    } else {
        i
    }
}

/// First index at or after `i` that holds whitespace (or the length).
pub open spec fn skip_word(s: Seq<char>, i: int) -> int
    decreases s.len() - i,
{
    if 0 <= i < s.len() && !is_space(s[i]) {
        skip_word(s, i + 1)
    } else {
        i
    }
}

/// The whitespace-delimited token that follows position `i`, as (start, end).
pub open spec fn token_span(s: Seq<char>, i: int) -> (int, int) {
    let a = skip_space(s, i);
    (a, skip_word(s, a))
}

/// Start of the `k`-th whitespace-delimited token of `s` (counting from zero).
pub open spec fn nth_span(s: Seq<char>, k: nat) -> (int, int)
    decreases k,
{
    if k == 0 {
        token_span(s, 0)
    } else {
        token_span(s, nth_span(s, (k - 1) as nat).1)
    }
}

/// Whether `s` has at least `k + 1` tokens.
pub open spec fn has_token(s: Seq<char>, k: nat) -> bool {
    nth_span(s, k).0 < s.len()
}

/// The `k`-th whitespace-delimited token of `s`.
pub open spec fn token(s: Seq<char>, k: nat) -> Seq<char> {
    s.subrange(nth_span(s, k).0, nth_span(s, k).1)
}

/// Index just past the last non-whitespace character in `s[..j]` (or 0).
pub open spec fn back_skip_space(s: Seq<char>, j: int) -> int
    decreases j,
{
    if 0 < j <= s.len() && is_space(s[j - 1]) {
        back_skip_space(s, j - 1)
    } else {
        j
    }
}

/// `s` without leading and trailing whitespace.
pub open spec fn trim(s: Seq<char>) -> Seq<char> {
    let a = skip_space(s, 0);
    if a >= s.len() {
        Seq::empty()
    } else {
        s.subrange(a, back_skip_space(s, s.len() as int))
    }
}

/// `needle` occurs in `hay` as a contiguous run.
pub open spec fn contains(hay: Seq<char>, needle: Seq<char>) -> bool {
    exists|i: int|
        0 <= i && i + needle.len() <= hay.len() && #[trigger] hay.subrange(i, i + needle.len())
            == needle
}

/// Lower-case mapping of a string, as `str::to_lowercase` computes it.
pub uninterp spec fn lower_of(s: Seq<char>) -> Seq<char>;

/// Upper-case mapping of a string, as `str::to_uppercase` computes it.
pub uninterp spec fn upper_of(s: Seq<char>) -> Seq<char>;

/// The text that `String::from_utf8_lossy` decodes from some bytes.
pub uninterp spec fn lossy_of(b: Seq<u8>) -> Seq<char>;

/// Relies on `str::to_lowercase`: the full Unicode lower-case mapping, which
/// depends on the characters alone.
#[verifier::external_body]
pub(crate) fn to_lower(s: &str) -> (r: String)
    ensures
        r@ == lower_of(s@),
{
    s.to_lowercase()
}

/// Relies on `str::to_uppercase`: the full Unicode upper-case mapping, which
/// depends on the characters alone.
#[verifier::external_body]
pub(crate) fn to_upper(s: &str) -> (r: String)
    ensures
        r@ == upper_of(s@),
{
    s.to_uppercase()
}

/// Relies on `String::from_utf8_lossy`: decoding that replaces each invalid
/// sequence by U+FFFD and never fails; the result depends on the bytes alone.
#[verifier::external_body]
pub(crate) fn decode_lossy(b: &[u8]) -> (r: String)
    ensures
        r@ == lossy_of(b@),
{
    String::from_utf8_lossy(b).into_owned()
}

/// Whitespace test with the meaning of `char::is_whitespace`.
pub fn is_whitespace(c: char) -> (r: bool)
    ensures
        r == is_space(c),
{
    let u = c as u32;
    (0x09 <= u && u <= 0x0d) || u == 0x20 || u == 0x85 || u == 0xa0 || u == 0x1680 || (0x2000
        <= u && u <= 0x200a) || u == 0x2028 || u == 0x2029 || u == 0x202f || u == 0x205f || u
        == 0x3000
}

/// The token of `s` that follows position `from`, as (start, end) char indices.
pub fn next_token(s: &str, len: usize, from: usize) -> (r: (usize, usize))
    requires
        len == s@.len(),
        from <= len,
    ensures
        r.0 as int == token_span(s@, from as int).0,
        r.1 as int == token_span(s@, from as int).1,
        from <= r.0 <= r.1 <= len,
{
    let mut a: usize = from;
    while a < len && is_whitespace(s.get_char(a))
        invariant
            len == s@.len(),
            from <= a <= len,
            skip_space(s@, from as int) == skip_space(s@, a as int),
        decreases len - a,
    {
        a = a + 1;
    }
    let mut b: usize = a;
    while b < len && !is_whitespace(s.get_char(b))
        invariant
            len == s@.len(),
            a <= b <= len,
            skip_word(s@, a as int) == skip_word(s@, b as int),
        decreases len - b,
    {
        b = b + 1;
    }
    (a, b)
}

/// Leading and trailing whitespace removed.
pub fn trimmed(s: &str) -> (r: &str)
    ensures
        r@ == trim(s@),
{
    let len = s.unicode_len();
    let mut a: usize = 0;
    while a < len && is_whitespace(s.get_char(a))
        invariant
            len == s@.len(),
            a <= len,
            skip_space(s@, 0) == skip_space(s@, a as int),
        decreases len - a,
    {
        a = a + 1;
    }
    if a >= len {
        return s.substring_char(len, len);
    }
    let mut b: usize = len;
    while b > 0 && is_whitespace(s.get_char(b - 1))
        invariant
            len == s@.len(),
            a < len,
            !is_space(s@[a as int]),
            a < b <= len,
            back_skip_space(s@, len as int) == back_skip_space(s@, b as int),
        decreases b,
    {
        b = b - 1;
    }
    s.substring_char(a, b)
}

/// Character-wise equality of two strings.
pub fn same_text(x: &str, y: &str) -> (r: bool)
    ensures
        r == (x@ == y@),
{
    let n = x.unicode_len();
    if n != y.unicode_len() {
        return false;
    }
    let mut i: usize = 0;
    while i < n
        invariant
            n == x@.len() == y@.len(),
            i <= n,
            forall|j: int| 0 <= j < i ==> x@[j] == y@[j],
        decreases n - i,
    {
        if x.get_char(i) != y.get_char(i) {
            return false;
        }
        i = i + 1;
    }
    assert(x@ =~= y@);
    true
}

/// Whether `needle` occurs in `hay`.
pub fn contains_text(hay: &str, needle: &str) -> (r: bool)
    ensures
        r == contains(hay@, needle@),
{
    let n = hay.unicode_len();
    let m = needle.unicode_len();
    if m > n {
        proof {
            assert forall|i: int| 0 <= i && i + m <= n implies #[trigger] hay@.subrange(
                i,
                i + m,
            ) != needle@ by {}
        }
        return false;
    }
    let mut i: usize = 0;
    while i <= n - m
        invariant
            n == hay@.len(),
            m == needle@.len(),
            m <= n,
            i <= n - m + 1,
            forall|k: int| 0 <= k < i ==> #[trigger] hay@.subrange(k, k + m) != needle@,
        decreases n - i,
    {
        let mut j: usize = 0;
        while j < m && hay.get_char(i + j) == needle.get_char(j)
            invariant
                n == hay@.len(),
                m == needle@.len(),
                i + m <= n,
                j <= m,
                forall|t: int| 0 <= t < j ==> hay@[i + t] == needle@[t],
            decreases m - j,
        {
            j = j + 1;
        }
        if j == m {
            assert(hay@.subrange(i as int, i + m) =~= needle@);
            return true;
        }
        assert(hay@.subrange(i as int, i + m)[j as int] != needle@[j as int]);
        i = i + 1;
    }
    assert forall|k: int| 0 <= k && k + m <= n implies #[trigger] hay@.subrange(k, k + m)
        != needle@ by {}
    false
}

} // verus!
