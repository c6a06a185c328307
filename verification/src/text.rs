//! Text helpers: blank-description detection and substring search, both
//! verified against character-sequence specifications.

use vstd::prelude::*;
use vstd::string::StrSliceExecFns;

verus! {

/// The Unicode `White_Space` code points, as the `char` type documents
/// them: the ASCII spacing characters and the fixed list of additional
/// separator code points.
pub open spec fn spec_is_whitespace(c: char) -> bool {
    let u = c as u32;
    ||| u == 0x9
    ||| u == 0xA
    ||| u == 0xB
    ||| u == 0xC
    ||| u == 0xD
    ||| u == 0x20
    ||| u == 0x85
    ||| u == 0xA0
    ||| u == 0x1680
    ||| (0x2000 <= u && u <= 0x200A)
    ||| u == 0x2028
    ||| u == 0x2029
    ||| u == 0x202F
    ||| u == 0x205F
    ||| u == 0x3000
}

/// A text is blank iff every character is whitespace; the empty text is
/// blank.
pub open spec fn spec_is_blank(s: Seq<char>) -> bool {
    forall|i: int| 0 <= i < s.len() ==> spec_is_whitespace(#[trigger] s[i])
}

/// `needle` occurs contiguously somewhere in `haystack`.
pub open spec fn spec_contains_sub(haystack: Seq<char>, needle: Seq<char>) -> bool {
    exists|i: int|
        0 <= i && i + needle.len() <= haystack.len() && #[trigger] haystack.subrange(
            i,
            i + needle.len() as int,
        ) == needle
}

/// Decides [`spec_is_whitespace`] for one character.
pub fn is_whitespace_char(c: char) -> (r: bool)
    ensures
        r == spec_is_whitespace(c),
{
    let u: u32 = c as u32;
    u == 0x9 || u == 0xA || u == 0xB || u == 0xC || u == 0xD || u == 0x20 || u == 0x85 || u == 0xA0
        || u == 0x1680 || (0x2000 <= u && u <= 0x200A) || u == 0x2028 || u == 0x2029 || u == 0x202F
        || u == 0x205F || u == 0x3000
}

/// Decides whether a text consists of whitespace only.
pub fn str_is_blank(s: &str) -> (r: bool)
    ensures
        r == spec_is_blank(s@),
{
    let n = s.unicode_len();
    let mut i: usize = 0;
    while i < n
        invariant
            n == s@.len(),
            0 <= i <= n,
            forall|k: int| 0 <= k < i ==> spec_is_whitespace(#[trigger] s@[k]),
        decreases n - i,
    {
        let c = s.get_char(i);
        if !is_whitespace_char(c) {
            return false;
        }
        i = i + 1;
    }
    true
}

/// True iff `needle` matches `haystack` exactly at offset `at`.
fn matches_at(haystack: &str, needle: &str, at: usize) -> (r: bool)
    requires
        at + needle@.len() <= haystack@.len(),
    ensures
        r == (haystack@.subrange(at as int, at as int + needle@.len() as int) == needle@),
{
    let h = haystack.unicode_len();
    let m = needle.unicode_len();
    let ghost window = haystack@.subrange(at as int, at as int + needle@.len() as int);
    let mut j: usize = 0;
    while j < m
        invariant
            h == haystack@.len(),
            m == needle@.len(),
            at + m <= h,
            0 <= j <= m,
            window == haystack@.subrange(at as int, at as int + m as int),
            forall|k: int| 0 <= k < j ==> #[trigger] window[k] == needle@[k],
        decreases m - j,
    {
        let hc = haystack.get_char(at + j);
        let nc = needle.get_char(j);
        assert(window[j as int] == haystack@[at + j]);
        if hc != nc {
            return false;
        }
        j = j + 1;
    }
    assert(window =~= needle@);
    true
}

/// Decides [`spec_contains_sub`]: does `needle` occur in `haystack`?
pub fn str_contains_sub(haystack: &str, needle: &str) -> (r: bool)
    ensures
        r == spec_contains_sub(haystack@, needle@),
{
    let h_len = haystack.unicode_len();
    let n_len = needle.unicode_len();
    if n_len > h_len {
        return false;
    }
    if n_len == 0 {
        assert(haystack@.subrange(0, 0 + needle@.len() as int) =~= needle@);
        return true;
    }
    let mut i: usize = 0;
    while i < h_len - n_len + 1
        invariant
            h_len == haystack@.len(),
            n_len == needle@.len(),
            0 < n_len <= h_len,
            0 <= i <= h_len - n_len + 1,
            forall|s: int|
                0 <= s < i ==> #[trigger] haystack@.subrange(s, s + n_len as int) != needle@,
        decreases h_len - n_len + 1 - i,
    {
        if matches_at(haystack, needle, i) {
            return true;
        }
        i = i + 1;
    }
    false
}

} // verus!
