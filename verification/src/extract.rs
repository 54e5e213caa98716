//! The field extractor: strips an exact literal prefix and suffix from a
//! line, yielding the inner token, or nothing when either anchor is absent.

use vstd::prelude::*;

verus! {

/// `s` begins with `p`.
pub open spec fn seq_starts_with(s: Seq<char>, p: Seq<char>) -> bool {
    p.len() <= s.len() && s.subrange(0, p.len() as int) == p
}

/// `s` ends with `x`.
pub open spec fn seq_ends_with(s: Seq<char>, x: Seq<char>) -> bool {
    x.len() <= s.len() && s.subrange(s.len() - x.len(), s.len() as int) == x
}

/// A line matches when it begins with `prefix`, ends with `suffix`, and is
/// long enough to hold both without overlap.
pub open spec fn strip_ok(line: Seq<char>, prefix: Seq<char>, suffix: Seq<char>) -> bool {
    &&& line.len() >= prefix.len() + suffix.len()
    &&& seq_starts_with(line, prefix)
    &&& seq_ends_with(line, suffix)
}

/// The text strictly between the two anchors of a matching line.
pub open spec fn stripped(line: Seq<char>, prefix: Seq<char>, suffix: Seq<char>) -> Seq<char> {
    line.subrange(prefix.len() as int, line.len() - suffix.len())
}

/// Round trip: a line assembled from a prefix, an inner token and a
/// suffix always matches those anchors, and stripping them yields exactly
/// the token back.
pub proof fn lemma_strip_roundtrip(prefix: Seq<char>, mid: Seq<char>, suffix: Seq<char>)
    ensures
        strip_ok(prefix + mid + suffix, prefix, suffix),
        stripped(prefix + mid + suffix, prefix, suffix) == mid,
{
    let line = prefix + mid + suffix;
    assert(line.subrange(0, prefix.len() as int) =~= prefix);
    assert(line.subrange(line.len() - suffix.len(), line.len() as int) =~= suffix);
    assert(line.subrange(prefix.len() as int, line.len() - suffix.len()) =~= mid);
}

/// `pat` occurs in `s` at character position `at`.
fn chars_match_at(s: &str, pat: &str, at: usize) -> (r: bool)
    requires
        at + pat@.len() <= s@.len(),
    ensures
        r == (s@.subrange(at as int, at + pat@.len()) == pat@),
{
    let n = pat.unicode_len();
    let s_len = s.unicode_len();
    let mut i: usize = 0;
    while i < n
        invariant
            i <= n,
            n == pat@.len(),
            s_len == s@.len(),
            at + n <= s_len,
            forall|j: int| 0 <= j < i ==> s@[at + j] == pat@[j],
        decreases n - i,
    {
        if s.get_char(at + i) != pat.get_char(i) {
            proof {
                assert(s@.subrange(at as int, at + pat@.len())[i as int] != pat@[i as int]);
            }
            return false;
        }
        i = i + 1;
    }
    proof {
        assert(s@.subrange(at as int, at + pat@.len()) =~= pat@);
    }
    true
}

/// Returns the text strictly between `prefix` and `suffix`, but only when
/// `line` starts with `prefix` and ends with `suffix` (exact and
/// case-sensitive); otherwise returns nothing.  A line too short to hold
/// both anchors never matches.
pub fn strip_prefix_and_suffix(line: &str, prefix: &str, suffix: &str) -> (r: Option<String>)
    ensures
        r is Some <==> strip_ok(line@, prefix@, suffix@),
        r matches Some(m) ==> m@ == stripped(line@, prefix@, suffix@),
{
    let n = line.unicode_len();
    let p = prefix.unicode_len();
    let s = suffix.unicode_len();
    if n < p || n - p < s {
        return None;
    }
    if !chars_match_at(line, prefix, 0) {
        return None;
    }
    if !chars_match_at(line, suffix, n - s) {
        return None;
    }
    let mid = line.substring_char(p, n - s);
    Some(mid.to_owned())
}

} // verus!
