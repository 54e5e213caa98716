//! The lookup inside a DHCP lease table: find the address column of the
//! first line whose hostname column matches, ignoring ASCII case.
//!
//! A lease line holds whitespace-separated columns; the address is the
//! third column and the hostname the fourth.

use crate::text::is_space;
use crate::text::nonspace_pos;
use crate::text::lemma_nonspace_pos;
use vstd::prelude::*;

verus! {

/// The first position at or after `i` holding whitespace (`s.len()` when
/// none does).
pub open spec fn space_pos(s: Seq<char>, i: int) -> int
    decreases s.len() - i
        when 0 <= i <= s.len()
{
    if i >= s.len() {
        s.len() as int
    } else if is_space(s[i]) {
        i
    } else {
        space_pos(s, i + 1)
    }
}

pub proof fn lemma_space_pos(s: Seq<char>, i: int)
    requires
        0 <= i <= s.len(),
    ensures
        i <= space_pos(s, i) <= s.len(),
        forall|k: int| i <= k < space_pos(s, i) ==> !is_space(s[k]),
        space_pos(s, i) < s.len() ==> is_space(s[space_pos(s, i)]),
    decreases s.len() - i,
{
    if i < s.len() && !is_space(s[i]) {
        lemma_space_pos(s, i + 1);
    }
}

/// The whitespace-separated columns of `s` from position `i` on: each is
/// a maximal run of non-whitespace, exactly as `str::split_whitespace`
/// yields them.
pub open spec fn ws_tokens_from(s: Seq<char>, i: int) -> Seq<Seq<char>>
    decreases s.len() - i
        when 0 <= i <= s.len()
    via ws_tokens_from_decreases
{
    let a = nonspace_pos(s, i);
    if a == s.len() {
        Seq::empty()
    } else {
        let b = space_pos(s, a);
        seq![s.subrange(a, b)] + ws_tokens_from(s, b)
    }
}

#[via_fn]
proof fn ws_tokens_from_decreases(s: Seq<char>, i: int) {
    lemma_nonspace_pos(s, i);
    if nonspace_pos(s, i) < s.len() {
        lemma_space_pos(s, nonspace_pos(s, i));
    }
}

/// All whitespace-separated columns of `s`.
pub open spec fn ws_tokens(s: Seq<char>) -> Seq<Seq<char>> {
    ws_tokens_from(s, 0)
}

/// The code of a character with an ASCII capital folded to lower case.
pub open spec fn lower_code(c: char) -> int {
    if 65 <= c as int <= 90 {
        c as int + 32
    } else {
        c as int
    }
}

/// Equality up to ASCII case, as `str::eq_ignore_ascii_case` decides it.
pub open spec fn ci_equal(a: Seq<char>, b: Seq<char>) -> bool {
    a.len() == b.len() && (forall|i: int| 0 <= i < a.len() ==> lower_code(a[i]) == lower_code(b[i]))
}

/// A lease line whose fourth column is the sought hostname.
pub open spec fn line_matches(l: Seq<char>, host: Seq<char>) -> bool {
    let cols = ws_tokens(l);
    cols.len() >= 4 && ci_equal(cols[3], host)
}

/// The address column of the first matching line, if any line matches.
pub open spec fn lease_lookup(lines: Seq<Seq<char>>, host: Seq<char>) -> Option<Seq<char>>
    decreases lines.len(),
{
    if lines.len() == 0 {
        Option::None
    } else if line_matches(lines[0], host) {
        Some(ws_tokens(lines[0])[2])
    } else {
        lease_lookup(lines.skip(1), host)
    }
}

fn scan_nonspace(s: &str, from: usize) -> (r: usize)
    requires
        from <= s@.len(),
    ensures
        r == nonspace_pos(s@, from as int),
        from <= r <= s@.len(),
{
    let n = s.unicode_len();
    let mut j = from;
    while j < n
        invariant
            from <= j <= n,
            n == s@.len(),
            nonspace_pos(s@, from as int) == nonspace_pos(s@, j as int),
        decreases n - j,
    {
        let u = s.get_char(j) as u32;
        if !(u == 32 || (9 <= u && u <= 13)) {
            return j;
        }
        j = j + 1;
    }
    j
}

fn scan_space(s: &str, from: usize) -> (r: usize)
    requires
        from <= s@.len(),
    ensures
        r == space_pos(s@, from as int),
        from <= r <= s@.len(),
{
    let n = s.unicode_len();
    let mut j = from;
    while j < n
        invariant
            from <= j <= n,
            n == s@.len(),
            space_pos(s@, from as int) == space_pos(s@, j as int),
        decreases n - j,
    {
        let u = s.get_char(j) as u32;
        if u == 32 || (9 <= u && u <= 13) {
            return j;
        }
        j = j + 1;
    }
    j
}

/// Splits `s` into its whitespace-separated columns, as
/// `str::split_whitespace` does.
pub fn split_whitespace(s: &str) -> (r: Vec<String>)
    ensures
        r.deep_view() == ws_tokens(s@),
{
    let n = s.unicode_len();
    let mut out: Vec<String> = Vec::new();
    let mut i: usize = 0;
    proof {
        assert(out.deep_view() =~= Seq::<Seq<char>>::empty());
    }
    while i < n
        invariant
            i <= n,
            n == s@.len(),
            out.deep_view() + ws_tokens_from(s@, i as int) =~= ws_tokens(s@),
        decreases n - i,
    {
        let a = scan_nonspace(s, i);
        proof {
            lemma_nonspace_pos(s@, i as int);
        }
        if a == n {
            proof {
                assert(ws_tokens_from(s@, i as int) =~= Seq::<Seq<char>>::empty());
            }
            i = n;
        } else {
            let b = scan_space(s, a);
            proof {
                lemma_space_pos(s@, a as int);
            }
            let piece = s.substring_char(a, b).to_owned();
            let ghost prev = out.deep_view();
            out.push(piece);
            proof {
                assert(out.deep_view() =~= prev.push(s@.subrange(a as int, b as int)));
                assert(ws_tokens_from(s@, i as int) == seq![s@.subrange(a as int, b as int)]
                    + ws_tokens_from(s@, b as int));
                assert(prev + (seq![s@.subrange(a as int, b as int)] + ws_tokens_from(
                    s@,
                    b as int,
                )) =~= out.deep_view() + ws_tokens_from(s@, b as int));
            }
            i = b;
        }
    }
    proof {
        assert(ws_tokens_from(s@, n as int) =~= Seq::<Seq<char>>::empty());
    }
    out
}

/// Compares two strings for equality up to ASCII case, as
/// `str::eq_ignore_ascii_case` does.
pub fn eq_ignore_case(a: &str, b: &str) -> (r: bool)
    ensures
        r == ci_equal(a@, b@),
{
    let an = a.unicode_len();
    let bn = b.unicode_len();
    if an != bn {
        return false;
    }
    let mut i: usize = 0;
    while i < an
        invariant
            i <= an,
            an == a@.len(),
            an == b@.len(),
            forall|k: int| 0 <= k < i ==> lower_code(a@[k]) == lower_code(b@[k]),
        decreases an - i,
    {
        let mut x = a.get_char(i) as u32;
        let mut y = b.get_char(i) as u32;
        if 65 <= x && x <= 90 {
            x = x + 32;
        }
        if 65 <= y && y <= 90 {
            y = y + 32;
        }
        if x != y {
            return false;
        }
        i = i + 1;
    }
    true
}

/// Finds the address of `hostname` in the lease lines: the third column
/// of the first line whose fourth column matches it, ignoring ASCII case.
pub fn find_hostname_address(lines: &Vec<String>, hostname: &str) -> (r: Option<String>)
    ensures
        r is Some <==> lease_lookup(lines.deep_view(), hostname@) is Some,
        r matches Some(ip) ==> Some(ip@) == lease_lookup(lines.deep_view(), hostname@),
{
    let n = lines.len();
    let mut i: usize = 0;
    proof {
        assert(lines.deep_view().skip(0) =~= lines.deep_view());
    }
    while i < n
        invariant
            i <= n,
            n == lines@.len(),
            lease_lookup(lines.deep_view(), hostname@) == lease_lookup(
                lines.deep_view().skip(i as int),
                hostname@,
            ),
        decreases n - i,
    {
        let line = &lines[i];
        proof {
            assert(lines.deep_view()[i as int] == lines@[i as int]@);
            assert(lines.deep_view().skip(i as int)[0] == lines.deep_view()[i as int]);
        }
        let columns = split_whitespace(line.as_str());
        if columns.len() >= 4 && eq_ignore_case(columns[3].as_str(), hostname) {
            proof {
                assert(columns.deep_view()[3] == columns@[3]@);
                assert(columns.deep_view()[2] == columns@[2]@);
            }
            return Some(columns[2].clone());
        }
        proof {
            assert(columns.deep_view().len() >= 4 ==> columns.deep_view()[3] == columns@[3]@);
            assert(lines.deep_view().skip(i as int).skip(1) =~= lines.deep_view().skip(i + 1));
        }
        i = i + 1;
    }
    None
}

} // verus!
