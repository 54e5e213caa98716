//! Verified text utilities: splitting a string into separator-delimited
//! fields and into lines.

use vstd::prelude::*;

verus! {

/// The first position at or after `i` holding `c` (`s.len()` when none does).
pub open spec fn sep_pos(s: Seq<char>, c: char, i: int) -> int
    decreases s.len() - i
        when 0 <= i <= s.len()
{
    if i >= s.len() {
        s.len() as int
    } else if s[i] == c {
        i
    } else {
        sep_pos(s, c, i + 1)
    }
}

pub proof fn lemma_sep_pos(s: Seq<char>, c: char, i: int)
    requires
        0 <= i <= s.len(),
    ensures
        i <= sep_pos(s, c, i) <= s.len(),
        forall|k: int| i <= k < sep_pos(s, c, i) ==> s[k] != c,
        sep_pos(s, c, i) < s.len() ==> s[sep_pos(s, c, i)] == c,
    decreases s.len() - i,
{
    if i < s.len() && s[i] != c {
        lemma_sep_pos(s, c, i + 1);
    }
}

/// Scanning may start anywhere inside a separator-free prefix.
pub proof fn lemma_sep_pos_prefix_free(s: Seq<char>, c: char, i: int)
    requires
        0 <= i <= s.len(),
        forall|k: int| 0 <= k < i ==> s[k] != c,
    ensures
        sep_pos(s, c, 0) == sep_pos(s, c, i),
    decreases i,
{
    if i > 0 {
        lemma_sep_pos_prefix_free(s, c, i - 1);
    }
}

/// The fields of `s` delimited by `c`, exactly as `str::split` yields
/// them: an empty string is one empty field, and every separator — leading,
/// trailing or doubled — bounds a field on each side.
pub open spec fn split_by(s: Seq<char>, c: char) -> Seq<Seq<char>>
    decreases s.len(),
    via split_by_decreases
{
    let p = sep_pos(s, c, 0);
    if p == s.len() {
        seq![s]
    } else {
        seq![s.subrange(0, p)] + split_by(s.subrange(p + 1, s.len() as int), c)
    }
}

#[via_fn]
proof fn split_by_decreases(s: Seq<char>, c: char) {
    lemma_sep_pos(s, c, 0);
}

/// A line with a terminating carriage return removed.
pub open spec fn strip_cr(l: Seq<char>) -> Seq<char> {
    if l.len() > 0 && l.last() == '\r' {
        l.drop_last()
    } else {
        l
    }
}

/// The lines of `s`, exactly as `str::lines` yields them: lines end at
/// `\n` or `\r\n`, the final line ending is optional, and a final line
/// without one keeps any bare `\r`.
pub open spec fn spec_lines(s: Seq<char>) -> Seq<Seq<char>>
    decreases s.len(),
    via spec_lines_decreases
{
    if s.len() == 0 {
        Seq::empty()
    } else {
        let p = sep_pos(s, '\n', 0);
        if p == s.len() {
            seq![s]
        } else {
            seq![strip_cr(s.subrange(0, p))] + spec_lines(s.subrange(p + 1, s.len() as int))
        }
    }
}

#[via_fn]
proof fn spec_lines_decreases(s: Seq<char>) {
    if s.len() > 0 {
        lemma_sep_pos(s, '\n', 0);
    }
}

/// ASCII whitespace: space, tab, line feed, vertical tab, form feed,
/// carriage return.  The text formats handled here are ASCII throughout.
pub open spec fn is_space(c: char) -> bool {
    c == ' ' || 9 <= c as int <= 13
}

/// The first position at or after `i` holding something other than
/// whitespace (`s.len()` when none does).
pub open spec fn nonspace_pos(s: Seq<char>, i: int) -> int
    decreases s.len() - i
        when 0 <= i <= s.len()
{
    if i >= s.len() {
        s.len() as int
    } else if !is_space(s[i]) {
        i
    } else {
        nonspace_pos(s, i + 1)
    }
}

/// One past the last position before `i` holding something other than
/// whitespace (`0` when none does).
pub open spec fn nonspace_end(s: Seq<char>, i: int) -> int
    decreases i
        when 0 <= i <= s.len()
{
    if i <= 0 {
        0
    } else if !is_space(s[i - 1]) {
        i
    } else {
        nonspace_end(s, i - 1)
    }
}

pub proof fn lemma_nonspace_pos(s: Seq<char>, i: int)
    requires
        0 <= i <= s.len(),
    ensures
        i <= nonspace_pos(s, i) <= s.len(),
        forall|k: int| i <= k < nonspace_pos(s, i) ==> is_space(s[k]),
        nonspace_pos(s, i) < s.len() ==> !is_space(s[nonspace_pos(s, i)]),
    decreases s.len() - i,
{
    if i < s.len() && is_space(s[i]) {
        lemma_nonspace_pos(s, i + 1);
    }
}

pub proof fn lemma_nonspace_end(s: Seq<char>, i: int)
    requires
        0 <= i <= s.len(),
    ensures
        0 <= nonspace_end(s, i) <= i,
        forall|k: int| nonspace_end(s, i) <= k < i ==> is_space(s[k]),
        nonspace_end(s, i) > 0 ==> !is_space(s[nonspace_end(s, i) - 1]),
    decreases i,
{
    if i > 0 && is_space(s[i - 1]) {
        lemma_nonspace_end(s, i - 1);
    }
}

/// `s` without leading and trailing whitespace.
pub open spec fn spec_trim(s: Seq<char>) -> Seq<char> {
    let a = nonspace_pos(s, 0);
    let b = nonspace_end(s, s.len() as int);
    if a < b {
        s.subrange(a, b)
    } else {
        Seq::empty()
    }
}

fn is_space_char(c: char) -> (r: bool)
    ensures
        r == is_space(c),
{
    let u = c as u32;
    u == 32 || (9 <= u && u <= 13)
}

/// Removes leading and trailing whitespace, as `str::trim` does on the
/// ASCII texts handled here.
pub fn trim_str(s: &str) -> (r: String)
    ensures
        r@ == spec_trim(s@),
{
    let n = s.unicode_len();
    let mut a: usize = 0;
    while a < n
        invariant
            a <= n,
            n == s@.len(),
            nonspace_pos(s@, 0) == nonspace_pos(s@, a as int),
        ensures
            a <= n,
            nonspace_pos(s@, 0) == a as int,
        decreases n - a,
    {
        if !is_space_char(s.get_char(a)) {
            break;
        }
        a = a + 1;
    }
    let mut b: usize = n;
    while b > 0
        invariant
            b <= n,
            n == s@.len(),
            nonspace_end(s@, n as int) == nonspace_end(s@, b as int),
        ensures
            b <= n,
            nonspace_end(s@, n as int) == b as int,
        decreases b,
    {
        if !is_space_char(s.get_char(b - 1)) {
            break;
        }
        b = b - 1;
    }
    if a < b {
        s.substring_char(a, b).to_owned()
    } else {
        proof {
            assert(spec_trim(s@) =~= Seq::<char>::empty());
            reveal_strlit("");
            assert(""@ =~= Seq::<char>::empty());
        }
        "".to_owned()
    }
}

/// Splits `s` at every occurrence of `sep`, as `str::split` does.
pub fn split_char(s: &str, sep: char) -> (r: Vec<String>)
    ensures
        r.deep_view() == split_by(s@, sep),
{
    let n = s.unicode_len();
    let mut out: Vec<String> = Vec::new();
    let mut start: usize = 0;
    let mut j: usize = 0;
    proof {
        assert(s@.skip(0) =~= s@);
        assert(out.deep_view() =~= Seq::<Seq<char>>::empty());
    }
    while j < n
        invariant
            start <= j <= n,
            n == s@.len(),
            forall|k: int| start <= k < j ==> s@[k] != sep,
            out.deep_view() + split_by(s@.skip(start as int), sep) =~= split_by(s@, sep),
        decreases n - j,
    {
        if s.get_char(j) == sep {
            let piece = s.substring_char(start, j).to_owned();
            proof {
                let tail = s@.skip(start as int);
                lemma_sep_pos_prefix_free(tail, sep, j - start);
                assert(tail[j - start] == sep);
                assert(sep_pos(tail, sep, 0) == j - start);
                assert(tail.subrange(0, j - start) =~= s@.subrange(start as int, j as int));
                assert(tail.subrange(j - start + 1, tail.len() as int) =~= s@.skip(j + 1));
                let prev = out.deep_view();
                assert(split_by(tail, sep) == seq![piece@] + split_by(s@.skip(j + 1), sep));
                assert((prev + (seq![piece@] + split_by(s@.skip(j + 1), sep))) =~= (prev.push(
                    piece@,
                ) + split_by(s@.skip(j + 1), sep)));
            }
            let ghost prev = out.deep_view();
            out.push(piece);
            proof {
                assert(out.deep_view() =~= prev.push(s@.subrange(start as int, j as int)));
            }
            start = j + 1;
        }
        j = j + 1;
    }
    let last = s.substring_char(start, n).to_owned();
    proof {
        let tail = s@.skip(start as int);
        lemma_sep_pos_prefix_free(tail, sep, n - start);
        assert(sep_pos(tail, sep, 0) == tail.len());
        assert(split_by(tail, sep) == seq![tail]);
        assert(tail =~= s@.subrange(start as int, n as int));
    }
    let ghost prev = out.deep_view();
    out.push(last);
    proof {
        assert(out.deep_view() =~= prev.push(s@.skip(start as int)));
        assert(prev.push(s@.skip(start as int)) =~= prev + seq![s@.skip(start as int)]);
    }
    out
}

/// Splits `s` into its lines, as `str::lines` does.
pub fn split_lines(s: &str) -> (r: Vec<String>)
    ensures
        r.deep_view() == spec_lines(s@),
{
    let n = s.unicode_len();
    let mut out: Vec<String> = Vec::new();
    let mut start: usize = 0;
    let mut j: usize = 0;
    proof {
        assert(s@.skip(0) =~= s@);
        assert(out.deep_view() =~= Seq::<Seq<char>>::empty());
    }
    while j < n
        invariant
            start <= j <= n,
            n == s@.len(),
            forall|k: int| start <= k < j ==> s@[k] != '\n',
            out.deep_view() + spec_lines(s@.skip(start as int)) =~= spec_lines(s@),
        decreases n - j,
    {
        if s.get_char(j) == '\n' {
            let mut end = j;
            if end > start && s.get_char(end - 1) == '\r' {
                end = end - 1;
            }
            let piece = s.substring_char(start, end).to_owned();
            proof {
                let tail = s@.skip(start as int);
                lemma_sep_pos_prefix_free(tail, '\n', j - start);
                assert(tail[j - start] == '\n');
                assert(sep_pos(tail, '\n', 0) == j - start);
                assert(tail.subrange(0, j - start) =~= s@.subrange(start as int, j as int));
                assert(tail.subrange(j - start + 1, tail.len() as int) =~= s@.skip(j + 1));
                if j > start && s@[j - 1] == '\r' {
                    assert(piece@ =~= s@.subrange(start as int, j as int).drop_last());
                } else {
                    assert(piece@ =~= s@.subrange(start as int, j as int));
                }
                assert(piece@ == strip_cr(s@.subrange(start as int, j as int)));
                assert(spec_lines(tail) == seq![piece@] + spec_lines(s@.skip(j + 1)));
                let prev = out.deep_view();
                assert((prev + (seq![piece@] + spec_lines(s@.skip(j + 1)))) =~= (prev.push(piece@)
                    + spec_lines(s@.skip(j + 1))));
            }
            let ghost prev = out.deep_view();
            out.push(piece);
            proof {
                assert(out.deep_view() =~= prev.push(strip_cr(s@.subrange(start as int, j as int))));
            }
            start = j + 1;
        }
        j = j + 1;
    }
    if start < n {
        let last = s.substring_char(start, n).to_owned();
        proof {
            let tail = s@.skip(start as int);
            lemma_sep_pos_prefix_free(tail, '\n', n - start);
            assert(sep_pos(tail, '\n', 0) == tail.len());
            assert(spec_lines(tail) == seq![tail]);
            assert(tail =~= s@.subrange(start as int, n as int));
        }
        let ghost prev = out.deep_view();
        out.push(last);
        proof {
            assert(out.deep_view() =~= prev.push(s@.skip(start as int)));
            assert(prev.push(s@.skip(start as int)) =~= prev + seq![s@.skip(start as int)]);
        }
    } else {
        proof {
            assert(s@.skip(start as int) =~= Seq::<char>::empty());
            assert(spec_lines(s@.skip(start as int)) =~= Seq::<Seq<char>>::empty());
            assert(out.deep_view() + Seq::<Seq<char>>::empty() =~= out.deep_view());
        }
    }
    out
}

} // verus!
