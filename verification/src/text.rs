//! Character-level text primitives: trimming, searching, splitting a file
//! into lines. Every executable function is verified against a recursive
//! specification over the string's view, a `Seq<char>`.

use vstd::prelude::*;

verus! {

/// The Unicode white-space code points, the characters that `str::trim`
/// removes from the ends of a line.
pub open spec fn is_ws(c: char) -> bool {
    let u = c as u32;
    u == 0x09 || u == 0x0a || u == 0x0b || u == 0x0c || u == 0x0d || u == 0x20 || u == 0x85
        || u == 0xa0 || u == 0x1680 || (0x2000 <= u && u <= 0x200a) || u == 0x2028 || u == 0x2029
        || u == 0x202f || u == 0x205f || u == 0x3000
}

/// Decides `is_ws`.
pub fn ws_char(c: char) -> (r: bool)
    ensures
        r == is_ws(c),
{
    let u: u32 = c as u32;
    u == 0x09 || u == 0x0a || u == 0x0b || u == 0x0c || u == 0x0d || u == 0x20 || u == 0x85
        || u == 0xa0 || u == 0x1680 || (0x2000 <= u && u <= 0x200a) || u == 0x2028 || u == 0x2029
        || u == 0x202f || u == 0x205f || u == 0x3000
}

/// A lowercase hexadecimal digit.
pub open spec fn is_hex_lower(c: char) -> bool {
    let u = c as u32;
    (0x30 <= u && u <= 0x39) || (0x61 <= u && u <= 0x66)
}

/// `s` with its leading white space removed.
pub open spec fn trim_front(s: Seq<char>) -> Seq<char>
    decreases s.len(),
{
    if s.len() > 0 && is_ws(s[0]) {
        trim_front(s.subrange(1, s.len() as int))
    } else {
        s
    }
}

/// `s` with its trailing white space removed.
pub open spec fn trim_back(s: Seq<char>) -> Seq<char>
    decreases s.len(),
{
    if s.len() > 0 && is_ws(s[s.len() - 1]) {
        trim_back(s.subrange(0, s.len() - 1))
    } else {
        s
    }
}

/// `s` with white space removed from both ends: what `str::trim` returns.
pub open spec fn trimmed(s: Seq<char>) -> Seq<char> {
    trim_back(trim_front(s))
}

/// Skipping a white-space prefix does not change `trim_front`.
proof fn lemma_trim_front_skip(s: Seq<char>, i: int)
    requires
        0 <= i <= s.len(),
        forall|k: int| 0 <= k < i ==> is_ws(s[k]),
    ensures
        trim_front(s) == trim_front(s.subrange(i, s.len() as int)),
    decreases i,
{
    if i > 0 {
        let t = s.subrange(1, s.len() as int);
        lemma_trim_front_skip(t, i - 1);
        assert(t.subrange(i - 1, t.len() as int) =~= s.subrange(i, s.len() as int));
    } else {
        assert(s.subrange(0, s.len() as int) =~= s);
    }
}

/// Dropping a white-space suffix does not change `trim_back`.
proof fn lemma_trim_back_skip(s: Seq<char>, m: int)
    requires
        0 <= m <= s.len(),
        forall|k: int| m <= k < s.len() ==> is_ws(s[k]),
    ensures
        trim_back(s) == trim_back(s.subrange(0, m)),
    decreases s.len() - m,
{
    if m < s.len() {
        let t = s.subrange(0, s.len() - 1);
        lemma_trim_back_skip(t, m);
        assert(t.subrange(0, m) =~= s.subrange(0, m));
    } else {
        assert(s.subrange(0, s.len() as int) =~= s);
    }
}

/// `s` without its leading `#` characters: what `str::trim_start_matches('#')`
/// returns.
pub open spec fn drop_hashes(s: Seq<char>) -> Seq<char>
    decreases s.len(),
{
    if s.len() > 0 && s[0] == '#' {
        drop_hashes(s.subrange(1, s.len() as int))
    } else {
        s
    }
}

/// The text of a comment line: everything after the leading `#` characters,
/// trimmed of white space.
pub open spec fn comment_text(l: Seq<char>) -> Seq<char> {
    trimmed(drop_hashes(l))
}

/// Skipping a `#` prefix does not change `drop_hashes`.
proof fn lemma_drop_hashes_skip(s: Seq<char>, i: int)
    requires
        0 <= i <= s.len(),
        forall|k: int| 0 <= k < i ==> s[k] == '#',
    ensures
        drop_hashes(s) == drop_hashes(s.subrange(i, s.len() as int)),
    decreases i,
{
    if i > 0 {
        let t = s.subrange(1, s.len() as int);
        lemma_drop_hashes_skip(t, i - 1);
        assert(t.subrange(i - 1, t.len() as int) =~= s.subrange(i, s.len() as int));
    } else {
        assert(s.subrange(0, s.len() as int) =~= s);
    }
}

/// `str::trim_start_matches('#')` followed by `str::trim`, verified against
/// `comment_text`.
pub fn comment_text_of<'a>(l: &'a str) -> (r: &'a str)
    ensures
        r@ == comment_text(l@),
{
    let n: usize = l.unicode_len();
    let mut i: usize = 0;
    while i < n && l.get_char(i) == '#'
        invariant
            i <= n,
            n == l@.len(),
            forall|k: int| 0 <= k < i ==> l@[k] == '#',
        decreases n - i,
    {
        i = i + 1;
    }
    proof {
        lemma_drop_hashes_skip(l@, i as int);
        assert(drop_hashes(l@.subrange(i as int, n as int)) =~= l@.subrange(i as int, n as int));
    }
    trim_line(l.substring_char(i, n))
}

/// The index of the first occurrence of `c` in `s`, or `s.len()` if there is
/// none.
pub open spec fn find_char(s: Seq<char>, c: char) -> int
    decreases s.len(),
{
    if s.len() == 0 {
        0
    } else if s[0] == c {
        0
    } else {
        1 + find_char(s.subrange(1, s.len() as int), c)
    }
}

/// `find_char` is the unique index with nothing equal to `c` before it and
/// `c` at it, unless `c` does not occur at all.
pub proof fn lemma_find_char_at(s: Seq<char>, c: char, i: int)
    requires
        0 <= i <= s.len(),
        forall|k: int| 0 <= k < i ==> s[k] != c,
        i < s.len() ==> s[i] == c,
    ensures
        find_char(s, c) == i,
    decreases i,
{
    if s.len() == 0 {
    } else if i == 0 {
    } else {
        let t = s.subrange(1, s.len() as int);
        lemma_find_char_at(t, c, i - 1);
    }
}

/// `find_char` stays within `s` and points at `c` when `c` occurs.
pub proof fn lemma_find_char_bounds(s: Seq<char>, c: char)
    ensures
        0 <= find_char(s, c) <= s.len(),
        find_char(s, c) < s.len() ==> s[find_char(s, c)] == c,
        forall|k: int| 0 <= k < find_char(s, c) ==> s[k] != c,
    decreases s.len(),
{
    if s.len() > 0 && s[0] != c {
        let t = s.subrange(1, s.len() as int);
        lemma_find_char_bounds(t, c);
        assert forall|k: int| 0 <= k < find_char(s, c) implies s[k] != c by {
            if k > 0 {
                assert(t[k - 1] != c);
            }
        }
    }
}

/// `str::splitn(2, ' ')`: the text before the first space and the text after
/// it, or `None` when `s` holds no space.
pub fn split_first_space<'a>(s: &'a str) -> (r: Option<(&'a str, &'a str)>)
    ensures
        r is Some <==> find_char(s@, ' ') < s@.len(),
        match r {
            Some(p) => p.0@ == s@.subrange(0, find_char(s@, ' ')) && p.1@ == s@.subrange(
                find_char(s@, ' ') + 1,
                s@.len() as int,
            ),
            None => true,
        },
{
    let n: usize = s.unicode_len();
    let mut i: usize = 0;
    while i < n && s.get_char(i) != ' '
        invariant
            i <= n,
            n == s@.len(),
            forall|k: int| 0 <= k < i ==> s@[k] != ' ',
        decreases n - i,
    {
        i = i + 1;
    }
    proof {
        lemma_find_char_at(s@, ' ', i as int);
    }
    if i < n {
        Some((s.substring_char(0, i), s.substring_char(i + 1, n)))
    } else {
        None
    }
}

/// `p` is a prefix of `s`.
pub open spec fn is_prefix(p: Seq<char>, s: Seq<char>) -> bool {
    p.len() <= s.len() && s.subrange(0, p.len() as int) == p
}

/// `str::starts_with`, verified against `is_prefix`.
pub fn starts_with_str(s: &str, p: &str) -> (r: bool)
    ensures
        r == is_prefix(p@, s@),
{
    let np: usize = p.unicode_len();
    let ns: usize = s.unicode_len();
    if np > ns {
        proof {
            assert(!is_prefix(p@, s@));
        }
        return false;
    }
    let mut i: usize = 0;
    while i < np
        invariant
            i <= np <= ns,
            np == p@.len(),
            ns == s@.len(),
            forall|k: int| 0 <= k < i ==> s@[k] == p@[k],
        decreases np - i,
    {
        if s.get_char(i) != p.get_char(i) {
            proof {
                assert(s@.subrange(0, np as int)[i as int] != p@[i as int]);
            }
            return false;
        }
        i = i + 1;
    }
    proof {
        assert(s@.subrange(0, np as int) =~= p@);
    }
    true
}

/// Character-for-character equality of two strings.
pub fn str_eq(a: &str, b: &str) -> (r: bool)
    ensures
        r == (a@ == b@),
{
    let na: usize = a.unicode_len();
    let nb: usize = b.unicode_len();
    if na != nb {
        return false;
    }
    let mut i: usize = 0;
    while i < na
        invariant
            i <= na,
            na == a@.len(),
            na == b@.len(),
            forall|k: int| 0 <= k < i ==> a@[k] == b@[k],
        decreases na - i,
    {
        if a.get_char(i) != b.get_char(i) {
            return false;
        }
        i = i + 1;
    }
    proof {
        assert(a@ =~= b@);
    }
    true
}

/// A line as cut out of the file: one carriage return is removed from its
/// end, where the line feed that ended the line followed one.
pub open spec fn strip_cr(l: Seq<char>) -> Seq<char> {
    if l.len() > 0 && l[l.len() - 1] == '\r' {
        l.subrange(0, l.len() - 1)
    } else {
        l
    }
}

/// The lines of a text, as `str::lines` yields them: split at every line
/// feed, a carriage return directly before a line feed removed, and no empty
/// line after a final line feed.
pub open spec fn spec_lines(s: Seq<char>) -> Seq<Seq<char>>
    decreases s.len(),
    via spec_lines_decreases
{
    if s.len() == 0 {
        seq![]
    } else {
        let i = find_char(s, '\n');
        if i >= s.len() {
            seq![s]
        } else {
            seq![strip_cr(s.subrange(0, i))] + spec_lines(s.subrange(i + 1, s.len() as int))
        }
    }
}

#[via_fn]
proof fn spec_lines_decreases(s: Seq<char>) {
    lemma_find_char_bounds(s, '\n');
}

/// Splits a text into its lines, verified against `spec_lines`.
pub fn split_lines(content: &str) -> (r: Vec<String>)
    ensures
        r.deep_view() == spec_lines(content@),
{
    let n: usize = content.unicode_len();
    let mut r: Vec<String> = Vec::new();
    let mut start: usize = 0;
    let mut i: usize = 0;
    proof {
        assert(r.deep_view() =~= Seq::<Seq<char>>::empty());
        assert(content@.subrange(0, n as int) =~= content@);
    }
    while i < n
        invariant
            start <= i <= n,
            n == content@.len(),
            forall|k: int| start <= k < i ==> content@[k] != '\n',
            r.deep_view() + spec_lines(content@.subrange(start as int, n as int)) == spec_lines(
                content@,
            ),
        decreases n - i,
    {
        if content.get_char(i) == '\n' {
            let end: usize = if i > start && content.get_char(i - 1) == '\r' {
                i - 1
            } else {
                i
            };
            let seg = content.substring_char(start, end);
            let ghost old_dv = r.deep_view();
            r.push(seg.to_owned());
            proof {
                let whole = content@.subrange(start as int, n as int);
                assert(forall|k: int| 0 <= k < i - start ==> whole[k] != '\n');
                lemma_find_char_at(whole, '\n', i - start);
                assert(whole.subrange(0, i - start) =~= content@.subrange(start as int, i as int));
                assert(strip_cr(content@.subrange(start as int, i as int)) =~= content@.subrange(
                    start as int,
                    end as int,
                ));
                assert(whole.subrange(i - start + 1, whole.len() as int) =~= content@.subrange(
                    i + 1,
                    n as int,
                ));
                assert(r.deep_view() =~= old_dv.push(content@.subrange(start as int, end as int)));
                assert(r.deep_view() + spec_lines(content@.subrange(i + 1, n as int)) =~= old_dv
                    + spec_lines(whole));
            }
            start = i + 1;
        }
        i = i + 1;
    }
    let ghost whole = content@.subrange(start as int, n as int);
    proof {
        lemma_find_char_at(whole, '\n', n - start);
    }
    if start < n {
        let seg = content.substring_char(start, n);
        let ghost old_dv = r.deep_view();
        r.push(seg.to_owned());
        proof {
            assert(spec_lines(whole) =~= seq![whole]);
            assert(r.deep_view() =~= old_dv.push(whole));
            assert(r.deep_view() =~= old_dv + spec_lines(whole));
        }
    } else {
        proof {
            assert(whole.len() == 0);
            assert(r.deep_view() + spec_lines(whole) =~= r.deep_view());
        }
    }
    r
}

/// `str::trim`, verified against `trimmed`.
pub fn trim_line<'a>(s: &'a str) -> (r: &'a str)
    ensures
        r@ == trimmed(s@),
{
    let n: usize = s.unicode_len();
    let mut i: usize = 0;
    while i < n && ws_char(s.get_char(i))
        invariant
            i <= n,
            n == s@.len(),
            forall|k: int| 0 <= k < i ==> is_ws(s@[k]),
        decreases n - i,
    {
        i = i + 1;
    }
    proof {
        lemma_trim_front_skip(s@, i as int);
        assert(trim_front(s@.subrange(i as int, n as int)) =~= s@.subrange(i as int, n as int));
    }
    let mut j: usize = n;
    while j > i && ws_char(s.get_char(j - 1))
        invariant
            i <= j <= n,
            n == s@.len(),
            forall|k: int| j <= k < n ==> is_ws(s@[k]),
        decreases j,
    {
        j = j - 1;
    }
    proof {
        let f = s@.subrange(i as int, n as int);
        assert(forall|k: int|
            j - i <= k < f.len() ==> is_ws(#[trigger] f[k]) == is_ws(s@[k + i as int]));
        lemma_trim_back_skip(f, j - i);
        assert(f.subrange(0, j - i) =~= s@.subrange(i as int, j as int));
        assert(trim_back(s@.subrange(i as int, j as int)) =~= s@.subrange(i as int, j as int));
    }
    s.substring_char(i, j)
}

} // verus!
