//! The line scanner: classifies every line of a blame-ignore file as blank,
//! comment, valid commit hash or malformed text, and tracks whether a hash
//! line has a comment directly above it.

use vstd::prelude::*;

use crate::text::{is_hex_lower, trim_line, trimmed};

verus! {

/// A line whose trimmed content is empty.
pub open spec fn line_is_blank(l: Seq<char>) -> bool {
    trimmed(l).len() == 0
}

/// A line whose trimmed content starts with `#`.
pub open spec fn line_is_comment(l: Seq<char>) -> bool {
    trimmed(l).len() > 0 && trimmed(l)[0] == '#'
}

/// Exactly forty lowercase hexadecimal characters: a full commit hash.
pub open spec fn is_hash_text(t: Seq<char>) -> bool {
    t.len() == 40 && (forall|k: int| 0 <= k < t.len() ==> is_hex_lower(#[trigger] t[k]))
}

/// A line whose trimmed content is a full commit hash. Such a line is neither
/// blank nor a comment, since `#` is not a hexadecimal digit.
pub open spec fn line_is_hash(l: Seq<char>) -> bool {
    is_hash_text(trimmed(l))
}

/// A non-blank, non-comment line that is no commit hash.
pub open spec fn line_is_error(l: Seq<char>) -> bool {
    !line_is_blank(l) && !line_is_comment(l) && !line_is_hash(l)
}

/// Whether the line at 0-based index `i` has a comment run directly above
/// it: looking upwards and skipping blank lines, the first line met is a
/// comment.
pub open spec fn comment_above(lines: Seq<Seq<char>>, i: int) -> bool
    decreases i,
{
    if i <= 0 {
        false
    } else if line_is_comment(lines[i - 1]) {
        true
    } else if line_is_blank(lines[i - 1]) {
        comment_above(lines, i - 1)
    } else {
        false
    }
}

/// The `(line number, trimmed text)` pairs of the hash lines among the first
/// `n` lines, in line order. Line numbers are 1-based.
pub open spec fn hash_entries_upto(lines: Seq<Seq<char>>, n: int) -> Seq<(usize, Seq<char>)>
    decreases n,
{
    if n <= 0 {
        Seq::empty()
    } else if line_is_hash(lines[n - 1]) {
        hash_entries_upto(lines, n - 1).push((n as usize, trimmed(lines[n - 1])))
    } else {
        hash_entries_upto(lines, n - 1)
    }
}

/// The `(line number, trimmed text)` pairs of all hash lines.
pub open spec fn hash_entries(lines: Seq<Seq<char>>) -> Seq<(usize, Seq<char>)> {
    hash_entries_upto(lines, lines.len() as int)
}

/// The `(line number, trimmed text)` pairs of the malformed lines among the
/// first `n` lines, in line order.
pub open spec fn error_entries_upto(lines: Seq<Seq<char>>, n: int) -> Seq<(usize, Seq<char>)>
    decreases n,
{
    if n <= 0 {
        Seq::empty()
    } else if line_is_error(lines[n - 1]) {
        error_entries_upto(lines, n - 1).push((n as usize, trimmed(lines[n - 1])))
    } else {
        error_entries_upto(lines, n - 1)
    }
}

/// The `(line number, trimmed text)` pairs of all malformed lines.
pub open spec fn error_entries(lines: Seq<Seq<char>>) -> Seq<(usize, Seq<char>)> {
    error_entries_upto(lines, lines.len() as int)
}

/// The `(line number, trimmed text)` pairs of the hash lines among the first
/// `n` lines that have no comment run directly above them.
pub open spec fn strict_entries_upto(lines: Seq<Seq<char>>, n: int) -> Seq<(usize, Seq<char>)>
    decreases n,
{
    if n <= 0 {
        Seq::empty()
    } else if line_is_hash(lines[n - 1]) && !comment_above(lines, n - 1) {
        strict_entries_upto(lines, n - 1).push((n as usize, trimmed(lines[n - 1])))
    } else {
        strict_entries_upto(lines, n - 1)
    }
}

/// The `(line number, trimmed text)` pairs of all hash lines lacking a
/// comment directly above.
pub open spec fn strict_entries(lines: Seq<Seq<char>>) -> Seq<(usize, Seq<char>)> {
    strict_entries_upto(lines, lines.len() as int)
}

/// `n` occurs as a line number among the entries `s`.
pub open spec fn has_key<V>(s: Seq<(usize, V)>, n: usize) -> bool {
    exists|i: int| 0 <= i < s.len() && s[i].0 == n
}

proof fn lemma_hash_entries_upto_facts(lines: Seq<Seq<char>>, n: int)
    requires
        0 <= n <= lines.len(),
        n <= usize::MAX,
    ensures
        forall|j: int| #![trigger hash_entries_upto(lines, n)[j]]
            0 <= j < hash_entries_upto(lines, n).len() ==> 1 <= hash_entries_upto(lines, n)[j].0
                <= n && line_is_hash(lines[hash_entries_upto(lines, n)[j].0 - 1])
                && hash_entries_upto(lines, n)[j].1 == trimmed(
                lines[hash_entries_upto(lines, n)[j].0 - 1],
            ),
        forall|m: usize|
            1 <= m <= n && line_is_hash(lines[m - 1]) ==> has_key(hash_entries_upto(lines, n), m),
        forall|j1: int, j2: int|
            0 <= j1 < j2 < hash_entries_upto(lines, n).len() ==> #[trigger] hash_entries_upto(
                lines,
                n,
            )[j1].0 < #[trigger] hash_entries_upto(lines, n)[j2].0,
    decreases n,
{
    if n > 0 {
        lemma_hash_entries_upto_facts(lines, n - 1);
        let prev = hash_entries_upto(lines, n - 1);
        let cur = hash_entries_upto(lines, n);
        let pushed = line_is_hash(lines[n - 1]);
        assert forall|j: int|
            0 <= j < cur.len() implies 1 <= #[trigger] cur[j].0 <= n && line_is_hash(
            lines[cur[j].0 - 1],
        ) && cur[j].1 == trimmed(lines[cur[j].0 - 1]) by {
            if pushed && j == cur.len() - 1 {
                assert(cur[j] == (n as usize, trimmed(lines[n - 1])));
            } else {
                assert(cur[j] == prev[j]);
            }
        }
        assert forall|m: usize|
            1 <= m <= n && line_is_hash(lines[m - 1]) implies has_key(cur, m) by {
            if m < n {
                assert(has_key(prev, m));
                let i = choose|i: int| 0 <= i < prev.len() && prev[i].0 == m;
                assert(cur[i].0 == m);
            } else {
                assert(pushed);
                assert(cur[cur.len() - 1].0 == m);
            }
        }
        assert forall|j1: int, j2: int|
            0 <= j1 < j2 < cur.len() implies #[trigger] cur[j1].0 < #[trigger] cur[j2].0 by {
            if pushed && j2 == cur.len() - 1 {
                assert(cur[j1] == prev[j1]);
                assert(prev[j1].0 <= n - 1);
                assert(cur[j2].0 == n);
            } else {
                assert(cur[j1] == prev[j1]);
                assert(cur[j2] == prev[j2]);
            }
        }
    }
}

proof fn lemma_error_entries_upto_facts(lines: Seq<Seq<char>>, n: int)
    requires
        0 <= n <= lines.len(),
        n <= usize::MAX,
    ensures
        forall|j: int| #![trigger error_entries_upto(lines, n)[j]]
            0 <= j < error_entries_upto(lines, n).len() ==> 1 <= error_entries_upto(lines, n)[j].0
                <= n && line_is_error(lines[error_entries_upto(lines, n)[j].0 - 1])
                && error_entries_upto(lines, n)[j].1 == trimmed(
                lines[error_entries_upto(lines, n)[j].0 - 1],
            ),
        forall|m: usize|
            1 <= m <= n && line_is_error(lines[m - 1]) ==> has_key(error_entries_upto(lines, n), m),
    decreases n,
{
    if n > 0 {
        lemma_error_entries_upto_facts(lines, n - 1);
        let prev = error_entries_upto(lines, n - 1);
        let cur = error_entries_upto(lines, n);
        let pushed = line_is_error(lines[n - 1]);
        assert forall|j: int|
            0 <= j < cur.len() implies 1 <= #[trigger] cur[j].0 <= n && line_is_error(
            lines[cur[j].0 - 1],
        ) && cur[j].1 == trimmed(lines[cur[j].0 - 1]) by {
            if pushed && j == cur.len() - 1 {
                assert(cur[j] == (n as usize, trimmed(lines[n - 1])));
            } else {
                assert(cur[j] == prev[j]);
            }
        }
        assert forall|m: usize|
            1 <= m <= n && line_is_error(lines[m - 1]) implies has_key(cur, m) by {
            if m < n {
                assert(has_key(prev, m));
                let i = choose|i: int| 0 <= i < prev.len() && prev[i].0 == m;
                assert(cur[i].0 == m);
            } else {
                assert(pushed);
                assert(cur[cur.len() - 1].0 == m);
            }
        }
    }
}

proof fn lemma_strict_entries_upto_facts(lines: Seq<Seq<char>>, n: int)
    requires
        0 <= n <= lines.len(),
        n <= usize::MAX,
    ensures
        forall|j: int| #![trigger strict_entries_upto(lines, n)[j]]
            0 <= j < strict_entries_upto(lines, n).len() ==> 1 <= strict_entries_upto(lines, n)[j].0
                <= n && line_is_hash(lines[strict_entries_upto(lines, n)[j].0 - 1])
                && !comment_above(lines, strict_entries_upto(lines, n)[j].0 - 1)
                && strict_entries_upto(lines, n)[j].1 == trimmed(
                lines[strict_entries_upto(lines, n)[j].0 - 1],
            ),
    decreases n,
{
    if n > 0 {
        lemma_strict_entries_upto_facts(lines, n - 1);
        let prev = strict_entries_upto(lines, n - 1);
        let cur = strict_entries_upto(lines, n);
        let pushed = line_is_hash(lines[n - 1]) && !comment_above(lines, n - 1);
        assert forall|j: int|
            0 <= j < cur.len() implies 1 <= #[trigger] cur[j].0 <= n && line_is_hash(
            lines[cur[j].0 - 1],
        ) && !comment_above(lines, cur[j].0 - 1) && cur[j].1 == trimmed(
            lines[cur[j].0 - 1],
        ) by {
            if pushed && j == cur.len() - 1 {
                assert(cur[j] == (n as usize, trimmed(lines[n - 1])));
            } else {
                assert(cur[j] == prev[j]);
            }
        }
    }
}

/// Every line number is classified into exactly one of the valid-hash and
/// malformed buckets, or into neither when the line is blank or a comment.
pub proof fn lemma_line_classification(lines: Seq<Seq<char>>, n: usize)
    requires
        1 <= n <= lines.len(),
        lines.len() <= usize::MAX,
    ensures
        has_key(hash_entries(lines), n) <==> line_is_hash(lines[n - 1]),
        has_key(error_entries(lines), n) <==> line_is_error(lines[n - 1]),
        !(has_key(hash_entries(lines), n) && has_key(error_entries(lines), n)),
        line_is_blank(lines[n - 1]) || line_is_comment(lines[n - 1]) ==> !has_key(
            hash_entries(lines),
            n,
        ) && !has_key(error_entries(lines), n),
{
    lemma_hash_entries_upto_facts(lines, lines.len() as int);
    lemma_error_entries_upto_facts(lines, lines.len() as int);
    if has_key(hash_entries(lines), n) {
        let i = choose|i: int|
            0 <= i < hash_entries(lines).len() && hash_entries(lines)[i].0 == n;
        assert(line_is_hash(lines[hash_entries(lines)[i].0 - 1]));
    }
    if has_key(error_entries(lines), n) {
        let i = choose|i: int|
            0 <= i < error_entries(lines).len() && error_entries(lines)[i].0 == n;
        assert(line_is_error(lines[error_entries(lines)[i].0 - 1]));
    }
}

/// A line's number stands in the valid-hash bucket exactly when its trimmed
/// content is forty lowercase hexadecimal characters; the recorded text is
/// that trimmed content, and the entries come in strictly increasing line
/// order, so no line is recorded twice.
pub proof fn lemma_valid_hashes_exact(lines: Seq<Seq<char>>, n: usize)
    requires
        1 <= n <= lines.len(),
        lines.len() <= usize::MAX,
    ensures
        has_key(hash_entries(lines), n) <==> is_hash_text(trimmed(lines[n - 1])),
        forall|j: int| #![trigger hash_entries(lines)[j]]
            0 <= j < hash_entries(lines).len() ==> 1 <= hash_entries(lines)[j].0 <= lines.len()
                && hash_entries(lines)[j].1 == trimmed(lines[hash_entries(lines)[j].0 - 1]),
        forall|j1: int, j2: int|
            0 <= j1 < j2 < hash_entries(lines).len() ==> #[trigger] hash_entries(lines)[j1].0
                < #[trigger] hash_entries(lines)[j2].0,
{
    lemma_line_classification(lines, n);
    lemma_hash_entries_upto_facts(lines, lines.len() as int);
}

/// The line numbers recorded by the valid-hash bucket all lie within the
/// file.
pub proof fn lemma_hash_entries_bounds(lines: Seq<Seq<char>>)
    requires
        lines.len() <= usize::MAX,
    ensures
        forall|j: int| #![trigger hash_entries(lines)[j]]
            0 <= j < hash_entries(lines).len() ==> 1 <= hash_entries(lines)[j].0 <= lines.len(),
{
    lemma_hash_entries_upto_facts(lines, lines.len() as int);
}

/// Strict comment checking records only line numbers that the valid-hash
/// bucket already holds: hash lines lacking a comment directly above.
pub proof fn lemma_strict_subset_of_hashes(lines: Seq<Seq<char>>)
    requires
        lines.len() <= usize::MAX,
    ensures
        forall|n: usize| #[trigger]
            has_key(strict_entries(lines), n) ==> has_key(hash_entries(lines), n),
        forall|j: int| #![trigger strict_entries(lines)[j]]
            0 <= j < strict_entries(lines).len() ==> 1 <= strict_entries(lines)[j].0 <= lines.len()
                && line_is_hash(lines[strict_entries(lines)[j].0 - 1]) && !comment_above(
                lines,
                strict_entries(lines)[j].0 - 1,
            ),
{
    lemma_strict_entries_upto_facts(lines, lines.len() as int);
    lemma_hash_entries_upto_facts(lines, lines.len() as int);
    assert forall|n: usize| #[trigger]
        has_key(strict_entries(lines), n) implies has_key(hash_entries(lines), n) by {
        let i = choose|i: int|
            0 <= i < strict_entries(lines).len() && strict_entries(lines)[i].0 == n;
        assert(line_is_hash(lines[strict_entries(lines)[i].0 - 1]));
    }
}

/// Decides `is_hash_text` on the view of `t`.
pub fn is_hash_str(t: &str) -> (r: bool)
    ensures
        r == is_hash_text(t@),
{
    let n: usize = t.unicode_len();
    if n != 40 {
        return false;
    }
    let mut k: usize = 0;
    while k < 40
        invariant
            k <= 40,
            t@.len() == 40,
            forall|m: int| 0 <= m < k ==> is_hex_lower(#[trigger] t@[m]),
        decreases 40 - k,
    {
        let u: u32 = t.get_char(k) as u32;
        if !((0x30 <= u && u <= 0x39) || (0x61 <= u && u <= 0x66)) {
            proof {
                assert(!is_hex_lower(t@[k as int]));
            }
            return false;
        }
        k = k + 1;
    }
    true
}

/// What one pass over the file produces: the classification buckets that do
/// not depend on the version control history.
pub struct ScanReport {
    /// Line number to trimmed hash text, for every line that is a full
    /// commit hash.
    pub valid_hashes: Vec<(usize, String)>,
    /// Line number to trimmed text, for every malformed line.
    pub errors: Vec<(usize, String)>,
    /// Line number to trimmed hash text, for every hash line lacking a
    /// comment directly above it; filled only under strict comment checking.
    pub strict_comment_errors: Vec<(usize, String)>,
}

/// Scans the lines of a blame-ignore file in order and classifies each one.
/// Blank lines are skipped; comment lines only mark that a comment stands
/// above the following hash line; every other line is recorded as a valid
/// hash or as malformed. Under `strict_comments`, a hash line with no
/// comment run directly above it is recorded a second time.
pub fn scan_lines(lines: &Vec<String>, strict_comments: bool) -> (r: ScanReport)
    ensures
        r.valid_hashes.deep_view() == hash_entries(lines.deep_view()),
        r.errors.deep_view() == error_entries(lines.deep_view()),
        r.strict_comment_errors.deep_view() == if strict_comments {
            strict_entries(lines.deep_view())
        } else {
            Seq::<(usize, Seq<char>)>::empty()
        },
{
    let ghost lv = lines.deep_view();
    let n: usize = lines.len();
    let mut valid_hashes: Vec<(usize, String)> = Vec::new();
    let mut errors: Vec<(usize, String)> = Vec::new();
    let mut strict_comment_errors: Vec<(usize, String)> = Vec::new();
    let mut has_comment_above = false;
    let mut i: usize = 0;
    proof {
        assert(valid_hashes.deep_view() =~= hash_entries_upto(lv, 0));
        assert(errors.deep_view() =~= error_entries_upto(lv, 0));
        assert(strict_comment_errors.deep_view() =~= strict_entries_upto(lv, 0));
    }
    while i < n
        invariant
            i <= n,
            n == lines@.len(),
            lv == lines.deep_view(),
            valid_hashes.deep_view() == hash_entries_upto(lv, i as int),
            errors.deep_view() == error_entries_upto(lv, i as int),
            strict_comment_errors.deep_view() == if strict_comments {
                strict_entries_upto(lv, i as int)
            } else {
                Seq::<(usize, Seq<char>)>::empty()
            },
            has_comment_above == comment_above(lv, i as int),
        decreases n - i,
    {
        let t = trim_line(lines[i].as_str());
        proof {
            assert(t@ == trimmed(lv[i as int]));
        }
        if t.unicode_len() == 0 {
            // Blank: skipped, the comment flag is kept.
            proof {
                assert(line_is_blank(lv[i as int]));
            }
        } else if t.get_char(0) == '#' {
            // Comment: there is now a comment directly above the next line.
            has_comment_above = true;
            proof {
                assert(line_is_comment(lv[i as int]));
            }
        } else if is_hash_str(t) {
            let ghost old_vh = valid_hashes.deep_view();
            valid_hashes.push((i + 1, t.to_owned()));
            proof {
                assert(line_is_hash(lv[i as int]));
                assert(!line_is_comment(lv[i as int]));
                assert(valid_hashes.deep_view() =~= old_vh.push(
                    ((i + 1) as usize, trimmed(lv[i as int])),
                ));
            }
            if strict_comments && !has_comment_above {
                let ghost old_sce = strict_comment_errors.deep_view();
                strict_comment_errors.push((i + 1, t.to_owned()));
                proof {
                    assert(strict_comment_errors.deep_view() =~= old_sce.push(
                        ((i + 1) as usize, trimmed(lv[i as int])),
                    ));
                }
            }
            has_comment_above = false;
        } else {
            let ghost old_er = errors.deep_view();
            errors.push((i + 1, t.to_owned()));
            proof {
                assert(line_is_error(lv[i as int]));
                assert(errors.deep_view() =~= old_er.push(
                    ((i + 1) as usize, trimmed(lv[i as int])),
                ));
            }
            has_comment_above = false;
        }
        i = i + 1;
    }
    ScanReport { valid_hashes, errors, strict_comment_errors }
}

} // verus!
