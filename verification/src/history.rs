//! The history cross-reference: how the collaborator's answer about one
//! commit is turned into a missing-commit entry or a comment diff, and the
//! pass that applies it to every valid hash line.

use vstd::prelude::*;

use crate::scan::has_key;
use crate::text::{
    comment_text, comment_text_of, find_char, is_prefix, split_first_space, starts_with_str,
    trim_line, trimmed,
};

verus! {

/// One answer of the version control collaborator about one commit: the
/// invocation failed, or it produced this standard output.
#[derive(Debug, Clone)]
pub enum CommitLookup {
    Failed,
    Output(String),
}

/// The mathematical shape of a `CommitLookup`.
pub enum LookupView {
    Failed,
    Output(Seq<char>),
}

impl View for CommitLookup {
    type V = LookupView;

    open spec fn view(&self) -> LookupView {
        match self {
            CommitLookup::Failed => LookupView::Failed,
            CommitLookup::Output(s) => LookupView::Output(s@),
        }
    }
}

impl DeepView for CommitLookup {
    type V = LookupView;

    open spec fn deep_view(&self) -> LookupView {
        self.view()
    }
}

/// The comment text expected for the hash at 1-based line `n`: the single raw
/// line directly above it, its leading `#` characters and white space
/// stripped, or the empty text for the first line.
pub open spec fn comment_for(lines: Seq<Seq<char>>, n: usize) -> Seq<char> {
    if n > 1 {
        comment_text(lines[n - 2])
    } else {
        Seq::empty()
    }
}

/// What the cross-reference records for one valid hash line.
pub enum LookupEffect {
    /// The commit is absent from history (empty or failed answer).
    RecordMissing,
    /// The comment above the line is no prefix of the commit's subject:
    /// record (expected comment, actual subject).
    RecordDiff(Seq<char>, Seq<char>),
    /// Nothing to record.
    RecordNothing,
}

/// How one collaborator answer for the hash at line `n` is classified. A
/// failed invocation or empty output means the commit is missing. Otherwise
/// the answer's trimmed output is split at its first space into the commit's
/// full hash and its subject; an answer without a space records nothing.
/// Under comment-vs-history checking, a subject that does not start with the
/// comment above line `n` records a diff.
pub open spec fn lookup_effect(
    lines: Seq<Seq<char>>,
    n: usize,
    lk: LookupView,
    strict_comments_git: bool,
) -> LookupEffect {
    match lk {
        LookupView::Failed => LookupEffect::RecordMissing,
        LookupView::Output(out) => {
            let t = trimmed(out);
            if t.len() == 0 {
                LookupEffect::RecordMissing
            } else if find_char(t, ' ') >= t.len() {
                LookupEffect::RecordNothing
            } else if strict_comments_git {
                let subject = t.subrange(find_char(t, ' ') + 1, t.len() as int);
                let comment = comment_for(lines, n);
                if !is_prefix(comment, subject) {
                    LookupEffect::RecordDiff(comment, subject)
                } else {
                    LookupEffect::RecordNothing
                }
            } else {
                LookupEffect::RecordNothing
            }
        },
    }
}

/// The missing-commit entries that the first `n` valid hash lines produce.
pub open spec fn missing_upto(
    lines: Seq<Seq<char>>,
    hs: Seq<(usize, Seq<char>)>,
    lks: Seq<LookupView>,
    strict_comments_git: bool,
    n: int,
) -> Seq<(usize, Seq<char>)>
    decreases n,
{
    if n <= 0 {
        Seq::empty()
    } else {
        let prev = missing_upto(lines, hs, lks, strict_comments_git, n - 1);
        if lookup_effect(lines, hs[n - 1].0, lks[n - 1], strict_comments_git)
            is RecordMissing {
            prev.push((hs[n - 1].0, hs[n - 1].1))
        } else {
            prev
        }
    }
}

/// The missing-commit entries of a whole cross-reference pass.
pub open spec fn missing_entries(
    lines: Seq<Seq<char>>,
    hs: Seq<(usize, Seq<char>)>,
    lks: Seq<LookupView>,
    strict_comments_git: bool,
) -> Seq<(usize, Seq<char>)> {
    missing_upto(lines, hs, lks, strict_comments_git, hs.len() as int)
}

/// The comment-diff entries that the first `n` valid hash lines produce.
pub open spec fn diff_upto(
    lines: Seq<Seq<char>>,
    hs: Seq<(usize, Seq<char>)>,
    lks: Seq<LookupView>,
    strict_comments_git: bool,
    n: int,
) -> Seq<(usize, (Seq<char>, Seq<char>))>
    decreases n,
{
    if n <= 0 {
        Seq::empty()
    } else {
        let prev = diff_upto(lines, hs, lks, strict_comments_git, n - 1);
        match lookup_effect(lines, hs[n - 1].0, lks[n - 1], strict_comments_git) {
            LookupEffect::RecordDiff(comment, subject) => {
                prev.push((hs[n - 1].0, (comment, subject)))
            },
            _ => prev,
        }
    }
}

/// The comment-diff entries of a whole cross-reference pass.
pub open spec fn diff_entries(
    lines: Seq<Seq<char>>,
    hs: Seq<(usize, Seq<char>)>,
    lks: Seq<LookupView>,
    strict_comments_git: bool,
) -> Seq<(usize, (Seq<char>, Seq<char>))> {
    diff_upto(lines, hs, lks, strict_comments_git, hs.len() as int)
}

enum LookupOutcome {
    Missing,
    Diff(String, String),
    Nothing,
}

/// Applies `lookup_effect` to one collaborator answer.
fn classify_lookup(
    lines: &Vec<String>,
    line_number: usize,
    lookup: &CommitLookup,
    strict_comments_git: bool,
) -> (r: LookupOutcome)
    requires
        1 <= line_number <= lines@.len(),
    ensures
        match r {
            LookupOutcome::Missing => lookup_effect(
                lines.deep_view(),
                line_number,
                lookup@,
                strict_comments_git,
            ) is RecordMissing,
            LookupOutcome::Diff(c, s) => lookup_effect(
                lines.deep_view(),
                line_number,
                lookup@,
                strict_comments_git,
            ) == LookupEffect::RecordDiff(c@, s@),
            LookupOutcome::Nothing => lookup_effect(
                lines.deep_view(),
                line_number,
                lookup@,
                strict_comments_git,
            ) is RecordNothing,
        },
{
    match lookup {
        CommitLookup::Failed => LookupOutcome::Missing,
        CommitLookup::Output(out) => {
            let t = trim_line(out.as_str());
            if t.unicode_len() == 0 {
                LookupOutcome::Missing
            } else {
                match split_first_space(t) {
                    None => LookupOutcome::Nothing,
                    Some((_hash_part, subject)) => {
                        if strict_comments_git {
                            let comment: &str = if line_number > 1 {
                                comment_text_of(lines[line_number - 2].as_str())
                            } else {
                                ""
                            };
                            proof {
                                if line_number == 1 {
                                    reveal_strlit("");
                                    assert(comment@ =~= Seq::<char>::empty());
                                }
                            }
                            if !starts_with_str(subject, comment) {
                                LookupOutcome::Diff(comment.to_owned(), subject.to_owned())
                            } else {
                                LookupOutcome::Nothing
                            }
                        } else {
                            LookupOutcome::Nothing
                        }
                    },
                }
            }
        },
    }
}

/// Queries' results for every valid hash line, applied in line order: each
/// answer either records the line as a missing commit, records a comment
/// diff, or records nothing, as `lookup_effect` says.
pub fn cross_reference(
    lines: &Vec<String>,
    valid_hashes: &Vec<(usize, String)>,
    lookups: &Vec<CommitLookup>,
    strict_comments_git: bool,
) -> (r: (Vec<(usize, String)>, Vec<(usize, (String, String))>))
    requires
        lookups@.len() == valid_hashes@.len(),
        forall|j: int|
            0 <= j < valid_hashes@.len() ==> 1 <= (#[trigger] valid_hashes@[j]).0 <= lines@.len(),
    ensures
        r.0.deep_view() == missing_entries(
            lines.deep_view(),
            valid_hashes.deep_view(),
            lookups.deep_view(),
            strict_comments_git,
        ),
        r.1.deep_view() == diff_entries(
            lines.deep_view(),
            valid_hashes.deep_view(),
            lookups.deep_view(),
            strict_comments_git,
        ),
{
    let ghost lv = lines.deep_view();
    let ghost hs = valid_hashes.deep_view();
    let ghost lks = lookups.deep_view();
    let mut missing: Vec<(usize, String)> = Vec::new();
    let mut diffs: Vec<(usize, (String, String))> = Vec::new();
    let n: usize = valid_hashes.len();
    let mut i: usize = 0;
    proof {
        assert(missing.deep_view() =~= missing_upto(lv, hs, lks, strict_comments_git, 0));
        assert(diffs.deep_view() =~= diff_upto(lv, hs, lks, strict_comments_git, 0));
    }
    while i < n
        invariant
            i <= n,
            n == valid_hashes@.len(),
            lookups@.len() == valid_hashes@.len(),
            forall|j: int|
                0 <= j < valid_hashes@.len() ==> 1 <= (#[trigger] valid_hashes@[j]).0
                    <= lines@.len(),
            lv == lines.deep_view(),
            hs == valid_hashes.deep_view(),
            lks == lookups.deep_view(),
            missing.deep_view() == missing_upto(lv, hs, lks, strict_comments_git, i as int),
            diffs.deep_view() == diff_upto(lv, hs, lks, strict_comments_git, i as int),
        decreases n - i,
    {
        let line_number: usize = valid_hashes[i].0;
        proof {
            assert(hs[i as int].0 == line_number);
        }
        match classify_lookup(lines, line_number, &lookups[i], strict_comments_git) {
            LookupOutcome::Missing => {
                let hash_text = valid_hashes[i].1.clone();
                let ghost old_dv = missing.deep_view();
                missing.push((line_number, hash_text));
                proof {
                    assert(missing.deep_view() =~= old_dv.push((hs[i as int].0, hs[i as int].1)));
                }
            },
            LookupOutcome::Diff(comment, subject) => {
                let ghost old_dv = diffs.deep_view();
                diffs.push((line_number, (comment, subject)));
                proof {
                    assert(diffs.deep_view() =~= old_dv.push(
                        (hs[i as int].0, (comment@, subject@)),
                    ));
                }
            },
            LookupOutcome::Nothing => {},
        }
        i = i + 1;
    }
    (missing, diffs)
}

/// Whatever the collaborator answered, the missing-commit bucket's keys all
/// come from the valid-hash bucket.
pub proof fn lemma_missing_subset_of_hashes(
    lines: Seq<Seq<char>>,
    hs: Seq<(usize, Seq<char>)>,
    lks: Seq<LookupView>,
    strict_comments_git: bool,
)
    ensures
        forall|m: usize| #[trigger]
            has_key(missing_entries(lines, hs, lks, strict_comments_git), m)
                ==> has_key(hs, m),
{
    lemma_missing_upto_subset(lines, hs, lks, strict_comments_git, hs.len() as int);
}

proof fn lemma_missing_upto_subset(
    lines: Seq<Seq<char>>,
    hs: Seq<(usize, Seq<char>)>,
    lks: Seq<LookupView>,
    strict_comments_git: bool,
    n: int,
)
    requires
        n <= hs.len(),
    ensures
        forall|m: usize| #[trigger]
            has_key(missing_upto(lines, hs, lks, strict_comments_git, n), m)
                ==> has_key(hs, m),
    decreases n,
{
    if n > 0 {
        lemma_missing_upto_subset(lines, hs, lks, strict_comments_git, n - 1);
        let prev = missing_upto(lines, hs, lks, strict_comments_git, n - 1);
        let cur = missing_upto(lines, hs, lks, strict_comments_git, n);
        assert forall|m: usize| #[trigger]
            has_key(cur, m) implies has_key(hs, m) by {
            let i = choose|i: int| 0 <= i < cur.len() && cur[i].0 == m;
            if i < prev.len() {
                assert(cur[i] == prev[i]);
                assert(has_key(prev, m));
            } else {
                assert(cur[i] == (hs[n - 1].0, hs[n - 1].1));
                assert(hs[n - 1].0 == m);
            }
        }
    }
}

/// Comment diffs carry only line numbers of the valid-hash bucket, and none
/// at all unless comment-vs-history checking is active.
pub proof fn lemma_diffs_subset_of_hashes(
    lines: Seq<Seq<char>>,
    hs: Seq<(usize, Seq<char>)>,
    lks: Seq<LookupView>,
    strict_comments_git: bool,
)
    ensures
        forall|m: usize| #[trigger]
            has_key(diff_entries(lines, hs, lks, strict_comments_git), m)
                ==> has_key(hs, m),
        !strict_comments_git ==> diff_entries(lines, hs, lks, strict_comments_git)
            == Seq::<(usize, (Seq<char>, Seq<char>))>::empty(),
{
    lemma_diff_upto_subset(lines, hs, lks, strict_comments_git, hs.len() as int);
}

proof fn lemma_diff_upto_subset(
    lines: Seq<Seq<char>>,
    hs: Seq<(usize, Seq<char>)>,
    lks: Seq<LookupView>,
    strict_comments_git: bool,
    n: int,
)
    requires
        n <= hs.len(),
    ensures
        forall|m: usize| #[trigger]
            has_key(diff_upto(lines, hs, lks, strict_comments_git, n), m)
                ==> has_key(hs, m),
        !strict_comments_git ==> diff_upto(lines, hs, lks, strict_comments_git, n)
            == Seq::<(usize, (Seq<char>, Seq<char>))>::empty(),
    decreases n,
{
    if n > 0 {
        lemma_diff_upto_subset(lines, hs, lks, strict_comments_git, n - 1);
        let prev = diff_upto(lines, hs, lks, strict_comments_git, n - 1);
        let cur = diff_upto(lines, hs, lks, strict_comments_git, n);
        assert forall|m: usize| #[trigger]
            has_key(cur, m) implies has_key(hs, m) by {
            let i = choose|i: int| 0 <= i < cur.len() && cur[i].0 == m;
            if i < prev.len() {
                assert(cur[i] == prev[i]);
                assert(has_key(prev, m));
            } else {
                assert(cur[i].0 == hs[n - 1].0);
            }
        }
    }
}

} // verus!
