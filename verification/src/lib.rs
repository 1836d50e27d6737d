//! Validation of `.git-blame-ignore-revs` files.
//!
//! A blame-ignore file is a newline-delimited list of full 40-character
//! lowercase hexadecimal commit hashes, optionally preceded by `#`-comment
//! lines. The library classifies every line of such a file, optionally
//! cross-references each hash against answers obtained from the version
//! control history, optionally enforces a comment-per-commit convention,
//! and optionally audits the file for commits of a designated bot author.
//!
//! All computation here is pure: reading the file and invoking the version
//! control binary are the caller's business. The caller hands over the file's
//! text and the collaborator's answers as plain values, and the library's
//! contracts pin the resulting report down exactly.

pub mod audit;
pub mod history;
pub mod report;
pub mod scan;
pub mod text;

use vstd::prelude::*;

use crate::audit::{
    audit_bot_commits, bot_entries, hash_in_values, key_in, lemma_bot_keys_not_listed,
};
use crate::history::{
    cross_reference, diff_entries, lemma_diffs_subset_of_hashes, lemma_missing_subset_of_hashes,
    missing_entries, CommitLookup, LookupView,
};
use crate::report::{ReportView, ValidationError, ValidationResult};
use crate::scan::{
    error_entries, has_key, hash_entries, lemma_hash_entries_bounds,
    lemma_strict_subset_of_hashes, scan_lines, strict_entries,
};

verus! {

/// The whole validation as a mathematical function of the file's lines and
/// the collaborator's answers. The per-commit answers are given in the order
/// of the valid hash lines; the bot log answer is consulted only under the
/// bot audit, whose failure is the one fatal condition.
pub open spec fn spec_validate(
    lines: Seq<Seq<char>>,
    call_git: bool,
    strict_comments: bool,
    strict_comments_git: bool,
    pre_commit_ci: bool,
    lookups: Seq<LookupView>,
    bot_log: LookupView,
) -> Result<ReportView, ValidationError> {
    if pre_commit_ci && bot_log is Failed {
        Err(ValidationError::BotLookupFailed)
    } else {
        Ok(
            ReportView {
                valid_hashes: hash_entries(lines),
                errors: error_entries(lines),
                missing_commits: if call_git || strict_comments_git {
                    missing_entries(lines, hash_entries(lines), lookups, strict_comments_git)
                } else {
                    Seq::empty()
                },
                strict_comment_errors: if strict_comments {
                    strict_entries(lines)
                } else {
                    Seq::empty()
                },
                comment_diffs: if call_git || strict_comments_git {
                    diff_entries(lines, hash_entries(lines), lookups, strict_comments_git)
                } else {
                    Seq::empty()
                },
                missing_pre_commit_ci_commits: if pre_commit_ci {
                    match bot_log {
                        LookupView::Output(log) => bot_entries(log, hash_entries(lines)),
                        LookupView::Failed => Seq::empty(),
                    }
                } else {
                    Seq::empty()
                },
            },
        )
    }
}

/// Validates the lines of a blame-ignore file. The caller has read the file
/// and split it into lines (see `text::split_lines`), has queried the
/// version control collaborator about each valid hash line (in line order,
/// one answer per entry of `scan::scan_lines`'s valid-hash bucket), and, for
/// the bot audit, for the log of the bot author's commits. The result is
/// exactly `spec_validate` of the inputs.
pub fn validate_git_blame_ignore_revs(
    lines: &Vec<String>,
    call_git: bool,
    strict_comments: bool,
    strict_comments_git: bool,
    pre_commit_ci: bool,
    commit_lookups: &Vec<CommitLookup>,
    bot_log: &CommitLookup,
) -> (r: Result<ValidationResult, ValidationError>)
    requires
        (call_git || strict_comments_git) ==> commit_lookups@.len() == hash_entries(
            lines.deep_view(),
        ).len(),
    ensures
        ({
            let m = spec_validate(
                lines.deep_view(),
                call_git,
                strict_comments,
                strict_comments_git,
                pre_commit_ci,
                commit_lookups.deep_view(),
                bot_log@,
            );
            match r {
                Ok(res) => m == Ok::<ReportView, ValidationError>(res@),
                Err(e) => m == Err::<ReportView, ValidationError>(e),
            }
        }),
{
    let ghost lv = lines.deep_view();
    let scan = scan_lines(lines, strict_comments);
    let run_lookups = call_git || strict_comments_git;
    let (missing_commits, comment_diffs): (
        Vec<(usize, String)>,
        Vec<(usize, (String, String))>,
    ) = if run_lookups {
        proof {
            assert(lv.len() == lines.len());
            lemma_hash_entries_bounds(lv);
            assert forall|j: int|
                0 <= j < scan.valid_hashes@.len() implies 1 <= (
            #[trigger] scan.valid_hashes@[j]).0 <= lines@.len() by {
                assert(scan.valid_hashes.deep_view()[j] == hash_entries(lv)[j]);
                assert(scan.valid_hashes.deep_view()[j].0 == scan.valid_hashes@[j].0);
            }
        }
        cross_reference(lines, &scan.valid_hashes, commit_lookups, strict_comments_git)
    } else {
        (Vec::new(), Vec::new())
    };
    proof {
        if !run_lookups {
            assert(missing_commits.deep_view() =~= Seq::<(usize, Seq<char>)>::empty());
            assert(comment_diffs.deep_view() =~= Seq::<(usize, (Seq<char>, Seq<char>))>::empty());
        }
    }
    let missing_pre_commit_ci_commits: Vec<(String, String)> = if pre_commit_ci {
        match audit_bot_commits(bot_log, &scan.valid_hashes) {
            Ok(entries) => entries,
            Err(e) => {
                return Err(e);
            },
        }
    } else {
        Vec::new()
    };
    proof {
        if !pre_commit_ci {
            assert(missing_pre_commit_ci_commits.deep_view() =~= Seq::<
                (Seq<char>, Seq<char>),
            >::empty());
        }
    }
    Ok(
        ValidationResult {
            valid_hashes: scan.valid_hashes,
            errors: scan.errors,
            missing_commits,
            strict_comment_errors: scan.strict_comment_errors,
            comment_diffs,
            missing_pre_commit_ci_commits,
        },
    )
}

/// The report's internal invariants, whatever the collaborator answered:
/// missing commits, strict comment errors and comment diffs all carry line
/// numbers of the valid-hash bucket; comment diffs arise only under
/// comment-vs-history checking; the bot audit lists only hashes absent from
/// the file's valid hashes; and validation fails exactly when the bot audit
/// was asked for and its log query failed.
pub proof fn lemma_report_invariants(
    lines: Seq<Seq<char>>,
    call_git: bool,
    strict_comments: bool,
    strict_comments_git: bool,
    pre_commit_ci: bool,
    lookups: Seq<LookupView>,
    bot_log: LookupView,
)
    requires
        lines.len() <= usize::MAX,
    ensures
        ({
            let m = spec_validate(
                lines,
                call_git,
                strict_comments,
                strict_comments_git,
                pre_commit_ci,
                lookups,
                bot_log,
            );
            match m {
                Ok(report) => {
                    &&& forall|n: usize| #[trigger]
                        has_key(report.missing_commits, n) ==> has_key(report.valid_hashes, n)
                    &&& forall|n: usize| #[trigger]
                        has_key(report.strict_comment_errors, n) ==> has_key(
                            report.valid_hashes,
                            n,
                        )
                    &&& forall|n: usize| #[trigger]
                        has_key(report.comment_diffs, n) ==> has_key(report.valid_hashes, n)
                    &&& !strict_comments_git ==> report.comment_diffs == Seq::<
                        (usize, (Seq<char>, Seq<char>)),
                    >::empty()
                    &&& forall|h: Seq<char>| #[trigger]
                        key_in(report.missing_pre_commit_ci_commits, h) ==> !hash_in_values(
                            report.valid_hashes,
                            h,
                        )
                },
                Err(e) => e == ValidationError::BotLookupFailed,
            }
        }),
        spec_validate(
            lines,
            call_git,
            strict_comments,
            strict_comments_git,
            pre_commit_ci,
            lookups,
            bot_log,
        ) is Err <==> (pre_commit_ci && bot_log is Failed),
{
    lemma_missing_subset_of_hashes(lines, hash_entries(lines), lookups, strict_comments_git);
    lemma_diffs_subset_of_hashes(lines, hash_entries(lines), lookups, strict_comments_git);
    lemma_strict_subset_of_hashes(lines);
    if let LookupView::Output(log) = bot_log {
        lemma_bot_keys_not_listed(log, hash_entries(lines));
    }
}

/// Enabling strict comment checking never changes the valid hashes, the
/// malformed lines, the history cross-reference or the bot audit; it only
/// fills the strict bucket, which is empty without it, and every line number
/// it records is one of the valid hashes.
pub proof fn lemma_strict_comments_monotone(
    lines: Seq<Seq<char>>,
    call_git: bool,
    strict_comments_git: bool,
    pre_commit_ci: bool,
    lookups: Seq<LookupView>,
    bot_log: LookupView,
)
    requires
        lines.len() <= usize::MAX,
    ensures
        ({
            let off = spec_validate(
                lines,
                call_git,
                false,
                strict_comments_git,
                pre_commit_ci,
                lookups,
                bot_log,
            );
            let on = spec_validate(
                lines,
                call_git,
                true,
                strict_comments_git,
                pre_commit_ci,
                lookups,
                bot_log,
            );
            match (off, on) {
                (Ok(a), Ok(b)) => a.valid_hashes == b.valid_hashes && a.errors == b.errors
                    && a.missing_commits == b.missing_commits && a.comment_diffs
                    == b.comment_diffs && a.missing_pre_commit_ci_commits
                    == b.missing_pre_commit_ci_commits && a.strict_comment_errors == Seq::<
                    (usize, Seq<char>),
                >::empty() && (forall|n: usize| #[trigger]
                    has_key(b.strict_comment_errors, n) ==> has_key(b.valid_hashes, n)),
                (Err(a), Err(b)) => a == b,
                _ => false,
            }
        }),
{
    lemma_strict_subset_of_hashes(lines);
}

/// Validation is a pure function of the file's lines and the collaborator's
/// answers: two runs on equal inputs yield the identical report. The
/// executable pipeline returns exactly `spec_validate` of its inputs, so this
/// equality carries over to it.
pub proof fn lemma_validate_deterministic(
    lines_a: Seq<Seq<char>>,
    lines_b: Seq<Seq<char>>,
    call_git: bool,
    strict_comments: bool,
    strict_comments_git: bool,
    pre_commit_ci: bool,
    lookups_a: Seq<LookupView>,
    lookups_b: Seq<LookupView>,
    bot_log_a: LookupView,
    bot_log_b: LookupView,
)
    requires
        lines_a == lines_b,
        lookups_a == lookups_b,
        bot_log_a == bot_log_b,
    ensures
        spec_validate(
            lines_a,
            call_git,
            strict_comments,
            strict_comments_git,
            pre_commit_ci,
            lookups_a,
            bot_log_a,
        ) == spec_validate(
            lines_b,
            call_git,
            strict_comments,
            strict_comments_git,
            pre_commit_ci,
            lookups_b,
            bot_log_b,
        ),
{
}

} // verus!
