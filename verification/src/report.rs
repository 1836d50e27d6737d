//! The validation report and the fatal error of a validation run.

use vstd::prelude::*;

verus! {

/// The aggregate result of one validation run. Each bucket is a mapping held
/// as a vector of pairs; the line-numbered buckets are in increasing line
/// order and no key repeats.
#[derive(Debug, Clone, PartialEq)]
pub struct ValidationResult {
    /// Line number to trimmed hash text, for every valid hash line.
    pub valid_hashes: Vec<(usize, String)>,
    /// Line number to trimmed text, for every malformed line.
    pub errors: Vec<(usize, String)>,
    /// Line number to hash text, for valid hash lines whose commit the
    /// history does not hold.
    pub missing_commits: Vec<(usize, String)>,
    /// Line number to hash text, for valid hash lines lacking a comment
    /// directly above, under strict comment checking.
    pub strict_comment_errors: Vec<(usize, String)>,
    /// Line number to (expected comment text, actual commit subject), for
    /// valid hash lines whose comment is no prefix of the commit's subject.
    pub comment_diffs: Vec<(usize, (String, String))>,
    /// Bot-authored commit hash to commit subject, for commits of the
    /// designated bot author that the file does not list.
    pub missing_pre_commit_ci_commits: Vec<(String, String)>,
}

/// The mathematical shape of a `ValidationResult`: each bucket as a sequence
/// of pairs over character sequences.
pub struct ReportView {
    pub valid_hashes: Seq<(usize, Seq<char>)>,
    pub errors: Seq<(usize, Seq<char>)>,
    pub missing_commits: Seq<(usize, Seq<char>)>,
    pub strict_comment_errors: Seq<(usize, Seq<char>)>,
    pub comment_diffs: Seq<(usize, (Seq<char>, Seq<char>))>,
    pub missing_pre_commit_ci_commits: Seq<(Seq<char>, Seq<char>)>,
}

impl View for ValidationResult {
    type V = ReportView;

    open spec fn view(&self) -> ReportView {
        ReportView {
            valid_hashes: self.valid_hashes.deep_view(),
            errors: self.errors.deep_view(),
            missing_commits: self.missing_commits.deep_view(),
            strict_comment_errors: self.strict_comment_errors.deep_view(),
            comment_diffs: self.comment_diffs.deep_view(),
            missing_pre_commit_ci_commits: self.missing_pre_commit_ci_commits.deep_view(),
        }
    }
}

/// The one fatal condition of the core: the bulk query for the bot author's
/// commits could not be performed at all.
#[derive(Debug, Clone, Copy, PartialEq, Eq, Structural)]
pub enum ValidationError {
    BotLookupFailed,
}

/// The wording of the fatal bot-query failure.
pub open spec fn bot_lookup_failed_text() -> Seq<char> {
    "Failed to fetch commits authored by pre-commit-ci[bot]."@
}

impl ValidationError {
    /// The human-readable description of the failure.
    pub fn message(&self) -> (r: String)
        ensures
            r@ == bot_lookup_failed_text(),
    {
        "Failed to fetch commits authored by pre-commit-ci[bot].".to_owned()
    }
}

} // verus!
