use blame_ignore_revs::history::CommitLookup;
use blame_ignore_revs::report::{ValidationError, ValidationResult};
use blame_ignore_revs::scan::scan_lines;
use blame_ignore_revs::text::split_lines;
use blame_ignore_revs::validate_git_blame_ignore_revs;

const HASH_A: &str = "abcdef0123456789abcdef0123456789abcdef01";
const HASH_B: &str = "0000000000000000000000000000000000000000";

fn lines_of(v: &[&str]) -> Vec<String> {
    v.iter().map(|s| s.to_string()).collect()
}

fn run(
    lines: &Vec<String>,
    call_git: bool,
    strict_comments: bool,
    strict_comments_git: bool,
    pre_commit_ci: bool,
    lookups: Vec<CommitLookup>,
    bot_log: CommitLookup,
) -> Result<ValidationResult, ValidationError> {
    validate_git_blame_ignore_revs(
        lines,
        call_git,
        strict_comments,
        strict_comments_git,
        pre_commit_ci,
        &lookups,
        &bot_log,
    )
}

fn entry(n: usize, text: &str) -> (usize, String) {
    (n, text.to_string())
}

#[test]
fn comment_then_hash_is_valid_with_strict_comments() {
    let lines = lines_of(&["# fix typo", HASH_A]);
    let r = run(&lines, false, true, false, false, vec![], CommitLookup::Failed).unwrap();
    assert_eq!(r.valid_hashes, vec![entry(2, HASH_A)]);
    assert_eq!(r.errors, vec![]);
    assert_eq!(r.strict_comment_errors, vec![]);
}

#[test]
fn malformed_line_is_an_error() {
    let lines = lines_of(&["not-a-hash"]);
    let r = run(&lines, false, false, false, false, vec![], CommitLookup::Failed).unwrap();
    assert_eq!(r.errors, vec![entry(1, "not-a-hash")]);
    assert_eq!(r.valid_hashes, vec![]);
}

#[test]
fn hash_without_comment_is_a_strict_comment_error() {
    let lines = lines_of(&[HASH_A]);
    let r = run(&lines, false, true, false, false, vec![], CommitLookup::Failed).unwrap();
    assert_eq!(r.strict_comment_errors, vec![entry(1, HASH_A)]);
    assert_eq!(r.valid_hashes, vec![entry(1, HASH_A)]);
}

#[test]
fn hash_without_comment_not_recorded_when_strict_comments_off() {
    let lines = lines_of(&[HASH_A]);
    let r = run(&lines, false, false, false, false, vec![], CommitLookup::Failed).unwrap();
    assert_eq!(r.strict_comment_errors, vec![]);
}

#[test]
fn commit_not_in_history_is_missing_but_stays_valid() {
    let lines = lines_of(&[HASH_A]);
    let lookups = vec![CommitLookup::Output(String::new())];
    let r = run(&lines, true, false, false, false, lookups, CommitLookup::Failed).unwrap();
    assert_eq!(r.missing_commits, vec![entry(1, HASH_A)]);
    assert_eq!(r.valid_hashes, vec![entry(1, HASH_A)]);
}

#[test]
fn failed_lookup_counts_as_missing() {
    let lines = lines_of(&[HASH_A]);
    let lookups = vec![CommitLookup::Failed];
    let r = run(&lines, true, false, false, false, lookups, CommitLookup::Failed).unwrap();
    assert_eq!(r.missing_commits, vec![entry(1, HASH_A)]);
}

#[test]
fn found_commit_is_not_missing() {
    let lines = lines_of(&[HASH_A]);
    let lookups = vec![CommitLookup::Output(format!("{} fix typo", HASH_A))];
    let r = run(&lines, true, false, false, false, lookups, CommitLookup::Failed).unwrap();
    assert_eq!(r.missing_commits, vec![]);
    assert_eq!(r.comment_diffs, vec![]);
}

#[test]
fn lookup_output_without_space_records_nothing() {
    let lines = lines_of(&[HASH_A]);
    let lookups = vec![CommitLookup::Output(HASH_A.to_string())];
    let r = run(&lines, true, false, false, false, lookups, CommitLookup::Failed).unwrap();
    assert_eq!(r.missing_commits, vec![]);
    assert_eq!(r.comment_diffs, vec![]);
}

#[test]
fn validation_is_deterministic_across_runs() {
    let lines = lines_of(&["# fix typo", HASH_A, "junk", "", HASH_B]);
    let lookups = vec![
        CommitLookup::Output(format!("{} fix typo", HASH_A)),
        CommitLookup::Output(String::new()),
    ];
    let bot = CommitLookup::Output(format!("{} autofix", HASH_B));
    let r1 = run(&lines, true, true, true, true, lookups.clone(), bot.clone()).unwrap();
    let r2 = run(&lines, true, true, true, true, lookups, bot).unwrap();
    assert_eq!(r1, r2);
}

#[test]
fn matching_comment_produces_no_diff() {
    let lines = lines_of(&["# fix typo", HASH_A]);
    let lookups = vec![CommitLookup::Output(format!("{} fix typo in docs", HASH_A))];
    let r = run(&lines, true, true, true, false, lookups, CommitLookup::Failed).unwrap();
    assert_eq!(r.comment_diffs, vec![]);
}

#[test]
fn mismatching_comment_produces_a_diff() {
    let lines = lines_of(&["# fix typo", HASH_A]);
    let lookups = vec![CommitLookup::Output(format!("{} another subject", HASH_A))];
    let r = run(&lines, true, true, true, false, lookups, CommitLookup::Failed).unwrap();
    assert_eq!(
        r.comment_diffs,
        vec![(2usize, ("fix typo".to_string(), "another subject".to_string()))]
    );
}

#[test]
fn comment_check_uses_only_the_line_directly_above() {
    // Of a multi-line comment block only the last line is compared.
    let lines = lines_of(&["# first part", "# second part", HASH_A]);
    let lookups = vec![CommitLookup::Output(format!("{} first part", HASH_A))];
    let r = run(&lines, true, true, true, false, lookups, CommitLookup::Failed).unwrap();
    assert_eq!(
        r.comment_diffs,
        vec![(3usize, ("second part".to_string(), "first part".to_string()))]
    );
}

#[test]
fn comment_with_leading_whitespace_keeps_its_hash_sign() {
    // The raw line above is stripped of `#` before white space, so an
    // indented comment keeps its `#` and cannot match the subject.
    let lines = lines_of(&["  # fix typo", HASH_A]);
    let lookups = vec![CommitLookup::Output(format!("{} fix typo", HASH_A))];
    let r = run(&lines, true, true, true, false, lookups, CommitLookup::Failed).unwrap();
    assert_eq!(
        r.comment_diffs,
        vec![(2usize, ("# fix typo".to_string(), "fix typo".to_string()))]
    );
}

#[test]
fn hash_on_first_line_matches_the_empty_comment() {
    // Line 1 has no line above; the expected comment is empty, and every
    // subject starts with the empty text.
    let lines = lines_of(&[HASH_A]);
    let lookups = vec![CommitLookup::Output(format!("{} whatever subject", HASH_A))];
    let r = run(&lines, true, true, true, false, lookups, CommitLookup::Failed).unwrap();
    assert_eq!(r.comment_diffs, vec![]);
}

#[test]
fn no_diffs_without_comment_history_checking() {
    let lines = lines_of(&["# fix typo", HASH_A]);
    let lookups = vec![CommitLookup::Output(format!("{} another subject", HASH_A))];
    let r = run(&lines, true, true, false, false, lookups, CommitLookup::Failed).unwrap();
    assert_eq!(r.comment_diffs, vec![]);
}

#[test]
fn bot_commit_absent_from_file_is_reported() {
    let lines = lines_of(&[HASH_A]);
    let lookups = vec![CommitLookup::Output(format!("{} fix typo", HASH_A))];
    let bot = CommitLookup::Output(format!("{} autofix run\n{} fix typo", HASH_B, HASH_A));
    let r = run(&lines, true, false, false, true, lookups, bot).unwrap();
    assert_eq!(
        r.missing_pre_commit_ci_commits,
        vec![(HASH_B.to_string(), "autofix run".to_string())]
    );
}

#[test]
fn bot_commit_listed_in_file_is_not_reported() {
    let lines = lines_of(&[HASH_A]);
    let lookups = vec![CommitLookup::Output(format!("{} fix typo", HASH_A))];
    let bot = CommitLookup::Output(format!("{} fix typo", HASH_A));
    let r = run(&lines, true, false, false, true, lookups, bot).unwrap();
    assert_eq!(r.missing_pre_commit_ci_commits, vec![]);
}

#[test]
fn duplicate_bot_hash_keeps_the_last_subject() {
    let lines = lines_of(&[]);
    let bot = CommitLookup::Output(format!("{} first\n{} second", HASH_B, HASH_B));
    let r = run(&lines, true, false, false, true, vec![], bot).unwrap();
    assert_eq!(
        r.missing_pre_commit_ci_commits,
        vec![(HASH_B.to_string(), "second".to_string())]
    );
}

#[test]
fn bot_log_line_without_space_is_ignored() {
    let lines = lines_of(&[]);
    let bot = CommitLookup::Output(HASH_B.to_string());
    let r = run(&lines, true, false, false, true, vec![], bot).unwrap();
    assert_eq!(r.missing_pre_commit_ci_commits, vec![]);
}

#[test]
fn failed_bot_log_query_is_fatal() {
    let lines = lines_of(&[HASH_A]);
    let lookups = vec![CommitLookup::Output(format!("{} fix typo", HASH_A))];
    let r = run(&lines, true, false, false, true, lookups, CommitLookup::Failed);
    assert_eq!(r, Err(ValidationError::BotLookupFailed));
    let e = r.unwrap_err();
    assert_eq!(
        e.message(),
        "Failed to fetch commits authored by pre-commit-ci[bot]."
    );
}

#[test]
fn empty_file_yields_an_empty_report() {
    let lines = lines_of(&[]);
    let r = run(&lines, true, true, true, false, vec![], CommitLookup::Failed).unwrap();
    assert_eq!(r.valid_hashes, vec![]);
    assert_eq!(r.errors, vec![]);
    assert_eq!(r.missing_commits, vec![]);
    assert_eq!(r.strict_comment_errors, vec![]);
    assert_eq!(r.comment_diffs, vec![]);
    assert_eq!(r.missing_pre_commit_ci_commits, vec![]);
}

#[test]
fn every_line_lands_in_exactly_one_bucket() {
    let lines = lines_of(&["", "# comment", HASH_A, "garbage", "   ", HASH_B]);
    let r = run(&lines, false, false, false, false, vec![], CommitLookup::Failed).unwrap();
    assert_eq!(r.valid_hashes, vec![entry(3, HASH_A), entry(6, HASH_B)]);
    assert_eq!(r.errors, vec![entry(4, "garbage")]);
}

#[test]
fn surrounding_whitespace_is_trimmed_before_matching() {
    let padded = format!("   {}  ", HASH_A);
    let lines = lines_of(&[padded.as_str()]);
    let r = run(&lines, false, false, false, false, vec![], CommitLookup::Failed).unwrap();
    assert_eq!(r.valid_hashes, vec![entry(1, HASH_A)]);
    assert_eq!(r.errors, vec![]);
}

#[test]
fn trimming_covers_unicode_whitespace() {
    let padded = format!("\u{a0}{}\u{3000}", HASH_A);
    let lines = lines_of(&[padded.as_str()]);
    let r = run(&lines, false, false, false, false, vec![], CommitLookup::Failed).unwrap();
    assert_eq!(r.valid_hashes, vec![entry(1, HASH_A)]);
}

#[test]
fn interior_whitespace_makes_a_line_malformed() {
    let broken = format!("{} {}", &HASH_A[..20], &HASH_A[21..]);
    let lines = lines_of(&[broken.as_str()]);
    let r = run(&lines, false, false, false, false, vec![], CommitLookup::Failed).unwrap();
    assert_eq!(r.valid_hashes, vec![]);
    assert_eq!(r.errors, vec![entry(1, broken.as_str())]);
}

#[test]
fn uppercase_or_short_hashes_are_malformed() {
    let upper = HASH_A.to_uppercase();
    let short = &HASH_A[..39];
    let lines = lines_of(&[upper.as_str(), short]);
    let r = run(&lines, false, false, false, false, vec![], CommitLookup::Failed).unwrap();
    assert_eq!(r.valid_hashes, vec![]);
    assert_eq!(r.errors, vec![entry(1, upper.as_str()), entry(2, short)]);
}

#[test]
fn blank_lines_do_not_break_a_comment_run() {
    let lines = lines_of(&["# noise commit", "", HASH_A]);
    let r = run(&lines, false, true, false, false, vec![], CommitLookup::Failed).unwrap();
    assert_eq!(r.strict_comment_errors, vec![]);
}

#[test]
fn a_hash_line_resets_the_comment_run() {
    let lines = lines_of(&["# one comment", HASH_A, HASH_B]);
    let r = run(&lines, false, true, false, false, vec![], CommitLookup::Failed).unwrap();
    assert_eq!(r.strict_comment_errors, vec![entry(3, HASH_B)]);
}

#[test]
fn a_malformed_line_resets_the_comment_run() {
    let lines = lines_of(&["# comment", "junk", HASH_A]);
    let r = run(&lines, false, true, false, false, vec![], CommitLookup::Failed).unwrap();
    assert_eq!(r.strict_comment_errors, vec![entry(3, HASH_A)]);
}

#[test]
fn split_lines_handles_line_endings() {
    assert_eq!(split_lines(""), Vec::<String>::new());
    assert_eq!(split_lines("a\nb"), vec!["a".to_string(), "b".to_string()]);
    assert_eq!(split_lines("a\r\nb\n"), vec!["a".to_string(), "b".to_string()]);
    assert_eq!(split_lines("\n"), vec!["".to_string()]);
    assert_eq!(split_lines("a\r"), vec!["a\r".to_string()]);
}

#[test]
fn scan_lines_reports_buckets_directly() {
    let lines = split_lines(&format!("# fix typo\n{}\nnot-a-hash\n", HASH_A));
    let report = scan_lines(&lines, true);
    assert_eq!(report.valid_hashes, vec![entry(2, HASH_A)]);
    assert_eq!(report.errors, vec![entry(3, "not-a-hash")]);
    assert_eq!(report.strict_comment_errors, vec![]);
}

#[test]
fn lookup_answers_are_trimmed_before_parsing() {
    let lines = lines_of(&["# fix typo", HASH_A]);
    let lookups = vec![CommitLookup::Output(format!("  {} fix typo  \n", HASH_A))];
    let r = run(&lines, true, true, true, false, lookups, CommitLookup::Failed).unwrap();
    assert_eq!(r.missing_commits, vec![]);
    assert_eq!(r.comment_diffs, vec![]);
}

#[test]
fn whitespace_only_lookup_answer_is_missing() {
    let lines = lines_of(&[HASH_A]);
    let lookups = vec![CommitLookup::Output("   \n".to_string())];
    let r = run(&lines, true, false, false, false, lookups, CommitLookup::Failed).unwrap();
    assert_eq!(r.missing_commits, vec![entry(1, HASH_A)]);
}
