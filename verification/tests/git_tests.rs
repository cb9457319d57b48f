use aterm::git::{
    apply_commit_stats, editor_program, format_new_file_diff, parse_commit_files,
    parse_commit_log, parse_git_status, parse_relative_time, parse_stat_summary,
    parse_status_code, remote_or_none,
};

#[test]
fn status_codes_map_to_long_names() {
    assert_eq!(parse_status_code("M"), "modified");
    assert_eq!(parse_status_code("A"), "added");
    assert_eq!(parse_status_code("D"), "deleted");
    assert_eq!(parse_status_code("R"), "renamed");
    assert_eq!(parse_status_code("C"), "copied");
    assert_eq!(parse_status_code("U"), "unmerged");
    assert_eq!(parse_status_code("?"), "untracked");
    assert_eq!(parse_status_code("Z"), "unknown");
    assert_eq!(parse_status_code("MM"), "unknown");
}

#[test]
fn relative_times() {
    assert_eq!(parse_relative_time(0), "just now");
    assert_eq!(parse_relative_time(-5), "just now");
    assert_eq!(parse_relative_time(59), "just now");
    assert_eq!(parse_relative_time(60), "1m ago");
    assert_eq!(parse_relative_time(3599), "59m ago");
    assert_eq!(parse_relative_time(3600), "1h ago");
    assert_eq!(parse_relative_time(86399), "23h ago");
    assert_eq!(parse_relative_time(86400), "1d ago");
    assert_eq!(parse_relative_time(604800), "1w ago");
    assert_eq!(parse_relative_time(2592000), "1mo ago");
    assert_eq!(parse_relative_time(31104000), "12mo ago");
}

#[test]
fn porcelain_status_parses_all_groups() {
    let text = " M src/a.rs\nA  new.txt\n?? stray.txt\nR  old.txt -> moved.txt\nMM both.rs\n";
    let status = parse_git_status("main\n", &Some("2\t1".to_string()), text);
    assert_eq!(status.branch, "main");
    assert_eq!(status.behind, 2);
    assert_eq!(status.ahead, 1);

    assert_eq!(status.staged.len(), 3);
    assert_eq!(status.staged[0].path, "new.txt");
    assert_eq!(status.staged[0].status, "added");
    assert!(status.staged[0].staged);
    assert_eq!(status.staged[0].old_path, None);
    assert_eq!(status.staged[1].path, "moved.txt");
    assert_eq!(status.staged[1].status, "renamed");
    assert_eq!(status.staged[1].old_path, Some("old.txt".to_string()));
    assert_eq!(status.staged[2].path, "both.rs");
    assert_eq!(status.staged[2].status, "modified");

    assert_eq!(status.unstaged.len(), 2);
    assert_eq!(status.unstaged[0].path, "src/a.rs");
    assert_eq!(status.unstaged[0].status, "modified");
    assert!(!status.unstaged[0].staged);
    assert_eq!(status.unstaged[1].path, "both.rs");

    assert_eq!(status.untracked.len(), 1);
    assert_eq!(status.untracked[0].path, "stray.txt");
    assert_eq!(status.untracked[0].status, "untracked");
}

#[test]
fn status_without_counts_reads_zero() {
    let status = parse_git_status("dev", &None, "");
    assert_eq!(status.branch, "dev");
    assert_eq!(status.ahead, 0);
    assert_eq!(status.behind, 0);
    assert!(status.staged.is_empty());
    assert!(status.unstaged.is_empty());
    assert!(status.untracked.is_empty());
}

#[test]
fn commit_log_parses_well_formed_lines() {
    let text = "abc123|abc|Fix the bug|alice|1000\nnot a log line\n";
    let commits = parse_commit_log(text, 4600);
    assert_eq!(commits.len(), 1);
    let c = &commits[0];
    assert_eq!(c.hash, "abc123");
    assert_eq!(c.short_hash, "abc");
    assert_eq!(c.subject, "Fix the bug");
    assert_eq!(c.author, "alice");
    assert_eq!(c.timestamp, 1000);
    assert_eq!(c.relative_time, "1h ago");
    assert_eq!(c.files_changed, 0);
    assert_eq!(c.additions, 0);
    assert_eq!(c.deletions, 0);
}

#[test]
fn stat_summaries() {
    assert_eq!(
        parse_stat_summary(" 3 files changed, 10 insertions(+), 5 deletions(-)\n"),
        (3, 10, 5)
    );
    assert_eq!(
        parse_stat_summary(" 1 file changed, 2 insertions(+)\n"),
        (1, 2, 0)
    );
    assert_eq!(parse_stat_summary("no summary here\n"), (0, 0, 0));
}

#[test]
fn stats_fill_only_the_counters() {
    let text = "x|s|subject|bob|100\n";
    let mut commits = parse_commit_log(text, 100);
    apply_commit_stats(
        &mut commits[0],
        " 2 files changed, 4 insertions(+), 1 deletion(-)\n",
    );
    assert_eq!(commits[0].files_changed, 2);
    assert_eq!(commits[0].additions, 4);
    assert_eq!(commits[0].deletions, 1);
    assert_eq!(commits[0].subject, "subject");
}

#[test]
fn commit_files_join_numstat_and_name_status() {
    let text = "10\t5\tsrc/x.rs\n-\t-\tbin.dat\nM\tsrc/x.rs\nA\tbin.dat\nR100\told\tnew\n";
    let files = parse_commit_files(text);
    // The binary numstat line `-\t-\tbin.dat` also has the shape of a
    // name-status line (a one-character first column), so it yields an
    // entry of its own.
    assert_eq!(files.len(), 3);
    assert_eq!(files[0].path, "bin.dat");
    assert_eq!(files[0].status, "modified");
    assert_eq!(files[0].additions, 0);
    assert_eq!(files[0].deletions, 0);
    assert_eq!(files[1].path, "src/x.rs");
    assert_eq!(files[1].status, "modified");
    assert_eq!(files[1].additions, 10);
    assert_eq!(files[1].deletions, 5);
    assert_eq!(files[2].path, "bin.dat");
    assert_eq!(files[2].status, "added");
    assert_eq!(files[2].additions, 0);
    assert_eq!(files[2].deletions, 0);
}

#[test]
fn new_file_pseudo_diff() {
    assert_eq!(
        format_new_file_diff("f.txt", "a\nb"),
        "New file: f.txt\n\n+a\n+b"
    );
    assert_eq!(format_new_file_diff("f.txt", ""), "New file: f.txt\n\n");
}

#[test]
fn remote_name_reading() {
    assert_eq!(
        remote_or_none("git@host:repo.git\n"),
        Some("git@host:repo.git".to_string())
    );
    assert_eq!(remote_or_none("  \n"), None);
}

#[test]
fn editor_choices() {
    assert_eq!(editor_program(&Some("vscode".to_string())), Some("code"));
    assert_eq!(editor_program(&Some("code".to_string())), Some("code"));
    assert_eq!(editor_program(&Some("cursor".to_string())), Some("cursor"));
    assert_eq!(editor_program(&Some("default".to_string())), None);
    assert_eq!(editor_program(&None), None);
}
