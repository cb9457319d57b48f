use aterm::worktree::{
    attempt_seed, base_ref_of, branch_or_head, generate_suffix, output_matches, parent_dir_of,
    parse_branch_list, parse_worktree_list, path_under, project_name_of, remote_branch_check_cmd,
    remote_branch_cmd, remote_check_repo_cmd, remote_common_dir_cmd, remote_copy_cmd,
    remote_create_cmd, remote_exists_cmd, remote_mkdir_cmd, remote_remove_cmd, resolve_git_dir,
    should_preserve_file, slugify_task_name, sort_strings, str_lex_le, worktree_branch_name,
    worktree_dir_name, worktrees_root_of,
};

#[test]
fn slugs() {
    assert_eq!(slugify_task_name("Hello World!"), "hello-world");
    assert_eq!(slugify_task_name("Fix BUG #42"), "fix-bug-42");
    assert_eq!(slugify_task_name(""), "task");
    assert_eq!(slugify_task_name("---"), "task");
    assert_eq!(slugify_task_name("  spaced   out  "), "spaced-out");
    assert_eq!(slugify_task_name("CamelCase123"), "camelcase123");
}

#[test]
fn suffixes_are_three_hex_digits() {
    for seed in ["a", "b", "task-0"] {
        let s = generate_suffix(seed);
        assert_eq!(s.len(), 3);
        assert!(s.chars().all(|c| c.is_ascii_hexdigit() && !c.is_ascii_uppercase()));
    }
}

#[test]
fn naming() {
    assert_eq!(worktree_branch_name("fix-bug", "a3f"), "aterm/fix-bug-a3f");
    assert_eq!(worktree_dir_name("fix-bug", "a3f"), "fix-bug-a3f");
    assert_eq!(attempt_seed("My Task", 3), "My Task-3");
}

#[test]
fn path_helpers() {
    assert_eq!(project_name_of("/home/dev/repo"), "repo");
    assert_eq!(project_name_of("/home/dev/repo///"), "repo");
    assert_eq!(project_name_of("repo"), "repo");
    assert_eq!(parent_dir_of("/home/dev/repo"), Some("/home/dev".to_string()));
    assert_eq!(parent_dir_of("/repo"), Some("".to_string()));
    assert_eq!(parent_dir_of("repo"), None);
    assert_eq!(
        worktrees_root_of("/home/dev", "repo"),
        "/home/dev/worktrees/repo"
    );
    assert_eq!(path_under("/root/wt", "fix-a3f"), "/root/wt/fix-a3f");
}

#[test]
fn worktree_porcelain_parsing() {
    let text = "worktree /path/one\nHEAD abc\nbranch refs/heads/main\n\nworktree /path/two\nHEAD def\ndetached\n\nworktree /path/three\nbranch topic\n";
    let list = parse_worktree_list(text);
    assert_eq!(list.len(), 3);
    assert_eq!(list[0].path, "/path/one");
    assert_eq!(list[0].branch, "main");
    assert_eq!(list[1].path, "/path/two");
    assert_eq!(list[1].branch, "detached");
    assert_eq!(list[2].path, "/path/three");
    assert_eq!(list[2].branch, "topic");
}

#[test]
fn worktree_without_branch_line_is_detached() {
    let list = parse_worktree_list("worktree /only\n");
    assert_eq!(list.len(), 1);
    assert_eq!(list[0].branch, "detached");
    assert!(parse_worktree_list("").is_empty());
}

#[test]
fn branch_listing_is_trimmed_filtered_sorted() {
    let branches = parse_branch_list("beta\nalpha\n\n  gamma  \n");
    assert_eq!(branches, vec!["alpha", "beta", "gamma"]);
}

#[test]
fn string_sorting() {
    assert!(str_lex_le("abc", "abd"));
    assert!(str_lex_le("ab", "abc"));
    assert!(!str_lex_le("b", "a"));
    let sorted = sort_strings(vec![
        "pear".to_string(),
        "apple".to_string(),
        "apple".to_string(),
        "fig".to_string(),
    ]);
    assert_eq!(sorted, vec!["apple", "apple", "fig", "pear"]);
}

#[test]
fn subprocess_report_decisions() {
    assert!(output_matches("true\n", "true"));
    assert!(!output_matches("false\n", "true"));
    assert!(output_matches("  exists ", "exists"));
    assert_eq!(branch_or_head("main\n"), "main");
    assert_eq!(branch_or_head(" \n"), "HEAD");
    assert_eq!(base_ref_of(&Some(" v1.2 ".to_string())), Some("v1.2".to_string()));
    assert_eq!(base_ref_of(&Some("  ".to_string())), None);
    assert_eq!(base_ref_of(&None), None);
}

#[test]
fn preserved_files() {
    assert!(should_preserve_file(".envrc"));
    assert!(should_preserve_file("docker-compose.override.yml"));
    assert!(should_preserve_file(".env"));
    assert!(should_preserve_file(".env.local"));
    assert!(!should_preserve_file("README.md"));
    assert!(!should_preserve_file("env"));
}

#[test]
fn remote_commands_are_exact() {
    assert_eq!(
        remote_check_repo_cmd("/srv/app"),
        "cd '/srv/app' && git rev-parse --is-inside-work-tree"
    );
    assert_eq!(
        remote_branch_cmd("/srv/app"),
        "cd '/srv/app' && git branch --show-current"
    );
    assert_eq!(remote_mkdir_cmd("/srv/worktrees/app"), "mkdir -p '/srv/worktrees/app'");
    assert_eq!(
        remote_exists_cmd("/srv/worktrees/app/fix-a3f"),
        "test -d '/srv/worktrees/app/fix-a3f' && echo exists || echo not"
    );
    assert_eq!(
        remote_branch_check_cmd("/srv/app", "aterm/fix-a3f"),
        "cd '/srv/app' && git show-ref --verify --quiet refs/heads/aterm/fix-a3f && echo exists || echo not"
    );
    assert_eq!(
        remote_create_cmd("/srv/app", "aterm/fix-a3f", "/srv/worktrees/app/fix-a3f", "main"),
        "cd '/srv/app' && git worktree add -b 'aterm/fix-a3f' '/srv/worktrees/app/fix-a3f' 'main'"
    );
    assert_eq!(
        remote_copy_cmd("/srv/app", "/srv/worktrees/app/fix-a3f"),
        "cd '/srv/app' && for f in .env* .envrc docker-compose.override.yml; do [ -f \"$f\" ] && cp \"$f\" '/srv/worktrees/app/fix-a3f/' 2>/dev/null; done; true"
    );
    assert_eq!(
        remote_common_dir_cmd("/srv/worktrees/app/fix-a3f"),
        "cd '/srv/worktrees/app/fix-a3f' && git rev-parse --git-common-dir"
    );
    assert_eq!(
        remote_remove_cmd("/srv/app/.git", "/srv/worktrees/app/fix-a3f"),
        "git --git-dir='/srv/app/.git' worktree remove --force '/srv/worktrees/app/fix-a3f'"
    );
}

#[test]
fn git_dir_resolution() {
    assert_eq!(resolve_git_dir("/wt", "/abs/.git\n"), "/abs/.git");
    assert_eq!(
        resolve_git_dir("/wt", ".git/worktrees/x\n"),
        "/wt/.git/worktrees/x"
    );
}
