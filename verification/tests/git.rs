use wt_manager::git::{
    add_failure, add_worktree_args, common_dir_args, list_worktrees_args, main_repo_root,
    parse_worktree_list, remove_failure, remove_worktree_args, split_lines, WorktreeInfo,
};

fn info(path: &str, branch: &str, is_main: bool) -> WorktreeInfo {
    WorktreeInfo { path: path.to_string(), branch: branch.to_string(), is_main }
}

fn lines(text: &str) -> Vec<String> {
    let chars: Vec<char> = text.chars().collect();
    split_lines(&chars).iter().map(|l| l.iter().collect()).collect()
}

#[test]
fn lines_are_split_as_std_splits_them() {
    for text in [
        "",
        "a",
        "a\n",
        "a\nb",
        "a\r\nb\r\n",
        "\n",
        "\n\n",
        "a\n\nb",
        "foo\nbar\n\r\nbaz\r",
        "\r",
        "x\r\r\n",
    ] {
        let expected: Vec<String> = text.lines().map(|l| l.to_string()).collect();
        assert_eq!(lines(text), expected);
    }
}

#[test]
fn listing_with_two_worktrees() {
    let output = "worktree /home/u/proj\nHEAD 1234abcd\nbranch refs/heads/main\n\nworktree /home/u/_wt/proj_9c09f8055a26c277/feature-x\nHEAD 99aa\nbranch refs/heads/feature-x\n\n";
    assert_eq!(
        parse_worktree_list(output),
        vec![
            info("/home/u/proj", "main", false),
            info("/home/u/_wt/proj_9c09f8055a26c277/feature-x", "feature-x", false),
        ]
    );
}

#[test]
fn record_without_branch_is_the_main_worktree() {
    let output = "worktree /repo\nbare\n\nworktree /wt/a\nHEAD abc\nbranch refs/heads/a\n\n";
    assert_eq!(
        parse_worktree_list(output),
        vec![info("/repo", "", true), info("/wt/a", "a", false)]
    );
    let detached = "worktree /home/u/proj\nHEAD 1234\ndetached\n\nworktree /w/a\nbranch refs/heads/a\n";
    assert_eq!(
        parse_worktree_list(detached),
        vec![info("/home/u/proj", "", true), info("/w/a", "a", false)]
    );
    assert_eq!(parse_worktree_list("worktree /only"), vec![info("/only", "", true)]);
}

#[test]
fn bare_line_marks_the_record_as_main() {
    assert_eq!(
        parse_worktree_list("worktree /r\nbare\nbranch refs/heads/main\n"),
        vec![info("/r", "main", true)]
    );
    assert_eq!(
        parse_worktree_list("worktree /r\nbranch refs/heads/main\nbare\n\nworktree /s\nbranch refs/heads/s\n"),
        vec![info("/r", "main", true), info("/s", "s", false)]
    );
}

#[test]
fn record_ends_at_next_path_line_without_blank() {
    assert_eq!(
        parse_worktree_list("worktree /a\nbranch refs/heads/a\nworktree /b\nbranch refs/heads/b"),
        vec![info("/a", "a", false), info("/b", "b", false)]
    );
}

#[test]
fn lines_outside_records_are_passed_over() {
    assert_eq!(
        parse_worktree_list("branch refs/heads/stray\nbare\n\nHEAD 12\n"),
        Vec::<WorktreeInfo>::new()
    );
    assert_eq!(
        parse_worktree_list("branch refs/heads/stray\nbare\nworktree /a\n\nbranch refs/heads/late\n"),
        vec![info("/a", "", true)]
    );
    assert_eq!(
        parse_worktree_list("branch refs/heads/stray\nworktree /a\nbranch refs/heads/a\n"),
        vec![info("/a", "a", false)]
    );
}

#[test]
fn last_branch_line_of_a_record_counts() {
    assert_eq!(
        parse_worktree_list("worktree /a\nbranch refs/heads/one\nbranch refs/heads/two\n"),
        vec![info("/a", "two", false)]
    );
}

#[test]
fn prefixes_are_stripped_as_often_as_they_repeat() {
    assert_eq!(
        parse_worktree_list("worktree worktree /a\nbranch branch refs/heads/refs/heads/x\n"),
        vec![info("/a", "x", false)]
    );
    assert_eq!(
        parse_worktree_list("worktree /a\nbranch refs/remotes/origin/x\n"),
        vec![info("/a", "refs/remotes/origin/x", false)]
    );
}

#[test]
fn carriage_returns_and_missing_final_newline() {
    assert_eq!(
        parse_worktree_list("worktree /a\r\nbranch refs/heads/a\r\n\r\nworktree /b\r\nbranch refs/heads/b"),
        vec![info("/a", "a", false), info("/b", "b", false)]
    );
}

#[test]
fn empty_listing() {
    assert_eq!(parse_worktree_list(""), Vec::<WorktreeInfo>::new());
    assert_eq!(parse_worktree_list("\n\n"), Vec::<WorktreeInfo>::new());
}

#[test]
fn requests_to_the_backend() {
    assert_eq!(common_dir_args(), vec!["rev-parse", "--path-format=absolute", "--git-common-dir"]);
    assert_eq!(list_worktrees_args(), vec!["worktree", "list", "--porcelain"]);
    assert_eq!(
        add_worktree_args("/w/x", "x", false),
        vec!["worktree", "add", "/w/x", "x"]
    );
    assert_eq!(
        add_worktree_args("/w/x", "x", true),
        vec!["worktree", "add", "-b", "x", "/w/x"]
    );
    assert_eq!(remove_worktree_args("/w/x"), vec!["worktree", "remove", "/w/x"]);
}

#[test]
fn failure_reports_carry_the_backend_words() {
    assert_eq!(add_failure("fatal: invalid reference: x\n"),
        "Failed to add worktree: fatal: invalid reference: x\n");
    assert_eq!(remove_failure("fatal: dirty"), "Failed to remove worktree: fatal: dirty");
}

#[test]
fn main_root_is_parent_of_common_dir() {
    assert_eq!(main_repo_root("/home/u/proj/.git\n"), Some("/home/u/proj".to_string()));
    assert_eq!(main_repo_root("  /proj/.git  "), Some("/proj".to_string()));
    assert_eq!(main_repo_root("/.git\n"), Some("/".to_string()));
    assert_eq!(main_repo_root("\n"), None);
    assert_eq!(main_repo_root("/"), None);
}
