use path_git_format::ancestry::AncestryWalk;
use path_git_format::jj_config::{user_config_path, DEFAULT_JJ_CONFIG};
use path_git_format::line::{process_line, CliOptions, GitRepoState, RepoProbe, VcsInfo};
use path_git_format::template::fill_template;

fn options(format: Option<&str>, nth: usize, filter: bool, no_bare: bool) -> CliOptions {
    CliOptions {
        format: format.map(|f| f.to_string()),
        nth,
        filter,
        no_bare,
    }
}

fn defaults() -> CliOptions {
    options(None, 0, false, false)
}

fn git_repo(workdir: &str, head: &str) -> RepoProbe {
    RepoProbe {
        jj_marker: false,
        jj_label: None,
        git: Some(GitRepoState {
            is_bare: false,
            workdir: Some(workdir.to_string()),
            head_detached: false,
            head_name: Some(head.to_string()),
        }),
    }
}

fn bare_repo() -> RepoProbe {
    RepoProbe {
        jj_marker: false,
        jj_label: None,
        git: Some(GitRepoState {
            is_bare: true,
            workdir: None,
            head_detached: false,
            head_name: Some("main".to_string()),
        }),
    }
}

fn nothing() -> RepoProbe {
    RepoProbe { jj_marker: false, jj_label: None, git: None }
}

fn jj_repo(label: &str) -> RepoProbe {
    RepoProbe { jj_marker: true, jj_label: Some(label.to_string()), git: None }
}

#[test]
fn git_branch_with_default_format() {
    let out = process_line(&defaults(), "/repo/a", &git_repo("/repo/a", "main"));
    assert_eq!(out, Some("/repo/a main".to_string()));
}

#[test]
fn git_workdir_with_trailing_separator_matches() {
    let out = process_line(&defaults(), "/repo/a", &git_repo("/repo/a/", "main"));
    assert_eq!(out, Some("/repo/a main".to_string()));
}

#[test]
fn filter_drops_a_path_that_is_no_repository() {
    let out = process_line(&options(None, 0, true, false), "/repo/a", &nothing());
    assert_eq!(out, None);
}

#[test]
fn unresolved_path_passes_through_without_filter() {
    let out = process_line(&defaults(), "/repo/a", &nothing());
    assert_eq!(out, Some("/repo/a".to_string()));
}

#[test]
fn no_bare_drops_a_bare_repository() {
    let out = process_line(&options(None, 0, false, true), "/repo/b", &bare_repo());
    assert_eq!(out, None);
    let out = process_line(&options(None, 0, true, true), "/repo/b", &bare_repo());
    assert_eq!(out, None);
}

#[test]
fn bare_repository_is_kept_without_no_bare() {
    let mut probe = bare_repo();
    if let Some(g) = probe.git.as_mut() {
        g.workdir = Some("/repo/b".to_string());
    }
    let out = process_line(&defaults(), "/repo/b", &probe);
    assert_eq!(out, Some("/repo/b main".to_string()));
}

#[test]
fn jj_bookmarks_of_working_copy_and_parent() {
    let mut w = AncestryWalk::new(vec![1]);
    w.visit(vec!["feat".to_string()], Some(vec![2]));
    w.visit(vec!["main".to_string()], Some(vec![3]));
    w.visit(Vec::new(), None);
    let probe = RepoProbe { jj_marker: true, jj_label: w.label(), git: None };
    let out = process_line(&defaults(), "/repo/c", &probe);
    assert_eq!(out, Some("/repo/c feat, main".to_string()));
}

#[test]
fn jj_label_comes_before_git_branch() {
    let mut probe = git_repo("/repo/c", "main");
    probe.jj_marker = true;
    probe.jj_label = Some("feat".to_string());
    let out = process_line(&defaults(), "/repo/c", &probe);
    assert_eq!(out, Some("/repo/c feat".to_string()));
}

#[test]
fn custom_format_puts_branch_first() {
    let out = process_line(
        &options(Some("{branch}:{path}"), 0, false, false),
        "/repo/a",
        &git_repo("/repo/a", "dev"),
    );
    assert_eq!(out, Some("dev:/repo/a".to_string()));
}

#[test]
fn unknown_placeholder_drops_the_line() {
    let out = process_line(
        &options(Some("{path} {nope}"), 0, false, false),
        "/repo/a",
        &git_repo("/repo/a", "main"),
    );
    assert_eq!(out, None);
}

#[test]
fn malformed_template_drops_the_line() {
    let out = process_line(
        &options(Some("{path"), 0, false, false),
        "/repo/a",
        &git_repo("/repo/a", "main"),
    );
    assert_eq!(out, None);
}

#[test]
fn nth_segment_is_the_path() {
    let out = process_line(
        &options(None, 1, false, false),
        "  session /repo/a  ",
        &git_repo("/repo/a", "main"),
    );
    assert_eq!(out, Some("/repo/a main".to_string()));
}

#[test]
fn missing_segment_gives_an_empty_path() {
    let out = process_line(&options(None, 3, false, false), "a b", &git_repo("a", "main"));
    assert_eq!(out, Some(String::new()));
    let out = process_line(&options(None, 3, true, false), "a b", &git_repo("a", "main"));
    assert_eq!(out, None);
}

#[test]
fn worktree_admin_directory_is_unresolved() {
    let out = process_line(
        &defaults(),
        "/repo/a/.git/worktrees/w",
        &git_repo("/repo/w", "main"),
    );
    assert_eq!(out, Some("/repo/a/.git/worktrees/w".to_string()));
}

#[test]
fn detached_head_is_unresolved() {
    let mut probe = git_repo("/repo/a", "HEAD");
    if let Some(g) = probe.git.as_mut() {
        g.head_detached = true;
    }
    let out = process_line(&options(None, 0, true, false), "/repo/a", &probe);
    assert_eq!(out, None);
}

#[test]
fn head_short_name_is_the_branch() {
    for no_bare in [false, true] {
        let mut info = VcsInfo::new(vec!["/repo/a".to_string()], 0);
        info.update_branch(&options(None, 0, false, no_bare), &git_repo("/repo/a", "topic/x"));
        assert_eq!(info.branch, Some("topic/x".to_string()));
    }
}

#[test]
fn filter_keeps_only_resolved_lines() {
    let opts = options(None, 0, true, false);
    let cases = [
        ("/repo/a", git_repo("/repo/a", "main"), true),
        ("/repo/a", nothing(), false),
        ("/repo/c", jj_repo("feat"), true),
        ("", git_repo("/repo/a", "main"), false),
    ];
    for (line, probe, kept) in cases.iter() {
        let out = process_line(&opts, line, probe);
        assert_eq!(out.is_some(), *kept);
        if let Some(text) = out {
            assert!(!text.ends_with(' '));
        }
    }
}

#[test]
fn processing_twice_gives_the_same_text() {
    let opts = defaults();
    let probe = git_repo("/repo/a", "main");
    let first = process_line(&opts, "/repo/a x", &probe);
    let second = process_line(&opts, "/repo/a x", &probe);
    assert_eq!(first, second);
}

#[test]
fn path_str_selects_the_segment() {
    let info = VcsInfo::new(vec!["a".to_string(), "b".to_string()], 1);
    assert_eq!(info.path_str(), Some("b"));
    let info = VcsInfo::new(vec!["a".to_string()], 1);
    assert_eq!(info.path_str(), None);
    assert_eq!(info.branch, None);
}

#[test]
fn update_branch_without_path_finds_nothing() {
    let mut info = VcsInfo::new(vec!["a".to_string()], 2);
    info.update_branch(&defaults(), &jj_repo("feat"));
    assert_eq!(info.branch, None);
}

#[test]
fn fill_template_substitutes_values() {
    let vars = vec![
        ("path".to_string(), "/p".to_string()),
        ("branch".to_string(), "b".to_string()),
    ];
    assert_eq!(fill_template("[{branch}] {path}", &vars), Some("[b] /p".to_string()));
    assert_eq!(fill_template("{other}", &vars), None);
}

#[test]
fn user_config_path_joins_home() {
    assert_eq!(user_config_path("/home/u"), "/home/u/.config/jj/config.toml");
    assert_eq!(user_config_path("/home/u/"), "/home/u/.config/jj/config.toml");
    assert_eq!(user_config_path(""), ".config/jj/config.toml");
}

#[test]
fn default_jj_config_disables_signing() {
    assert!(DEFAULT_JJ_CONFIG.contains("[signing]\nbackend = \"none\""));
    assert!(DEFAULT_JJ_CONFIG.contains("conflict-marker-style = \"diff\""));
}

#[test]
fn jj_directory_without_bookmarks_does_not_fall_back_to_git() {
    let mut probe = git_repo("/repo/c", "main");
    probe.jj_marker = true;
    let out = process_line(&defaults(), "/repo/c", &probe);
    assert_eq!(out, Some("/repo/c".to_string()));
    let out = process_line(&options(None, 0, true, false), "/repo/c", &probe);
    assert_eq!(out, None);
}

#[test]
fn empty_branch_name_is_unresolved() {
    let out = process_line(&options(None, 0, true, false), "/repo/a", &git_repo("/repo/a", ""));
    assert_eq!(out, None);
    let out = process_line(&options(None, 0, true, false), "/repo/c", &jj_repo(""));
    assert_eq!(out, None);
}

#[test]
fn update_branch_without_path_keeps_the_branch() {
    let mut info = VcsInfo::new(vec!["a".to_string()], 2);
    info.branch = Some("kept".to_string());
    info.update_branch(&defaults(), &git_repo("a", "main"));
    assert_eq!(info.branch, Some("kept".to_string()));
}

#[test]
fn bookmark_beyond_the_tenth_commit_is_not_seen() {
    let mut w = AncestryWalk::new(vec![0]);
    while let Some(c) = w.pending() {
        let n = c[0];
        let names = if n == 10 { vec!["old".to_string()] } else { Vec::new() };
        let parent = if n < 11 { Some(vec![n + 1]) } else { None };
        w.visit(names, parent);
    }
    let probe = RepoProbe { jj_marker: true, jj_label: w.label(), git: None };
    assert_eq!(probe.jj_label, None);
    let out = process_line(&options(None, 0, true, false), "/repo/c", &probe);
    assert_eq!(out, None);
}
