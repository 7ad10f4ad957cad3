use chronos_fm::git_page::{
    branch_name_error, commit_message_error, failure_message, remote_inputs_error, toggle_pin,
    DiffSelection, GitAction, GitPanel, RefreshResult,
};
use chronos_fm::pages::GitView;

fn hashes(list: &[&str]) -> Vec<String> {
    list.iter().map(|h| h.to_string()).collect()
}

#[test]
fn commit_requires_a_message_unless_amending() {
    assert_eq!(commit_message_error("  \n", false), Some("commit message is empty".to_string()));
    assert_eq!(commit_message_error("", true), None);
    assert_eq!(commit_message_error("fix", false), None);
}

#[test]
fn branch_and_remote_inputs_are_checked() {
    assert_eq!(branch_name_error(" "), Some("branch name is empty".to_string()));
    assert_eq!(branch_name_error("main"), None);
    assert_eq!(
        remote_inputs_error("origin", ""),
        Some("remote name and url are both required".to_string())
    );
    assert_eq!(remote_inputs_error("origin", "https://x"), None);
}

#[test]
fn failures_name_the_operation() {
    assert_eq!(failure_message(&GitAction::Stage("a.rs".into()), "locked"), "stage a.rs: locked");
    assert_eq!(failure_message(&GitAction::Commit { amend: true }, "e"), "amend: e");
    assert_eq!(failure_message(&GitAction::Commit { amend: false }, "e"), "commit: e");
    assert_eq!(failure_message(&GitAction::CreateBranch("x".into()), "e"), "create branch x: e");
    assert_eq!(failure_message(&GitAction::StashPop, "e"), "stash pop: e");
}

#[test]
fn pinning_toggles() {
    assert_eq!(toggle_pin(Some("/r".into()), Some("/w".into())), None);
    assert_eq!(toggle_pin(None, Some("/w".into())), Some("/w".to_string()));
    assert_eq!(toggle_pin(None, None), None);
}

#[test]
fn refresh_without_directory_does_nothing() {
    let mut panel: GitPanel<String> = GitPanel::new(GitView::Changes);
    assert_eq!(panel.begin_refresh(false), None);
    assert!(!panel.refreshing);
    assert_eq!(panel.refresh_generation, 0);
}

#[test]
fn older_refresh_result_is_dropped() {
    let mut panel: GitPanel<String> = GitPanel::new(GitView::History);
    let first = panel.begin_refresh(true).unwrap();
    let second = panel.begin_refresh(true).unwrap();
    assert_eq!((first, second), (1, 2));
    assert!(!panel.finish_refresh(first, RefreshResult::Failed("slow".to_string())));
    assert!(panel.error.is_none());
    assert!(panel.refreshing);
    assert!(panel.finish_refresh(second, RefreshResult::Read { history: hashes(&["a1", "b2"]) }));
    assert!(!panel.refreshing);
    assert_eq!(panel.history, hashes(&["a1", "b2"]));
}

#[test]
fn refresh_keeps_selection_only_while_in_history() {
    let mut panel: GitPanel<String> = GitPanel::new(GitView::History);
    let g = panel.begin_refresh(true).unwrap();
    panel.finish_refresh(g, RefreshResult::Read { history: hashes(&["a1", "b2"]) });
    panel.select_commit("b2".to_string());
    assert!(panel.commit_detail_loaded("b2", Ok("detail".to_string())));
    let g = panel.begin_refresh(true).unwrap();
    panel.finish_refresh(g, RefreshResult::Read { history: hashes(&["c3", "b2"]) });
    assert_eq!(panel.selected_commit.as_deref(), Some("b2"));
    assert_eq!(panel.commit_detail.as_deref(), Some("detail"));
    let g = panel.begin_refresh(true).unwrap();
    panel.finish_refresh(g, RefreshResult::Read { history: hashes(&["d4"]) });
    assert!(panel.selected_commit.is_none());
    assert!(panel.commit_detail.is_none());
}

#[test]
fn leaving_a_repository_clears_what_was_read() {
    let mut panel: GitPanel<String> = GitPanel::new(GitView::Changes);
    let g = panel.begin_refresh(true).unwrap();
    panel.finish_refresh(g, RefreshResult::Read { history: hashes(&["a1"]) });
    panel.select_commit("a1".to_string());
    panel.diff_loaded("x.rs".to_string(), false, Ok("@@".to_string()));
    let g = panel.begin_refresh(true).unwrap();
    panel.finish_refresh(g, RefreshResult::NotARepository);
    assert!(panel.no_repo);
    assert!(panel.history.is_empty());
    assert!(panel.selected_diff.is_none());
    assert!(panel.selected_commit.is_none());
    assert!(panel.error.is_none());
}

#[test]
fn stale_commit_detail_is_dropped() {
    let mut panel: GitPanel<String> = GitPanel::new(GitView::History);
    panel.select_commit("a1".to_string());
    panel.select_commit("b2".to_string());
    assert!(!panel.commit_detail_loaded("a1", Ok("old".to_string())));
    assert!(panel.commit_detail.is_none());
    assert!(panel.commit_detail_loaded("b2", Err("bad object".to_string())));
    assert_eq!(panel.error.as_deref(), Some("commit detail b2: bad object"));
}

#[test]
fn diff_results_are_shown_or_reported() {
    let mut panel: GitPanel<String> = GitPanel::new(GitView::Changes);
    panel.diff_loaded("a.rs".to_string(), true, Ok("+x".to_string()));
    assert_eq!(
        panel.selected_diff,
        Some(DiffSelection { path: "a.rs".to_string(), staged: true, text: "+x".to_string() })
    );
    panel.diff_loaded("b.rs".to_string(), false, Err("gone".to_string()));
    assert_eq!(panel.error.as_deref(), Some("diff b.rs: gone"));
    assert_eq!(panel.selected_diff.as_ref().map(|d| d.path.as_str()), Some("a.rs"));
}

#[test]
fn exclusive_operations_run_one_at_a_time() {
    let mut panel: GitPanel<String> = GitPanel::new(GitView::Remotes);
    assert!(panel.try_start(&GitAction::Push));
    assert!(panel.busy);
    assert!(!panel.try_start(&GitAction::Pull));
    assert!(panel.try_start(&GitAction::Stage("a.rs".to_string())));
    assert!(!panel.action_finished(&GitAction::Push, Err("rejected".to_string())));
    assert!(!panel.busy);
    assert_eq!(panel.error.as_deref(), Some("push: rejected"));
    assert!(panel.try_start(&GitAction::Fetch("origin".to_string())));
}

#[test]
fn finished_operations_reset_their_inputs() {
    let mut panel: GitPanel<String> = GitPanel::new(GitView::Changes);
    panel.toggle_amend();
    assert!(panel.amend);
    assert!(panel.action_finished(&GitAction::Commit { amend: true }, Ok(())));
    assert!(!panel.amend);
    panel.diff_loaded("a.rs".to_string(), false, Ok("+".to_string()));
    assert!(!panel.action_finished(&GitAction::Checkout("main".to_string()), Ok(())));
    assert!(panel.selected_diff.is_none());
    assert!(panel.action_finished(&GitAction::CreateBranch("topic".to_string()), Ok(())));
    assert!(panel.action_finished(&GitAction::Stash, Ok(())));
    assert!(!panel.action_finished(&GitAction::StashPop, Ok(())));
    panel.select_view(GitView::Stashes);
    assert_eq!(panel.view, GitView::Stashes);
}

#[test]
fn git_view_texts() {
    assert_eq!(chronos_fm::git_page::history_count_text(50), "50 commits");
    assert_eq!(chronos_fm::git_page::remotes_count_text(0), "0 configured");
    assert_eq!(chronos_fm::git_page::branches_count_text(3), "3 local");
    assert_eq!(chronos_fm::git_page::files_count_text(1), "1 file");
    assert_eq!(chronos_fm::git_page::files_count_text(12), "12 files");
    assert_eq!(chronos_fm::git_page::stash_count_text(1), "1 entry");
    assert_eq!(chronos_fm::git_page::stash_count_text(2), "2 entries");
    assert_eq!(
        chronos_fm::git_page::stash_description(0, "main", "wip"),
        "stash@{0}: main -- wip"
    );
    assert_eq!(chronos_fm::git_page::diff_title("a.rs", true), "Diff (staged) — a.rs");
    assert_eq!(chronos_fm::git_page::diff_title("a.rs", false), "Diff (worktree) — a.rs");
    assert_eq!(
        chronos_fm::git_page::line_stat_texts(4, 2),
        ("+4".to_string(), "−2".to_string())
    );
}
