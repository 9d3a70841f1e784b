use wt_manager::db::{Database, ProjectInfo, RegistryError};
use wt_manager::git::WorktreeInfo;
use wt_manager::i18n::{Language, Messages};
use wt_manager::selector::SelectorAction;
use wt_manager::tui::{
    announce_no_projects, announce_plan, announce_project, deletion_confirmed, find_worktree,
    handle_git_repo, plan_project_action, plan_worktree_action, project_labels, report_install,
    report_removal, worktree_labels, Line, Route, WorktreePlan,
};

fn worktrees() -> Vec<WorktreeInfo> {
    vec![
        WorktreeInfo { path: "/home/u/proj".to_string(), branch: "main".to_string(), is_main: true },
        WorktreeInfo {
            path: "/home/u/_wt/proj_9c09f8055a26c277/feature-a".to_string(),
            branch: "feature-a".to_string(),
            is_main: false,
        },
        WorktreeInfo {
            path: "/home/u/_wt/proj_9c09f8055a26c277/Feature-A".to_string(),
            branch: "Feature-A".to_string(),
            is_main: false,
        },
    ]
}

fn projects() -> Vec<ProjectInfo> {
    vec![
        ProjectInfo { path: "/home/u/alpha".to_string(), name: "alpha".to_string(), last_accessed: 3 },
        ProjectInfo { path: "/home/u/beta".to_string(), name: "beta".to_string(), last_accessed: 2 },
    ]
}

#[test]
fn worktree_labels_mark_the_main_worktree() {
    assert_eq!(worktree_labels(&worktrees()), vec!["main (main)", "feature-a", "Feature-A"]);
    assert_eq!(worktree_labels(&Vec::new()), Vec::<String>::new());
}

#[test]
fn listed_bare_repository_cannot_be_deleted() {
    let list = wt_manager::git::parse_worktree_list(
        "worktree /repo\nbare\nbranch refs/heads/main\n\nworktree /wt/a\nbranch refs/heads/a\n",
    );
    assert_eq!(worktree_labels(&list), vec!["main (main)", "a"]);
    assert_eq!(
        plan_worktree_action(&list, SelectorAction::Delete("main".to_string())),
        WorktreePlan::RefuseMain
    );
    let nameless = wt_manager::git::parse_worktree_list("worktree /repo\nbare\n\n");
    assert_eq!(worktree_labels(&nameless), vec![" (main)"]);
    assert_eq!(
        plan_worktree_action(&nameless, SelectorAction::Select(String::new())),
        WorktreePlan::Nothing
    );
}

#[test]
fn project_labels_show_name_and_path() {
    assert_eq!(
        project_labels(&projects()),
        vec!["alpha (/home/u/alpha)", "beta (/home/u/beta)"]
    );
}

#[test]
fn find_worktree_ignores_ascii_case() {
    assert_eq!(find_worktree(&worktrees(), "MAIN"), Some(0));
    assert_eq!(find_worktree(&worktrees(), "FEATURE-A"), Some(1));
    assert_eq!(find_worktree(&worktrees(), "feature"), None);
}

#[test]
fn picked_worktree_is_switched_to() {
    assert_eq!(
        plan_worktree_action(&worktrees(), SelectorAction::Select("feature-a".to_string())),
        WorktreePlan::Switch(1)
    );
    assert_eq!(
        plan_worktree_action(&worktrees(), SelectorAction::Select("main".to_string())),
        WorktreePlan::Switch(0)
    );
}

#[test]
fn picked_unknown_branch_is_created() {
    assert_eq!(
        plan_worktree_action(&worktrees(), SelectorAction::Select("feature-x".to_string())),
        WorktreePlan::Create("feature-x".to_string())
    );
    assert_eq!(
        plan_worktree_action(&worktrees(), SelectorAction::Select(String::new())),
        WorktreePlan::Nothing
    );
}

#[test]
fn create_new_always_creates() {
    assert_eq!(
        plan_worktree_action(&worktrees(), SelectorAction::CreateNew("feature-a".to_string())),
        WorktreePlan::Create("feature-a".to_string())
    );
    assert_eq!(
        plan_worktree_action(&worktrees(), SelectorAction::CreateNew("__CREATE_NEW__x".to_string())),
        WorktreePlan::Create("__CREATE_NEW__x".to_string())
    );
}

#[test]
fn deleting_main_is_refused() {
    assert_eq!(
        plan_worktree_action(&worktrees(), SelectorAction::Delete("main".to_string())),
        WorktreePlan::RefuseMain
    );
    assert_eq!(
        Messages::with_language(Language::English).cannot_delete_main(),
        "✗ Cannot delete main worktree"
    );
}

#[test]
fn deleting_another_worktree_removes_it() {
    assert_eq!(
        plan_worktree_action(&worktrees(), SelectorAction::Delete("Feature-A".to_string())),
        WorktreePlan::Remove(1)
    );
    assert_eq!(
        plan_worktree_action(&worktrees(), SelectorAction::Delete("gone".to_string())),
        WorktreePlan::Nothing
    );
}

#[test]
fn cancel_does_nothing() {
    assert_eq!(plan_worktree_action(&worktrees(), SelectorAction::Cancel), WorktreePlan::Nothing);
}

#[test]
fn picked_project_is_the_best_match() {
    let labels = project_labels(&projects());
    assert_eq!(plan_project_action(&labels, &SelectorAction::Select("beta".to_string())), Some(1));
    assert_eq!(plan_project_action(&labels, &SelectorAction::Select("alpha".to_string())), Some(0));
    assert_eq!(plan_project_action(&labels, &SelectorAction::Select(String::new())), Some(0));
    assert_eq!(plan_project_action(&labels, &SelectorAction::Select("zzz".to_string())), None);
}

#[test]
fn other_project_actions_pick_nothing() {
    let labels = project_labels(&projects());
    assert_eq!(plan_project_action(&labels, &SelectorAction::Cancel), None);
    assert_eq!(plan_project_action(&labels, &SelectorAction::Delete("beta".to_string())), None);
    assert_eq!(plan_project_action(&labels, &SelectorAction::CreateNew("beta".to_string())), None);
}

#[test]
fn deletion_is_confirmed_with_the_branch() {
    assert_eq!(
        deletion_confirmed(&Messages::with_language(Language::English), "feature-a"),
        "✓ Worktree 'feature-a' deleted successfully"
    );
    assert_eq!(
        deletion_confirmed(&Messages::with_language(Language::Korean), "feature-a"),
        "✓ 워크트리 'feature-a'가 성공적으로 삭제되었습니다"
    );
}

#[test]
fn repository_is_saved_before_routing() {
    let mut db = Database::new();
    assert_eq!(
        handle_git_repo(&mut db, "/home/u/proj", Some("feature-x"), 50),
        Ok(Route::Worktree("feature-x".to_string()))
    );
    assert_eq!(handle_git_repo(&mut db, "/home/u/proj", None, 60), Ok(Route::WorktreeScreen));
    assert_eq!(
        db.projects(),
        &vec![ProjectInfo {
            path: "/home/u/proj".to_string(),
            name: "proj".to_string(),
            last_accessed: 60,
        }]
    );
    assert_eq!(
        handle_git_repo(&mut db, "/", Some("x"), 70),
        Err(RegistryError::InvalidRepositoryPath)
    );
    assert_eq!(db.projects().len(), 1);
}

fn said(text: &str) -> Line {
    Line { text: text.to_string(), warning: false }
}

fn warned(text: &str) -> Line {
    Line { text: text.to_string(), warning: true }
}

#[test]
fn plans_are_announced() {
    let english = Messages::with_language(Language::English);
    let list = worktrees();
    assert_eq!(announce_plan(&english, &list, &WorktreePlan::Nothing), Vec::<Line>::new());
    assert_eq!(
        announce_plan(&english, &list, &WorktreePlan::Create("feature-x".to_string())),
        vec![said("\n✓ Creating new worktree: feature-x")]
    );
    assert_eq!(
        announce_plan(&english, &list, &WorktreePlan::Switch(1)),
        vec![
            said("\n✓ Switching to worktree: feature-a"),
            said("  cd /home/u/_wt/proj_9c09f8055a26c277/feature-a"),
        ]
    );
    assert_eq!(
        announce_plan(&english, &list, &WorktreePlan::RefuseMain),
        vec![warned("✗ Cannot delete main worktree")]
    );
    assert_eq!(
        announce_plan(&english, &list, &WorktreePlan::Remove(2)),
        vec![said("\n🗑️  Deleting worktree: Feature-A")]
    );
}

#[test]
fn removal_is_reported() {
    let english = Messages::with_language(Language::English);
    let list = worktrees();
    assert_eq!(
        report_removal(&english, &list[1], None),
        vec![said("✓ Worktree 'feature-a' deleted successfully")]
    );
    assert_eq!(
        report_removal(&english, &list[1], Some("Failed to remove worktree: fatal: dirty")),
        vec![
            warned("\n✗ Failed to delete worktree: Failed to remove worktree: fatal: dirty"),
            warned("\n💡 Tip: The worktree may have uncommitted changes."),
            warned("   To force delete, run: /home/u/_wt/proj_9c09f8055a26c277/feature-a"),
        ]
    );
}

#[test]
fn install_outcome_is_reported() {
    let korean = Messages::with_language(Language::Korean);
    assert_eq!(report_install(&korean, true), said("✓ 의존성이 성공적으로 설치되었습니다"));
    assert_eq!(report_install(&korean, false), warned("경고: pnpm install을 실행할 수 없습니다"));
}

#[test]
fn picked_project_is_announced() {
    let english = Messages::with_language(Language::English);
    assert_eq!(
        announce_project(&english, &projects()[1]),
        vec![said("\n✓ Switching to project: beta"), said("  cd /home/u/beta")]
    );
}

#[test]
fn empty_registry_is_announced() {
    let english = Messages::with_language(Language::English);
    assert_eq!(
        announce_no_projects(&english),
        vec![
            said("No projects found in database."),
            said("Navigate to a git repository and run 'wt' to add it."),
        ]
    );
}
