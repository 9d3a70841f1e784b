use wt_manager::i18n::{Language, MessageKey, Messages};

#[test]
fn detect_korean_by_prefix() {
    assert_eq!(Language::detect(Some("ko_KR.UTF-8")), Language::Korean);
    assert_eq!(Language::detect(Some("ko")), Language::Korean);
    assert_eq!(Language::detect(Some("en_US.UTF-8")), Language::English);
    assert_eq!(Language::detect(Some("k")), Language::English);
    assert_eq!(Language::detect(Some("")), Language::English);
    assert_eq!(Language::detect(None), Language::English);
}

#[test]
fn new_follows_the_locale() {
    assert_eq!(Messages::new(Some("ko_KR")).language(), Language::Korean);
    assert_eq!(Messages::new(Some("C")).language(), Language::English);
    assert_eq!(Messages::new(None).language(), Language::English);
}

#[test]
fn english_messages() {
    let m = Messages::with_language(Language::English);
    assert_eq!(m.select_project(), "Select Project");
    assert_eq!(m.select_or_create_worktree(), "Select or Create Worktree");
    assert_eq!(m.cannot_delete_main(), "✗ Cannot delete main worktree");
    assert_eq!(m.worktree_deleted(), "✓ Worktree '{}' deleted successfully");
    assert_eq!(m.help_cancel(), "Ctrl+C/Esc: Cancel");
    assert_eq!(m.help_exact_match(), "(exact match)");
}

#[test]
fn korean_messages() {
    let m = Messages::with_language(Language::Korean);
    assert_eq!(m.select_project(), "프로젝트 선택");
    assert_eq!(m.cannot_delete_main(), "✗ 메인 워크트리는 삭제할 수 없습니다");
    assert_eq!(m.help_tab(), "Tab: 자동완성");
}

#[test]
fn every_english_message_has_its_wording() {
    let m = Messages::with_language(Language::English);
    assert_eq!(m.select_project(), "Select Project");
    assert_eq!(m.no_projects_found(), "No projects found in database.");
    assert_eq!(m.navigate_to_git_repo(), "Navigate to a git repository and run 'wt' to add it.");
    assert_eq!(m.select_or_create_worktree(), "Select or Create Worktree");
    assert_eq!(m.switching_to_project(), "✓ Switching to project:");
    assert_eq!(m.switching_to_worktree(), "✓ Switching to worktree:");
    assert_eq!(m.creating_new_worktree(), "✓ Creating new worktree:");
    assert_eq!(m.deleting_worktree(), "🗑️  Deleting worktree:");
    assert_eq!(m.worktree_deleted(), "✓ Worktree '{}' deleted successfully");
    assert_eq!(m.cannot_delete_main(), "✗ Cannot delete main worktree");
    assert_eq!(m.failed_to_delete(), "✗ Failed to delete worktree:");
    assert_eq!(m.uncommitted_changes_tip(), "💡 Tip: The worktree may have uncommitted changes.");
    assert_eq!(m.force_delete_command(), "   To force delete, run:");
    assert_eq!(m.deps_installed(), "✓ Dependencies installed successfully");
    assert_eq!(m.pnpm_install_warning(), "Warning: Could not run pnpm install");
    assert_eq!(m.help_search(), "Type to search");
    assert_eq!(m.help_tab(), "Tab: Autocomplete");
    assert_eq!(m.help_enter_select(), "Enter: Select");
    assert_eq!(m.help_ctrl_b_create(), "Ctrl+B: Create");
    assert_eq!(m.help_ctrl_x_delete(), "Ctrl+X: Delete");
    assert_eq!(m.help_cancel(), "Ctrl+C/Esc: Cancel");
    assert_eq!(m.help_backspace(), "Backspace: Edit");
    assert_eq!(m.help_create_new_branch(), "Ctrl+B: Create new branch");
    assert_eq!(m.help_exact_match(), "(exact match)");
}

#[test]
fn every_korean_message_has_its_wording() {
    let m = Messages::with_language(Language::Korean);
    assert_eq!(m.select_project(), "프로젝트 선택");
    assert_eq!(m.no_projects_found(), "데이터베이스에 프로젝트가 없습니다.");
    assert_eq!(m.navigate_to_git_repo(), "git 저장소로 이동한 후 'wt'를 실행하여 추가하세요.");
    assert_eq!(m.select_or_create_worktree(), "워크트리 선택 또는 생성");
    assert_eq!(m.switching_to_project(), "✓ 프로젝트로 전환:");
    assert_eq!(m.switching_to_worktree(), "✓ 워크트리로 전환:");
    assert_eq!(m.creating_new_worktree(), "✓ 새 워크트리 생성:");
    assert_eq!(m.deleting_worktree(), "🗑️  워크트리 삭제:");
    assert_eq!(m.worktree_deleted(), "✓ 워크트리 '{}'가 성공적으로 삭제되었습니다");
    assert_eq!(m.cannot_delete_main(), "✗ 메인 워크트리는 삭제할 수 없습니다");
    assert_eq!(m.failed_to_delete(), "✗ 워크트리 삭제 실패:");
    assert_eq!(m.uncommitted_changes_tip(), "💡 팁: 워크트리에 커밋되지 않은 변경사항이 있을 수 있습니다.");
    assert_eq!(m.force_delete_command(), "   강제 삭제하려면 다음 명령을 실행하세요:");
    assert_eq!(m.deps_installed(), "✓ 의존성이 성공적으로 설치되었습니다");
    assert_eq!(m.pnpm_install_warning(), "경고: pnpm install을 실행할 수 없습니다");
    assert_eq!(m.help_search(), "검색어 입력");
    assert_eq!(m.help_tab(), "Tab: 자동완성");
    assert_eq!(m.help_enter_select(), "Enter: 선택");
    assert_eq!(m.help_ctrl_b_create(), "Ctrl+B: 생성");
    assert_eq!(m.help_ctrl_x_delete(), "Ctrl+X: 삭제");
    assert_eq!(m.help_cancel(), "Ctrl+C/Esc: 취소");
    assert_eq!(m.help_backspace(), "Backspace: 편집");
    assert_eq!(m.help_create_new_branch(), "Ctrl+B: 새 브랜치 생성");
    assert_eq!(m.help_exact_match(), "(정확히 일치)");
}

#[test]
fn get_agrees_with_the_named_messages() {
    for lang in [Language::English, Language::Korean] {
        let m = Messages::with_language(lang);
        assert_eq!(m.get(MessageKey::SelectProject), m.select_project());
        assert_eq!(m.get(MessageKey::NoProjectsFound), m.no_projects_found());
        assert_eq!(m.get(MessageKey::NavigateToGitRepo), m.navigate_to_git_repo());
        assert_eq!(m.get(MessageKey::SelectOrCreateWorktree), m.select_or_create_worktree());
        assert_eq!(m.get(MessageKey::SwitchingToProject), m.switching_to_project());
        assert_eq!(m.get(MessageKey::SwitchingToWorktree), m.switching_to_worktree());
        assert_eq!(m.get(MessageKey::CreatingNewWorktree), m.creating_new_worktree());
        assert_eq!(m.get(MessageKey::DeletingWorktree), m.deleting_worktree());
        assert_eq!(m.get(MessageKey::WorktreeDeleted), m.worktree_deleted());
        assert_eq!(m.get(MessageKey::CannotDeleteMain), m.cannot_delete_main());
        assert_eq!(m.get(MessageKey::FailedToDelete), m.failed_to_delete());
        assert_eq!(m.get(MessageKey::UncommittedChangesTip), m.uncommitted_changes_tip());
        assert_eq!(m.get(MessageKey::ForceDeleteCommand), m.force_delete_command());
        assert_eq!(m.get(MessageKey::DepsInstalled), m.deps_installed());
        assert_eq!(m.get(MessageKey::PnpmInstallWarning), m.pnpm_install_warning());
        assert_eq!(m.get(MessageKey::HelpSearch), m.help_search());
        assert_eq!(m.get(MessageKey::HelpTab), m.help_tab());
        assert_eq!(m.get(MessageKey::HelpEnterSelect), m.help_enter_select());
        assert_eq!(m.get(MessageKey::HelpCtrlBCreate), m.help_ctrl_b_create());
        assert_eq!(m.get(MessageKey::HelpCtrlXDelete), m.help_ctrl_x_delete());
        assert_eq!(m.get(MessageKey::HelpCancel), m.help_cancel());
        assert_eq!(m.get(MessageKey::HelpBackspace), m.help_backspace());
        assert_eq!(m.get(MessageKey::HelpCreateNewBranch), m.help_create_new_branch());
        assert_eq!(m.get(MessageKey::HelpExactMatch), m.help_exact_match());
    }
}
