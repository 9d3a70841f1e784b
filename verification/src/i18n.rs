//! The messages shown to the user, in each supported language.

use crate::text::chars_of;
use vstd::prelude::*;

verus! {

/// A language that the messages exist in.
#[derive(Debug, Clone, Copy, PartialEq, Eq, Structural)]
pub enum Language {
    English,
    Korean,
}

/// Whether a locale name, as the `LANG` variable gives it, asks for Korean:
/// it does when it begins with `ko`.
pub open spec fn is_korean_locale(locale: Seq<char>) -> bool {
    locale.len() >= 2 && locale[0] == 'k' && locale[1] == 'o'
}

/// The language for a locale name: Korean where the name asks for it,
/// English otherwise and where there is no name.
pub open spec fn language_of(locale: Option<Seq<char>>) -> Language {
    match locale {
        Some(name) => if is_korean_locale(name) {
            Language::Korean
        } else {
            Language::English
        },
        None => Language::English,
    }
}

/// The locale name as a sequence.
pub open spec fn locale_text(locale: Option<&str>) -> Option<Seq<char>> {
    match locale {
        Some(name) => Some(name@),
        None => None,
    }
}

impl Language {
    /// The language for the locale name `locale`.
    pub fn detect(locale: Option<&str>) -> (language: Language)
        ensures
            language == language_of(locale_text(locale)),
    {
        match locale {
            Some(name) => {
                let chars = chars_of(name);
                if chars.len() >= 2 && chars[0] == 'k' && chars[1] == 'o' {
                    Language::Korean
                } else {
                    Language::English
                }
            },
            None => Language::English,
        }
    }
}

/// The messages, by what they say.
#[derive(Debug, Clone, Copy, PartialEq, Eq, Structural)]
pub enum MessageKey {
    /// Title of the project list.
    SelectProject,
    /// Said when no project has been saved yet.
    NoProjectsFound,
    /// How to save a first project.
    NavigateToGitRepo,
    /// Title of the worktree list.
    SelectOrCreateWorktree,
    /// Announces the project that was picked; its name follows.
    SwitchingToProject,
    /// Announces the worktree that was picked; its branch follows.
    SwitchingToWorktree,
    /// Announces a new worktree; its branch follows.
    CreatingNewWorktree,
    /// Announces a removal; the branch follows.
    DeletingWorktree,
    /// Confirms a removal; `{}` stands where the branch goes.
    WorktreeDeleted,
    /// Refuses to remove the main worktree.
    CannotDeleteMain,
    /// Reports a failed removal; the cause follows.
    FailedToDelete,
    /// The likely cause of a failed removal.
    UncommittedChangesTip,
    /// Introduces the command that removes by force.
    ForceDeleteCommand,
    /// Confirms that dependencies were installed.
    DepsInstalled,
    /// Warns that dependencies were not installed.
    PnpmInstallWarning,
    /// Help: typing filters the list.
    HelpSearch,
    /// Help: the completion key.
    HelpTab,
    /// Help: the selection key.
    HelpEnterSelect,
    /// Help: the creation key.
    HelpCtrlBCreate,
    /// Help: the removal key.
    HelpCtrlXDelete,
    /// Help: the keys that cancel.
    HelpCancel,
    /// Help: the key that edits the query.
    HelpBackspace,
    /// Help: the creation key, where nothing matches.
    HelpCreateNewBranch,
    /// Help: the note that removal needs an exact match.
    HelpExactMatch,
}

/// The wording of each message in each language.
pub open spec fn message(lang: Language, key: MessageKey) -> Seq<char> {
    match key {
        MessageKey::SelectProject => match lang {
            Language::English => "Select Project"@,
            Language::Korean => "프로젝트 선택"@,
        },
        MessageKey::NoProjectsFound => match lang {
            Language::English => "No projects found in database."@,
            Language::Korean => "데이터베이스에 프로젝트가 없습니다."@,
        },
        MessageKey::NavigateToGitRepo => match lang {
            Language::English => "Navigate to a git repository and run 'wt' to add it."@,
            Language::Korean => "git 저장소로 이동한 후 'wt'를 실행하여 추가하세요."@,
        },
        MessageKey::SelectOrCreateWorktree => match lang {
            Language::English => "Select or Create Worktree"@,
            Language::Korean => "워크트리 선택 또는 생성"@,
        },
        MessageKey::SwitchingToProject => match lang {
            Language::English => "✓ Switching to project:"@,
            Language::Korean => "✓ 프로젝트로 전환:"@,
        },
        MessageKey::SwitchingToWorktree => match lang {
            Language::English => "✓ Switching to worktree:"@,
            Language::Korean => "✓ 워크트리로 전환:"@,
        },
        MessageKey::CreatingNewWorktree => match lang {
            Language::English => "✓ Creating new worktree:"@,
            Language::Korean => "✓ 새 워크트리 생성:"@,
        },
        MessageKey::DeletingWorktree => match lang {
            Language::English => "🗑️  Deleting worktree:"@,
            Language::Korean => "🗑️  워크트리 삭제:"@,
        },
        MessageKey::WorktreeDeleted => match lang {
            Language::English => "✓ Worktree '{}' deleted successfully"@,
            Language::Korean => "✓ 워크트리 '{}'가 성공적으로 삭제되었습니다"@,
        },
        MessageKey::CannotDeleteMain => match lang {
            Language::English => "✗ Cannot delete main worktree"@,
            Language::Korean => "✗ 메인 워크트리는 삭제할 수 없습니다"@,
        },
        MessageKey::FailedToDelete => match lang {
            Language::English => "✗ Failed to delete worktree:"@,
            Language::Korean => "✗ 워크트리 삭제 실패:"@,
        },
        MessageKey::UncommittedChangesTip => match lang {
            Language::English => "💡 Tip: The worktree may have uncommitted changes."@,
            Language::Korean => "💡 팁: 워크트리에 커밋되지 않은 변경사항이 있을 수 있습니다."@,
        },
        MessageKey::ForceDeleteCommand => match lang {
            Language::English => "   To force delete, run:"@,
            Language::Korean => "   강제 삭제하려면 다음 명령을 실행하세요:"@,
        },
        MessageKey::DepsInstalled => match lang {
            Language::English => "✓ Dependencies installed successfully"@,
            Language::Korean => "✓ 의존성이 성공적으로 설치되었습니다"@,
        },
        MessageKey::PnpmInstallWarning => match lang {
            Language::English => "Warning: Could not run pnpm install"@,
            Language::Korean => "경고: pnpm install을 실행할 수 없습니다"@,
        },
        MessageKey::HelpSearch => match lang {
            Language::English => "Type to search"@,
            Language::Korean => "검색어 입력"@,
        },
        MessageKey::HelpTab => match lang {
            Language::English => "Tab: Autocomplete"@,
            Language::Korean => "Tab: 자동완성"@,
        },
        MessageKey::HelpEnterSelect => match lang {
            Language::English => "Enter: Select"@,
            Language::Korean => "Enter: 선택"@,
        },
        MessageKey::HelpCtrlBCreate => match lang {
            Language::English => "Ctrl+B: Create"@,
            Language::Korean => "Ctrl+B: 생성"@,
        },
        MessageKey::HelpCtrlXDelete => match lang {
            Language::English => "Ctrl+X: Delete"@,
            Language::Korean => "Ctrl+X: 삭제"@,
        },
        MessageKey::HelpCancel => match lang {
            Language::English => "Ctrl+C/Esc: Cancel"@,
            Language::Korean => "Ctrl+C/Esc: 취소"@,
        },
        MessageKey::HelpBackspace => match lang {
            Language::English => "Backspace: Edit"@,
            Language::Korean => "Backspace: 편집"@,
        },
        MessageKey::HelpCreateNewBranch => match lang {
            Language::English => "Ctrl+B: Create new branch"@,
            Language::Korean => "Ctrl+B: 새 브랜치 생성"@,
        },
        MessageKey::HelpExactMatch => match lang {
            Language::English => "(exact match)"@,
            Language::Korean => "(정확히 일치)"@,
        },
    }
}

/// The message set of one language.
pub struct Messages {
    lang: Language,
}

impl View for Messages {
    type V = Language;

    closed spec fn view(&self) -> Language {
        self.lang
    }
}

impl Messages {
    /// The messages in the language of the locale name `locale`.
    pub fn new(locale: Option<&str>) -> (messages: Messages)
        ensures
            messages@ == language_of(locale_text(locale)),
    {
        Messages { lang: Language::detect(locale) }
    }

    /// The messages in `lang`.
    pub fn with_language(lang: Language) -> (messages: Messages)
        ensures
            messages@ == lang,
    {
        Messages { lang }
    }

    /// The language of these messages.
    pub fn language(&self) -> (lang: Language)
        ensures
            lang == self@,
    {
        self.lang
    }

    /// The wording of the message `key`.
    pub fn get(&self, key: MessageKey) -> (text: &'static str)
        ensures
            text@ == message(self@, key),
    {
        match key {
            MessageKey::SelectProject => match self.lang {
                Language::English => "Select Project",
                Language::Korean => "프로젝트 선택",
            },
            MessageKey::NoProjectsFound => match self.lang {
                Language::English => "No projects found in database.",
                Language::Korean => "데이터베이스에 프로젝트가 없습니다.",
            },
            MessageKey::NavigateToGitRepo => match self.lang {
                Language::English => "Navigate to a git repository and run 'wt' to add it.",
                Language::Korean => "git 저장소로 이동한 후 'wt'를 실행하여 추가하세요.",
            },
            MessageKey::SelectOrCreateWorktree => match self.lang {
                Language::English => "Select or Create Worktree",
                Language::Korean => "워크트리 선택 또는 생성",
            },
            MessageKey::SwitchingToProject => match self.lang {
                Language::English => "✓ Switching to project:",
                Language::Korean => "✓ 프로젝트로 전환:",
            },
            MessageKey::SwitchingToWorktree => match self.lang {
                Language::English => "✓ Switching to worktree:",
                Language::Korean => "✓ 워크트리로 전환:",
            },
            MessageKey::CreatingNewWorktree => match self.lang {
                Language::English => "✓ Creating new worktree:",
                Language::Korean => "✓ 새 워크트리 생성:",
            },
            MessageKey::DeletingWorktree => match self.lang {
                Language::English => "🗑️  Deleting worktree:",
                Language::Korean => "🗑️  워크트리 삭제:",
            },
            MessageKey::WorktreeDeleted => match self.lang {
                Language::English => "✓ Worktree '{}' deleted successfully",
                Language::Korean => "✓ 워크트리 '{}'가 성공적으로 삭제되었습니다",
            },
            MessageKey::CannotDeleteMain => match self.lang {
                Language::English => "✗ Cannot delete main worktree",
                Language::Korean => "✗ 메인 워크트리는 삭제할 수 없습니다",
            },
            MessageKey::FailedToDelete => match self.lang {
                Language::English => "✗ Failed to delete worktree:",
                Language::Korean => "✗ 워크트리 삭제 실패:",
            },
            MessageKey::UncommittedChangesTip => match self.lang {
                Language::English => "💡 Tip: The worktree may have uncommitted changes.",
                Language::Korean => "💡 팁: 워크트리에 커밋되지 않은 변경사항이 있을 수 있습니다.",
            },
            MessageKey::ForceDeleteCommand => match self.lang {
                Language::English => "   To force delete, run:",
                Language::Korean => "   강제 삭제하려면 다음 명령을 실행하세요:",
            },
            MessageKey::DepsInstalled => match self.lang {
                Language::English => "✓ Dependencies installed successfully",
                Language::Korean => "✓ 의존성이 성공적으로 설치되었습니다",
            },
            MessageKey::PnpmInstallWarning => match self.lang {
                Language::English => "Warning: Could not run pnpm install",
                Language::Korean => "경고: pnpm install을 실행할 수 없습니다",
            },
            MessageKey::HelpSearch => match self.lang {
                Language::English => "Type to search",
                Language::Korean => "검색어 입력",
            },
            MessageKey::HelpTab => match self.lang {
                Language::English => "Tab: Autocomplete",
                Language::Korean => "Tab: 자동완성",
            },
            MessageKey::HelpEnterSelect => match self.lang {
                Language::English => "Enter: Select",
                Language::Korean => "Enter: 선택",
            },
            MessageKey::HelpCtrlBCreate => match self.lang {
                Language::English => "Ctrl+B: Create",
                Language::Korean => "Ctrl+B: 생성",
            },
            MessageKey::HelpCtrlXDelete => match self.lang {
                Language::English => "Ctrl+X: Delete",
                Language::Korean => "Ctrl+X: 삭제",
            },
            MessageKey::HelpCancel => match self.lang {
                Language::English => "Ctrl+C/Esc: Cancel",
                Language::Korean => "Ctrl+C/Esc: 취소",
            },
            MessageKey::HelpBackspace => match self.lang {
                Language::English => "Backspace: Edit",
                Language::Korean => "Backspace: 편집",
            },
            MessageKey::HelpCreateNewBranch => match self.lang {
                Language::English => "Ctrl+B: Create new branch",
                Language::Korean => "Ctrl+B: 새 브랜치 생성",
            },
            MessageKey::HelpExactMatch => match self.lang {
                Language::English => "(exact match)",
                Language::Korean => "(정확히 일치)",
            },
        }
    }

    /// Title of the project list.
    pub fn select_project(&self) -> (text: &'static str)
        ensures
            text@ == message(self@, MessageKey::SelectProject),
    {
        self.get(MessageKey::SelectProject)
    }

    /// Said when no project has been saved yet.
    pub fn no_projects_found(&self) -> (text: &'static str)
        ensures
            text@ == message(self@, MessageKey::NoProjectsFound),
    {
        self.get(MessageKey::NoProjectsFound)
    }

    /// How to save a first project.
    pub fn navigate_to_git_repo(&self) -> (text: &'static str)
        ensures
            text@ == message(self@, MessageKey::NavigateToGitRepo),
    {
        self.get(MessageKey::NavigateToGitRepo)
    }

    /// Title of the worktree list.
    pub fn select_or_create_worktree(&self) -> (text: &'static str)
        ensures
            text@ == message(self@, MessageKey::SelectOrCreateWorktree),
    {
        self.get(MessageKey::SelectOrCreateWorktree)
    }

    /// Announces the project that was picked; its name follows.
    pub fn switching_to_project(&self) -> (text: &'static str)
        ensures
            text@ == message(self@, MessageKey::SwitchingToProject),
    {
        self.get(MessageKey::SwitchingToProject)
    }

    /// Announces the worktree that was picked; its branch follows.
    pub fn switching_to_worktree(&self) -> (text: &'static str)
        ensures
            text@ == message(self@, MessageKey::SwitchingToWorktree),
    {
        self.get(MessageKey::SwitchingToWorktree)
    }

    /// Announces a new worktree; its branch follows.
    pub fn creating_new_worktree(&self) -> (text: &'static str)
        ensures
            text@ == message(self@, MessageKey::CreatingNewWorktree),
    {
        self.get(MessageKey::CreatingNewWorktree)
    }

    /// Announces a removal; the branch follows.
    pub fn deleting_worktree(&self) -> (text: &'static str)
        ensures
            text@ == message(self@, MessageKey::DeletingWorktree),
    {
        self.get(MessageKey::DeletingWorktree)
    }

    /// Confirms a removal; `{}` stands where the branch goes.
    pub fn worktree_deleted(&self) -> (text: &'static str)
        ensures
            text@ == message(self@, MessageKey::WorktreeDeleted),
    {
        self.get(MessageKey::WorktreeDeleted)
    }

    /// Refuses to remove the main worktree.
    pub fn cannot_delete_main(&self) -> (text: &'static str)
        ensures
            text@ == message(self@, MessageKey::CannotDeleteMain),
    {
        self.get(MessageKey::CannotDeleteMain)
    }

    /// Reports a failed removal; the cause follows.
    pub fn failed_to_delete(&self) -> (text: &'static str)
        ensures
            text@ == message(self@, MessageKey::FailedToDelete),
    {
        self.get(MessageKey::FailedToDelete)
    }

    /// The likely cause of a failed removal.
    pub fn uncommitted_changes_tip(&self) -> (text: &'static str)
        ensures
            text@ == message(self@, MessageKey::UncommittedChangesTip),
    {
        self.get(MessageKey::UncommittedChangesTip)
    }

    /// Introduces the command that removes by force.
    pub fn force_delete_command(&self) -> (text: &'static str)
        ensures
            text@ == message(self@, MessageKey::ForceDeleteCommand),
    {
        self.get(MessageKey::ForceDeleteCommand)
    }

    /// Confirms that dependencies were installed.
    pub fn deps_installed(&self) -> (text: &'static str)
        ensures
            text@ == message(self@, MessageKey::DepsInstalled),
    {
        self.get(MessageKey::DepsInstalled)
    }

    /// Warns that dependencies were not installed.
    pub fn pnpm_install_warning(&self) -> (text: &'static str)
        ensures
            text@ == message(self@, MessageKey::PnpmInstallWarning),
    {
        self.get(MessageKey::PnpmInstallWarning)
    }

    /// Help: typing filters the list.
    pub fn help_search(&self) -> (text: &'static str)
        ensures
            text@ == message(self@, MessageKey::HelpSearch),
    {
        self.get(MessageKey::HelpSearch)
    }

    /// Help: the completion key.
    pub fn help_tab(&self) -> (text: &'static str)
        ensures
            text@ == message(self@, MessageKey::HelpTab),
    {
        self.get(MessageKey::HelpTab)
    }

    /// Help: the selection key.
    pub fn help_enter_select(&self) -> (text: &'static str)
        ensures
            text@ == message(self@, MessageKey::HelpEnterSelect),
    {
        self.get(MessageKey::HelpEnterSelect)
    }

    /// Help: the creation key.
    pub fn help_ctrl_b_create(&self) -> (text: &'static str)
        ensures
            text@ == message(self@, MessageKey::HelpCtrlBCreate),
    {
        self.get(MessageKey::HelpCtrlBCreate)
    }

    /// Help: the removal key.
    pub fn help_ctrl_x_delete(&self) -> (text: &'static str)
        ensures
            text@ == message(self@, MessageKey::HelpCtrlXDelete),
    {
        self.get(MessageKey::HelpCtrlXDelete)
    }

    /// Help: the keys that cancel.
    pub fn help_cancel(&self) -> (text: &'static str)
        ensures
            text@ == message(self@, MessageKey::HelpCancel),
    {
        self.get(MessageKey::HelpCancel)
    }

    /// Help: the key that edits the query.
    pub fn help_backspace(&self) -> (text: &'static str)
        ensures
            text@ == message(self@, MessageKey::HelpBackspace),
    {
        self.get(MessageKey::HelpBackspace)
    }

    /// Help: the creation key, where nothing matches.
    pub fn help_create_new_branch(&self) -> (text: &'static str)
        ensures
            text@ == message(self@, MessageKey::HelpCreateNewBranch),
    {
        self.get(MessageKey::HelpCreateNewBranch)
    }

    /// Help: the note that removal needs an exact match.
    pub fn help_exact_match(&self) -> (text: &'static str)
        ensures
            text@ == message(self@, MessageKey::HelpExactMatch),
    {
        self.get(MessageKey::HelpExactMatch)
    }
}

} // verus!
