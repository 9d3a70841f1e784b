//! What the two selector screens list, and what follows from the user's
//! pick.

use crate::db::{save_project, upserted, Database, ProjectInfo, ProjectView, RegistryError};
use crate::git::{worktree_views, WorktreeInfo, WorktreeView};
use crate::i18n::{message, Language, MessageKey, Messages};
use crate::matcher::{candidate_scores, score_candidates};
use crate::paths::final_segment;
use crate::ranking::{best_index, best_of, ranks};
use crate::selector::{ActionView, SelectorAction};
use crate::text::{
    chars_of, eq_ignore_ascii_case, fill, filled, is_least, least, lemma_least_absent,
    lemma_least_found, lemma_least_is_least, same_ignoring_case, texts,
};
use vstd::prelude::*;

verus! {

/// The label of a worktree in the list: its branch, marked ` (main)` where
/// it is the main worktree.
pub open spec fn worktree_label(worktree: WorktreeView) -> Seq<char> {
    if worktree.is_main {
        worktree.branch + " (main)"@
    } else {
        worktree.branch
    }
}

/// The labels of `worktrees`, one for each, in their order.
pub fn worktree_labels(worktrees: &Vec<WorktreeInfo>) -> (labels: Vec<String>)
    ensures
        labels@.len() == worktrees@.len(),
        forall|i: int| 0 <= i < labels@.len() ==> (#[trigger] labels@[i])@ == worktree_label(worktrees@[i]@),
{
    let mut labels: Vec<String> = Vec::new();
    let mut i: usize = 0;
    while i < worktrees.len()
        invariant
            i <= worktrees.len(),
            labels@.len() == i,
            forall|j: int| 0 <= j < i ==> (#[trigger] labels@[j])@ == worktree_label(worktrees@[j]@),
        decreases worktrees.len() - i,
    {
        let mut label = worktrees[i].branch.clone();
        if worktrees[i].is_main {
            label.append(" (main)");
        }
        labels.push(label);
        i += 1;
    }
    labels
}

/// The label of a project in the list: its name, and its path in
/// parentheses.
pub open spec fn project_label(project: ProjectView) -> Seq<char> {
    project.name + " ("@ + project.path + ")"@
}

/// The labels of `projects`, one for each, in their order.
pub fn project_labels(projects: &Vec<ProjectInfo>) -> (labels: Vec<String>)
    ensures
        labels@.len() == projects@.len(),
        forall|i: int| 0 <= i < labels@.len() ==> (#[trigger] labels@[i])@ == project_label(projects@[i]@),
{
    let mut labels: Vec<String> = Vec::new();
    let mut i: usize = 0;
    while i < projects.len()
        invariant
            i <= projects.len(),
            labels@.len() == i,
            forall|j: int| 0 <= j < i ==> (#[trigger] labels@[j])@ == project_label(projects@[j]@),
        decreases projects.len() - i,
    {
        let mut label = projects[i].name.clone();
        label.append(" (");
        label.append(projects[i].path.as_str());
        label.append(")");
        labels.push(label);
        i += 1;
    }
    labels
}

/// The worktrees whose branch is `name` up to the case of ASCII letters, by
/// their places.
pub open spec fn on_branch(worktrees: Seq<WorktreeView>, name: Seq<char>) -> spec_fn(int) -> bool {
    |i: int| same_ignoring_case(worktrees[i].branch, name)
}

/// The first worktree whose branch is `name` up to the case of ASCII
/// letters.
pub open spec fn by_branch(worktrees: Seq<WorktreeView>, name: Seq<char>) -> Option<int> {
    least(on_branch(worktrees, name), worktrees.len() as int)
}

/// Finds the first worktree on the branch `name`.
pub fn find_worktree(worktrees: &Vec<WorktreeInfo>, name: &str) -> (found: Option<usize>)
    ensures
        match found {
            Some(i) => by_branch(worktree_views(worktrees@), name@) == Some(i as int) && i
                < worktrees@.len(),
            None => by_branch(worktree_views(worktrees@), name@) is None,
        },
{
    let wanted = chars_of(name);
    let ghost views = worktree_views(worktrees@);
    let ghost here = on_branch(views, name@);
    let mut i: usize = 0;
    while i < worktrees.len()
        invariant
            i <= worktrees.len(),
            wanted@ == name@,
            views == worktree_views(worktrees@),
            here == on_branch(views, name@),
            forall|j: int| 0 <= j < i ==> !#[trigger] here(j),
        decreases worktrees.len() - i,
    {
        let branch = chars_of(worktrees[i].branch.as_str());
        if eq_ignore_ascii_case(&branch, &wanted) {
            proof {
                assert(here(i as int));
                assert(is_least(here, views.len() as int, i as int));
                lemma_least_found(here, views.len() as int, i as int);
            }
            return Some(i);
        }
        assert(!here(i as int));
        i += 1;
    }
    proof {
        lemma_least_absent(here, views.len() as int);
    }
    None
}

/// What is to be done after the worktree screen.
#[derive(Debug, PartialEq, Eq)]
pub enum WorktreePlan {
    /// Nothing.
    Nothing,
    /// Bring the worktree of this branch into place, the branch new or not.
    Create(String),
    /// Go to the worktree at this place of the list.
    Switch(usize),
    /// Tell the user that the main worktree is not deleted.
    RefuseMain,
    /// Have the backend remove the worktree at this place of the list.
    Remove(usize),
}

/// A `WorktreePlan` with its text as a sequence.
pub enum PlanView {
    Nothing,
    Create(Seq<char>),
    Switch(int),
    RefuseMain,
    Remove(int),
}

impl View for WorktreePlan {
    type V = PlanView;

    open spec fn view(&self) -> PlanView {
        match *self {
            WorktreePlan::Nothing => PlanView::Nothing,
            WorktreePlan::Create(branch) => PlanView::Create(branch@),
            WorktreePlan::Switch(i) => PlanView::Switch(i as int),
            WorktreePlan::RefuseMain => PlanView::RefuseMain,
            WorktreePlan::Remove(i) => PlanView::Remove(i as int),
        }
    }
}

/// What follows from the action that the worktree screen ended with.
///
/// - A picked name leads to the first worktree on that branch, and to a new
///   worktree where there is none; an empty name leads nowhere.
/// - A name to create leads to a new worktree.
/// - A name to delete leads to the removal of the first worktree on that
///   branch. The main worktree is not removed: the request is refused
///   before the backend hears of it.
pub open spec fn worktree_plan(worktrees: Seq<WorktreeView>, action: ActionView) -> PlanView {
    match action {
        ActionView::Select(name) => if name.len() == 0 {
            PlanView::Nothing
        } else {
            match by_branch(worktrees, name) {
                Some(i) => PlanView::Switch(i),
                None => PlanView::Create(name),
            }
        },
        ActionView::CreateNew(name) => PlanView::Create(name),
        ActionView::Delete(name) => match by_branch(worktrees, name) {
            Some(i) => if worktrees[i].is_main {
                PlanView::RefuseMain
            } else {
                PlanView::Remove(i)
            },
            None => PlanView::Nothing,
        },
        ActionView::Cancel => PlanView::Nothing,
    }
}

/// Decides what follows from the worktree screen's action.
pub fn plan_worktree_action(worktrees: &Vec<WorktreeInfo>, action: SelectorAction) -> (plan:
    WorktreePlan)
    ensures
        plan@ == worktree_plan(worktree_views(worktrees@), action@),
        plan matches WorktreePlan::Switch(i) ==> i < worktrees@.len(),
        plan matches WorktreePlan::Remove(i) ==> i < worktrees@.len(),
{
    match action {
        SelectorAction::Select(name) => {
            if name.as_str().is_empty() {
                WorktreePlan::Nothing
            } else {
                match find_worktree(worktrees, name.as_str()) {
                    Some(i) => WorktreePlan::Switch(i),
                    None => WorktreePlan::Create(name),
                }
            }
        },
        SelectorAction::CreateNew(name) => WorktreePlan::Create(name),
        SelectorAction::Delete(name) => {
            match find_worktree(worktrees, name.as_str()) {
                Some(i) => {
                    if worktrees[i].is_main {
                        WorktreePlan::RefuseMain
                    } else {
                        WorktreePlan::Remove(i)
                    }
                },
                None => WorktreePlan::Nothing,
            }
        },
        SelectorAction::Cancel => WorktreePlan::Nothing,
    }
}

/// The main worktree is never handed to the backend for removal.
pub proof fn lemma_main_is_never_removed(worktrees: Seq<WorktreeView>, action: ActionView)
    ensures
        worktree_plan(worktrees, action) matches PlanView::Remove(i) ==> 0 <= i < worktrees.len()
            && !worktrees[i].is_main,
{
    match action {
        ActionView::Delete(name) => {
            lemma_least_is_least(on_branch(worktrees, name), worktrees.len() as int);
        },
        _ => {},
    }
}

/// The project that the project screen's action points at: for a picked
/// name, the project whose label the matcher scores highest for it, the
/// first of those with the highest score; none for any other action, and
/// none where no label matches.
pub open spec fn project_choice(labels: Seq<Seq<char>>, action: ActionView) -> Option<int> {
    match action {
        ActionView::Select(name) => best_of(ranks(candidate_scores(labels, name))),
        _ => None,
    }
}

/// Finds the project that the project screen's action points at.
pub fn plan_project_action(labels: &Vec<String>, action: &SelectorAction) -> (choice: Option<usize>)
    ensures
        match choice {
            Some(i) => project_choice(texts(labels@), action@) == Some(i as int),
            None => project_choice(texts(labels@), action@) is None,
        },
{
    match action {
        SelectorAction::Select(name) => {
            let scores = score_candidates(labels, name.as_str());
            best_index(&scores)
        },
        _ => None,
    }
}

/// The words that confirm the removal of the worktree of `branch`.
pub fn deletion_confirmed(messages: &Messages, branch: &str) -> (text: String)
    ensures
        text@ == filled(message(messages@, MessageKey::WorktreeDeleted), branch@),
{
    fill(messages.worktree_deleted(), branch)
}

/// Where the program goes once it knows the repository it runs in.
#[derive(Debug, PartialEq, Eq)]
pub enum Route {
    /// To the worktree of this branch, which was named on the command
    /// line.
    Worktree(String),
    /// To the worktree screen.
    WorktreeScreen,
}

/// A `Route` with its text as a sequence.
pub enum RouteView {
    Worktree(Seq<char>),
    WorktreeScreen,
}

impl View for Route {
    type V = RouteView;

    open spec fn view(&self) -> RouteView {
        match *self {
            Route::Worktree(branch) => RouteView::Worktree(branch@),
            Route::WorktreeScreen => RouteView::WorktreeScreen,
        }
    }
}

/// The branch named on the command line as a sequence.
pub open spec fn branch_text(branch: Option<&str>) -> Option<Seq<char>> {
    match branch {
        Some(name) => Some(name@),
        None => None,
    }
}

/// Takes up work in the repository at `repo_root`: saves it in the registry
/// as worked in at `now`, and goes on to the branch named on the command
/// line, or to the worktree screen where none was named. Fails, with the
/// registry as it was, where the repository's path ends in no name.
pub fn handle_git_repo(db: &mut Database, repo_root: &str, branch: Option<&str>, now: u64) -> (route:
    Result<Route, RegistryError>)
    ensures
        match route {
            Ok(to) => final_segment(repo_root@) matches Some(name) && final(db)@ == upserted(
                old(db)@,
                ProjectView { path: repo_root@, name, last_accessed: now },
            ) && to@ == (match branch_text(branch) {
                Some(b) => RouteView::Worktree(b),
                None => RouteView::WorktreeScreen,
            }),
            Err(RegistryError::InvalidRepositoryPath) => final_segment(repo_root@) is None
                && final(db)@ == old(db)@,
        },
{
    match save_project(db, repo_root, now) {
        Ok(()) => {
            match branch {
                Some(name) => Ok(Route::Worktree(name.to_owned())),
                None => Ok(Route::WorktreeScreen),
            }
        },
        Err(error) => Err(error),
    }
}

/// One line for the user.
#[derive(Debug, PartialEq, Eq)]
pub struct Line {
    /// The words; a line that begins with a line feed stands off from what
    /// was said before.
    pub text: String,
    /// Whether the line is a warning, which goes to the error output.
    pub warning: bool,
}

/// A `Line` with its text as a sequence.
pub struct LineView {
    pub text: Seq<char>,
    pub warning: bool,
}

impl View for Line {
    type V = LineView;

    open spec fn view(&self) -> LineView {
        LineView { text: self.text@, warning: self.warning }
    }
}

/// The views of a list of lines.
pub open spec fn line_views(lines: Seq<Line>) -> Seq<LineView> {
    Seq::new(lines.len(), |i: int| lines[i]@)
}

/// A line that is no warning.
pub open spec fn said(text: Seq<char>) -> LineView {
    LineView { text, warning: false }
}

/// A line that is a warning.
pub open spec fn warned(text: Seq<char>) -> LineView {
    LineView { text, warning: true }
}

/// The line that shows how to go to `path`.
pub open spec fn go_to(path: Seq<char>) -> Seq<char> {
    "  cd "@ + path
}

/// What the user is told before a plan is carried out.
pub open spec fn plan_lines(lang: Language, worktrees: Seq<WorktreeView>, plan: PlanView) -> Seq<
    LineView,
> {
    match plan {
        PlanView::Nothing => Seq::empty(),
        PlanView::Create(branch) => seq![
            said(seq!['\n'] + message(lang, MessageKey::CreatingNewWorktree) + seq![' '] + branch),
        ],
        PlanView::Switch(i) => seq![
            said(
                seq!['\n'] + message(lang, MessageKey::SwitchingToWorktree) + seq![' ']
                    + worktrees[i].branch,
            ),
            said(go_to(worktrees[i].path)),
        ],
        PlanView::RefuseMain => seq![warned(message(lang, MessageKey::CannotDeleteMain))],
        PlanView::Remove(i) => seq![
            said(
                seq!['\n'] + message(lang, MessageKey::DeletingWorktree) + seq![' ']
                    + worktrees[i].branch,
            ),
        ],
    }
}

/// `lead`, a space and `name`, behind a line feed.
fn headline(lead: &str, name: &str) -> (text: String)
    ensures
        text@ == seq!['\n'] + lead@ + seq![' '] + name@,
{
    let mut text = String::new();
    text.push('\n');
    text.append(lead);
    text.push(' ');
    text.append(name);
    assert(text@ =~= seq!['\n'] + lead@ + seq![' '] + name@);
    text
}

/// The line that shows how to go to `path`.
fn go_to_line(path: &str) -> (text: String)
    ensures
        text@ == go_to(path@),
{
    let mut text = "  cd ".to_owned();
    text.append(path);
    text
}

/// Says what the user is told before `plan` is carried out.
pub fn announce_plan(messages: &Messages, worktrees: &Vec<WorktreeInfo>, plan: &WorktreePlan) -> (lines:
    Vec<Line>)
    requires
        plan matches WorktreePlan::Switch(i) ==> i < worktrees@.len(),
        plan matches WorktreePlan::Remove(i) ==> i < worktrees@.len(),
    ensures
        line_views(lines@) == plan_lines(messages@, worktree_views(worktrees@), plan@),
{
    let mut lines: Vec<Line> = Vec::new();
    match plan {
        WorktreePlan::Nothing => {},
        WorktreePlan::Create(branch) => {
            let text = headline(messages.creating_new_worktree(), branch.as_str());
            lines.push(Line { text, warning: false });
        },
        WorktreePlan::Switch(i) => {
            let worktree = &worktrees[*i];
            let text = headline(messages.switching_to_worktree(), worktree.branch.as_str());
            lines.push(Line { text, warning: false });
            lines.push(Line { text: go_to_line(worktree.path.as_str()), warning: false });
        },
        WorktreePlan::RefuseMain => {
            lines.push(Line { text: messages.cannot_delete_main().to_owned(), warning: true });
        },
        WorktreePlan::Remove(i) => {
            let worktree = &worktrees[*i];
            let text = headline(messages.deleting_worktree(), worktree.branch.as_str());
            lines.push(Line { text, warning: false });
        },
    }
    assert(line_views(lines@) =~= plan_lines(messages@, worktree_views(worktrees@), plan@));
    lines
}

/// What the backend did with a request to remove a worktree.
pub open spec fn failure_text(failure: Option<&str>) -> Option<Seq<char>> {
    match failure {
        Some(why) => Some(why@),
        None => None,
    }
}

/// What the user is told after the backend was asked to remove a worktree.
/// A removal that went through is confirmed with the branch's name. One
/// that did not is reported with what the backend said, the likely cause,
/// and the command that removes by force.
pub open spec fn removal_lines(lang: Language, worktree: WorktreeView, failure: Option<Seq<char>>) -> Seq<
    LineView,
> {
    match failure {
        None => seq![said(filled(message(lang, MessageKey::WorktreeDeleted), worktree.branch))],
        Some(why) => seq![
            warned(seq!['\n'] + message(lang, MessageKey::FailedToDelete) + seq![' '] + why),
            warned(seq!['\n'] + message(lang, MessageKey::UncommittedChangesTip)),
            warned(message(lang, MessageKey::ForceDeleteCommand) + seq![' '] + worktree.path),
        ],
    }
}

/// Says what the user is told after a removal; `failure` holds what the
/// backend said where it refused.
pub fn report_removal(messages: &Messages, worktree: &WorktreeInfo, failure: Option<&str>) -> (lines:
    Vec<Line>)
    ensures
        line_views(lines@) == removal_lines(messages@, worktree@, failure_text(failure)),
{
    let mut lines: Vec<Line> = Vec::new();
    match failure {
        None => {
            let text = deletion_confirmed(messages, worktree.branch.as_str());
            lines.push(Line { text, warning: false });
        },
        Some(why) => {
            lines.push(Line { text: headline(messages.failed_to_delete(), why), warning: true });
            let mut tip = String::new();
            tip.push('\n');
            tip.append(messages.uncommitted_changes_tip());
            assert(tip@ =~= seq!['\n'] + message(messages@, MessageKey::UncommittedChangesTip));
            lines.push(Line { text: tip, warning: true });
            let mut force = messages.force_delete_command().to_owned();
            force.push(' ');
            force.append(worktree.path.as_str());
            assert(force@ =~= message(messages@, MessageKey::ForceDeleteCommand) + seq![' ']
                + worktree@.path);
            lines.push(Line { text: force, warning: true });
        },
    }
    assert(line_views(lines@) =~= removal_lines(messages@, worktree@, failure_text(failure)));
    lines
}

/// What the user is told of an attempt to install dependencies.
pub open spec fn install_line(lang: Language, installed: bool) -> LineView {
    if installed {
        said(message(lang, MessageKey::DepsInstalled))
    } else {
        warned(message(lang, MessageKey::PnpmInstallWarning))
    }
}

/// Says what the user is told of an attempt to install dependencies.
pub fn report_install(messages: &Messages, installed: bool) -> (line: Line)
    ensures
        line@ == install_line(messages@, installed),
{
    if installed {
        Line { text: messages.deps_installed().to_owned(), warning: false }
    } else {
        Line { text: messages.pnpm_install_warning().to_owned(), warning: true }
    }
}

/// What the user is told when a project is picked.
pub open spec fn project_lines(lang: Language, project: ProjectView) -> Seq<LineView> {
    seq![
        said(seq!['\n'] + message(lang, MessageKey::SwitchingToProject) + seq![' '] + project.name),
        said(go_to(project.path)),
    ]
}

/// Says what the user is told when `project` is picked.
pub fn announce_project(messages: &Messages, project: &ProjectInfo) -> (lines: Vec<Line>)
    ensures
        line_views(lines@) == project_lines(messages@, project@),
{
    let mut lines: Vec<Line> = Vec::new();
    let text = headline(messages.switching_to_project(), project.name.as_str());
    lines.push(Line { text, warning: false });
    lines.push(Line { text: go_to_line(project.path.as_str()), warning: false });
    assert(line_views(lines@) =~= project_lines(messages@, project@));
    lines
}

/// What the user is told when no project has been saved.
pub open spec fn no_project_lines(lang: Language) -> Seq<LineView> {
    seq![
        said(message(lang, MessageKey::NoProjectsFound)),
        said(message(lang, MessageKey::NavigateToGitRepo)),
    ]
}

/// Says what the user is told when no project has been saved.
pub fn announce_no_projects(messages: &Messages) -> (lines: Vec<Line>)
    ensures
        line_views(lines@) == no_project_lines(messages@),
{
    let mut lines: Vec<Line> = Vec::new();
    lines.push(Line { text: messages.no_projects_found().to_owned(), warning: false });
    lines.push(Line { text: messages.navigate_to_git_repo().to_owned(), warning: false });
    assert(line_views(lines@) =~= no_project_lines(messages@));
    lines
}

} // verus!
