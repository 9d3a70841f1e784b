//! Provisioning: which commands set a worktree up, judged by the marker
//! files found in it, and what to tell the user of their outcome.

use crate::text::{is_blank, is_blank_text, joined_with};
use vstd::prelude::*;

verus! {

/// A file whose presence in a directory asks for a setup command.
#[derive(Debug, Clone, Copy, PartialEq, Eq, Structural)]
pub enum Marker {
    MiseToml,
    DotMiseToml,
    Nvmrc,
    PnpmLock,
    YarnLock,
    PackageLock,
}

/// The name of each marker file.
pub open spec fn marker_name(marker: Marker) -> Seq<char> {
    match marker {
        Marker::MiseToml => "mise.toml"@,
        Marker::DotMiseToml => ".mise.toml"@,
        Marker::Nvmrc => ".nvmrc"@,
        Marker::PnpmLock => "pnpm-lock.yaml"@,
        Marker::YarnLock => "yarn.lock"@,
        Marker::PackageLock => "package-lock.json"@,
    }
}

impl Marker {
    /// The name of the marker file.
    pub fn file_name(self) -> (name: &'static str)
        ensures
            name@ == marker_name(self),
    {
        match self {
            Marker::MiseToml => "mise.toml",
            Marker::DotMiseToml => ".mise.toml",
            Marker::Nvmrc => ".nvmrc",
            Marker::PnpmLock => "pnpm-lock.yaml",
            Marker::YarnLock => "yarn.lock",
            Marker::PackageLock => "package-lock.json",
        }
    }

    /// Every marker.
    pub fn all() -> (markers: Vec<Marker>)
        ensures
            markers@ == seq![
                Marker::MiseToml,
                Marker::DotMiseToml,
                Marker::Nvmrc,
                Marker::PnpmLock,
                Marker::YarnLock,
                Marker::PackageLock,
            ],
    {
        let mut markers: Vec<Marker> = Vec::new();
        markers.push(Marker::MiseToml);
        markers.push(Marker::DotMiseToml);
        markers.push(Marker::Nvmrc);
        markers.push(Marker::PnpmLock);
        markers.push(Marker::YarnLock);
        markers.push(Marker::PackageLock);
        markers
    }
}

/// Which marker files a directory holds.
#[derive(Debug, Clone, Copy, PartialEq, Eq, Structural)]
pub struct Markers {
    pub mise_toml: bool,
    pub dot_mise_toml: bool,
    pub nvmrc: bool,
    pub pnpm_lock: bool,
    pub yarn_lock: bool,
    pub package_lock: bool,
}

impl Markers {
    /// No marker file at all.
    pub fn none() -> (markers: Markers)
        ensures
            markers == (Markers {
                mise_toml: false,
                dot_mise_toml: false,
                nvmrc: false,
                pnpm_lock: false,
                yarn_lock: false,
                package_lock: false,
            }),
    {
        Markers {
            mise_toml: false,
            dot_mise_toml: false,
            nvmrc: false,
            pnpm_lock: false,
            yarn_lock: false,
            package_lock: false,
        }
    }

    /// These markers and `marker`.
    pub open spec fn including(self, marker: Marker) -> Markers {
        match marker {
            Marker::MiseToml => Markers { mise_toml: true, ..self },
            Marker::DotMiseToml => Markers { dot_mise_toml: true, ..self },
            Marker::Nvmrc => Markers { nvmrc: true, ..self },
            Marker::PnpmLock => Markers { pnpm_lock: true, ..self },
            Marker::YarnLock => Markers { yarn_lock: true, ..self },
            Marker::PackageLock => Markers { package_lock: true, ..self },
        }
    }

    /// Notes that `marker` was found.
    pub fn with(self, marker: Marker) -> (markers: Markers)
        ensures
            markers == self.including(marker),
    {
        let mut markers = self;
        match marker {
            Marker::MiseToml => { markers.mise_toml = true; },
            Marker::DotMiseToml => { markers.dot_mise_toml = true; },
            Marker::Nvmrc => { markers.nvmrc = true; },
            Marker::PnpmLock => { markers.pnpm_lock = true; },
            Marker::YarnLock => { markers.yarn_lock = true; },
            Marker::PackageLock => { markers.package_lock = true; },
        }
        markers
    }
}

/// A command that sets a worktree up.
#[derive(Debug, Clone, Copy, PartialEq, Eq, Structural)]
pub enum SetupCommand {
    MiseInstall,
    NvmUse,
    PnpmInstall,
    YarnInstall,
    NpmInstall,
}

/// The command as the shell takes it.
pub open spec fn command_text(command: SetupCommand) -> Seq<char> {
    match command {
        SetupCommand::MiseInstall => "mise install"@,
        SetupCommand::NvmUse => "nvm use"@,
        SetupCommand::PnpmInstall => "pnpm install"@,
        SetupCommand::YarnInstall => "yarn install"@,
        SetupCommand::NpmInstall => "npm install"@,
    }
}

impl SetupCommand {
    /// The command as the shell takes it.
    pub fn text(self) -> (text: &'static str)
        ensures
            text@ == command_text(self),
    {
        match self {
            SetupCommand::MiseInstall => "mise install",
            SetupCommand::NvmUse => "nvm use",
            SetupCommand::PnpmInstall => "pnpm install",
            SetupCommand::YarnInstall => "yarn install",
            SetupCommand::NpmInstall => "npm install",
        }
    }

    /// Whether the command is a version manager's, which the shell knows
    /// only once its start-up files are read.
    pub open spec fn needs_shell_profile(self) -> bool {
        self == SetupCommand::MiseInstall || self == SetupCommand::NvmUse
    }
}

/// The command that brings the toolchain: `mise` where one of its files is
/// there, else `nvm` where its file is there.
pub open spec fn toolchain_command(markers: Markers) -> Option<SetupCommand> {
    if markers.mise_toml || markers.dot_mise_toml {
        Some(SetupCommand::MiseInstall)
    } else if markers.nvmrc {
        Some(SetupCommand::NvmUse)
    } else {
        None
    }
}

/// The command that installs the packages, by the lock file that is there:
/// `pnpm` before `yarn` before `npm`.
pub open spec fn package_command(markers: Markers) -> Option<SetupCommand> {
    if markers.pnpm_lock {
        Some(SetupCommand::PnpmInstall)
    } else if markers.yarn_lock {
        Some(SetupCommand::YarnInstall)
    } else if markers.package_lock {
        Some(SetupCommand::NpmInstall)
    } else {
        None
    }
}

/// `command` as a list of one command or of none.
pub open spec fn listed(command: Option<SetupCommand>) -> Seq<SetupCommand> {
    match command {
        Some(c) => seq![c],
        None => Seq::empty(),
    }
}

/// The commands for a directory with the marker files `markers`: the
/// toolchain first, then the packages.
pub open spec fn planned(markers: Markers) -> Seq<SetupCommand> {
    listed(toolchain_command(markers)) + listed(package_command(markers))
}

/// The shell texts of `commands`.
pub open spec fn command_texts(commands: Seq<SetupCommand>) -> Seq<Seq<char>> {
    Seq::new(commands.len(), |i: int| command_text(commands[i]))
}

/// Whether one of `commands` is a version manager's.
pub open spec fn any_needs_profile(commands: Seq<SetupCommand>) -> bool {
    exists|i: int| 0 <= i < commands.len() && (#[trigger] commands[i]).needs_shell_profile()
}

/// The one line handed to the shell for `commands`: the commands with `&&`
/// between them, behind `prelude` where a version manager is among them.
/// `None` where there is no command.
pub open spec fn shell_line(commands: Seq<SetupCommand>, prelude: Seq<char>) -> Option<Seq<char>> {
    if commands.len() == 0 {
        None
    } else if any_needs_profile(commands) {
        Some(prelude + joined_with(command_texts(commands), " && "@))
    } else {
        Some(joined_with(command_texts(commands), " && "@))
    }
}

/// Builds the line handed to the shell for `commands`.
pub fn compose(commands: &Vec<SetupCommand>, prelude: &str) -> (line: Option<String>)
    ensures
        line.is_some() == shell_line(commands@, prelude@).is_some(),
        line matches Some(text) ==> shell_line(commands@, prelude@) == Some(text@),
{
    if commands.len() == 0 {
        return None;
    }
    let ghost texts = command_texts(commands@);
    let mut chain = String::new();
    let mut profile = false;
    let mut i: usize = 0;
    while i < commands.len()
        invariant
            i <= commands.len(),
            texts == command_texts(commands@),
            chain@ == joined_with(texts.take(i as int), " && "@),
            profile == any_needs_profile(commands@.take(i as int)),
        decreases commands.len() - i,
    {
        if i > 0 {
            chain.append(" && ");
        }
        let command = commands[i];
        chain.append(command.text());
        proof {
            let upto = texts.take(i + 1);
            assert(upto.drop_last() == texts.take(i as int));
            assert(upto.last() == command_text(command));
            let seen = commands@.take(i as int);
            let more = commands@.take(i + 1);
            if any_needs_profile(seen) {
                let w = choose|w: int|
                    0 <= w < seen.len() && (#[trigger] seen[w]).needs_shell_profile();
                assert(more[w].needs_shell_profile());
            }
            if command.needs_shell_profile() {
                assert(more[i as int].needs_shell_profile());
            }
            if any_needs_profile(more) && !command.needs_shell_profile() {
                let w = choose|w: int|
                    0 <= w < more.len() && (#[trigger] more[w]).needs_shell_profile();
                assert(seen[w].needs_shell_profile());
            }
        }
        if command == SetupCommand::MiseInstall || command == SetupCommand::NvmUse {
            profile = true;
        }
        i += 1;
    }
    proof {
        assert(texts.take(commands.len() as int) == texts);
        assert(commands@.take(commands.len() as int) == commands@);
    }
    if profile {
        let mut line = prelude.to_owned();
        line.append(chain.as_str());
        Some(line)
    } else {
        Some(chain)
    }
}

/// Sets worktrees up after the marker files found in them.
pub struct SetupManager;

impl SetupManager {
    /// What the shell runs first where a version manager is called: it reads
    /// the start-up file of `zsh`, else that of `bash`, and goes on either
    /// way.
    pub fn prelude() -> (text: &'static str)
        ensures
            text@ == "source ~/.zshrc 2>/dev/null || source ~/.bashrc 2>/dev/null || true; "@,
    {
        "source ~/.zshrc 2>/dev/null || source ~/.bashrc 2>/dev/null || true; "
    }

    /// The commands for a directory with the marker files `markers`.
    pub fn plan(markers: Markers) -> (commands: Vec<SetupCommand>)
        ensures
            commands@ == planned(markers),
    {
        let mut commands: Vec<SetupCommand> = Vec::new();
        if markers.mise_toml || markers.dot_mise_toml {
            commands.push(SetupCommand::MiseInstall);
        } else if markers.nvmrc {
            commands.push(SetupCommand::NvmUse);
        }
        if markers.pnpm_lock {
            commands.push(SetupCommand::PnpmInstall);
        } else if markers.yarn_lock {
            commands.push(SetupCommand::YarnInstall);
        } else if markers.package_lock {
            commands.push(SetupCommand::NpmInstall);
        }
        assert(commands@ =~= planned(markers));
        commands
    }

    /// The line handed to the shell for a directory with the marker files
    /// `markers`; `None` where nothing is to be run.
    pub fn shell_command(markers: Markers) -> (line: Option<String>)
        ensures
            line.is_some() == (planned(markers).len() > 0),
            line matches Some(text) ==> shell_line(
                planned(markers),
                "source ~/.zshrc 2>/dev/null || source ~/.bashrc 2>/dev/null || true; "@,
            ) == Some(text@),
    {
        let commands = SetupManager::plan(markers);
        compose(&commands, SetupManager::prelude())
    }
}

/// How the shell's run of the setup line ended.
#[derive(Debug, PartialEq, Eq)]
pub enum SetupOutcome {
    /// The shell ran and exited, with success or not, and wrote this.
    Exited { success: bool, stdout: String, stderr: String },
    /// The shell could not be started, for this reason.
    NotStarted(String),
}

/// A `SetupOutcome` with its texts as sequences.
pub enum OutcomeView {
    Exited { success: bool, stdout: Seq<char>, stderr: Seq<char> },
    NotStarted(Seq<char>),
}

impl View for SetupOutcome {
    type V = OutcomeView;

    open spec fn view(&self) -> OutcomeView {
        match *self {
            SetupOutcome::Exited { success, stdout, stderr } => OutcomeView::Exited {
                success,
                stdout: stdout@,
                stderr: stderr@,
            },
            SetupOutcome::NotStarted(reason) => OutcomeView::NotStarted(reason@),
        }
    }
}

/// One thing to tell the user about a setup run.
#[derive(Debug, PartialEq, Eq)]
pub enum SetupNotice {
    /// The setup went through.
    Completed,
    /// The setup ended with a failure. A warning.
    Issues,
    /// What the commands wrote to their output.
    Output(String),
    /// What the commands wrote to their error output. A warning.
    ErrorOutput(String),
    /// The setup could not be run, for this reason. A warning.
    NotRun(String),
}

/// A `SetupNotice` with its texts as sequences.
pub enum NoticeView {
    Completed,
    Issues,
    Output(Seq<char>),
    ErrorOutput(Seq<char>),
    NotRun(Seq<char>),
}

impl View for SetupNotice {
    type V = NoticeView;

    open spec fn view(&self) -> NoticeView {
        match *self {
            SetupNotice::Completed => NoticeView::Completed,
            SetupNotice::Issues => NoticeView::Issues,
            SetupNotice::Output(text) => NoticeView::Output(text@),
            SetupNotice::ErrorOutput(text) => NoticeView::ErrorOutput(text@),
            SetupNotice::NotRun(reason) => NoticeView::NotRun(reason@),
        }
    }
}

/// The views of a list of notices.
pub open spec fn notice_views(list: Seq<SetupNotice>) -> Seq<NoticeView> {
    Seq::new(list.len(), |i: int| list[i]@)
}

/// `notice`, unless `text` is blank.
pub open spec fn unless_blank(text: Seq<char>, notice: NoticeView) -> Seq<NoticeView> {
    if is_blank(text) {
        Seq::empty()
    } else {
        seq![notice]
    }
}

/// What the user is told of an outcome. A failed run is a warning, followed
/// by what the commands wrote, as far as it is not blank. No outcome stops
/// the caller.
pub open spec fn notices_of(outcome: OutcomeView) -> Seq<NoticeView> {
    match outcome {
        OutcomeView::Exited { success, stdout, stderr } => if success {
            seq![NoticeView::Completed]
        } else {
            seq![NoticeView::Issues] + unless_blank(stdout, NoticeView::Output(stdout))
                + unless_blank(stderr, NoticeView::ErrorOutput(stderr))
        },
        OutcomeView::NotStarted(reason) => seq![NoticeView::NotRun(reason)],
    }
}

/// Says what to tell the user of `outcome`.
pub fn report(outcome: SetupOutcome) -> (notices: Vec<SetupNotice>)
    ensures
        notice_views(notices@) == notices_of(outcome@),
{
    let mut notices: Vec<SetupNotice> = Vec::new();
    match outcome {
        SetupOutcome::Exited { success, stdout, stderr } => {
            if success {
                notices.push(SetupNotice::Completed);
            } else {
                notices.push(SetupNotice::Issues);
                if !is_blank_text(stdout.as_str()) {
                    notices.push(SetupNotice::Output(stdout));
                }
                if !is_blank_text(stderr.as_str()) {
                    notices.push(SetupNotice::ErrorOutput(stderr));
                }
            }
        },
        SetupOutcome::NotStarted(reason) => {
            notices.push(SetupNotice::NotRun(reason));
        },
    }
    assert(notice_views(notices@) =~= notices_of(outcome@));
    notices
}

impl SetupNotice {
    /// Whether the notice is a warning, which goes to the error output.
    pub fn is_warning(&self) -> (warning: bool)
        ensures
            warning == !(self@ is Completed || self@ is Output),
    {
        match self {
            SetupNotice::Completed => false,
            SetupNotice::Output(_) => false,
            _ => true,
        }
    }
}

/// The wording of a notice.
pub open spec fn notice_text(notice: NoticeView) -> Seq<char> {
    match notice {
        NoticeView::Completed => "✓ Setup completed successfully"@,
        NoticeView::Issues => "Warning: Setup completed with issues."@,
        NoticeView::Output(text) => "Output: "@ + text,
        NoticeView::ErrorOutput(text) => "Error output: "@ + text,
        NoticeView::NotRun(reason) => "Warning: Could not run setup command: "@ + reason,
    }
}

/// Words a notice.
pub fn notice_line(notice: &SetupNotice) -> (line: String)
    ensures
        line@ == notice_text(notice@),
{
    match notice {
        SetupNotice::Completed => "✓ Setup completed successfully".to_owned(),
        SetupNotice::Issues => "Warning: Setup completed with issues.".to_owned(),
        SetupNotice::Output(text) => {
            let mut line = "Output: ".to_owned();
            line.append(text.as_str());
            line
        },
        SetupNotice::ErrorOutput(text) => {
            let mut line = "Error output: ".to_owned();
            line.append(text.as_str());
            line
        },
        SetupNotice::NotRun(reason) => {
            let mut line = "Warning: Could not run setup command: ".to_owned();
            line.append(reason.as_str());
            line
        },
    }
}

} // verus!
