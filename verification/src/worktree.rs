//! Where the worktree of a branch lives, and the steps that bring it there.

use crate::digest::{
    hex_digit, hex_encode, hex_lower, is_hex_digit, lemma_hex_lower_digits,
    lemma_hex_lower_injective, sha256, sha256_digest,
};
use crate::paths::{file_name, final_segment, join, joined, lemma_joined_in_parts};
use crate::setup::{compose, listed, shell_line, Markers, SetupCommand};
use crate::text::{lemma_same_lead_same_tail, texts};
use vstd::prelude::*;
use vstd::utf8::encode_utf8;

verus! {

/// Why a worktree's place cannot be told.
#[derive(Debug, Clone, Copy, PartialEq, Eq, Structural)]
pub enum AddressError {
    /// The user's home directory is not known.
    NoHomeDirectory,
    /// The repository's path ends in no name.
    InvalidRepositoryPath,
}

impl AddressError {
    /// The words that the user is shown.
    pub fn message(&self) -> (text: &'static str)
        ensures
            text@ == (match *self {
                AddressError::NoHomeDirectory => "Failed to get home directory"@,
                AddressError::InvalidRepositoryPath => "Invalid repository path"@,
            }),
    {
        match self {
            AddressError::NoHomeDirectory => "Failed to get home directory",
            AddressError::InvalidRepositoryPath => "Invalid repository path",
        }
    }
}

/// The first 8 bytes of the SHA-256 digest of the repository's path in
/// UTF-8.
pub open spec fn short_digest(repo_path: Seq<char>) -> Seq<u8> {
    sha256(encode_utf8(repo_path)).take(8)
}

/// The 16 hexadecimal digits that tell repositories of one name apart.
pub open spec fn hashed_name(repo_path: Seq<char>) -> Seq<char> {
    hex_lower(short_digest(repo_path))
}

/// The directory under which the worktrees of the repository at `repo_path`
/// are kept: `<home>/_wt/<name>_<digits>`, where `<name>` is the name that
/// the repository's path ends in. `None` where the path ends in no name.
pub open spec fn worktree_base(home: Seq<char>, repo_path: Seq<char>) -> Option<Seq<char>> {
    match final_segment(repo_path) {
        Some(name) => Some(
            joined(joined(home, "_wt"@), name + seq!['_'] + hashed_name(repo_path)),
        ),
        None => None,
    }
}

/// The worktree directory of `branch`: the branch name, as it is, under the
/// repository's base directory.
pub open spec fn worktree_path(home: Seq<char>, repo_path: Seq<char>, branch: Seq<char>) -> Option<
    Seq<char>,
> {
    match worktree_base(home, repo_path) {
        Some(base) => Some(joined(base, branch)),
        None => None,
    }
}

/// The home directory as a sequence.
pub open spec fn home_text(home: Option<&str>) -> Option<Seq<char>> {
    match home {
        Some(h) => Some(h@),
        None => None,
    }
}

/// A path or the reason why there is none, the path as a sequence.
pub open spec fn outcome_text(outcome: Result<String, AddressError>) -> Result<
    Seq<char>,
    AddressError,
> {
    match outcome {
        Ok(path) => Ok(path@),
        Err(error) => Err(error),
    }
}

/// What asking for the base directory comes to: the directory, or the
/// reason why there is none. A missing home directory is noticed first.
pub open spec fn base_outcome(home: Option<Seq<char>>, repo_path: Seq<char>) -> Result<
    Seq<char>,
    AddressError,
> {
    match home {
        None => Err(AddressError::NoHomeDirectory),
        Some(h) => match worktree_base(h, repo_path) {
            Some(base) => Ok(base),
            None => Err(AddressError::InvalidRepositoryPath),
        },
    }
}

/// What asking for a worktree's directory comes to: the directory, or the
/// reason why there is none.
pub open spec fn path_outcome(home: Option<Seq<char>>, repo_path: Seq<char>, branch: Seq<char>) -> Result<
    Seq<char>,
    AddressError,
> {
    match base_outcome(home, repo_path) {
        Ok(base) => Ok(joined(base, branch)),
        Err(error) => Err(error),
    }
}

/// The digits that stand for the repository at `repo_path`: the first 8
/// bytes of the digest of the whole path, as 16 lower-case hexadecimal
/// digits.
pub fn get_hashed_name(repo_path: &str) -> (name: String)
    ensures
        name@ == hashed_name(repo_path@),
        name@.len() == 16,
        forall|i: int| 0 <= i < 16 ==> is_hex_digit(#[trigger] name@[i]),
{
    let digest = sha256_digest(repo_path.as_bytes());
    let mut head: Vec<u8> = Vec::new();
    let mut i: usize = 0;
    while i < 8
        invariant
            i <= 8,
            digest@.len() == 32,
            head@ == digest@.take(i as int),
        decreases 8 - i,
    {
        head.push(digest[i]);
        assert(digest@.take(i + 1) == digest@.take(i as int).push(digest@[i as int]));
        i += 1;
    }
    proof {
        lemma_hex_lower_digits(head@);
    }
    hex_encode(&head)
}

/// The base directory for the worktrees of the repository at `repo_path`,
/// under the home directory `home`. Fails where no home directory is known,
/// and otherwise where the repository's path ends in no name.
pub fn get_worktree_base(home: Option<&str>, repo_path: &str) -> (base: Result<String, AddressError>)
    ensures
        outcome_text(base) == base_outcome(home_text(home), repo_path@),
{
    let root = match home {
        Some(h) => h,
        None => { return Err(AddressError::NoHomeDirectory); },
    };
    let mut folder = match file_name(repo_path) {
        Some(name) => name,
        None => { return Err(AddressError::InvalidRepositoryPath); },
    };
    let ghost name = folder@;
    folder.push('_');
    let digits = get_hashed_name(repo_path);
    folder.append(digits.as_str());
    assert(folder@ =~= name + seq!['_'] + hashed_name(repo_path@));
    let store = join(root, "_wt");
    Ok(join(store.as_str(), folder.as_str()))
}

/// The worktree directory of `branch` for the repository at `repo_path`.
/// The outcome is a function of `home`, `repo_path` and `branch`: the same
/// three values give the same directory, or the same failure, on every
/// call.
pub fn get_worktree_path(home: Option<&str>, repo_path: &str, branch: &str) -> (path: Result<
    String,
    AddressError,
>)
    ensures
        outcome_text(path) == path_outcome(home_text(home), repo_path@, branch@),
{
    match get_worktree_base(home, repo_path) {
        Ok(base) => Ok(join(base.as_str(), branch)),
        Err(e) => Err(e),
    }
}

/// Two repositories whose paths end in the same name get different base
/// directories, as long as the first 8 bytes of their paths' digests differ.
pub proof fn lemma_bases_differ(home: Seq<char>, first: Seq<char>, second: Seq<char>)
    requires
        first != second,
        final_segment(first) is Some,
        final_segment(first) == final_segment(second),
        short_digest(first) != short_digest(second),
    ensures
        worktree_base(home, first) is Some,
        worktree_base(home, second) is Some,
        worktree_base(home, first) != worktree_base(home, second),
{
    let name = final_segment(first)->0;
    let store = joined(home, "_wt"@);
    let lead = joined(store, name + seq!['_']);
    let a = hashed_name(first);
    let b = hashed_name(second);
    lemma_joined_in_parts(store, name + seq!['_'], a);
    lemma_joined_in_parts(store, name + seq!['_'], b);
    if lead + a == lead + b {
        lemma_same_lead_same_tail(lead, a, b);
        lemma_hex_lower_injective(short_digest(first), short_digest(second));
    }
}

/// The worktree directory lies under the base directory, and the branch
/// name ends it.
pub proof fn lemma_path_under_base(home: Seq<char>, repo_path: Seq<char>, branch: Seq<char>)
    requires
        worktree_base(home, repo_path) is Some,
    ensures
        worktree_path(home, repo_path, branch) == Some(
            worktree_base(home, repo_path)->0 + seq!['/'] + branch,
        ),
{
    let base = worktree_base(home, repo_path)->0;
    let digits = hashed_name(repo_path);
    let folder = final_segment(repo_path)->0 + seq!['_'] + digits;
    assert(base.last() == folder.last());
    if digits.len() > 0 {
        let at = digits.len() - 1;
        let byte = short_digest(repo_path)[at / 2] as int;
        assert(folder.last() == digits[at]);
        assert(digits[at] == hex_digit(byte / 16) || digits[at] == hex_digit(byte % 16));
    } else {
        assert(folder.last() == '_');
    }
}

/// How a worktree came to stand where it stands.
#[derive(Debug, Clone, Copy, PartialEq, Eq, Structural)]
pub enum Origin {
    /// It was there already.
    Reused,
    /// The backend added it for a branch that existed.
    ExistingBranch,
    /// The backend added it together with a new branch.
    NewBranch,
}

/// What a job is waiting for.
#[derive(Debug, Clone, Copy, PartialEq, Eq, Structural)]
pub enum Phase {
    /// Whether the worktree's directory exists.
    Checking,
    /// The base directory to be made.
    PreparingBase,
    /// The backend to add the worktree for the existing branch.
    AddingExisting,
    /// The backend to add the worktree with a new branch.
    AddingNew,
    /// The registry to note the access.
    Registering(Origin),
    /// The worktree to be set up.
    Provisioning,
    /// Nothing: the job has ended.
    Done,
}

/// The work of bringing one branch's worktree into place: what is to be
/// done for which repository and branch, and how far it has come.
#[derive(Debug, PartialEq, Eq)]
pub struct Job {
    /// The repository's root.
    pub repo_root: String,
    /// The branch.
    pub branch: String,
    /// The directory under which the repository's worktrees are kept.
    pub base: String,
    /// The worktree's directory.
    pub target: String,
    /// What the job is waiting for.
    pub phase: Phase,
}

/// A `Job` with its texts as sequences.
pub struct JobView {
    pub repo_root: Seq<char>,
    pub branch: Seq<char>,
    pub base: Seq<char>,
    pub target: Seq<char>,
    pub phase: Phase,
}

impl View for Job {
    type V = JobView;

    open spec fn view(&self) -> JobView {
        JobView {
            repo_root: self.repo_root@,
            branch: self.branch@,
            base: self.base@,
            target: self.target@,
            phase: self.phase,
        }
    }
}

/// What happened outside since the last command.
#[derive(Debug, PartialEq, Eq)]
pub enum Event {
    /// The worktree's directory exists.
    TargetFound,
    /// The worktree's directory does not exist.
    TargetMissing,
    /// The base directory is there.
    BasePrepared,
    /// The base directory could not be made.
    BaseFailed(String),
    /// The backend added the worktree.
    Added,
    /// The backend did not add the worktree; what it said.
    AddFailed(String),
    /// The registry noted the access.
    Registered,
    /// The registry could not be written.
    RegisterFailed(String),
    /// The worktree was set up, well or not.
    Provisioned,
}

/// An `Event` with its texts as sequences.
pub enum EventView {
    TargetFound,
    TargetMissing,
    BasePrepared,
    BaseFailed(Seq<char>),
    Added,
    AddFailed(Seq<char>),
    Registered,
    RegisterFailed(Seq<char>),
    Provisioned,
}

impl View for Event {
    type V = EventView;

    open spec fn view(&self) -> EventView {
        match *self {
            Event::TargetFound => EventView::TargetFound,
            Event::TargetMissing => EventView::TargetMissing,
            Event::BasePrepared => EventView::BasePrepared,
            Event::BaseFailed(why) => EventView::BaseFailed(why@),
            Event::Added => EventView::Added,
            Event::AddFailed(why) => EventView::AddFailed(why@),
            Event::Registered => EventView::Registered,
            Event::RegisterFailed(why) => EventView::RegisterFailed(why@),
            Event::Provisioned => EventView::Provisioned,
        }
    }
}

/// Why a job failed.
#[derive(Debug, PartialEq, Eq)]
pub enum JobError {
    /// The base directory could not be made.
    BaseNotCreated(String),
    /// The backend added the worktree neither for an existing branch nor
    /// with a new one; what it said to the second attempt.
    AddFailed(String),
    /// The registry could not be written.
    RegistryFailed(String),
    /// An event came that the job was not waiting for.
    OutOfTurn,
}

/// A `JobError` with its texts as sequences.
pub enum JobErrorView {
    BaseNotCreated(Seq<char>),
    AddFailed(Seq<char>),
    RegistryFailed(Seq<char>),
    OutOfTurn,
}

impl View for JobError {
    type V = JobErrorView;

    open spec fn view(&self) -> JobErrorView {
        match *self {
            JobError::BaseNotCreated(why) => JobErrorView::BaseNotCreated(why@),
            JobError::AddFailed(why) => JobErrorView::AddFailed(why@),
            JobError::RegistryFailed(why) => JobErrorView::RegistryFailed(why@),
            JobError::OutOfTurn => JobErrorView::OutOfTurn,
        }
    }
}

/// What is to be done outside next.
#[derive(Debug, PartialEq, Eq)]
pub enum Command {
    /// Find out whether this directory exists.
    CheckTarget(String),
    /// Make this directory and those above it, as far as they are missing.
    CreateBase(String),
    /// Have the backend add a worktree at `path` for `branch`, and create
    /// the branch where `create_branch` says so.
    AddWorktree { path: String, branch: String, create_branch: bool },
    /// Have the registry note that the repository was worked in.
    TouchRegistry { repo_root: String, origin: Origin },
    /// Set the worktree at this path up.
    Provision(String),
    /// Report success: the worktree stands at this path.
    Succeed(String),
    /// Report this failure.
    Fail(JobError),
}

/// A `Command` with its texts as sequences.
pub enum CommandView {
    CheckTarget(Seq<char>),
    CreateBase(Seq<char>),
    AddWorktree { path: Seq<char>, branch: Seq<char>, create_branch: bool },
    TouchRegistry { repo_root: Seq<char>, origin: Origin },
    Provision(Seq<char>),
    Succeed(Seq<char>),
    Fail(JobErrorView),
}

impl View for Command {
    type V = CommandView;

    open spec fn view(&self) -> CommandView {
        match *self {
            Command::CheckTarget(path) => CommandView::CheckTarget(path@),
            Command::CreateBase(path) => CommandView::CreateBase(path@),
            Command::AddWorktree { path, branch, create_branch } => CommandView::AddWorktree {
                path: path@,
                branch: branch@,
                create_branch,
            },
            Command::TouchRegistry { repo_root, origin } => CommandView::TouchRegistry {
                repo_root: repo_root@,
                origin,
            },
            Command::Provision(path) => CommandView::Provision(path@),
            Command::Succeed(path) => CommandView::Succeed(path@),
            Command::Fail(error) => CommandView::Fail(error@),
        }
    }
}

impl JobView {
    /// This job in another phase.
    pub open spec fn at(self, phase: Phase) -> JobView {
        JobView { phase, ..self }
    }

    /// The command that asks the backend for the worktree.
    pub open spec fn add(self, create_branch: bool) -> CommandView {
        CommandView::AddWorktree { path: self.target, branch: self.branch, create_branch }
    }

    /// The command that has the registry note the access.
    pub open spec fn touch(self, origin: Origin) -> CommandView {
        CommandView::TouchRegistry { repo_root: self.repo_root, origin }
    }
}

/// The job's next phase and command after `event`.
///
/// - A worktree that is there is reused: the registry notes the access, the
///   worktree is set up, and the job succeeds. The backend is not asked.
/// - Else the base directory is made, and the backend is asked for a
///   worktree of the existing branch. Whatever makes that fail, it is asked
///   once more, for the same path, with a new branch. Only when that fails
///   too does the job fail, with what the backend said.
/// - After either success the registry notes the access, the worktree is
///   set up, and the job succeeds with the worktree's path.
/// - An event that the phase does not wait for ends the job.
pub open spec fn next(job: JobView, event: EventView) -> (JobView, CommandView) {
    match (job.phase, event) {
        (Phase::Checking, EventView::TargetFound) => (
            job.at(Phase::Registering(Origin::Reused)),
            job.touch(Origin::Reused),
        ),
        (Phase::Checking, EventView::TargetMissing) => (
            job.at(Phase::PreparingBase),
            CommandView::CreateBase(job.base),
        ),
        (Phase::PreparingBase, EventView::BasePrepared) => (
            job.at(Phase::AddingExisting),
            job.add(false),
        ),
        (Phase::PreparingBase, EventView::BaseFailed(why)) => (
            job.at(Phase::Done),
            CommandView::Fail(JobErrorView::BaseNotCreated(why)),
        ),
        (Phase::AddingExisting, EventView::Added) => (
            job.at(Phase::Registering(Origin::ExistingBranch)),
            job.touch(Origin::ExistingBranch),
        ),
        (Phase::AddingExisting, EventView::AddFailed(_)) => (
            job.at(Phase::AddingNew),
            job.add(true),
        ),
        (Phase::AddingNew, EventView::Added) => (
            job.at(Phase::Registering(Origin::NewBranch)),
            job.touch(Origin::NewBranch),
        ),
        (Phase::AddingNew, EventView::AddFailed(why)) => (
            job.at(Phase::Done),
            CommandView::Fail(JobErrorView::AddFailed(why)),
        ),
        (Phase::Registering(_), EventView::Registered) => (
            job.at(Phase::Provisioning),
            CommandView::Provision(job.target),
        ),
        (Phase::Registering(_), EventView::RegisterFailed(why)) => (
            job.at(Phase::Done),
            CommandView::Fail(JobErrorView::RegistryFailed(why)),
        ),
        (Phase::Provisioning, EventView::Provisioned) => (
            job.at(Phase::Done),
            CommandView::Succeed(job.target),
        ),
        _ => (job.at(Phase::Done), CommandView::Fail(JobErrorView::OutOfTurn)),
    }
}

impl Job {
    /// Begins the job for `branch` of the repository at `repo_root`: works
    /// out where the worktree belongs and asks whether it is there. Fails
    /// as `get_worktree_base` does.
    pub fn start(home: Option<&str>, repo_root: &str, branch: &str) -> (begun: Result<
        (Job, Command),
        AddressError,
    >)
        ensures
            match begun {
                Ok((job, command)) => base_outcome(home_text(home), repo_root@) matches Ok(base)
                    && job@ == (JobView {
                    repo_root: repo_root@,
                    branch: branch@,
                    base,
                    target: joined(base, branch@),
                    phase: Phase::Checking,
                }) && command@ == CommandView::CheckTarget(joined(base, branch@)),
                Err(error) => base_outcome(home_text(home), repo_root@) == Err::<Seq<char>, _>(error),
            },
    {
        match get_worktree_base(home, repo_root) {
            Ok(base) => {
                let target = join(base.as_str(), branch);
                let command = Command::CheckTarget(target.clone());
                let job = Job {
                    repo_root: repo_root.to_owned(),
                    branch: branch.to_owned(),
                    base,
                    target,
                    phase: Phase::Checking,
                };
                Ok((job, command))
            },
            Err(error) => Err(error),
        }
    }

    /// Takes what happened outside and says what is to be done next.
    pub fn advance(self, event: Event) -> (then: (Job, Command))
        ensures
            (then.0@, then.1@) == next(self@, event@),
    {
        let mut job = self;
        match (job.phase, event) {
            (Phase::Checking, Event::TargetFound) => {
                job.phase = Phase::Registering(Origin::Reused);
                let repo_root = job.repo_root.clone();
                (job, Command::TouchRegistry { repo_root, origin: Origin::Reused })
            },
            (Phase::Checking, Event::TargetMissing) => {
                job.phase = Phase::PreparingBase;
                let base = job.base.clone();
                (job, Command::CreateBase(base))
            },
            (Phase::PreparingBase, Event::BasePrepared) => {
                job.phase = Phase::AddingExisting;
                let path = job.target.clone();
                let branch = job.branch.clone();
                (job, Command::AddWorktree { path, branch, create_branch: false })
            },
            (Phase::PreparingBase, Event::BaseFailed(why)) => {
                job.phase = Phase::Done;
                (job, Command::Fail(JobError::BaseNotCreated(why)))
            },
            (Phase::AddingExisting, Event::Added) => {
                job.phase = Phase::Registering(Origin::ExistingBranch);
                let repo_root = job.repo_root.clone();
                (job, Command::TouchRegistry { repo_root, origin: Origin::ExistingBranch })
            },
            (Phase::AddingExisting, Event::AddFailed(_)) => {
                job.phase = Phase::AddingNew;
                let path = job.target.clone();
                let branch = job.branch.clone();
                (job, Command::AddWorktree { path, branch, create_branch: true })
            },
            (Phase::AddingNew, Event::Added) => {
                job.phase = Phase::Registering(Origin::NewBranch);
                let repo_root = job.repo_root.clone();
                (job, Command::TouchRegistry { repo_root, origin: Origin::NewBranch })
            },
            (Phase::AddingNew, Event::AddFailed(why)) => {
                job.phase = Phase::Done;
                (job, Command::Fail(JobError::AddFailed(why)))
            },
            (Phase::Registering(_), Event::Registered) => {
                job.phase = Phase::Provisioning;
                let path = job.target.clone();
                (job, Command::Provision(path))
            },
            (Phase::Registering(_), Event::RegisterFailed(why)) => {
                job.phase = Phase::Done;
                (job, Command::Fail(JobError::RegistryFailed(why)))
            },
            (Phase::Provisioning, Event::Provisioned) => {
                job.phase = Phase::Done;
                let path = job.target.clone();
                (job, Command::Succeed(path))
            },
            _ => {
                job.phase = Phase::Done;
                (job, Command::Fail(JobError::OutOfTurn))
            },
        }
    }
}

/// The commands that a job gives while `events` come in, one for each
/// event.
pub open spec fn commands(job: JobView, events: Seq<EventView>) -> Seq<CommandView>
    decreases events.len(),
{
    if events.len() == 0 {
        Seq::empty()
    } else {
        let (then, command) = next(job, events[0]);
        seq![command] + commands(then, events.drop_first())
    }
}

/// Whether a command calls on the backend.
pub open spec fn calls_backend(command: CommandView) -> bool {
    command is AddWorktree
}

/// A job that is past the backend never comes back to it.
proof fn lemma_past_backend(job: JobView, events: Seq<EventView>)
    requires
        job.phase is Registering || job.phase is Provisioning || job.phase is Done,
    ensures
        forall|k: int|
            0 <= k < commands(job, events).len() ==> !calls_backend(#[trigger] commands(job, events)[k]),
    decreases events.len(),
{
    if events.len() > 0 {
        let (then, command) = next(job, events[0]);
        lemma_past_backend(then, events.drop_first());
        let tail = commands(then, events.drop_first());
        assert forall|k: int| 0 <= k < commands(job, events).len() implies !calls_backend(
            #[trigger] commands(job, events)[k],
        ) by {
            if k > 0 {
                assert(commands(job, events)[k] == tail[k - 1]);
            }
        }
    }
}

/// A worktree that is there is never added again: where a job learns first
/// that the worktree's directory exists, no command of the job, whatever
/// comes after, calls on the backend.
pub proof fn lemma_existing_worktree_skips_backend(job: JobView, events: Seq<EventView>)
    requires
        job.phase == Phase::Checking,
        events.len() > 0,
        events[0] == EventView::TargetFound,
    ensures
        forall|k: int|
            0 <= k < commands(job, events).len() ==> !calls_backend(#[trigger] commands(job, events)[k]),
        commands(job, events)[0] == job.touch(Origin::Reused),
{
    let (then, command) = next(job, events[0]);
    lemma_past_backend(then, events.drop_first());
    let tail = commands(then, events.drop_first());
    assert forall|k: int| 0 <= k < commands(job, events).len() implies !calls_backend(
        #[trigger] commands(job, events)[k],
    ) by {
        if k > 0 {
            assert(commands(job, events)[k] == tail[k - 1]);
        }
    }
}

/// Adding falls back before it fails: when the backend does not add the
/// worktree for the existing branch, it is asked next for the same path
/// and branch with a new branch; and a job fails for want of a worktree
/// only after that second attempt.
pub proof fn lemma_add_falls_back(job: JobView, event: EventView)
    ensures
        job.phase == Phase::AddingExisting && event is AddFailed ==> next(job, event) == (
            job.at(Phase::AddingNew),
            CommandView::AddWorktree { path: job.target, branch: job.branch, create_branch: true },
        ),
        next(job, event).1 matches CommandView::Fail(JobErrorView::AddFailed(why)) ==> job.phase
            == Phase::AddingNew && event == EventView::AddFailed(why),
        next(job, event).1 matches CommandView::AddWorktree { path, branch, create_branch }
            ==> path == job.target && branch == job.branch,
{
}

/// The commands that set a new worktree up: `nvm` where its file is there,
/// then `pnpm` or else `yarn`, by the lock file that is there.
pub open spec fn auto_setup_plan(markers: Markers) -> Seq<SetupCommand> {
    listed(
        if markers.nvmrc {
            Some(SetupCommand::NvmUse)
        } else {
            None
        },
    ) + listed(
        if markers.pnpm_lock {
            Some(SetupCommand::PnpmInstall)
        } else if markers.yarn_lock {
            Some(SetupCommand::YarnInstall)
        } else {
            None
        },
    )
}

/// The line handed to the shell to set a new worktree up; `None` where the
/// marker files ask for nothing. Where `nvm` is called, the shell reads the
/// start-up file of `zsh` first.
pub fn auto_setup_command(markers: Markers) -> (line: Option<String>)
    ensures
        line.is_some() == (auto_setup_plan(markers).len() > 0),
        line matches Some(text) ==> shell_line(
            auto_setup_plan(markers),
            "source ~/.zshrc 2>/dev/null || true; "@,
        ) == Some(text@),
{
    let mut plan: Vec<SetupCommand> = Vec::new();
    if markers.nvmrc {
        plan.push(SetupCommand::NvmUse);
    }
    if markers.pnpm_lock {
        plan.push(SetupCommand::PnpmInstall);
    } else if markers.yarn_lock {
        plan.push(SetupCommand::YarnInstall);
    }
    assert(plan@ =~= auto_setup_plan(markers));
    compose(&plan, "source ~/.zshrc 2>/dev/null || true; ")
}

/// `lead`, the branch's name in quotes, and `rest`.
pub open spec fn about_branch(lead: Seq<char>, branch: Seq<char>, rest: Seq<char>) -> Seq<char> {
    lead + seq!['\''] + branch + seq!['\''] + rest
}

/// What the user is told when a command is about to be carried out:
/// before the backend is asked, which of the two requests it is; before the
/// registry is touched, how the worktree came to be there; before the
/// worktree is set up, where it is and how to go there.
pub open spec fn announcement(branch: Seq<char>, command: CommandView) -> Seq<Seq<char>> {
    match command {
        CommandView::AddWorktree { create_branch, .. } => if create_branch {
            seq![about_branch("Branch "@, branch, " not found, creating new branch"@)]
        } else {
            seq![about_branch("Adding worktree for branch "@, branch, ""@)]
        },
        CommandView::TouchRegistry { origin, .. } => match origin {
            Origin::Reused => seq![about_branch("Worktree already exists for branch "@, branch, ""@)],
            Origin::ExistingBranch => seq![
                about_branch("✓ Worktree added for existing branch "@, branch, ""@),
            ],
            Origin::NewBranch => seq![
                about_branch("✓ Created new branch "@, branch, " with worktree"@),
            ],
        },
        CommandView::Provision(path) => seq![
            "\n✓ Worktree ready at: "@ + path,
            "\nTo switch to this worktree, run:"@,
            "  cd "@ + path,
        ],
        _ => Seq::empty(),
    }
}

/// `lead`, the branch's name in quotes, and `rest`.
fn say_of_branch(lead: &str, branch: &str, rest: &str) -> (text: String)
    ensures
        text@ == about_branch(lead@, branch@, rest@),
{
    let mut text = lead.to_owned();
    text.push('\'');
    text.append(branch);
    text.push('\'');
    text.append(rest);
    assert(text@ =~= about_branch(lead@, branch@, rest@));
    text
}

impl Job {
    /// Says what the user is told when `command` is about to be carried out.
    pub fn announce(&self, command: &Command) -> (lines: Vec<String>)
        ensures
            texts(lines@) == announcement(self@.branch, command@),
    {
        let mut lines: Vec<String> = Vec::new();
        let branch = self.branch.as_str();
        match command {
            Command::AddWorktree { path: _, branch: _, create_branch } => {
                if *create_branch {
                    lines.push(say_of_branch("Branch ", branch, " not found, creating new branch"));
                } else {
                    lines.push(say_of_branch("Adding worktree for branch ", branch, ""));
                }
            },
            Command::TouchRegistry { repo_root: _, origin } => {
                match origin {
                    Origin::Reused => {
                        lines.push(say_of_branch("Worktree already exists for branch ", branch, ""));
                    },
                    Origin::ExistingBranch => {
                        lines.push(
                            say_of_branch("✓ Worktree added for existing branch ", branch, ""),
                        );
                    },
                    Origin::NewBranch => {
                        lines.push(say_of_branch("✓ Created new branch ", branch, " with worktree"));
                    },
                }
            },
            Command::Provision(path) => {
                let mut ready = "\n✓ Worktree ready at: ".to_owned();
                ready.append(path.as_str());
                lines.push(ready);
                lines.push("\nTo switch to this worktree, run:".to_owned());
                let mut go = "  cd ".to_owned();
                go.append(path.as_str());
                lines.push(go);
            },
            _ => {},
        }
        assert(texts(lines@) =~= announcement(self@.branch, command@));
        lines
    }
}

} // verus!
