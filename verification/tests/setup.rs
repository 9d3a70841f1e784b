use wt_manager::setup::{
    compose, notice_line, report, Marker, Markers, SetupCommand, SetupManager, SetupNotice,
    SetupOutcome,
};
use wt_manager::worktree::auto_setup_command;

fn found(markers: &[Marker]) -> Markers {
    let mut all = Markers::none();
    for m in markers {
        all = all.with(*m);
    }
    all
}

const PRELUDE: &str = "source ~/.zshrc 2>/dev/null || source ~/.bashrc 2>/dev/null || true; ";

#[test]
fn marker_files_have_their_names() {
    let names: Vec<&str> = Marker::all().iter().map(|m| m.file_name()).collect();
    assert_eq!(
        names,
        vec!["mise.toml", ".mise.toml", ".nvmrc", "pnpm-lock.yaml", "yarn.lock", "package-lock.json"]
    );
}

#[test]
fn with_sets_one_marker() {
    let m = Markers::none().with(Marker::YarnLock);
    assert_eq!(m, Markers { yarn_lock: true, ..Markers::none() });
    assert_eq!(found(&Marker::all()), Markers {
        mise_toml: true,
        dot_mise_toml: true,
        nvmrc: true,
        pnpm_lock: true,
        yarn_lock: true,
        package_lock: true,
    });
}

#[test]
fn no_markers_no_commands() {
    assert_eq!(SetupManager::plan(Markers::none()), Vec::<SetupCommand>::new());
    assert_eq!(SetupManager::shell_command(Markers::none()), None);
}

#[test]
fn mise_comes_before_nvm() {
    assert_eq!(
        SetupManager::plan(found(&[Marker::Nvmrc, Marker::DotMiseToml])),
        vec![SetupCommand::MiseInstall]
    );
    assert_eq!(SetupManager::plan(found(&[Marker::MiseToml])), vec![SetupCommand::MiseInstall]);
    assert_eq!(SetupManager::plan(found(&[Marker::Nvmrc])), vec![SetupCommand::NvmUse]);
}

#[test]
fn pnpm_before_yarn_before_npm() {
    assert_eq!(
        SetupManager::plan(found(&[Marker::PackageLock, Marker::YarnLock, Marker::PnpmLock])),
        vec![SetupCommand::PnpmInstall]
    );
    assert_eq!(
        SetupManager::plan(found(&[Marker::PackageLock, Marker::YarnLock])),
        vec![SetupCommand::YarnInstall]
    );
    assert_eq!(
        SetupManager::plan(found(&[Marker::PackageLock])),
        vec![SetupCommand::NpmInstall]
    );
}

#[test]
fn shell_command_chains_and_reads_the_profile() {
    assert_eq!(
        SetupManager::shell_command(found(&[Marker::Nvmrc, Marker::YarnLock])),
        Some(format!("{}nvm use && yarn install", PRELUDE))
    );
    assert_eq!(
        SetupManager::shell_command(found(&[Marker::MiseToml])),
        Some(format!("{}mise install", PRELUDE))
    );
    assert_eq!(
        SetupManager::shell_command(found(&[Marker::PackageLock])),
        Some("npm install".to_string())
    );
    assert_eq!(SetupManager::prelude(), PRELUDE);
}

#[test]
fn compose_joins_commands() {
    assert_eq!(compose(&Vec::new(), "x; "), None);
    assert_eq!(
        compose(&vec![SetupCommand::PnpmInstall, SetupCommand::NpmInstall], "x; "),
        Some("pnpm install && npm install".to_string())
    );
    assert_eq!(
        compose(&vec![SetupCommand::PnpmInstall, SetupCommand::NvmUse], "x; "),
        Some("x; pnpm install && nvm use".to_string())
    );
}

#[test]
fn new_worktree_setup_knows_nvm_pnpm_and_yarn() {
    assert_eq!(auto_setup_command(Markers::none()), None);
    assert_eq!(auto_setup_command(found(&[Marker::MiseToml, Marker::PackageLock])), None);
    assert_eq!(
        auto_setup_command(found(&[Marker::Nvmrc, Marker::PnpmLock, Marker::YarnLock])),
        Some("source ~/.zshrc 2>/dev/null || true; nvm use && pnpm install".to_string())
    );
    assert_eq!(
        auto_setup_command(found(&[Marker::YarnLock])),
        Some("yarn install".to_string())
    );
}

#[test]
fn successful_run_is_reported_once() {
    let outcome = SetupOutcome::Exited {
        success: true,
        stdout: "lots of output".to_string(),
        stderr: "warnings".to_string(),
    };
    assert_eq!(report(outcome), vec![SetupNotice::Completed]);
}

#[test]
fn failed_run_reports_what_was_written() {
    let outcome = SetupOutcome::Exited {
        success: false,
        stdout: "out\n".to_string(),
        stderr: "err\n".to_string(),
    };
    assert_eq!(
        report(outcome),
        vec![
            SetupNotice::Issues,
            SetupNotice::Output("out\n".to_string()),
            SetupNotice::ErrorOutput("err\n".to_string()),
        ]
    );
}

#[test]
fn blank_streams_are_left_out() {
    let outcome = SetupOutcome::Exited {
        success: false,
        stdout: " \n".to_string(),
        stderr: "err".to_string(),
    };
    assert_eq!(
        report(outcome),
        vec![SetupNotice::Issues, SetupNotice::ErrorOutput("err".to_string())]
    );
    let silent = SetupOutcome::Exited {
        success: false,
        stdout: String::new(),
        stderr: "\t".to_string(),
    };
    assert_eq!(report(silent), vec![SetupNotice::Issues]);
}

#[test]
fn shell_that_does_not_start_is_a_warning() {
    let notices = report(SetupOutcome::NotStarted("No such file or directory".to_string()));
    assert_eq!(notices, vec![SetupNotice::NotRun("No such file or directory".to_string())]);
    assert!(notices[0].is_warning());
}

#[test]
fn notices_are_worded() {
    assert_eq!(notice_line(&SetupNotice::Completed), "✓ Setup completed successfully");
    assert_eq!(notice_line(&SetupNotice::Issues), "Warning: Setup completed with issues.");
    assert_eq!(notice_line(&SetupNotice::Output("x".to_string())), "Output: x");
    assert_eq!(notice_line(&SetupNotice::ErrorOutput("y".to_string())), "Error output: y");
    assert_eq!(
        notice_line(&SetupNotice::NotRun("z".to_string())),
        "Warning: Could not run setup command: z"
    );
    assert!(!SetupNotice::Completed.is_warning());
    assert!(SetupNotice::Issues.is_warning());
    assert!(!SetupNotice::Output(String::new()).is_warning());
    assert!(SetupNotice::ErrorOutput(String::new()).is_warning());
}
