use cargo_workspaces::bootstrap::{advance, start, Action, Phase, Transition, Warning, IGNORE_ENTRY};

#[test]
fn ignore_entry_covers_nested_build_output() {
    assert_eq!(IGNORE_ENTRY, "**/target");
}

#[test]
fn setup_starts_by_probing() {
    assert_eq!(start(), Phase::Probing);
}

#[test]
fn existing_directory_needs_no_setup() {
    assert_eq!(
        advance(Phase::Probing, true),
        Transition { phase: Phase::Ready, action: Action::Proceed, warning: None }
    );
}

#[test]
fn missing_directory_is_set_up_step_by_step() {
    let mut actions = Vec::new();
    let mut phase = start();
    let mut ok = false;
    loop {
        let next = advance(phase, ok);
        assert_eq!(next.warning, None);
        actions.push(next.action);
        phase = next.phase;
        ok = true;
        if phase == Phase::Ready || phase == Phase::Failed {
            break;
        }
    }
    assert_eq!(
        actions,
        vec![
            Action::CreateDirectory,
            Action::InitVersionControl,
            Action::WriteIgnoreFile,
            Action::Proceed
        ]
    );
    assert_eq!(phase, Phase::Ready);
}

#[test]
fn directory_that_cannot_be_created_aborts() {
    assert_eq!(
        advance(Phase::CreatingDirectory, false),
        Transition { phase: Phase::Failed, action: Action::Abort, warning: None }
    );
}

#[test]
fn failed_version_control_is_a_warning() {
    assert_eq!(
        advance(Phase::InitializingVersionControl, false),
        Transition {
            phase: Phase::WritingIgnoreFile,
            action: Action::WriteIgnoreFile,
            warning: Some(Warning::VersionControl)
        }
    );
}

#[test]
fn failed_ignore_file_is_a_warning() {
    assert_eq!(
        advance(Phase::WritingIgnoreFile, false),
        Transition { phase: Phase::Ready, action: Action::Proceed, warning: Some(Warning::IgnoreFile) }
    );
}

#[test]
fn setup_goes_on_after_both_warnings() {
    let created = advance(advance(start(), false).phase, true);
    let initialized = advance(created.phase, false);
    let written = advance(initialized.phase, false);
    assert_eq!(initialized.warning, Some(Warning::VersionControl));
    assert_eq!(written.warning, Some(Warning::IgnoreFile));
    assert_eq!(written.action, Action::Proceed);
    assert_eq!(written.phase, Phase::Ready);
}

#[test]
fn final_phases_stay() {
    for ok in [true, false] {
        assert_eq!(
            advance(Phase::Ready, ok),
            Transition { phase: Phase::Ready, action: Action::Proceed, warning: None }
        );
        assert_eq!(
            advance(Phase::Failed, ok),
            Transition { phase: Phase::Failed, action: Action::Abort, warning: None }
        );
    }
}

#[test]
fn only_directory_creation_is_fatal() {
    let phases = [
        Phase::Probing,
        Phase::CreatingDirectory,
        Phase::InitializingVersionControl,
        Phase::WritingIgnoreFile,
        Phase::Ready,
    ];
    for phase in phases {
        for ok in [true, false] {
            let aborts = advance(phase, ok).action == Action::Abort;
            assert_eq!(aborts, phase == Phase::CreatingDirectory && !ok);
        }
    }
}

#[test]
fn warning_messages() {
    assert_eq!(Warning::VersionControl.message(), "git repository init failed ");
    assert_eq!(Warning::IgnoreFile.message(), "create or write .gitignore failed ");
}
