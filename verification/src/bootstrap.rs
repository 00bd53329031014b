//! Setting up the directory of a workspace that does not exist yet: the
//! directory is created, version control is initialized in it, and build
//! output is put on its ignore list.
//!
//! The work itself is done by the caller. This module decides, from how the
//! last step ended, what comes next.

use vstd::prelude::*;

verus! {

/// The single entry written to the ignore file: build output at any depth.
pub const IGNORE_ENTRY: &'static str = "**/target";

/// How far the setup has come.
#[derive(Debug, Clone, Copy, PartialEq, Eq, Structural)]
pub enum Phase {
    /// Nothing is known yet; the caller looks whether the directory exists.
    Probing,
    /// The directory is being created, parents included.
    CreatingDirectory,
    /// Version control is being initialized in the new directory.
    InitializingVersionControl,
    /// The ignore file is being written.
    WritingIgnoreFile,
    /// The directory is there; discovery can begin.
    Ready,
    /// The directory could not be created.
    Failed,
}

/// What the caller is to do next.
#[derive(Debug, Clone, Copy, PartialEq, Eq, Structural)]
pub enum Action {
    /// Create the directory and its parents.
    CreateDirectory,
    /// Initialize version control in the directory.
    InitVersionControl,
    /// Write the ignore file, holding the ignore entry.
    WriteIgnoreFile,
    /// Go on to discover the members.
    Proceed,
    /// Give up with the error of the step that failed.
    Abort,
}

/// A step that failed without stopping the setup.
#[derive(Debug, Clone, Copy, PartialEq, Eq, Structural)]
pub enum Warning {
    /// Version control could not be initialized.
    VersionControl,
    /// The ignore file could not be written.
    IgnoreFile,
}

/// Where the setup goes after a step, what is to be done there, and what
/// the caller is to be warned of.
#[derive(Debug, Clone, Copy, PartialEq, Eq, Structural)]
pub struct Transition {
    pub phase: Phase,
    pub action: Action,
    pub warning: Option<Warning>,
}

/// The number of steps that may still follow a phase.
pub open spec fn steps_left(phase: Phase) -> nat {
    match phase {
        Phase::Probing => 4,
        Phase::CreatingDirectory => 3,
        Phase::InitializingVersionControl => 2,
        Phase::WritingIgnoreFile => 1,
        Phase::Ready => 0,
        Phase::Failed => 0,
    }
}

/// The transition out of `phase` when its step ended as `ok` says. While
/// probing, `ok` says that the directory exists.
pub open spec fn spec_advance(phase: Phase, ok: bool) -> Transition {
    match phase {
        Phase::Probing => if ok {
            Transition { phase: Phase::Ready, action: Action::Proceed, warning: None }
        } else {
            Transition {
                phase: Phase::CreatingDirectory,
                action: Action::CreateDirectory,
                warning: None,
            }
        },
        Phase::CreatingDirectory => if ok {
            Transition {
                phase: Phase::InitializingVersionControl,
                action: Action::InitVersionControl,
                warning: None,
            }
        } else {
            Transition { phase: Phase::Failed, action: Action::Abort, warning: None }
        },
        Phase::InitializingVersionControl => Transition {
            phase: Phase::WritingIgnoreFile,
            action: Action::WriteIgnoreFile,
            warning: if ok {
                None
            } else {
                Some(Warning::VersionControl)
            },
        },
        Phase::WritingIgnoreFile => Transition {
            phase: Phase::Ready,
            action: Action::Proceed,
            warning: if ok {
                None
            } else {
                Some(Warning::IgnoreFile)
            },
        },
        Phase::Ready => Transition { phase: Phase::Ready, action: Action::Proceed, warning: None },
        Phase::Failed => Transition { phase: Phase::Failed, action: Action::Abort, warning: None },
    }
}

impl Warning {
    /// The text of the warning, to be followed by the path it is about.
    pub open spec fn spec_message(self) -> Seq<char> {
        match self {
            Warning::VersionControl => "git repository init failed "@,
            Warning::IgnoreFile => "create or write .gitignore failed "@,
        }
    }

    /// The text of the warning, to be followed by the path it is about.
    pub fn message(&self) -> (text: &'static str)
        ensures
            text@ == self.spec_message(),
    {
        match self {
            Warning::VersionControl => "git repository init failed ",
            Warning::IgnoreFile => "create or write .gitignore failed ",
        }
    }
}

/// Where the setup starts.
pub fn start() -> (phase: Phase)
    ensures
        phase == Phase::Probing,
{
    Phase::Probing
}

/// Decides what follows a step. Only a directory that cannot be created
/// stops the setup; a failure of version control or of the ignore file is
/// handed back as a warning, and the setup goes on.
pub fn advance(phase: Phase, ok: bool) -> (next: Transition)
    ensures
        next == spec_advance(phase, ok),
        next.action == Action::Abort <==> phase == Phase::Failed || (phase
            == Phase::CreatingDirectory && !ok),
        next.warning is Some ==> !ok && next.action != Action::Abort,
        next.action == Action::Proceed <==> next.phase == Phase::Ready,
        next.action == Action::Abort <==> next.phase == Phase::Failed,
        phase != Phase::Ready && phase != Phase::Failed ==> steps_left(next.phase) < steps_left(
            phase,
        ),
{
    match phase {
        Phase::Probing => {
            if ok {
                Transition { phase: Phase::Ready, action: Action::Proceed, warning: None }
            } else {
                Transition {
                    phase: Phase::CreatingDirectory,
                    action: Action::CreateDirectory,
                    warning: None,
                }
            }
        },
        Phase::CreatingDirectory => {
            if ok {
                Transition {
                    phase: Phase::InitializingVersionControl,
                    action: Action::InitVersionControl,
                    warning: None,
                }
            } else {
                Transition { phase: Phase::Failed, action: Action::Abort, warning: None }
            }
        },
        Phase::InitializingVersionControl => {
            let warning = if ok {
                None
            } else {
                Some(Warning::VersionControl)
            };
            Transition { phase: Phase::WritingIgnoreFile, action: Action::WriteIgnoreFile, warning }
        },
        Phase::WritingIgnoreFile => {
            let warning = if ok {
                None
            } else {
                Some(Warning::IgnoreFile)
            };
            Transition { phase: Phase::Ready, action: Action::Proceed, warning }
        },
        Phase::Ready => Transition { phase: Phase::Ready, action: Action::Proceed, warning: None },
        Phase::Failed => Transition { phase: Phase::Failed, action: Action::Abort, warning: None },
    }
}

} // verus!
