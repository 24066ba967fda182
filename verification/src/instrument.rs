//! The connected instrument and what can be done with it.

use vstd::prelude::*;

use crate::backup::Backup;
use crate::connect::{ConnectAction, Connecting};
use crate::files::{FileError, ProjectFile, SettingsFile};
use crate::protocol::{validate_project_index, InvalidProjectIndex, Step, Target};
use crate::restore::Restore;

#[allow(unused_imports)]
use crate::backup::BackupState;
#[allow(unused_imports)]
use crate::connect::ConnectState;
#[allow(unused_imports)]
use crate::files::{data_of, defect, law_whole_file_is_the_built_one};
#[allow(unused_imports)]
use crate::protocol::MAX_PROJECT_INDEX;
#[allow(unused_imports)]
use crate::restore::RestoreState;

verus! {

/// Why a project cannot be loaded from a file.
#[derive(Clone, Copy, Debug, PartialEq, Eq, Structural)]
pub enum LoadError {
    InvalidProjectIndex,
    File(FileError),
}

/// An instrument that has been greeted and has greeted back.
#[derive(Debug)]
pub struct LinnStrument {
    port: String,
}

impl View for LinnStrument {
    type V = Seq<char>;

    /// The port that the instrument answers on.
    closed spec fn view(&self) -> Seq<char> {
        self.port@
    }
}

impl LinnStrument {
    /// Begins to connect to the instrument, which is on `initial_port` at first.
    pub fn open(initial_port: &str) -> (result: (Connecting, ConnectAction<Vec<u8>, String>))
        ensures
            result.0@ == ConnectState::start(initial_port@),
            result.0@.valid(),
            result.1@ == result.0@.request(),
    {
        Connecting::start(initial_port)
    }

    /// The instrument at the end of a connection that succeeded.
    pub fn connected(connecting: &Connecting) -> (result: Option<LinnStrument>)
        ensures
            match result {
                Some(instrument) => {
                    &&& connecting@.phase is Connected
                    &&& instrument@ == connecting@.port
                },
                None => !(connecting@.phase is Connected),
            },
    {
        if connecting.is_connected() {
            Some(LinnStrument { port: connecting.port() })
        } else {
            None
        }
    }

    /// Begins to save a project to a file.
    pub fn save_project(&self, project_index: u8) -> (result: Result<
        (Backup, Step),
        InvalidProjectIndex,
    >)
        ensures
            match result {
                Ok((backup, step)) => {
                    &&& project_index <= MAX_PROJECT_INDEX
                    &&& backup@ == BackupState::start(Target::Project { index: project_index })
                    &&& backup@.valid()
                    &&& step.notice is None
                    &&& step.action@ == backup@.request()
                },
                Err(_) => project_index > MAX_PROJECT_INDEX,
            },
    {
        match validate_project_index(project_index) {
            Ok(_) => Ok(Backup::start(Target::Project { index: project_index })),
            Err(error) => Err(error),
        }
    }

    /// Begins to load a project from the contents of a file.
    pub fn load_project(&self, project_index: u8, file: &[u8]) -> (result: Result<
        (Restore, Step),
        LoadError,
    >)
        ensures
            match result {
                Ok((restore, step)) => {
                    &&& project_index <= MAX_PROJECT_INDEX
                    &&& defect(file@) is None
                    &&& restore@ == RestoreState::start(
                        Target::Project { index: project_index },
                        file@[0],
                        data_of(file@),
                    )
                    &&& restore@.valid()
                    &&& step.notice == Some(restore@.opening())
                    &&& step.action@ == restore@.request()
                },
                Err(LoadError::InvalidProjectIndex) => project_index > MAX_PROJECT_INDEX,
                Err(LoadError::File(error)) => {
                    &&& project_index <= MAX_PROJECT_INDEX
                    &&& defect(file@) == Some(error)
                },
            },
    {
        match validate_project_index(project_index) {
            Ok(_) => match ProjectFile::parse(file) {
                Ok(project) => {
                    proof {
                        law_whole_file_is_the_built_one(file@);
                    }
                    Ok(
                        Restore::start(
                            Target::Project { index: project_index },
                            project.version,
                            project.data,
                        ),
                    )
                },
                Err(error) => Err(LoadError::File(error)),
            },
            Err(_) => Err(LoadError::InvalidProjectIndex),
        }
    }

    /// Begins to save the settings to a file.
    pub fn save_settings(&self) -> (result: (Backup, Step))
        ensures
            result.0@ == BackupState::start(Target::Settings),
            result.0@.valid(),
            result.1.notice is None,
            result.1.action@ == result.0@.request(),
    {
        Backup::start(Target::Settings)
    }

    /// Begins to load the settings from the contents of a file.
    pub fn load_settings(&self, file: &[u8]) -> (result: Result<(Restore, Step), FileError>)
        ensures
            match result {
                Ok((restore, step)) => {
                    &&& defect(file@) is None
                    &&& restore@ == RestoreState::start(
                        Target::Settings,
                        file@[0],
                        data_of(file@),
                    )
                    &&& restore@.valid()
                    &&& step.notice == Some(restore@.opening())
                    &&& step.action@ == restore@.request()
                },
                Err(error) => defect(file@) == Some(error),
            },
    {
        match SettingsFile::parse(file) {
            Ok(settings) => {
                proof {
                    law_whole_file_is_the_built_one(file@);
                }
                Ok(Restore::start(Target::Settings, settings.version, settings.data))
            },
            Err(error) => Err(error),
        }
    }
}

} // verus!
