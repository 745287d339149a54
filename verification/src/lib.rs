//! Keeping an application up to date, and publishing the updates.
//!
//! One half looks for an update, verifies its archive and installs it: `update` takes the
//! decisions from what the update service replies, `install` those on the way from a verified
//! archive to the installed application, and `restart` says how to start it again. The other
//! half makes a release: `release_run` leads through building (`build_run`), signing (`sign`)
//! and uploading (`upload`).
//!
//! Nothing here reads files, runs programs or waits. What is to be done outside is asked for,
//! and the answer is handed back.
//!
//! The modules whose names end in `laws` state what holds of the others, in terms of what goes in
//! and what comes out.
pub mod archive;
pub mod archive_laws;
pub mod build_laws;
pub mod build_run;
pub mod bundle;
pub mod bundle_laws;
pub mod checksum;
pub mod command;
pub mod error;
pub mod install;
pub mod install_laws;
pub mod path;
pub mod path_laws;
pub mod payload;
pub mod platform;
pub mod release;
pub mod release_course;
pub mod release_laws;
pub mod release_run;
pub mod restart;
pub mod script;
pub mod script_laws;
pub mod sign;
pub mod sign_laws;
pub mod text;
pub mod text_laws;
pub mod unix_path;
pub mod update;
pub mod update_laws;
pub mod upload;
pub mod version;
pub mod version_laws;
pub mod windows_path;
pub mod windows_path_laws;

pub use crate::checksum::ChecksumError;
pub use crate::error::{RestartError, UpdateError};
pub use crate::platform::{Platform, UpdateConfigError};
pub use crate::restart::restart_application;
pub use crate::update::{
    AppUpdater, AvailableUpdate, UpdateCheck, UpdateConfig, UpdateOutcome, UpdateStatus,
};
pub use crate::version::Version;
