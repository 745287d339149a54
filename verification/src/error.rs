//! What can go wrong while an update is fetched and installed, or the application restarted.
use vstd::prelude::*;

use crate::platform::{platform_name, Platform};
use crate::version::{version_text, Version};

verus! {

/// `std::io::Error`, carried as it comes.
#[verifier::external_type_specification]
#[verifier::external_body]
pub struct ExIoError(std::io::Error);

/// `zip::result::ZipError`, carried as it comes.
#[verifier::external_type_specification]
#[verifier::external_body]
pub struct ExZipError(zip::result::ZipError);

/// Why an update failed. `E` is what the update service reports.
#[derive(Debug)]
pub enum UpdateError<E> {
    Api(E),
    UnsupportedOs(&'static str),
    NoVersion { platform: Platform },
    ChecksumMismatch { version: Version, platform: Platform },
    Io(std::io::Error),
    Zip(zip::result::ZipError),
    UnsafeArchivePath(String),
    MissingExecutable,
    MultipleExecutables,
    MissingAppBundle,
    MissingMacosBundle,
    MultipleMacosBundles,
    InstallCommandFailed(String),
}

/// Why the application could not be restarted.
#[derive(Debug)]
pub enum RestartError {
    UnsupportedOs(&'static str),
    Io(std::io::Error),
    MissingAppBundle,
}

/// What an update error tells the user, `cause` being what the error inside it tells.
pub open spec fn update_error_text<E>(error: UpdateError<E>, cause: Seq<char>) -> Seq<char> {
    match error {
        UpdateError::Api(_) => "update API failed: "@ + cause,
        UpdateError::UnsupportedOs(os) => "unsupported OS: "@ + os@,
        UpdateError::NoVersion { platform } => "no version found for "@ + platform_name(platform),
        UpdateError::ChecksumMismatch { version, platform } => "checksum mismatch for "@
            + version_text(version@) + " on "@ + platform_name(platform),
        UpdateError::Io(_) => "IO error: "@ + cause,
        UpdateError::Zip(_) => "zip error: "@ + cause,
        UpdateError::UnsafeArchivePath(name) => "archive contains unsafe path: "@ + name@,
        UpdateError::MissingExecutable => "update archive does not contain an executable"@,
        UpdateError::MultipleExecutables => "update archive contains multiple executables"@,
        UpdateError::MissingAppBundle => "could not find .app bundle"@,
        UpdateError::MissingMacosBundle => "update archive does not contain an .app bundle"@,
        UpdateError::MultipleMacosBundles => "update archive contains multiple .app bundles"@,
        UpdateError::InstallCommandFailed(output) => "install command failed: "@ + output@,
    }
}

/// What a restart error tells the user, `cause` being what the error inside it tells.
pub open spec fn restart_error_text(error: RestartError, cause: Seq<char>) -> Seq<char> {
    match error {
        RestartError::UnsupportedOs(os) => "unsupported OS: "@ + os@,
        RestartError::Io(_) => "IO error: "@ + cause,
        RestartError::MissingAppBundle => "could not find .app bundle"@,
    }
}

impl<E> UpdateError<E> {
    /// What to tell the user. `cause` is the text of the error that an `Api`, `Io` or `Zip`
    /// error carries.
    pub fn message(&self, cause: &str) -> (text: String)
        ensures
            text@ == update_error_text(*self, cause@),
    {
        match self {
            UpdateError::Api(_) => "update API failed: ".to_owned().concat(cause),
            UpdateError::UnsupportedOs(os) => "unsupported OS: ".to_owned().concat(os),
            UpdateError::NoVersion { platform } => {
                "no version found for ".to_owned().concat(platform.as_str())
            },
            UpdateError::ChecksumMismatch { version, platform } => {
                "checksum mismatch for ".to_owned().concat(version.to_text().as_str()).concat(
                    " on ",
                ).concat(platform.as_str())
            },
            UpdateError::Io(_) => "IO error: ".to_owned().concat(cause),
            UpdateError::Zip(_) => "zip error: ".to_owned().concat(cause),
            UpdateError::UnsafeArchivePath(name) => {
                "archive contains unsafe path: ".to_owned().concat(name.as_str())
            },
            UpdateError::MissingExecutable => {
                "update archive does not contain an executable".to_owned()
            },
            UpdateError::MultipleExecutables => {
                "update archive contains multiple executables".to_owned()
            },
            UpdateError::MissingAppBundle => "could not find .app bundle".to_owned(),
            UpdateError::MissingMacosBundle => {
                "update archive does not contain an .app bundle".to_owned()
            },
            UpdateError::MultipleMacosBundles => {
                "update archive contains multiple .app bundles".to_owned()
            },
            UpdateError::InstallCommandFailed(output) => {
                "install command failed: ".to_owned().concat(output.as_str())
            },
        }
    }
}

impl RestartError {
    /// What to tell the user. `cause` is the text of the error that an `Io` error carries.
    pub fn message(&self, cause: &str) -> (text: String)
        ensures
            text@ == restart_error_text(*self, cause@),
    {
        match self {
            RestartError::UnsupportedOs(os) => "unsupported OS: ".to_owned().concat(os),
            RestartError::Io(_) => "IO error: ".to_owned().concat(cause),
            RestartError::MissingAppBundle => "could not find .app bundle".to_owned(),
        }
    }
}

impl<E> From<std::io::Error> for UpdateError<E> {
    fn from(error: std::io::Error) -> (e: Self) {
        UpdateError::Io(error)
    }
}

impl<E> vstd::std_specs::convert::FromSpecImpl<std::io::Error> for UpdateError<E> {
    open spec fn obeys_from_spec() -> bool {
        true
    }

    open spec fn from_spec(error: std::io::Error) -> Self {
        UpdateError::Io(error)
    }
}

impl<E> From<zip::result::ZipError> for UpdateError<E> {
    fn from(error: zip::result::ZipError) -> (e: Self) {
        UpdateError::Zip(error)
    }
}

impl<E> vstd::std_specs::convert::FromSpecImpl<zip::result::ZipError> for UpdateError<E> {
    open spec fn obeys_from_spec() -> bool {
        true
    }

    open spec fn from_spec(error: zip::result::ZipError) -> Self {
        UpdateError::Zip(error)
    }
}

impl From<std::io::Error> for RestartError {
    fn from(error: std::io::Error) -> (e: Self) {
        RestartError::Io(error)
    }
}

impl vstd::std_specs::convert::FromSpecImpl<std::io::Error> for RestartError {
    open spec fn obeys_from_spec() -> bool {
        true
    }

    open spec fn from_spec(error: std::io::Error) -> Self {
        RestartError::Io(error)
    }
}

} // verus!
