use app_update::{Platform, RestartError, UpdateError, Version};
use std::io::{Error, ErrorKind};
use zip::result::ZipError;

fn text(error: UpdateError<String>, cause: &str) -> String {
    error.message(cause)
}

#[test]
fn update_errors_are_told() {
    let platform = Platform::MacosIntel;
    let version = Version::with_labels(1, 2, 3, "rc.1", "").unwrap();
    assert_eq!(text(UpdateError::Api("x".to_string()), "down"), "update API failed: down");
    assert_eq!(text(UpdateError::UnsupportedOs("plan9"), ""), "unsupported OS: plan9");
    assert_eq!(
        text(UpdateError::NoVersion { platform }, ""),
        "no version found for macos-intel"
    );
    assert_eq!(
        text(UpdateError::ChecksumMismatch { version, platform }, ""),
        "checksum mismatch for 1.2.3-rc.1 on macos-intel"
    );
    assert_eq!(
        text(UpdateError::UnsafeArchivePath("../x".to_string()), ""),
        "archive contains unsafe path: ../x"
    );
    assert_eq!(
        text(UpdateError::MissingExecutable, ""),
        "update archive does not contain an executable"
    );
    assert_eq!(
        text(UpdateError::MultipleExecutables, ""),
        "update archive contains multiple executables"
    );
    assert_eq!(text(UpdateError::MissingAppBundle, ""), "could not find .app bundle");
    assert_eq!(
        text(UpdateError::MissingMacosBundle, ""),
        "update archive does not contain an .app bundle"
    );
    assert_eq!(
        text(UpdateError::MultipleMacosBundles, ""),
        "update archive contains multiple .app bundles"
    );
    assert_eq!(
        text(UpdateError::InstallCommandFailed("no".to_string()), ""),
        "install command failed: no"
    );
}

#[test]
fn outside_errors_are_taken_over() {
    let error: UpdateError<String> = Error::new(ErrorKind::Other, "disk").into();
    assert!(matches!(error, UpdateError::Io(_)));
    assert_eq!(error.message("disk"), "IO error: disk");
    let error: UpdateError<String> = ZipError::FileNotFound.into();
    assert!(matches!(error, UpdateError::Zip(ZipError::FileNotFound)));
    assert_eq!(error.message("gone"), "zip error: gone");
    let error: RestartError = Error::new(ErrorKind::Other, "disk").into();
    assert!(matches!(error, RestartError::Io(_)));
    assert_eq!(error.message("disk"), "IO error: disk");
}

#[test]
fn restart_errors_are_told() {
    assert_eq!(RestartError::UnsupportedOs("plan9").message(""), "unsupported OS: plan9");
    assert_eq!(RestartError::MissingAppBundle.message(""), "could not find .app bundle");
}
