use app_update::update::{UpdateAction, UpdateEvent, UpdateMove, UpdateRun};
use app_update::{
    AppUpdater, AvailableUpdate, Platform, UpdateCheck, UpdateConfig, UpdateConfigError,
    UpdateError, UpdateOutcome, UpdateStatus, Version,
};
use sha2::{Digest, Sha256};

#[derive(Clone, Debug)]
struct FakeApi {
    latest: Option<AvailableUpdate>,
    archive: Vec<u8>,
}

impl FakeApi {
    fn latest_update(&self, _platform: Platform) -> Result<Option<AvailableUpdate>, String> {
        Ok(self.latest.clone())
    }

    fn download_update(
        &self,
        _update: &AvailableUpdate,
        _platform: Platform,
    ) -> Result<Vec<u8>, String> {
        Ok(self.archive.clone())
    }
}

fn hex(data: &[u8]) -> String {
    format!("{:x}", Sha256::digest(data))
}

fn updater(
    current: Version,
    latest: Option<AvailableUpdate>,
    archive: &[u8],
) -> AppUpdater<FakeApi> {
    AppUpdater::new(
        UpdateConfig::for_platform(current, Platform::MacosArm),
        FakeApi { latest, archive: archive.to_vec() },
    )
}

fn available(version: Version, archive: &[u8]) -> AvailableUpdate {
    AvailableUpdate::new(version, &hex(archive)).unwrap()
}

/// Drives an update with reports to its end, with `installed` as the outcome of the installation.
fn drive(
    updater: &AppUpdater<FakeApi>,
    installed: Option<Result<(), UpdateError<String>>>,
) -> (Vec<UpdateStatus>, Vec<Vec<u8>>, Result<UpdateOutcome, UpdateError<String>>) {
    drive_from(updater, updater.update_with_status(), installed)
}

/// Drives a run from its start to its end.
fn drive_from(
    updater: &AppUpdater<FakeApi>,
    start: (UpdateRun, UpdateMove<String>),
    mut installed: Option<Result<(), UpdateError<String>>>,
) -> (Vec<UpdateStatus>, Vec<Vec<u8>>, Result<UpdateOutcome, UpdateError<String>>) {
    let (mut run, mut now) = start;
    let mut reports = Vec::new();
    let mut archives = Vec::new();
    loop {
        reports.extend(now.report);
        now = match now.action {
            UpdateAction::FetchLatest(platform) => {
                run.advance(UpdateEvent::Latest(updater.api().latest_update(platform)))
            }
            UpdateAction::Download(update, platform) => run.advance(UpdateEvent::Downloaded(
                updater.api().download_update(&update, platform),
            )),
            UpdateAction::Install(archive) => {
                archives.push(archive);
                run.advance(UpdateEvent::Installed(installed.take().unwrap()))
            }
            UpdateAction::Finish(result) => return (reports, archives, result),
        };
    }
}

#[test]
fn check_reports_available_when_latest_is_newer() {
    let sha256 = format!("{:x}", Sha256::digest(b"archive"));
    let api = FakeApi {
        latest: Some(AvailableUpdate::new(Version::new(1, 1, 0), &sha256).unwrap()),
        archive: Vec::new(),
    };
    let updater = AppUpdater::new(
        UpdateConfig::for_platform(Version::new(1, 0, 0), Platform::MacosArm),
        api,
    );

    let latest = updater.api().latest_update(updater.platform());
    let result = updater.check(latest).unwrap();

    assert!(matches!(result, UpdateCheck::Available(_)));
}

#[test]
fn update_rejects_archive_with_wrong_checksum() {
    let sha256 = format!("{:x}", Sha256::digest(b"expected"));
    let api = FakeApi {
        latest: Some(AvailableUpdate::new(Version::new(1, 1, 0), &sha256).unwrap()),
        archive: b"actual".to_vec(),
    };
    let updater = AppUpdater::new(
        UpdateConfig::for_platform(Version::new(1, 0, 0), Platform::MacosArm),
        api,
    );

    let (reports, archives, result) = drive_from(&updater, updater.update(), None);

    assert!(matches!(result, Err(UpdateError::ChecksumMismatch { .. })));
    assert!(archives.is_empty());
    assert_eq!(
        reports,
        vec![
            UpdateStatus::Checking,
            UpdateStatus::Downloading { version: Version::new(1, 1, 0) },
        ]
    );
    match result {
        Err(UpdateError::ChecksumMismatch { version, platform }) => {
            assert_eq!(version, Version::new(1, 1, 0));
            assert_eq!(platform, Platform::MacosArm);
        }
        _ => unreachable!(),
    }
}

#[test]
fn a_newer_update_is_downloaded_and_installed() {
    let version = Version::new(2, 0, 0);
    let updater = updater(Version::new(1, 9, 9), Some(available(version.clone(), b"new")), b"new");
    let (reports, archives, result) = drive(&updater, Some(Ok(())));
    assert_eq!(archives, vec![b"new".to_vec()]);
    assert_eq!(
        reports,
        vec![
            UpdateStatus::Checking,
            UpdateStatus::Downloading { version: version.clone() },
            UpdateStatus::Installing { version: version.clone() },
            UpdateStatus::Updated { version: version.clone() },
        ]
    );
    assert_eq!(result.unwrap(), UpdateOutcome::Updated { version });
}

#[test]
fn a_failed_installation_is_the_result() {
    let version = Version::new(2, 0, 0);
    let updater = updater(Version::new(1, 9, 9), Some(available(version.clone(), b"new")), b"new");
    let (reports, _, result) = drive(&updater, Some(Err(UpdateError::MissingExecutable)));
    assert_eq!(reports.len(), 3);
    assert!(matches!(result, Err(UpdateError::MissingExecutable)));
}

#[test]
fn the_installed_version_is_up_to_date() {
    let version = Version::new(1, 0, 0);
    let updater = updater(version.clone(), Some(available(version.clone(), b"same")), b"same");
    let (reports, archives, result) = drive(&updater, None);
    assert!(archives.is_empty());
    assert_eq!(
        reports,
        vec![UpdateStatus::Checking, UpdateStatus::UpToDate { version: version.clone() }]
    );
    assert_eq!(result.unwrap(), UpdateOutcome::UpToDate { version });
}

#[test]
fn an_older_version_is_no_update() {
    let updater = updater(
        Version::new(1, 0, 0),
        Some(available(Version::new(0, 9, 0), b"old")),
        b"old",
    );
    let latest = updater.api().latest_update(updater.platform());
    assert_eq!(
        updater.check(latest).unwrap(),
        UpdateCheck::UpToDate { version: Version::new(0, 9, 0) }
    );
}

#[test]
fn what_updates_a_version_updates_older_ones() {
    let update = available(Version::new(1, 5, 0), b"x");
    for minor in 0..5 {
        let updater = updater(Version::new(1, minor, 3), Some(update.clone()), b"x");
        let latest = updater.api().latest_update(updater.platform());
        assert_eq!(updater.check(latest).unwrap(), UpdateCheck::Available(update.clone()));
    }
}

#[test]
fn an_update_tells_its_version() {
    let update = available(Version::new(1, 5, 0), b"x");
    assert_eq!(update.version(), &Version::new(1, 5, 0));
    assert_eq!(update.version(), &update.version);
}

#[test]
fn no_version_is_an_error() {
    let updater = updater(Version::new(1, 0, 0), None, b"");
    let (_, _, result) = drive(&updater, None);
    assert!(matches!(result, Err(UpdateError::NoVersion { platform: Platform::MacosArm })));
}

#[test]
fn errors_of_the_service_are_passed_on() {
    let updater = updater(Version::new(1, 0, 0), None, b"");
    let check = updater.check(Err("down".to_string()));
    assert!(matches!(check, Err(UpdateError::Api(error)) if error == "down"));
    let update = available(Version::new(2, 0, 0), b"x");
    let download = updater.download(&update, Err("gone".to_string()));
    assert!(matches!(download, Err(UpdateError::Api(error)) if error == "gone"));
}

#[test]
fn a_download_is_the_archive_with_the_right_digest() {
    let updater = updater(Version::new(1, 0, 0), None, b"");
    let update = available(Version::new(2, 0, 0), b"payload");
    let reply: Result<Vec<u8>, String> = Ok(b"payload".to_vec());
    assert_eq!(updater.download(&update, reply).unwrap(), b"payload".to_vec());
    let reply: Result<Vec<u8>, String> = Ok(b"payload".to_vec());
    assert_eq!(
        updater.download_and_install(update.clone(), reply).unwrap(),
        b"payload".to_vec()
    );
    let reply: Result<Vec<u8>, String> = Ok(b"Payload".to_vec());
    assert!(matches!(
        updater.download(&update, reply),
        Err(UpdateError::ChecksumMismatch { .. })
    ));
}

#[test]
fn an_archive_is_taken_by_its_digest_alone() {
    let updater = updater(Version::new(1, 0, 0), None, b"");
    let zeros = "00".repeat(32);
    let update = AvailableUpdate::new(Version::new(2, 0, 0), &zeros).unwrap();
    let taken: Result<Vec<u8>, UpdateError<String>> =
        updater.accept_archive(&update, b"anything".to_vec(), &[0; 32]);
    assert_eq!(taken.unwrap(), b"anything".to_vec());
    let mut other = [0; 32];
    other[31] = 1;
    let refused: Result<Vec<u8>, UpdateError<String>> =
        updater.accept_archive(&update, b"anything".to_vec(), &other);
    assert!(refused.is_err());
}

#[test]
fn update_starts_as_update_with_status_does() {
    let updater = updater(Version::new(1, 0, 0), None, b"");
    let (_, first): (UpdateRun, UpdateMove<String>) = updater.update();
    assert_eq!(first.report, Some(UpdateStatus::Checking));
    assert!(matches!(first.action, UpdateAction::FetchLatest(Platform::MacosArm)));
}

#[test]
fn the_platform_is_that_of_the_machine() {
    assert_eq!(Platform::current("macos", "aarch64").unwrap(), Platform::MacosArm);
    assert_eq!(Platform::current("macos", "x86_64").unwrap(), Platform::MacosIntel);
    assert_eq!(Platform::current("windows", "aarch64").unwrap(), Platform::WindowsX8664Gnu);
    let error = Platform::current("linux", "x86_64").unwrap_err();
    assert!(matches!(error, UpdateConfigError::UnsupportedOs("linux")));
    assert_eq!(error.message(), "unsupported OS: linux");
}

#[test]
fn platforms_have_names() {
    assert_eq!(Platform::MacosArm.as_str(), "macos-arm");
    assert_eq!(Platform::MacosIntel.as_str(), "macos-intel");
    assert_eq!(Platform::WindowsX8664Gnu.as_str(), "windows-x86_64-gnu");
}

#[test]
fn a_configuration_is_for_the_machine() {
    let config = UpdateConfig::new(Version::new(1, 0, 0), "windows", "x86_64").unwrap();
    let updater = AppUpdater::new(config, ());
    assert_eq!(updater.platform(), Platform::WindowsX8664Gnu);
    assert!(UpdateConfig::new(Version::new(1, 0, 0), "freebsd", "x86_64").is_err());
}
