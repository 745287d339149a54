//! Updating the application: whether there is an update, and the course of fetching,
//! verifying and installing it.
use vstd::prelude::*;

use crate::checksum::{
    a_written_digest_is_read_back, checksum_bytes, hex_text, is_checksum,
    parse_sha256, same_digest, sha256, sha256_digest, ChecksumError,
};
use crate::error::UpdateError;
use crate::platform::{platform_of, Platform, UpdateConfigError};
use crate::version::{
    version_le, version_order_is_transitive, versions_are_totally_ordered, Version,
};

verus! {

/// What is installed, and where.
#[derive(Clone, Debug)]
pub struct UpdateConfig {
    current_version: Version,
    platform: Platform,
}

impl UpdateConfig {
    /// The version that is installed.
    pub closed spec fn version(self) -> Version {
        self.current_version
    }

    /// The platform that it runs on.
    pub closed spec fn target(self) -> Platform {
        self.platform
    }

    /// The configuration for a machine whose operating system and processor architecture the
    /// standard library calls `os` and `arch`.
    pub fn new(current_version: Version, os: &'static str, arch: &str) -> (config: Result<
        Self,
        UpdateConfigError,
    >)
        ensures
            match config {
                Ok(config) => config.version() == current_version && platform_of(os@, arch@)
                    == Some(config.target()),
                Err(UpdateConfigError::UnsupportedOs(name)) => platform_of(os@, arch@) is None
                    && name@ == os@,
            },
    {
        match Platform::current(os, arch) {
            Ok(platform) => Ok(UpdateConfig::for_platform(current_version, platform)),
            Err(error) => Err(error),
        }
    }

    /// The configuration for a platform.
    pub fn for_platform(current_version: Version, platform: Platform) -> (config: Self)
        ensures
            config.version() == current_version,
            config.target() == platform,
    {
        UpdateConfig { current_version, platform }
    }
}

/// An update that the service offers: its version, and the checksum of its archive.
#[derive(Debug, PartialEq, Eq)]
pub struct AvailableUpdate {
    pub version: Version,
    sha256: [u8; 32],
}

impl AvailableUpdate {
    /// The version that the update brings.
    pub closed spec fn offered(self) -> Version {
        self.version
    }

    /// The SHA-256 digest that the archive must have.
    pub closed spec fn checksum(self) -> Seq<u8> {
        self.sha256@
    }

    /// The update to `version` whose archive has the checksum that `sha256` spells.
    pub fn new(version: Version, sha256: &str) -> (update: Result<Self, ChecksumError>)
        ensures
            update is Ok <==> is_checksum(sha256@),
            update matches Ok(update) ==> update.offered() == version && update.checksum()
                == checksum_bytes(sha256@),
            update matches Err(ChecksumError::InvalidSha256(given)) ==> given@ == sha256@,
    {
        match parse_sha256(sha256) {
            Ok(sha256) => Ok(AvailableUpdate { version, sha256 }),
            Err(error) => Err(error),
        }
    }

    /// The version that the update brings.
    pub fn version(&self) -> (version: &Version)
        ensures
            *version == self.offered(),
    {
        &self.version
    }
}

impl Clone for AvailableUpdate {
    fn clone(&self) -> (copy: Self)
        ensures
            copy == *self,
    {
        AvailableUpdate { version: self.version.clone(), sha256: self.sha256 }
    }
}

/// What a look at the service has shown.
#[derive(Clone, Debug, PartialEq, Eq)]
pub enum UpdateCheck {
    UpToDate { version: Version },
    Available(AvailableUpdate),
}

/// How an update ended well.
#[derive(Clone, Debug, PartialEq, Eq)]
pub enum UpdateOutcome {
    UpToDate { version: Version },
    Updated { version: Version },
}

/// How far an update has come.
#[derive(Clone, Debug, PartialEq, Eq)]
pub enum UpdateStatus {
    Checking,
    UpToDate { version: Version },
    Downloading { version: Version },
    Installing { version: Version },
    Updated { version: Version },
}

/// What the reply of the service on its latest update means.
pub open spec fn check_outcome<E>(
    config: UpdateConfig,
    latest: Result<Option<AvailableUpdate>, E>,
) -> Result<UpdateCheck, UpdateError<E>> {
    match latest {
        Err(error) => Err(UpdateError::Api(error)),
        Ok(None) => Err(UpdateError::NoVersion { platform: config.target() }),
        Ok(Some(update)) => if version_le(update.offered()@, config.version()@) {
            Ok(UpdateCheck::UpToDate { version: update.offered() })
        } else {
            Ok(UpdateCheck::Available(update))
        },
    }
}

/// An archive with the digest `digest` is taken for `update` only where that is the checksum
/// of the update.
pub open spec fn archive_outcome<E>(
    config: UpdateConfig,
    update: AvailableUpdate,
    archive: Vec<u8>,
    digest: Seq<u8>,
) -> Result<Vec<u8>, UpdateError<E>> {
    if digest == update.checksum() {
        Ok(archive)
    } else {
        Err(UpdateError::ChecksumMismatch { version: update.offered(), platform: config.target() })
    }
}

/// What the reply of the service on the request for an archive means.
pub open spec fn download_outcome<E>(
    config: UpdateConfig,
    update: AvailableUpdate,
    reply: Result<Vec<u8>, E>,
) -> Result<Vec<u8>, UpdateError<E>> {
    match reply {
        Err(error) => Err(UpdateError::Api(error)),
        Ok(archive) => archive_outcome(config, update, archive, sha256(archive@)),
    }
}

/// An updater: the configuration, and the service that it asks.
#[derive(Clone, Debug)]
pub struct AppUpdater<A> {
    config: UpdateConfig,
    api: A,
}

impl<A> AppUpdater<A> {
    /// What the updater was configured with.
    pub closed spec fn configuration(self) -> UpdateConfig {
        self.config
    }

    /// The service that it asks.
    pub closed spec fn service(self) -> A {
        self.api
    }

    /// An updater with this configuration that asks this service.
    pub fn new(config: UpdateConfig, api: A) -> (updater: Self)
        ensures
            updater.configuration() == config,
            updater.service() == api,
    {
        AppUpdater { config, api }
    }

    /// The service that the updater asks.
    pub fn api(&self) -> (api: &A)
        ensures
            *api == self.service(),
    {
        &self.api
    }

    /// The platform that the updater asks for.
    pub fn platform(&self) -> (platform: Platform)
        ensures
            platform == self.configuration().target(),
    {
        self.config.platform
    }

    /// Whether there is an update, given what the service replied when it was asked for the
    /// latest one.
    pub fn check<E>(&self, latest: Result<Option<AvailableUpdate>, E>) -> (check: Result<
        UpdateCheck,
        UpdateError<E>,
    >)
        ensures
            check == check_outcome(self.configuration(), latest),
    {
        self.config.check(latest)
    }

    /// The archive of `update`, given that it has the digest `digest`.
    pub fn accept_archive<E>(
        &self,
        update: &AvailableUpdate,
        archive: Vec<u8>,
        digest: &[u8; 32],
    ) -> (accepted: Result<Vec<u8>, UpdateError<E>>)
        ensures
            accepted == archive_outcome::<E>(self.configuration(), *update, archive, digest@),
    {
        self.config.accept_archive(update, archive, digest)
    }

    /// The archive of `update`, given what the service replied when it was asked for it.
    pub fn download<E>(&self, update: &AvailableUpdate, reply: Result<Vec<u8>, E>) -> (archive:
        Result<Vec<u8>, UpdateError<E>>)
        ensures
            archive == download_outcome(self.configuration(), *update, reply),
    {
        self.config.download(update, reply)
    }

    /// The archive that is to be installed for `update`, given what the service replied when
    /// it was asked for it. Nothing is to be installed where this is an error.
    pub fn download_and_install<E>(&self, update: AvailableUpdate, reply: Result<Vec<u8>, E>) -> (
    archive: Result<Vec<u8>, UpdateError<E>>)
        ensures
            archive == download_outcome(self.configuration(), update, reply),
    {
        self.config.download(&update, reply)
    }
}

impl UpdateConfig {
    fn check<E>(&self, latest: Result<Option<AvailableUpdate>, E>) -> (check: Result<
        UpdateCheck,
        UpdateError<E>,
    >)
        ensures
            check == check_outcome(*self, latest),
    {
        match latest {
            Err(error) => Err(UpdateError::Api(error)),
            Ok(None) => Err(UpdateError::NoVersion { platform: self.platform }),
            Ok(Some(update)) => if update.version.is_at_most(&self.current_version) {
                Ok(UpdateCheck::UpToDate { version: update.version })
            } else {
                Ok(UpdateCheck::Available(update))
            },
        }
    }

    fn accept_archive<E>(
        &self,
        update: &AvailableUpdate,
        archive: Vec<u8>,
        digest: &[u8; 32],
    ) -> (accepted: Result<Vec<u8>, UpdateError<E>>)
        ensures
            accepted == archive_outcome::<E>(*self, *update, archive, digest@),
    {
        if same_digest(digest, &update.sha256) {
            Ok(archive)
        } else {
            Err(
                UpdateError::ChecksumMismatch {
                    version: update.version.clone(),
                    platform: self.platform,
                },
            )
        }
    }

    fn download<E>(&self, update: &AvailableUpdate, reply: Result<Vec<u8>, E>) -> (archive: Result<
        Vec<u8>,
        UpdateError<E>,
    >)
        ensures
            archive == download_outcome(*self, *update, reply),
    {
        match reply {
            Err(error) => Err(UpdateError::Api(error)),
            Ok(archive) => {
                let digest: [u8; 32] = sha256_digest(archive.as_slice());
                self.accept_archive(update, archive, &digest)
            },
        }
    }
}

/// What an update run waits for.
#[derive(Debug)]
pub enum UpdateStage {
    Fetching,
    Downloading(AvailableUpdate),
    Installing(Version),
    Finished,
}

/// What has happened outside.
#[derive(Debug)]
pub enum UpdateEvent<E> {
    /// The service has replied on its latest update.
    Latest(Result<Option<AvailableUpdate>, E>),
    /// The service has replied on the request for the archive.
    Downloaded(Result<Vec<u8>, E>),
    /// The archive has been installed, or that failed.
    Installed(Result<(), UpdateError<E>>),
}

/// What is to be done outside.
#[derive(Debug)]
pub enum UpdateAction<E> {
    /// Ask the service for its latest update for the platform.
    FetchLatest(Platform),
    /// Ask the service for the archive of the update for the platform.
    Download(AvailableUpdate, Platform),
    /// Install the archive.
    Install(Vec<u8>),
    /// Nothing more: this is the result of the run.
    Finish(Result<UpdateOutcome, UpdateError<E>>),
}

/// A status to report first, and what is to be done then.
#[derive(Debug)]
pub struct UpdateMove<E> {
    pub report: Option<UpdateStatus>,
    pub action: UpdateAction<E>,
}

/// An update on its way.
#[derive(Debug)]
pub struct UpdateRun {
    config: UpdateConfig,
    stage: UpdateStage,
}

/// The first move of every run.
pub open spec fn first_move<E>(config: UpdateConfig) -> UpdateMove<E> {
    UpdateMove {
        report: Some(UpdateStatus::Checking),
        action: UpdateAction::FetchLatest(config.target()),
    }
}

/// The move that ends a run.
pub open spec fn last_move<E>(
    report: Option<UpdateStatus>,
    result: Result<UpdateOutcome, UpdateError<E>>,
) -> (UpdateStage, UpdateMove<E>) {
    (UpdateStage::Finished, UpdateMove { report, action: UpdateAction::Finish(result) })
}

/// The event is one that the stage waits for.
pub open spec fn awaited<E>(stage: UpdateStage, event: UpdateEvent<E>) -> bool {
    match stage {
        UpdateStage::Fetching => event is Latest,
        UpdateStage::Downloading(_) => event is Downloaded,
        UpdateStage::Installing(_) => event is Installed,
        UpdateStage::Finished => false,
    }
}

/// Where a run goes from `stage` when `event` happens, and the move that it makes.
pub open spec fn next_move<E>(config: UpdateConfig, stage: UpdateStage, event: UpdateEvent<E>) -> (
    UpdateStage,
    UpdateMove<E>,
) {
    match (stage, event) {
        (UpdateStage::Fetching, UpdateEvent::Latest(latest)) => match check_outcome(
            config,
            latest,
        ) {
            Err(error) => last_move(None, Err(error)),
            Ok(UpdateCheck::UpToDate { version }) => last_move(
                Some(UpdateStatus::UpToDate { version }),
                Ok(UpdateOutcome::UpToDate { version }),
            ),
            Ok(UpdateCheck::Available(update)) => (
                UpdateStage::Downloading(update),
                UpdateMove {
                    report: Some(UpdateStatus::Downloading { version: update.offered() }),
                    action: UpdateAction::Download(update, config.target()),
                },
            ),
        },
        (UpdateStage::Downloading(update), UpdateEvent::Downloaded(reply)) => match download_outcome(
            config,
            update,
            reply,
        ) {
            Err(error) => last_move(None, Err(error)),
            Ok(archive) => (
                UpdateStage::Installing(update.offered()),
                UpdateMove {
                    report: Some(UpdateStatus::Installing { version: update.offered() }),
                    action: UpdateAction::Install(archive),
                },
            ),
        },
        (UpdateStage::Installing(version), UpdateEvent::Installed(result)) => match result {
            Err(error) => last_move(None, Err(error)),
            Ok(()) => last_move(
                Some(UpdateStatus::Updated { version }),
                Ok(UpdateOutcome::Updated { version }),
            ),
        },
        _ => arbitrary(),
    }
}

impl UpdateRun {
    /// What the run was configured with.
    pub closed spec fn configuration(self) -> UpdateConfig {
        self.config
    }

    /// What the run waits for.
    pub closed spec fn waits_for(self) -> UpdateStage {
        self.stage
    }

    fn finish<E>(
        &mut self,
        report: Option<UpdateStatus>,
        result: Result<UpdateOutcome, UpdateError<E>>,
    ) -> (next: UpdateMove<E>)
        ensures
            final(self).configuration() == old(self).configuration(),
            (final(self).waits_for(), next) == last_move(report, result),
    {
        self.stage = UpdateStage::Finished;
        UpdateMove { report, action: UpdateAction::Finish(result) }
    }

    /// The next move, now that `event` has happened.
    pub fn advance<E>(&mut self, event: UpdateEvent<E>) -> (next: UpdateMove<E>)
        requires
            awaited(old(self).waits_for(), event),
        ensures
            final(self).configuration() == old(self).configuration(),
            (final(self).waits_for(), next) == next_move(
                old(self).configuration(),
                old(self).waits_for(),
                event,
            ),
    {
        match event {
            UpdateEvent::Latest(latest) => match self.config.check(latest) {
                Err(error) => self.finish(None, Err(error)),
                Ok(UpdateCheck::UpToDate { version }) => {
                    let report = UpdateStatus::UpToDate { version: version.clone() };
                    self.finish(Some(report), Ok(UpdateOutcome::UpToDate { version }))
                },
                Ok(UpdateCheck::Available(update)) => {
                    let report = UpdateStatus::Downloading { version: update.version.clone() };
                    self.stage = UpdateStage::Downloading(update.clone());
                    UpdateMove {
                        report: Some(report),
                        action: UpdateAction::Download(update, self.config.platform),
                    }
                },
            },
            UpdateEvent::Downloaded(reply) => {
                let (result, version) = match &self.stage {
                    UpdateStage::Downloading(update) => (
                        self.config.download(update, reply),
                        update.version.clone(),
                    ),
                    _ => unreached(),
                };
                match result {
                    Err(error) => self.finish(None, Err(error)),
                    Ok(archive) => {
                        let report = UpdateStatus::Installing { version: version.clone() };
                        self.stage = UpdateStage::Installing(version);
                        UpdateMove {
                            report: Some(report),
                            action: UpdateAction::Install(archive),
                        }
                    },
                }
            },
            UpdateEvent::Installed(result) => {
                let version: Version = match &self.stage {
                    UpdateStage::Installing(version) => version.clone(),
                    _ => unreached(),
                };
                match result {
                    Err(error) => self.finish(None, Err(error)),
                    Ok(()) => {
                        let report = UpdateStatus::Updated { version: version.clone() };
                        self.finish(Some(report), Ok(UpdateOutcome::Updated { version }))
                    },
                }
            },
        }
    }
}

impl<A> AppUpdater<A> {
    /// Starts an update: the run, and its first move.
    pub fn update_with_status<E>(&self) -> (start: (UpdateRun, UpdateMove<E>))
        ensures
            start.0.configuration() == self.configuration(),
            start.0.waits_for() == UpdateStage::Fetching,
            start.1 == first_move::<E>(self.configuration()),
    {
        let config = UpdateConfig {
            current_version: self.config.current_version.clone(),
            platform: self.config.platform,
        };
        let action = UpdateAction::FetchLatest(config.platform);
        (
            UpdateRun { config, stage: UpdateStage::Fetching },
            UpdateMove { report: Some(UpdateStatus::Checking), action },
        )
    }

    /// Starts an update whose reports nobody reads: it takes the same course.
    pub fn update<E>(&self) -> (start: (UpdateRun, UpdateMove<E>))
        ensures
            start.0.configuration() == self.configuration(),
            start.0.waits_for() == UpdateStage::Fetching,
            start.1 == first_move::<E>(self.configuration()),
    {
        self.update_with_status()
    }
}

/// What the world outside answers to the requests of a run.
pub ghost struct Replies<E> {
    pub latest: Result<Option<AvailableUpdate>, E>,
    pub downloaded: Result<Vec<u8>, E>,
    pub installed: Result<(), UpdateError<E>>,
}

/// What a run has reported and asked for, in order.
pub ghost struct Record<E> {
    pub reports: Seq<UpdateStatus>,
    pub actions: Seq<UpdateAction<E>>,
}

/// How many more events the stage can wait for.
pub open spec fn events_left(stage: UpdateStage) -> nat {
    match stage {
        UpdateStage::Fetching => 3,
        UpdateStage::Downloading(_) => 2,
        UpdateStage::Installing(_) => 1,
        UpdateStage::Finished => 0,
    }
}

/// The reply that the stage waits for.
pub open spec fn reply_event<E>(stage: UpdateStage, replies: Replies<E>) -> UpdateEvent<E> {
    match stage {
        UpdateStage::Fetching => UpdateEvent::Latest(replies.latest),
        UpdateStage::Downloading(_) => UpdateEvent::Downloaded(replies.downloaded),
        _ => UpdateEvent::Installed(replies.installed),
    }
}

/// What a run reports and asks for from the move `now` on, when it gets these replies.
pub open spec fn driven<E>(
    config: UpdateConfig,
    stage: UpdateStage,
    now: UpdateMove<E>,
    replies: Replies<E>,
) -> Record<E>
    decreases events_left(stage),
{
    let reports = match now.report {
        Some(status) => seq![status],
        None => Seq::empty(),
    };
    if events_left(stage) == 0 {
        Record { reports, actions: seq![now.action] }
    } else {
        let (stage, next) = next_move(config, stage, reply_event(stage, replies));
        let rest = driven(config, stage, next, replies);
        Record { reports: reports + rest.reports, actions: seq![now.action] + rest.actions }
    }
}

/// The whole course of an update: it looks for one; where there is none, that is the end;
/// else it downloads, and where the archive is the right one installs it.
pub open spec fn course<E>(config: UpdateConfig, replies: Replies<E>) -> Record<E> {
    let ask = UpdateAction::FetchLatest(config.target());
    match check_outcome(config, replies.latest) {
        Err(error) => Record {
            reports: seq![UpdateStatus::Checking],
            actions: seq![ask, UpdateAction::Finish(Err(error))],
        },
        Ok(UpdateCheck::UpToDate { version }) => Record {
            reports: seq![UpdateStatus::Checking, UpdateStatus::UpToDate { version }],
            actions: seq![ask, UpdateAction::Finish(Ok(UpdateOutcome::UpToDate { version }))],
        },
        Ok(UpdateCheck::Available(update)) => {
            let version = update.offered();
            let get = UpdateAction::Download(update, config.target());
            match download_outcome(config, update, replies.downloaded) {
                Err(error) => Record {
                    reports: seq![UpdateStatus::Checking, UpdateStatus::Downloading { version }],
                    actions: seq![ask, get, UpdateAction::Finish(Err(error))],
                },
                Ok(archive) => match replies.installed {
                    Err(error) => Record {
                        reports: seq![
                            UpdateStatus::Checking,
                            UpdateStatus::Downloading { version },
                            UpdateStatus::Installing { version },
                        ],
                        actions: seq![
                            ask,
                            get,
                            UpdateAction::Install(archive),
                            UpdateAction::Finish(Err(error)),
                        ],
                    },
                    Ok(()) => Record {
                        reports: seq![
                            UpdateStatus::Checking,
                            UpdateStatus::Downloading { version },
                            UpdateStatus::Installing { version },
                            UpdateStatus::Updated { version },
                        ],
                        actions: seq![
                            ask,
                            get,
                            UpdateAction::Install(archive),
                            UpdateAction::Finish(Ok(UpdateOutcome::Updated { version })),
                        ],
                    },
                },
            }
        },
    }
}

/// Whatever the world outside answers, a run reports and asks for exactly what its course is,
/// in that order, and then has ended.
pub proof fn a_run_takes_its_course<E>(config: UpdateConfig, replies: Replies<E>)
    ensures
        driven(config, UpdateStage::Fetching, first_move(config), replies) == course(
            config,
            replies,
        ),
{
    reveal_with_fuel(driven, 4);
    let run = driven(config, UpdateStage::Fetching, first_move(config), replies);
    let expected = course(config, replies);
    assert(run.reports =~= expected.reports);
    assert(run.actions =~= expected.actions);
}

/// Every event brings a run closer to its end, and it is at its end when it has a result.
pub proof fn every_event_brings_the_end_closer<E>(
    config: UpdateConfig,
    stage: UpdateStage,
    event: UpdateEvent<E>,
)
    requires
        awaited(stage, event),
    ensures
        events_left(next_move(config, stage, event).0) < events_left(stage),
        next_move(config, stage, event).1.action is Finish <==> next_move(
            config,
            stage,
            event,
        ).0 is Finished,
{
}

/// In whatever state a run is and whatever happens, it asks to install an archive only when
/// the service has just sent that archive and its digest is the checksum of the update.
pub proof fn only_verified_archives_are_installed<E>(
    config: UpdateConfig,
    stage: UpdateStage,
    event: UpdateEvent<E>,
)
    requires
        awaited(stage, event),
    ensures
        next_move(config, stage, event).1.action matches UpdateAction::Install(archive) ==> {
            &&& stage matches UpdateStage::Downloading(update)
            &&& event == UpdateEvent::<E>::Downloaded(Ok(archive))
            &&& sha256(archive@) == update.checksum()
        },
{
}

/// An archive with another digest than the checksum of the update ends the run with an error
/// that says so, and nothing is installed.
pub proof fn a_wrong_archive_is_refused<E>(
    config: UpdateConfig,
    update: AvailableUpdate,
    archive: Vec<u8>,
)
    requires
        sha256(archive@) != update.checksum(),
    ensures
        next_move::<E>(
            config,
            UpdateStage::Downloading(update),
            UpdateEvent::Downloaded(Ok(archive)),
        ) == last_move::<E>(
            None,
            Err(
                UpdateError::ChecksumMismatch {
                    version: update.offered(),
                    platform: config.target(),
                },
            ),
        ),
{
}

/// An update that is published with the digest of its archive, in hexadecimal notation, takes
/// that archive.
pub proof fn an_archive_fits_its_own_digest<E>(
    config: UpdateConfig,
    update: AvailableUpdate,
    archive: Vec<u8>,
    digest: [u8; 32],
)
    requires
        digest@ == sha256(archive@),
        update.checksum() == checksum_bytes(hex_text(digest@)),
    ensures
        download_outcome::<E>(config, update, Ok(archive)) == Ok::<Vec<u8>, UpdateError<E>>(
            archive,
        ),
{
    a_written_digest_is_read_back(digest@);
}

/// An update is available only where it is newer than what is installed.
pub proof fn an_update_never_goes_back<E>(config: UpdateConfig, update: AvailableUpdate)
    requires
        check_outcome::<E>(config, Ok(Some(update))) == Ok::<UpdateCheck, UpdateError<E>>(
            UpdateCheck::Available(update),
        ),
    ensures
        version_le(config.version()@, update.offered()@),
        config.version()@ != update.offered()@,
{
    versions_are_totally_ordered(config.version()@, update.offered()@);
}

/// Once an update is installed, the service offering it again means that all is up to date.
pub proof fn an_installed_update_is_not_offered_again<E>(
    config: UpdateConfig,
    update: AvailableUpdate,
)
    requires
        config.version()@ == update.offered()@,
    ensures
        check_outcome::<E>(config, Ok(Some(update))) == Ok::<UpdateCheck, UpdateError<E>>(
            UpdateCheck::UpToDate { version: update.offered() },
        ),
{
}

/// What is an update for one version is an update for every older one.
pub proof fn older_versions_get_the_update_too<E>(
    config: UpdateConfig,
    older: UpdateConfig,
    update: AvailableUpdate,
)
    requires
        version_le(older.version()@, config.version()@),
        check_outcome::<E>(config, Ok(Some(update))) == Ok::<UpdateCheck, UpdateError<E>>(
            UpdateCheck::Available(update),
        ),
    ensures
        check_outcome::<E>(older, Ok(Some(update))) == Ok::<UpdateCheck, UpdateError<E>>(
            UpdateCheck::Available(update),
        ),
{
    if version_le(update.offered()@, older.version()@) {
        version_order_is_transitive(
            update.offered()@,
            older.version()@,
            config.version()@,
        );
    }
}

} // verus!
