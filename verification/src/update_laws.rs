//! What an update comes to, stated on versions, replies and digests.
use vstd::prelude::*;

use crate::checksum::{
    byte_value, checksum_bytes, hex_text, is_checksum, lemma_hex_digit, sha256,
};
use crate::error::{restart_error_text, update_error_text, RestartError, UpdateError};
use crate::platform::{platform_name, platform_of, Platform};
use crate::text::{ascii_lower, pieces, same_but_for_case};
use crate::update::{
    archive_outcome, check_outcome, download_outcome, driven, first_move, next_move,
    AvailableUpdate, Replies, UpdateAction, UpdateCheck, UpdateConfig, UpdateEvent, UpdateMove,
    UpdateOutcome, UpdateStage, UpdateStatus,
};
use crate::version::{
    decides_at, identifier_less, label_less, numeric, version_le, version_text,
    versions_are_totally_ordered, Version, VersionView,
};

verus! {

/// The numbers of `a` are lower than those of `b`: the first of them that differs is.
pub open spec fn numbers_lower(a: VersionView, b: VersionView) -> bool {
    ||| a.major < b.major
    ||| a.major == b.major && a.minor < b.minor
    ||| a.major == b.major && a.minor == b.minor && a.patch < b.patch
}

/// Both have the same numbers.
pub open spec fn numbers_same(a: VersionView, b: VersionView) -> bool {
    a.major == b.major && a.minor == b.minor && a.patch == b.patch
}

/// An update is available exactly where its version is not at most the installed one; else all is
/// up to date with that version.
pub proof fn an_update_is_available_exactly_where_it_is_newer<E>(
    config: UpdateConfig,
    update: AvailableUpdate,
    check: Result<UpdateCheck, UpdateError<E>>,
)
    requires
        check == check_outcome::<E>(config, Ok(Some(update))),
    ensures
        check == Ok::<UpdateCheck, UpdateError<E>>(UpdateCheck::Available(update)) <==> !version_le(
            update.offered()@,
            config.version()@,
        ),
        check == Ok::<UpdateCheck, UpdateError<E>>(
            UpdateCheck::UpToDate { version: update.offered() },
        ) <==> version_le(update.offered()@, config.version()@),
{
}

/// An update whose first differing number is higher is available, and one whose is lower is not,
/// whatever the labels are.
pub proof fn the_first_differing_number_decides<E>(config: UpdateConfig, update: AvailableUpdate)
    ensures
        numbers_lower(config.version()@, update.offered()@) ==> check_outcome::<E>(
            config,
            Ok(Some(update)),
        ) == Ok::<UpdateCheck, UpdateError<E>>(UpdateCheck::Available(update)),
        numbers_lower(update.offered()@, config.version()@) ==> check_outcome::<E>(
            config,
            Ok(Some(update)),
        ) == Ok::<UpdateCheck, UpdateError<E>>(
            UpdateCheck::UpToDate { version: update.offered() },
        ),
{
}

/// A release updates its pre-releases, and none of those updates the release.
pub proof fn a_release_updates_its_prereleases<E>(config: UpdateConfig, update: AvailableUpdate)
    requires
        numbers_same(config.version()@, update.offered()@),
    ensures
        config.version()@.pre.len() > 0 && update.offered()@.pre.len() == 0 ==> check_outcome::<E>(
            config,
            Ok(Some(update)),
        ) == Ok::<UpdateCheck, UpdateError<E>>(UpdateCheck::Available(update)),
        config.version()@.pre.len() == 0 && update.offered()@.pre.len() > 0 ==> check_outcome::<E>(
            config,
            Ok(Some(update)),
        ) == Ok::<UpdateCheck, UpdateError<E>>(
            UpdateCheck::UpToDate { version: update.offered() },
        ),
{
}

/// Of two pre-releases of one version that agree in their first identifiers, the one that ends
/// there is older; where they go on, a number is older than what is none.
pub proof fn prereleases_are_ordered_by_their_first_difference(
    a: VersionView,
    b: VersionView,
    k: int,
)
    requires
        numbers_same(a, b),
        a.pre.len() > 0,
        b.pre.len() > 0,
        0 <= k <= pieces(a.pre, '.').len(),
        k < pieces(b.pre, '.').len(),
        pieces(a.pre, '.').take(k) == pieces(b.pre, '.').take(k),
        k < pieces(a.pre, '.').len() ==> numeric(pieces(a.pre, '.')[k]) && !numeric(
            pieces(b.pre, '.')[k],
        ),
    ensures
        version_le(a, b),
        !version_le(b, a),
{
    let (x, y) = (pieces(a.pre, '.'), pieces(b.pre, '.'));
    assert(decides_at(x, y, identifier_less(), k));
    assert(label_less(a.pre, b.pre));
    if k < x.len() {
        assert(x[k] != y[k]);
    }
    assert(x != y);
    versions_are_totally_ordered(a, b);
}

/// A check that got no answer fails with the error of the service, and one that found no version
/// with that, naming the platform.
pub proof fn a_check_without_a_version_fails<E>(config: UpdateConfig, error: E)
    ensures
        check_outcome::<E>(config, Err(error)) == Err::<UpdateCheck, UpdateError<E>>(
            UpdateError::Api(error),
        ),
        check_outcome::<E>(config, Ok(None)) == Err::<UpdateCheck, UpdateError<E>>(
            UpdateError::NoVersion { platform: config.target() },
        ),
{
}

/// An archive is taken exactly where its digest is the checksum of the update, and then as it is;
/// else the mismatch is the error, with the version of the update and the platform.
pub proof fn an_archive_is_taken_exactly_by_its_digest<E>(
    config: UpdateConfig,
    update: AvailableUpdate,
    archive: Vec<u8>,
    digest: Seq<u8>,
    error: E,
)
    ensures
        archive_outcome::<E>(config, update, archive, digest) is Ok <==> digest
            == update.checksum(),
        archive_outcome::<E>(config, update, archive, digest) matches Ok(taken) ==> taken
            == archive,
        archive_outcome::<E>(config, update, archive, digest) matches Err(error) ==> error
            == (UpdateError::<E>::ChecksumMismatch {
            version: update.offered(),
            platform: config.target(),
        }),
        download_outcome::<E>(config, update, Ok(archive)) is Ok <==> sha256(archive@)
            == update.checksum(),
        download_outcome::<E>(config, update, Ok(archive)) matches Ok(taken) ==> taken == archive,
        download_outcome::<E>(config, update, Ok(archive)) matches Err(error) ==> error
            == (UpdateError::<E>::ChecksumMismatch {
            version: update.offered(),
            platform: config.target(),
        }),
        download_outcome::<E>(config, update, Err(error)) == Err::<Vec<u8>, UpdateError<E>>(
            UpdateError::Api(error),
        ),
{
}

/// Where there is no newer version, a run asks the service once, and ends: with what went wrong,
/// or up to date.
pub proof fn a_run_without_an_update_asks_once<E>(config: UpdateConfig, replies: Replies<E>)
    ensures
        ({
            let run = driven(config, UpdateStage::Fetching, first_move(config), replies);
            let ask = UpdateAction::<E>::FetchLatest(config.target());
            match replies.latest {
                Err(error) => {
                    &&& run.reports == seq![UpdateStatus::Checking]
                    &&& run.actions == seq![ask, UpdateAction::Finish(Err(UpdateError::Api(error)))]
                },
                Ok(None) => {
                    &&& run.reports == seq![UpdateStatus::Checking]
                    &&& run.actions == seq![
                        ask,
                        UpdateAction::Finish(
                            Err(UpdateError::NoVersion { platform: config.target() }),
                        ),
                    ]
                },
                Ok(Some(update)) => version_le(update.offered()@, config.version()@) ==> {
                    let version = update.offered();
                    &&& run.reports == seq![
                        UpdateStatus::Checking,
                        UpdateStatus::UpToDate { version },
                    ]
                    &&& run.actions == seq![
                        ask,
                        UpdateAction::Finish(Ok(UpdateOutcome::UpToDate { version })),
                    ]
                },
            }
        }),
{
    reveal_with_fuel(driven, 4);
}

/// Where there is a newer version, a run asks for its archive, and where that has the right digest
/// for its installation; each is reported before it begins, and the end of it all where it is a
/// good one.
pub proof fn a_run_with_an_update_fetches_and_installs_it<E>(
    config: UpdateConfig,
    replies: Replies<E>,
    update: AvailableUpdate,
)
    requires
        replies.latest == Ok::<Option<AvailableUpdate>, E>(Some(update)),
        !version_le(update.offered()@, config.version()@),
    ensures
        ({
            let run = driven(config, UpdateStage::Fetching, first_move(config), replies);
            let ask = UpdateAction::<E>::FetchLatest(config.target());
            let get = UpdateAction::<E>::Download(update, config.target());
            let version = update.offered();
            let started = seq![UpdateStatus::Checking, UpdateStatus::Downloading { version }];
            match replies.downloaded {
                Err(error) => {
                    &&& run.reports == started
                    &&& run.actions == seq![
                        ask,
                        get,
                        UpdateAction::Finish(Err(UpdateError::Api(error))),
                    ]
                },
                Ok(archive) => if sha256(archive@) != update.checksum() {
                    &&& run.reports == started
                    &&& run.actions == seq![
                        ask,
                        get,
                        UpdateAction::Finish(
                            Err(
                                UpdateError::ChecksumMismatch {
                                    version,
                                    platform: config.target(),
                                },
                            ),
                        ),
                    ]
                } else {
                    match replies.installed {
                        Err(error) => {
                            &&& run.reports == started.push(UpdateStatus::Installing { version })
                            &&& run.actions == seq![
                                ask,
                                get,
                                UpdateAction::Install(archive),
                                UpdateAction::Finish(Err(error)),
                            ]
                        },
                        Ok(()) => {
                            &&& run.reports == started.push(
                                UpdateStatus::Installing { version },
                            ).push(UpdateStatus::Updated { version })
                            &&& run.actions == seq![
                                ask,
                                get,
                                UpdateAction::Install(archive),
                                UpdateAction::Finish(Ok(UpdateOutcome::Updated { version })),
                            ]
                        },
                    }
                },
            }
        }),
{
    reveal_with_fuel(driven, 4);
}

/// The run ends with the result, and nothing is reported of it but where it is a good one.
pub open spec fn ends_with<E>(
    after: (UpdateStage, UpdateMove<E>),
    report: Option<UpdateStatus>,
    result: Result<UpdateOutcome, UpdateError<E>>,
) -> bool {
    let (stage, next) = after;
    stage == UpdateStage::Finished && next.report == report && next.action == UpdateAction::Finish(
        result,
    )
}

/// What comes of the offer of a version: the download of it where it is newer, else the end.
pub proof fn an_offer_is_downloaded_where_it_is_newer<E>(
    config: UpdateConfig,
    update: AvailableUpdate,
    error: E,
)
    ensures
        ({
            let after = next_move::<E>(
                config,
                UpdateStage::Fetching,
                UpdateEvent::Latest(Ok(Some(update))),
            );
            let version = update.offered();
            &&& !version_le(version@, config.version()@) ==> {
                let (stage, next) = after;
                &&& stage == UpdateStage::Downloading(update)
                &&& next.report == Some(UpdateStatus::Downloading { version })
                &&& next.action == UpdateAction::<E>::Download(update, config.target())
            }
            &&& version_le(version@, config.version()@) ==> ends_with(
                after,
                Some(UpdateStatus::UpToDate { version }),
                Ok(UpdateOutcome::UpToDate { version }),
            )
        }),
        ends_with(
            next_move::<E>(config, UpdateStage::Fetching, UpdateEvent::Latest(Ok(None))),
            None,
            Err(UpdateError::NoVersion { platform: config.target() }),
        ),
        ends_with(
            next_move::<E>(config, UpdateStage::Fetching, UpdateEvent::Latest(Err(error))),
            None,
            Err(UpdateError::Api(error)),
        ),
{
}

/// What comes of an archive: its installation where its digest is the checksum, else the end.
pub proof fn an_archive_is_installed_where_its_digest_fits<E>(
    config: UpdateConfig,
    update: AvailableUpdate,
    archive: Vec<u8>,
    error: E,
)
    ensures
        ({
            let after = next_move::<E>(
                config,
                UpdateStage::Downloading(update),
                UpdateEvent::Downloaded(Ok(archive)),
            );
            let version = update.offered();
            &&& sha256(archive@) == update.checksum() ==> {
                let (stage, next) = after;
                &&& stage == UpdateStage::Installing(version)
                &&& next.report == Some(UpdateStatus::Installing { version })
                &&& next.action == UpdateAction::<E>::Install(archive)
            }
            &&& sha256(archive@) != update.checksum() ==> ends_with(
                after,
                None,
                Err(UpdateError::ChecksumMismatch { version, platform: config.target() }),
            )
        }),
        ends_with(
            next_move::<E>(
                config,
                UpdateStage::Downloading(update),
                UpdateEvent::Downloaded(Err(error)),
            ),
            None,
            Err(UpdateError::Api(error)),
        ),
{
}

/// What comes of an installation: the end, with the version that was installed or with what went
/// wrong.
pub proof fn an_installation_is_the_end<E>(
    config: UpdateConfig,
    version: Version,
    failure: UpdateError<E>,
)
    ensures
        ends_with(
            next_move::<E>(
                config,
                UpdateStage::Installing(version),
                UpdateEvent::Installed(Ok(())),
            ),
            Some(UpdateStatus::Updated { version }),
            Ok(UpdateOutcome::Updated { version }),
        ),
        ends_with(
            next_move::<E>(
                config,
                UpdateStage::Installing(version),
                UpdateEvent::Installed(Err(failure)),
            ),
            None,
            Err(failure),
        ),
{
}

/// A Mac is of the ARM platform where its processor is, else of the Intel one; every Windows
/// machine is of the Windows platform; there are no others.
pub proof fn the_platform_is_that_of_system_and_processor(os: Seq<char>, arch: Seq<char>)
    ensures
        platform_of(os, arch) == Some(Platform::MacosArm) <==> os == "macos"@ && arch
            == "aarch64"@,
        platform_of(os, arch) == Some(Platform::MacosIntel) <==> os == "macos"@ && arch
            != "aarch64"@,
        platform_of(os, arch) == Some(Platform::WindowsX8664Gnu) <==> os == "windows"@,
        platform_of(os, arch) is None <==> os != "macos"@ && os != "windows"@,
{
    reveal_strlit("macos");
    reveal_strlit("windows");
    assert("macos"@.len() != "windows"@.len());
}

/// The platforms go by these names.
pub proof fn platforms_go_by_their_names(platform: Platform)
    ensures
        platform == Platform::MacosArm ==> platform_name(platform) == "macos-arm"@,
        platform == Platform::MacosIntel ==> platform_name(platform) == "macos-intel"@,
        platform == Platform::WindowsX8664Gnu ==> platform_name(platform)
            == "windows-x86_64-gnu"@,
{
}

/// The character is a hexadecimal digit.
pub open spec fn hexadecimal(c: char) -> bool {
    ('0' <= c && c <= '9') || ('a' <= c && c <= 'f') || ('A' <= c && c <= 'F')
}

/// A text is a checksum exactly where it is made of 64 hexadecimal digits, and what is read of it
/// gives that text again when it is written, but for the case of its letters.
pub proof fn a_checksum_is_sixty_four_digits_and_is_written_back(text: Seq<char>)
    ensures
        is_checksum(text) <==> text.len() == 64 && forall|i: int|
            0 <= i < 64 ==> hexadecimal(#[trigger] text[i]),
        is_checksum(text) ==> checksum_bytes(text).len() == 32 && same_but_for_case(
            hex_text(checksum_bytes(text)),
            text,
        ),
        is_checksum(text) ==> forall|i: int|
            0 <= i < 64 ==> {
                let written = #[trigger] hex_text(checksum_bytes(text))[i];
                let c = text[i];
                written == c || (written as u32 == c as u32 + 32 && 'A' <= c && c <= 'F')
            },
{
    if is_checksum(text) {
        assert forall|i: int| 0 <= i < 64 implies hexadecimal(#[trigger] text[i]) by {
            lemma_hex_digit(text, i);
        }
        assert forall|i: int| 0 <= i < 64 implies ({
            let written = #[trigger] hex_text(checksum_bytes(text))[i];
            let c = text[i];
            &&& written == c || (written as u32 == c as u32 + 32 && 'A' <= c && c <= 'F')
            &&& ascii_lower(written) == ascii_lower(c)
        }) by {
            lemma_hex_digit(text, i);
        }
    }
    if text.len() == 64 && forall|i: int| 0 <= i < 64 ==> hexadecimal(#[trigger] text[i]) {
        assert forall|i: int| 0 <= i < 32 implies byte_value(
            #[trigger] text[2 * i],
            text[2 * i + 1],
        ) is Some by {
            assert(hexadecimal(text[2 * i]) && hexadecimal(text[2 * i + 1]));
        }
    }
}

/// The value of a hexadecimal digit.
pub open spec fn digit_value(c: char) -> int {
    if '0' <= c && c <= '9' {
        c as u32 - '0' as u32
    } else if 'a' <= c && c <= 'f' {
        c as u32 - 'a' as u32 + 10
    } else {
        c as u32 - 'A' as u32 + 10
    }
}

/// Each byte of a checksum is that of two digits of its text, the higher one first.
pub proof fn each_byte_is_two_digits(text: Seq<char>, i: int)
    requires
        is_checksum(text),
        0 <= i < 32,
    ensures
        checksum_bytes(text)[i] == 16 * digit_value(text[2 * i]) + digit_value(text[2 * i + 1]),
{
    lemma_hex_digit(text, 2 * i);
    lemma_hex_digit(text, 2 * i + 1);
    assert(byte_value(text[2 * i], text[2 * i + 1]) is Some);
}

/// Every update error is told with what it is about.
pub proof fn update_errors_say_what_they_are_about<E>(error: UpdateError<E>, cause: Seq<char>)
    ensures
        ({
            let text = update_error_text(error, cause);
            match error {
                UpdateError::Api(_) => text == "update API failed: "@ + cause,
                UpdateError::UnsupportedOs(os) => text == "unsupported OS: "@ + os@,
                UpdateError::NoVersion { platform } => text == "no version found for "@
                    + platform_name(platform),
                UpdateError::ChecksumMismatch { version, platform } => text
                    == "checksum mismatch for "@ + version_text(version@) + " on "@
                    + platform_name(platform),
                UpdateError::Io(_) => text == "IO error: "@ + cause,
                UpdateError::Zip(_) => text == "zip error: "@ + cause,
                UpdateError::UnsafeArchivePath(name) => text == "archive contains unsafe path: "@
                    + name@,
                UpdateError::MissingExecutable => text
                    == "update archive does not contain an executable"@,
                UpdateError::MultipleExecutables => text
                    == "update archive contains multiple executables"@,
                UpdateError::MissingAppBundle => text == "could not find .app bundle"@,
                UpdateError::MissingMacosBundle => text
                    == "update archive does not contain an .app bundle"@,
                UpdateError::MultipleMacosBundles => text
                    == "update archive contains multiple .app bundles"@,
                UpdateError::InstallCommandFailed(output) => text == "install command failed: "@
                    + output@,
            }
        }),
{
}

/// Every restart error is told with what it is about.
pub proof fn restart_errors_say_what_they_are_about(error: RestartError, cause: Seq<char>)
    ensures
        match error {
            RestartError::UnsupportedOs(os) => restart_error_text(error, cause)
                == "unsupported OS: "@ + os@,
            RestartError::Io(_) => restart_error_text(error, cause) == "IO error: "@ + cause,
            RestartError::MissingAppBundle => restart_error_text(error, cause)
                == "could not find .app bundle"@,
        },
{
}

} // verus!
