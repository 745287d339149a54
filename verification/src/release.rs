//! A release as a whole: which of its stages take place, and which version it has.
use vstd::prelude::*;

use crate::command::{plain_command, Command, CommandView};
use crate::path::{join, joined, PathStyle};
use crate::text::{begins_with, starts_with, text_eq, texts};

verus! {

/// What was asked for.
#[derive(Debug)]
pub struct ReleaseOptions {
    /// How the system that makes the release reads paths.
    pub style: PathStyle,
    pub project_root: String,
    pub package: String,
    pub binary: String,
    pub app_name: String,
    pub windows_icon: Option<String>,
    pub upload_prod: bool,
    pub skip_upload: bool,
    pub skip_codesign: bool,
    pub skip_build: bool,
    pub platforms: Option<Vec<String>>,
}

/// Which variables of the environment are set.
#[derive(Clone, Copy, Debug, PartialEq, Eq, Structural)]
pub struct Variables {
    pub apple_team_id: bool,
    pub apple_id: bool,
    pub apple_app_specific_password: bool,
    pub version_server_api_key: bool,
}

/// The platforms that a release is for where none are named.
pub open spec fn default_platforms() -> Seq<Seq<char>> {
    seq!["macos-arm"@, "macos-intel"@, "windows-x86_64-gnu"@]
}

/// The platforms that a release is for.
pub open spec fn release_platforms(named: Option<Vec<String>>) -> Seq<Seq<char>> {
    match named {
        Some(platforms) => texts(platforms@),
        None => default_platforms(),
    }
}

/// All that the notarization account takes is set.
pub open spec fn credentials_present(variables: Variables) -> bool {
    variables.apple_team_id && variables.apple_id && variables.apple_app_specific_password
}

/// The platform is one of macOS.
pub open spec fn is_macos(platform: Seq<char>) -> bool {
    begins_with(platform, "macos-"@)
}

/// The archives are to be signed.
pub open spec fn signing_wanted(
    skip_codesign: bool,
    platforms: Seq<Seq<char>>,
    variables: Variables,
) -> bool {
    !skip_codesign && credentials_present(variables) && exists|i: int|
        0 <= i < platforms.len() && is_macos(#[trigger] platforms[i])
}

/// Whether all that the notarization account takes is set.
pub fn apple_credentials_present(variables: &Variables) -> (present: bool)
    ensures
        present == credentials_present(*variables),
{
    variables.apple_team_id && variables.apple_id && variables.apple_app_specific_password
}

/// Whether one of the platforms is one of macOS.
fn any_macos(platforms: &Vec<String>) -> (any: bool)
    ensures
        any == exists|i: int| 0 <= i < platforms.len() && is_macos(#[trigger] texts(platforms@)[i]),
{
    for i in 0..platforms.len()
        invariant
            forall|j: int| 0 <= j < i ==> !is_macos(#[trigger] texts(platforms@)[j]),
    {
        if starts_with(platforms[i].as_str(), "macos-") {
            assert(is_macos(texts(platforms@)[i as int]));
            return true;
        }
        assert(texts(platforms@)[i as int] == platforms@[i as int]@);
    }
    false
}

/// The platforms that a release is for: those that are named, or else all.
pub fn wanted_platforms(named: Option<Vec<String>>) -> (platforms: Vec<String>)
    ensures
        texts(platforms@) == release_platforms(named),
{
    match named {
        Some(platforms) => platforms,
        None => {
            let platforms: Vec<String> = vec![
                "macos-arm".to_owned(),
                "macos-intel".to_owned(),
                "windows-x86_64-gnu".to_owned(),
            ];
            assert(texts(platforms@) =~= default_platforms());
            platforms
        },
    }
}

/// Whether the archives are to be signed: unless that is to be skipped, where one is for macOS
/// and the notarization account is there.
pub fn should_sign(skip_codesign: bool, platforms: &Vec<String>, variables: &Variables) -> (yes:
    bool)
    ensures
        yes == signing_wanted(skip_codesign, texts(platforms@), *variables),
{
    !skip_codesign && any_macos(platforms) && apple_credentials_present(variables)
}

/// Whether the archives are to be uploaded: unless that is to be skipped, where there is a key
/// for the version server.
pub fn should_upload(skip_upload: bool, variables: &Variables) -> (yes: bool)
    ensures
        yes == (!skip_upload && variables.version_server_api_key),
{
    !skip_upload && variables.version_server_api_key
}

/// A package of a project.
#[derive(Debug)]
pub struct Package {
    pub name: String,
    pub version: String,
}

/// The version of the first package with that name.
pub open spec fn version_in(packages: Seq<Package>, name: Seq<char>) -> Option<Seq<char>>
    decreases packages.len(),
{
    if packages.len() == 0 {
        None
    } else if packages[0].name@ == name {
        Some(packages[0].version@)
    } else {
        version_in(packages.drop_first(), name)
    }
}

/// The command that describes the packages of a project.
pub open spec fn metadata_command_for(style: PathStyle, root: Seq<char>) -> CommandView {
    plain_command(
        "cargo"@,
        seq![
            "metadata"@,
            "--no-deps"@,
            "--format-version"@,
            "1"@,
            "--manifest-path"@,
            joined(style, root, "Cargo.toml"@),
        ],
    )
}

/// The command that describes the packages of a project.
pub fn metadata_command(style: PathStyle, root: &str) -> (command: Command)
    ensures
        command@ == metadata_command_for(style, root@),
{
    let manifest: String = join(style, root, "Cargo.toml");
    let command = Command::new(
        "cargo",
        vec![
            "metadata",
            "--no-deps",
            "--format-version",
            "1",
            "--manifest-path",
            manifest.as_str(),
        ],
    );
    assert(command@.args =~= metadata_command_for(style, root@).args);
    command
}

/// The version of the package, given the packages that the command describes, or `None` where
/// it has failed.
pub fn app_version(packages: Option<&Vec<Package>>, package: &str) -> (version: Result<
    String,
    String,
>)
    ensures
        match version {
            Ok(version) => packages is Some && version_in(packages->0@, package@) == Some(version@),
            Err(message) => match packages {
                Some(packages) => version_in(packages@, package@) is None && message@
                    == "package not found: "@ + package@,
                None => message@ == "cargo metadata failed"@,
            },
        },
{
    let list: &Vec<Package> = match packages {
        Some(packages) => packages,
        None => {
            return Err("cargo metadata failed".to_owned());
        },
    };
    assert(list@.skip(0) =~= list@);
    for i in 0..list.len()
        invariant
            packages == Some(list),
            version_in(list@, package@) == version_in(list@.skip(i as int), package@),
    {
        assert(list@.skip(i as int).drop_first() =~= list@.skip(i + 1));
        if text_eq(list[i].name.as_str(), package) {
            return Ok(list[i].version.clone());
        }
    }
    Err("package not found: ".to_owned().concat(package))
}

} // verus!
