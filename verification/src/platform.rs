//! The platforms that updates are made for.
use vstd::prelude::*;

use crate::text::text_eq;

verus! {

/// A platform that updates are published for.
#[derive(Clone, Copy, Debug, PartialEq, Eq, Structural)]
pub enum Platform {
    MacosArm,
    MacosIntel,
    WindowsX8664Gnu,
}

/// Why there is no configuration for this machine.
#[derive(Debug)]
pub enum UpdateConfigError {
    UnsupportedOs(&'static str),
}

/// The name of a platform, as it stands in the names of archives and in requests.
pub open spec fn platform_name(platform: Platform) -> Seq<char> {
    match platform {
        Platform::MacosArm => "macos-arm"@,
        Platform::MacosIntel => "macos-intel"@,
        Platform::WindowsX8664Gnu => "windows-x86_64-gnu"@,
    }
}

/// The platform of a machine with this operating system and processor.
pub open spec fn platform_of(os: Seq<char>, arch: Seq<char>) -> Option<Platform> {
    if os == "macos"@ {
        if arch == "aarch64"@ {
            Some(Platform::MacosArm)
        } else {
            Some(Platform::MacosIntel)
        }
    } else if os == "windows"@ {
        Some(Platform::WindowsX8664Gnu)
    } else {
        None
    }
}

impl Platform {
    /// The platform of a machine whose operating system and processor architecture the
    /// standard library calls `os` and `arch`.
    pub fn current(os: &'static str, arch: &str) -> (platform: Result<Self, UpdateConfigError>)
        ensures
            match platform {
                Ok(platform) => platform_of(os@, arch@) == Some(platform),
                Err(UpdateConfigError::UnsupportedOs(name)) => platform_of(os@, arch@) is None
                    && name@ == os@,
            },
    {
        if text_eq(os, "macos") {
            if text_eq(arch, "aarch64") {
                Ok(Platform::MacosArm)
            } else {
                Ok(Platform::MacosIntel)
            }
        } else if text_eq(os, "windows") {
            Ok(Platform::WindowsX8664Gnu)
        } else {
            Err(UpdateConfigError::UnsupportedOs(os))
        }
    }

    /// The name of the platform.
    pub fn as_str(self) -> (name: &'static str)
        ensures
            name@ == platform_name(self),
    {
        match self {
            Platform::MacosArm => "macos-arm",
            Platform::MacosIntel => "macos-intel",
            Platform::WindowsX8664Gnu => "windows-x86_64-gnu",
        }
    }
}

impl UpdateConfigError {
    /// What to tell the user.
    pub fn message(&self) -> (text: String)
        ensures
            match self {
                UpdateConfigError::UnsupportedOs(os) => text@ == "unsupported OS: "@ + os@,
            },
    {
        match self {
            UpdateConfigError::UnsupportedOs(os) => "unsupported OS: ".to_owned().concat(os),
        }
    }
}

/// No two platforms share a name.
pub proof fn platform_names_are_distinct(a: Platform, b: Platform)
    requires
        platform_name(a) == platform_name(b),
    ensures
        a == b,
{
    reveal_strlit("macos-arm");
    reveal_strlit("macos-intel");
    reveal_strlit("windows-x86_64-gnu");
    assert(platform_name(Platform::MacosArm).len() == 9);
    assert(platform_name(Platform::MacosIntel).len() == 11);
    assert(platform_name(Platform::WindowsX8664Gnu).len() == 18);
}

} // verus!
